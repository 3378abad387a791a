//! A bounded reader over a sequence of field elements.
//!
//! Decoding works on a [`FeltReader`]: scalars consume one element, and every
//! length-prefixed segment is handed out as its own bounded sub-sequence.
//! Exhaustion and invalid values are reported as [`FeltReaderError`] values,
//! never as panics.

use vstd::prelude::*;

use crate::felt::Felt;

verus! {

/// A decode failure.
#[derive(Clone, Copy, Debug, PartialEq, Eq, Structural)]
pub enum FeltReaderError {
    /// The source held fewer elements than the decoder needed.
    OutOfBounds,
    /// An element's value lies outside the target's valid domain.
    InvalidCast,
}

/// A reader over an owned sequence of field elements, consuming from the
/// front.
pub struct FeltReader {
    data: Vec<Felt>,
    pos: usize,
}

/// What reading a length-prefixed segment from `s` yields: the segment's
/// elements and the total number of elements consumed (header included).
///
/// The header denotes one more than the segment's element count, so a header
/// `h` is followed by `h - 1` segment elements. A header that does not fit in
/// a `u64`, or is zero, is an invalid value; a header that promises more
/// elements than remain exhausts the reader.
pub open spec fn spec_read_segment(s: Seq<Felt>) -> Result<(Seq<Felt>, int), FeltReaderError> {
    if s.len() == 0 {
        Err(FeltReaderError::OutOfBounds)
    } else if !s[0].fits_u64() || s[0].d0 == 0 {
        Err(FeltReaderError::InvalidCast)
    } else if s.len() < s[0].d0 {
        Err(FeltReaderError::OutOfBounds)
    } else {
        Ok((s.subrange(1, s[0].d0 as int), s[0].d0 as int))
    }
}

impl FeltReader {
    /// The elements not yet consumed.
    pub closed spec fn remaining(self) -> Seq<Felt> {
        if self.pos as int <= self.data@.len() {
            self.data@.skip(self.pos as int)
        } else {
            Seq::empty()
        }
    }

    /// Open a reader over `data`.
    pub fn new(data: Vec<Felt>) -> (r: FeltReader)
        ensures
            r.remaining() == data@,
    {
        let r = FeltReader { data, pos: 0 };
        proof {
            assert(r.remaining() =~= r.data@);
        }
        r
    }

    /// How many elements remain.
    pub fn remaining_len(&self) -> (r: usize)
        ensures
            r as int == self.remaining().len(),
    {
        if self.pos <= self.data.len() {
            self.data.len() - self.pos
        } else {
            0
        }
    }

    /// Consume and return the next element; exhaustion is an error.
    pub fn read(&mut self) -> (r: Result<Felt, FeltReaderError>)
        ensures
            match r {
                Ok(f) => old(self).remaining().len() > 0 && f == old(self).remaining()[0]
                    && final(self).remaining() == old(self).remaining().skip(1),
                Err(e) => e == FeltReaderError::OutOfBounds && old(self).remaining().len() == 0
                    && final(self).remaining() == old(self).remaining(),
            },
    {
        if self.pos < self.data.len() {
            let f = self.data[self.pos];
            self.pos = self.pos + 1;
            proof {
                assert(self.remaining() =~= old(self).remaining().skip(1));
            }
            Ok(f)
        } else {
            Err(FeltReaderError::OutOfBounds)
        }
    }

    /// Read a length header and hand out the segment it announces, consuming
    /// the header and the segment. The outcome follows [`spec_read_segment`].
    pub fn read_segment(&mut self) -> (r: Result<Vec<Felt>, FeltReaderError>)
        ensures
            match r {
                Ok(seg) => spec_read_segment(old(self).remaining()) matches Ok(p)
                    && seg@ == p.0
                    && final(self).remaining() == old(self).remaining().skip(p.1),
                Err(e) => spec_read_segment(old(self).remaining()) == Err::<(Seq<Felt>, int), FeltReaderError>(e)
                    && final(self).remaining() == old(self).remaining(),
            },
    {
        let ghost pre = self.remaining();
        if self.pos >= self.data.len() {
            return Err(FeltReaderError::OutOfBounds);
        }
        let header = self.data[self.pos];
        let h: u64 = match header.try_to_u64() {
            Some(n) => n,
            None => {
                return Err(FeltReaderError::InvalidCast);
            },
        };
        if h == 0 {
            return Err(FeltReaderError::InvalidCast);
        }
        // `h` counts the header itself plus the segment's elements.
        let available: usize = self.data.len() - self.pos;
        if (available as u64) < h {
            proof {
                assert(pre.len() < h);
            }
            return Err(FeltReaderError::OutOfBounds);
        }
        let count: usize = (h - 1) as usize;
        let mut seg: Vec<Felt> = Vec::new();
        proof {
            assert(seg@ =~= pre.subrange(1, 1));
        }
        let mut i: usize = 0;
        while i < count
            invariant
                i <= count,
                self.data@.len() <= usize::MAX as int,
                count as int == h as int - 1,
                1 <= h as int,
                h as int <= available as int,
                available as int == self.data@.len() - self.pos as int,
                self.data@ == old(self).data@,
                self.pos == old(self).pos,
                pre == self.data@.skip(self.pos as int),
                seg@.len() == i as int,
                seg@ == pre.subrange(1, 1 + i as int),
            decreases count - i,
        {
            seg.push(self.data[self.pos + 1 + i]);
            proof {
                assert(seg@ =~= pre.subrange(1, 1 + i as int + 1));
            }
            i = i + 1;
        }
        proof {
            assert(seg@ =~= pre.subrange(1, h as int));
        }
        self.pos = self.pos + 1 + count;
        proof {
            assert(self.remaining() =~= pre.skip(h as int));
        }
        Ok(seg)
    }
}

} // verus!
