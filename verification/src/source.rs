//! Lazy outgoing byte sequences for the iterator-style write capabilities.
//!
//! A [`ByteSource`] hands out bytes one at a time, on demand; its ghost view
//! [`ByteSource::pending`] is the sequence of bytes still to come, so a
//! contract can say that an operation drained the source fully and in order.
//! [`VecSource`] is the materialized implementor used by tests and by
//! callers that already hold the bytes.

use vstd::prelude::*;

verus! {

/// A producer of bytes, consumed one at a time, in order, exactly once.
pub trait ByteSource {
    /// The bytes this source will still yield, in order.
    spec fn pending(&self) -> Seq<u8>;

    /// Yields the next byte, or `None` once the source is exhausted.
    fn next_byte(&mut self) -> (r: Option<u8>)
        ensures
            match r {
                Some(b) => old(self).pending().len() > 0 && b == old(self).pending()[0]
                    && final(self).pending() == old(self).pending().drop_first(),
                None => old(self).pending().len() == 0 && final(self).pending() == old(
                    self,
                ).pending(),
            },
    ;
}

/// An exclusive borrow of a source is itself a source yielding the same
/// bytes: every call is forwarded unchanged.
impl<S: ByteSource> ByteSource for &mut S {
    open spec fn pending(&self) -> Seq<u8> {
        (**self).pending()
    }

    fn next_byte(&mut self) -> (r: Option<u8>) {
        (*self).next_byte()
    }
}

/// A byte source backed by a vector, yielding its bytes front to back.
pub struct VecSource {
    data: Vec<u8>,
    pos: usize,
}

impl VecSource {
    /// Makes a source that will yield exactly the bytes of `data`, in order.
    pub fn new(data: Vec<u8>) -> (r: VecSource)
        ensures
            r.pending() == data@,
    {
        let r = VecSource { data, pos: 0 };
        proof {
            assert(r.pending() =~= r.data@);
        }
        r
    }
}

impl ByteSource for VecSource {
    /// The bytes not yet yielded: the tail of the vector from the cursor on.
    closed spec fn pending(&self) -> Seq<u8> {
        if self.pos <= self.data.len() {
            self.data@.skip(self.pos as int)
        } else {
            Seq::empty()
        }
    }

    fn next_byte(&mut self) -> (r: Option<u8>) {
        if self.pos < self.data.len() {
            let b = self.data[self.pos];
            self.pos = self.pos + 1;
            proof {
                assert(self.data@.skip(self.pos as int) =~= old(self).data@.skip(
                    old(self).pos as int,
                ).drop_first());
            }
            Some(b)
        } else {
            None
        }
    }
}

} // verus!
