//! Byte sources that the pull streams read from.
use vstd::prelude::*;

use crate::engine::prefix;

verus! {

/// A finite, forward-only producer of bytes.
///
/// `total` is everything the source yields over its life and `taken` what it
/// has yielded so far, always a prefix of `total`. Once `next_byte` returns
/// `None`, everything has been taken.
pub trait ByteSource {
    /// The source's own well-formedness.
    spec fn inv(&self) -> bool;

    /// Every byte the source yields over its whole life, in order.
    spec fn total(&self) -> Seq<u8>;

    /// The bytes it has yielded so far, in order.
    spec fn taken(&self) -> Seq<u8>;

    /// How many times it has been asked for a byte.
    spec fn requests(&self) -> nat;

    fn next_byte(&mut self) -> (r: Option<u8>)
        requires
            old(self).inv(),
            prefix(old(self).taken(), old(self).total()),
        ensures
            final(self).inv(),
            final(self).total() == old(self).total(),
            final(self).requests() == old(self).requests() + 1,
            prefix(final(self).taken(), final(self).total()),
            match r {
                Some(b) => final(self).taken() == old(self).taken().push(b),
                None => {
                    &&& final(self).taken() == old(self).taken()
                    &&& final(self).taken() == final(self).total()
                },
            },
    ;
}

/// A source that yields the bytes of a vector, front to back.
pub struct VecSource {
    data: Vec<u8>,
    pos: usize,
    asked: Ghost<nat>,
}

impl VecSource {
    /// A source over all of `data`.
    pub fn new(data: Vec<u8>) -> (r: Self)
        ensures
            r.inv(),
            r.total() == data@,
            r.taken() == Seq::<u8>::empty(),
            r.requests() == 0,
    {
        VecSource { data, pos: 0, asked: Ghost(0) }
    }
}

impl ByteSource for VecSource {
    closed spec fn inv(&self) -> bool {
        self.pos <= self.data@.len()
    }

    closed spec fn total(&self) -> Seq<u8> {
        self.data@
    }

    closed spec fn taken(&self) -> Seq<u8> {
        self.data@.subrange(0, self.pos as int)
    }

    closed spec fn requests(&self) -> nat {
        self.asked@
    }

    fn next_byte(&mut self) -> (r: Option<u8>)
        ensures
            r == (if old(self).taken().len() < old(self).total().len() {
                Some(old(self).total()[old(self).taken().len() as int])
            } else {
                None
            }),
    {
        self.asked = Ghost(self.asked@ + 1);
        if self.pos < self.data.len() {
            let b = self.data[self.pos];
            self.pos = self.pos + 1;
            assert(self.data@.subrange(0, self.pos as int) =~= old(self).data@.subrange(
                0,
                old(self).pos as int,
            ).push(b));
            assert(self.data@.subrange(0, self.pos as int) =~= self.data@.subrange(
                0,
                self.data@.subrange(0, self.pos as int).len() as int,
            ));
            Some(b)
        } else {
            assert(self.data@.subrange(0, self.pos as int) =~= self.data@);
            None
        }
    }
}

} // verus!
