//! The bounded-destination encoder over a buffer of fixed length: compresses
//! pushed bytes into the buffer and never writes past its end.
use vstd::prelude::*;

use crate::encoder_to_vec::{self, HeatshrinkEncoderToVec};
use crate::engine::{compressed, prefix, INPUT_BUFFER_SIZE, MAX_SEDIMENT};
use crate::value::ValueBytes;

verus! {

/// The outcome of one step of a [`HeatshrinkEncoderTo`].
pub enum Result {
    /// The bytes were taken; the encoder goes on.
    Continue(HeatshrinkEncoderTo),
    /// Compression is complete: the buffer, cut to the compressed data.
    Done(Vec<u8>),
    /// The buffer cannot hold the output; nothing usable was produced.
    Overflow,
}

/// Compresses bytes into a buffer whose whole length is the capacity.
///
/// The last `INPUT_BUFFER_SIZE` bytes are reserved for what the engine emits
/// when it is finished; ordinary output stops before them.
pub struct HeatshrinkEncoderTo {
    inner: HeatshrinkEncoderToVec,
}

impl HeatshrinkEncoderTo {
    /// The encoder's invariant.
    pub closed spec fn well_formed(&self) -> bool {
        &&& self.inner.well_formed()
        &&& self.inner.usable()
        &&& self.inner.header().len() == 0
    }

    /// The length of the buffer.
    pub closed spec fn capacity(&self) -> nat {
        self.inner.capacity()
    }

    /// The write cursor: where the next compressed byte goes.
    pub closed spec fn cursor(&self) -> nat {
        self.inner.cursor()
    }

    /// Every byte pushed so far.
    pub closed spec fn pushed(&self) -> Seq<u8> {
        self.inner.pushed()
    }

    /// How many pushed bytes wait in the engine's staging area.
    pub closed spec fn staged(&self) -> nat {
        self.inner.staged()
    }

    /// The compressed bytes committed to the buffer so far:
    /// `buffer[..cursor]`.
    pub closed spec fn output(&self) -> Seq<u8> {
        self.inner.output()
    }

    /// Whether the compression of everything pushed, then `more`, fits in
    /// the buffer with room to spare. (The engine may report a full buffer
    /// even when its last byte has just gone in, so only a strict fit is
    /// certain to end in `Done`.)
    pub open spec fn fits(&self, more: Seq<u8>) -> bool {
        compressed(self.pushed() + more).len() < self.capacity()
    }

    /// An encoder that writes into `buff`, from its start; the buffer must
    /// hold at least the reserved region.
    pub fn dest(buff: Vec<u8>) -> (r: Self)
        requires
            buff@.len() >= INPUT_BUFFER_SIZE,
        ensures
            r.well_formed(),
            r.capacity() == buff@.len(),
            r.cursor() == 0,
            r.pushed() == Seq::<u8>::empty(),
            r.output() == Seq::<u8>::empty(),
            r.staged() == 0,
    {
        HeatshrinkEncoderTo { inner: HeatshrinkEncoderToVec::within(buff, 0) }
    }

    /// Carries an outcome of the underlying encoder over to this one.
    fn lift(r: encoder_to_vec::Result) -> (out: Result)
        requires
            r matches encoder_to_vec::Result::Continue(e) ==> e.header().len() == 0 && e.usable(),
        ensures
            match r {
                encoder_to_vec::Result::Continue(e) => out matches Result::Continue(f) && f.inner
                    == e,
                encoder_to_vec::Result::Done(v) => out matches Result::Done(w) && w == v,
                encoder_to_vec::Result::Overflow => out is Overflow,
            },
    {
        match r {
            encoder_to_vec::Result::Continue(e) => Result::Continue(HeatshrinkEncoderTo { inner: e }),
            encoder_to_vec::Result::Done(v) => Result::Done(v),
            encoder_to_vec::Result::Overflow => Result::Overflow,
        }
    }

    /// Feeds `data` to the engine, draining output into the buffer when the
    /// engine's staging area fills up.
    pub fn push_bytes(self, data: &[u8]) -> (r: Result)
        requires
            self.well_formed(),
        ensures
            match r {
                Result::Continue(e) => {
                    &&& e.well_formed()
                    &&& e.pushed() == self.pushed() + data@
                    &&& e.capacity() == self.capacity()
                    &&& self.cursor() <= e.cursor()
                    &&& e.cursor() + INPUT_BUFFER_SIZE <= e.capacity()
                    &&& prefix(self.output(), e.output())
                },
                Result::Done(v) => {
                    &&& v@.len() <= self.capacity()
                    &&& v@ == compressed(self.pushed() + data@)
                    &&& prefix(self.output(), v@)
                },
                Result::Overflow => {
                    ||| self.staged() + data@.len() > 2 * INPUT_BUFFER_SIZE - MAX_SEDIMENT
                    ||| !self.fits(data@)
                },
            },
            self.staged() + data@.len() <= INPUT_BUFFER_SIZE ==> (r matches Result::Continue(e)
                && e.cursor() == self.cursor()),
            self.staged() + data@.len() > 2 * INPUT_BUFFER_SIZE - MAX_SEDIMENT ==> r is Overflow,
            data@.len() > 2 * INPUT_BUFFER_SIZE - MAX_SEDIMENT ==> r is Overflow,
    {
        let r = self.inner.push_bytes(data);
        proof {
            if let encoder_to_vec::Result::Done(v) = &r {
                assert(v@.subrange(0, v@.len() as int) =~= v@);
            }
        }
        Self::lift(r)
    }

    /// How many bytes of the buffer hold compressed output so far.
    pub fn written(&self) -> (r: usize)
        ensures
            r == self.cursor(),
    {
        self.inner.written()
    }

    /// Pushes a fixed-size value, as its little-endian bytes.
    pub fn push<V: ValueBytes>(self, data: V) -> (r: Result)
        requires
            self.well_formed(),
        ensures
            match r {
                Result::Continue(e) => {
                    &&& e.well_formed()
                    &&& e.pushed() == self.pushed() + data.le_bytes()
                    &&& e.capacity() == self.capacity()
                    &&& self.cursor() <= e.cursor()
                    &&& e.cursor() + INPUT_BUFFER_SIZE <= e.capacity()
                    &&& prefix(self.output(), e.output())
                },
                Result::Done(v) => {
                    &&& v@.len() <= self.capacity()
                    &&& v@ == compressed(self.pushed() + data.le_bytes())
                    &&& prefix(self.output(), v@)
                },
                Result::Overflow => {
                    ||| self.staged() + data.le_bytes().len() > 2 * INPUT_BUFFER_SIZE
                        - MAX_SEDIMENT
                    ||| !self.fits(data.le_bytes())
                },
            },
            self.staged() + data.le_bytes().len() <= INPUT_BUFFER_SIZE ==> (r matches Result::Continue(e)
                && e.cursor() == self.cursor()),
            self.staged() + data.le_bytes().len() > 2 * INPUT_BUFFER_SIZE - MAX_SEDIMENT ==> r is Overflow,
    {
        let bytes = data.to_le_vec();
        self.push_bytes(bytes.as_slice())
    }

    /// Finishes compression: the buffer cut to the complete compressed form
    /// of everything pushed, which comes whenever it fits with room to spare;
    /// `Overflow` only when it does not.
    pub fn finish(self) -> (r: Result)
        requires
            self.well_formed(),
        ensures
            match r {
                Result::Continue(_) => false,
                Result::Done(v) => {
                    &&& v@.len() <= self.capacity()
                    &&& v@ == compressed(self.pushed())
                },
                Result::Overflow => !self.fits(Seq::<u8>::empty()),
            },
            self.fits(Seq::<u8>::empty()) ==> r is Done,
    {
        let r = self.inner.finish();
        proof {
            if let encoder_to_vec::Result::Done(v) = &r {
                assert(v@.subrange(0, v@.len() as int) =~= v@);
            }
        }
        Self::lift(r)
    }
}

} // verus!
