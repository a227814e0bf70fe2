//! The bounded-destination encoder over a growable buffer: compresses pushed
//! bytes into the spare capacity of a vector, never past that capacity.
use vstd::prelude::*;

use crate::value::ValueBytes;

use crate::engine::{
    compressed, encoder_consistent, encoder_done, encoder_finish, encoder_finishing,
    encoder_flush_ready, encoder_idle, encoder_input, encoder_new, encoder_output,
    encoder_poll, encoder_sink, encoder_staged, prefix, Finish, Poll, Sink,
    INPUT_BUFFER_SIZE, MAX_SEDIMENT,
};
use embedded_heatshrink::HeatshrinkEncoder as EncoderEngine;

verus! {

/// Relies on `Vec::capacity`: it is never less than the length.
#[verifier::external_body]
fn vec_capacity(v: &Vec<u8>) -> (r: usize)
    ensures
        r >= v@.len(),
{
    v.capacity()
}

/// What a push does once the engine has taken some of its bytes.
pub enum PushStep {
    /// Everything was taken; output is drained later.
    Continue,
    /// What is left could not fit even in a staging area that was just
    /// drained, so the reserved region cannot be relied on.
    Overflow,
    /// Drain output into the destination, then offer what is left.
    Drain,
}

/// Decides the next step of a push of `len` bytes of which the engine took
/// `sunk`.
pub fn after_sink(len: usize, sunk: usize) -> (r: PushStep)
    requires
        sunk <= len,
    ensures
        sunk == len ==> r is Continue,
        sunk < len && len - sunk > INPUT_BUFFER_SIZE - MAX_SEDIMENT ==> r is Overflow,
        sunk < len && len - sunk <= INPUT_BUFFER_SIZE - MAX_SEDIMENT ==> r is Drain,
{
    if sunk == len {
        PushStep::Continue
    } else if len - sunk > INPUT_BUFFER_SIZE - MAX_SEDIMENT {
        PushStep::Overflow
    } else {
        PushStep::Drain
    }
}

/// The outcome of one step of a [`HeatshrinkEncoderToVec`].
pub enum Result {
    /// The bytes were taken; the encoder goes on.
    Continue(HeatshrinkEncoderToVec),
    /// Compression is complete: the destination, cut to the compressed data.
    Done(Vec<u8>),
    /// The destination cannot hold the output; nothing usable was produced.
    Overflow,
}

/// Compresses bytes into a vector whose capacity is fixed up front.
///
/// The last `INPUT_BUFFER_SIZE` bytes of the capacity are reserved for what
/// the engine emits when it is finished; ordinary output stops before them.
/// The bytes in front of the starting offset are never touched.
pub struct HeatshrinkEncoderToVec {
    ctx: EncoderEngine,
    dest: Vec<u8>,
    wp: usize,
    reserved_start_pos: usize,
    /// The capacity cannot hold the offset and the reserved region.
    too_small: bool,
    offset: Ghost<nat>,
    header: Ghost<Seq<u8>>,
}

impl HeatshrinkEncoderToVec {
    /// The header is in place and the output so far follows it.
    pub closed spec fn committed(&self) -> bool {
        &&& self.offset@ <= self.wp <= self.dest@.len()
        &&& self.dest@.subrange(0, self.offset@ as int) == self.header@
        &&& self.dest@.subrange(self.offset@ as int, self.wp as int) == encoder_output(self.ctx)
    }

    /// The encoder's invariant.
    pub closed spec fn well_formed(&self) -> bool {
        &&& self.offset@ <= self.dest@.len()
        &&& self.dest@.subrange(0, self.offset@ as int) == self.header@
        &&& !encoder_finishing(self.ctx)
        &&& encoder_idle(self.ctx)
        &&& encoder_consistent(self.ctx)
        &&& !self.too_small ==> {
            &&& self.committed()
            &&& INPUT_BUFFER_SIZE <= self.dest@.len()
            &&& self.reserved_start_pos == self.dest@.len() - INPUT_BUFFER_SIZE
            &&& self.wp <= self.reserved_start_pos
        }
    }

    /// The capacity of the destination.
    pub closed spec fn capacity(&self) -> nat {
        self.dest@.len()
    }

    /// The write cursor: where the next compressed byte goes.
    pub closed spec fn cursor(&self) -> nat {
        self.wp as nat
    }

    /// The caller's header bytes in front of the starting offset.
    pub closed spec fn header(&self) -> Seq<u8> {
        self.header@
    }

    /// Every byte pushed so far.
    pub closed spec fn pushed(&self) -> Seq<u8> {
        encoder_input(self.ctx)
    }

    /// How many pushed bytes wait in the engine's staging area.
    pub closed spec fn staged(&self) -> nat {
        encoder_staged(self.ctx)
    }

    /// Whether the capacity holds the header and the reserved region.
    pub closed spec fn usable(&self) -> bool {
        !self.too_small
    }

    /// The compressed bytes committed to the destination so far, right
    /// after the header: `dest[header..cursor]`.
    pub closed spec fn output(&self) -> Seq<u8> {
        encoder_output(self.ctx)
    }

    /// Whether the header and the compression of everything pushed, then
    /// `more`, fit in the capacity with room to spare. (The engine may
    /// report a full region even when its last byte has just gone in, so
    /// only a strict fit is certain to end in `Done`.)
    pub open spec fn fits(&self, more: Seq<u8>) -> bool {
        self.header().len() + compressed(self.pushed() + more).len() < self.capacity()
    }

    /// An encoder that writes into the capacity of `dest`, after its first
    /// `offset` bytes, which it keeps as they are.
    pub fn dest(dest: Vec<u8>, offset: usize) -> (r: Self)
        requires
            offset <= dest@.len(),
        ensures
            r.well_formed(),
            r.header() == dest@.subrange(0, offset as int),
            r.capacity() >= dest@.len(),
            r.cursor() == offset,
            r.pushed() == Seq::<u8>::empty(),
            r.output() == Seq::<u8>::empty(),
            r.staged() == 0,
            r.usable() <==> offset + INPUT_BUFFER_SIZE <= r.capacity(),
    {
        let mut dest = dest;
        let cap = vec_capacity(&dest);
        let ghost before = dest@;
        dest.resize(cap, 0u8);
        assert(dest@.subrange(0, offset as int) =~= before.subrange(0, offset as int));
        Self::within(dest, offset)
    }

    /// An encoder whose capacity is the length of `dest`, writing after its
    /// first `offset` bytes, which it keeps as they are.
    pub(crate) fn within(dest: Vec<u8>, offset: usize) -> (r: Self)
        requires
            offset <= dest@.len(),
        ensures
            r.well_formed(),
            r.header() == dest@.subrange(0, offset as int),
            r.capacity() == dest@.len(),
            r.cursor() == offset,
            r.pushed() == Seq::<u8>::empty(),
            r.output() == Seq::<u8>::empty(),
            r.staged() == 0,
            r.usable() <==> offset + INPUT_BUFFER_SIZE <= r.capacity(),
    {
        let ghost header = dest@.subrange(0, offset as int);
        let cap = dest.len();
        let too_small = cap < INPUT_BUFFER_SIZE || cap - INPUT_BUFFER_SIZE < offset;
        let reserved_start_pos = if too_small {
            0
        } else {
            cap - INPUT_BUFFER_SIZE
        };
        let r = HeatshrinkEncoderToVec {
            ctx: encoder_new(),
            dest,
            wp: offset,
            reserved_start_pos,
            too_small,
            offset: Ghost(offset as nat),
            header: Ghost(header),
        };
        assert(r.dest@.subrange(offset as int, offset as int) =~= Seq::<u8>::empty());
        r
    }

    /// Feeds `data` to the engine.
    ///
    /// Output is drained only when the engine's staging area fills up: first
    /// into the normal region; when that is exactly used up, or overflows into
    /// the reserved region, the encoder finishes at once and yields `Done`.
    /// A remainder too long for a freshly drained staging area, or output
    /// that does not fit, yields `Overflow`.
    pub fn push_bytes(self, data: &[u8]) -> (r: Result)
        requires
            self.well_formed(),
        ensures
            match r {
                Result::Continue(e) => {
                    &&& e.well_formed()
                    &&& e.usable()
                    &&& e.pushed() == self.pushed() + data@
                    &&& e.capacity() == self.capacity()
                    &&& e.header() == self.header()
                    &&& self.cursor() <= e.cursor()
                    &&& e.cursor() + INPUT_BUFFER_SIZE <= e.capacity()
                    &&& prefix(self.output(), e.output())
                },
                Result::Done(v) => {
                    &&& self.usable()
                    &&& v@.len() <= self.capacity()
                    &&& v@.len() >= self.header().len()
                    &&& v@.subrange(0, self.header().len() as int) == self.header()
                    &&& v@.subrange(self.header().len() as int, v@.len() as int) == compressed(
                        self.pushed() + data@,
                    )
                    &&& prefix(self.output(), compressed(self.pushed() + data@))
                },
                Result::Overflow => {
                    ||| !self.usable()
                    ||| self.staged() + data@.len() > 2 * INPUT_BUFFER_SIZE - MAX_SEDIMENT
                    ||| !self.fits(data@)
                },
            },
            !self.usable() ==> r is Overflow,
            (self.usable() && self.staged() + data@.len() <= INPUT_BUFFER_SIZE) ==> (r matches Result::Continue(e) && e.cursor() == self.cursor()),
            self.staged() + data@.len() > 2 * INPUT_BUFFER_SIZE - MAX_SEDIMENT ==> r is Overflow,
            data@.len() > 2 * INPUT_BUFFER_SIZE - MAX_SEDIMENT ==> r is Overflow,
    {
        let mut s = self;
        if s.too_small {
            return Result::Overflow;
        }
        assert(self.header@.len() == self.offset@);
        let ghost before = encoder_input(s.ctx);
        let written = match encoder_sink(&mut s.ctx, data, 0) {
            Sink::Accepted(n) => n,
            Sink::Refused => 0,
        };
        assert(encoder_input(s.ctx) == before + data@.subrange(0, written as int)) by {
            assert(data@.subrange(0, 0) =~= Seq::<u8>::empty());
        }
        match after_sink(data.len(), written) {
            PushStep::Continue => {
                assert(data@.subrange(0, written as int) =~= data@);
                assert(encoder_output(s.ctx).subrange(0, encoder_output(s.ctx).len() as int)
                    =~= encoder_output(s.ctx));
                assert(s.well_formed());
                return Result::Continue(s);
            },
            PushStep::Overflow => {
                return Result::Overflow;
            },
            PushStep::Drain => {},
        }
        assert(encoder_staged(s.ctx) == INPUT_BUFFER_SIZE);
        let ghost rest = data@.subrange(written as int, data@.len() as int);
        assert(encoder_input(s.ctx) + rest =~= before + data@);
        let end = s.reserved_start_pos;
        match s.drain_until(end) {
            Poll::Empty(_) => {
                s.sink_rest(data, written);
                assert(encoder_input(s.ctx) == before + data@);
                if s.wp == s.reserved_start_pos {
                    s.finalize()
                } else {
                    assert(s.well_formed());
                    Result::Continue(s)
                }
            },
            Poll::More(_) => {
                // The normal region is full: what the engine still holds goes
                // into the reserved region, and the encoder finishes.
                let len = s.dest.len();
                match s.drain_until(len) {
                    Poll::Empty(_) => {},
                    _ => {
                        assert(compressed(encoder_input(s.ctx) + rest).len() > encoder_output(
                            s.ctx,
                        ).len());
                        return Result::Overflow;
                    },
                }
                s.sink_rest(data, written);
                assert(encoder_input(s.ctx) == before + data@);
                s.finalize()
            },
            Poll::Refused => Result::Overflow,
        }
    }

    /// Sinks `data[from..]`, which the staging area has room for.
    fn sink_rest(&mut self, data: &[u8], from: usize)
        requires
            from <= data@.len(),
            !encoder_finishing(old(self).ctx),
            encoder_idle(old(self).ctx),
            encoder_staged(old(self).ctx) + (data@.len() - from) <= INPUT_BUFFER_SIZE,
        ensures
            final(self).dest == old(self).dest,
            final(self).wp == old(self).wp,
            final(self).reserved_start_pos == old(self).reserved_start_pos,
            final(self).too_small == old(self).too_small,
            final(self).offset == old(self).offset,
            final(self).header == old(self).header,
            encoder_output(final(self).ctx) == encoder_output(old(self).ctx),
            !encoder_finishing(final(self).ctx),
            encoder_idle(final(self).ctx),
            encoder_consistent(final(self).ctx),
            encoder_input(final(self).ctx) == encoder_input(old(self).ctx) + data@.subrange(
                from as int,
                data@.len() as int,
            ),
    {
        let r = encoder_sink(&mut self.ctx, data, from);
        proof {
            if r is Refused {
                assert(data@.subrange(from as int, data@.len() as int) =~= Seq::<u8>::empty());
                assert(encoder_input(old(self).ctx) + Seq::<u8>::empty() =~= encoder_input(
                    old(self).ctx,
                ));
            }
        }
    }

    /// Polls output into `dest[wp..end]` and moves the cursor past what was
    /// written.
    fn drain_until(&mut self, end: usize) -> (r: Poll)
        requires
            old(self).committed(),
            old(self).wp <= end <= old(self).dest@.len(),
        ensures
            final(self).committed(),
            final(self).wp == old(self).wp + r.count(),
            final(self).wp <= end,
            r is More ==> final(self).wp == end,
            !(r is Refused),
            final(self).dest@.len() == old(self).dest@.len(),
            final(self).reserved_start_pos == old(self).reserved_start_pos,
            final(self).too_small == old(self).too_small,
            final(self).offset == old(self).offset,
            final(self).header == old(self).header,
            encoder_input(final(self).ctx) == encoder_input(old(self).ctx),
            encoder_finishing(final(self).ctx) == encoder_finishing(old(self).ctx),
            encoder_consistent(final(self).ctx),
            (!encoder_finishing(old(self).ctx) && encoder_staged(old(self).ctx)
                >= INPUT_BUFFER_SIZE && r is Empty) ==> encoder_staged(final(self).ctx)
                <= MAX_SEDIMENT,
            r is More ==> encoder_staged(final(self).ctx) == encoder_staged(old(self).ctx),
            r is Empty ==> encoder_idle(final(self).ctx),
            prefix(encoder_output(old(self).ctx), encoder_output(final(self).ctx)),
            (encoder_flush_ready(old(self).ctx) && r == Poll::Empty(0)) ==> encoder_done(
                final(self).ctx,
            ),
    {
        let ghost out_before = encoder_output(self.ctx);
        let ghost dest_before = self.dest@;
        let from = self.wp;
        let r = encoder_poll(&mut self.ctx, self.dest.as_mut_slice(), from, end);
        let n: usize = match r {
            Poll::Empty(n) => n,
            Poll::More(n) => n,
            Poll::Refused => 0,
        };
        self.wp = from + n;
        assert(self.dest@.subrange(0, self.offset@ as int) =~= dest_before.subrange(
            0,
            self.offset@ as int,
        ));
        assert(self.dest@.subrange(self.offset@ as int, self.wp as int) =~= out_before
            + self.dest@.subrange(from as int, self.wp as int));
        assert(encoder_output(self.ctx).subrange(0, out_before.len() as int) =~= out_before);
        r
    }

    /// Tells the engine the input is complete and drains what it still
    /// holds into the rest of the destination, round after round, until the
    /// engine reports that it is done.
    fn finalize(self) -> (r: Result)
        requires
            self.committed(),
            encoder_idle(self.ctx),
            encoder_consistent(self.ctx),
        ensures
            match r {
                Result::Continue(_) => false,
                Result::Done(v) => {
                    &&& v@.len() <= self.dest@.len()
                    &&& v@.len() >= self.offset@
                    &&& v@.subrange(0, self.offset@ as int) == self.header@
                    &&& v@.subrange(self.offset@ as int, v@.len() as int) == compressed(
                        encoder_input(self.ctx),
                    )
                },
                Result::Overflow => self.offset@ + compressed(encoder_input(self.ctx)).len()
                    >= self.dest@.len(),
            },
    {
        let mut s = self;
        proof {
            if !encoder_finishing(s.ctx) {
                assert(encoder_input(s.ctx) + Seq::<u8>::empty() =~= encoder_input(s.ctx));
                assert(prefix(
                    encoder_output(s.ctx),
                    compressed(encoder_input(s.ctx) + Seq::<u8>::empty()),
                ));
            }
        }
        loop
            invariant
                s.committed(),
                s.dest@.len() == self.dest@.len(),
                s.offset == self.offset,
                s.header == self.header,
                encoder_input(s.ctx) == encoder_input(self.ctx),
                encoder_consistent(s.ctx),
                encoder_idle(s.ctx),
                prefix(encoder_output(s.ctx), compressed(encoder_input(s.ctx))),
            decreases
                compressed(encoder_input(s.ctx)).len() - encoder_output(s.ctx).len(),
                (if encoder_done(s.ctx) {
                    0int
                } else {
                    1int
                }),
        {
            match encoder_finish(&mut s.ctx) {
                Finish::Done => {
                    let wp = s.wp;
                    let mut out = s.dest;
                    out.truncate(wp);
                    assert(out@.subrange(0, s.offset@ as int) =~= s.dest@.subrange(
                        0,
                        s.offset@ as int,
                    ));
                    assert(out@.subrange(s.offset@ as int, wp as int) =~= s.dest@.subrange(
                        s.offset@ as int,
                        wp as int,
                    ));
                    return Result::Done(out);
                },
                Finish::More => {},
            }
            let len = s.dest.len();
            match s.drain_until(len) {
                Poll::Empty(_) => {},
                _ => {
                    return Result::Overflow;
                },
            }
        }
    }

    /// How many bytes of the destination are in use: header and output.
    pub fn written(&self) -> (r: usize)
        ensures
            r == self.cursor(),
    {
        self.wp
    }

    /// Pushes a fixed-size value, as its little-endian bytes.
    pub fn push<V: ValueBytes>(self, data: V) -> (r: Result)
        requires
            self.well_formed(),
        ensures
            match r {
                Result::Continue(e) => {
                    &&& e.well_formed()
                    &&& e.usable()
                    &&& e.pushed() == self.pushed() + data.le_bytes()
                    &&& e.capacity() == self.capacity()
                    &&& e.header() == self.header()
                    &&& self.cursor() <= e.cursor()
                    &&& e.cursor() + INPUT_BUFFER_SIZE <= e.capacity()
                    &&& prefix(self.output(), e.output())
                },
                Result::Done(v) => {
                    &&& self.usable()
                    &&& v@.len() <= self.capacity()
                    &&& v@.len() >= self.header().len()
                    &&& v@.subrange(0, self.header().len() as int) == self.header()
                    &&& v@.subrange(self.header().len() as int, v@.len() as int) == compressed(
                        self.pushed() + data.le_bytes(),
                    )
                    &&& prefix(self.output(), compressed(self.pushed() + data.le_bytes()))
                },
                Result::Overflow => {
                    ||| !self.usable()
                    ||| self.staged() + data.le_bytes().len() > 2 * INPUT_BUFFER_SIZE
                        - MAX_SEDIMENT
                    ||| !self.fits(data.le_bytes())
                },
            },
            !self.usable() ==> r is Overflow,
            (self.usable() && self.staged() + data.le_bytes().len() <= INPUT_BUFFER_SIZE) ==> (r matches Result::Continue(e) && e.cursor() == self.cursor()),
            self.staged() + data.le_bytes().len() > 2 * INPUT_BUFFER_SIZE - MAX_SEDIMENT ==> r is Overflow,
    {
        let bytes = data.to_le_vec();
        self.push_bytes(bytes.as_slice())
    }

    /// Finishes compression: the destination cut to the header and the
    /// complete compressed form of everything pushed, which comes whenever
    /// it fits with room to spare; `Overflow` only when it does not.
    pub fn finish(self) -> (r: Result)
        requires
            self.well_formed(),
        ensures
            match r {
                Result::Continue(_) => false,
                Result::Done(v) => {
                    &&& self.usable()
                    &&& v@.len() <= self.capacity()
                    &&& v@.len() >= self.header().len()
                    &&& v@.subrange(0, self.header().len() as int) == self.header()
                    &&& v@.subrange(self.header().len() as int, v@.len() as int) == compressed(
                        self.pushed(),
                    )
                },
                Result::Overflow => !self.usable() || !self.fits(Seq::<u8>::empty()),
            },
            (self.usable() && self.fits(Seq::<u8>::empty())) ==> r is Done,
    {
        if self.too_small {
            return Result::Overflow;
        }
        assert(self.pushed() + Seq::<u8>::empty() =~= self.pushed());
        assert(self.header@.len() == self.offset@);
        self.finalize()
    }
}

} // verus!
