//! The pull encoder: compressed bytes, one at a time, from a byte source.
use vstd::prelude::*;

use crate::engine::{
    compressed, encoder_consistent, encoder_finish, encoder_finishing, encoder_flush_ready,
    encoder_input, encoder_new, encoder_output, encoder_poll, encoder_sink, prefix, Finish, Poll,
    Sink,
};
use crate::source::ByteSource;
use embedded_heatshrink::HeatshrinkEncoder as EncoderEngine;

verus! {

/// A lazy, finite, non-restartable stream of the bytes that compressing its
/// source yields.
pub struct HeatshrinkEncoder<T: ByteSource> {
    ctx: EncoderEngine,
    /// The source has ended and the engine has been told so.
    finished: bool,
    /// The stream has ended; every further pull yields `None`.
    done: bool,
    src: T,
    /// What the source had already yielded when the stream took it over.
    skipped: Ghost<Seq<u8>>,
    /// How often the source had been asked when the stream took it over.
    asked_before: Ghost<nat>,
    /// How often this stream has been asked for a byte.
    pulls: Ghost<nat>,
}

impl<T: ByteSource> HeatshrinkEncoder<T> {
    /// The stream's invariant.
    pub closed spec fn well_formed(&self) -> bool {
        &&& self.src.inv()
        &&& prefix(self.src.taken(), self.src.total())
        &&& self.src.taken() == self.skipped@ + encoder_input(self.ctx)
        &&& self.src.requests() == self.asked_before@ + encoder_input(self.ctx).len() + (if self.finished {
            1nat
        } else {
            0nat
        })
        &&& encoder_consistent(self.ctx)
        &&& self.finished == encoder_finishing(self.ctx)
        &&& self.finished ==> self.src.taken() == self.src.total()
        &&& self.done ==> {
            &&& self.finished
            &&& encoder_output(self.ctx) == compressed(self.input())
        }
    }

    /// What the source yields from the point the stream took it over: the
    /// raw input.
    pub closed spec fn input(&self) -> Seq<u8> {
        self.src.total().subrange(self.skipped@.len() as int, self.src.total().len() as int)
    }

    /// The compressed bytes handed out so far.
    pub closed spec fn produced(&self) -> Seq<u8> {
        encoder_output(self.ctx)
    }

    /// The bytes handed to the engine so far.
    pub closed spec fn fed(&self) -> Seq<u8> {
        encoder_input(self.ctx)
    }

    /// What the source had already yielded when the stream took it over.
    pub closed spec fn skipped(&self) -> Seq<u8> {
        self.skipped@
    }

    /// How often the source had been asked for a byte when the stream took
    /// it over.
    pub closed spec fn requests_before(&self) -> nat {
        self.asked_before@
    }

    /// Whether the stream has seen its source end.
    pub closed spec fn source_ended(&self) -> bool {
        self.finished
    }

    /// How often this stream has been asked for a byte.
    pub closed spec fn pulls(&self) -> nat {
        self.pulls@
    }

    /// The source the stream reads from, as it stands now.
    pub closed spec fn upstream(&self) -> T {
        self.src
    }

    /// Whether the stream has ended.
    pub closed spec fn exhausted(&self) -> bool {
        self.done
    }

    /// What is handed out so far begins the compression of the input.
    pub proof fn lemma_produced_prefix(&self)
        requires
            self.well_formed(),
        ensures
            prefix(self.produced(), compressed(self.input())),
    {
        let t = self.src.taken();
        let total = self.src.total();
        let k = self.skipped@.len() as int;
        let s = total.subrange(t.len() as int, total.len() as int);
        assert(t == total.subrange(0, t.len() as int));
        assert(encoder_input(self.ctx) =~= t.subrange(k, t.len() as int));
        assert(encoder_input(self.ctx) + s =~= self.input());
        if !self.finished {
            assert(prefix(encoder_output(self.ctx), compressed(encoder_input(self.ctx) + s)));
        } else {
            assert(encoder_input(self.ctx) =~= self.input());
        }
    }

    /// An encoder over `src`, with a freshly reset engine; the source is held
    /// as it is and not yet read.
    pub fn source(src: T) -> (r: Self)
        requires
            src.inv(),
            prefix(src.taken(), src.total()),
        ensures
            r.well_formed(),
            r.upstream() == src,
            r.skipped() == src.taken(),
            r.requests_before() == src.requests(),
            r.pulls() == 0,
            !r.source_ended(),
            r.input() == src.total().subrange(src.taken().len() as int, src.total().len() as int),
            r.produced() == Seq::<u8>::empty(),
            !r.exhausted(),
    {
        let ghost skipped = src.taken();
        let ghost src_asked = src.requests();
        let r = HeatshrinkEncoder {
            ctx: encoder_new(),
            finished: false,
            done: false,
            src,
            skipped: Ghost(skipped),
            asked_before: Ghost(src_asked),
            pulls: Ghost(0),
        };
        assert(r.src.taken() =~= skipped + Seq::<u8>::empty());
        r
    }

    /// The next compressed byte, or `None` at the end of the stream.
    ///
    /// Source bytes go to the engine one at a time, in order, only when no
    /// compressed byte is ready. At the end, everything handed out is exactly
    /// the compression of the whole input; after the end, nothing changes.
    pub fn next(&mut self) -> (r: Option<u8>)
        requires
            old(self).well_formed(),
        ensures
            final(self).well_formed(),
            final(self).input() == old(self).input(),
            old(self).exhausted() ==> r is None && final(self).upstream() == old(self).upstream()
                && final(self).produced() == old(self).produced(),
            final(self).pulls() == old(self).pulls() + 1,
            final(self).requests_before() == old(self).requests_before(),
            final(self).upstream().requests() == final(self).requests_before()
                + final(self).fed().len() + (if final(self).source_ended() {
                1nat
            } else {
                0nat
            }),
            final(self).exhausted() ==> final(self).source_ended(),
            prefix(final(self).produced(), compressed(final(self).input())),
            final(self).upstream().taken() == final(self).skipped() + final(self).fed(),
            final(self).skipped() == old(self).skipped(),
            prefix(old(self).upstream().taken(), final(self).upstream().taken()),
            final(self).exhausted() ==> final(self).upstream().taken()
                == final(self).upstream().total(),
            match r {
                Some(b) => {
                    &&& final(self).produced() == old(self).produced().push(b)
                    &&& !final(self).exhausted()
                },
                None => {
                    &&& final(self).produced() == old(self).produced()
                    &&& final(self).exhausted()
                    &&& final(self).produced() == compressed(final(self).input())
                },
            },
    {
        self.pulls = Ghost(self.pulls@ + 1);
        if self.done {
            proof {
                self.lemma_produced_prefix();
                assert(self.src.taken().subrange(0, self.src.taken().len() as int)
                    =~= self.src.taken());
            }
            return None;
        }
        let mut out: Vec<u8> = vec![0u8];
        assert(self.src.taken().subrange(0, self.src.taken().len() as int) =~= self.src.taken());
        loop
            invariant
                self.well_formed(),
                !self.done,
                !old(self).done,
                out@.len() == 1,
                self.src.total() == old(self).src.total(),
                self.skipped == old(self).skipped,
                self.asked_before == old(self).asked_before,
                self.pulls@ == old(self).pulls@ + 1,
                encoder_output(self.ctx) == encoder_output(old(self).ctx),
                prefix(old(self).src.taken(), self.src.taken()),
            decreases
                self.src.total().len() - self.src.taken().len(),
                (if self.finished {
                    0int
                } else {
                    1int
                }),
                (if encoder_flush_ready(self.ctx) {
                    0int
                } else {
                    1int
                }),
        {
            // Ask for a single byte: one that is ready is returned at once.
            match encoder_poll(&mut self.ctx, out.as_mut_slice(), 0, 1) {
                Poll::Empty(n) => {
                    if n == 1 {
                        assert(out@.subrange(0, 1) =~= seq![out@[0]]);
                        proof {
                            self.lemma_produced_prefix();
                        }
                        return Some(out[0]);
                    }
                    assert(out@.subrange(0, 0) =~= Seq::<u8>::empty());
                },
                Poll::More(_) => {
                    assert(out@.subrange(0, 1) =~= seq![out@[0]]);
                    proof {
                        self.lemma_produced_prefix();
                    }
                    return Some(out[0]);
                },
                Poll::Refused => {
                    return None;
                },
            }
            // Nothing is ready, so the staging area has room: while the
            // source lasts, its next byte goes in; after that, the engine is
            // asked whether it is done, and it drains its last output over
            // one or more rounds.
            let finish_now = if !self.finished {
                let ghost taken_before = self.src.taken();
                match self.src.next_byte() {
                    Some(b) => {
                        let one: Vec<u8> = vec![b];
                        match encoder_sink(&mut self.ctx, one.as_slice(), 0) {
                            Sink::Accepted(n) => {
                                assert(n == 1);
                                assert(one@.subrange(0, 1) =~= seq![b]);
                                assert(self.src.taken() =~= self.skipped@ + encoder_input(self.ctx));
                            },
                            Sink::Refused => {
                                assert(false);
                            },
                        }
                        assert(prefix(old(self).src.taken(), self.src.taken())) by {
                            assert(self.src.taken().subrange(0, taken_before.len() as int)
                                =~= taken_before);
                            assert(self.src.taken().subrange(
                                0,
                                old(self).src.taken().len() as int,
                            ) =~= taken_before.subrange(0, old(self).src.taken().len() as int));
                        }
                        false
                    },
                    None => true,
                }
            } else {
                true
            };
            if finish_now {
                match encoder_finish(&mut self.ctx) {
                    Finish::Done => {
                        self.finished = true;
                        self.done = true;
                        proof {
                            assert(self.src.taken() =~= self.skipped@ + encoder_input(self.ctx));
                            assert(encoder_input(self.ctx) =~= self.input());
                            self.lemma_produced_prefix();
                        }
                        return None;
                    },
                    Finish::More => {
                        self.finished = true;
                        assert(self.well_formed());
                    },
                }
            }
        }
    }
}

impl<T: ByteSource> ByteSource for HeatshrinkEncoder<T> {
    open spec fn inv(&self) -> bool {
        self.well_formed()
    }

    open spec fn total(&self) -> Seq<u8> {
        compressed(self.input())
    }

    open spec fn taken(&self) -> Seq<u8> {
        self.produced()
    }

    open spec fn requests(&self) -> nat {
        self.pulls()
    }

    fn next_byte(&mut self) -> (r: Option<u8>) {
        self.next()
    }
}

} // verus!
