//! The boundary to the heatshrink engine of the `embedded-heatshrink` crate.
//!
//! The engine is driven through four verbs: create (an engine starts reset),
//! `sink`, `poll` and `finish`. Its match finding and bit packing are not
//! modelled: what an engine has taken in and given out so far is named, and
//! so is what it gives out in total for a given input, together with the few
//! facts about its staging area and its phases that the drivers rely on.
use embedded_heatshrink::HeatshrinkDecoder as DecoderEngine;
use embedded_heatshrink::HeatshrinkEncoder as EncoderEngine;
use vstd::prelude::*;

verus! {

/// Window size of the engine, as a power of two.
pub const WINDOW_BITS: u8 = 8;

/// Lookahead size of the engine, as a power of two.
pub const LOOKAHEAD_BITS: u8 = 4;

/// Capacity of the encoder engine's input staging area (`1 << WINDOW_BITS`).
pub const INPUT_BUFFER_SIZE: usize = 256;

/// The most bytes that stay in the encoder engine's staging area after a
/// poll that drained a full one: the last symbol search starts no later
/// than one lookahead (16 bytes) before the end of the area, and every byte
/// before the search position is dropped from it.
pub const MAX_SEDIMENT: usize = 15;

/// Capacity of the decoder engine's input staging area.
pub const DECODER_INPUT_BUFFER_SIZE: u16 = 64;

#[verifier::external_type_specification]
#[verifier::external_body]
pub struct ExEncoderEngine(EncoderEngine);

#[verifier::external_type_specification]
#[verifier::external_body]
pub struct ExDecoderEngine(DecoderEngine);

/// Every byte an encoder engine has accepted through `sink`, in order.
pub uninterp spec fn encoder_input(e: EncoderEngine) -> Seq<u8>;

/// Every byte an encoder engine has handed out through `poll`, in order.
pub uninterp spec fn encoder_output(e: EncoderEngine) -> Seq<u8>;

/// Whether an encoder engine has been told that its input is complete.
pub uninterp spec fn encoder_finishing(e: EncoderEngine) -> bool;

/// How many bytes sit in the encoder engine's staging area (`input_size`).
pub uninterp spec fn encoder_staged(e: EncoderEngine) -> nat;

/// Whether the encoder engine is between blocks: not part-way through
/// turning a staging area into output (state `NotFull`, `Filled` or `Done`).
pub uninterp spec fn encoder_idle(e: EncoderEngine) -> bool;

/// Whether the encoder engine is finishing and about to process its staging
/// area from the start (state `Filled` with the finishing flag set).
pub uninterp spec fn encoder_flush_ready(e: EncoderEngine) -> bool;

/// Whether the encoder engine has handed out everything (state `Done`).
pub uninterp spec fn encoder_done(e: EncoderEngine) -> bool;

/// The whole compressed stream that the encoder engine produces for `input`.
pub uninterp spec fn compressed(input: Seq<u8>) -> Seq<u8>;

/// Every byte a decoder engine has accepted through `sink`, in order.
pub uninterp spec fn decoder_input(d: DecoderEngine) -> Seq<u8>;

/// Every byte a decoder engine has handed out through `poll`, in order.
pub uninterp spec fn decoder_output(d: DecoderEngine) -> Seq<u8>;

/// Whether the decoder engine has no input left and waits for more bits to
/// finish a symbol (input buffer empty, in a state that reads bits).
pub uninterp spec fn decoder_stalled(d: DecoderEngine) -> bool;

/// The whole decompressed stream that the decoder engine produces for `input`.
pub uninterp spec fn decompressed(input: Seq<u8>) -> Seq<u8>;

/// `a` is a prefix of `b`.
pub open spec fn prefix(a: Seq<u8>, b: Seq<u8>) -> bool {
    a.len() <= b.len() && b.subrange(0, a.len() as int) == a
}

/// What holds of every encoder engine: its staging area is within bounds,
/// and its output so far begins the compressed form of its input, with
/// whatever input may still follow unless it is finishing. While it is not
/// finishing, none of the input that may follow has been encoded yet, so
/// any such input adds at least one 9-bit symbol, and with it at least one
/// byte, after the complete bytes handed out so far.
pub open spec fn encoder_consistent(e: EncoderEngine) -> bool {
    &&& encoder_staged(e) <= INPUT_BUFFER_SIZE
    &&& if encoder_finishing(e) {
        prefix(encoder_output(e), compressed(encoder_input(e)))
    } else {
        forall|s: Seq<u8>|
            {
                &&& prefix(encoder_output(e), #[trigger] compressed(encoder_input(e) + s))
                &&& s.len() > 0 ==> encoder_output(e).len() < compressed(encoder_input(e) + s).len()
            }
    }
}

/// What holds of every decoder engine: its output so far begins the
/// decompressed form of its input, with whatever input may still follow.
pub open spec fn decoder_consistent(d: DecoderEngine) -> bool {
    forall|s: Seq<u8>| prefix(decoder_output(d), #[trigger] decompressed(decoder_input(d) + s))
}

/// What a `sink` call did.
pub enum Sink {
    /// This many bytes were taken from the front of what was offered.
    Accepted(usize),
    /// Nothing was taken: the staging area is full, or the engine is finishing.
    Refused,
}

/// What a `poll` call did.
pub enum Poll {
    /// This many bytes were written; no more output is ready now.
    Empty(usize),
    /// The whole region was filled; more output is ready.
    More(usize),
    /// The call was refused and nothing was written.
    Refused,
}

impl Poll {
    /// How many bytes the call wrote.
    pub open spec fn count(self) -> nat {
        match self {
            Poll::Empty(n) => n as nat,
            Poll::More(n) => n as nat,
            Poll::Refused => 0,
        }
    }
}

/// What a `finish` call reported.
pub enum Finish {
    /// All output has been handed out.
    Done,
    /// More output remains: poll again.
    More,
}

/// The smaller of two sizes.
pub open spec fn min(a: int, b: int) -> int {
    if a <= b {
        a
    } else {
        b
    }
}

/// The encoder engine behind its four verbs: a value of this type has
/// always been reset, and changes only through `reset`, `sink`, `poll` and
/// `finish`.
#[allow(non_camel_case_types)]
pub struct _heatshrink_encoder {
    engine: EncoderEngine,
}

impl _heatshrink_encoder {
    /// Every byte accepted since the last reset.
    pub closed spec fn input(&self) -> Seq<u8> {
        encoder_input(self.engine)
    }

    /// Every byte handed out since the last reset.
    pub closed spec fn output(&self) -> Seq<u8> {
        encoder_output(self.engine)
    }

    /// Whether the input has been declared complete.
    pub closed spec fn finishing(&self) -> bool {
        encoder_finishing(self.engine)
    }

    /// How many bytes sit in the staging area.
    pub closed spec fn staged(&self) -> nat {
        encoder_staged(self.engine)
    }

    /// Whether everything has been handed out after the input was declared
    /// complete.
    pub closed spec fn done(&self) -> bool {
        encoder_done(self.engine)
    }

    /// The output so far begins the compressed form of the input, with
    /// whatever input may follow unless finishing; the staging area holds
    /// at most `INPUT_BUFFER_SIZE` bytes.
    pub closed spec fn consistent(&self) -> bool {
        encoder_consistent(self.engine)
    }

    /// Whether the engine is between blocks, not part-way through turning
    /// its staging area into output.
    pub closed spec fn idle(&self) -> bool {
        encoder_idle(self.engine)
    }

    /// Whether the engine is finishing and about to process its staging
    /// area from the start.
    pub closed spec fn flush_ready(&self) -> bool {
        encoder_flush_ready(self.engine)
    }

    /// A freshly reset engine.
    pub fn new() -> (r: Self)
        ensures
            r.input() == Seq::<u8>::empty(),
            r.output() == Seq::<u8>::empty(),
            !r.finishing(),
            r.staged() == 0,
            !r.done(),
            r.idle(),
            r.consistent(),
    {
        _heatshrink_encoder { engine: encoder_new() }
    }

    /// Puts the engine back in its initial state.
    pub fn reset(&mut self)
        ensures
            final(self).input() == Seq::<u8>::empty(),
            final(self).output() == Seq::<u8>::empty(),
            !final(self).finishing(),
            final(self).staged() == 0,
            !final(self).done(),
            final(self).idle(),
            final(self).consistent(),
    {
        self.engine = encoder_new();
    }

    /// The size of the engine's input staging area.
    pub fn input_buffer_size() -> (r: usize)
        ensures
            r == INPUT_BUFFER_SIZE,
    {
        INPUT_BUFFER_SIZE
    }

    /// Offers `data`. Unless finishing or full, the engine takes as much of
    /// its front as its staging area has room for; otherwise it refuses and
    /// nothing changes.
    pub fn sink(&mut self, data: &[u8]) -> (r: Sink)
        ensures
            (!old(self).finishing() && old(self).staged() < INPUT_BUFFER_SIZE) ==> r
                == Sink::Accepted(
                min(data@.len() as int, INPUT_BUFFER_SIZE - old(self).staged()) as usize,
            ),
            (old(self).finishing() || old(self).staged() >= INPUT_BUFFER_SIZE) ==> r is Refused,
            match r {
                Sink::Accepted(n) => {
                    &&& final(self).input() == old(self).input() + data@.subrange(0, n as int)
                    &&& final(self).staged() == old(self).staged() + n
                    &&& final(self).output() == old(self).output()
                    &&& final(self).finishing() == old(self).finishing()
                    &&& old(self).idle() ==> final(self).idle()
                    &&& final(self).done() == old(self).done()
                },
                Sink::Refused => *final(self) == *old(self),
            },
            final(self).consistent(),
    {
        encoder_sink(&mut self.engine, data, 0)
    }

    /// Writes the next compressed bytes to the front of `out`, leaving the
    /// rest of it as it was. While not finishing and not full, nothing is
    /// ready; `More` means that `out` was filled.
    pub fn poll(&mut self, out: &mut [u8]) -> (r: Poll)
        ensures
            match r {
                Poll::Empty(n) => n <= old(out)@.len(),
                Poll::More(n) => n == old(out)@.len(),
                Poll::Refused => false,
            },
            final(out)@.len() == old(out)@.len(),
            final(out)@.subrange(r.count() as int, old(out)@.len() as int) == old(out)@.subrange(
                r.count() as int,
                old(out)@.len() as int,
            ),
            final(self).output() == old(self).output() + final(out)@.subrange(0, r.count() as int),
            final(self).input() == old(self).input(),
            final(self).finishing() == old(self).finishing(),
            (!old(self).finishing() && old(self).staged() < INPUT_BUFFER_SIZE) ==> (r == Poll::Empty(
                0,
            ) && *final(self) == *old(self)),
            (!old(self).finishing() && old(self).staged() >= INPUT_BUFFER_SIZE && r is Empty)
                ==> final(self).staged() <= MAX_SEDIMENT,
            r is Empty ==> final(self).idle(),
            (old(self).flush_ready() && r == Poll::Empty(0)) ==> final(self).done(),
            old(self).done() ==> final(self).done(),
            final(self).consistent(),
    {
        let len = out.len();
        let r = encoder_poll(&mut self.engine, out, 0, len);
        assert(out@.subrange(r.count() as int, len as int) =~= old(out)@.subrange(
            r.count() as int,
            len as int,
        ));
        r
    }

    /// Declares the input complete; `Done` exactly once everything has been
    /// handed out, and then the output is the whole compressed form of the
    /// input.
    pub fn finish(&mut self) -> (r: Finish)
        ensures
            final(self).finishing(),
            final(self).input() == old(self).input(),
            final(self).output() == old(self).output(),
            (r is Done) == old(self).done(),
            final(self).done() == old(self).done(),
            (old(self).idle() && r is More) ==> final(self).flush_ready(),
            r is Done ==> final(self).output() == compressed(final(self).input()),
            final(self).consistent(),
    {
        encoder_finish(&mut self.engine)
    }
}

/// Relies on `HeatshrinkEncoder::new` of embedded-heatshrink: with an 8-bit
/// window and a 4-bit lookahead it returns a fresh engine (`Some`) in state
/// `NotFull` with nothing staged.
#[verifier::external_body]
pub(crate) fn encoder_new() -> (e: EncoderEngine)
    ensures
        encoder_input(e) == Seq::<u8>::empty(),
        encoder_output(e) == Seq::<u8>::empty(),
        !encoder_finishing(e),
        encoder_staged(e) == 0,
        encoder_idle(e),
        !encoder_done(e),
        encoder_consistent(e),
{
    EncoderEngine::new(WINDOW_BITS, LOOKAHEAD_BITS).unwrap()
}

/// Relies on `HeatshrinkEncoder::sink` of embedded-heatshrink: unless it is
/// finishing or its staging area is full (which, while not finishing, is
/// the only way to be outside `NotFull`), it copies `min(rem, len)` bytes of
/// `data[from..]` into the area; otherwise it returns `ErrorMisuse` and
/// changes nothing.
#[verifier::external_body]
pub(crate) fn encoder_sink(e: &mut EncoderEngine, data: &[u8], from: usize) -> (r: Sink)
    requires
        from <= data@.len(),
    ensures
        (!encoder_finishing(*old(e)) && encoder_staged(*old(e)) < INPUT_BUFFER_SIZE) ==> r
            == Sink::Accepted(
            min(data@.len() - from, INPUT_BUFFER_SIZE - encoder_staged(*old(e))) as usize,
        ),
        (encoder_finishing(*old(e)) || encoder_staged(*old(e)) >= INPUT_BUFFER_SIZE) ==> r
            is Refused,
        match r {
            Sink::Accepted(n) => {
                &&& encoder_input(*final(e)) == encoder_input(*old(e)) + data@.subrange(
                    from as int,
                    from + n,
                )
                &&& encoder_staged(*final(e)) == encoder_staged(*old(e)) + n
                &&& encoder_output(*final(e)) == encoder_output(*old(e))
                &&& encoder_finishing(*final(e)) == encoder_finishing(*old(e))
                &&& encoder_idle(*old(e)) ==> encoder_idle(*final(e))
                &&& encoder_done(*final(e)) == encoder_done(*old(e))
            },
            Sink::Refused => *final(e) == *old(e),
        },
        encoder_consistent(*final(e)),
{
    match e.sink(&data[from..]) {
        embedded_heatshrink::HSESinkRes::Ok(n) => Sink::Accepted(n),
        embedded_heatshrink::HSESinkRes::ErrorNull => Sink::Refused,
        embedded_heatshrink::HSESinkRes::ErrorMisuse => Sink::Refused,
    }
}

/// Relies on `HeatshrinkEncoder::poll` of embedded-heatshrink: it writes the
/// next compressed bytes to the front of `buf[from..to]` and touches nothing
/// else; it never fails. In `NotFull` it returns `Empty(0)` at once. It
/// reports `More` only when the region is full. It reports `Empty` only in
/// `NotFull` (after
/// `st_save_backlog`, which keeps at most 15 staged bytes) or in `Done`.
/// Started in `Filled` while finishing, it writes at least one byte before
/// `Empty` unless it reaches `Done`.
#[verifier::external_body]
pub(crate) fn encoder_poll(
    e: &mut EncoderEngine,
    buf: &mut [u8],
    from: usize,
    to: usize,
) -> (r: Poll)
    requires
        from <= to <= old(buf)@.len(),
    ensures
        match r {
            Poll::Empty(n) => n <= to - from,
            Poll::More(n) => n == to - from,
            Poll::Refused => false,
        },
        final(buf)@.len() == old(buf)@.len(),
        forall|i: int|
            0 <= i < old(buf)@.len() && !(from <= i < from + r.count()) ==> final(buf)@[i]
                == old(buf)@[i],
        encoder_output(*final(e)) == encoder_output(*old(e)) + final(buf)@.subrange(
            from as int,
            from + r.count(),
        ),
        encoder_input(*final(e)) == encoder_input(*old(e)),
        encoder_finishing(*final(e)) == encoder_finishing(*old(e)),
        (!encoder_finishing(*old(e)) && encoder_staged(*old(e)) < INPUT_BUFFER_SIZE) ==> (r
            == Poll::Empty(0) && *final(e) == *old(e)),
        (!encoder_finishing(*old(e)) && encoder_staged(*old(e)) >= INPUT_BUFFER_SIZE && r is Empty)
            ==> encoder_staged(*final(e)) <= MAX_SEDIMENT,
        r is More ==> encoder_staged(*final(e)) == encoder_staged(*old(e)),
        r is Empty ==> encoder_idle(*final(e)),
        (encoder_flush_ready(*old(e)) && r == Poll::Empty(0)) ==> encoder_done(*final(e)),
        encoder_done(*old(e)) ==> encoder_done(*final(e)),
        encoder_consistent(*final(e)),
{
    match e.poll(&mut buf[from..to]) {
        embedded_heatshrink::HSEPollRes::Empty(n) => Poll::Empty(n),
        embedded_heatshrink::HSEPollRes::More(n) => Poll::More(n),
        embedded_heatshrink::HSEPollRes::ErrorNull => Poll::Refused,
        embedded_heatshrink::HSEPollRes::ErrorMisuse => Poll::Refused,
    }
}

/// Relies on `HeatshrinkEncoder::finish` of embedded-heatshrink: it sets the
/// finishing flag and turns `NotFull` into `Filled`; it reports `Done`
/// exactly when the engine is in `Done`, which it reaches only after all of
/// its output has been polled.
#[verifier::external_body]
pub(crate) fn encoder_finish(e: &mut EncoderEngine) -> (r: Finish)
    ensures
        encoder_finishing(*final(e)),
        encoder_input(*final(e)) == encoder_input(*old(e)),
        encoder_output(*final(e)) == encoder_output(*old(e)),
        encoder_staged(*final(e)) == encoder_staged(*old(e)),
        (r is Done) == encoder_done(*old(e)),
        encoder_done(*final(e)) == encoder_done(*old(e)),
        (encoder_idle(*old(e)) && r is More) ==> encoder_flush_ready(*final(e)),
        r is Done ==> encoder_output(*final(e)) == compressed(encoder_input(*final(e))),
        encoder_consistent(*final(e)),
{
    match e.finish() {
        embedded_heatshrink::HSEFinishRes::Done => Finish::Done,
        embedded_heatshrink::HSEFinishRes::More => Finish::More,
        embedded_heatshrink::HSEFinishRes::ErrorNull => Finish::More,
    }
}

/// Relies on `HeatshrinkDecoder::new` of embedded-heatshrink: with a non-zero
/// input buffer, an 8-bit window and a 4-bit lookahead it returns a fresh
/// engine (`Some`) in state `TagBit` with an empty input buffer.
#[verifier::external_body]
pub(crate) fn decoder_new() -> (d: DecoderEngine)
    ensures
        decoder_input(d) == Seq::<u8>::empty(),
        decoder_output(d) == Seq::<u8>::empty(),
        decoder_stalled(d),
        decoder_consistent(d),
{
    DecoderEngine::new(DECODER_INPUT_BUFFER_SIZE, WINDOW_BITS, LOOKAHEAD_BITS).unwrap()
}

/// Relies on `HeatshrinkDecoder::sink` of embedded-heatshrink: offered a
/// non-empty `data[from..]`, it copies at least one byte of its front into the
/// input buffer whenever the buffer has room (always when it is empty), or
/// reports `Full` and takes nothing.
#[verifier::external_body]
pub(crate) fn decoder_sink(d: &mut DecoderEngine, data: &[u8], from: usize) -> (r: Sink)
    requires
        from < data@.len(),
    ensures
        decoder_stalled(*old(d)) ==> r is Accepted,
        match r {
            Sink::Accepted(n) => {
                &&& 0 < n <= data@.len() - from
                &&& decoder_input(*final(d)) == decoder_input(*old(d)) + data@.subrange(
                    from as int,
                    from + n,
                )
                &&& decoder_output(*final(d)) == decoder_output(*old(d))
            },
            Sink::Refused => *final(d) == *old(d),
        },
        decoder_consistent(*final(d)),
{
    match d.sink(&data[from..]) {
        embedded_heatshrink::HSDSinkRes::Ok(n) => Sink::Accepted(n),
        embedded_heatshrink::HSDSinkRes::Full => Sink::Refused,
        embedded_heatshrink::HSDSinkRes::ErrorNull => Sink::Refused,
    }
}

/// Relies on `HeatshrinkDecoder::poll` of embedded-heatshrink: given a
/// non-empty region `buf[from..to]`, it writes the next decompressed bytes to
/// its front and touches nothing else; it reports `More` only when the region
/// is full, `Empty` only when a state stalls for want of bits (which needs an
/// empty input buffer), and never an error.
#[verifier::external_body]
pub(crate) fn decoder_poll(d: &mut DecoderEngine, buf: &mut [u8], from: usize, to: usize) -> (r:
    Poll)
    requires
        from < to <= old(buf)@.len(),
    ensures
        match r {
            Poll::Empty(n) => n <= to - from,
            Poll::More(n) => n == to - from,
            Poll::Refused => false,
        },
        final(buf)@.len() == old(buf)@.len(),
        forall|i: int|
            0 <= i < old(buf)@.len() && !(from <= i < from + r.count()) ==> final(buf)@[i]
                == old(buf)@[i],
        decoder_output(*final(d)) == decoder_output(*old(d)) + final(buf)@.subrange(
            from as int,
            from + r.count(),
        ),
        decoder_input(*final(d)) == decoder_input(*old(d)),
        r is Empty ==> decoder_stalled(*final(d)),
        decoder_consistent(*final(d)),
{
    match d.poll(&mut buf[from..to]) {
        embedded_heatshrink::HSDPollRes::Empty(n) => Poll::Empty(n),
        embedded_heatshrink::HSDPollRes::More(n) => Poll::More(n),
        embedded_heatshrink::HSDPollRes::ErrorNull => Poll::Refused,
        embedded_heatshrink::HSDPollRes::ErrorUnknown => Poll::Refused,
    }
}

/// Relies on `HeatshrinkDecoder::finish` of embedded-heatshrink: it changes
/// nothing; it reports `Done` when the input buffer is empty in a state that
/// reads bits (so always when stalled), and only when no further output can
/// come from the input accepted so far.
#[verifier::external_body]
pub(crate) fn decoder_finish(d: &mut DecoderEngine) -> (r: Finish)
    ensures
        *final(d) == *old(d),
        decoder_stalled(*old(d)) ==> r is Done,
        r is Done ==> decoder_output(*final(d)) == decompressed(decoder_input(*final(d))),
{
    match d.finish() {
        embedded_heatshrink::HSDFinishRes::Done => Finish::Done,
        embedded_heatshrink::HSDFinishRes::More => Finish::More,
        embedded_heatshrink::HSDFinishRes::ErrorNull => Finish::More,
    }
}

} // verus!
