//! The two-state framer that cuts a byte stream into frame bodies.
//!
//! While waiting, every byte is skipped until the start sentinel `$` is
//! seen. While receiving, every byte is kept; as soon as the kept bytes end
//! in `\r\n` the terminator is stripped, the rest is handed out as one frame
//! body, and the framer waits again.

use vstd::prelude::*;
use crate::codec::{
    decoded, frame, frame_body, hex2, lemma_decode_frame_body, FrameError, FRAME_CR, FRAME_LF,
    FRAME_SEPARATOR, FRAME_START,
};

verus! {

/// The two states of the framer.
#[derive(Clone, Copy, Debug, PartialEq, Eq, Structural)]
pub enum ParserState {
    /// Skipping bytes until `$` arrives.
    WaitingForDollar,
    /// Collecting the bytes of a frame body.
    Receiving,
}

/// The framer as a mathematical value: its state and the bytes collected so
/// far.
pub struct ParserModel {
    pub state: ParserState,
    pub buffer: Seq<u8>,
}

/// The framer before any byte has arrived, and after each complete frame.
pub open spec fn idle() -> ParserModel {
    ParserModel { state: ParserState::WaitingForDollar, buffer: Seq::empty() }
}

/// The framer right after the start sentinel, or while collecting `buffer`.
pub open spec fn receiving(buffer: Seq<u8>) -> ParserModel {
    ParserModel { state: ParserState::Receiving, buffer }
}

/// Whether the collected bytes end in the terminator `\r\n`.
pub open spec fn ends_frame(buf: Seq<u8>) -> bool {
    buf.len() >= 2 && buf[buf.len() - 2] == FRAME_CR && buf[buf.len() - 1] == FRAME_LF
}

/// What one byte does to the framer: the next framer, and the frame body
/// that this byte completed, if it completed one.
pub open spec fn step(m: ParserModel, b: u8) -> (ParserModel, Option<Seq<u8>>) {
    match m.state {
        ParserState::WaitingForDollar => if b == FRAME_START {
            (receiving(Seq::empty()), None)
        } else {
            (idle(), None)
        },
        ParserState::Receiving => if ends_frame(m.buffer.push(b)) {
            (idle(), Some(m.buffer.push(b).take(m.buffer.len() - 1)))
        } else {
            (receiving(m.buffer.push(b)), None)
        },
    }
}

/// What a run of bytes does to the framer: the framer after the last byte,
/// and the frame bodies completed on the way, in order of arrival.
pub open spec fn run(m: ParserModel, input: Seq<u8>) -> (ParserModel, Seq<Seq<u8>>)
    decreases input.len(),
{
    if input.len() == 0 {
        (m, Seq::empty())
    } else {
        let before = run(m, input.drop_last());
        let last = step(before.0, input.last());
        match last.1 {
            Some(body) => (last.0, before.1.push(body)),
            None => (last.0, before.1),
        }
    }
}

/// The contents of a list of byte strings.
pub open spec fn views(v: Seq<Vec<u8>>) -> Seq<Seq<u8>> {
    Seq::new(v.len(), |i: int| v[i]@)
}

/// A payload as the link carries it: at least one byte, every byte printable
/// ASCII, none of them `$` or `*`.
pub open spec fn printable_payload(p: Seq<u8>) -> bool {
    &&& p.len() >= 1
    &&& forall|i: int|
        0 <= i < p.len() ==> 0x20 <= #[trigger] p[i] <= 0x7E && p[i] != FRAME_START && p[i]
            != FRAME_SEPARATOR
}

/// The framer of one byte stream.
pub struct FrameParser {
    state: ParserState,
    buffer: Vec<u8>,
}

impl View for FrameParser {
    type V = ParserModel;

    closed spec fn view(&self) -> ParserModel {
        match self.state {
            ParserState::WaitingForDollar => idle(),
            ParserState::Receiving => receiving(self.buffer@),
        }
    }
}

impl FrameParser {
    /// A framer that waits for its first `$`.
    pub fn new() -> (parser: FrameParser)
        ensures
            parser@ == idle(),
    {
        FrameParser { state: ParserState::WaitingForDollar, buffer: Vec::new() }
    }

    /// The state the framer is in.
    pub fn state(&self) -> (s: ParserState)
        ensures
            s == self@.state,
    {
        self.state
    }

    /// Takes one byte from the stream. Returns the frame body that this byte
    /// completed, terminator stripped, if it completed one.
    pub fn push(&mut self, byte: u8) -> (completed: Option<Vec<u8>>)
        ensures
            final(self)@ == step(old(self)@, byte).0,
            match step(old(self)@, byte).1 {
                Some(body) => completed matches Some(b) && b@ == body,
                None => completed is None,
            },
    {
        match self.state {
            ParserState::WaitingForDollar => {
                if byte == FRAME_START {
                    self.buffer.clear();
                    self.state = ParserState::Receiving;
                }
                None
            },
            ParserState::Receiving => {
                self.buffer.push(byte);
                let len = self.buffer.len();
                if len >= 2 && self.buffer[len - 2] == FRAME_CR && self.buffer[len - 1]
                    == FRAME_LF {
                    let mut body: Vec<u8> = Vec::new();
                    core::mem::swap(&mut self.buffer, &mut body);
                    body.truncate(len - 2);
                    self.state = ParserState::WaitingForDollar;
                    assert(body@ =~= old(self).buffer@.push(byte).take(old(self).buffer@.len() - 1));
                    Some(body)
                } else {
                    None
                }
            },
        }
    }

    /// Takes a run of bytes from the stream. Returns the frame bodies that
    /// were completed on the way, in order of arrival.
    pub fn feed(&mut self, input: &[u8]) -> (bodies: Vec<Vec<u8>>)
        ensures
            final(self)@ == run(old(self)@, input@).0,
            views(bodies@) == run(old(self)@, input@).1,
    {
        let mut bodies: Vec<Vec<u8>> = Vec::new();
        let mut i: usize = 0;
        assert(views(bodies@) =~= Seq::<Seq<u8>>::empty());
        while i < input.len()
            invariant
                i <= input.len(),
                self@ == run(old(self)@, input@.take(i as int)).0,
                views(bodies@) == run(old(self)@, input@.take(i as int)).1,
            decreases input.len() - i,
        {
            assert(input@.take(i + 1).drop_last() =~= input@.take(i as int));
            let ghost before = views(bodies@);
            match self.push(input[i]) {
                Some(body) => {
                    bodies.push(body);
                    assert(views(bodies@) =~= before.push(body@));
                },
                None => {},
            }
            i += 1;
        }
        assert(input@.take(i as int) =~= input@);
        bodies
    }
}

/// Feeding a stream in two pieces gives what feeding it whole gives.
pub proof fn lemma_run_concat(m: ParserModel, a: Seq<u8>, b: Seq<u8>)
    ensures
        run(m, a + b).0 == run(run(m, a).0, b).0,
        run(m, a + b).1 == run(m, a).1 + run(run(m, a).0, b).1,
    decreases b.len(),
{
    if b.len() == 0 {
        assert(a + b =~= a);
        assert(run(m, a).1 + Seq::<Seq<u8>>::empty() =~= run(m, a).1);
    } else {
        assert((a + b).drop_last() =~= a + b.drop_last());
        assert((a + b).last() == b.last());
        lemma_run_concat(m, a, b.drop_last());
        let mid = run(m, a).0;
        let before = run(mid, b.drop_last());
        let last = step(before.0, b.last());
        match last.1 {
            Some(body) => {
                assert(run(m, a).1 + before.1.push(body) =~= (run(m, a).1 + before.1).push(body));
            },
            None => {},
        }
    }
}

/// A run of one byte is one step.
pub proof fn lemma_run_one(m: ParserModel, b: u8)
    ensures
        run(m, seq![b]).0 == step(m, b).0,
        run(m, seq![b]).1 == match step(m, b).1 {
            Some(body) => seq![body],
            None => Seq::<Seq<u8>>::empty(),
        },
{
    let one = seq![b];
    assert(one.drop_last() =~= Seq::<u8>::empty());
    assert(run(m, one.drop_last()) == (m, Seq::<Seq<u8>>::empty()));
    match step(m, b).1 {
        Some(body) => {
            assert(Seq::<Seq<u8>>::empty().push(body) =~= seq![body]);
        },
        None => {},
    }
}

/// While no line feed arrives, a receiving framer only collects.
pub proof fn lemma_run_collects(buffer: Seq<u8>, input: Seq<u8>)
    requires
        forall|i: int| 0 <= i < input.len() ==> input[i] != FRAME_LF,
    ensures
        run(receiving(buffer), input) == (receiving(buffer + input), Seq::<Seq<u8>>::empty()),
    decreases input.len(),
{
    if input.len() == 0 {
        assert(buffer + input =~= buffer);
    } else {
        lemma_run_collects(buffer, input.drop_last());
        assert((buffer + input.drop_last()).push(input.last()) =~= buffer + input);
    }
}

/// A framer that waits turns the frame of a printable payload into exactly
/// one frame body and waits again; decoding that body gives the payload
/// back.
pub proof fn lemma_frame_round_trip(p: Seq<u8>)
    requires
        printable_payload(p),
    ensures
        run(idle(), frame(p)) == (idle(), seq![frame_body(p)]),
        decoded(frame_body(p)) == Ok::<Seq<u8>, FrameError>(p),
{
    lemma_decode_frame_body(p);
    let body = frame_body(p);
    let digits = hex2(crate::codec::checksum(p));
    assert(digits[0] != FRAME_LF && digits[1] != FRAME_LF);
    let collected = body + seq![FRAME_CR];
    assert forall|i: int| 0 <= i < collected.len() implies collected[i] != FRAME_LF by {
        if i < p.len() {
            assert(collected[i] == p[i]);
        } else if i == p.len() {
            assert(collected[i] == FRAME_SEPARATOR);
        } else if i < p.len() + 3 {
            assert(collected[i] == digits[i - p.len() - 1]);
        } else {
            assert(collected[i] == FRAME_CR);
        }
    }
    lemma_run_collects(Seq::empty(), collected);
    assert(Seq::<u8>::empty() + collected =~= collected);
    let start = seq![FRAME_START];
    lemma_run_one(idle(), FRAME_START);
    lemma_run_concat(idle(), start, collected);
    let end = seq![FRAME_LF];
    assert(collected.push(FRAME_LF).take(collected.len() - 1) =~= body);
    assert(ends_frame(collected.push(FRAME_LF)));
    lemma_run_one(receiving(collected), FRAME_LF);
    lemma_run_concat(idle(), start + collected, end);
    assert(start + collected + end =~= frame(p));
    assert(Seq::<Seq<u8>>::empty() + Seq::<Seq<u8>>::empty() + seq![body] =~= seq![body]);
}

} // verus!
