//! The transaction engine of one serial link.
//!
//! A [`LinkWorker`] is the state that the owner of one serial port keeps: the
//! transaction counter, the table of pending transactions and the framer of
//! the inbound byte stream. It performs no I/O. [`LinkWorker::submit`] turns
//! a request into the frame to write, [`LinkWorker::receive`] turns inbound
//! bytes into the reply to deliver. The reply handle `H` is whatever the
//! owner uses to wake a waiting caller; the worker only stores it and hands
//! it back.

use std::collections::HashMap;
use vstd::prelude::*;
use crate::codec::{decode, decoded, encode, frame, FrameError};
use crate::framer::{idle, step, FrameParser, ParserModel};
use crate::text::{
    after_first_field, append, decimal, first_field, lemma_decimal_digits, parse_u64,
    parsed_u64, push_decimal, split_first, COMMA,
};

verus! {

broadcast use vstd::std_specs::hash::group_hash_axioms;

/// Why an inbound frame body was dropped.
#[derive(Clone, Copy, Debug, PartialEq, Eq, Structural)]
pub enum InboundError {
    /// The body is no valid frame.
    Frame(FrameError),
    /// The payload holds no comma, so no transaction identifier.
    MissingTransactionId,
    /// What precedes the first comma is no 64-bit decimal number.
    BadTransactionId,
}

/// The identifier that follows `counter`: one more, wrapping to zero after
/// the largest 64-bit value.
pub open spec fn next_id(counter: u64) -> u64 {
    if counter == u64::MAX {
        0
    } else {
        (counter + 1) as u64
    }
}

/// The identifier that the `n`-th submission after `counter` receives (for
/// `n == 0`, `counter` itself).
pub open spec fn id_after(counter: u64, n: nat) -> u64 {
    ((counter + n) % 0x1_0000_0000_0000_0000) as u64
}

/// The identifiers that `n` submissions in a row receive, starting from a
/// worker whose counter is `counter`.
pub open spec fn issued_ids(counter: u64, n: nat) -> Seq<u64> {
    Seq::new(n, |k: int| id_after(counter, (k + 1) as nat))
}

/// The payload of an outbound request: `<transaction-id>,<node-id>,<msg>`.
pub open spec fn request_payload(transaction_id: u64, node_id: u32, msg: Seq<u8>) -> Seq<u8> {
    decimal(transaction_id as nat) + seq![COMMA] + decimal(node_id as nat) + seq![COMMA] + msg
}

/// What an inbound frame body holds: the transaction identifier before the
/// first comma of its payload and the module payload after it; or the reason
/// why it holds none.
pub open spec fn processed(body: Seq<u8>) -> Result<(u64, Seq<u8>), InboundError> {
    match decoded(body) {
        Err(e) => Err(InboundError::Frame(e)),
        Ok(payload) => match after_first_field(payload) {
            None => Err(InboundError::MissingTransactionId),
            Some(rest) => match parsed_u64(first_field(payload)) {
                None => Err(InboundError::BadTransactionId),
                Some(transaction_id) => Ok((transaction_id, rest)),
            },
        },
    }
}

/// Checks an inbound frame body and splits its payload into transaction
/// identifier and module payload.
pub fn process_incoming_msg(raw_msg: &[u8]) -> (res: Result<(u64, Vec<u8>), InboundError>)
    ensures
        match processed(raw_msg@) {
            Ok(found) => res matches Ok(r) && r.0 == found.0 && r.1@ == found.1,
            Err(e) => res matches Err(x) && x == e,
        },
{
    let payload = match decode(raw_msg) {
        Ok(p) => p,
        Err(e) => {
            return Err(InboundError::Frame(e));
        },
    };
    let (id_text, rest) = split_first(payload.as_slice());
    let rest = match rest {
        Some(r) => r,
        None => {
            return Err(InboundError::MissingTransactionId);
        },
    };
    match parse_u64(id_text) {
        Some(transaction_id) => {
            let msg = vstd::slice::slice_to_vec(rest);
            Ok((transaction_id, msg))
        },
        None => Err(InboundError::BadTransactionId),
    }
}

/// What the worker found in one inbound frame body.
#[derive(Debug, PartialEq, Eq)]
pub enum Inbound<H> {
    /// A reply to a pending transaction: `payload` is to be delivered
    /// through `reply_to`. The transaction is no longer pending.
    Reply { transaction_id: u64, reply_to: H, payload: Vec<u8> },
    /// A well-formed reply to a transaction that is not pending. It is
    /// dropped.
    Unexpected { transaction_id: u64 },
    /// A body that is no well-formed reply. It is dropped.
    Invalid { error: InboundError },
}

/// [`Inbound`] as a mathematical value.
pub enum InboundModel<H> {
    Reply { transaction_id: u64, reply_to: H, payload: Seq<u8> },
    Unexpected { transaction_id: u64 },
    Invalid { error: InboundError },
}

impl<H> View for Inbound<H> {
    type V = InboundModel<H>;

    open spec fn view(&self) -> InboundModel<H> {
        match *self {
            Inbound::Reply { transaction_id, reply_to, payload } => InboundModel::Reply {
                transaction_id,
                reply_to,
                payload: payload@,
            },
            Inbound::Unexpected { transaction_id } => InboundModel::Unexpected { transaction_id },
            Inbound::Invalid { error } => InboundModel::Invalid { error },
        }
    }
}

/// What one inbound frame body does to the pending table, and what the
/// worker reports of it. Only a well-formed reply to a pending transaction
/// changes the table: it removes that transaction.
pub open spec fn handled<H>(pending: Map<u64, H>, body: Seq<u8>) -> (Map<u64, H>, InboundModel<H>) {
    match processed(body) {
        Err(error) => (pending, InboundModel::Invalid { error }),
        Ok(found) => if pending.contains_key(found.0) {
            (
                pending.remove(found.0),
                InboundModel::Reply {
                    transaction_id: found.0,
                    reply_to: pending[found.0],
                    payload: found.1,
                },
            )
        } else {
            (pending, InboundModel::Unexpected { transaction_id: found.0 })
        },
    }
}

/// The worker as a mathematical value.
pub struct LinkModel<H> {
    /// The identifier given to the latest submission (zero at the start).
    pub counter: u64,
    /// The reply handle of each pending transaction.
    pub pending: Map<u64, H>,
    /// The framer of the inbound stream.
    pub parser: ParserModel,
}

/// What one inbound byte does to the worker, and what the worker reports if
/// the byte completed a frame body.
pub open spec fn received<H>(m: LinkModel<H>, byte: u8) -> (LinkModel<H>, Option<InboundModel<H>>) {
    match step(m.parser, byte).1 {
        None => (
            LinkModel { counter: m.counter, pending: m.pending, parser: step(m.parser, byte).0 },
            None,
        ),
        Some(body) => (
            LinkModel {
                counter: m.counter,
                pending: handled(m.pending, body).0,
                parser: step(m.parser, byte).0,
            },
            Some(handled(m.pending, body).1),
        ),
    }
}

/// What a run of inbound bytes does to the worker, and what the worker
/// reports on the way, in order of arrival.
pub open spec fn received_all<H>(m: LinkModel<H>, input: Seq<u8>) -> (
    LinkModel<H>,
    Seq<InboundModel<H>>,
)
    decreases input.len(),
{
    if input.len() == 0 {
        (m, Seq::empty())
    } else {
        let before = received_all(m, input.drop_last());
        let last = received(before.0, input.last());
        match last.1 {
            Some(event) => (last.0, before.1.push(event)),
            None => (last.0, before.1),
        }
    }
}

/// The reports of a list as mathematical values.
pub open spec fn event_views<H>(events: Seq<Inbound<H>>) -> Seq<InboundModel<H>> {
    Seq::new(events.len(), |i: int| events[i]@)
}

/// The state of the worker that owns one serial link.
pub struct LinkWorker<H> {
    transaction_id_ctr: u64,
    pending_transactions: HashMap<u64, H>,
    parser: FrameParser,
}

impl<H> View for LinkWorker<H> {
    type V = LinkModel<H>;

    closed spec fn view(&self) -> LinkModel<H> {
        LinkModel {
            counter: self.transaction_id_ctr,
            pending: self.pending_transactions@,
            parser: self.parser@,
        }
    }
}

impl<H> LinkWorker<H> {
    /// A worker that has issued no identifier, waits for no reply and has
    /// seen no byte.
    pub fn new() -> (worker: LinkWorker<H>)
        ensures
            worker@.counter == 0,
            worker@.pending == Map::<u64, H>::empty(),
            worker@.parser == idle(),
    {
        LinkWorker {
            transaction_id_ctr: 0,
            pending_transactions: HashMap::new(),
            parser: FrameParser::new(),
        }
    }

    /// Registers a request for node `node_id` and returns its transaction
    /// identifier and the frame to write to the serial port.
    ///
    /// The identifier is the one after the previous submission's. The
    /// transaction becomes pending with `reply_to` as its reply handle; a
    /// transaction that was still pending under the same identifier, 2^64
    /// submissions earlier, is forgotten.
    pub fn submit(&mut self, node_id: u32, msg: &[u8], reply_to: H) -> (out: (u64, Vec<u8>))
        ensures
            out.0 == next_id(old(self)@.counter),
            out.1@ == frame(request_payload(out.0, node_id, msg@)),
            final(self)@.counter == out.0,
            final(self)@.pending == old(self)@.pending.insert(out.0, reply_to),
            final(self)@.parser == old(self)@.parser,
    {
        let transaction_id = self.transaction_id_ctr.wrapping_add(1);
        self.transaction_id_ctr = transaction_id;
        self.pending_transactions.insert(transaction_id, reply_to);
        let mut payload: Vec<u8> = Vec::new();
        push_decimal(&mut payload, transaction_id);
        payload.push(COMMA);
        push_decimal(&mut payload, node_id as u64);
        payload.push(COMMA);
        append(&mut payload, msg);
        proof {
            lemma_decimal_digits(transaction_id as nat);
            assert(payload@ =~= request_payload(transaction_id, node_id, msg@));
        }
        (transaction_id, encode(payload.as_slice()))
    }

    /// Takes one byte from the serial port. If the byte completes a frame
    /// body, reports what the body held; a reply to a pending transaction
    /// leaves the pending table together with its reply handle.
    pub fn receive(&mut self, byte: u8) -> (event: Option<Inbound<H>>)
        ensures
            final(self)@ == received(old(self)@, byte).0,
            match received(old(self)@, byte).1 {
                Some(e) => event matches Some(x) && x@ == e,
                None => event is None,
            },
    {
        let body = match self.parser.push(byte) {
            Some(b) => b,
            None => {
                return None;
            },
        };
        match process_incoming_msg(body.as_slice()) {
            Ok((transaction_id, payload)) => {
                match self.pending_transactions.remove(&transaction_id) {
                    Some(reply_to) => Some(Inbound::Reply { transaction_id, reply_to, payload }),
                    None => {
                        assert(self.pending_transactions@ =~= old(self).pending_transactions@);
                        Some(Inbound::Unexpected { transaction_id })
                    },
                }
            },
            Err(error) => Some(Inbound::Invalid { error }),
        }
    }

    /// Takes a run of bytes from the serial port and reports what every
    /// frame body held that was completed on the way, in order of arrival.
    pub fn receive_all(&mut self, input: &[u8]) -> (events: Vec<Inbound<H>>)
        ensures
            final(self)@ == received_all(old(self)@, input@).0,
            event_views(events@) == received_all(old(self)@, input@).1,
    {
        let mut events: Vec<Inbound<H>> = Vec::new();
        let mut i: usize = 0;
        assert(event_views(events@) =~= Seq::<InboundModel<H>>::empty());
        while i < input.len()
            invariant
                i <= input.len(),
                self@ == received_all(old(self)@, input@.take(i as int)).0,
                event_views(events@) == received_all(old(self)@, input@.take(i as int)).1,
            decreases input.len() - i,
        {
            assert(input@.take(i + 1).drop_last() =~= input@.take(i as int));
            let ghost before = event_views(events@);
            match self.receive(input[i]) {
                Some(event) => {
                    events.push(event);
                    assert(event_views(events@) =~= before.push(event@));
                },
                None => {},
            }
            i += 1;
        }
        assert(input@.take(i as int) =~= input@);
        events
    }

    /// Whether a transaction with this identifier waits for its reply.
    pub fn is_pending(&self, transaction_id: u64) -> (pending: bool)
        ensures
            pending == self@.pending.contains_key(transaction_id),
    {
        self.pending_transactions.contains_key(&transaction_id)
    }

    /// The identifier given to the latest submission, zero before the first.
    pub fn last_transaction_id(&self) -> (id: u64)
        ensures
            id == self@.counter,
    {
        self.transaction_id_ctr
    }
}

/// Each submission receives the identifier after the previous one's.
pub proof fn lemma_id_after_next(counter: u64, n: nat)
    ensures
        id_after(counter, 0) == counter,
        id_after(counter, n + 1) == next_id(id_after(counter, n)),
{
}

/// Two submissions on one link that are fewer than 2^64 submissions apart
/// receive different identifiers.
pub proof fn lemma_ids_differ(counter: u64, i: nat, j: nat)
    requires
        i < j,
        j - i < 0x1_0000_0000_0000_0000,
    ensures
        id_after(counter, i) != id_after(counter, j),
{
}

/// Up to 2^64 submissions in a row on one link receive pairwise distinct
/// identifiers.
pub proof fn lemma_issued_ids_distinct(counter: u64, n: nat)
    requires
        n <= 0x1_0000_0000_0000_0000,
    ensures
        issued_ids(counter, n).no_duplicates(),
{
    let ids = issued_ids(counter, n);
    assert forall|i: int, j: int| 0 <= i < ids.len() && 0 <= j < ids.len() && i != j implies ids[i]
        != ids[j] by {
        if i < j {
            lemma_ids_differ(counter, (i + 1) as nat, (j + 1) as nat);
        } else {
            lemma_ids_differ(counter, (j + 1) as nat, (i + 1) as nat);
        }
    }
}

/// A reply is delivered at most once: the frame body that was delivered as
/// the reply to a pending transaction is reported as unexpected when it
/// arrives again, and leaves the pending table as it is.
pub proof fn lemma_reply_delivered_once<H>(pending: Map<u64, H>, body: Seq<u8>)
    requires
        handled(pending, body).1 is Reply,
    ensures
        handled(handled(pending, body).0, body).1 is Unexpected,
        handled(handled(pending, body).0, body).0 == handled(pending, body).0,
{
}

/// How many of the reports are the reply to transaction `transaction_id`.
pub open spec fn replies_to<H>(events: Seq<InboundModel<H>>, transaction_id: u64) -> nat
    decreases events.len(),
{
    if events.len() == 0 {
        0
    } else if events.last() matches InboundModel::Reply { transaction_id: t, .. } && t
        == transaction_id {
        replies_to(events.drop_last(), transaction_id) + 1
    } else {
        replies_to(events.drop_last(), transaction_id)
    }
}

/// Whatever arrives on the link, a transaction is answered at most once, and
/// only if it was pending; it stays pending exactly until it is answered.
/// Inbound bytes never change the transaction counter.
pub proof fn lemma_answered_at_most_once<H>(m: LinkModel<H>, input: Seq<u8>, transaction_id: u64)
    ensures
        replies_to(received_all(m, input).1, transaction_id) <= 1,
        replies_to(received_all(m, input).1, transaction_id) == 1 ==> m.pending.contains_key(
            transaction_id,
        ) && !received_all(m, input).0.pending.contains_key(transaction_id),
        replies_to(received_all(m, input).1, transaction_id) == 0 ==> (received_all(
            m,
            input,
        ).0.pending.contains_key(transaction_id) <==> m.pending.contains_key(transaction_id)),
        received_all(m, input).0.counter == m.counter,
    decreases input.len(),
{
    if input.len() > 0 {
        lemma_answered_at_most_once(m, input.drop_last(), transaction_id);
        let before = received_all(m, input.drop_last());
        let last = received(before.0, input.last());
        match last.1 {
            Some(event) => {
                assert(before.1.push(event).drop_last() =~= before.1);
            },
            None => {},
        }
    }
}

/// A frame body that is no reply to a pending transaction leaves the
/// pending table untouched.
pub proof fn lemma_only_replies_touch_pending<H>(pending: Map<u64, H>, body: Seq<u8>)
    ensures
        !(handled(pending, body).1 is Reply) ==> handled(pending, body).0 == pending,
        handled(pending, body).1 matches InboundModel::Reply { transaction_id, reply_to, .. }
            ==> pending.contains_key(transaction_id) && reply_to == pending[transaction_id]
            && handled(pending, body).0 == pending.remove(transaction_id),
{
}

} // verus!
