//! The caller's side of the communication paths: serial link endpoints, I2C
//! bus endpoints, and the table that hands out one endpoint per bus however
//! often it is asked for.
//!
//! Nothing here touches a device. An endpoint names the bus it stands for; a
//! [`Submission`] is what a caller hands to the worker of a serial link, and
//! [`Submission::conclude`] turns what the caller saw while it waited into
//! the caller's result.

use vstd::prelude::*;

verus! {

/// Seconds that a caller waits for the reply to its request.
pub const REPLY_TIMEOUT_SECS: u64 = 3;

/// Why a request on a serial link brought no reply.
#[derive(Clone, Copy, Debug, PartialEq, Eq, Structural)]
pub enum LinkError {
    /// The worker of the link did not take the request.
    SendFailed,
    /// No reply arrived within the deadline.
    TimedOut,
    /// The worker dropped the transaction before a reply arrived.
    Disconnected,
}

/// What a caller saw after it handed a [`Submission`] to the worker.
#[derive(Debug, PartialEq, Eq)]
pub enum WaitOutcome {
    /// The worker could not be reached; nothing was waited for.
    NotAccepted,
    /// The reply payload arrived within the deadline.
    Reply(Vec<u8>),
    /// The deadline passed.
    TimedOut,
    /// The reply handle was dropped by the worker.
    Disconnected,
}

/// [`WaitOutcome`] as a mathematical value.
pub enum WaitModel {
    NotAccepted,
    Reply(Seq<u8>),
    TimedOut,
    Disconnected,
}

impl View for WaitOutcome {
    type V = WaitModel;

    open spec fn view(&self) -> WaitModel {
        match *self {
            WaitOutcome::NotAccepted => WaitModel::NotAccepted,
            WaitOutcome::Reply(payload) => WaitModel::Reply(payload@),
            WaitOutcome::TimedOut => WaitModel::TimedOut,
            WaitOutcome::Disconnected => WaitModel::Disconnected,
        }
    }
}

/// The caller's result for each thing it can see while waiting: the reply if
/// one arrived in time, else the transport failure that took its place.
pub open spec fn concluded(outcome: WaitModel) -> Result<Seq<u8>, LinkError> {
    match outcome {
        WaitModel::NotAccepted => Err(LinkError::SendFailed),
        WaitModel::Reply(payload) => Ok(payload),
        WaitModel::TimedOut => Err(LinkError::TimedOut),
        WaitModel::Disconnected => Err(LinkError::Disconnected),
    }
}

/// The endpoint through which callers reach the worker of one serial link.
/// Nodes behind the same port share one endpoint.
#[derive(Clone, Copy, Debug, PartialEq, Eq, Structural)]
pub struct CommChannelTx {
    /// The identifier of the serial link behind this endpoint.
    pub path_id: u32,
}

/// The endpoint of one I2C bus.
#[derive(Clone, Copy, Debug, PartialEq, Eq, Structural)]
pub struct CommChannel {
    /// The identifier of the I2C bus behind this endpoint.
    pub path_id: u32,
}

/// A request on its way to the worker of a serial link.
#[derive(Debug, PartialEq, Eq)]
pub struct Submission {
    /// The serial link to use.
    pub path_id: u32,
    /// The node behind that link that the request is for.
    pub node_id: u32,
    /// The module payload of the request.
    pub msg: Vec<u8>,
    /// How many seconds to wait for the reply.
    pub timeout_secs: u64,
}

impl CommChannelTx {
    /// Addresses `msg` to node `node_id` behind this link. The result is
    /// what the caller hands to the link's worker before it waits, for
    /// [`REPLY_TIMEOUT_SECS`] seconds, for the reply.
    pub fn send(&self, node_id: u32, msg: Vec<u8>) -> (submission: Submission)
        ensures
            submission.path_id == self.path_id,
            submission.node_id == node_id,
            submission.msg@ == msg@,
            submission.timeout_secs == REPLY_TIMEOUT_SECS,
    {
        Submission { path_id: self.path_id, node_id, msg, timeout_secs: REPLY_TIMEOUT_SECS }
    }
}

impl Submission {
    /// The caller's result, given what it saw while waiting: the reply
    /// payload if one arrived in time, otherwise the transport failure.
    pub fn conclude(&self, outcome: WaitOutcome) -> (res: Result<Vec<u8>, LinkError>)
        ensures
            match concluded(outcome@) {
                Ok(payload) => res matches Ok(p) && p@ == payload,
                Err(e) => res matches Err(x) && x == e,
            },
    {
        match outcome {
            WaitOutcome::NotAccepted => Err(LinkError::SendFailed),
            WaitOutcome::Reply(payload) => Ok(payload),
            WaitOutcome::TimedOut => Err(LinkError::TimedOut),
            WaitOutcome::Disconnected => Err(LinkError::Disconnected),
        }
    }
}

/// Whatever a caller sees while it waits, its request ends in exactly one
/// way: with the reply, if and only if the reply arrived in time; with a
/// timeout, if and only if the deadline passed; and otherwise with the
/// failure of the link that kept the request from being taken or answered.
pub proof fn lemma_caller_sees_one_outcome(outcome: WaitModel)
    ensures
        concluded(outcome) is Ok <==> outcome is Reply,
        outcome matches WaitModel::Reply(payload) ==> concluded(outcome) == Ok::<
            Seq<u8>,
            LinkError,
        >(payload),
        concluded(outcome) == Err::<Seq<u8>, LinkError>(LinkError::TimedOut) <==> outcome
            is TimedOut,
        concluded(outcome) == Err::<Seq<u8>, LinkError>(LinkError::SendFailed) <==> outcome
            is NotAccepted,
        concluded(outcome) == Err::<Seq<u8>, LinkError>(LinkError::Disconnected) <==> outcome
            is Disconnected,
{
}

/// The bus identifiers known after `id` was asked for: `id` joins the end
/// unless it is known already.
pub open spec fn obtained(paths: Seq<u32>, id: u32) -> Seq<u32> {
    if paths.contains(id) {
        paths
    } else {
        paths.push(id)
    }
}

/// The buses for which an endpoint was handed out, in the order in which
/// they were first asked for. A table that starts empty never lists a bus
/// twice (see [`lemma_obtained_is_memoized`]).
pub struct CommPaths {
    ids: Vec<u32>,
}

impl View for CommPaths {
    type V = Seq<u32>;

    closed spec fn view(&self) -> Seq<u32> {
        self.ids@
    }
}

impl CommPaths {
    /// A table in which no bus is known.
    pub fn new() -> (paths: CommPaths)
        ensures
            paths@ == Seq::<u32>::empty(),
    {
        CommPaths { ids: Vec::new() }
    }

    /// Whether an endpoint for bus `id` was handed out before.
    pub fn contains(&self, id: u32) -> (known: bool)
        ensures
            known == self@.contains(id),
    {
        let mut i: usize = 0;
        while i < self.ids.len()
            invariant
                i <= self.ids.len(),
                forall|j: int| 0 <= j < i ==> self.ids@[j] != id,
            decreases self.ids.len() - i,
        {
            if self.ids[i] == id {
                return true;
            }
            i += 1;
        }
        false
    }

    /// The known buses, in the order of their first use.
    pub fn ids(&self) -> (ids: &Vec<u32>)
        ensures
            ids@ == self@,
    {
        &self.ids
    }

    /// Makes bus `id` known. Returns whether it was unknown before, that is
    /// whether its device has yet to be opened.
    fn obtain(&mut self, id: u32) -> (created: bool)
        ensures
            final(self)@ == obtained(old(self)@, id),
            created == !old(self)@.contains(id),
    {
        if self.contains(id) {
            false
        } else {
            self.ids.push(id);
            true
        }
    }
}

/// Hands out the endpoint of serial link `serial_comm_path_id`, and says
/// whether this is the first time: only then has the port to be opened and
/// its worker started. Asking again gives the same endpoint.
pub fn get_serial_comm_path(paths: &mut CommPaths, serial_comm_path_id: u32) -> (path: (
    CommChannelTx,
    bool,
))
    ensures
        path.0.path_id == serial_comm_path_id,
        path.1 == !old(paths)@.contains(serial_comm_path_id),
        final(paths)@ == obtained(old(paths)@, serial_comm_path_id),
{
    let created = paths.obtain(serial_comm_path_id);
    (CommChannelTx { path_id: serial_comm_path_id }, created)
}

/// Hands out the endpoint of I2C bus `i2c_comm_path_id`, and says whether
/// this is the first time: only then has the bus to be opened. Asking again
/// gives the same endpoint.
pub fn get_i2c_comm_path(paths: &mut CommPaths, i2c_comm_path_id: u32) -> (path: (
    CommChannel,
    bool,
))
    ensures
        path.0.path_id == i2c_comm_path_id,
        path.1 == !old(paths)@.contains(i2c_comm_path_id),
        final(paths)@ == obtained(old(paths)@, i2c_comm_path_id),
{
    let created = paths.obtain(i2c_comm_path_id);
    (CommChannel { path_id: i2c_comm_path_id }, created)
}

/// A bus that was asked for is known afterwards, asking for it again
/// changes nothing, no known bus is forgotten, and a table that listed no
/// bus twice still lists none twice.
pub proof fn lemma_obtained_is_memoized(paths: Seq<u32>, id: u32)
    ensures
        obtained(paths, id).contains(id),
        obtained(obtained(paths, id), id) == obtained(paths, id),
        forall|other: u32| paths.contains(other) ==> obtained(paths, id).contains(other),
        paths.no_duplicates() ==> obtained(paths, id).no_duplicates(),
{
    if !paths.contains(id) {
        assert(paths.push(id)[paths.len() as int] == id);
        assert forall|other: u32| paths.contains(other) implies paths.push(id).contains(
            other,
        ) by {
            let k = choose|k: int| 0 <= k < paths.len() && paths[k] == other;
            assert(paths.push(id)[k] == other);
        }
    }
}

} // verus!
