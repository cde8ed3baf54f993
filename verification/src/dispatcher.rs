//! The device side of the serial protocol: a dispatcher that cuts the
//! inbound stream into frames, routes each request to the module it names,
//! and collects the frames that the modules answer with.
//!
//! The dispatcher performs no I/O. Its owner feeds it the bytes that arrive
//! and writes out what [`Dispatcher::take_output`] returns.

use vstd::prelude::*;
use crate::codec::{decode, decoded, encode, frame, frame_body, FrameError};
use crate::framer::{idle, run, FrameParser, ParserModel};
use crate::link::processed;
use crate::text::{
    after_first_field, append, decimal, eq_bytes, first_field, lemma_decimal_digits,
    lemma_decimal_round_trip, lemma_first_field_join, parse_u64, parsed_u64, push_decimal,
    split_first, COMMA,
};

verus! {

/// The sink through which a module answers a request.
pub trait MsgSender {
    /// Sends `msg_str` as the answer of module `module_name` to transaction
    /// `transaction_id`.
    fn write_msg(&mut self, transaction_id: u64, module_name: &[u8], msg_str: &[u8]) -> Result<
        (),
        (),
    >;
}

/// A handler of the requests that name one module.
pub trait Module {
    /// Handles the module payload of one request. Whatever the module
    /// answers, it sends through `msg_writer`, at most once.
    fn handle_incoming_msg<S: MsgSender>(
        &mut self,
        msg_writer: &mut S,
        transaction_id: u64,
        msg_str: &[u8],
    ) -> Result<(), ()>;
}

/// Why an inbound frame body was dropped without an answer.
#[derive(Clone, Copy, Debug, PartialEq, Eq, Structural)]
pub enum DispatchError {
    /// The body is no valid frame.
    Frame(FrameError),
    /// The first field of the payload is no 64-bit decimal number.
    BadTransactionId,
    /// The payload ends after the transaction identifier.
    MissingModuleName,
    /// The payload ends after the module name.
    MissingPayload,
    /// No module is registered under the name.
    UnknownModule,
}

/// A request as it comes out of a frame.
#[derive(Debug, PartialEq, Eq)]
pub struct Request {
    pub transaction_id: u64,
    pub module_name: Vec<u8>,
    pub payload: Vec<u8>,
}

/// [`Request`] as a mathematical value.
pub struct RequestModel {
    pub transaction_id: u64,
    pub module_name: Seq<u8>,
    pub payload: Seq<u8>,
}

impl View for Request {
    type V = RequestModel;

    open spec fn view(&self) -> RequestModel {
        RequestModel {
            transaction_id: self.transaction_id,
            module_name: self.module_name@,
            payload: self.payload@,
        }
    }
}

/// The request that a frame body holds: the payload is cut at its first two
/// commas into transaction identifier, module name and module payload. The
/// checks come in this order: frame, identifier, module name, payload.
pub open spec fn routed(body: Seq<u8>) -> Result<RequestModel, DispatchError> {
    match decoded(body) {
        Err(e) => Err(DispatchError::Frame(e)),
        Ok(payload) => match parsed_u64(first_field(payload)) {
            None => Err(DispatchError::BadTransactionId),
            Some(transaction_id) => match after_first_field(payload) {
                None => Err(DispatchError::MissingModuleName),
                Some(rest) => match after_first_field(rest) {
                    None => Err(DispatchError::MissingPayload),
                    Some(module_payload) => Ok(
                        RequestModel {
                            transaction_id,
                            module_name: first_field(rest),
                            payload: module_payload,
                        },
                    ),
                },
            },
        },
    }
}

/// The payload of an answer: `<transaction-id>,<module-name>,<msg>`.
pub open spec fn response_payload(transaction_id: u64, module_name: Seq<u8>, msg: Seq<u8>) -> Seq<
    u8,
> {
    decimal(transaction_id as nat) + seq![COMMA] + module_name + seq![COMMA] + msg
}

/// Checks a frame body and cuts its payload into the parts of a request.
pub fn route(raw_msg: &[u8]) -> (res: Result<Request, DispatchError>)
    ensures
        match routed(raw_msg@) {
            Ok(request) => res matches Ok(r) && r@ == request,
            Err(e) => res matches Err(x) && x == e,
        },
{
    let payload = match decode(raw_msg) {
        Ok(p) => p,
        Err(e) => {
            return Err(DispatchError::Frame(e));
        },
    };
    let (id_text, rest) = split_first(payload.as_slice());
    let transaction_id = match parse_u64(id_text) {
        Some(id) => id,
        None => {
            return Err(DispatchError::BadTransactionId);
        },
    };
    let rest = match rest {
        Some(r) => r,
        None => {
            return Err(DispatchError::MissingModuleName);
        },
    };
    let (name, module_payload) = split_first(rest);
    let module_payload = match module_payload {
        Some(p) => p,
        None => {
            return Err(DispatchError::MissingPayload);
        },
    };
    Ok(
        Request {
            transaction_id,
            module_name: vstd::slice::slice_to_vec(name),
            payload: vstd::slice::slice_to_vec(module_payload),
        },
    )
}

/// The outbound half of the device's byte stream: the frames that modules
/// have answered with and that are still to be written.
pub struct Comm {
    outbound: Vec<u8>,
}

impl View for Comm {
    type V = Seq<u8>;

    closed spec fn view(&self) -> Seq<u8> {
        self.outbound@
    }
}

impl Comm {
    /// A sink with nothing to write.
    pub fn new() -> (comm: Comm)
        ensures
            comm@ == Seq::<u8>::empty(),
    {
        Comm { outbound: Vec::new() }
    }

    /// Hands out the bytes to write and forgets them.
    pub fn take_output(&mut self) -> (out: Vec<u8>)
        ensures
            out@ == old(self)@,
            final(self)@ == Seq::<u8>::empty(),
    {
        let mut out: Vec<u8> = Vec::new();
        core::mem::swap(&mut self.outbound, &mut out);
        out
    }
}

impl MsgSender for Comm {
    /// Queues the frame `$<transaction-id>,<module-name>,<msg>*<XX>\r\n`
    /// behind what is already waiting. Never fails.
    fn write_msg(&mut self, transaction_id: u64, module_name: &[u8], msg_str: &[u8]) -> (res:
        Result<(), ()>)
        ensures
            res is Ok,
            final(self)@ == old(self)@ + frame(
                response_payload(transaction_id, module_name@, msg_str@),
            ),
    {
        let mut payload: Vec<u8> = Vec::new();
        push_decimal(&mut payload, transaction_id);
        payload.push(COMMA);
        append(&mut payload, module_name);
        payload.push(COMMA);
        append(&mut payload, msg_str);
        proof {
            lemma_decimal_digits(transaction_id as nat);
            assert(payload@ =~= response_payload(transaction_id, module_name@, msg_str@));
        }
        let out = encode(payload.as_slice());
        append(&mut self.outbound, out.as_slice());
        Ok(())
    }
}

/// A registered module as a mathematical value: the name it is registered
/// under and the handler.
pub struct ModuleModel<M> {
    pub name: Seq<u8>,
    pub handler: M,
}

/// The position of the first module registered under `name`, if there is
/// one.
pub open spec fn position<M>(modules: Seq<ModuleModel<M>>, name: Seq<u8>) -> Option<int>
    decreases modules.len(),
{
    if modules.len() == 0 {
        None
    } else {
        match position(modules.drop_last(), name) {
            Some(i) => Some(i),
            None => if modules.last().name == name {
                Some(modules.len() - 1)
            } else {
                None
            },
        }
    }
}

/// Whether no two modules are registered under the same name.
pub open spec fn names_distinct<M>(modules: Seq<ModuleModel<M>>) -> bool {
    forall|i: int, j: int|
        0 <= i < j < modules.len() ==> (#[trigger] modules[i]).name != (#[trigger] modules[j]).name
}

/// Whether two module tables hold the same names at the same positions.
pub open spec fn same_names<M>(a: Seq<ModuleModel<M>>, b: Seq<ModuleModel<M>>) -> bool {
    &&& a.len() == b.len()
    &&& forall|j: int| 0 <= j < a.len() ==> (#[trigger] a[j]).name == b[j].name
}

/// The module table after `handler` was registered under `name`: it takes
/// the place of the module that held the name, or joins the end.
pub open spec fn with_module<M>(modules: Seq<ModuleModel<M>>, name: Seq<u8>, handler: M) -> Seq<
    ModuleModel<M>,
> {
    match position(modules, name) {
        Some(i) => modules.update(i, ModuleModel { name, handler }),
        None => modules.push(ModuleModel { name, handler }),
    }
}

/// Where a frame body goes: the position of the module that its request
/// names together with the request, or the reason why it is dropped.
pub open spec fn dispatch_of<M>(modules: Seq<ModuleModel<M>>, body: Seq<u8>) -> Result<
    (int, RequestModel),
    DispatchError,
> {
    match routed(body) {
        Err(e) => Err(e),
        Ok(request) => match position(modules, request.module_name) {
            None => Err(DispatchError::UnknownModule),
            Some(i) => Ok((i, request)),
        },
    }
}

/// What became of one inbound frame body.
#[derive(Clone, Copy, Debug, PartialEq, Eq, Structural)]
pub enum Dispatched {
    /// The module at this position handled the request.
    Handled { module: usize },
    /// The module at this position was given the request and reported a
    /// failure.
    HandlerFailed { module: usize },
    /// The body was dropped; no module saw it.
    Dropped { error: DispatchError },
}

/// Whether the report `outcome` fits where the frame body was to go: a
/// dropped body is reported with the reason, a routed one with the position
/// of the module that was given it.
pub open spec fn agrees(
    outcome: Dispatched,
    expected: Result<(int, RequestModel), DispatchError>,
) -> bool {
    match expected {
        Err(error) => outcome == (Dispatched::Dropped { error }),
        Ok(target) => match outcome {
            Dispatched::Handled { module } => module == target.0,
            Dispatched::HandlerFailed { module } => module == target.0,
            Dispatched::Dropped { .. } => false,
        },
    }
}

/// The dispatcher as a mathematical value.
pub struct DispatcherModel<M> {
    /// The registered modules, in order of registration.
    pub modules: Seq<ModuleModel<M>>,
    /// The framer of the inbound stream.
    pub parser: ParserModel,
    /// The bytes that wait to be written.
    pub outbound: Seq<u8>,
}

/// A module and the name it is registered under.
struct ModuleEntry<M> {
    name: Vec<u8>,
    handler: M,
}

/// The entries of a module table as mathematical values.
spec fn models<M>(entries: Seq<ModuleEntry<M>>) -> Seq<ModuleModel<M>> {
    Seq::new(entries.len(), |i: int| ModuleModel { name: entries[i].name@, handler: entries[i].handler })
}

/// The dispatcher of one device.
pub struct Dispatcher<M: Module> {
    comm: Comm,
    parser: FrameParser,
    modules: Vec<ModuleEntry<M>>,
}

impl<M: Module> View for Dispatcher<M> {
    type V = DispatcherModel<M>;

    closed spec fn view(&self) -> DispatcherModel<M> {
        DispatcherModel {
            modules: models(self.modules@),
            parser: self.parser@,
            outbound: self.comm@,
        }
    }
}

impl<M: Module> Dispatcher<M> {
    /// A dispatcher without modules that has seen no byte and has nothing
    /// to write.
    pub fn new() -> (dispatcher: Dispatcher<M>)
        ensures
            dispatcher@.modules == Seq::<ModuleModel<M>>::empty(),
            dispatcher@.parser == idle(),
            dispatcher@.outbound == Seq::<u8>::empty(),
    {
        let dispatcher = Dispatcher {
            comm: Comm::new(),
            parser: FrameParser::new(),
            modules: Vec::new(),
        };
        assert(models(dispatcher.modules@) =~= Seq::<ModuleModel<M>>::empty());
        dispatcher
    }

    /// The position of the module registered under `name`.
    fn find(&self, name: &[u8]) -> (found: Option<usize>)
        ensures
            match position(self@.modules, name@) {
                Some(i) => found matches Some(k) && k == i && 0 <= i < self.modules@.len(),
                None => found is None,
            },
    {
        let mut i: usize = 0;
        while i < self.modules.len()
            invariant
                i <= self.modules.len(),
                position(models(self.modules@).take(i as int), name@) is None,
            decreases self.modules.len() - i,
        {
            assert(models(self.modules@).take(i + 1).drop_last() =~= models(self.modules@).take(
                i as int,
            ));
            if eq_bytes(self.modules[i].name.as_slice(), name) {
                proof {
                    lemma_position_extends(models(self.modules@), name@, i + 1);
                }
                return Some(i);
            }
            i += 1;
        }
        assert(models(self.modules@).take(i as int) =~= models(self.modules@));
        None
    }

    /// Registers `module` under `module_name`. Returns whether a module was
    /// registered under that name before; that module is replaced.
    pub fn register_handler_module(&mut self, module_name: &[u8], module: M) -> (replaced: bool)
        ensures
            replaced == position(old(self)@.modules, module_name@).is_some(),
            final(self)@.modules == with_module(old(self)@.modules, module_name@, module),
            final(self)@.parser == old(self)@.parser,
            final(self)@.outbound == old(self)@.outbound,
    {
        let name = vstd::slice::slice_to_vec(module_name);
        match self.find(module_name) {
            Some(i) => {
                self.modules.set(i, ModuleEntry { name, handler: module });
                assert(models(self.modules@) =~= with_module(
                    models(old(self).modules@),
                    module_name@,
                    module,
                ));
                true
            },
            None => {
                self.modules.push(ModuleEntry { name, handler: module });
                assert(models(self.modules@) =~= with_module(
                    models(old(self).modules@),
                    module_name@,
                    module,
                ));
                false
            },
        }
    }

    /// Routes one frame body: the request it holds goes to the module it
    /// names. A body that holds no request, or names no registered module,
    /// is dropped and leaves the dispatcher as it is. What a module does
    /// with a request is the module's affair; the other modules, the module
    /// names and the framer are left alone.
    pub fn handle_incoming_msg(&mut self, raw_msg: &[u8]) -> (res: Dispatched)
        ensures
            agrees(res, dispatch_of(old(self)@.modules, raw_msg@)),
            final(self)@.parser == old(self)@.parser,
            same_names(final(self)@.modules, old(self)@.modules),
            match dispatch_of(old(self)@.modules, raw_msg@) {
                Err(_) => final(self)@ == old(self)@,
                Ok(target) => forall|j: int|
                    0 <= j < old(self)@.modules.len() && j != target.0 ==> (
                    #[trigger] final(self)@.modules[j]) == old(self)@.modules[j],
            },
    {
        let request = match route(raw_msg) {
            Ok(r) => r,
            Err(error) => {
                return Dispatched::Dropped { error };
            },
        };
        let i = match self.find(request.module_name.as_slice()) {
            Some(i) => i,
            None => {
                return Dispatched::Dropped { error: DispatchError::UnknownModule };
            },
        };
        let outcome = self.modules[i].handler.handle_incoming_msg(
            &mut self.comm,
            request.transaction_id,
            request.payload.as_slice(),
        );
        match outcome {
            Ok(()) => Dispatched::Handled { module: i },
            Err(()) => Dispatched::HandlerFailed { module: i },
        }
    }

    /// Takes a run of bytes from the stream and routes every frame body
    /// that is completed on the way, in order of arrival. Returns what
    /// became of each body. While no frame body is completed, neither a
    /// module nor the output is touched.
    pub fn feed(&mut self, input: &[u8]) -> (outcomes: Vec<Dispatched>)
        ensures
            final(self)@.parser == run(old(self)@.parser, input@).0,
            same_names(final(self)@.modules, old(self)@.modules),
            outcomes@.len() == run(old(self)@.parser, input@).1.len(),
            forall|k: int|
                0 <= k < outcomes@.len() ==> agrees(
                    #[trigger] outcomes@[k],
                    dispatch_of(old(self)@.modules, run(old(self)@.parser, input@).1[k]),
                ),
            outcomes@.len() == 0 ==> final(self)@.modules == old(self)@.modules,
            outcomes@.len() == 0 ==> final(self)@.outbound == old(self)@.outbound,
    {
        let mut outcomes: Vec<Dispatched> = Vec::new();
        let mut i: usize = 0;
        while i < input.len()
            invariant
                i <= input.len(),
                self@.parser == run(old(self)@.parser, input@.take(i as int)).0,
                same_names(self@.modules, old(self)@.modules),
                outcomes@.len() == run(old(self)@.parser, input@.take(i as int)).1.len(),
                forall|k: int|
                    0 <= k < outcomes@.len() ==> agrees(
                        #[trigger] outcomes@[k],
                        dispatch_of(
                            old(self)@.modules,
                            run(old(self)@.parser, input@.take(i as int)).1[k],
                        ),
                    ),
                outcomes@.len() == 0 ==> self@.modules == old(self)@.modules && self@.outbound
                    == old(self)@.outbound,
            decreases input.len() - i,
        {
            assert(input@.take(i + 1).drop_last() =~= input@.take(i as int));
            let ghost before = self@.modules;
            match self.parser.push(input[i]) {
                Some(body) => {
                    let outcome = self.handle_incoming_msg(body.as_slice());
                    proof {
                        match routed(body@) {
                            Ok(request) => {
                                lemma_position_by_names(
                                    before,
                                    old(self)@.modules,
                                    request.module_name,
                                );
                            },
                            Err(_) => {},
                        }
                    }
                    outcomes.push(outcome);
                },
                None => {},
            }
            i += 1;
        }
        assert(input@.take(i as int) =~= input@);
        outcomes
    }

    /// Hands out the bytes that the modules' answers make and that are to
    /// be written to the stream, and forgets them.
    pub fn take_output(&mut self) -> (out: Vec<u8>)
        ensures
            out@ == old(self)@.outbound,
            final(self)@.outbound == Seq::<u8>::empty(),
            final(self)@.parser == old(self)@.parser,
            final(self)@.modules == old(self)@.modules,
    {
        self.comm.take_output()
    }
}

/// A module found among the first `k` entries is found at the same position
/// among all.
pub proof fn lemma_position_extends<M>(modules: Seq<ModuleModel<M>>, name: Seq<u8>, k: int)
    requires
        0 <= k <= modules.len(),
        position(modules.take(k), name) is Some,
    ensures
        position(modules, name) == position(modules.take(k), name),
        0 <= position(modules, name).unwrap() < k,
    decreases modules.len() - k,
{
    if k < modules.len() {
        assert(modules.drop_last().take(k) =~= modules.take(k));
        lemma_position_extends(modules.drop_last(), name, k);
    } else {
        assert(modules.take(k) =~= modules);
        lemma_position_in_range(modules, name);
    }
}

/// A position that is found is the first that holds the name; if none is
/// found, no module holds the name.
pub proof fn lemma_position_in_range<M>(modules: Seq<ModuleModel<M>>, name: Seq<u8>)
    ensures
        match position(modules, name) {
            Some(i) => 0 <= i < modules.len() && modules[i].name == name && forall|j: int|
                0 <= j < i ==> modules[j].name != name,
            None => forall|j: int| 0 <= j < modules.len() ==> modules[j].name != name,
        },
    decreases modules.len(),
{
    if modules.len() > 0 {
        lemma_position_in_range(modules.drop_last(), name);
        match position(modules.drop_last(), name) {
            Some(i) => {
                assert(modules.drop_last()[i] == modules[i]);
                assert forall|j: int| 0 <= j < i implies modules[j].name != name by {
                    assert(modules.drop_last()[j] == modules[j]);
                }
            },
            None => {
                assert forall|j: int| 0 <= j < modules.len() - 1 implies modules[j].name
                    != name by {
                    assert(modules.drop_last()[j] == modules[j]);
                }
            },
        }
    }
}

/// Where a name is found depends on the names of the table only, not on the
/// handlers.
pub proof fn lemma_position_by_names<M>(
    a: Seq<ModuleModel<M>>,
    b: Seq<ModuleModel<M>>,
    name: Seq<u8>,
)
    requires
        same_names(a, b),
    ensures
        position(a, name) == position(b, name),
    decreases a.len(),
{
    if a.len() > 0 {
        assert forall|j: int| 0 <= j < a.drop_last().len() implies (
        #[trigger] a.drop_last()[j]).name == b.drop_last()[j].name by {
            assert(a.drop_last()[j] == a[j]);
            assert(b.drop_last()[j] == b[j]);
        }
        lemma_position_by_names(a.drop_last(), b.drop_last(), name);
        assert(a.last() == a[a.len() - 1]);
        assert(b.last() == b[b.len() - 1]);
    }
}

/// After a registration the name leads to the module that was registered,
/// the other modules stay where they are, and a table without double names
/// stays without double names.
pub proof fn lemma_registration<M>(modules: Seq<ModuleModel<M>>, name: Seq<u8>, handler: M)
    ensures
        position(with_module(modules, name, handler), name) matches Some(i) && with_module(
            modules,
            name,
            handler,
        )[i].handler == handler,
        names_distinct(modules) ==> names_distinct(with_module(modules, name, handler)),
{
    let after = with_module(modules, name, handler);
    lemma_position_in_range(modules, name);
    lemma_position_in_range(after, name);
    match position(modules, name) {
        Some(i) => {
            assert(after[i].name == name);
            if position(after, name) != Some(i) {
                let k = position(after, name).unwrap();
                assert(k < i);
                assert(after[k] == modules[k]);
            }
        },
        None => {
            assert(after[modules.len() as int].name == name);
            if position(after, name) != Some(modules.len() as int) {
                let k = position(after, name).unwrap();
                assert(after[k] == modules[k]);
            }
        },
    }
    if names_distinct(modules) {
        assert forall|i: int, j: int| 0 <= i < j < after.len() implies (#[trigger] after[i]).name
            != (#[trigger] after[j]).name by {
            match position(modules, name) {
                Some(p) => {
                    assert(after[i].name == modules[i].name);
                    assert(after[j].name == modules[j].name);
                },
                None => {
                    if j < modules.len() {
                        assert(after[i] == modules[i]);
                        assert(after[j] == modules[j]);
                    } else {
                        assert(after[i] == modules[i]);
                    }
                },
            }
        }
    }
}

/// The answer that a module sends through the dispatcher's sink reaches the
/// gateway's link worker as the reply to the same transaction: the worker
/// reads the transaction identifier and `<module-name>,<msg>` out of it.
pub proof fn lemma_response_reaches_caller(transaction_id: u64, module_name: Seq<u8>, msg: Seq<u8>)
    ensures
        processed(frame_body(response_payload(transaction_id, module_name, msg))) == Ok::<
            (u64, Seq<u8>),
            crate::link::InboundError,
        >((transaction_id, module_name + seq![COMMA] + msg)),
{
    let id_text = decimal(transaction_id as nat);
    let rest = module_name + seq![COMMA] + msg;
    let payload = response_payload(transaction_id, module_name, msg);
    lemma_decimal_digits(transaction_id as nat);
    lemma_decimal_round_trip(transaction_id as nat, u64::MAX as nat);
    assert(payload =~= id_text + seq![COMMA] + rest);
    assert forall|i: int| 0 <= i < id_text.len() implies id_text[i] != COMMA by {
        assert(crate::text::is_digit(id_text[i]));
    }
    lemma_first_field_join(id_text, rest);
    crate::codec::lemma_decode_frame_body(payload);
}

/// A request whose module name holds no comma is routed as it was written:
/// the dispatcher reads identifier, module name and payload out of its frame.
pub proof fn lemma_request_is_routed(transaction_id: u64, module_name: Seq<u8>, msg: Seq<u8>)
    requires
        forall|i: int| 0 <= i < module_name.len() ==> module_name[i] != COMMA,
    ensures
        routed(frame_body(response_payload(transaction_id, module_name, msg))) == Ok::<
            RequestModel,
            DispatchError,
        >(RequestModel { transaction_id, module_name, payload: msg }),
{
    let id_text = decimal(transaction_id as nat);
    let rest = module_name + seq![COMMA] + msg;
    let payload = response_payload(transaction_id, module_name, msg);
    lemma_decimal_digits(transaction_id as nat);
    lemma_decimal_round_trip(transaction_id as nat, u64::MAX as nat);
    assert(payload =~= id_text + seq![COMMA] + rest);
    assert forall|i: int| 0 <= i < id_text.len() implies id_text[i] != COMMA by {
        assert(crate::text::is_digit(id_text[i]));
    }
    lemma_first_field_join(id_text, rest);
    lemma_first_field_join(module_name, msg);
    crate::codec::lemma_decode_frame_body(payload);
}

} // verus!
