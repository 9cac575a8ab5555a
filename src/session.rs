use crate::error::UsbtmcErrors;
use crate::header::{
    HEADER_SIZE, MAX_TRANSFER_SIZE, decode_response_header, dev_dep_msg_in_header, dev_dep_msg_out,
    inverse_tag, next_tag, next_tag_spec, pack_dev_dep_msg_in_header, pack_dev_dep_msg_out,
    response_header_of,
};
use vstd::prelude::*;
use vstd::string::StringSliceAdditionalSpecFns;

verus! {

/// Line feed: it ends every command sent and every complete response.
pub const TERMINATOR: u8 = 0x0A;

/// ASCII `?`: a command holding it is a query, which the device answers.
pub const QUERY_MARK: u8 = 0x3F;

/// Whether the command bytes `data` are a query, i.e. hold a `?`.
pub fn is_query(data: &[u8]) -> (r: bool)
    ensures
        r == data@.contains(QUERY_MARK),
{
    let mut i: usize = 0;
    while i < data.len()
        invariant
            i <= data@.len(),
            forall|j: int| 0 <= j < i ==> data@[j] != QUERY_MARK,
        decreases data@.len() - i,
    {
        if data[i] == QUERY_MARK {
            return true;
        }
        i += 1;
    }
    false
}

/// The payload that one DEV_DEP_MSG_IN request yields once all its bytes
/// `request` are in, and whether the device's message ends there. The
/// response header must be complete and echo `tag` and its complement.
pub open spec fn request_result(request: Seq<u8>, tag: u8) -> Result<(Seq<u8>, bool), UsbtmcErrors> {
    if request.len() < HEADER_SIZE || request[1] != tag || request[2] != inverse_tag(tag) {
        Err(UsbtmcErrors::InvalidData)
    } else {
        Ok((request.subrange(HEADER_SIZE as int, request.len() as int), response_header_of(request).eom))
    }
}

/// The result of a query whose assembled response is `message`: the message
/// without its final line feed, or `InvalidData` when it does not end in one.
pub open spec fn message_result(message: Seq<u8>) -> Result<Seq<u8>, UsbtmcErrors> {
    if message.len() > 0 && message.last() == TERMINATOR {
        Ok(message.drop_last())
    } else {
        Err(UsbtmcErrors::InvalidData)
    }
}

/// Strips the response header from the complete bytes of one request.
pub fn split_response(request: &[u8], tag: u8) -> (r: Result<(Vec<u8>, bool), UsbtmcErrors>)
    ensures
        match r {
            Ok((payload, eom)) => request_result(request@, tag) == Ok::<(Seq<u8>, bool), UsbtmcErrors>(
                (payload@, eom),
            ),
            Err(e) => request_result(request@, tag) == Err::<(Seq<u8>, bool), UsbtmcErrors>(e),
        },
{
    let header = match decode_response_header(request) {
        Ok(h) => h,
        Err(e) => return Err(e),
    };
    let inverse: u8 = 255 - tag;
    if request[1] != tag || request[2] != inverse {
        return Err(UsbtmcErrors::InvalidData);
    }
    let payload = vstd::slice::slice_to_vec(&request[HEADER_SIZE..request.len()]);
    Ok((payload, header.eom))
}

/// Checks the line feed that ends an assembled response and drops it.
pub fn finish_message(message: Vec<u8>) -> (r: Result<Vec<u8>, UsbtmcErrors>)
    ensures
        match r {
            Ok(m) => message_result(message@) == Ok::<Seq<u8>, UsbtmcErrors>(m@),
            Err(e) => message_result(message@) == Err::<Seq<u8>, UsbtmcErrors>(e),
        },
{
    let mut message = message;
    let ghost before = message@;
    let len = message.len();
    if len == 0 || message[len - 1] != TERMINATOR {
        return Err(UsbtmcErrors::InvalidData);
    }
    message.truncate(len - 1);
    assert(message@ =~= before.drop_last());
    Ok(message)
}

/// Where a session stands in its current transaction.
#[derive(Debug, Clone, Copy, PartialEq, Eq, Structural)]
pub enum Phase {
    /// No transaction in flight.
    Idle,
    /// The command's bulk-OUT transfer is out; `query` tells whether a
    /// response is to be read once it is done.
    SendingCommand { query: bool },
    /// A DEV_DEP_MSG_IN request header's bulk-OUT transfer is out.
    SendingRequest,
    /// A bulk-IN read of the current request's bytes is out.
    Reading,
}

/// What the caller reports back after performing an [`Action`].
pub enum Event {
    /// The bulk-OUT transfer completed.
    Sent,
    /// The bulk-OUT transfer failed.
    SendFailed,
    /// The bulk-IN read returned these bytes.
    Received(Vec<u8>),
    /// The bulk-IN read failed.
    ReceiveFailed,
}

/// What the session asks its caller to do next.
pub enum Action {
    /// Write `data` to the bulk-OUT endpoint `endpoint`.
    BulkOut { endpoint: u8, data: Vec<u8> },
    /// Read at most `len` bytes from the bulk-IN endpoint `endpoint`.
    BulkIn { endpoint: u8, len: usize },
    /// The transaction is complete with this result (empty for a command
    /// that is not a query).
    Done(Vec<u8>),
    /// The transaction was aborted with this error.
    Failed(UsbtmcErrors),
}

/// An [`Event`] with its bytes as a sequence.
pub enum EventModel {
    Sent,
    SendFailed,
    Received(Seq<u8>),
    ReceiveFailed,
}

/// An [`Action`] with its bytes as a sequence.
pub enum ActionModel {
    BulkOut { endpoint: u8, data: Seq<u8> },
    BulkIn { endpoint: u8, len: nat },
    Done(Seq<u8>),
    Failed(UsbtmcErrors),
}

impl View for Event {
    type V = EventModel;

    open spec fn view(&self) -> EventModel {
        match self {
            Event::Sent => EventModel::Sent,
            Event::SendFailed => EventModel::SendFailed,
            Event::Received(bytes) => EventModel::Received(bytes@),
            Event::ReceiveFailed => EventModel::ReceiveFailed,
        }
    }
}

impl View for Action {
    type V = ActionModel;

    open spec fn view(&self) -> ActionModel {
        match self {
            Action::BulkOut { endpoint, data } => ActionModel::BulkOut { endpoint: *endpoint, data: data@ },
            Action::BulkIn { endpoint, len } => ActionModel::BulkIn { endpoint: *endpoint, len: *len as nat },
            Action::Done(bytes) => ActionModel::Done(bytes@),
            Action::Failed(e) => ActionModel::Failed(*e),
        }
    }
}

/// The state of a [`Session`]: its configuration, the tag of its latest
/// header, its phase, the response assembled so far, and the bytes read so
/// far for the current request.
#[verifier::ext_equal]
pub struct SessionModel {
    pub endpoint_in: u8,
    pub endpoint_out: u8,
    pub chunk_size: nat,
    pub tag: u8,
    pub phase: Phase,
    pub message: Seq<u8>,
    pub request: Seq<u8>,
}

/// The action that ends a transaction with `result`.
pub open spec fn outcome(result: Result<Seq<u8>, UsbtmcErrors>) -> ActionModel {
    match result {
        Ok(bytes) => ActionModel::Done(bytes),
        Err(e) => ActionModel::Failed(e),
    }
}

/// `s` with no transaction in flight.
pub open spec fn idle(s: SessionModel) -> SessionModel {
    SessionModel { phase: Phase::Idle, message: Seq::empty(), request: Seq::empty(), ..s }
}

/// A chunk size a session can read with: positive and at most 1 MiB.
pub open spec fn valid_chunk_size(n: nat) -> bool {
    0 < n <= MAX_TRANSFER_SIZE
}

/// Starting a transaction: the command with a line feed appended goes out in
/// one DEV_DEP_MSG_OUT transfer under the next tag.
pub open spec fn begin_spec(s: SessionModel, command: Seq<u8>) -> (SessionModel, ActionModel) {
    let line = command.push(TERMINATOR);
    let tag = next_tag_spec(s.tag);
    (
        SessionModel {
            tag,
            phase: Phase::SendingCommand { query: line.contains(QUERY_MARK) },
            message: Seq::empty(),
            request: Seq::empty(),
            ..s
        },
        ActionModel::BulkOut { endpoint: s.endpoint_out, data: dev_dep_msg_out(line, tag) },
    )
}

/// Starting a DEV_DEP_MSG_IN request: with a valid chunk size, its header
/// (1 MiB cap, no term char) goes out under the next tag; otherwise the
/// transaction fails with `BadBufferSize` before any transfer.
pub open spec fn start_request_spec(s: SessionModel) -> (SessionModel, ActionModel) {
    if valid_chunk_size(s.chunk_size) {
        let tag = next_tag_spec(s.tag);
        (
            SessionModel { tag, phase: Phase::SendingRequest, request: Seq::empty(), ..s },
            ActionModel::BulkOut {
                endpoint: s.endpoint_out,
                data: dev_dep_msg_in_header(MAX_TRANSFER_SIZE as u32, None, tag),
            },
        )
    } else {
        (idle(s), ActionModel::Failed(UsbtmcErrors::BadBufferSize))
    }
}

/// A request whose bytes are all in as `request`: its payload joins the
/// message; at end of message the transaction ends with the message's
/// result, otherwise the next request starts.
pub open spec fn request_done_spec(s: SessionModel, request: Seq<u8>) -> (SessionModel, ActionModel) {
    match request_result(request, s.tag) {
        Err(e) => (idle(s), ActionModel::Failed(e)),
        Ok((payload, eom)) => {
            let message = s.message + payload;
            if eom {
                (idle(s), outcome(message_result(message)))
            } else {
                start_request_spec(SessionModel { message, ..s })
            }
        },
    }
}

/// One transition of the session on an event. A fragment as long as the
/// chunk size means more bytes of the request are pending; a shorter one
/// completes the request. An event that answers no pending action ends the
/// transaction with `InvalidData`.
pub open spec fn step_spec(s: SessionModel, e: EventModel) -> (SessionModel, ActionModel) {
    match (s.phase, e) {
        (Phase::SendingCommand { query }, EventModel::Sent) => {
            if query {
                start_request_spec(s)
            } else {
                (idle(s), ActionModel::Done(Seq::empty()))
            }
        },
        (Phase::SendingRequest, EventModel::Sent) => (
            SessionModel { phase: Phase::Reading, request: Seq::empty(), ..s },
            ActionModel::BulkIn { endpoint: s.endpoint_in, len: s.chunk_size },
        ),
        (Phase::SendingCommand { .. }, EventModel::SendFailed) => (
            idle(s),
            ActionModel::Failed(UsbtmcErrors::BulkOutTransferError),
        ),
        (Phase::SendingRequest, EventModel::SendFailed) => (
            idle(s),
            ActionModel::Failed(UsbtmcErrors::BulkOutTransferError),
        ),
        (Phase::Reading, EventModel::Received(fragment)) => {
            let request = s.request + fragment;
            if fragment.len() == s.chunk_size {
                (
                    SessionModel { request, ..s },
                    ActionModel::BulkIn { endpoint: s.endpoint_in, len: s.chunk_size },
                )
            } else {
                request_done_spec(s, request)
            }
        },
        (Phase::Reading, EventModel::ReceiveFailed) => (
            idle(s),
            ActionModel::Failed(UsbtmcErrors::BulkInTransferError),
        ),
        _ => (idle(s), ActionModel::Failed(UsbtmcErrors::InvalidData)),
    }
}

/// One opened USBTMC interface: the endpoints and chunk size to use, the
/// tag of the latest header sent, and the transaction in flight, if any.
/// Transactions on one session run one after another: the caller performs
/// each [`Action`] and reports its [`Event`] back to [`Session::step`].
pub struct Session {
    endpoint_in: u8,
    endpoint_out: u8,
    chunk_size: usize,
    tag: u8,
    phase: Phase,
    message: Vec<u8>,
    request: Vec<u8>,
}

impl View for Session {
    type V = SessionModel;

    closed spec fn view(&self) -> SessionModel {
        SessionModel {
            endpoint_in: self.endpoint_in,
            endpoint_out: self.endpoint_out,
            chunk_size: self.chunk_size as nat,
            tag: self.tag,
            phase: self.phase,
            message: self.message@,
            request: self.request@,
        }
    }
}

impl Session {
    /// A session on the given bulk endpoints that reads `chunk_size` bytes
    /// per bulk-IN transfer; idle, with no tag used yet.
    pub fn new(endpoint_in: u8, endpoint_out: u8, chunk_size: usize) -> (r: Session)
        ensures
            r@ == (SessionModel {
                endpoint_in,
                endpoint_out,
                chunk_size: chunk_size as nat,
                tag: 0,
                phase: Phase::Idle,
                message: Seq::empty(),
                request: Seq::empty(),
            }),
    {
        let r = Session {
            endpoint_in,
            endpoint_out,
            chunk_size,
            tag: 0,
            phase: Phase::Idle,
            message: Vec::new(),
            request: Vec::new(),
        };
        assert(r@ =~= SessionModel {
            endpoint_in,
            endpoint_out,
            chunk_size: chunk_size as nat,
            tag: 0,
            phase: Phase::Idle,
            message: Seq::empty(),
            request: Seq::empty(),
        });
        r
    }

    /// The bulk-IN endpoint address.
    pub fn endpoint_in(&self) -> (r: u8)
        ensures
            r == self@.endpoint_in,
    {
        self.endpoint_in
    }

    /// The bulk-OUT endpoint address.
    pub fn endpoint_out(&self) -> (r: u8)
        ensures
            r == self@.endpoint_out,
    {
        self.endpoint_out
    }

    /// The number of bytes asked for by each bulk-IN transfer.
    pub fn chunk_size(&self) -> (r: usize)
        ensures
            r == self@.chunk_size,
    {
        self.chunk_size
    }

    /// The tag of the latest header sent (0 before the first).
    pub fn tag(&self) -> (r: u8)
        ensures
            r == self@.tag,
    {
        self.tag
    }

    /// Where the current transaction stands.
    pub fn phase(&self) -> (r: Phase)
        ensures
            r == self@.phase,
    {
        self.phase
    }

    fn end(&mut self)
        ensures
            final(self)@ == idle(old(self)@),
    {
        self.phase = Phase::Idle;
        self.message = Vec::new();
        self.request = Vec::new();
        assert(self@ =~= idle(old(self)@));
    }

    fn start_request(&mut self) -> (r: Action)
        ensures
            (final(self)@, r@) == start_request_spec(old(self)@),
    {
        if self.chunk_size == 0 || self.chunk_size > MAX_TRANSFER_SIZE {
            self.end();
            return Action::Failed(UsbtmcErrors::BadBufferSize);
        }
        let tag = next_tag(self.tag);
        let data = pack_dev_dep_msg_in_header(MAX_TRANSFER_SIZE as u32, None, tag);
        self.tag = tag;
        self.phase = Phase::SendingRequest;
        self.request = Vec::new();
        assert(self@ =~= start_request_spec(old(self)@).0);
        Action::BulkOut { endpoint: self.endpoint_out, data }
    }

    fn request_done(&mut self) -> (r: Action)
        ensures
            (final(self)@, r@) == request_done_spec(old(self)@, old(self)@.request),
    {
        let (mut payload, eom) = match split_response(self.request.as_slice(), self.tag) {
            Ok(split) => split,
            Err(e) => {
                self.end();
                return Action::Failed(e);
            },
        };
        let ghost p = payload@;
        self.message.append(&mut payload);
        if eom {
            let mut message = Vec::new();
            std::mem::swap(&mut message, &mut self.message);
            self.end();
            match finish_message(message) {
                Ok(m) => Action::Done(m),
                Err(e) => Action::Failed(e),
            }
        } else {
            let ghost mid = self@;
            assert(mid =~= SessionModel { message: old(self)@.message + p, ..old(self)@ });
            self.start_request()
        }
    }

    /// Starts a transaction for `command`: the session sends it with a line
    /// feed appended, and will read a response when it holds a `?`. A
    /// transaction still in flight is dropped.
    pub fn begin(&mut self, command: &str) -> (r: Action)
        requires
            command.spec_bytes().len() < u32::MAX,
        ensures
            (final(self)@, r@) == begin_spec(old(self)@, command.spec_bytes()),
    {
        let mut line = vstd::slice::slice_to_vec(command.as_bytes());
        line.push(TERMINATOR);
        let query = is_query(line.as_slice());
        let tag = next_tag(self.tag);
        let data = pack_dev_dep_msg_out(line.as_slice(), tag);
        self.tag = tag;
        self.phase = Phase::SendingCommand { query };
        self.message = Vec::new();
        self.request = Vec::new();
        assert(self@ =~= begin_spec(old(self)@, command.spec_bytes()).0);
        Action::BulkOut { endpoint: self.endpoint_out, data }
    }

    /// Advances the transaction on the caller's report of its last action.
    pub fn step(&mut self, event: Event) -> (r: Action)
        ensures
            (final(self)@, r@) == step_spec(old(self)@, event@),
    {
        match event {
            Event::Sent => match self.phase {
                Phase::SendingCommand { query } => {
                    if query {
                        self.start_request()
                    } else {
                        self.end();
                        Action::Done(Vec::new())
                    }
                },
                Phase::SendingRequest => {
                    self.phase = Phase::Reading;
                    self.request = Vec::new();
                    assert(self@ =~= step_spec(old(self)@, event@).0);
                    Action::BulkIn { endpoint: self.endpoint_in, len: self.chunk_size }
                },
                _ => {
                    self.end();
                    Action::Failed(UsbtmcErrors::InvalidData)
                },
            },
            Event::SendFailed => match self.phase {
                Phase::SendingCommand { .. } | Phase::SendingRequest => {
                    self.end();
                    Action::Failed(UsbtmcErrors::BulkOutTransferError)
                },
                _ => {
                    self.end();
                    Action::Failed(UsbtmcErrors::InvalidData)
                },
            },
            Event::Received(fragment) => match self.phase {
                Phase::Reading => {
                    let full = fragment.len() == self.chunk_size;
                    let mut fragment = fragment;
                    self.request.append(&mut fragment);
                    if full {
                        assert(self@ =~= step_spec(old(self)@, event@).0);
                        Action::BulkIn { endpoint: self.endpoint_in, len: self.chunk_size }
                    } else {
                        let ghost mid = self@;
                        assert(mid =~= SessionModel { request: old(self)@.request + event@->Received_0, ..old(self)@ });
                        self.request_done()
                    }
                },
                _ => {
                    self.end();
                    Action::Failed(UsbtmcErrors::InvalidData)
                },
            },
            Event::ReceiveFailed => match self.phase {
                Phase::Reading => {
                    self.end();
                    Action::Failed(UsbtmcErrors::BulkInTransferError)
                },
                _ => {
                    self.end();
                    Action::Failed(UsbtmcErrors::InvalidData)
                },
            },
        }
    }
}

/// Reading a request in fragments: with the chunk size `c`, fragments of `c`,
/// `c` and `c / 2` bytes make the session ask for another fragment after the
/// first and the second, and complete the request after the third with all
/// three, in order, as its bytes.
pub proof fn lemma_multi_fragment_assembly(s: SessionModel, f1: Seq<u8>, f2: Seq<u8>, f3: Seq<u8>)
    requires
        s.phase == Phase::Reading,
        s.request == Seq::<u8>::empty(),
        s.chunk_size > 0,
        f1.len() == s.chunk_size,
        f2.len() == s.chunk_size,
        f3.len() == s.chunk_size / 2,
    ensures
        ({
            let (s1, a1) = step_spec(s, EventModel::Received(f1));
            let (s2, a2) = step_spec(s1, EventModel::Received(f2));
            &&& a1 == ActionModel::BulkIn { endpoint: s.endpoint_in, len: s.chunk_size }
            &&& a2 == ActionModel::BulkIn { endpoint: s.endpoint_in, len: s.chunk_size }
            &&& step_spec(s2, EventModel::Received(f3)) == request_done_spec(s, f1 + f2 + f3)
        }),
{
    let (s1, a1) = step_spec(s, EventModel::Received(f1));
    let (s2, a2) = step_spec(s1, EventModel::Received(f2));
    assert(s.request + f1 =~= f1);
    assert(s2 =~= SessionModel { request: f1 + f2, ..s });
    assert(s2.request + f3 =~= f1 + f2 + f3);
}

/// Reading a response over two requests: when the first request's bytes `first`
/// yield `head` without end of message and the second's bytes `second` yield `tail`
/// with it, the session asks for the second request, reads it, and ends the
/// transaction with the result of the message extended by `head ++ tail`.
pub proof fn lemma_multi_request_assembly(
    s: SessionModel,
    first: Seq<u8>,
    head: Seq<u8>,
    second: Seq<u8>,
    tail: Seq<u8>,
)
    requires
        s.phase == Phase::Reading,
        valid_chunk_size(s.chunk_size),
        request_result(first, s.tag) == Ok::<(Seq<u8>, bool), UsbtmcErrors>((head, false)),
        request_result(second, next_tag_spec(s.tag)) == Ok::<(Seq<u8>, bool), UsbtmcErrors>((tail, true)),
    ensures
        ({
            let (s1, a1) = request_done_spec(s, first);
            let (s2, a2) = step_spec(s1, EventModel::Sent);
            &&& a1 == ActionModel::BulkOut {
                endpoint: s.endpoint_out,
                data: dev_dep_msg_in_header(MAX_TRANSFER_SIZE as u32, None, next_tag_spec(s.tag)),
            }
            &&& a2 == ActionModel::BulkIn { endpoint: s.endpoint_in, len: s.chunk_size }
            &&& s2.phase == Phase::Reading
            &&& s2.request == Seq::<u8>::empty()
            &&& request_done_spec(s2, second).0.phase == Phase::Idle
            &&& request_done_spec(s2, second).1 == outcome(message_result(s.message + (head + tail)))
        }),
{
    let (s1, a1) = request_done_spec(s, first);
    let (s2, a2) = step_spec(s1, EventModel::Sent);
    assert(s.message + head + tail =~= s.message + (head + tail));
}

} // verus!
