//! The protocol spoken to a running swtpm process.
//!
//! The data socket carries raw TPM 2.0 commands and responses without any
//! framing of its own. A command is written in full; of the response, the
//! first six bytes are read, which hold its total size, and then the rest.
//! The first connection of a session starts the TPM up before it carries any
//! other command.
//!
//! An [`Exchange`] decides what to do next for one command, and its owner does
//! it: it connects, sends or receives, and reports back what came of it.

use crate::bytes::{append, be_bytes, be_value, copy_range, push_be, read_be};
use crate::bytes::{
    lemma_be_bytes_len, lemma_be_value_bound, lemma_be_value_of_bytes, lemma_pow256_values,
};
use vstd::prelude::*;

verus! {

/// The size of a TPM header: tag (2 bytes), size (4) and code (4).
pub const TPM_HEADER_SIZE: usize = 10;

/// The part of a header that is read first: tag and size.
pub const TPM_PREFIX_SIZE: usize = 6;

/// The largest response that is taken for plausible.
pub const TPM_MAX_RESPONSE_SIZE: usize = 65536;

/// `TPM_ST_NO_SESSIONS`.
pub const TPM2_ST_NO_SESSIONS: u16 = 0x8001;

/// `TPM_RC_FAILURE`.
pub const TPM2_RC_FAILURE: u32 = 0x0000_0101;

/// `TPM_CC_Startup`.
pub const TPM2_CC_STARTUP: u32 = 0x0000_0144;

/// `TPM_SU_CLEAR`.
pub const TPM2_SU_CLEAR: u16 = 0x0000;

/// The size of the startup command: a header and the startup type.
pub const TPM2_STARTUP_SIZE: usize = 12;

/// A response without sessions and parameters that carries the code `rc`.
pub open spec fn error_response(rc: u32) -> Seq<u8> {
    be_bytes(TPM2_ST_NO_SESSIONS as nat, 2) + be_bytes(TPM_HEADER_SIZE as nat, 4) + be_bytes(
        rc as nat,
        4,
    )
}

/// `TPM2_Startup(Clear)`.
pub open spec fn startup_command() -> Seq<u8> {
    be_bytes(TPM2_ST_NO_SESSIONS as nat, 2) + be_bytes(TPM2_STARTUP_SIZE as nat, 4) + be_bytes(
        TPM2_CC_STARTUP as nat,
        4,
    ) + be_bytes(TPM2_SU_CLEAR as nat, 2)
}

/// The total size that a command or response states in its header.
pub open spec fn stated_size(message: Seq<u8>) -> nat {
    be_value(message.subrange(2, 6))
}

/// Whether a response of `size` bytes is plausible.
pub open spec fn plausible(size: nat) -> bool {
    TPM_HEADER_SIZE <= size <= TPM_MAX_RESPONSE_SIZE
}

/// Builds the response without sessions that carries `rc`.
pub fn tpm2_error_response(rc: u32) -> (rsp: Vec<u8>)
    ensures
        rsp@ == error_response(rc),
        rsp@.len() == TPM_HEADER_SIZE,
{
    broadcast use lemma_be_bytes_len;

    let mut rsp: Vec<u8> = Vec::new();
    push_be(&mut rsp, TPM2_ST_NO_SESSIONS as u64, 2);
    push_be(&mut rsp, TPM_HEADER_SIZE as u64, 4);
    push_be(&mut rsp, rc as u64, 4);
    assert(rsp@ =~= error_response(rc));
    rsp
}

/// Builds `TPM2_Startup(Clear)`.
pub fn tpm2_startup_command() -> (cmd: Vec<u8>)
    ensures
        cmd@ == startup_command(),
        cmd@.len() == TPM2_STARTUP_SIZE,
{
    broadcast use lemma_be_bytes_len;

    let mut cmd: Vec<u8> = Vec::new();
    push_be(&mut cmd, TPM2_ST_NO_SESSIONS as u64, 2);
    push_be(&mut cmd, TPM2_STARTUP_SIZE as u64, 4);
    push_be(&mut cmd, TPM2_CC_STARTUP as u64, 4);
    push_be(&mut cmd, TPM2_SU_CLEAR as u64, 2);
    assert(cmd@ =~= startup_command());
    cmd
}

/// Why a command failed.
#[derive(Clone, Copy, PartialEq, Eq, Structural, Debug)]
pub enum Failure {
    /// Connecting, sending or receiving failed.
    Io,
    /// The response states a size that cannot be right.
    ImplausibleSize(u32),
    /// The report does not fit what was asked for.
    OutOfOrder,
}

/// What came of a command.
#[derive(Clone, Copy, PartialEq, Eq, Structural, Debug)]
pub enum Outcome {
    /// The TPM answered.
    Answered,
    /// The command is too short to hold a header, and was not sent.
    Refused,
    /// The command failed.
    Failed(Failure),
}

/// What the owner of an exchange has to do next.
pub enum Action {
    /// Connect to the socket.
    Connect,
    /// Write these bytes in full.
    Send(Vec<u8>),
    /// Read exactly so many bytes.
    Receive(usize),
    /// Hand the response to the guest; the exchange is over.
    Finish(Vec<u8>, Outcome),
}

/// What the owner of an exchange reports.
pub enum Event {
    /// The connection stands.
    Connected,
    /// All bytes are written.
    Sent,
    /// These bytes were read.
    Received(Vec<u8>),
    /// The action failed.
    Failed,
}

/// An [`Action`], as a value.
pub enum ActionModel {
    Connect,
    Send(Seq<u8>),
    Receive(nat),
    Finish(Seq<u8>, Outcome),
}

/// An [`Event`], as a value.
pub enum EventModel {
    Connected,
    Sent,
    Received(Seq<u8>),
    Failed,
}

/// Which message is under way: the startup command, or the guest's command.
#[derive(Clone, Copy, PartialEq, Eq, Structural, Debug)]
pub enum Message {
    Startup,
    Guest,
}

/// Where an exchange stands: what its owner is doing.
pub enum PhaseModel {
    Connecting,
    Sending(Message),
    ReceivingPrefix(Message),
    ReceivingRest(Message, Seq<u8>),
    Over,
}

/// An [`Exchange`], as a value.
pub struct ExchangeModel {
    pub cmd: Seq<u8>,
    pub startup_done: bool,
    pub phase: PhaseModel,
}

impl View for Action {
    type V = ActionModel;

    open spec fn view(&self) -> ActionModel {
        match self {
            Action::Connect => ActionModel::Connect,
            Action::Send(bytes) => ActionModel::Send(bytes@),
            Action::Receive(n) => ActionModel::Receive(*n as nat),
            Action::Finish(rsp, outcome) => ActionModel::Finish(rsp@, *outcome),
        }
    }
}

impl View for Event {
    type V = EventModel;

    open spec fn view(&self) -> EventModel {
        match self {
            Event::Connected => EventModel::Connected,
            Event::Sent => EventModel::Sent,
            Event::Received(bytes) => EventModel::Received(bytes@),
            Event::Failed => EventModel::Failed,
        }
    }
}

/// How an exchange starts.
pub open spec fn begun(
    cmd: Seq<u8>,
    connected: bool,
    startup_done: bool,
) -> (ExchangeModel, ActionModel) {
    if cmd.len() < TPM_HEADER_SIZE {
        (
            ExchangeModel { cmd, startup_done, phase: PhaseModel::Over },
            ActionModel::Finish(error_response(TPM2_RC_FAILURE), Outcome::Refused),
        )
    } else if connected {
        send(ExchangeModel { cmd, startup_done, phase: PhaseModel::Over }, Message::Guest)
    } else {
        (
            ExchangeModel { cmd, startup_done, phase: PhaseModel::Connecting },
            ActionModel::Connect,
        )
    }
}

/// The exchange goes on to send `message`.
pub open spec fn send(m: ExchangeModel, message: Message) -> (ExchangeModel, ActionModel) {
    (
        ExchangeModel { phase: PhaseModel::Sending(message), ..m },
        ActionModel::Send(
            match message {
                Message::Startup => startup_command(),
                Message::Guest => m.cmd,
            },
        ),
    )
}

/// The exchange ends with a failure.
pub open spec fn fail(m: ExchangeModel, failure: Failure) -> (ExchangeModel, ActionModel) {
    (
        ExchangeModel { phase: PhaseModel::Over, ..m },
        ActionModel::Finish(error_response(TPM2_RC_FAILURE), Outcome::Failed(failure)),
    )
}

/// How an exchange goes on from a report.
pub open spec fn stepped(m: ExchangeModel, event: EventModel) -> (ExchangeModel, ActionModel) {
    match (m.phase, event) {
        (_, EventModel::Failed) => fail(m, Failure::Io),
        (PhaseModel::Connecting, EventModel::Connected) => send(
            m,
            if m.startup_done {
                Message::Guest
            } else {
                Message::Startup
            },
        ),
        (PhaseModel::Sending(message), EventModel::Sent) => (
            ExchangeModel { phase: PhaseModel::ReceivingPrefix(message), ..m },
            ActionModel::Receive(TPM_PREFIX_SIZE as nat),
        ),
        (PhaseModel::ReceivingPrefix(message), EventModel::Received(prefix)) => {
            if prefix.len() != TPM_PREFIX_SIZE {
                fail(m, Failure::OutOfOrder)
            } else if !plausible(stated_size(prefix)) {
                fail(m, Failure::ImplausibleSize(stated_size(prefix) as u32))
            } else {
                (
                    ExchangeModel { phase: PhaseModel::ReceivingRest(message, prefix), ..m },
                    ActionModel::Receive((stated_size(prefix) - TPM_PREFIX_SIZE) as nat),
                )
            }
        },
        (PhaseModel::ReceivingRest(message, prefix), EventModel::Received(rest)) => {
            if prefix.len() + rest.len() != stated_size(prefix) {
                fail(m, Failure::OutOfOrder)
            } else {
                match message {
                    Message::Startup => send(
                        ExchangeModel { startup_done: true, ..m },
                        Message::Guest,
                    ),
                    Message::Guest => (
                        ExchangeModel { phase: PhaseModel::Over, ..m },
                        ActionModel::Finish(prefix + rest, Outcome::Answered),
                    ),
                }
            }
        },
        _ => fail(m, Failure::OutOfOrder),
    }
}

/// The total size that a message states in its header.
fn size_in(message: &[u8]) -> (size: u32)
    requires
        message@.len() >= TPM_PREFIX_SIZE,
    ensures
        size == stated_size(message@),
{
    let field = copy_range(message, 2, 4);
    proof {
        lemma_be_value_bound(field@);
        lemma_pow256_values();
    }
    read_be(field.as_slice()) as u32
}

enum Phase {
    Connecting,
    Sending(Message),
    ReceivingPrefix(Message),
    ReceivingRest(Message, Vec<u8>),
    Over,
}

impl Phase {
    spec fn model(self) -> PhaseModel {
        match self {
            Phase::Connecting => PhaseModel::Connecting,
            Phase::Sending(message) => PhaseModel::Sending(message),
            Phase::ReceivingPrefix(message) => PhaseModel::ReceivingPrefix(message),
            Phase::ReceivingRest(message, prefix) => PhaseModel::ReceivingRest(message, prefix@),
            Phase::Over => PhaseModel::Over,
        }
    }
}

/// One command's way to the TPM and back.
pub struct Exchange {
    cmd: Vec<u8>,
    startup_done: bool,
    phase: Phase,
}

impl View for Exchange {
    type V = ExchangeModel;

    closed spec fn view(&self) -> ExchangeModel {
        ExchangeModel {
            cmd: self.cmd@,
            startup_done: self.startup_done,
            phase: self.phase.model(),
        }
    }
}

impl ExchangeModel {
    /// What holds at every moment: a response whose prefix has been read
    /// states a plausible size.
    pub open spec fn wf(self) -> bool {
        match self.phase {
            PhaseModel::ReceivingRest(_, prefix) => prefix.len() == TPM_PREFIX_SIZE && plausible(
                stated_size(prefix),
            ),
            _ => true,
        }
    }
}

impl Exchange {
    #[verifier::type_invariant]
    spec fn inv(self) -> bool {
        self@.wf()
    }

    /// Starts the exchange for `cmd`, where `connected` says whether there is
    /// a connection from an earlier command, and `startup_done` whether the TPM
    /// has been started up in this session.
    pub fn begin(cmd: Vec<u8>, connected: bool, startup_done: bool) -> (r: (Exchange, Action))
        ensures
            r.0@ == begun(cmd@, connected, startup_done).0,
            r.1@ == begun(cmd@, connected, startup_done).1,
            r.0@.wf(),
    {
        if cmd.len() < TPM_HEADER_SIZE {
            (
                Exchange { cmd, startup_done, phase: Phase::Over },
                Action::Finish(tpm2_error_response(TPM2_RC_FAILURE), Outcome::Refused),
            )
        } else if connected {
            let mut exchange = Exchange { cmd, startup_done, phase: Phase::Over };
            let action = exchange.send(Message::Guest);
            (exchange, action)
        } else {
            (Exchange { cmd, startup_done, phase: Phase::Connecting }, Action::Connect)
        }
    }

    /// Goes on from the report of what came of the last action.
    pub fn step(&mut self, event: Event) -> (action: Action)
        ensures
            final(self)@ == stepped(old(self)@, event@).0,
            action@ == stepped(old(self)@, event@).1,
            final(self)@.wf(),
    {
        proof {
            use_type_invariant(&*self);
        }
        if let Event::Failed = event {
            return self.fail(Failure::Io);
        }
        match (&self.phase, event) {
            (Phase::Connecting, Event::Connected) => {
                if self.startup_done {
                    self.send(Message::Guest)
                } else {
                    self.send(Message::Startup)
                }
            },
            (Phase::Sending(message), Event::Sent) => {
                self.phase = Phase::ReceivingPrefix(*message);
                Action::Receive(TPM_PREFIX_SIZE)
            },
            (Phase::ReceivingPrefix(message), Event::Received(prefix)) => {
                let message = *message;
                self.take_prefix(message, prefix)
            },
            (Phase::ReceivingRest(message, prefix), Event::Received(rest)) => {
                if rest.len() != size_in(prefix.as_slice()) as usize - TPM_PREFIX_SIZE {
                    return self.fail(Failure::OutOfOrder);
                }
                match message {
                    Message::Startup => {
                        self.startup_done = true;
                        self.send(Message::Guest)
                    },
                    Message::Guest => {
                        let mut rsp = copy_range(prefix.as_slice(), 0, TPM_PREFIX_SIZE);
                        assert(rsp@ =~= prefix@);
                        append(&mut rsp, rest.as_slice());
                        self.phase = Phase::Over;
                        Action::Finish(rsp, Outcome::Answered)
                    },
                }
            },
            _ => self.fail(Failure::OutOfOrder),
        }
    }

    /// Takes the first bytes of a response.
    fn take_prefix(&mut self, message: Message, prefix: Vec<u8>) -> (action: Action)
        requires
            old(self)@.phase == PhaseModel::ReceivingPrefix(message),
        ensures
            final(self)@ == stepped(old(self)@, EventModel::Received(prefix@)).0,
            action@ == stepped(old(self)@, EventModel::Received(prefix@)).1,
            final(self)@.wf(),
    {
        if prefix.len() != TPM_PREFIX_SIZE {
            return self.fail(Failure::OutOfOrder);
        }
        let size: u32 = size_in(prefix.as_slice());
        if size < TPM_HEADER_SIZE as u32 || size > TPM_MAX_RESPONSE_SIZE as u32 {
            return self.fail(Failure::ImplausibleSize(size));
        }
        self.phase = Phase::ReceivingRest(message, prefix);
        Action::Receive(size as usize - TPM_PREFIX_SIZE)
    }

    fn send(&mut self, message: Message) -> (action: Action)
        ensures
            final(self)@ == send(old(self)@, message).0,
            action@ == send(old(self)@, message).1,
            final(self)@.wf(),
    {
        self.phase = Phase::Sending(message);
        match message {
            Message::Startup => Action::Send(tpm2_startup_command()),
            Message::Guest => {
                let n: usize = self.cmd.len();
                let cmd = copy_range(self.cmd.as_slice(), 0, n);
                assert(cmd@ =~= self.cmd@);
                Action::Send(cmd)
            },
        }
    }

    fn fail(&mut self, failure: Failure) -> (action: Action)
        ensures
            final(self)@ == fail(old(self)@, failure).0,
            action@ == fail(old(self)@, failure).1,
            final(self)@.wf(),
    {
        self.phase = Phase::Over;
        Action::Finish(tpm2_error_response(TPM2_RC_FAILURE), Outcome::Failed(failure))
    }

    /// Whether the TPM has been started up in this session, as far as this
    /// exchange knows.
    pub fn startup_done(&self) -> (done: bool)
        ensures
            done == self@.startup_done,
    {
        self.startup_done
    }
}

/// What lasts from one command to the next.
#[verifier::ext_equal]
pub struct SessionModel {
    /// Whether a connection is kept for the next command.
    pub connected: bool,
    /// Whether the TPM has been started up.
    pub startup_done: bool,
    /// Whether a command is under way that is to start the TPM up.
    pub starting: bool,
}

/// A session before its first command.
pub open spec fn new_session() -> SessionModel {
    SessionModel { connected: false, startup_done: false, starting: false }
}

/// Whether `cmd` has to wait for another command that starts the TPM up.
pub open spec fn must_wait(s: SessionModel, cmd: Seq<u8>) -> bool {
    cmd.len() >= TPM_HEADER_SIZE && s.starting
}

/// The session once `cmd` is under way: a command that is not refused takes the
/// connection, and where the TPM has not been started up, it is to do that.
pub open spec fn command_begun(s: SessionModel, cmd: Seq<u8>) -> SessionModel {
    if cmd.len() < TPM_HEADER_SIZE || s.starting {
        s
    } else {
        SessionModel {
            connected: false,
            starting: !s.connected && !s.startup_done,
            ..s
        }
    }
}

/// The session after a step of an exchange, where `startup_done` says whether
/// the exchange knows the TPM started up.
pub open spec fn startup_noted(s: SessionModel, startup_done: bool) -> SessionModel {
    SessionModel {
        startup_done: s.startup_done || startup_done,
        starting: s.starting && !startup_done,
        ..s
    }
}

/// The session after a command with this outcome, where `startup_done` says
/// whether its exchange knows the TPM started up. An answered command leaves
/// its connection for the next one, a failed one leaves none, and a refused one
/// has not touched it. After an answered or failed command, nothing has to
/// wait.
pub open spec fn command_finished(
    s: SessionModel,
    startup_done: bool,
    outcome: Outcome,
) -> SessionModel {
    let noted = startup_noted(s, startup_done);
    match outcome {
        Outcome::Answered => SessionModel { connected: true, starting: false, ..noted },
        Outcome::Refused => noted,
        Outcome::Failed(_) => SessionModel { connected: false, starting: false, ..noted },
    }
}

/// The commands' common ground: the connection that is kept between them, and
/// the startup of the TPM.
///
/// Commands may overlap; each then has a connection of its own. The one
/// exception is a command that is to start the TPM up: until its startup has
/// been answered, or it has failed, no other command goes out.
pub struct Session {
    connected: bool,
    startup_done: bool,
    starting: bool,
}

impl View for Session {
    type V = SessionModel;

    closed spec fn view(&self) -> SessionModel {
        SessionModel {
            connected: self.connected,
            startup_done: self.startup_done,
            starting: self.starting,
        }
    }
}

impl Session {
    /// A session before its first command.
    pub fn new() -> (session: Session)
        ensures
            session@ == new_session(),
    {
        Session { connected: false, startup_done: false, starting: false }
    }

    /// Starts the exchange for `cmd`, which takes the connection if there is
    /// one and the command is not refused. Returns `None` where the command has
    /// to wait: it can be begun once a call of [`Session::note`] or
    /// [`Session::finish`] has ended the startup.
    pub fn begin(&mut self, cmd: Vec<u8>) -> (r: Option<(Exchange, Action)>)
        ensures
            r is None <==> must_wait(old(self)@, cmd@),
            r matches Some((exchange, action)) ==> {
                let first = begun(cmd@, old(self)@.connected, old(self)@.startup_done);
                exchange@ == first.0 && action@ == first.1 && exchange@.wf()
            },
            final(self)@ == command_begun(old(self)@, cmd@),
    {
        let connected: bool = self.connected;
        if cmd.len() >= TPM_HEADER_SIZE {
            if self.starting {
                return None;
            }
            self.starting = !connected && !self.startup_done;
            self.connected = false;
        }
        Some(Exchange::begin(cmd, connected, self.startup_done))
    }

    /// Takes note of what a step of `exchange` has shown of the startup.
    pub fn note(&mut self, exchange: &Exchange)
        ensures
            final(self)@ == startup_noted(old(self)@, exchange@.startup_done),
    {
        if exchange.startup_done() {
            self.startup_done = true;
            self.starting = false;
        }
    }

    /// Takes note of the end of `exchange`.
    pub fn finish(&mut self, exchange: &Exchange, outcome: Outcome)
        ensures
            final(self)@ == command_finished(old(self)@, exchange@.startup_done, outcome),
    {
        self.note(exchange);
        match outcome {
            Outcome::Answered => {
                self.connected = true;
                self.starting = false;
            },
            Outcome::Refused => {},
            Outcome::Failed(_) => {
                self.connected = false;
                self.starting = false;
            },
        }
    }

    /// Whether a connection is kept for the next command.
    pub fn connected(&self) -> (connected: bool)
        ensures
            connected == self@.connected,
    {
        self.connected
    }
}

/// An error response is a well-formed response: it is a header, which states
/// its own size and carries the code.
pub proof fn law_error_response(rc: u32)
    ensures
        error_response(rc).len() == TPM_HEADER_SIZE,
        be_value(error_response(rc).subrange(0, 2)) == TPM2_ST_NO_SESSIONS,
        stated_size(error_response(rc)) == error_response(rc).len(),
        be_value(error_response(rc).subrange(6, 10)) == rc,
{
    broadcast use lemma_be_bytes_len;

    lemma_pow256_values();
    lemma_be_value_of_bytes(TPM2_ST_NO_SESSIONS as nat, 2);
    lemma_be_value_of_bytes(TPM_HEADER_SIZE as nat, 4);
    lemma_be_value_of_bytes(rc as nat, 4);
    let rsp = error_response(rc);
    assert(rsp.subrange(0, 2) =~= be_bytes(TPM2_ST_NO_SESSIONS as nat, 2));
    assert(rsp.subrange(2, 6) =~= be_bytes(TPM_HEADER_SIZE as nat, 4));
    assert(rsp.subrange(6, 10) =~= be_bytes(rc as nat, 4));
}

/// The startup command is a well-formed command: it states its own size, and
/// would not be refused.
pub proof fn law_startup_command()
    ensures
        startup_command().len() == TPM2_STARTUP_SIZE,
        stated_size(startup_command()) == startup_command().len(),
        be_value(startup_command().subrange(6, 10)) == TPM2_CC_STARTUP,
        startup_command().len() >= TPM_HEADER_SIZE,
{
    broadcast use lemma_be_bytes_len;

    lemma_pow256_values();
    lemma_be_value_of_bytes(TPM2_STARTUP_SIZE as nat, 4);
    lemma_be_value_of_bytes(TPM2_CC_STARTUP as nat, 4);
    let cmd = startup_command();
    assert(cmd.subrange(2, 6) =~= be_bytes(TPM2_STARTUP_SIZE as nat, 4));
    assert(cmd.subrange(6, 10) =~= be_bytes(TPM2_CC_STARTUP as nat, 4));
}

/// Whatever happens, what the guest is handed at the end is a whole response:
/// it is of a plausible size, and states this size.
pub proof fn law_responses_are_whole(
    cmd: Seq<u8>,
    connected: bool,
    startup_done: bool,
    m: ExchangeModel,
    event: EventModel,
)
    requires
        m.wf(),
    ensures
        begun(cmd, connected, startup_done).1 matches ActionModel::Finish(rsp, _) ==> plausible(
            rsp.len(),
        ) && stated_size(rsp) == rsp.len(),
        stepped(m, event).1 matches ActionModel::Finish(rsp, _) ==> plausible(rsp.len())
            && stated_size(rsp) == rsp.len(),
{
    law_error_response(TPM2_RC_FAILURE);
    if let PhaseModel::ReceivingRest(_, prefix) = m.phase {
        if let EventModel::Received(rest) = event {
            assert((prefix + rest).subrange(2, 6) =~= prefix.subrange(2, 6));
        }
    }
}

/// A command too short to hold a header is refused without any action.
pub proof fn law_short_command(cmd: Seq<u8>, connected: bool, startup_done: bool)
    requires
        cmd.len() < TPM_HEADER_SIZE,
    ensures
        begun(cmd, connected, startup_done).1 == ActionModel::Finish(
            error_response(TPM2_RC_FAILURE),
            Outcome::Refused,
        ),
{
}

/// Whichever action fails, the guest is answered with an error response.
pub proof fn law_failure(m: ExchangeModel)
    ensures
        stepped(m, EventModel::Failed).1 == ActionModel::Finish(
            error_response(TPM2_RC_FAILURE),
            Outcome::Failed(Failure::Io),
        ),
{
}

/// What holds of an exchange beside its validity, where a connection is only
/// kept after the TPM has been started up: the guest's command is under way or
/// answered only with the TPM started up.
pub open spec fn started_first(m: ExchangeModel) -> bool {
    match m.phase {
        PhaseModel::Sending(Message::Guest) => m.startup_done,
        PhaseModel::ReceivingPrefix(Message::Guest) => m.startup_done,
        PhaseModel::ReceivingRest(Message::Guest, _) => m.startup_done,
        PhaseModel::Sending(Message::Startup) => !m.startup_done,
        PhaseModel::ReceivingPrefix(Message::Startup) => !m.startup_done,
        PhaseModel::ReceivingRest(Message::Startup, _) => !m.startup_done,
        _ => true,
    }
}

/// The TPM is started up before the guest's command is sent, and a connection
/// is kept only once it has been started up.
pub proof fn law_startup_comes_first(
    cmd: Seq<u8>,
    connected: bool,
    startup_done: bool,
    m: ExchangeModel,
    event: EventModel,
)
    requires
        connected ==> startup_done,
        started_first(m),
    ensures
        ({
            let (first, action) = begun(cmd, connected, startup_done);
            &&& started_first(first)
            &&& action is Send ==> first.startup_done && action == ActionModel::Send(cmd)
        }),
        ({
            let (next, action) = stepped(m, event);
            &&& started_first(next)
            &&& action matches ActionModel::Send(bytes) ==> {
                ||| next.startup_done && bytes == m.cmd
                ||| !next.startup_done && bytes == startup_command()
            }
            &&& action matches ActionModel::Finish(_, Outcome::Answered) ==> next.startup_done
        }),
{
}

/// Once the TPM has been started up, that stays so and it is not started up
/// again: from then on only the guest's command is sent.
pub proof fn law_startup_happens_once(
    cmd: Seq<u8>,
    connected: bool,
    m: ExchangeModel,
    event: EventModel,
)
    requires
        m.startup_done,
        started_first(m),
    ensures
        begun(cmd, connected, true).0.startup_done,
        begun(cmd, connected, true).1 matches ActionModel::Send(bytes) ==> bytes == cmd,
        stepped(m, event).0.startup_done,
        stepped(m, event).1 matches ActionModel::Send(bytes) ==> bytes == m.cmd,
{
}

/// The exchange for `cmd` after `events`.
pub open spec fn after_events(
    cmd: Seq<u8>,
    connected: bool,
    startup_done: bool,
    events: Seq<EventModel>,
) -> ExchangeModel
    decreases events.len(),
{
    if events.len() == 0 {
        begun(cmd, connected, startup_done).0
    } else {
        stepped(after_events(cmd, connected, startup_done, events.drop_last()), events.last()).0
    }
}

/// Whatever is reported in whatever order: the exchange stays valid, keeps its
/// command, has the TPM started up before the guest's command is under way, and
/// sends the startup command only in answer to the first report, so at most
/// once.
pub proof fn law_every_exchange(
    cmd: Seq<u8>,
    connected: bool,
    startup_done: bool,
    events: Seq<EventModel>,
)
    requires
        connected ==> startup_done,
    ensures
        ({
            let m = after_events(cmd, connected, startup_done, events);
            &&& m.wf()
            &&& m.cmd == cmd
            &&& started_first(m)
            &&& startup_done ==> m.startup_done
            &&& m.phase == PhaseModel::Connecting ==> events.len() == 0
            &&& m.phase == PhaseModel::Sending(Message::Startup) ==> events.len() == 1
                && !startup_done
        }),
    decreases events.len(),
{
    if events.len() > 0 {
        let before = events.drop_last();
        law_every_exchange(cmd, connected, startup_done, before);
        law_startup_comes_first(
            cmd,
            connected,
            startup_done,
            after_events(cmd, connected, startup_done, before),
            events.last(),
        );
    }
}

/// The state of an exchange after a message has been sent, and its response,
/// `prefix` and `rest`, received.
pub open spec fn exchanged(
    m: ExchangeModel,
    prefix: Seq<u8>,
    rest: Seq<u8>,
) -> (ExchangeModel, ActionModel) {
    let sent = stepped(m, EventModel::Sent).0;
    let begun = stepped(sent, EventModel::Received(prefix)).0;
    stepped(begun, EventModel::Received(rest))
}

/// Whether `prefix` and `rest` are a response as it is read.
pub open spec fn is_response(prefix: Seq<u8>, rest: Seq<u8>) -> bool {
    &&& prefix.len() == TPM_PREFIX_SIZE
    &&& plausible(stated_size(prefix))
    &&& prefix.len() + rest.len() == stated_size(prefix)
}

/// On a connection from an earlier command, the command is sent at once. The
/// guest gets the response that was received.
pub proof fn law_connected_exchange(
    cmd: Seq<u8>,
    startup_done: bool,
    prefix: Seq<u8>,
    rest: Seq<u8>,
)
    requires
        cmd.len() >= TPM_HEADER_SIZE,
        is_response(prefix, rest),
    ensures
        ({
            let (sending, first) = begun(cmd, true, startup_done);
            &&& first == ActionModel::Send(cmd)
            &&& exchanged(sending, prefix, rest).1 == ActionModel::Finish(
                prefix + rest,
                Outcome::Answered,
            )
        }),
{
}

/// On a new connection in a session in which the TPM has been started up, the
/// command is sent right after connecting.
pub proof fn law_reconnected_exchange(cmd: Seq<u8>, prefix: Seq<u8>, rest: Seq<u8>)
    requires
        cmd.len() >= TPM_HEADER_SIZE,
        is_response(prefix, rest),
    ensures
        ({
            let (connecting, first) = begun(cmd, false, true);
            let (sending, second) = stepped(connecting, EventModel::Connected);
            &&& first == ActionModel::Connect
            &&& second == ActionModel::Send(cmd)
            &&& exchanged(sending, prefix, rest).1 == ActionModel::Finish(
                prefix + rest,
                Outcome::Answered,
            )
        }),
{
}

/// On the first connection of a session, the startup command is sent and its
/// response taken before the guest's command is sent, whatever code that
/// response carries.
pub proof fn law_first_exchange(
    cmd: Seq<u8>,
    startup_prefix: Seq<u8>,
    startup_rest: Seq<u8>,
    prefix: Seq<u8>,
    rest: Seq<u8>,
)
    requires
        cmd.len() >= TPM_HEADER_SIZE,
        is_response(startup_prefix, startup_rest),
        is_response(prefix, rest),
    ensures
        ({
            let (connecting, first) = begun(cmd, false, false);
            let (starting, second) = stepped(connecting, EventModel::Connected);
            let (sending, third) = exchanged(starting, startup_prefix, startup_rest);
            let (over, last) = exchanged(sending, prefix, rest);
            &&& first == ActionModel::Connect
            &&& second == ActionModel::Send(startup_command())
            &&& third == ActionModel::Send(cmd)
            &&& last == ActionModel::Finish(prefix + rest, Outcome::Answered)
            &&& over.startup_done
        }),
{
}

/// A response that states an implausible size is not read any further: the
/// guest is answered with an error response.
pub proof fn law_implausible_response(m: ExchangeModel, message: Message, prefix: Seq<u8>)
    requires
        m.phase == PhaseModel::ReceivingPrefix(message),
        prefix.len() == TPM_PREFIX_SIZE,
        !plausible(stated_size(prefix)),
    ensures
        stepped(m, EventModel::Received(prefix)).1 == ActionModel::Finish(
            error_response(TPM2_RC_FAILURE),
            Outcome::Failed(Failure::ImplausibleSize(stated_size(prefix) as u32)),
        ),
{
}

/// A response that ends before the size it states never reaches the guest:
/// whatever is received in place of the rest, the answer is an error response.
pub proof fn law_no_partial_response(
    m: ExchangeModel,
    message: Message,
    prefix: Seq<u8>,
    rest: Seq<u8>,
)
    requires
        m.phase == PhaseModel::ReceivingRest(message, prefix),
        prefix.len() + rest.len() != stated_size(prefix),
    ensures
        stepped(m, EventModel::Received(rest)).1 == ActionModel::Finish(
            error_response(TPM2_RC_FAILURE),
            Outcome::Failed(Failure::OutOfOrder),
        ),
{
}

/// While a command runs, no connection is kept in the session.
pub proof fn law_connection_is_taken(s: SessionModel, cmd: Seq<u8>)
    requires
        cmd.len() >= TPM_HEADER_SIZE,
        !must_wait(s, cmd),
    ensures
        !command_begun(s, cmd).connected,
{
}

/// After an answered command the next one is sent at once, without connecting;
/// after a failed one the next one connects. In neither case does it wait.
pub proof fn law_connection_for_next_command(
    s: SessionModel,
    startup_done: bool,
    failure: Failure,
    next: Seq<u8>,
)
    requires
        next.len() >= TPM_HEADER_SIZE,
    ensures
        ({
            let answered = command_finished(s, startup_done, Outcome::Answered);
            &&& !must_wait(answered, next)
            &&& begun(next, answered.connected, answered.startup_done).1 == ActionModel::Send(next)
        }),
        ({
            let failed = command_finished(s, startup_done, Outcome::Failed(failure));
            &&& !must_wait(failed, next)
            &&& begun(next, failed.connected, failed.startup_done).1 == ActionModel::Connect
        }),
{
}

/// A refused command leaves the session as it was, and never waits.
pub proof fn law_refused_command_changes_nothing(s: SessionModel, cmd: Seq<u8>)
    requires
        cmd.len() < TPM_HEADER_SIZE,
        s.starting ==> !s.startup_done,
    ensures
        ({
            let begun_session = command_begun(s, cmd);
            let (exchange, _) = begun(cmd, s.connected, s.startup_done);
            &&& !must_wait(s, cmd)
            &&& command_finished(begun_session, exchange.startup_done, Outcome::Refused) == s
        }),
{
}

/// A session, and the exchanges that are under way in it, each with the action
/// that it asks for.
pub struct TrafficModel {
    pub session: SessionModel,
    pub live: Map<int, (ExchangeModel, ActionModel)>,
}

/// What can happen next in a session: a command is begun under a fresh number,
/// the owner of an exchange reports, or it ends an exchange that is over.
pub enum Turn {
    Begin(int, Seq<u8>),
    Report(int, EventModel),
    Finish(int),
}

/// The session and its exchanges after one turn. A turn that is not possible
/// changes nothing.
pub open spec fn turned(t: TrafficModel, turn: Turn) -> TrafficModel {
    match turn {
        Turn::Begin(id, cmd) => {
            if t.live.contains_key(id) || must_wait(t.session, cmd) {
                t
            } else {
                TrafficModel {
                    session: command_begun(t.session, cmd),
                    live: t.live.insert(
                        id,
                        begun(cmd, t.session.connected, t.session.startup_done),
                    ),
                }
            }
        },
        Turn::Report(id, event) => {
            if !t.live.contains_key(id) || t.live[id].1 is Finish {
                t
            } else {
                let next = stepped(t.live[id].0, event);
                TrafficModel {
                    session: startup_noted(t.session, next.0.startup_done),
                    live: t.live.insert(id, next),
                }
            }
        },
        Turn::Finish(id) => {
            if !t.live.contains_key(id) {
                t
            } else {
                match t.live[id].1 {
                    ActionModel::Finish(_, outcome) => TrafficModel {
                        session: command_finished(
                            t.session,
                            t.live[id].0.startup_done,
                            outcome,
                        ),
                        live: t.live.remove(id),
                    },
                    _ => t,
                }
            }
        },
    }
}

/// The session and its exchanges after `turns`.
pub open spec fn after_turns(turns: Seq<Turn>) -> TrafficModel
    decreases turns.len(),
{
    if turns.len() == 0 {
        TrafficModel { session: new_session(), live: Map::empty() }
    } else {
        turned(after_turns(turns.drop_last()), turns.last())
    }
}

/// Whether an exchange, with the action that it asks for, is to start the TPM
/// up, or has failed to.
pub open spec fn starts_up(exchange: (ExchangeModel, ActionModel)) -> bool {
    !exchange.0.startup_done && !(exchange.1 matches ActionModel::Finish(_, Outcome::Refused))
}

/// What holds of every exchange under way in a session.
pub open spec fn exchange_in_session(
    s: SessionModel,
    exchange: (ExchangeModel, ActionModel),
) -> bool {
    let (m, action) = exchange;
    &&& m.wf()
    &&& started_first(m)
    &&& m.startup_done ==> s.startup_done
    &&& starts_up(exchange) ==> s.starting
    &&& action matches ActionModel::Send(bytes) ==> bytes == if m.startup_done {
        m.cmd
    } else {
        startup_command()
    }
    &&& action matches ActionModel::Finish(_, Outcome::Answered) ==> m.startup_done
    &&& action matches ActionModel::Finish(_, Outcome::Refused) ==> m.phase == PhaseModel::Over
}

/// What holds of a session at every moment, with commands overlapping in any
/// way.
pub open spec fn session_invariant(t: TrafficModel) -> bool {
    &&& t.session.connected ==> t.session.startup_done
    &&& t.session.starting ==> !t.session.startup_done
    &&& forall|id: int| #[trigger]
        t.live.contains_key(id) ==> exchange_in_session(t.session, t.live[id])
    &&& forall|i: int, j: int| #[trigger]
        t.live.contains_key(i) && #[trigger] t.live.contains_key(j) && starts_up(t.live[i])
            && starts_up(t.live[j]) ==> i == j
}

proof fn lemma_turn_keeps_invariant(t: TrafficModel, turn: Turn)
    requires
        session_invariant(t),
    ensures
        session_invariant(turned(t, turn)),
        t.session.startup_done ==> turned(t, turn).session.startup_done,
{
}

/// In a session with any commands, begun, reported on and ended in any order:
///
/// - a connection is kept only with the TPM started up;
/// - at most one command at a time is to start the TPM up, and none once that
///   is done;
/// - what is sent is the guest's command where the TPM has been started up, and
///   the startup command where it has not been.
pub proof fn law_every_session(turns: Seq<Turn>, i: int, j: int)
    ensures
        session_invariant(after_turns(turns)),
        ({
            let t = after_turns(turns);
            &&& t.session.connected ==> t.session.startup_done
            &&& t.live.contains_key(i) && t.live.contains_key(j) && starts_up(t.live[i])
                && starts_up(t.live[j]) ==> i == j
            &&& t.live.contains_key(i) && t.session.startup_done ==> !starts_up(t.live[i])
            &&& t.live.contains_key(i) ==> (t.live[i].1 matches ActionModel::Send(bytes)
                ==> bytes == if t.session.startup_done {
                t.live[i].0.cmd
            } else {
                startup_command()
            })
        }),
    decreases turns.len(),
{
    if turns.len() > 0 {
        law_every_session(turns.drop_last(), i, j);
        lemma_turn_keeps_invariant(after_turns(turns.drop_last()), turns.last());
    }
}

/// A TPM that has been started up in a session stays so, whatever follows. With
/// it, the startup command is not sent again.
pub proof fn law_session_starts_up_once(turns: Seq<Turn>, n: int, id: int)
    requires
        0 <= n <= turns.len(),
        after_turns(turns.take(n)).session.startup_done,
    ensures
        after_turns(turns).session.startup_done,
        ({
            let t = after_turns(turns);
            t.live.contains_key(id) ==> (t.live[id].1 matches ActionModel::Send(bytes) ==> bytes
                == t.live[id].0.cmd)
        }),
    decreases turns.len(),
{
    law_every_session(turns, id, id);
    if n < turns.len() {
        assert(turns.drop_last().take(n) =~= turns.take(n));
        law_session_starts_up_once(turns.drop_last(), n, id);
        law_every_session(turns.drop_last(), id, id);
        lemma_turn_keeps_invariant(after_turns(turns.drop_last()), turns.last());
    } else {
        assert(turns.take(n) =~= turns);
    }
}

} // verus!
