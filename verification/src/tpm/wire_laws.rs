//! What goes over the socket, byte by byte and step by step.

use crate::bytes::{be_bytes, law_be_value};
use crate::tpm::swtpm::{
    begun, command_begun, command_finished, error_response, must_wait, new_session, plausible,
    startup_command, startup_noted, stated_size, stepped, Action, ActionModel, Event, EventModel,
    ExchangeModel, Failure, Message, Outcome, PhaseModel, SessionModel,
};
use vstd::prelude::*;

verus! {

/// A message states its size in its bytes 2 to 5, the highest first.
pub proof fn law_size_field(message: Seq<u8>)
    requires
        message.len() >= 6,
    ensures
        stated_size(message) == message[2] * 0x100_0000 + message[3] * 0x1_0000 + message[4] * 0x100
            + message[5],
{
    law_be_value(message.subrange(2, 6));
}

/// A response has from 10 to 65536 bytes.
pub proof fn law_plausible_sizes(n: nat)
    ensures
        plausible(n) <==> 10 <= n <= 65536,
{
}

/// The ten bytes of an error response.
pub proof fn law_error_response_bytes(rc: u32)
    ensures
        error_response(rc) == seq![
            0x80u8,
            0x01,
            0,
            0,
            0,
            0x0A,
            (rc as int / 0x100_0000) as u8,
            (rc as int / 0x1_0000 % 0x100) as u8,
            (rc as int / 0x100 % 0x100) as u8,
            (rc as int % 0x100) as u8,
        ],
        error_response(0x101) == seq![0x80u8, 0x01, 0, 0, 0, 0x0A, 0, 0, 0x01, 0x01],
{
    reveal_with_fuel(be_bytes, 5);
}

/// The twelve bytes of the startup command.
pub proof fn law_startup_command_bytes()
    ensures
        startup_command() == seq![0x80u8, 0x01, 0, 0, 0, 0x0C, 0, 0, 0x01, 0x44, 0, 0],
{
    reveal_with_fuel(be_bytes, 5);
}

/// How an exchange starts. A command of fewer than ten bytes is refused with an
/// error response; any other is sent at once on a connection that stands, and
/// waits for one where there is none.
pub proof fn law_first_action(cmd: Seq<u8>, connected: bool, startup_done: bool)
    ensures
        ({
            let (m, action) = begun(cmd, connected, startup_done);
            &&& m.cmd == cmd
            &&& m.startup_done == startup_done
            &&& cmd.len() < 10 ==> m.phase == PhaseModel::Over && action == ActionModel::Finish(
                seq![0x80u8, 0x01, 0, 0, 0, 0x0A, 0, 0, 0x01, 0x01],
                Outcome::Refused,
            )
            &&& cmd.len() >= 10 && connected ==> m.phase == PhaseModel::Sending(Message::Guest)
                && action == ActionModel::Send(cmd)
            &&& cmd.len() >= 10 && !connected ==> m.phase == PhaseModel::Connecting && action
                == ActionModel::Connect
        }),
{
    law_error_response_bytes(0x101);
}

/// A connection that has come to stand carries the startup command first,
/// unless the TPM has been started up; else the guest's command.
pub proof fn law_after_connecting(m: ExchangeModel)
    requires
        m.phase == PhaseModel::Connecting,
    ensures
        ({
            let (next, action) = stepped(m, EventModel::Connected);
            &&& next.cmd == m.cmd
            &&& next.startup_done == m.startup_done
            &&& m.startup_done ==> next.phase == PhaseModel::Sending(Message::Guest) && action
                == ActionModel::Send(m.cmd)
            &&& !m.startup_done ==> next.phase == PhaseModel::Sending(Message::Startup) && action
                == ActionModel::Send(
                seq![0x80u8, 0x01, 0, 0, 0, 0x0C, 0, 0, 0x01, 0x44, 0, 0],
            )
        }),
{
    law_startup_command_bytes();
}

/// Whatever was sent, six bytes are received next.
pub proof fn law_after_sending(m: ExchangeModel, message: Message)
    requires
        m.phase == PhaseModel::Sending(message),
    ensures
        stepped(m, EventModel::Sent) == (
            ExchangeModel {
                cmd: m.cmd,
                startup_done: m.startup_done,
                phase: PhaseModel::ReceivingPrefix(message),
            },
            ActionModel::Receive(6),
        ),
{
}

/// What six bytes of a response lead to: the rest of a response of `n` bytes is
/// received where `n` is from 10 to 65536. Any other size, and any other number
/// of bytes, ends the exchange with an error response.
pub proof fn law_after_prefix(m: ExchangeModel, message: Message, prefix: Seq<u8>)
    requires
        m.phase == PhaseModel::ReceivingPrefix(message),
    ensures
        ({
            let n = prefix[2] * 0x100_0000 + prefix[3] * 0x1_0000 + prefix[4] * 0x100 + prefix[5];
            let error = seq![0x80u8, 0x01, 0, 0, 0, 0x0A, 0, 0, 0x01, 0x01];
            let (next, action) = stepped(m, EventModel::Received(prefix));
            &&& next.cmd == m.cmd
            &&& next.startup_done == m.startup_done
            &&& prefix.len() == 6 && 10 <= n <= 65536 ==> next.phase == PhaseModel::ReceivingRest(
                message,
                prefix,
            ) && action == ActionModel::Receive((n - 6) as nat)
            &&& prefix.len() == 6 && (n < 10 || n > 65536) ==> next.phase == PhaseModel::Over
                && action == ActionModel::Finish(
                error,
                Outcome::Failed(Failure::ImplausibleSize(n as u32)),
            )
            &&& prefix.len() != 6 ==> next.phase == PhaseModel::Over && action
                == ActionModel::Finish(error, Outcome::Failed(Failure::OutOfOrder))
        }),
{
    law_error_response_bytes(0x101);
    if prefix.len() == 6 {
        law_size_field(prefix);
    }
}

/// What the rest of a response leads to: it completes the response where it has
/// all the bytes that the prefix has announced, and no more. A completed
/// response to the guest's command is the answer; one to the startup command
/// has the guest's command sent. Anything else ends the exchange with an error
/// response.
pub proof fn law_after_rest(m: ExchangeModel, message: Message, prefix: Seq<u8>, rest: Seq<u8>)
    requires
        m.phase == PhaseModel::ReceivingRest(message, prefix),
        prefix.len() == 6,
    ensures
        ({
            let n = prefix[2] * 0x100_0000 + prefix[3] * 0x1_0000 + prefix[4] * 0x100 + prefix[5];
            let error = seq![0x80u8, 0x01, 0, 0, 0, 0x0A, 0, 0, 0x01, 0x01];
            let (next, action) = stepped(m, EventModel::Received(rest));
            &&& next.cmd == m.cmd
            &&& rest.len() == n - 6 && message == Message::Guest ==> next.startup_done
                == m.startup_done && next.phase == PhaseModel::Over && action
                == ActionModel::Finish(prefix + rest, Outcome::Answered)
            &&& rest.len() == n - 6 && message == Message::Startup ==> next.startup_done
                && next.phase == PhaseModel::Sending(Message::Guest) && action
                == ActionModel::Send(m.cmd)
            &&& rest.len() != n - 6 ==> next.startup_done == m.startup_done && next.phase
                == PhaseModel::Over && action == ActionModel::Finish(
                error,
                Outcome::Failed(Failure::OutOfOrder),
            )
        }),
{
    law_error_response_bytes(0x101);
    law_size_field(prefix);
}

/// For every response of `n` bytes with `n` from 10 to 65536, stated in its
/// first six bytes: after these the other `n - 6` are received, and with
/// whatever these are, the guest is handed the response as it came.
pub proof fn law_every_response_is_delivered(
    m: ExchangeModel,
    prefix: Seq<u8>,
    rest: Seq<u8>,
    n: int,
)
    requires
        m.phase == PhaseModel::ReceivingPrefix(Message::Guest),
        prefix.len() == 6,
        n == prefix[2] * 0x100_0000 + prefix[3] * 0x1_0000 + prefix[4] * 0x100 + prefix[5],
        10 <= n <= 65536,
        rest.len() == n - 6,
    ensures
        ({
            let (receiving, second) = stepped(m, EventModel::Received(prefix));
            let (over, last) = stepped(receiving, EventModel::Received(rest));
            &&& second == ActionModel::Receive((n - 6) as nat)
            &&& last == ActionModel::Finish(prefix + rest, Outcome::Answered)
            &&& over.phase == PhaseModel::Over
        }),
{
    law_after_prefix(m, Message::Guest, prefix);
    law_after_rest(
        stepped(m, EventModel::Received(prefix)).0,
        Message::Guest,
        prefix,
        rest,
    );
}

/// A report that does not fit what was asked for ends the exchange with an error
/// response, and so does the report of a failure, at any time.
pub proof fn law_other_reports(m: ExchangeModel, event: EventModel)
    requires
        event is Connected ==> !(m.phase is Connecting),
        event is Sent ==> !(m.phase is Sending),
        event is Received ==> !(m.phase is ReceivingPrefix || m.phase is ReceivingRest),
    ensures
        stepped(m, event) == (
            ExchangeModel { cmd: m.cmd, startup_done: m.startup_done, phase: PhaseModel::Over },
            ActionModel::Finish(
                seq![0x80u8, 0x01, 0, 0, 0, 0x0A, 0, 0, 0x01, 0x01],
                Outcome::Failed(
                    if event is Failed {
                        Failure::Io
                    } else {
                        Failure::OutOfOrder
                    },
                ),
            ),
        ),
{
    law_error_response_bytes(0x101);
}

/// What the invariant of an exchange says of the bytes that it holds.
pub proof fn law_exchange_invariant_in_full(m: ExchangeModel, message: Message, prefix: Seq<u8>)
    ensures
        !(m.phase is ReceivingRest) ==> m.wf(),
        m.phase == PhaseModel::ReceivingRest(message, prefix) ==> (m.wf() <==> {
            let n = prefix[2] * 0x100_0000 + prefix[3] * 0x1_0000 + prefix[4] * 0x100 + prefix[5];
            prefix.len() == 6 && 10 <= n <= 65536
        }),
{
    if prefix.len() == 6 {
        law_size_field(prefix);
    }
}

/// Actions and events stand for their own kind, and for the bytes that they
/// hold.
pub proof fn law_actions_and_events(bytes: Vec<u8>, n: usize, outcome: Outcome)
    ensures
        Action::Connect@ == ActionModel::Connect,
        Action::Send(bytes)@ == ActionModel::Send(bytes@),
        Action::Receive(n)@ == ActionModel::Receive(n as nat),
        Action::Finish(bytes, outcome)@ == ActionModel::Finish(bytes@, outcome),
        Event::Connected@ == EventModel::Connected,
        Event::Sent@ == EventModel::Sent,
        Event::Received(bytes)@ == EventModel::Received(bytes@),
        Event::Failed@ == EventModel::Failed,
{
}

/// A session starts without a connection, without the TPM started up, and with
/// no command that is to do so.
pub proof fn law_session_start()
    ensures
        !new_session().connected,
        !new_session().startup_done,
        !new_session().starting,
{
}

/// A command of at least ten bytes waits exactly while another one is to start
/// the TPM up. Where it does not wait, it takes the connection, and is to start
/// the TPM up exactly where there is no connection and that has not been done. A
/// shorter one neither waits nor changes anything.
pub proof fn law_session_begin(s: SessionModel, cmd: Seq<u8>)
    ensures
        must_wait(s, cmd) <==> cmd.len() >= 10 && s.starting,
        cmd.len() < 10 || s.starting ==> command_begun(s, cmd) == s,
        cmd.len() >= 10 && !s.starting ==> command_begun(s, cmd) == (SessionModel {
            connected: false,
            startup_done: s.startup_done,
            starting: !s.connected && !s.startup_done,
        }),
{
}

/// What the end of a command, or a step of it, leaves in the session.
pub proof fn law_session_progress(s: SessionModel, done: bool, failure: Failure)
    ensures
        startup_noted(s, done).connected == s.connected,
        startup_noted(s, done).startup_done == (s.startup_done || done),
        startup_noted(s, done).starting == (s.starting && !done),
        command_finished(s, done, Outcome::Answered).connected,
        command_finished(s, done, Outcome::Answered).startup_done == (s.startup_done || done),
        !command_finished(s, done, Outcome::Answered).starting,
        command_finished(s, done, Outcome::Refused).connected == s.connected,
        command_finished(s, done, Outcome::Refused).startup_done == (s.startup_done || done),
        command_finished(s, done, Outcome::Refused).starting == (s.starting && !done),
        !command_finished(s, done, Outcome::Failed(failure)).connected,
        command_finished(s, done, Outcome::Failed(failure)).startup_done == (s.startup_done
            || done),
        !command_finished(s, done, Outcome::Failed(failure)).starting,
{
}

} // verus!
