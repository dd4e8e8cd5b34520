use vtpm::tpm::swtpm::{
    tpm2_error_response, tpm2_startup_command, Action, Event, Exchange, Failure, Outcome, Session,
};

const ERROR: [u8; 10] = [0x80, 0x01, 0, 0, 0, 10, 0, 0, 0x01, 0x01];
const STARTUP: [u8; 12] = [0x80, 0x01, 0, 0, 0, 12, 0, 0, 0x01, 0x44, 0, 0];
const CMD: [u8; 10] = [0x80, 0x01, 0, 0, 0, 10, 0, 0, 0x01, 0x7C];

fn assert_send(action: Action, bytes: &[u8]) {
    match action {
        Action::Send(sent) => assert_eq!(sent, bytes),
        _ => panic!("not a send"),
    }
}

fn assert_receive(action: Action, len: usize) {
    match action {
        Action::Receive(n) => assert_eq!(n, len),
        _ => panic!("not a receive"),
    }
}

fn assert_finish(action: Action, bytes: &[u8], expected: Outcome) {
    match action {
        Action::Finish(rsp, outcome) => {
            assert_eq!(rsp, bytes);
            assert_eq!(outcome, expected);
        }
        _ => panic!("not the end"),
    }
}

fn connected(cmd: &[u8]) -> Exchange {
    let (exchange, action) = Exchange::begin(cmd.to_vec(), true, true);
    assert_send(action, cmd);
    exchange
}

#[test]
fn error_response_bytes() {
    assert_eq!(tpm2_error_response(0x0000_0101), ERROR);
    assert_eq!(
        tpm2_error_response(0x1234_5678),
        vec![0x80, 0x01, 0, 0, 0, 10, 0x12, 0x34, 0x56, 0x78]
    );
}

#[test]
fn startup_bytes() {
    assert_eq!(tpm2_startup_command(), STARTUP);
}

#[test]
fn short_command_is_refused() {
    for known in [false, true] {
        let (_, action) = Exchange::begin(CMD[..9].to_vec(), known, known);
        assert_finish(action, &ERROR, Outcome::Refused);
    }
}

#[test]
fn cached_connection() {
    let mut exchange = connected(&CMD);
    assert_receive(exchange.step(Event::Sent), 6);
    assert_receive(exchange.step(Event::Received(vec![0x80, 0x01, 0, 0, 0, 12])), 6);
    let rest = vec![0, 0, 0, 0, 1, 2];
    assert_finish(
        exchange.step(Event::Received(rest)),
        &[0x80, 0x01, 0, 0, 0, 12, 0, 0, 0, 0, 1, 2],
        Outcome::Answered,
    );
    assert!(exchange.startup_done());
}

#[test]
fn first_connection_starts_the_tpm_up() {
    let (mut exchange, action) = Exchange::begin(CMD.to_vec(), false, false);
    assert!(matches!(action, Action::Connect));
    assert_send(exchange.step(Event::Connected), &STARTUP);
    assert_receive(exchange.step(Event::Sent), 6);
    assert!(!exchange.startup_done());
    assert_receive(exchange.step(Event::Received(vec![0x80, 0x01, 0, 0, 0, 10])), 4);
    // The TPM may have been started up by someone else before.
    assert_send(exchange.step(Event::Received(vec![0, 0, 0x01, 0x00])), &CMD);
    assert!(exchange.startup_done());
    assert_receive(exchange.step(Event::Sent), 6);
    assert_receive(exchange.step(Event::Received(vec![0x80, 0x01, 0, 0, 0, 10])), 4);
    assert_finish(
        exchange.step(Event::Received(vec![0; 4])),
        &[0x80, 0x01, 0, 0, 0, 10, 0, 0, 0, 0],
        Outcome::Answered,
    );
}

#[test]
fn later_connection_skips_startup() {
    let (mut exchange, action) = Exchange::begin(CMD.to_vec(), false, true);
    assert!(matches!(action, Action::Connect));
    assert_send(exchange.step(Event::Connected), &CMD);
}

#[test]
fn failures_are_answered() {
    let failed = Outcome::Failed(Failure::Io);
    let (mut exchange, _) = Exchange::begin(CMD.to_vec(), false, false);
    assert_finish(exchange.step(Event::Failed), &ERROR, failed);
    assert!(!exchange.startup_done());

    let (mut exchange, _) = Exchange::begin(CMD.to_vec(), false, false);
    exchange.step(Event::Connected);
    exchange.step(Event::Sent);
    assert_finish(exchange.step(Event::Failed), &ERROR, failed);
    assert!(!exchange.startup_done());

    let mut exchange = connected(&CMD);
    assert_finish(exchange.step(Event::Failed), &ERROR, failed);

    let mut exchange = connected(&CMD);
    exchange.step(Event::Sent);
    exchange.step(Event::Received(vec![0x80, 0x01, 0, 0, 0, 12]));
    assert_finish(exchange.step(Event::Failed), &ERROR, failed);
}

#[test]
fn implausible_sizes() {
    for (size, ok) in [(9u32, false), (10, true), (65536, true), (65537, false), (u32::MAX, false)]
    {
        let mut exchange = connected(&CMD);
        exchange.step(Event::Sent);
        let mut prefix = vec![0x80, 0x01];
        prefix.extend_from_slice(&size.to_be_bytes());
        let action = exchange.step(Event::Received(prefix));
        if ok {
            assert_receive(action, size as usize - 6);
        } else {
            assert_finish(action, &ERROR, Outcome::Failed(Failure::ImplausibleSize(size)));
        }
    }
}

#[test]
fn reports_out_of_order() {
    let failed = Outcome::Failed(Failure::OutOfOrder);
    let mut exchange = connected(&CMD);
    assert_finish(exchange.step(Event::Connected), &ERROR, failed);
    assert_finish(exchange.step(Event::Sent), &ERROR, failed);

    let mut exchange = connected(&CMD);
    exchange.step(Event::Sent);
    assert_finish(exchange.step(Event::Received(vec![0; 5])), &ERROR, failed);

    let mut exchange = connected(&CMD);
    exchange.step(Event::Sent);
    exchange.step(Event::Received(vec![0x80, 0x01, 0, 0, 0, 12]));
    assert_finish(exchange.step(Event::Received(vec![0; 5])), &ERROR, failed);
}

/// Runs one command whose every action succeeds, and returns what was sent.
fn run(session: &mut Session, connects: bool) -> Vec<Vec<u8>> {
    let mut sent = Vec::new();
    let mut connected = false;
    let (mut exchange, mut action) = session.begin(CMD.to_vec()).unwrap();
    assert!(!session.connected());
    loop {
        let event = match action {
            Action::Connect => {
                connected = true;
                Event::Connected
            }
            Action::Send(bytes) => {
                sent.push(bytes);
                Event::Sent
            }
            Action::Receive(6) => Event::Received(vec![0x80, 0x01, 0, 0, 0, 10]),
            Action::Receive(n) => Event::Received(vec![0; n]),
            Action::Finish(rsp, outcome) => {
                assert_eq!(rsp, vec![0x80, 0x01, 0, 0, 0, 10, 0, 0, 0, 0]);
                assert_eq!(outcome, Outcome::Answered);
                session.finish(&exchange, outcome);
                break;
            }
        };
        action = exchange.step(event);
        session.note(&exchange);
    }
    assert_eq!(connected, connects);
    sent
}

#[test]
fn session_over_commands() {
    let mut session = Session::new();
    assert!(!session.connected());
    assert_eq!(run(&mut session, true), vec![STARTUP.to_vec(), CMD.to_vec()]);
    assert!(session.connected());
    assert_eq!(run(&mut session, false), vec![CMD.to_vec()]);

    // A refused command leaves the connection alone.
    let (exchange, action) = session.begin(vec![1, 2, 3]).unwrap();
    assert_finish(action, &ERROR, Outcome::Refused);
    session.finish(&exchange, Outcome::Refused);
    assert!(session.connected());

    // A failed one drops it; the next connects anew, without another startup.
    let (mut exchange, action) = session.begin(CMD.to_vec()).unwrap();
    assert_send(action, &CMD);
    assert_finish(exchange.step(Event::Failed), &ERROR, Outcome::Failed(Failure::Io));
    session.finish(&exchange, Outcome::Failed(Failure::Io));
    assert!(!session.connected());
    assert_eq!(run(&mut session, true), vec![CMD.to_vec()]);
}

#[test]
fn failed_startup_is_tried_again() {
    let mut session = Session::new();
    let (mut exchange, _) = session.begin(CMD.to_vec()).unwrap();
    assert_send(exchange.step(Event::Connected), &STARTUP);
    assert_finish(exchange.step(Event::Failed), &ERROR, Outcome::Failed(Failure::Io));
    session.finish(&exchange, Outcome::Failed(Failure::Io));
    assert_eq!(run(&mut session, true), vec![STARTUP.to_vec(), CMD.to_vec()]);
}

#[test]
fn commands_wait_for_the_startup() {
    let mut session = Session::new();
    let (mut first, action) = session.begin(CMD.to_vec()).unwrap();
    assert!(matches!(action, Action::Connect));
    assert!(session.begin(CMD.to_vec()).is_none());
    assert_send(first.step(Event::Connected), &STARTUP);
    session.note(&first);
    assert!(session.begin(CMD.to_vec()).is_none());

    // A command that is refused anyway does not wait.
    let (short, action) = session.begin(CMD[..9].to_vec()).unwrap();
    assert_finish(action, &ERROR, Outcome::Refused);
    session.finish(&short, Outcome::Refused);
    assert!(session.begin(CMD.to_vec()).is_none());

    first.step(Event::Sent);
    first.step(Event::Received(vec![0x80, 0x01, 0, 0, 0, 10]));
    assert_send(first.step(Event::Received(vec![0; 4])), &CMD);
    session.note(&first);

    // Its startup is answered, its own command is not: others go ahead, on a
    // connection of their own and without another startup.
    let (mut second, action) = session.begin(CMD.to_vec()).unwrap();
    assert!(matches!(action, Action::Connect));
    assert_send(second.step(Event::Connected), &CMD);
    session.note(&second);
    session.finish(&second, Outcome::Answered);
    assert!(session.connected());
    let (third, action) = session.begin(CMD.to_vec()).unwrap();
    assert_send(action, &CMD);
    session.finish(&third, Outcome::Answered);
    session.finish(&first, Outcome::Answered);
    assert!(session.connected());
}

#[test]
fn failed_startup_ends_the_wait() {
    let mut session = Session::new();
    let (mut first, _) = session.begin(CMD.to_vec()).unwrap();
    assert!(session.begin(CMD.to_vec()).is_none());
    assert_finish(first.step(Event::Failed), &ERROR, Outcome::Failed(Failure::Io));
    session.note(&first);
    assert!(session.begin(CMD.to_vec()).is_none());
    session.finish(&first, Outcome::Failed(Failure::Io));
    assert_eq!(run(&mut session, true), vec![STARTUP.to_vec(), CMD.to_vec()]);
}
