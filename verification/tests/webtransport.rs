use rcargo::proto::{Event, PROTO_VERSION};
use rcargo::transport::{BuildInput, BuildStep, TransportError};
use rcargo::{Config, TransportOutcome, WebTransportTransport};

fn step(input: BuildInput) -> BuildStep {
    let t = WebTransportTransport::new(Config::default(), "box.local".into(), 7475);
    t.run_cargo("app-1", &["check".to_string(), "a b".to_string()], input)
}

#[test]
fn session_opens_with_a_hello_and_the_build() {
    assert_eq!(
        step(BuildInput::Start),
        BuildStep::Open {
            url: "https://box.local:7475/rcargo".into(),
            lines: vec![
                "{\"op\":\"hello\",\"client_version\":1}\n".into(),
                "{\"op\":\"build\",\"project_key\":\"app-1\",\"args\":[\"check\",\"a b\"],\"env\":{}}\n"
                    .into(),
            ],
        }
    );
}

#[test]
fn lines_are_taken_from_the_stream() {
    assert_eq!(step(BuildInput::Read("{}\r\n".into())), BuildStep::Decode("{}".into()));
    assert_eq!(step(BuildInput::Read("{}".into())), BuildStep::Decode("{}".into()));
    assert_eq!(step(BuildInput::Read(" \n".into())), BuildStep::Decode(" ".into()));
    assert_eq!(step(BuildInput::Read("\r\n".into())), BuildStep::Continue);
    let closed = step(BuildInput::Read("".into()));
    assert_eq!(closed, BuildStep::Fail(TransportError::StreamClosed));
    assert_eq!(
        TransportError::StreamClosed.message(),
        "WT stream closed before daemon sent Exit"
    );
}

#[test]
fn a_line_that_is_no_event_is_passed_over() {
    assert_eq!(
        step(BuildInput::Undecodable { line: "x".into(), cause: "why".into() }),
        BuildStep::Warn("rcargo WT: bad event line: why (raw: x)".into())
    );
}

#[test]
fn events_are_shown_or_end_the_build() {
    let on = |e| step(BuildInput::Decoded(e));
    assert_eq!(on(Event::Stdout { data: "o".into() }), BuildStep::WriteOut("o\n".into()));
    assert_eq!(on(Event::Stderr { data: "e".into() }), BuildStep::WriteErr("e\n".into()));
    assert_eq!(on(Event::HelloAck { server_version: PROTO_VERSION }), BuildStep::Continue);
    assert_eq!(
        on(Event::HelloAck { server_version: 20 }),
        BuildStep::Warn("rcargo WT: protocol mismatch: client v1, server v20".into())
    );
    assert_eq!(
        on(Event::Exit { code: 101 }),
        BuildStep::Done(TransportOutcome { exit_code: 101 })
    );
    let failed = TransportError::Daemon { message: "no disk".into() };
    assert_eq!(failed.message(), "rcargod error: no disk");
    assert_eq!(on(Event::Error { message: "no disk".into() }), BuildStep::Fail(failed));
}

#[test]
fn a_line_of_the_daemon_reaches_the_decoder() {
    let line = Event::Stdout { data: "a\r\n".into() }.to_line();
    assert_eq!(step(BuildInput::Read(format!("{line}\n"))), BuildStep::Decode(line));
}

#[test]
fn what_a_local_program_brings_is_passed_over() {
    assert_eq!(step(BuildInput::OutLine("x".into())), BuildStep::Continue);
    assert_eq!(step(BuildInput::ErrLine("x".into())), BuildStep::Continue);
    assert_eq!(step(BuildInput::Exited(Some(3))), BuildStep::Continue);
}
