use rcargo::daemon::{
    cert_notice, expand_tilde, run_cargo, serve_one, JobInput, JobStep, ServeInput, ServeStep,
};
use rcargo::proto::{Event, Request, PROTO_VERSION};
use rcargo::transport::{BuildInput, BuildStep};
use rcargo::{Config, TransportOutcome, WebTransportTransport};

fn job(input: JobInput) -> JobStep {
    run_cargo(
        "/srv/r",
        "app-1",
        &vec!["test".to_string()],
        &vec![("K".to_string(), "V".to_string())],
        input,
    )
}

fn sent(input: JobInput) -> Vec<Event> {
    match job(input) {
        JobStep::Send(e) => vec![e],
        JobStep::Finish(es) => es,
        _ => vec![],
    }
}

#[test]
fn lines_are_decoded_and_blank_ones_passed_over() {
    assert!(matches!(serve_one(ServeInput::Line("".into())), ServeStep::Read));
    assert!(matches!(serve_one(ServeInput::Line(" \t".into())), ServeStep::Read));
    match serve_one(ServeInput::Line(" {} ".into())) {
        ServeStep::Decode(l) => assert_eq!(l, " {} "),
        other => panic!("got {other:?}"),
    }
    let line = Request::Bye.to_line();
    match serve_one(ServeInput::Line(line.clone())) {
        ServeStep::Decode(l) => assert_eq!(l, line),
        other => panic!("got {other:?}"),
    }
}

#[test]
fn requests_are_answered() {
    match serve_one(ServeInput::Undecodable("bad".into())) {
        ServeStep::Answer(e) => assert_eq!(e, Event::Error { message: "parse error: bad".into() }),
        other => panic!("got {other:?}"),
    }
    match serve_one(ServeInput::Decoded(Request::Hello { client_version: 99 })) {
        ServeStep::Answer(e) => assert_eq!(e, Event::HelloAck { server_version: PROTO_VERSION }),
        other => panic!("got {other:?}"),
    }
    assert!(matches!(serve_one(ServeInput::Decoded(Request::Bye)), ServeStep::Stop));
    let build = Request::Build {
        project_key: "k".into(),
        args: vec!["a".into()],
        env: vec![("K".into(), "V".into())],
    };
    match serve_one(ServeInput::Decoded(build)) {
        ServeStep::Build { project_key, args, env } => {
            assert_eq!(project_key, "k");
            assert_eq!(args, vec!["a"]);
            assert_eq!(env, vec![("K".to_string(), "V".to_string())]);
        }
        other => panic!("got {other:?}"),
    }
}

#[test]
fn a_build_runs_cargo_in_its_tree() {
    match job(JobInput::Start) {
        JobStep::MakeDir(d) => assert_eq!(d, "/srv/r/app-1"),
        other => panic!("got {other:?}"),
    }
    match job(JobInput::DirReady) {
        JobStep::Spawn { command, dir, env } => {
            assert_eq!(command.program, "cargo");
            assert_eq!(command.args, vec!["test"]);
            assert_eq!(dir, "/srv/r/app-1");
            assert_eq!(env, vec![("K".to_string(), "V".to_string())]);
        }
        other => panic!("got {other:?}"),
    }
}

#[test]
fn a_build_that_cannot_start_says_why() {
    assert_eq!(
        sent(JobInput::DirFailed("denied".into())),
        vec![
            Event::Error { message: "mkdir /srv/r/app-1: denied".into() },
            Event::Exit { code: 1 },
        ]
    );
    assert_eq!(
        sent(JobInput::SpawnFailed("not found".into())),
        vec![
            Event::Error { message: "spawn cargo: not found".into() },
            Event::Exit { code: 127 },
        ]
    );
}

#[test]
fn output_and_exit_are_reported() {
    assert_eq!(sent(JobInput::OutLine("o".into())), vec![Event::Stdout { data: "o".into() }]);
    assert_eq!(sent(JobInput::ErrLine("e".into())), vec![Event::Stderr { data: "e".into() }]);
    assert_eq!(sent(JobInput::Exited(Some(101))), vec![Event::Exit { code: 101 }]);
    assert_eq!(sent(JobInput::Exited(None)), vec![Event::Exit { code: 255 }]);
    assert!(matches!(job(JobInput::OutLine("o".into())), JobStep::Send(_)));
    assert!(matches!(job(JobInput::Exited(None)), JobStep::Finish(_)));
}

#[test]
fn a_client_sees_what_the_daemon_saw() {
    let inputs = vec![
        JobInput::Start,
        JobInput::DirReady,
        JobInput::OutLine("one".into()),
        JobInput::ErrLine("two".into()),
        JobInput::OutLine("three".into()),
        JobInput::Exited(Some(7)),
    ];
    let events: Vec<Event> = inputs.into_iter().flat_map(sent).collect();
    let client = WebTransportTransport::new(Config::default(), "h".into(), 1);
    let shown: Vec<BuildStep> =
        events.into_iter().map(|e| client.run_cargo("k", &[], BuildInput::Decoded(e))).collect();
    assert_eq!(
        shown,
        vec![
            BuildStep::WriteOut("one\n".into()),
            BuildStep::WriteErr("two\n".into()),
            BuildStep::WriteOut("three\n".into()),
            BuildStep::Done(TransportOutcome { exit_code: 7 }),
        ]
    );
}

#[test]
fn only_a_leading_tilde_is_expanded() {
    let home = || Some("/home/me/".to_string());
    assert_eq!(expand_tilde("~/rcargo-builds", home()), "/home/me/rcargo-builds");
    assert_eq!(expand_tilde("~/", home()), "/home/me/");
    assert_eq!(expand_tilde("~/x", Some("/".into())), "/x");
    assert_eq!(expand_tilde("~", home()), "~");
    assert_eq!(expand_tilde("/a/~/b", home()), "/a/~/b");
    assert_eq!(expand_tilde("~me/b", home()), "~me/b");
    assert_eq!(expand_tilde("~/x", None), "~/x");
}

#[test]
fn the_certificate_is_named_by_its_hash() {
    assert_eq!(
        cert_notice(&[0x00, 0xab, 0x7f]),
        "rcargod WT self-signed leaf cert sha256=00ab7f (pin this in clients for production)"
    );
}
