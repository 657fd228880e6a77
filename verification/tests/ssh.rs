use rcargo::transport::ssh::{
    build_remote_cargo_cmd, exit_code, shell_quote, shell_quote_path, take_line,
};
use rcargo::transport::{
    BuildInput, BuildStep, CommandLine, ExitReport, SyncProgress, SyncStep, TransportError,
};
use rcargo::{Config, SshTransport, Transport, TransportOutcome, WebTransportTransport};

fn strings(args: &[&str]) -> Vec<String> {
    args.iter().map(|s| s.to_string()).collect()
}

fn command(program: &str, args: &[&str]) -> CommandLine {
    CommandLine { program: program.to_string(), args: strings(args) }
}

fn custom() -> Config {
    Config {
        host: "me@box".into(),
        remote_root: "/srv/r c".into(),
        ssh_args: strings(&["-p", "2222"]),
        rsync_args: strings(&["--exclude=big/"]),
        pull_artifacts: false,
    }
}

const OK: ExitReport = ExitReport { success: true, code: Some(0) };

#[test]
fn shell_quote_safe() {
    assert_eq!(shell_quote("foo"), "foo");
    assert_eq!(shell_quote("foo bar"), "'foo bar'");
    assert_eq!(shell_quote("it's"), "'it'\\''s'");
    assert_eq!(shell_quote(""), "''");
    // A tilde is quoted; only the form for paths leaves a leading `~/` alone.
    assert_eq!(shell_quote("~/builds"), "'~/builds'");
    assert_eq!(shell_quote("a=b"), "a=b");
}

#[test]
fn shell_quote_path_preserves_leading_tilde() {
    assert_eq!(shell_quote_path("~/rcargo-builds"), "~/rcargo-builds");
    // Spaces still need quoting on the tail side.
    assert_eq!(shell_quote_path("~/dir with space"), "~/'dir with space'");
    // Bare tilde stays bare.
    assert_eq!(shell_quote_path("~"), "~");
    // Trailing slash without tail is fine.
    assert_eq!(shell_quote_path("~/"), "~/");
    // Absolute paths are quoted like any text.
    assert_eq!(shell_quote_path("/tmp/r"), "/tmp/r");
    assert_eq!(shell_quote_path("/tmp/r d"), "'/tmp/r d'");
    // A tilde in the middle of a path is not expanded by a shell, and is quoted.
    assert_eq!(shell_quote_path("/foo/~bar"), "'/foo/~bar'");
}

#[test]
fn remote_cmd_has_cd_and_args() {
    let cmd = build_remote_cargo_cmd(
        "~/rcargo-builds",
        "foo-abc",
        &["test".into(), "-p".into(), "bar".into()],
    );
    assert!(cmd.contains("cd"));
    assert!(cmd.contains("foo-abc"));
    assert!(cmd.contains("cargo"));
    assert!(cmd.ends_with(" test -p bar"));
}

#[test]
fn remote_cmd_tilde_remains_unquoted() {
    let cmd = build_remote_cargo_cmd("~/rcargo-builds", "proj-abc", &["build".into()]);
    assert!(
        cmd.starts_with("cd ~/rcargo-builds/proj-abc &&"),
        "expected unquoted tilde, got: {cmd}"
    );
}

#[test]
fn remote_cmd_quotes_dangerous_args() {
    let cmd = build_remote_cargo_cmd("/tmp/r", "k", &["build".into(), "a b".into()]);
    assert!(cmd.contains("'a b'"));
}

#[test]
fn remote_cmd_is_exact() {
    assert_eq!(
        build_remote_cargo_cmd("~/r", "k", &strings(&["test", "", "$(x)", "it's", "--", "a;b"])),
        "cd ~/r/k && cargo test '' '$(x)' 'it'\\''s' -- 'a;b'"
    );
    assert_eq!(build_remote_cargo_cmd("/r d", "k k", &[]), "cd '/r d'/'k k' && cargo");
    assert_eq!(build_remote_cargo_cmd("/r", "~/k", &[]), "cd /r/~/k && cargo");
}

#[test]
fn quotes_close_around_every_special_character() {
    for c in ['\\', '"', '$', '`', '\n', ' ', '*', '?', '&', '|', ';', '<', '(', '#', '!', '~', 'é'] {
        let s = format!("a{c}b");
        assert_eq!(shell_quote(&s), format!("'a{c}b'"));
    }
    assert_eq!(shell_quote("'"), "''\\'''");
    assert_eq!(shell_quote("-_./=:@,+azAZ09"), "-_./=:@,+azAZ09");
    assert_eq!(shell_quote_path(""), "''");
    assert_eq!(shell_quote_path("~user"), "'~user'");
    assert_eq!(shell_quote_path("~/it's"), "~/'it'\\''s'");
}

#[test]
fn upload_makes_the_directory_and_then_copies() {
    let t = SshTransport::new(custom());
    assert_eq!(
        t.sync_up("/home/me/app", "app-1", SyncProgress::Start),
        SyncStep::MakeDir(command(
            "ssh",
            &["-p", "2222", "me@box", "--", "mkdir -p '/srv/r c'/app-1"]
        ))
    );
    assert_eq!(
        t.sync_up("/home/me/app", "app-1", SyncProgress::MadeDir(OK)),
        SyncStep::Copy(command(
            "rsync",
            &[
                "-az",
                "--delete",
                "--filter=protect target/",
                "--exclude",
                "target/",
                "--exclude",
                "node_modules/",
                "--exclude",
                ".DS_Store",
                "--exclude",
                "*.swp",
                "--exclude",
                ".env",
                "--exclude",
                ".env.local",
                "--exclude=big/",
                "-e",
                "ssh -p 2222",
                "/home/me/app/",
                "me@box:/srv/r c/app-1/",
            ]
        ))
    );
    assert_eq!(t.sync_up("/home/me/app", "app-1", SyncProgress::Copied(OK)), SyncStep::Done);
}

#[test]
fn upload_with_defaults_names_no_remote_shell() {
    let t = SshTransport::new(Config::default());
    assert_eq!(
        t.sync_up("/a", "k", SyncProgress::Start),
        SyncStep::MakeDir(command("ssh", &["meta", "--", "mkdir -p ~/rcargo-builds/k"]))
    );
    match t.sync_up("/a", "k", SyncProgress::MadeDir(OK)) {
        SyncStep::Copy(c) => {
            assert!(!c.args.contains(&"-e".to_string()));
            assert_eq!(c.args.len(), 17);
            assert_eq!(c.args[15..], strings(&["/a/", "meta:~/rcargo-builds/k/"]));
        }
        other => panic!("got {other:?}"),
    }
}

#[test]
fn failed_uploads_say_why() {
    let t = SshTransport::new(custom());
    let fail = |code| ExitReport { success: false, code };
    match t.sync_up("/a", "k", SyncProgress::MadeDir(fail(Some(255)))) {
        SyncStep::Fail(e) => {
            assert_eq!(e, TransportError::Mkdir { code: Some(255), host: "me@box".into() });
            assert_eq!(
                e.message(),
                "ssh mkdir failed (status Some(255)). Is me@box reachable?"
            );
        }
        other => panic!("got {other:?}"),
    }
    match t.sync_up("/a", "k", SyncProgress::Copied(fail(None))) {
        SyncStep::Fail(e) => {
            assert_eq!(e, TransportError::Rsync { code: None });
            assert_eq!(
                e.message(),
                "rsync failed (status None) — check that rsync is installed locally and remotely"
            );
        }
        other => panic!("got {other:?}"),
    }
    assert_eq!(
        TransportError::Rsync { code: Some(-12) }.message(),
        format!(
            "rsync failed (status {:?}) — check that rsync is installed locally and remotely",
            Some(-12)
        )
    );
}

#[test]
fn build_goes_through_ssh() {
    let t = SshTransport::new(custom());
    let args = strings(&["test", "a b"]);
    let step = |input| t.run_cargo("app-1", &args, input);
    assert_eq!(
        step(BuildInput::Start),
        BuildStep::Spawn(command(
            "ssh",
            &[
                "-p",
                "2222",
                "-tt",
                "me@box",
                "--",
                "cd '/srv/r c'/app-1 && cargo test 'a b'",
            ]
        ))
    );
    assert_eq!(step(BuildInput::OutLine("x".into())), BuildStep::WriteOut("x\n".into()));
    assert_eq!(step(BuildInput::ErrLine("".into())), BuildStep::WriteErr("\n".into()));
    assert_eq!(
        step(BuildInput::Exited(Some(101))),
        BuildStep::Done(TransportOutcome { exit_code: 101 })
    );
    assert_eq!(
        step(BuildInput::Exited(None)),
        BuildStep::Done(TransportOutcome { exit_code: 255 })
    );
    assert_eq!(step(BuildInput::Read("x".into())), BuildStep::Continue);
}

#[test]
fn artifacts_come_back_from_every_release_directory() {
    let plan = SshTransport::new(custom()).pull_artifacts("/home/me/app", "app-1");
    assert_eq!(plan.target, "/home/me/app/target");
    let dests: Vec<&str> = plan.steps.iter().map(|s| s.dest.as_str()).collect();
    assert_eq!(
        dests,
        vec![
            "/home/me/app/target/release/",
            "/home/me/app/target/debug/",
            "/home/me/app/target/wasm32-unknown-unknown/release/",
            "/home/me/app/target/wasm32-wasi/release/",
            "/home/me/app/target",
        ]
    );
    assert_eq!(
        plan.steps[4].command,
        command(
            "rsync",
            &[
                "-azm",
                "--ignore-missing-args",
                "--exclude=build/",
                "--exclude=deps/",
                "--exclude=incremental/",
                "--exclude=.fingerprint/",
                "--include=/*/",
                "--include=/*/release/",
                "--include=/*/release/**",
                "--exclude=*",
                "-e",
                "ssh -p 2222",
                "me@box:/srv/r c/app-1/target/",
                "/home/me/app/target/",
            ]
        )
    );
    assert_eq!(
        plan.steps[0].command,
        command(
            "rsync",
            &[
                "-az",
                "--ignore-missing-args",
                "--exclude=build/",
                "--exclude=deps/",
                "--exclude=incremental/",
                "--exclude=.fingerprint/",
                "--include=*/",
                "--include=*.wasm",
                "--include=*.so",
                "--include=*.a",
                "--include=*",
                "-e",
                "ssh -p 2222",
                "me@box:/srv/r c/app-1/target/release/",
                "/home/me/app/target/release/",
            ]
        )
    );
    let plan = SshTransport::new(Config::default()).pull_artifacts("/", "k");
    assert_eq!(plan.target, "/target");
    assert_eq!(
        plan.steps[3].command.args[11..],
        strings(&["meta:~/rcargo-builds/k/target/wasm32-wasi/release/", "/target/wasm32-wasi/release/"])
    );
}

#[test]
fn both_transports_upload_and_pull_alike() {
    let ssh = Transport::Ssh(SshTransport::new(custom()));
    let wt = Transport::WebTransport(WebTransportTransport::new(custom(), "w".into(), 1));
    for progress in [SyncProgress::Start, SyncProgress::MadeDir(OK), SyncProgress::Copied(OK)] {
        assert_eq!(ssh.sync_up("/a", "k", progress), wt.sync_up("/a", "k", progress));
    }
    assert_eq!(ssh.pull_artifacts("/a", "k"), wt.pull_artifacts("/a", "k"));
    assert!(matches!(ssh.run_cargo("k", &[], BuildInput::Start), BuildStep::Spawn(_)));
    assert!(matches!(wt.run_cargo("k", &[], BuildInput::Start), BuildStep::Open { .. }));
}

#[test]
fn a_signal_counts_as_255() {
    assert_eq!(exit_code(None), 255);
    assert_eq!(exit_code(Some(-1)), -1);
    assert_eq!(exit_code(Some(0)), 0);
}

#[test]
fn what_is_left_behind_is_named_before_what_comes_back() {
    let plan = SshTransport::new(custom()).pull_artifacts("/home/me/app", "app-1");
    for step in &plan.steps {
        let at = |rule: &str| step.command.args.iter().position(|a| a == rule).unwrap();
        let first = step.command.args.iter().position(|a| a.starts_with("--include")).unwrap();
        for name in ["build/", "deps/", "incremental/", ".fingerprint/"] {
            assert!(at(&format!("--exclude={name}")) < first);
        }
    }
}

#[test]
fn steps_share_one_remote_directory() {
    let t = SshTransport::new(Config::default());
    let last = |c: CommandLine| c.args.last().unwrap().clone();
    match t.sync_up("/a", "k", SyncProgress::Start) {
        SyncStep::MakeDir(c) => assert_eq!(last(c), "mkdir -p ~/rcargo-builds/k"),
        other => panic!("got {other:?}"),
    }
    match t.sync_up("/a", "k", SyncProgress::MadeDir(OK)) {
        SyncStep::Copy(c) => assert_eq!(last(c), "meta:~/rcargo-builds/k/"),
        other => panic!("got {other:?}"),
    }
    match t.run_cargo("k", &[], BuildInput::Start) {
        BuildStep::Spawn(c) => assert_eq!(last(c), "cd ~/rcargo-builds/k && cargo"),
        other => panic!("got {other:?}"),
    }
    for step in t.pull_artifacts("/a", "k").steps {
        let args = step.command.args;
        assert!(args[args.len() - 2].starts_with("meta:~/rcargo-builds/k/target/"));
    }
}

fn lines(text: &str, ended: bool) -> (Vec<String>, String) {
    let mut bytes = text.as_bytes().to_vec();
    let mut out = vec![];
    while let Some(line) = take_line(&mut bytes, ended) {
        out.push(String::from_utf8(line).unwrap());
    }
    (out, String::from_utf8(bytes).unwrap())
}

#[test]
fn each_update_of_a_progress_bar_is_a_line() {
    assert_eq!(lines("1/3\r2/3\r3/3\r\ndone\n", false).0, vec!["1/3", "2/3", "3/3", "done"]);
    assert_eq!(lines("a\n\nb\r\r\nc", false), (strings(&["a", "", "b", ""]), "c".into()));
    assert_eq!(lines("a\n\nb\r\r\nc", true), (strings(&["a", "", "b", "", "c"]), "".into()));
    // A line feed may still follow the carriage return.
    assert_eq!(lines("1/3\r", false), (vec![], "1/3\r".into()));
    assert_eq!(lines("1/3\r", true), (strings(&["1/3"]), "".into()));
    assert_eq!(lines("", true), (vec![], "".into()));
    assert_eq!(lines("half", false), (vec![], "half".into()));
}
