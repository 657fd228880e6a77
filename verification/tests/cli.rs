use rcargo::cli::{parse_args, CliError, ParsedArgs, TransportChoice};
use rcargo::config::{ConfigError, ConfigFile};
use rcargo::text::PortError;
use rcargo::transport::TransportError;

fn strings(args: &[&str]) -> Vec<String> {
    args.iter().map(|s| s.to_string()).collect()
}

fn parse(args: &[&str]) -> Result<ParsedArgs, CliError> {
    let mut argv = vec!["rcargo".to_string()];
    argv.extend(strings(args));
    parse_args(&argv)
}

fn p(args: &[&str]) -> ParsedArgs {
    parse(args).unwrap()
}

#[test]
fn parses_rcargo_host() {
    let r = p(&["--rcargo-host", "buildbox", "test"]);
    assert_eq!(r.cli_overrides.host.as_deref(), Some("buildbox"));
    assert_eq!(r.cargo_args, vec!["test"]);
}

#[test]
fn pull_artifacts_flag() {
    let r = p(&["--rcargo-pull-artifacts", "build", "--release"]);
    assert!(r.pull_artifacts_flag);
    assert_eq!(r.cargo_args, vec!["build", "--release"]);
}

#[test]
fn double_dash_passthrough() {
    let r = p(&["test", "--", "--rcargo-host"]);
    // `--rcargo-host` behind an argument for cargo, or behind `--`, is cargo's.
    assert!(r.cargo_args.contains(&"--rcargo-host".to_string()));
}

#[test]
fn local_flag() {
    let r = p(&["--rcargo-local", "check"]);
    assert!(r.local);
    assert_eq!(r.cargo_args, vec!["check"]);
}

#[test]
fn unknown_rcargo_flag_errors() {
    let r = parse_args(&strings(&["rcargo", "--rcargo-bogus"]));
    assert!(r.is_err());
}

#[test]
fn cargo_flags_are_not_consumed() {
    // --release is cargo's.
    let r = p(&["build", "--release"]);
    assert!(r.cli_overrides.host.is_none());
    assert_eq!(r.cargo_args, vec!["build", "--release"]);
}

#[test]
fn no_arguments_ask_for_nothing() {
    assert_eq!(parse_args(&[]), Ok(ParsedArgs::default()));
    assert_eq!(p(&[]), ParsedArgs::default());
    let d = ParsedArgs::default();
    assert_eq!(d.transport_choice, TransportChoice::Ssh);
    assert_eq!(d.cli_overrides, ConfigFile::default());
    assert!(!d.local && !d.explain_config && !d.print_version && !d.print_help);
    assert!(!d.pull_artifacts_flag && d.cargo_args.is_empty());
    assert_eq!((d.wt_host, d.wt_port), (None, None));
}

#[test]
fn every_flag_is_read() {
    let r = p(&[
        "--rcargo-host",
        "h",
        "--rcargo-remote-root",
        "/r",
        "--rcargo-pull-artifacts",
        "--rcargo-transport",
        "webtransport",
        "--rcargo-wt-host",
        "w",
        "--rcargo-wt-port",
        "7476",
        "--rcargo-local",
        "--rcargo-explain-config",
        "--rcargo-version",
        "--rcargo-help",
        "check",
    ]);
    assert_eq!(
        r,
        ParsedArgs {
            cli_overrides: ConfigFile {
                host: Some("h".into()),
                remote_root: Some("/r".into()),
                pull_artifacts: Some(true),
                ..Default::default()
            },
            pull_artifacts_flag: true,
            local: true,
            explain_config: true,
            print_version: true,
            print_help: true,
            cargo_args: strings(&["check"]),
            transport_choice: TransportChoice::WebTransport,
            wt_host: Some("w".into()),
            wt_port: Some(7476),
        }
    );
}

#[test]
fn short_version_flag_in_front_is_rcargos() {
    assert!(p(&["-V"]).print_version);
    let r = p(&["build", "-V"]);
    assert!(!r.print_version);
    assert_eq!(r.cargo_args, vec!["build", "-V"]);
}

#[test]
fn separator_is_forwarded_with_all_behind_it() {
    let r = p(&["--rcargo-local", "--", "--rcargo-help", "-V"]);
    assert!(r.local && !r.print_help && !r.print_version);
    assert_eq!(r.cargo_args, vec!["--", "--rcargo-help", "-V"]);
}

#[test]
fn values_that_look_like_flags_are_values() {
    let r = p(&["--rcargo-host", "--rcargo-help"]);
    assert_eq!(r.cli_overrides.host.as_deref(), Some("--rcargo-help"));
    assert!(!r.print_help);
}

#[test]
fn later_flag_wins() {
    let r = p(&["--rcargo-host", "a", "--rcargo-host", "b"]);
    assert_eq!(r.cli_overrides.host.as_deref(), Some("b"));
}

#[test]
fn transport_is_named_in_two_forms() {
    for kind in ["ssh", "webtransport", "wt"] {
        let one = format!("--rcargo-transport={kind}");
        assert_eq!(parse(&[&one, "build"]), parse(&["--rcargo-transport", kind, "build"]));
    }
    assert_eq!(
        p(&["--rcargo-transport=webtransport"]).transport_choice,
        TransportChoice::WebTransport
    );
    assert_eq!(p(&["--rcargo-transport=ssh"]).transport_choice, TransportChoice::Ssh);
    assert_eq!(p(&["--rcargo-transport", "wt"]).transport_choice, TransportChoice::WebTransport);
}

#[test]
fn missing_values_are_refused() {
    for flag in [
        "--rcargo-host",
        "--rcargo-remote-root",
        "--rcargo-transport",
        "--rcargo-wt-host",
        "--rcargo-wt-port",
    ] {
        let e = parse(&[flag]).unwrap_err();
        assert_eq!(e, CliError::MissingValue { flag: flag.to_string() });
        assert_eq!(e.message(), format!("{flag} requires a value"));
    }
}

#[test]
fn unknown_transports_are_refused() {
    for args in [vec!["--rcargo-transport", "quic"], vec!["--rcargo-transport=quic"]] {
        let e = parse(&args).unwrap_err();
        assert_eq!(e, CliError::UnknownTransport { kind: "quic".into() });
        assert_eq!(
            e.message(),
            "unknown transport `quic` (expected `ssh` or `webtransport`)"
        );
    }
}

#[test]
fn unknown_flags_are_named() {
    let e = parse(&["--rcargo-local", "--rcargo-nonsense", "build"]).unwrap_err();
    assert_eq!(e, CliError::UnknownFlag { flag: "--rcargo-nonsense".into() });
    assert_eq!(e.message(), "unknown rcargo flag: --rcargo-nonsense");
    assert!(parse(&["--rcargo-"]).is_err());
    assert!(parse(&["--rcargo-hostx"]).is_err());
}

#[test]
fn bad_ports_are_refused() {
    let cases = [
        ("", PortError::Empty, "cannot parse integer from empty string"),
        ("x", PortError::InvalidDigit, "invalid digit found in string"),
        ("-1", PortError::InvalidDigit, "invalid digit found in string"),
        ("+", PortError::InvalidDigit, "invalid digit found in string"),
        ("65536", PortError::TooLarge, "number too large to fit in target type"),
    ];
    for (value, cause, why) in cases {
        let e = parse(&["--rcargo-wt-port", value]).unwrap_err();
        assert_eq!(e, CliError::BadPort { value: value.to_string(), cause });
        assert_eq!(e.message(), format!("--rcargo-wt-port `{value}` is not a u16: {why}"));
    }
}

#[test]
fn ports_are_read_as_std_reads_them() {
    for n in [0u16, 1, 9, 10, 80, 7475, 65535] {
        assert_eq!(p(&["--rcargo-wt-port", &n.to_string()]).wt_port, Some(n));
    }
    for s in ["", "+", "-", "+1", "-0", "007", "65535", "65536", "99999999999", "1 ", "1x", "99999x", "x99999", "٣"] {
        let ours = parse(&["--rcargo-wt-port", s]);
        match s.parse::<u16>() {
            Ok(n) => assert_eq!(ours.unwrap().wt_port, Some(n)),
            Err(e) => assert_eq!(
                ours.unwrap_err().message(),
                format!("--rcargo-wt-port `{s}` is not a u16: {e}")
            ),
        }
    }
}

#[test]
fn other_errors_have_their_texts() {
    assert_eq!(
        CliError::NoWebTransport.message(),
        "this rcargo build does not include the webtransport feature; rebuild with `cargo build --features webtransport -p rcargo-cli`"
    );
    assert_eq!(
        CliError::Load(ConfigError::Read { path: "p".into(), cause: "gone".into() }).message(),
        "loading rcargo config (env + ./rcargo.toml + user file): read p: gone"
    );
    assert_eq!(CliError::Config(ConfigError::Host).message(), "host must not be empty");
    assert_eq!(
        CliError::Transport(TransportError::StreamClosed).message(),
        "WT stream closed before daemon sent Exit"
    );
}
