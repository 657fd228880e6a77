use rcargo::cli::{parse_args, CliError, ParsedArgs};
use rcargo::config::{ConfigError, EnvVars, LayerFile};
use rcargo::run::{
    build_transport, configure, exit_status, explain_config, local_cargo, notice, run, run_local,
    Configured, RunInput, RunStep, DEFAULT_WT_PORT, HELP,
};
use rcargo::transport::{BuildInput, BuildStep, TransportError};
use rcargo::{Config, ConfigFile, ConfigSources, Transport, TransportOutcome};

fn parsed(args: &[&str]) -> ParsedArgs {
    let mut argv = vec!["rcargo".to_string()];
    argv.extend(args.iter().map(|s| s.to_string()));
    parse_args(&argv).unwrap()
}

fn strings(args: &[&str]) -> Vec<String> {
    args.iter().map(|s| s.to_string()).collect()
}

fn loaded(cfg: Config) -> Result<(Config, ConfigSources), ConfigError> {
    Ok((cfg, ConfigSources::default()))
}

fn url_of(t: &Transport) -> String {
    match t.run_cargo("k", &[], BuildInput::Start) {
        BuildStep::Open { url, .. } => url,
        other => panic!("got {other:?}"),
    }
}

#[test]
fn help_comes_before_version_and_version_before_local() {
    let all = parsed(&["--rcargo-help", "--rcargo-version", "--rcargo-local"]);
    assert!(matches!(run(&all, false, RunInput::Start), RunStep::Help));
    let two = parsed(&["--rcargo-version", "--rcargo-local"]);
    assert!(matches!(run(&two, false, RunInput::Start), RunStep::Version));
    match run(&parsed(&["--rcargo-local", "check"]), false, RunInput::Start) {
        RunStep::Local(args) => assert_eq!(args, vec!["check"]),
        _ => panic!("not local"),
    }
    assert!(matches!(run(&parsed(&["check"]), false, RunInput::Start), RunStep::Load));
    assert!(HELP.contains("USAGE:") && HELP.contains("--rcargo-local"));
}

#[test]
fn a_local_run_drops_one_separator() {
    assert_eq!(run_local(&strings(&["--", "test", "--", "x"])), vec!["test", "--", "x"]);
    assert_eq!(run_local(&strings(&["test", "--"])), vec!["test", "--"]);
    assert_eq!(run_local(&strings(&["--", "--"])), vec!["--"]);
    assert!(run_local(&[]).is_empty());
    let p = parsed(&["--rcargo-local"]);
    assert!(matches!(run(&p, false, RunInput::LocalEnded(Some(3))), RunStep::Exit(3)));
    assert!(matches!(run(&p, false, RunInput::LocalEnded(None)), RunStep::Exit(255)));
}

#[test]
fn a_build_goes_through_its_steps() {
    let p = parsed(&["--rcargo-host", "box", "--rcargo-pull-artifacts", "build"]);
    let cfg = match run(&p, false, RunInput::Loaded(loaded(Config::default()))) {
        RunStep::Locate(cfg) => cfg,
        _ => panic!("no build"),
    };
    assert_eq!(
        cfg,
        Config { host: "box".into(), pull_artifacts: true, ..Config::default() }
    );
    let located = RunInput::Located { cfg: cfg.clone(), key: "app-1".into() };
    match run(&p, false, located) {
        RunStep::Sync { notice, transport } => {
            assert_eq!(
                notice,
                "rcargo: host=box project=app-1 (cd to ./app-1/ on remote) transport=Ssh"
            );
            assert!(matches!(transport, Transport::Ssh(_)));
        }
        _ => panic!("no upload"),
    }
    assert!(matches!(run(&p, false, RunInput::Synced), RunStep::Build));
    let built = |cfg: &Config, exit_code| {
        let outcome = TransportOutcome { exit_code };
        run(&p, false, RunInput::Built { cfg: cfg.clone(), outcome })
    };
    match built(&cfg, 0) {
        RunStep::Pull(o) => assert!(matches!(run(&p, false, RunInput::Pulled(o)), RunStep::Exit(0))),
        _ => panic!("no artifacts"),
    }
    assert!(matches!(built(&cfg, 101), RunStep::Exit(101)));
    assert!(matches!(built(&Config::default(), 0), RunStep::Exit(0)));
}

#[test]
fn failures_end_the_run() {
    let p = parsed(&["build"]);
    let e = || ConfigError::Parse { path: "rcargo.toml".into(), cause: "bad".into() };
    match run(&p, false, RunInput::Loaded(Err(e()))) {
        RunStep::Fail(f) => {
            assert_eq!(f, CliError::Load(e()));
            assert_eq!(
                f.message(),
                "loading rcargo config (env + ./rcargo.toml + user file): parse rcargo.toml: bad"
            );
        }
        _ => panic!("no failure"),
    }
    match run(&p, false, RunInput::Failed(TransportError::Rsync { code: Some(23) })) {
        RunStep::Fail(f) => {
            assert_eq!(f, CliError::Transport(TransportError::Rsync { code: Some(23) }))
        }
        _ => panic!("no failure"),
    }
}

#[test]
fn unusable_configurations_are_refused() {
    let p = parsed(&["--rcargo-remote-root", "/", "--rcargo-explain-config"]);
    assert_eq!(
        configure(&p, loaded(Config::default())),
        Err(CliError::Config(ConfigError::RemoteRoot))
    );
    let p = parsed(&["--rcargo-host", " "]);
    assert_eq!(
        configure(&p, loaded(Config::default())),
        Err(CliError::Config(ConfigError::Host))
    );
    assert_eq!(
        configure(&parsed(&[]), loaded(Config::default())),
        Ok(Configured::Build(Config::default()))
    );
}

#[test]
fn the_configuration_is_explained() {
    let p = parsed(&["--rcargo-explain-config"]);
    match run(&p, false, RunInput::Loaded(loaded(Config::default()))) {
        RunStep::Explain(text) => assert_eq!(
            text,
            "rcargo effective config:\n  host          = meta\n  remote_root   = ~/rcargo-builds\n  ssh_args      = []\n  rsync_args    = []\n  pull_artifacts= false\nsources:\n"
        ),
        _ => panic!("no explanation"),
    }
}

#[test]
fn the_explanation_names_its_sources() {
    let env = EnvVars {
        host: Some("box".into()),
        remote_root: None,
        ssh_args: Some("-o \"q\" é".into()),
        rsync_args: None,
    };
    let file = |pull| LayerFile::Parsed(ConfigFile { pull_artifacts: pull, ..Default::default() });
    let got = Config::load(Some("/u.toml".into()), file(Some(true)), file(None), &env);
    let p = parsed(&["--rcargo-explain-config"]);
    assert_eq!(
        configure(&p, got),
        Ok(Configured::Explain(
            "rcargo effective config:\n  host          = box\n  remote_root   = ~/rcargo-builds\n  ssh_args      = [\"-o\", \"\\\"q\\\"\", \"é\"]\n  rsync_args    = []\n  pull_artifacts= true\nsources:\n  user file     = /u.toml\n  project file  = rcargo.toml\n  env vars      = [\"RCARGO_HOST\", \"RCARGO_SSH_ARGS\"]\n"
                .into()
        ))
    );
}

#[test]
fn lists_are_shown_as_they_are_given() {
    let sources = ConfigSources { env_vars_seen: vec!["X"], ..Default::default() };
    assert_eq!(
        explain_config(&Config::default(), &sources, "S", "R", "E"),
        "rcargo effective config:\n  host          = meta\n  remote_root   = ~/rcargo-builds\n  ssh_args      = S\n  rsync_args    = R\n  pull_artifacts= false\nsources:\n  env vars      = E\n"
    );
}

#[test]
fn the_transport_is_the_one_that_was_asked_for() {
    let cfg = Config { host: "box".into(), ..Config::default() };
    assert!(matches!(build_transport(&parsed(&[]), &cfg, false), Ok(Transport::Ssh(_))));
    assert!(matches!(build_transport(&parsed(&[]), &cfg, true), Ok(Transport::Ssh(_))));
    let p = parsed(&["--rcargo-transport", "wt"]);
    let t = build_transport(&p, &cfg, true).ok().unwrap();
    assert_eq!(DEFAULT_WT_PORT, 7475);
    assert_eq!(url_of(&t), "https://box:7475/rcargo");
    let p = parsed(&[
        "--rcargo-transport",
        "wt",
        "--rcargo-wt-host",
        "192.168.10.140",
        "--rcargo-wt-port",
        "0",
    ]);
    let t = build_transport(&p, &cfg, true).ok().unwrap();
    assert_eq!(url_of(&t), "https://192.168.10.140:0/rcargo");
    assert_eq!(
        notice(&p, &cfg, "k"),
        "rcargo: host=box project=k (cd to ./k/ on remote) transport=WebTransport"
    );
}

#[test]
fn without_webtransport_the_choice_is_refused() {
    let p = parsed(&["--rcargo-transport=wt"]);
    let e = build_transport(&p, &Config::default(), false).err().unwrap();
    assert_eq!(e, CliError::NoWebTransport);
    let located = RunInput::Located { cfg: Config::default(), key: "k".into() };
    match run(&p, false, located) {
        RunStep::Fail(f) => assert_eq!(f, CliError::NoWebTransport),
        _ => panic!("no failure"),
    }
}

#[test]
fn exit_codes_become_exit_statuses() {
    for code in [0, 1, 101, 255] {
        assert_eq!(i32::from(exit_status(code)), code);
    }
    for code in [-1, 256, 512, i32::MIN, i32::MAX] {
        assert_eq!(exit_status(code), 1);
    }
}

#[test]
fn a_local_run_never_starts_this_program() {
    let found = strings(&["/me/.local/bin/rcargo", "/usr/bin/cargo", "/opt/cargo"]);
    assert_eq!(local_cargo(&found, &Some("/me/.local/bin/rcargo".into())), Some(1));
    assert_eq!(local_cargo(&found, &Some("/elsewhere/rcargo".into())), Some(0));
    assert_eq!(local_cargo(&found, &None), Some(0));
    assert_eq!(local_cargo(&found[..1], &Some("/me/.local/bin/rcargo".into())), None);
    assert_eq!(local_cargo(&[], &None), None);
}
