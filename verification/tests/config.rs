use rcargo::config::{
    abs_display, apply_defaults, env_layer, merge_for_test, merge_layers, sanity_check, split_args,
    user_config_path, user_config_path_for_test, user_config_path_in, ConfigError, EnvVars, LayerFile,
};
use rcargo::{Config, ConfigFile, ConfigSources};

fn no_vars() -> EnvVars {
    EnvVars { host: None, remote_root: None, ssh_args: None, rsync_args: None }
}

#[test]
fn defaults_are_sane() {
    let c = Config::default();
    assert_eq!(c.host, "meta");
    assert_eq!(c.remote_root, "~/rcargo-builds");
    assert!(!c.pull_artifacts);
}

#[test]
fn cli_overrides_win() {
    let mut c = Config::default();
    c.apply_overrides(ConfigFile {
        host: Some("buildbox".into()),
        pull_artifacts: Some(true),
        ..Default::default()
    });
    assert_eq!(c.host, "buildbox");
    assert!(c.pull_artifacts);
    // Untouched fields keep defaults.
    assert_eq!(c.remote_root, "~/rcargo-builds");
}

#[test]
fn merge_precedence_later_wins() {
    let base = ConfigFile {
        host: Some("base".into()),
        remote_root: Some("/tmp/a".into()),
        ..Default::default()
    };
    let project = ConfigFile { host: Some("project".into()), ..Default::default() };
    let env = ConfigFile { host: Some("env".into()), ..Default::default() };
    let merged = merge_for_test(&[base, project, env]);
    assert_eq!(merged.host, "env");
    // remote_root falls through to the base layer.
    assert_eq!(merged.remote_root, "/tmp/a");
}

#[test]
fn sanity_rejects_root() {
    let c = Config { remote_root: "/".into(), ..Config::default() };
    assert!(sanity_check(&c).is_err());
}

#[test]
fn sanity_check_tells_what_is_wrong() {
    assert_eq!(sanity_check(&Config::default()), Ok(()));
    for root in ["", "  ", "\t\n", "/"] {
        let c = Config { remote_root: root.into(), host: "".into(), ..Config::default() };
        let e = sanity_check(&c).unwrap_err();
        assert_eq!(e, ConfigError::RemoteRoot);
        assert_eq!(e.message(), "remote_root must not be empty or '/'");
    }
    for host in ["", " \u{a0}"] {
        let c = Config { host: host.into(), ..Config::default() };
        let e = sanity_check(&c).unwrap_err();
        assert_eq!(e, ConfigError::Host);
        assert_eq!(e.message(), "host must not be empty");
    }
    let c = Config { remote_root: "//".into(), ..Config::default() };
    assert_eq!(sanity_check(&c), Ok(()));
}

#[test]
fn every_layer_counts_in_order() {
    let user = ConfigFile {
        host: Some("u".into()),
        remote_root: Some("/u".into()),
        ssh_args: Some("-u".into()),
        rsync_args: Some("--u".into()),
        pull_artifacts: Some(true),
    };
    let project = ConfigFile {
        host: Some("p".into()),
        remote_root: Some("/p".into()),
        ssh_args: Some("-p 1".into()),
        ..Default::default()
    };
    let env = EnvVars { host: Some("e".into()), remote_root: Some("/e".into()), ..no_vars() };
    let (mut cfg, sources) = Config::load(
        Some("/home/me/.config/rcargo/config.toml".into()),
        LayerFile::Parsed(user),
        LayerFile::Parsed(project),
        &env,
    )
    .unwrap();
    cfg.apply_overrides(ConfigFile { host: Some("c".into()), ..Default::default() });
    assert_eq!(
        cfg,
        Config {
            host: "c".into(),
            remote_root: "/e".into(),
            ssh_args: vec!["-p".into(), "1".into()],
            rsync_args: vec!["--u".into()],
            pull_artifacts: true,
        }
    );
    assert_eq!(sources.user_file.as_deref(), Some("/home/me/.config/rcargo/config.toml"));
    assert_eq!(sources.project_file.as_deref(), Some("rcargo.toml"));
    assert_eq!(sources.env_vars_seen, vec!["RCARGO_HOST", "RCARGO_REMOTE_ROOT"]);
}

#[test]
fn nothing_set_gives_the_defaults() {
    let (cfg, sources) =
        Config::load(Some("x".into()), LayerFile::Absent, LayerFile::Absent, &no_vars()).unwrap();
    assert_eq!(cfg, Config::default());
    assert_eq!((sources.user_file, sources.project_file), (None, None));
    assert!(sources.env_vars_seen.is_empty());
    assert_eq!(merge_for_test(&[]), Config::default());
    assert_eq!(apply_defaults(ConfigFile::default()), Config::default());
}

#[test]
fn without_a_user_path_there_is_no_user_file() {
    let (cfg, sources) = Config::load(
        None,
        LayerFile::Malformed("never read".into()),
        LayerFile::Absent,
        &no_vars(),
    )
    .unwrap();
    assert_eq!(cfg, Config::default());
    assert_eq!(sources.user_file, None);
}

#[test]
fn broken_files_are_errors() {
    let bad = || LayerFile::Unreadable("denied".into());
    let worse = || LayerFile::Malformed("line 1".into());
    let load = |u: LayerFile, p: LayerFile| {
        Config::load(Some("/u.toml".into()), u, p, &no_vars()).unwrap_err()
    };
    let e = load(bad(), worse());
    assert_eq!(e, ConfigError::Read { path: "/u.toml".into(), cause: "denied".into() });
    assert_eq!(e.message(), "read /u.toml: denied");
    let e = load(worse(), bad());
    assert_eq!(e, ConfigError::Parse { path: "/u.toml".into(), cause: "line 1".into() });
    assert_eq!(e.message(), "parse /u.toml: line 1");
    assert_eq!(
        load(LayerFile::Absent, bad()),
        ConfigError::Read { path: "rcargo.toml".into(), cause: "denied".into() }
    );
    assert_eq!(
        load(LayerFile::Parsed(ConfigFile::default()), worse()),
        ConfigError::Parse { path: "rcargo.toml".into(), cause: "line 1".into() }
    );
}

#[test]
fn env_layer_notes_what_it_saw() {
    let mut sources = ConfigSources::default();
    let env = EnvVars {
        host: Some("h".into()),
        remote_root: None,
        ssh_args: Some("".into()),
        rsync_args: Some("--x".into()),
    };
    let layer = env_layer(&env, &mut sources);
    assert_eq!(
        layer,
        ConfigFile {
            host: Some("h".into()),
            ssh_args: Some("".into()),
            rsync_args: Some("--x".into()),
            ..Default::default()
        }
    );
    assert_eq!(sources.env_vars_seen, vec!["RCARGO_HOST", "RCARGO_SSH_ARGS", "RCARGO_RSYNC_ARGS"]);
}

#[test]
fn an_empty_setting_is_a_setting() {
    let set = ConfigFile { ssh_args: Some("-v".into()), ..Default::default() };
    let unset = ConfigFile { ssh_args: Some("".into()), ..Default::default() };
    let cfg = merge_for_test(&[set, unset, ConfigFile::default()]);
    assert!(cfg.ssh_args.is_empty());
}

#[test]
fn overrides_compose() {
    let first = ConfigFile {
        host: Some("a".into()),
        remote_root: Some("/a".into()),
        ..Default::default()
    };
    let second = ConfigFile { host: Some("b".into()), ..Default::default() };
    let mut twice = Config::default();
    twice.apply_overrides(first.clone());
    twice.apply_overrides(second.clone());
    let mut once = Config::default();
    once.apply_overrides(merge_layers(&[first, second]));
    assert_eq!(twice, once);
    assert_eq!((twice.host.as_str(), twice.remote_root.as_str()), ("b", "/a"));
}

#[test]
fn args_are_split_on_white_space() {
    assert_eq!(split_args(" -o  A=b\t-v\n"), vec!["-o", "A=b", "-v"]);
    assert!(split_args(" \u{3000} ").is_empty());
    for s in ["", " ", "a", " a b ", "a\u{2028}b\u{a0}c", "x\u{200b}y", "--exclude='a b'"] {
        let std: Vec<String> = s.split_whitespace().map(str::to_string).collect();
        assert_eq!(split_args(s), std);
    }
}

#[test]
fn the_user_file_lies_in_the_config_directory() {
    assert_eq!(
        user_config_path_in(Some("/home/me/.config".into())).as_deref(),
        Some("/home/me/.config/rcargo/config.toml")
    );
    assert_eq!(user_config_path_in(Some("/".into())).as_deref(), Some("/rcargo/config.toml"));
    assert_eq!(user_config_path_in(None), None);
    let std = dirs::config_dir().map(|d| d.join("rcargo").join("config.toml"));
    assert_eq!(
        user_config_path_for_test(),
        std.map(|p| p.to_string_lossy().into_owned())
    );
    assert_eq!(user_config_path(), user_config_path_for_test());
}

#[test]
fn paths_are_shown_in_canonical_form_where_there_is_one() {
    assert_eq!(abs_display(Some("/a/b".into()), "b"), "/a/b");
    assert_eq!(abs_display(None, "b"), "b");
}
