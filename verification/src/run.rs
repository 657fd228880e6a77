//! A run of the program, from its command line to its exit status.
//!
//! [`run`] says what to do next; the caller does it and comes back with what came of it.
use vstd::prelude::*;

use crate::cli::{CliError, CliErrorView, ParsedArgs, ParsedView, TransportChoice};
use crate::config::{or_default, overridden, ConfigView};
use crate::config::{sanity_check, Config, ConfigError, ConfigSources};
use crate::text::{is_blank, opt_text, texts};
use crate::text::{copy_tail, put, same_text};
use crate::transport::ssh::{code_or_255, exit_code, SshTransport};
use crate::transport::webtransport::{session_url, WebTransportTransport};
use crate::transport::{Transport, TransportError, TransportOutcome};
use crate::transport::{TransportErrorView, TransportView};

verus! {

/// The port of the daemon's WebTransport listener where none is given.
pub const DEFAULT_WT_PORT: u16 = 7475;

/// What `--rcargo-help` shows.
pub const HELP: &'static str = r#"
rcargo — drop-in cargo replacement that runs cargo on a remote host.

USAGE:
    rcargo [RCARGO FLAGS] [--] <cargo args...>

RCARGO FLAGS:
    --rcargo-host <HOST>          Override RCARGO_HOST / config file host.
    --rcargo-remote-root <PATH>   Override remote root directory.
    --rcargo-pull-artifacts       After build, rsync target/release artifacts back.
    --rcargo-transport <KIND>     `ssh` (default) or `webtransport` (requires
                                  the binary to be built with `--features
                                  webtransport` and rcargod's `--wt-listen`).
    --rcargo-wt-host <HOST>       Host part of the WebTransport URL (default:
                                  same as --rcargo-host).
    --rcargo-wt-port <PORT>       Port of the WebTransport listener (default:
                                  7475 — distinct from the JSON-line 7474).
    --rcargo-local                Bypass rcargo entirely; exec local `cargo`.
    --rcargo-explain-config       Print effective config and exit.
    --rcargo-version              Print version and exit.
    --rcargo-help                 Show this help.

Everything else is forwarded to remote `cargo` verbatim. Examples:

    rcargo build --release
    rcargo test -p mycrate -- --nocapture
    rcargo --rcargo-pull-artifacts build --release
    rcargo --rcargo-local check        # run locally instead

ENV VARS:
    RCARGO_HOST              SSH destination (default: meta).
    RCARGO_REMOTE_ROOT       Parent dir on remote (default: ~/rcargo-builds).
    RCARGO_SSH_ARGS          Extra args for ssh, whitespace-split.
    RCARGO_RSYNC_ARGS        Extra args for rsync, whitespace-split.
    RCARGO_PROJECT_KEY       Override the derived project key.

See ~/.config/rcargo/config.toml or ./rcargo.toml for persistent config.
"#;

/// The arguments for a local `cargo`: without the `--` in front that ends rcargo's own flags.
pub open spec fn local_args(args: Seq<Seq<char>>) -> Seq<Seq<char>> {
    if args.len() > 0 && args[0] == "--"@ {
        args.drop_first()
    } else {
        args
    }
}

/// The arguments that a local `cargo` gets.
pub fn run_local(cargo_args: &[String]) -> (out: Vec<String>)
    ensures
        texts(out@) == local_args(texts(cargo_args@)),
{
    assert(texts(cargo_args@).skip(0) =~= texts(cargo_args@));
    assert(cargo_args.len() > 0 ==> texts(cargo_args@).skip(1) =~= texts(cargo_args@).drop_first());
    if cargo_args.len() > 0 && same_text(cargo_args[0].as_str(), "--") {
        copy_tail(cargo_args, 1)
    } else {
        copy_tail(cargo_args, 0)
    }
}

/// The index of the first of `found` that is not `own`.
pub open spec fn first_other(found: Seq<Seq<char>>, own: Option<Seq<char>>) -> Option<int>
    decreases found.len(),
{
    if found.len() == 0 {
        None
    } else if own != Some(found[0]) {
        Some(0)
    } else {
        match first_other(found.drop_first(), own) {
            Some(i) => Some(i + 1),
            None => None,
        }
    }
}

/// Which of the programs `cargo` that were found, in the order of the search path, a local run
/// starts: the first that is not this program, which may be installed under that name. Each is given
/// by its true path.
pub fn local_cargo(found: &[String], own: &Option<String>) -> (at: Option<usize>)
    ensures
        match first_other(texts(found@), opt_text(*own)) {
            Some(i) => at is Some && at->0 == i && i < found.len(),
            None => at is None,
        },
{
    let ghost all = texts(found@);
    let ghost me = opt_text(*own);
    let mut i: usize = 0;
    assert(all.skip(0) =~= all);
    while i < found.len()
        invariant
            all == texts(found@),
            me == opt_text(*own),
            i <= found.len(),
            first_other(all, me) == (match first_other(all.skip(i as int), me) {
                Some(n) => Some(n + i),
                None => None,
            }),
        decreases found.len() - i,
    {
        let ghost rest = all.skip(i as int);
        assert(rest[0] == found@[i as int]@);
        assert(rest.drop_first() =~= all.skip(i + 1));
        let is_own = match own {
            Some(path) => same_text(path.as_str(), found[i].as_str()),
            None => false,
        };
        if !is_own {
            return Some(i);
        }
        i += 1;
    }
    None
}

/// What `{:?}` shows of a list of strings.
pub uninterp spec fn shown_list(list: Seq<Seq<char>>) -> Seq<char>;

/// `std`'s `Debug` of a `Vec<String>`, through `format!`, shows the list for a programmer to read.
/// What it shows is named by [`shown_list`]; it depends on the strings alone.
#[verifier::external_body]
fn show_list(list: &Vec<String>) -> (out: String)
    ensures
        out@ == shown_list(texts(list@)),
{
    format!("{:?}", list)
}

/// A line of the explanation: a label and a value.
pub open spec fn shown_line(label: Seq<char>, value: Seq<char>) -> Seq<char> {
    label + value + "\n"@
}

/// A line of the explanation, where there is a value for it.
pub open spec fn shown_if(label: Seq<char>, value: Option<Seq<char>>) -> Seq<char> {
    match value {
        Some(v) => shown_line(label, v),
        None => Seq::empty(),
    }
}

/// The effective configuration and where it came from, for the user, with its lists shown as
/// `ssh_args` and `rsync_args`, and the variables, where there are any, as `vars`.
pub open spec fn explanation(
    cfg: ConfigView,
    ssh_args: Seq<char>,
    rsync_args: Seq<char>,
    user_file: Option<Seq<char>>,
    project_file: Option<Seq<char>>,
    vars: Option<Seq<char>>,
) -> Seq<char> {
    "rcargo effective config:\n"@ + shown_line("  host          = "@, cfg.host) + shown_line(
        "  remote_root   = "@,
        cfg.remote_root,
    ) + shown_line("  ssh_args      = "@, ssh_args) + shown_line(
        "  rsync_args    = "@,
        rsync_args,
    ) + shown_line(
        "  pull_artifacts= "@,
        if cfg.pull_artifacts {
            "true"@
        } else {
            "false"@
        },
    ) + "sources:\n"@ + shown_if("  user file     = "@, user_file) + shown_if(
        "  project file  = "@,
        project_file,
    ) + shown_if("  env vars      = "@, vars)
}

/// Add a line to an explanation.
fn put_line(out: &mut String, label: &str, value: &str)
    ensures
        final(out)@ == old(out)@ + shown_line(label@, value@),
{
    out.append(label);
    out.append(value);
    out.append("\n");
    assert(out@ =~= old(out)@ + shown_line(label@, value@));
}

/// Explain the effective configuration and where it came from. Its lists are shown as `ssh_args`
/// and `rsync_args`, the environment variables, where any were set, as `env_vars`.
pub fn explain_config(
    cfg: &Config,
    sources: &ConfigSources,
    ssh_args: &str,
    rsync_args: &str,
    env_vars: &str,
) -> (out: String)
    ensures
        out@ == explanation(
            cfg@,
            ssh_args@,
            rsync_args@,
            opt_text(sources.user_file),
            opt_text(sources.project_file),
            if sources.vars().len() > 0 {
                Some(env_vars@)
            } else {
                None
            },
        ),
{
    let mut out = "rcargo effective config:\n".to_owned();
    put_line(&mut out, "  host          = ", cfg.host.as_str());
    put_line(&mut out, "  remote_root   = ", cfg.remote_root.as_str());
    put_line(&mut out, "  ssh_args      = ", ssh_args);
    put_line(&mut out, "  rsync_args    = ", rsync_args);
    put_line(
        &mut out,
        "  pull_artifacts= ",
        if cfg.pull_artifacts {
            "true"
        } else {
            "false"
        },
    );
    out.append("sources:\n");
    if let Some(path) = &sources.user_file {
        put_line(&mut out, "  user file     = ", path.as_str());
    } else {
        assert(out@ + Seq::<char>::empty() =~= out@);
    }
    if let Some(path) = &sources.project_file {
        put_line(&mut out, "  project file  = ", path.as_str());
    } else {
        assert(out@ + Seq::<char>::empty() =~= out@);
    }
    if sources.env_vars_seen.len() > 0 {
        put_line(&mut out, "  env vars      = ", env_vars);
    } else {
        assert(out@ + Seq::<char>::empty() =~= out@);
    }
    out
}

/// What a run with a usable configuration does.
#[derive(Debug, PartialEq, Eq)]
pub enum Configured {
    /// Show this text, and end with success.
    Explain(String),
    /// Build with this configuration.
    Build(Config),
}

/// What a [`Configured`] holds.
pub enum ConfiguredView {
    Explain(Seq<char>),
    Build(ConfigView),
}

impl View for Configured {
    type V = ConfiguredView;

    open spec fn view(&self) -> ConfiguredView {
        match self {
            Configured::Explain(text) => ConfiguredView::Explain(text@),
            Configured::Build(cfg) => ConfiguredView::Build(cfg@),
        }
    }
}

/// Whether a build may use this configuration.
pub open spec fn is_usable(cfg: ConfigView) -> bool {
    !is_blank(cfg.remote_root) && cfg.remote_root != "/"@ && !is_blank(cfg.host)
}

/// What a run does with the configuration `loaded`, read from these sources.
pub open spec fn configured(
    parsed: ParsedView,
    loaded: ConfigView,
    user_file: Option<Seq<char>>,
    project_file: Option<Seq<char>>,
    vars: Seq<Seq<char>>,
) -> Result<ConfiguredView, CliErrorView> {
    let cfg = overridden(loaded, parsed.cli_overrides);
    if is_blank(cfg.remote_root) || cfg.remote_root == "/"@ {
        Err(CliErrorView::Config(ConfigError::RemoteRoot.text()))
    } else if is_blank(cfg.host) {
        Err(CliErrorView::Config(ConfigError::Host.text()))
    } else if parsed.explain_config {
        Ok(
            ConfiguredView::Explain(
                explanation(
                    cfg,
                    shown_list(cfg.ssh_args),
                    shown_list(cfg.rsync_args),
                    user_file,
                    project_file,
                    if vars.len() > 0 {
                        Some(shown_list(vars))
                    } else {
                        None
                    },
                ),
            ),
        )
    } else {
        Ok(ConfiguredView::Build(cfg))
    }
}

/// Say what a run does with the configuration that was loaded: the flags go on top, a
/// configuration that is not usable is refused, and what is left is explained or built with.
pub fn configure(
    parsed: &ParsedArgs,
    loaded: Result<(Config, ConfigSources), ConfigError>,
) -> (out: Result<Configured, CliError>)
    ensures
        match loaded {
            Ok((cfg, sources)) => match configured(
                parsed@,
                cfg@,
                opt_text(sources.user_file),
                opt_text(sources.project_file),
                sources.vars(),
            ) {
                Ok(c) => out is Ok && out->Ok_0@ == c,
                Err(e) => out is Err && out->Err_0@ == e,
            },
            Err(e) => out == Err::<Configured, CliError>(CliError::Load(e)),
        },
        out matches Ok(Configured::Build(cfg)) ==> is_usable(cfg@),
        out matches Ok(Configured::Build(cfg)) ==> cfg@ == overridden(
            loaded->Ok_0.0@,
            parsed.cli_overrides@,
        ),
        out matches Ok(Configured::Explain(text)) ==> {
            let cfg = overridden(loaded->Ok_0.0@, parsed.cli_overrides@);
            let head = "rcargo effective config:\n"@ + ("  host          = "@ + cfg.host + "\n"@) + (
            "  remote_root   = "@ + cfg.remote_root + "\n"@) + ("  ssh_args      = "@ + shown_list(
                cfg.ssh_args,
            ) + "\n"@) + ("  rsync_args    = "@ + shown_list(cfg.rsync_args) + "\n"@);
            head.is_prefix_of(text@)
        },
{
    match loaded {
        Err(e) => Err(CliError::Load(e)),
        Ok((found, sources)) => {
            let mut cfg = found;
            cfg.apply_overrides(parsed.cli_overrides.clone());
            if let Err(e) = sanity_check(&cfg) {
                return Err(CliError::Config(e));
            }
            if !parsed.explain_config {
                return Ok(Configured::Build(cfg));
            }
            let mut vars: Vec<String> = Vec::new();
            let mut i: usize = 0;
            assert(texts(vars@) =~= sources.vars().take(0));
            while i < sources.env_vars_seen.len()
                invariant
                    i <= sources.env_vars_seen.len(),
                    texts(vars@) == sources.vars().take(i as int),
                decreases sources.env_vars_seen.len() - i,
            {
                let ghost before = texts(vars@);
                put(&mut vars, sources.env_vars_seen[i]);
                i += 1;
                assert(before.push(sources.vars()[i - 1]) =~= sources.vars().take(i as int));
            }
            assert(sources.vars().take(i as int) =~= sources.vars());
            let ssh_args = show_list(&cfg.ssh_args);
            let rsync_args = show_list(&cfg.rsync_args);
            let env_vars = show_list(&vars);
            Ok(
                Configured::Explain(
                    explain_config(
                        &cfg,
                        &sources,
                        ssh_args.as_str(),
                        rsync_args.as_str(),
                        env_vars.as_str(),
                    ),
                ),
            )
        },
    }
}

/// The transport that the flags and the configuration choose, in a program built with WebTransport
/// or without it.
pub open spec fn chosen_transport(
    parsed: ParsedView,
    cfg: ConfigView,
    webtransport: bool,
) -> Result<TransportView, CliErrorView> {
    match parsed.transport_choice {
        TransportChoice::Ssh => Ok(TransportView::Ssh { config: cfg }),
        TransportChoice::WebTransport => if webtransport {
            Ok(
                TransportView::WebTransport {
                    config: cfg,
                    address: session_url(
                        or_default(parsed.wt_host, cfg.host),
                        or_default(parsed.wt_port, DEFAULT_WT_PORT),
                    ),
                },
            )
        } else {
            Err(CliErrorView::NoWebTransport)
        },
    }
}

/// The transport that the flags and the configuration choose. A program built without WebTransport
/// refuses that choice; it does not fall back to ssh.
pub fn build_transport(parsed: &ParsedArgs, cfg: &Config, webtransport: bool) -> (out: Result<
    Transport,
    CliError,
>)
    ensures
        match chosen_transport(parsed@, cfg@, webtransport) {
            Ok(t) => out is Ok && out->Ok_0@ == t,
            Err(e) => out is Err && out->Err_0@ == e,
        },
        out matches Ok(Transport::WebTransport(t)) ==> t.address() == session_url(
            if parsed.wt_host is Some {
                parsed.wt_host->0@
            } else {
                cfg.host@
            },
            if parsed.wt_port is Some {
                parsed.wt_port->0
            } else {
                7475
            },
        ),
{
    match parsed.transport_choice {
        TransportChoice::Ssh => Ok(Transport::Ssh(SshTransport::new(cfg.clone()))),
        TransportChoice::WebTransport => {
            if !webtransport {
                return Err(CliError::NoWebTransport);
            }
            let wt_host = match &parsed.wt_host {
                Some(host) => host.clone(),
                None => cfg.host.clone(),
            };
            let wt_port: u16 = match parsed.wt_port {
                Some(port) => port,
                None => DEFAULT_WT_PORT,
            };
            Ok(
                Transport::WebTransport(
                    WebTransportTransport::new(cfg.clone(), wt_host, wt_port),
                ),
            )
        },
    }
}

/// The notice of a build.
pub open spec fn build_notice(host: Seq<char>, key: Seq<char>, choice: TransportChoice) -> Seq<
    char,
> {
    "rcargo: host="@ + host + " project="@ + key + " (cd to ./"@ + key
        + "/ on remote) transport="@ + choice.name()
}

/// The notice that a build begins with.
pub fn notice(parsed: &ParsedArgs, cfg: &Config, key: &str) -> (out: String)
    ensures
        out@ == build_notice(cfg@.host, key@, parsed@.transport_choice),
{
    let mut out = "rcargo: host=".to_owned();
    out.append(cfg.host.as_str());
    out.append(" project=");
    out.append(key);
    out.append(" (cd to ./");
    out.append(key);
    out.append("/ on remote) transport=");
    out.append(
        match parsed.transport_choice {
            TransportChoice::Ssh => "Ssh",
            TransportChoice::WebTransport => "WebTransport",
        },
    );
    out
}

/// What has been done in a run.
pub enum RunInput {
    /// Nothing yet.
    Start,
    /// The local `cargo` ended, with this exit code unless a signal ended it.
    LocalEnded(Option<i32>),
    /// The configuration was loaded, or could not be.
    Loaded(Result<(Config, ConfigSources), ConfigError>),
    /// The project has this key; the build uses this configuration.
    Located { cfg: Config, key: String },
    /// The sources are on the remote host.
    Synced,
    /// The remote build is over; it used this configuration.
    Built { cfg: Config, outcome: TransportOutcome },
    /// The artifacts of this build have been copied back.
    Pulled(TransportOutcome),
    /// The transport gave up.
    Failed(TransportError),
}

/// What a [`RunInput`] holds.
pub enum RunInputView {
    Start,
    LocalEnded(Option<i32>),
    Loaded {
        cfg: ConfigView,
        user_file: Option<Seq<char>>,
        project_file: Option<Seq<char>>,
        vars: Seq<Seq<char>>,
    },
    NotLoaded(Seq<char>),
    Located { cfg: ConfigView, key: Seq<char> },
    Synced,
    Built { cfg: ConfigView, outcome: TransportOutcome },
    Pulled(TransportOutcome),
    Failed(TransportErrorView),
}

impl View for RunInput {
    type V = RunInputView;

    open spec fn view(&self) -> RunInputView {
        match self {
            RunInput::Start => RunInputView::Start,
            RunInput::LocalEnded(code) => RunInputView::LocalEnded(*code),
            RunInput::Loaded(Ok((cfg, sources))) => RunInputView::Loaded {
                cfg: cfg@,
                user_file: opt_text(sources.user_file),
                project_file: opt_text(sources.project_file),
                vars: sources.vars(),
            },
            RunInput::Loaded(Err(e)) => RunInputView::NotLoaded(e.text()),
            RunInput::Located { cfg, key } => RunInputView::Located { cfg: cfg@, key: key@ },
            RunInput::Synced => RunInputView::Synced,
            RunInput::Built { cfg, outcome } => RunInputView::Built { cfg: cfg@, outcome: *outcome },
            RunInput::Pulled(outcome) => RunInputView::Pulled(*outcome),
            RunInput::Failed(e) => RunInputView::Failed(e@),
        }
    }
}

/// What a run needs next.
pub enum RunStep {
    /// Show [`HELP`], and end with success.
    Help,
    /// Show the version, and end with success.
    Version,
    /// Run the local `cargo` with these arguments.
    Local(Vec<String>),
    /// Load the configuration.
    Load,
    /// Show this text, and end with success.
    Explain(String),
    /// Find the key of the project, for a build with this configuration.
    Locate(Config),
    /// Show the notice, and send the sources up over this transport, which the rest of the run
    /// uses too.
    Sync { notice: String, transport: Transport },
    /// Run `cargo` on the remote host.
    Build,
    /// Copy the artifacts of this build back.
    Pull(TransportOutcome),
    /// End with this exit code.
    Exit(i32),
    /// Give up.
    Fail(CliError),
}

/// What a [`RunStep`] holds.
pub enum RunStepView {
    Help,
    Version,
    Local(Seq<Seq<char>>),
    Load,
    Explain(Seq<char>),
    Locate(ConfigView),
    Sync { notice: Seq<char>, transport: TransportView },
    Build,
    Pull(TransportOutcome),
    Exit(i32),
    Fail(CliErrorView),
}

impl View for RunStep {
    type V = RunStepView;

    open spec fn view(&self) -> RunStepView {
        match self {
            RunStep::Help => RunStepView::Help,
            RunStep::Version => RunStepView::Version,
            RunStep::Local(args) => RunStepView::Local(texts(args@)),
            RunStep::Load => RunStepView::Load,
            RunStep::Explain(text) => RunStepView::Explain(text@),
            RunStep::Locate(cfg) => RunStepView::Locate(cfg@),
            RunStep::Sync { notice, transport } => RunStepView::Sync {
                notice: notice@,
                transport: transport@,
            },
            RunStep::Build => RunStepView::Build,
            RunStep::Pull(outcome) => RunStepView::Pull(*outcome),
            RunStep::Exit(code) => RunStepView::Exit(*code),
            RunStep::Fail(e) => RunStepView::Fail(e@),
        }
    }
}

/// What a run needs next. Help goes before the version, and both before a local build; a remote
/// build needs a usable configuration and a transport, and its artifacts come back only where they
/// are asked for and it succeeded. The run ends as its build did.
pub open spec fn run_step(
    parsed: ParsedView,
    webtransport: bool,
    input: RunInputView,
) -> RunStepView {
    match input {
        RunInputView::Start => if parsed.print_help {
            RunStepView::Help
        } else if parsed.print_version {
            RunStepView::Version
        } else if parsed.local {
            RunStepView::Local(local_args(parsed.cargo_args))
        } else {
            RunStepView::Load
        },
        RunInputView::LocalEnded(code) => RunStepView::Exit(code_or_255(code)),
        RunInputView::NotLoaded(why) => RunStepView::Fail(CliErrorView::Load(why)),
        RunInputView::Loaded { cfg, user_file, project_file, vars } => match configured(
            parsed,
            cfg,
            user_file,
            project_file,
            vars,
        ) {
            Ok(ConfiguredView::Explain(text)) => RunStepView::Explain(text),
            Ok(ConfiguredView::Build(cfg)) => RunStepView::Locate(cfg),
            Err(e) => RunStepView::Fail(e),
        },
        RunInputView::Located { cfg, key } => match chosen_transport(parsed, cfg, webtransport) {
            Ok(t) => RunStepView::Sync {
                notice: build_notice(cfg.host, key, parsed.transport_choice),
                transport: t,
            },
            Err(e) => RunStepView::Fail(e),
        },
        RunInputView::Synced => RunStepView::Build,
        RunInputView::Built { cfg, outcome } => if cfg.pull_artifacts && outcome.exit_code == 0 {
            RunStepView::Pull(outcome)
        } else {
            RunStepView::Exit(outcome.exit_code)
        },
        RunInputView::Pulled(outcome) => RunStepView::Exit(outcome.exit_code),
        RunInputView::Failed(e) => RunStepView::Fail(CliErrorView::Transport(e)),
    }
}

/// Say what a run needs next, in a program built with WebTransport or without it.
pub fn run(parsed: &ParsedArgs, webtransport: bool, input: RunInput) -> (step: RunStep)
    ensures
        step@ == run_step(parsed@, webtransport, input@),
        input matches RunInput::Built { cfg, outcome } ==> step@ == (if cfg.pull_artifacts
            && outcome.exit_code == 0 {
            RunStepView::Pull(outcome)
        } else {
            RunStepView::Exit(outcome.exit_code)
        }),
        input matches RunInput::LocalEnded(Some(code)) ==> step@ == RunStepView::Exit(code),
        input is Start && parsed.local && !parsed.print_help && !parsed.print_version ==> step
            is Local,
{
    match input {
        RunInput::Start => {
            if parsed.print_help {
                RunStep::Help
            } else if parsed.print_version {
                RunStep::Version
            } else if parsed.local {
                RunStep::Local(run_local(parsed.cargo_args.as_slice()))
            } else {
                RunStep::Load
            }
        },
        RunInput::LocalEnded(code) => RunStep::Exit(exit_code(code)),
        RunInput::Loaded(loaded) => {
            match configure(parsed, loaded) {
                Ok(Configured::Explain(text)) => RunStep::Explain(text),
                Ok(Configured::Build(cfg)) => RunStep::Locate(cfg),
                Err(e) => RunStep::Fail(e),
            }
        },
        RunInput::Located { cfg, key } => {
            match build_transport(parsed, &cfg, webtransport) {
                Ok(transport) => RunStep::Sync {
                    notice: notice(parsed, &cfg, key.as_str()),
                    transport,
                },
                Err(e) => RunStep::Fail(e),
            }
        },
        RunInput::Synced => RunStep::Build,
        RunInput::Built { cfg, outcome } => {
            if cfg.pull_artifacts && outcome.exit_code == 0 {
                RunStep::Pull(outcome)
            } else {
                RunStep::Exit(outcome.exit_code)
            }
        },
        RunInput::Pulled(outcome) => RunStep::Exit(outcome.exit_code),
        RunInput::Failed(e) => RunStep::Fail(CliError::Transport(e)),
    }
}

/// The exit status of the program that stands for an exit code.
pub open spec fn status_for(code: i32) -> u8 {
    if 0 <= code <= 255 {
        code as u8
    } else {
        1
    }
}

/// The exit status of the program: the exit code where it fits, else 1.
pub fn exit_status(code: i32) -> (status: u8)
    ensures
        status == status_for(code),
{
    if 0 <= code && code <= 255 {
        code as u8
    } else {
        1
    }
}

/// What happens in a remote build that nothing stops: the configuration is loaded, the project has
/// a key, the sources go up, and the build ends with `outcome`.
pub open spec fn build_inputs(
    cfg: ConfigView,
    loaded: RunInputView,
    key: Seq<char>,
    outcome: TransportOutcome,
) -> Seq<RunInputView> {
    seq![
        RunInputView::Start,
        loaded,
        RunInputView::Located { cfg: cfg, key: key },
        RunInputView::Synced,
        RunInputView::Built { cfg: cfg, outcome: outcome },
    ]
}

/// A remote build that nothing stops goes through its steps in order: the configuration with the
/// flags on top, the key, the sources, the build; then the artifacts, where they are asked for and
/// the build succeeded, and else the end, with the exit code of the build.
pub proof fn law_build_runs_in_order(
    parsed: ParsedView,
    webtransport: bool,
    loaded: RunInputView,
    key: Seq<char>,
    outcome: TransportOutcome,
)
    requires
        !parsed.print_help && !parsed.print_version && !parsed.local && !parsed.explain_config,
        loaded is Loaded,
        is_usable(overridden(loaded->Loaded_cfg, parsed.cli_overrides)),
        parsed.transport_choice is WebTransport ==> webtransport,
    ensures
        ({
            let cfg = overridden(loaded->Loaded_cfg, parsed.cli_overrides);
            let inputs = build_inputs(cfg, loaded, key, outcome);
            let steps = Seq::new(5, |i: int| run_step(parsed, webtransport, inputs[i]));
            &&& steps[0] == RunStepView::Load
            &&& steps[1] == RunStepView::Locate(cfg)
            &&& steps[2] is Sync
            &&& steps[2]->transport.config() == cfg
            &&& steps[3] == RunStepView::Build
            &&& steps[4] == (if cfg.pull_artifacts && outcome.exit_code == 0 {
                RunStepView::Pull(outcome)
            } else {
                RunStepView::Exit(outcome.exit_code)
            })
            &&& run_step(parsed, webtransport, RunInputView::Pulled(outcome)) == RunStepView::Exit(
                outcome.exit_code,
            )
        }),
{
}

/// A run that is to be local begins with the local `cargo`, or with help or the version, and ends
/// when it ends: it needs neither the configuration nor the remote host.
pub proof fn law_local_stays_local(parsed: ParsedView, webtransport: bool, code: Option<i32>)
    requires
        parsed.local,
    ensures
        run_step(parsed, webtransport, RunInputView::Start) == (if parsed.print_help {
            RunStepView::Help
        } else if parsed.print_version {
            RunStepView::Version
        } else {
            RunStepView::Local(local_args(parsed.cargo_args))
        }),
        run_step(parsed, webtransport, RunInputView::LocalEnded(code)) is Exit,
{
}

/// An exit code from 0 to 255 is the exit status, and a run that fails never ends as a success.
pub proof fn law_failure_is_not_hidden(code: i32)
    ensures
        0 <= code <= 255 ==> status_for(code) == code,
        code != 0 <==> status_for(code) != 0,
{
}

} // verus!
