//! Laws of a run.
use vstd::prelude::*;

use crate::cli::{CliErrorView, ParsedView, TransportChoice};
use crate::config::ConfigView;
use crate::run::{chosen_transport, configured, first_other, run_step, shown_list, status_for};
use crate::run::{ConfiguredView, RunInputView, RunStepView};
use crate::text::{decimal, is_blank, words};
use crate::transport::{TransportErrorView, TransportOutcome, TransportView};

verus! {

/// A build goes over ssh unless WebTransport is asked for. Then it goes to
/// `https://<host>:<port>/rcargo`, where the host is that of its flag wherever it is given, and else
/// the configured one, and the port is that of its flag wherever it is given, with a host or
/// without one, and else 7475. A program without WebTransport refuses.
pub proof fn law_transport_is_the_one_asked_for(
    parsed: ParsedView,
    cfg: ConfigView,
    webtransport: bool,
)
    ensures
        ({
            let chosen = chosen_transport(parsed, cfg, webtransport);
            let asked = parsed.transport_choice is WebTransport;
            &&& !asked ==> chosen == Ok::<TransportView, CliErrorView>(
                TransportView::Ssh { config: cfg },
            )
            &&& asked && !webtransport ==> chosen == Err::<TransportView, CliErrorView>(
                CliErrorView::NoWebTransport,
            )
            &&& asked && webtransport ==> {
                &&& chosen matches Ok(TransportView::WebTransport { config, address })
                &&& config == cfg
                &&& parsed.wt_host is Some && parsed.wt_port is Some ==> address == "https://"@
                    + parsed.wt_host->0 + ":"@ + decimal(parsed.wt_port->0 as nat) + "/rcargo"@
                &&& parsed.wt_host is None && parsed.wt_port is Some ==> address == "https://"@
                    + cfg.host + ":"@ + decimal(parsed.wt_port->0 as nat) + "/rcargo"@
                &&& parsed.wt_host is Some && parsed.wt_port is None ==> address == "https://"@
                    + parsed.wt_host->0 + ":"@ + decimal(7475) + "/rcargo"@
                &&& parsed.wt_host is None && parsed.wt_port is None ==> address == "https://"@
                    + cfg.host + ":"@ + decimal(7475) + "/rcargo"@
            }
        }),
{
}

/// A build uses the loaded configuration with what the flags set in its place, setting by setting;
/// where the root that this gives is blank or `/`, or its host is blank, there is no build.
pub proof fn law_flags_go_on_top(
    parsed: ParsedView,
    loaded: ConfigView,
    user_file: Option<Seq<char>>,
    project_file: Option<Seq<char>>,
    vars: Seq<Seq<char>>,
)
    requires
        !parsed.explain_config,
    ensures
        ({
            let out = configured(parsed, loaded, user_file, project_file, vars);
            let flags = parsed.cli_overrides;
            let host = if flags.host is Some {
                flags.host->0
            } else {
                loaded.host
            };
            let root = if flags.remote_root is Some {
                flags.remote_root->0
            } else {
                loaded.remote_root
            };
            &&& is_blank(root) || root == "/"@ ==> out == Err::<ConfiguredView, CliErrorView>(
                CliErrorView::Config("remote_root must not be empty or '/'"@),
            )
            &&& !is_blank(root) && root != "/"@ && is_blank(host) ==> out == Err::<
                ConfiguredView,
                CliErrorView,
            >(CliErrorView::Config("host must not be empty"@))
            &&& !is_blank(root) && root != "/"@ && !is_blank(host) ==> {
                &&& out matches Ok(ConfiguredView::Build(cfg))
                &&& cfg.host == host
                &&& cfg.remote_root == root
                &&& cfg.ssh_args == (if flags.ssh_args is Some {
                    words(flags.ssh_args->0)
                } else {
                    loaded.ssh_args
                })
                &&& cfg.rsync_args == (if flags.rsync_args is Some {
                    words(flags.rsync_args->0)
                } else {
                    loaded.rsync_args
                })
                &&& cfg.pull_artifacts == (if flags.pull_artifacts is Some {
                    flags.pull_artifacts->0
                } else {
                    loaded.pull_artifacts
                })
            }
        }),
{
}

/// The configuration that is explained is the one that the same command line builds with when it
/// does not ask for an explanation: every setting is shown as that build has it, with the sources
/// that there are. Where that build is refused, so is the explanation.
pub proof fn law_explanation_is_of_the_build(
    parsed: ParsedView,
    loaded: ConfigView,
    user_file: Option<Seq<char>>,
    project_file: Option<Seq<char>>,
    vars: Seq<Seq<char>>,
)
    ensures
        ({
            let asked = ParsedView { explain_config: true, ..parsed };
            let plain = ParsedView { explain_config: false, ..parsed };
            let shown = configured(asked, loaded, user_file, project_file, vars);
            let built = configured(plain, loaded, user_file, project_file, vars);
            &&& built is Err ==> shown == built
            &&& built is Ok ==> {
                &&& built matches Ok(ConfiguredView::Build(cfg))
                &&& shown matches Ok(ConfiguredView::Explain(text))
                &&& text == "rcargo effective config:\n"@ + ("  host          = "@ + cfg.host
                    + "\n"@) + ("  remote_root   = "@ + cfg.remote_root + "\n"@) + (
                "  ssh_args      = "@ + shown_list(cfg.ssh_args) + "\n"@) + ("  rsync_args    = "@
                    + shown_list(cfg.rsync_args) + "\n"@) + ("  pull_artifacts= "@ + (
                if cfg.pull_artifacts {
                    "true"@
                } else {
                    "false"@
                }) + "\n"@) + "sources:\n"@ + (if user_file is Some {
                    "  user file     = "@ + user_file->0 + "\n"@
                } else {
                    Seq::empty()
                }) + (if project_file is Some {
                    "  project file  = "@ + project_file->0 + "\n"@
                } else {
                    Seq::empty()
                }) + (if vars.len() > 0 {
                    "  env vars      = "@ + shown_list(vars) + "\n"@
                } else {
                    Seq::empty()
                })
            }
        }),
{
}

/// What a run begins with: help before the version, both before a local build, and that before a
/// remote one. A local build gets cargo's arguments, without a `--` in front of them, and the run
/// ends as it ended.
pub proof fn law_run_begins(
    parsed: ParsedView,
    webtransport: bool,
    args: Seq<Seq<char>>,
    code: i32,
)
    ensures
        ({
            let first = run_step(parsed, webtransport, RunInputView::Start);
            &&& parsed.print_help ==> first == RunStepView::Help
            &&& !parsed.print_help && parsed.print_version ==> first == RunStepView::Version
            &&& !parsed.print_help && !parsed.print_version && !parsed.local ==> first
                == RunStepView::Load
            &&& !parsed.print_help && !parsed.print_version && parsed.local ==> {
                &&& parsed.cargo_args == seq!["--"@] + args ==> first == RunStepView::Local(args)
                &&& parsed.cargo_args.len() == 0 || parsed.cargo_args[0] != "--"@ ==> first
                    == RunStepView::Local(parsed.cargo_args)
            }
        }),
        run_step(parsed, webtransport, RunInputView::LocalEnded(Some(code))) == RunStepView::Exit(
            code,
        ),
        run_step(parsed, webtransport, RunInputView::LocalEnded(None)) == RunStepView::Exit(255),
{
    assert((seq!["--"@] + args).drop_first() =~= args);
}

/// How a remote run goes on: from its configuration to the project's key, then, with a notice and
/// over the transport that was asked for, to the upload, the build, and the artifacts, where the
/// build succeeded and its configuration asks for them. Nothing but the exit code of the build is
/// the exit code of the run, and each failure ends it with its own text.
pub proof fn law_run_goes_on(
    parsed: ParsedView,
    webtransport: bool,
    cfg: ConfigView,
    user_file: Option<Seq<char>>,
    project_file: Option<Seq<char>>,
    vars: Seq<Seq<char>>,
    key: Seq<char>,
    outcome: TransportOutcome,
    why: Seq<char>,
    error: TransportErrorView,
)
    ensures
        run_step(parsed, webtransport, RunInputView::NotLoaded(why)) == RunStepView::Fail(
            CliErrorView::Load(why),
        ),
        ({
            let out = configured(parsed, cfg, user_file, project_file, vars);
            let step = run_step(
                parsed,
                webtransport,
                RunInputView::Loaded { cfg, user_file, project_file, vars },
            );
            &&& out is Err ==> step == RunStepView::Fail(out->Err_0)
            &&& out matches Ok(ConfiguredView::Explain(text)) ==> step == RunStepView::Explain(text)
            &&& out matches Ok(ConfiguredView::Build(c)) ==> step == RunStepView::Locate(c)
        }),
        ({
            let chosen = chosen_transport(parsed, cfg, webtransport);
            let step = run_step(parsed, webtransport, RunInputView::Located { cfg, key });
            &&& chosen is Err ==> step == RunStepView::Fail(chosen->Err_0)
            &&& chosen is Ok ==> {
                &&& step matches RunStepView::Sync { notice, transport }
                &&& transport == chosen->Ok_0
                &&& notice == "rcargo: host="@ + cfg.host + " project="@ + key + " (cd to ./"@ + key
                    + "/ on remote) transport="@ + (if parsed.transport_choice is Ssh {
                    "Ssh"@
                } else {
                    "WebTransport"@
                })
            }
        }),
        run_step(parsed, webtransport, RunInputView::Synced) == RunStepView::Build,
        cfg.pull_artifacts && outcome.exit_code == 0 ==> run_step(
            parsed,
            webtransport,
            RunInputView::Built { cfg, outcome },
        ) == RunStepView::Pull(outcome),
        !cfg.pull_artifacts || outcome.exit_code != 0 ==> run_step(
            parsed,
            webtransport,
            RunInputView::Built { cfg, outcome },
        ) == RunStepView::Exit(outcome.exit_code),
        run_step(parsed, webtransport, RunInputView::Pulled(outcome)) == RunStepView::Exit(
            outcome.exit_code,
        ),
        run_step(parsed, webtransport, RunInputView::Failed(error)) == RunStepView::Fail(
            CliErrorView::Transport(error),
        ),
        CliErrorView::Transport(error).text() == error.text(),
{
}

/// A local run starts the first program found that is not this one; there is none only where every
/// program found is this one.
pub proof fn law_local_cargo_is_another_program(
    found: Seq<Seq<char>>,
    own: Option<Seq<char>>,
    k: int,
)
    ensures
        first_other(found, own) matches Some(i) ==> {
            &&& 0 <= i < found.len()
            &&& own != Some(found[i])
            &&& 0 <= k < i ==> own == Some(found[k])
        },
        first_other(found, own) is None ==> (0 <= k < found.len() ==> own == Some(found[k])),
    decreases found.len(),
{
    if found.len() > 0 && own == Some(found[0]) {
        law_local_cargo_is_another_program(found.drop_first(), own, k - 1);
    }
}

/// The exit status is the exit code where that fits into a byte, and else 1.
pub proof fn law_exit_status(code: i32)
    ensures
        0 <= code <= 255 ==> status_for(code) == code,
        !(0 <= code <= 255) ==> status_for(code) == 1,
{
}

} // verus!
