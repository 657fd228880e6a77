//! Laws of the transport over `ssh` and `rsync`.
use vstd::prelude::*;

use crate::config::ConfigView;
use crate::shell::{quoted, quoted_path, shell_tokens, Token};
use crate::text::{joined, path_under, signed_decimal};
use crate::transport::ssh::{build_step, code_or_255, first_line, pull_plan, remote_cargo_cmd};
use crate::transport::ssh::{line_stop, sync_step};
use crate::transport::{BuildInputView, BuildStepView, ExitReport, SyncProgress, SyncStepView};
use crate::transport::{TransportErrorView, TransportOutcome, TransportView};

verus! {

/// Whether a shell puts the home directory in front of this path: `~`, or `~/` and more.
pub open spec fn is_under_home(path: Seq<char>) -> bool {
    path.len() > 0 && path[0] == '~' && (path.len() == 1 || path[1] == '/')
}

/// Whether a shell reads `line` as: change to `<root>/<key>`, and then run cargo with these
/// arguments, one word each, in order, and with no others.
pub open spec fn runs_cargo(
    line: Seq<char>,
    root: Seq<char>,
    key: Seq<char>,
    args: Seq<Seq<char>>,
) -> bool {
    &&& shell_tokens(line) matches Some(tokens)
    &&& tokens.len() == 4 + args.len()
    &&& tokens[0] == Token::Word { text: "cd"@, home: false }
    &&& tokens[1] == Token::Word { text: root + "/"@ + key, home: is_under_home(root) }
    &&& tokens[2] == Token::AndIf
    &&& tokens[3] == Token::Word { text: "cargo"@, home: false }
    &&& forall|i: int|
        0 <= i < args.len() ==> #[trigger] tokens[4 + i] == (Token::Word {
            text: args[i],
            home: false,
        })
}

/// A build over ssh runs, on the configured host and with the configured `ssh` arguments in front,
/// cargo in the directory of the project, with every argument that was given, as it was given, in
/// order, and with no other.
pub proof fn law_build_forwards_every_argument(
    cfg: ConfigView,
    key: Seq<char>,
    args: Seq<Seq<char>>,
)
    ensures
        ({
            let n = cfg.ssh_args.len() as int;
            &&& build_step(cfg, key, args, BuildInputView::Start) matches BuildStepView::Spawn(c)
            &&& c.program == "ssh"@
            &&& c.args.len() == n + 4
            &&& c.args.take(n) == cfg.ssh_args
            &&& c.args[n] == "-tt"@
            &&& c.args[n + 1] == cfg.host
            &&& c.args[n + 2] == "--"@
            &&& runs_cargo(c.args[n + 3], cfg.remote_root, key, args)
        }),
{
    let n = cfg.ssh_args.len() as int;
    let c = build_step(cfg, key, args, BuildInputView::Start)->Spawn_0;
    assert(c.args.take(n) =~= cfg.ssh_args);
    crate::transport::ssh::law_remote_command_reads_back(cfg.remote_root, key, args);
    let tokens = shell_tokens(c.args[n + 3])->0;
    assert forall|i: int| 0 <= i < args.len() implies #[trigger] tokens[4 + i] == (Token::Word {
        text: args[i],
        home: false,
    }) by {}
}

/// The line for the remote shell, character by character: one argument more adds a space and the
/// argument, quoted, and changes nothing else.
pub proof fn law_build_line_grows_by_arguments(
    root: Seq<char>,
    key: Seq<char>,
    args: Seq<Seq<char>>,
    last: Seq<char>,
)
    ensures
        runs_cargo(remote_cargo_cmd(root, key, args), root, key, args),
        remote_cargo_cmd(root, key, Seq::empty()) == "cd "@ + quoted_path(root) + "/"@ + quoted_path(
            key,
        ) + " && cargo"@,
        remote_cargo_cmd(root, key, args.push(last)) == remote_cargo_cmd(root, key, args) + " "@
            + quoted(last),
{
    crate::transport::ssh::law_remote_command_reads_back(root, key, args);
    let tokens = shell_tokens(remote_cargo_cmd(root, key, args))->0;
    assert forall|i: int| 0 <= i < args.len() implies #[trigger] tokens[4 + i] == (Token::Word {
        text: args[i],
        home: false,
    }) by {}
    assert(args.push(last).drop_last() =~= args);
    assert(remote_cargo_cmd(root, key, Seq::empty()) =~= "cd "@ + quoted_path(root) + "/"@
        + quoted_path(key) + " && cargo"@);
    assert(remote_cargo_cmd(root, key, args.push(last)) =~= remote_cargo_cmd(root, key, args) + " "@
        + quoted(last));
}

/// What `ssh` writes is passed on line by line, to the stream that it came from, and its exit code
/// is that of the build, or 255 where it has none. Nothing else happens in such a build.
pub proof fn law_build_output_is_passed_on(
    cfg: ConfigView,
    key: Seq<char>,
    args: Seq<Seq<char>>,
    line: Seq<char>,
    code: i32,
    input: BuildInputView,
)
    ensures
        build_step(cfg, key, args, BuildInputView::OutLine(line)) == BuildStepView::WriteOut(
            line + "\n"@,
        ),
        build_step(cfg, key, args, BuildInputView::ErrLine(line)) == BuildStepView::WriteErr(
            line + "\n"@,
        ),
        build_step(cfg, key, args, BuildInputView::Exited(Some(code))) == BuildStepView::Done(
            TransportOutcome { exit_code: code },
        ),
        build_step(cfg, key, args, BuildInputView::Exited(None)) == BuildStepView::Done(
            TransportOutcome { exit_code: 255 },
        ),
        input is Read || input is Decoded || input is Undecodable ==> build_step(
            cfg,
            key,
            args,
            input,
        ) == BuildStepView::Continue,
        code_or_255(Some(code)) == code,
        code_or_255(None) == 255,
{
}

/// The upload first makes the directory `<root>/<key>` on the configured host, with the configured
/// `ssh` arguments.
pub proof fn law_upload_makes_the_directory(
    cfg: ConfigView,
    local_root: Seq<char>,
    key: Seq<char>,
)
    ensures
        ({
            let n = cfg.ssh_args.len() as int;
            &&& sync_step(cfg, local_root, key, SyncProgress::Start) matches SyncStepView::MakeDir(c)
            &&& c.program == "ssh"@
            &&& c.args.len() == n + 3
            &&& c.args.take(n) == cfg.ssh_args
            &&& c.args[n] == cfg.host
            &&& c.args[n + 1] == "--"@
            &&& c.args[n + 2] == "mkdir -p "@ + quoted_path(cfg.remote_root) + "/"@ + quoted(key)
            &&& shell_tokens(c.args[n + 2]) == Some(
                seq![
                    Token::Word { text: "mkdir"@, home: false },
                    Token::Word { text: "-p"@, home: false },
                    Token::Word {
                        text: cfg.remote_root + "/"@ + key,
                        home: is_under_home(cfg.remote_root),
                    },
                ],
            )
        }),
{
    let n = cfg.ssh_args.len() as int;
    let c = sync_step(cfg, local_root, key, SyncProgress::Start)->MakeDir_0;
    assert(c.args.take(n) =~= cfg.ssh_args);
    crate::transport::ssh::law_remote_mkdir_reads_back(cfg.remote_root, key);
}

/// The upload then copies the tree: behind the arguments that keep `target/` and the names that are
/// never uploaded stand the user's own `rsync` arguments, all of them and in order, whatever else
/// is configured; then, where there are `ssh` arguments, those; then from where and where to.
pub proof fn law_upload_takes_the_users_arguments(
    cfg: ConfigView,
    local_root: Seq<char>,
    key: Seq<char>,
    exit: ExitReport,
)
    requires
        exit.success,
    ensures
        ({
            let r = 15 + cfg.rsync_args.len() as int;
            &&& sync_step(cfg, local_root, key, SyncProgress::MadeDir(exit)) matches SyncStepView::Copy(
                c,
            )
            &&& c.program == "rsync"@
            &&& c.args.take(15) == seq![
                "-az"@,
                "--delete"@,
                "--filter=protect target/"@,
                "--exclude"@,
                "target/"@,
                "--exclude"@,
                "node_modules/"@,
                "--exclude"@,
                ".DS_Store"@,
                "--exclude"@,
                "*.swp"@,
                "--exclude"@,
                ".env"@,
                "--exclude"@,
                ".env.local"@,
            ]
            &&& c.args.len() == r + (if cfg.ssh_args.len() > 0 {
                4int
            } else {
                2
            })
            &&& c.args.subrange(15, r) == cfg.rsync_args
            &&& cfg.ssh_args.len() == 0 ==> c.args.skip(r) == seq![
                local_root + "/"@,
                cfg.host + ":"@ + cfg.remote_root + "/"@ + key + "/"@,
            ]
            &&& cfg.ssh_args.len() > 0 ==> c.args.skip(r) == seq![
                "-e"@,
                "ssh "@ + joined(cfg.ssh_args, " "@),
                local_root + "/"@,
                cfg.host + ":"@ + cfg.remote_root + "/"@ + key + "/"@,
            ]
        }),
{
    let c = sync_step(cfg, local_root, key, SyncProgress::MadeDir(exit))->Copy_0;
    let r = 15 + cfg.rsync_args.len() as int;
    crate::transport::ssh::lemma_exclusions();
    assert(c.args.subrange(15, r) =~= cfg.rsync_args);
    if cfg.ssh_args.len() == 0 {
        assert(c.args.skip(r) =~= seq![
            local_root + "/"@,
            cfg.host + ":"@ + cfg.remote_root + "/"@ + key + "/"@,
        ]);
    } else {
        assert(c.args.skip(r) =~= seq![
            "-e"@,
            "ssh "@ + joined(cfg.ssh_args, " "@),
            local_root + "/"@,
            cfg.host + ":"@ + cfg.remote_root + "/"@ + key + "/"@,
        ]);
    }
}

/// The upload goes on exactly where the command before it succeeded, and else fails with its exit
/// code.
pub proof fn law_upload_stops_at_a_failure(
    cfg: ConfigView,
    local_root: Seq<char>,
    key: Seq<char>,
    exit: ExitReport,
)
    ensures
        exit.success ==> sync_step(cfg, local_root, key, SyncProgress::Copied(exit))
            == SyncStepView::Done,
        !exit.success ==> sync_step(cfg, local_root, key, SyncProgress::MadeDir(exit))
            == SyncStepView::Fail(TransportErrorView::Mkdir { code: exit.code, host: cfg.host }),
        !exit.success ==> sync_step(cfg, local_root, key, SyncProgress::Copied(exit))
            == SyncStepView::Fail(TransportErrorView::Rsync { code: exit.code }),
{
}

/// The artifacts come back from four directories, in this order: into the same place under the
/// local `target/`, by the same rules, from the tree of the project on the configured host.
pub proof fn law_pull_copies_each_directory(
    cfg: ConfigView,
    local_root: Seq<char>,
    key: Seq<char>,
    k: int,
)
    requires
        0 <= k < 4,
    ensures
        ({
            let dir = seq![
                "release/"@,
                "debug/"@,
                "wasm32-unknown-unknown/release/"@,
                "wasm32-wasi/release/"@,
            ][k];
            let plan = pull_plan(cfg, local_root, key);
            let step = plan.steps[k];
            let ends = seq![
                cfg.host + ":"@ + cfg.remote_root + "/"@ + key + "/"@ + "target/"@ + dir,
                step.dest,
            ];
            &&& plan.steps.len() == 5
            &&& plan.target == path_under(local_root, "target"@)
            &&& step.dest == path_under(plan.target, dir)
            &&& step.command.program == "rsync"@
            &&& step.command.args.take(11) == seq![
                "-az"@,
                "--ignore-missing-args"@,
                "--exclude=build/"@,
                "--exclude=deps/"@,
                "--exclude=incremental/"@,
                "--exclude=.fingerprint/"@,
                "--include=*/"@,
                "--include=*.wasm"@,
                "--include=*.so"@,
                "--include=*.a"@,
                "--include=*"@,
            ]
            &&& cfg.ssh_args.len() == 0 ==> step.command.args.skip(11) == ends
            &&& cfg.ssh_args.len() > 0 ==> step.command.args.skip(11) == seq![
                "-e"@,
                "ssh "@ + joined(cfg.ssh_args, " "@),
            ] + ends
        }),
{
    let dirs = seq![
        "release/"@,
        "debug/"@,
        "wasm32-unknown-unknown/release/"@,
        "wasm32-wasi/release/"@,
    ];
    let dir = dirs[k];
    assert(crate::transport::ssh::artifact_dirs()[k] == dir);
    let step = pull_plan(cfg, local_root, key).steps[k];
    let args = step.command.args;
    let ends = seq![
        cfg.host + ":"@ + cfg.remote_root + "/"@ + key + "/"@ + "target/"@ + dir,
        step.dest,
    ];
    if cfg.ssh_args.len() == 0 {
        assert(args.skip(11) =~= ends);
    } else {
        assert(args.skip(11) =~= seq!["-e"@, "ssh "@ + joined(cfg.ssh_args, " "@)] + ends);
    }
}

/// The artifacts of every target triple come back too, by one more copy from the whole of the
/// remote `target/` to the local one.
pub proof fn law_pull_copies_every_triple(cfg: ConfigView, local_root: Seq<char>, key: Seq<char>)
    ensures
        ({
            let plan = pull_plan(cfg, local_root, key);
            let step = plan.steps[4];
            let ends = seq![
                cfg.host + ":"@ + cfg.remote_root + "/"@ + key + "/"@ + "target/"@,
                plan.target + "/"@,
            ];
            &&& step.dest == plan.target
            &&& step.command.program == "rsync"@
            &&& step.command.args.take(10) == seq![
                "-azm"@,
                "--ignore-missing-args"@,
                "--exclude=build/"@,
                "--exclude=deps/"@,
                "--exclude=incremental/"@,
                "--exclude=.fingerprint/"@,
                "--include=/*/"@,
                "--include=/*/release/"@,
                "--include=/*/release/**"@,
                "--exclude=*"@,
            ]
            &&& cfg.ssh_args.len() == 0 ==> step.command.args.skip(10) == ends
            &&& cfg.ssh_args.len() > 0 ==> step.command.args.skip(10) == seq![
                "-e"@,
                "ssh "@ + joined(cfg.ssh_args, " "@),
            ] + ends
        }),
{
    let plan = pull_plan(cfg, local_root, key);
    let args = plan.steps[4].command.args;
    let ends = seq![
        cfg.host + ":"@ + cfg.remote_root + "/"@ + key + "/"@ + "target/"@,
        plan.target + "/"@,
    ];
    if cfg.ssh_args.len() == 0 {
        assert(args.skip(10) =~= ends);
    } else {
        assert(args.skip(10) =~= seq!["-e"@, "ssh "@ + joined(cfg.ssh_args, " "@)] + ends);
    }
}

/// What the user is told where a transport gives up.
pub proof fn law_transport_failures_say_why(code: i32, text: Seq<char>)
    ensures
        (TransportErrorView::Mkdir { code: Some(code), host: text }).text()
            == "ssh mkdir failed (status "@ + ("Some("@ + signed_decimal(code as int) + ")"@)
            + "). Is "@ + text + " reachable?"@,
        (TransportErrorView::Mkdir { code: None, host: text }).text()
            == "ssh mkdir failed (status "@ + "None"@ + "). Is "@ + text + " reachable?"@,
        (TransportErrorView::Rsync { code: Some(code) }).text() == "rsync failed (status "@ + (
        "Some("@ + signed_decimal(code as int) + ")"@)
            + ") — check that rsync is installed locally and remotely"@,
        (TransportErrorView::Rsync { code: None }).text() == "rsync failed (status "@ + "None"@
            + ") — check that rsync is installed locally and remotely"@,
        (TransportErrorView::Daemon { message: text }).text() == "rcargod error: "@ + text,
        TransportErrorView::StreamClosed.text() == "WT stream closed before daemon sent Exit"@,
{
}

/// Both transports have a configuration, and upload and pull by it; they differ in how they build.
pub proof fn law_transports_differ_in_the_build(
    config: ConfigView,
    address: Seq<char>,
    key: Seq<char>,
    args: Seq<Seq<char>>,
    input: BuildInputView,
)
    ensures
        (TransportView::Ssh { config }).config() == config,
        (TransportView::WebTransport { config, address }).config() == config,
        (TransportView::Ssh { config }).build_step(key, args, input) == build_step(
            config,
            key,
            args,
            input,
        ),
        (TransportView::WebTransport { config, address }).build_step(key, args, input)
            == crate::transport::webtransport::build_step(address, key, args, input),
{
}

/// A line ends at a line feed, at a carriage return, or at both; it is taken off as soon as it is
/// known where it ends, and at the end of the stream what is left is a line.
pub proof fn law_lines_end_at_either(line: Seq<u8>, next: u8, rest: Seq<u8>, ended: bool)
    requires
        forall|i: int| 0 <= i < line.len() ==> #[trigger] line[i] != 10 && line[i] != 13,
    ensures
        first_line(line + seq![10u8] + rest, ended) == Some((line, line.len() as int + 1)),
        first_line(line + seq![13u8, 10u8] + rest, ended) == Some((line, line.len() as int + 2)),
        next != 10 ==> first_line(line + seq![13u8, next] + rest, ended) == Some(
            (line, line.len() as int + 1),
        ),
        first_line(line.push(13u8), true) == Some((line, line.len() as int + 1)),
        first_line(line.push(13u8), false) is None,
        first_line(line, false) is None,
        line.len() > 0 ==> first_line(line, true) == Some((line, line.len() as int)),
        line.len() == 0 ==> first_line(line, true) is None,
{
    let n = line.len() as int;
    let a = line + seq![10u8] + rest;
    lemma_stop(line, seq![10u8] + rest);
    assert(a =~= line + (seq![10u8] + rest));
    assert(a.take(n) =~= line);
    let b = line + seq![13u8, 10u8] + rest;
    lemma_stop(line, seq![13u8, 10u8] + rest);
    assert(b =~= line + (seq![13u8, 10u8] + rest));
    assert(b.take(n) =~= line);
    let c = line + seq![13u8, next] + rest;
    lemma_stop(line, seq![13u8, next] + rest);
    assert(c =~= line + (seq![13u8, next] + rest));
    assert(c.take(n) =~= line);
    lemma_stop(line, seq![13u8]);
    assert(line.push(13u8) =~= line + seq![13u8]);
    assert(line.push(13u8).take(n) =~= line);
    lemma_stop(line, Seq::empty());
    assert(line + Seq::<u8>::empty() =~= line);
    assert(line.take(n) =~= line);
}

proof fn lemma_stop(line: Seq<u8>, rest: Seq<u8>)
    requires
        forall|i: int| 0 <= i < line.len() ==> #[trigger] line[i] != 10 && line[i] != 13,
        rest.len() > 0 ==> rest[0] == 10 || rest[0] == 13,
    ensures
        line_stop(line + rest) == line.len(),
    decreases line.len(),
{
    let s = line + rest;
    if line.len() == 0 {
        assert(s =~= rest);
    } else {
        let t = line.drop_first();
        assert forall|i: int| 0 <= i < t.len() implies #[trigger] t[i] != 10 && t[i] != 13 by {
            assert(t[i] == line[i + 1]);
        }
        assert(s[0] == line[0]);
        assert(s.drop_first() =~= t + rest);
        lemma_stop(t, rest);
    }
}

} // verus!
