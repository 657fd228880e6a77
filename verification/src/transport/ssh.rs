//! Transport over the system's `rsync` and `ssh`. The remote host needs a working cargo toolchain
//! and rsync, and no daemon.
use vstd::prelude::*;

pub use crate::shell::{shell_quote, shell_quote_path};

use crate::config::{Config, ConfigView};
use crate::laws::ssh::{law_build_forwards_every_argument, runs_cargo};
use crate::laws::ssh::law_upload_takes_the_users_arguments;
use crate::shell::{is_home_path, plain_word, quoted, quoted_path, shell_tokens, Reading, Token};
use crate::text::{join, join_path, joined, path_under, put, put_all, texts};
use crate::transport::{BuildInput, BuildInputView, BuildStep, BuildStepView};
use crate::transport::{CommandLine, CommandView, PullPlan, PullPlanView, PullStep, PullStepView};
use crate::transport::{SyncProgress, SyncStep, SyncStepView};
use crate::transport::{TransportError, TransportErrorView, TransportOutcome};

verus! {

/// Transport over `ssh` and `rsync`.
pub struct SshTransport {
    cfg: Config,
}

/// The command line that a remote shell gets for a build: change to the project's tree, then run
/// cargo with each argument quoted.
pub open spec fn remote_cargo_cmd(root: Seq<char>, key: Seq<char>, args: Seq<Seq<char>>) -> Seq<
    char,
> {
    "cd "@ + quoted_path(root) + "/"@ + quoted_path(key) + " && cargo"@ + quoted_args(args)
}

/// The arguments, each quoted and behind a space.
pub open spec fn quoted_args(args: Seq<Seq<char>>) -> Seq<char>
    decreases args.len(),
{
    if args.len() == 0 {
        Seq::empty()
    } else {
        quoted_args(args.drop_last()) + " "@ + quoted(args.last())
    }
}

/// The command line that a remote shell gets to make a project's tree.
pub open spec fn remote_mkdir_cmd(root: Seq<char>, key: Seq<char>) -> Seq<char> {
    "mkdir -p "@ + quoted_path(root) + "/"@ + quoted(key)
}

/// What is never uploaded.
pub open spec fn excluded() -> Seq<Seq<char>> {
    seq!["target/"@, "node_modules/"@, ".DS_Store"@, "*.swp"@, ".env"@, ".env.local"@]
}

/// The `rsync` arguments that exclude each of `names`.
pub open spec fn exclusions(names: Seq<Seq<char>>) -> Seq<Seq<char>>
    decreases names.len(),
{
    if names.len() == 0 {
        Seq::empty()
    } else {
        exclusions(names.drop_last()).push("--exclude"@).push(names.last())
    }
}

/// The `rsync` arguments that make it use the same `ssh` arguments.
pub open spec fn remote_shell(ssh_args: Seq<Seq<char>>) -> Seq<Seq<char>> {
    if ssh_args.len() == 0 {
        Seq::empty()
    } else {
        seq!["-e"@, "ssh "@ + joined(ssh_args, " "@)]
    }
}

/// The command that makes a project's tree on the remote host.
pub open spec fn mkdir_command(cfg: ConfigView, key: Seq<char>) -> CommandView {
    CommandView {
        program: "ssh"@,
        args: cfg.ssh_args + seq![cfg.host, "--"@, remote_mkdir_cmd(cfg.remote_root, key)],
    }
}

/// A project's tree on the remote host, as `rsync` takes it.
pub open spec fn remote_tree(cfg: ConfigView, key: Seq<char>) -> Seq<char> {
    cfg.host + ":"@ + cfg.remote_root + "/"@ + key + "/"@
}

/// The command that copies the sources to the remote host.
pub open spec fn upload_command(cfg: ConfigView, local_root: Seq<char>, key: Seq<char>) -> CommandView {
    CommandView {
        program: "rsync"@,
        args: seq!["-az"@, "--delete"@, "--filter=protect target/"@] + exclusions(excluded())
            + cfg.rsync_args + remote_shell(cfg.ssh_args) + seq![
            local_root + "/"@,
            remote_tree(cfg, key),
        ],
    }
}

/// What the upload of the sources needs next.
pub open spec fn sync_step(
    cfg: ConfigView,
    local_root: Seq<char>,
    key: Seq<char>,
    progress: SyncProgress,
) -> SyncStepView {
    match progress {
        SyncProgress::Start => SyncStepView::MakeDir(mkdir_command(cfg, key)),
        SyncProgress::MadeDir(exit) => if exit.success {
            SyncStepView::Copy(upload_command(cfg, local_root, key))
        } else {
            SyncStepView::Fail(TransportErrorView::Mkdir { code: exit.code, host: cfg.host })
        },
        SyncProgress::Copied(exit) => if exit.success {
            SyncStepView::Done
        } else {
            SyncStepView::Fail(TransportErrorView::Rsync { code: exit.code })
        },
    }
}

/// The command that runs a build on the remote host.
pub open spec fn build_command(cfg: ConfigView, key: Seq<char>, args: Seq<Seq<char>>) -> CommandView {
    CommandView {
        program: "ssh"@,
        args: cfg.ssh_args + seq![
            "-tt"@,
            cfg.host,
            "--"@,
            remote_cargo_cmd(cfg.remote_root, key, args),
        ],
    }
}

/// The exit code of a program: 255 where a signal ended it.
pub open spec fn code_or_255(code: Option<i32>) -> i32 {
    match code {
        Some(n) => n,
        None => 255,
    }
}

/// What a build over `ssh` needs next. What only a session with the daemon can bring asks for
/// nothing.
pub open spec fn build_step(
    cfg: ConfigView,
    key: Seq<char>,
    args: Seq<Seq<char>>,
    input: BuildInputView,
) -> BuildStepView {
    match input {
        BuildInputView::Start => BuildStepView::Spawn(build_command(cfg, key, args)),
        BuildInputView::OutLine(line) => BuildStepView::WriteOut(line + "\n"@),
        BuildInputView::ErrLine(line) => BuildStepView::WriteErr(line + "\n"@),
        BuildInputView::Exited(code) => BuildStepView::Done(
            TransportOutcome { exit_code: code_or_255(code) },
        ),
        _ => BuildStepView::Continue,
    }
}

/// The directories under `target/` that artifacts are copied back from, the most useful first.
pub open spec fn artifact_dirs() -> Seq<Seq<char>> {
    seq!["release/"@, "debug/"@, "wasm32-unknown-unknown/release/"@, "wasm32-wasi/release/"@]
}

/// The `rsync` rules that leave on the remote host what only its own toolchain can use.
pub open spec fn left_behind() -> Seq<Seq<char>> {
    seq![
        "--exclude=build/"@,
        "--exclude=deps/"@,
        "--exclude=incremental/"@,
        "--exclude=.fingerprint/"@,
    ]
}

/// The `rsync` rules that name what is copied back.
pub open spec fn brought_back() -> Seq<Seq<char>> {
    seq![
        "--include=*/"@,
        "--include=*.wasm"@,
        "--include=*.so"@,
        "--include=*.a"@,
        "--include=*"@,
    ]
}

/// How to copy back the artifacts of one directory under `target/`. `rsync` takes the first rule
/// that matches, so what is left behind is named first.
pub open spec fn pull_step(cfg: ConfigView, target: Seq<char>, key: Seq<char>, dir: Seq<char>) -> PullStepView {
    let dest = path_under(target, dir);
    PullStepView {
        dest: dest,
        command: CommandView {
            program: "rsync"@,
            args: seq!["-az"@, "--ignore-missing-args"@] + left_behind() + brought_back()
                + remote_shell(cfg.ssh_args) + seq![remote_tree(cfg, key) + "target/"@ + dir, dest],
        },
    }
}

/// The `rsync` rules, over the whole of `target/`, that copy back the release directory of every
/// target triple and nothing else.
pub open spec fn every_release() -> Seq<Seq<char>> {
    seq!["--include=/*/"@, "--include=/*/release/"@, "--include=/*/release/**"@, "--exclude=*"@]
}

/// How to copy back the release directory of every target triple: `target/*/release/`.
pub open spec fn pull_triples(cfg: ConfigView, target: Seq<char>, key: Seq<char>) -> PullStepView {
    PullStepView {
        dest: target,
        command: CommandView {
            program: "rsync"@,
            args: seq!["-azm"@, "--ignore-missing-args"@] + left_behind() + every_release()
                + remote_shell(cfg.ssh_args) + seq![
                remote_tree(cfg, key) + "target/"@,
                target + "/"@,
            ],
        },
    }
}

/// How to copy the artifacts back: those of each of the common directories, then those of the
/// release directory of every target triple.
pub open spec fn pull_plan(cfg: ConfigView, local_root: Seq<char>, key: Seq<char>) -> PullPlanView {
    let target = path_under(local_root, "target"@);
    PullPlanView {
        target: target,
        steps: Seq::new(4, |i: int| pull_step(cfg, target, key, artifact_dirs()[i])).push(
            pull_triples(cfg, target, key),
        ),
    }
}

/// Add the `rsync` arguments that exclude `name`.
fn exclude(args: &mut Vec<String>, name: &str)
    ensures
        texts(final(args)@) == texts(old(args)@).push("--exclude"@).push(name@),
{
    put(args, "--exclude");
    put(args, name);
}

/// Add the `rsync` rules that leave on the remote host what only its own toolchain can use.
fn add_left_behind(args: &mut Vec<String>)
    ensures
        texts(final(args)@) == texts(old(args)@) + left_behind(),
{
    put(args, "--exclude=build/");
    put(args, "--exclude=deps/");
    put(args, "--exclude=incremental/");
    put(args, "--exclude=.fingerprint/");
    assert(texts(args@) =~= texts(old(args)@) + left_behind());
}

/// Add the `rsync` arguments that make it use the same `ssh` arguments.
fn add_remote_shell(args: &mut Vec<String>, ssh_args: &Vec<String>)
    ensures
        texts(final(args)@) == texts(old(args)@) + remote_shell(texts(ssh_args@)),
{
    if ssh_args.len() > 0 {
        put(args, "-e");
        let mut rsh = "ssh ".to_owned();
        rsh.append(join(ssh_args, " ").as_str());
        put(args, rsh.as_str());
    }
    assert(texts(args@) =~= texts(old(args)@) + remote_shell(texts(ssh_args@)));
}

impl SshTransport {
    /// The configuration of the transport.
    pub closed spec fn config(&self) -> ConfigView {
        self.cfg@
    }

    /// A transport with this configuration.
    pub fn new(cfg: Config) -> (t: Self)
        ensures
            t.config() == cfg@,
    {
        SshTransport { cfg }
    }

    /// What the upload of the tree at `local_root` needs next: make the remote directory, then
    /// copy the sources. `target/` is not copied, and the remote one is kept.
    pub fn sync_up(&self, local_root: &str, project_key: &str, progress: SyncProgress) -> (step:
        SyncStep)
        ensures
            step@ == sync_step(self.config(), local_root@, project_key@, progress),
            progress matches SyncProgress::MadeDir(exit) ==> exit.success ==> {
                let n = self.config().rsync_args.len() as int;
                &&& step@ is Copy
                &&& step@->Copy_0.args.len() > 15 + n
                &&& step@->Copy_0.args.subrange(15, 15 + n) == self.config().rsync_args
            },
    {
        proof {
            if let SyncProgress::MadeDir(exit) = progress {
                if exit.success {
                    law_upload_takes_the_users_arguments(
                        self.config(),
                        local_root@,
                        project_key@,
                        exit,
                    );
                }
            }
        }
        match progress {
            SyncProgress::Start => SyncStep::MakeDir(self.mkdir(project_key)),
            SyncProgress::MadeDir(exit) => {
                if exit.success {
                    SyncStep::Copy(self.upload(local_root, project_key))
                } else {
                    SyncStep::Fail(
                        TransportError::Mkdir { code: exit.code, host: self.cfg.host.clone() },
                    )
                }
            },
            SyncProgress::Copied(exit) => {
                if exit.success {
                    SyncStep::Done
                } else {
                    SyncStep::Fail(TransportError::Rsync { code: exit.code })
                }
            },
        }
    }

    /// The command that makes the project's tree on the remote host.
    fn mkdir(&self, project_key: &str) -> (command: CommandLine)
        ensures
            command@ == mkdir_command(self.config(), project_key@),
    {
        let mut line = "mkdir -p ".to_owned();
        line.append(shell_quote_path(self.cfg.remote_root.as_str()).as_str());
        line.append("/");
        line.append(shell_quote(project_key).as_str());
        let mut args: Vec<String> = Vec::new();
        put_all(&mut args, self.cfg.ssh_args.as_slice());
        put(&mut args, self.cfg.host.as_str());
        put(&mut args, "--");
        put(&mut args, line.as_str());
        assert(texts(args@) =~= mkdir_command(self.config(), project_key@).args);
        CommandLine { program: "ssh".to_owned(), args: args }
    }

    /// The project's tree on the remote host, as `rsync` takes it.
    fn remote_dir(&self, project_key: &str) -> (dir: String)
        ensures
            dir@ == remote_tree(self.config(), project_key@),
    {
        let mut dir = self.cfg.host.clone();
        dir.append(":");
        dir.append(self.cfg.remote_root.as_str());
        dir.append("/");
        dir.append(project_key);
        dir.append("/");
        dir
    }

    /// The command that copies the sources to the remote host.
    fn upload(&self, local_root: &str, project_key: &str) -> (command: CommandLine)
        ensures
            command@ == upload_command(self.config(), local_root@, project_key@),
    {
        let mut args: Vec<String> = Vec::new();
        put(&mut args, "-az");
        put(&mut args, "--delete");
        put(&mut args, "--filter=protect target/");
        let ghost head = texts(args@);
        assert(head =~= seq!["-az"@, "--delete"@, "--filter=protect target/"@]);
        exclude(&mut args, "target/");
        exclude(&mut args, "node_modules/");
        exclude(&mut args, ".DS_Store");
        exclude(&mut args, "*.swp");
        exclude(&mut args, ".env");
        exclude(&mut args, ".env.local");
        proof {
            lemma_exclusions();
            assert(texts(args@) =~= head + exclusions(excluded()));
        }
        put_all(&mut args, self.cfg.rsync_args.as_slice());
        add_remote_shell(&mut args, &self.cfg.ssh_args);
        let mut source = local_root.to_owned();
        source.append("/");
        put(&mut args, source.as_str());
        put(&mut args, self.remote_dir(project_key).as_str());
        assert(texts(args@) =~= upload_command(self.config(), local_root@, project_key@).args);
        CommandLine { program: "rsync".to_owned(), args: args }
    }

    /// What `cargo <args>` on the remote host needs next. The lines that `ssh` writes are passed
    /// on, and its exit code is that of the build.
    pub fn run_cargo(&self, project_key: &str, args: &[String], input: BuildInput) -> (step:
        BuildStep)
        ensures
            step@ == build_step(self.config(), project_key@, texts(args@), input@),
            input@ is Start ==> step@ is Spawn && runs_cargo(
                step@->Spawn_0.args.last(),
                self.config().remote_root,
                project_key@,
                texts(args@),
            ),
    {
        proof {
            law_build_forwards_every_argument(self.config(), project_key@, texts(args@));
        }
        match input {
            BuildInput::Start => {
                let line = build_remote_cargo_cmd(self.cfg.remote_root.as_str(), project_key, args);
                let mut words: Vec<String> = Vec::new();
                put_all(&mut words, self.cfg.ssh_args.as_slice());
                put(&mut words, "-tt");
                put(&mut words, self.cfg.host.as_str());
                put(&mut words, "--");
                put(&mut words, line.as_str());
                assert(texts(words@) =~= build_command(
                    self.config(),
                    project_key@,
                    texts(args@),
                ).args);
                BuildStep::Spawn(CommandLine { program: "ssh".to_owned(), args: words })
            },
            BuildInput::OutLine(line) => {
                let mut text = line;
                text.append("\n");
                BuildStep::WriteOut(text)
            },
            BuildInput::ErrLine(line) => {
                let mut text = line;
                text.append("\n");
                BuildStep::WriteErr(text)
            },
            BuildInput::Exited(code) => BuildStep::Done(
                TransportOutcome { exit_code: exit_code(code) },
            ),
            _ => BuildStep::Continue,
        }
    }

    /// How to copy the artifacts back to the tree at `local_root`: those of `target/release/`, of
    /// the release directory of every target triple, and of a few more directories.
    pub fn pull_artifacts(&self, local_root: &str, project_key: &str) -> (plan: PullPlan)
        ensures
            plan@ == pull_plan(self.config(), local_root@, project_key@),
    {
        let target = join_path(local_root, "target");
        let mut steps: Vec<PullStep> = Vec::new();
        steps.push(self.pull(target.as_str(), project_key, "release/"));
        steps.push(self.pull(target.as_str(), project_key, "debug/"));
        steps.push(self.pull(target.as_str(), project_key, "wasm32-unknown-unknown/release/"));
        steps.push(self.pull(target.as_str(), project_key, "wasm32-wasi/release/"));
        steps.push(self.pull_triples(target.as_str(), project_key));
        let plan = PullPlan { target: target, steps: steps };
        assert(plan@ =~= pull_plan(self.config(), local_root@, project_key@));
        plan
    }

    /// How to copy back the artifacts of one directory under `target/`.
    fn pull(&self, target: &str, project_key: &str, dir: &str) -> (step: PullStep)
        ensures
            step@ == pull_step(self.config(), target@, project_key@, dir@),
    {
        let mut source = self.remote_dir(project_key);
        source.append("target/");
        source.append(dir);
        let dest = join_path(target, dir);
        let mut args: Vec<String> = Vec::new();
        put(&mut args, "-az");
        put(&mut args, "--ignore-missing-args");
        add_left_behind(&mut args);
        put(&mut args, "--include=*/");
        put(&mut args, "--include=*.wasm");
        put(&mut args, "--include=*.so");
        put(&mut args, "--include=*.a");
        put(&mut args, "--include=*");
        add_remote_shell(&mut args, &self.cfg.ssh_args);
        put(&mut args, source.as_str());
        put(&mut args, dest.as_str());
        assert(texts(args@) =~= pull_step(
            self.config(),
            target@,
            project_key@,
            dir@,
        ).command.args);
        PullStep { dest: dest, command: CommandLine { program: "rsync".to_owned(), args: args } }
    }

    /// How to copy back the release directory of every target triple.
    fn pull_triples(&self, target: &str, project_key: &str) -> (step: PullStep)
        ensures
            step@ == pull_triples(self.config(), target@, project_key@),
    {
        let mut source = self.remote_dir(project_key);
        source.append("target/");
        let mut dest = target.to_owned();
        dest.append("/");
        let mut args: Vec<String> = Vec::new();
        put(&mut args, "-azm");
        put(&mut args, "--ignore-missing-args");
        add_left_behind(&mut args);
        put(&mut args, "--include=/*/");
        put(&mut args, "--include=/*/release/");
        put(&mut args, "--include=/*/release/**");
        put(&mut args, "--exclude=*");
        add_remote_shell(&mut args, &self.cfg.ssh_args);
        put(&mut args, source.as_str());
        put(&mut args, dest.as_str());
        assert(texts(args@) =~= pull_triples(self.config(), target@, project_key@).command.args);
        PullStep {
            dest: target.to_owned(),
            command: CommandLine { program: "rsync".to_owned(), args: args },
        }
    }
}

/// The exit code of a program: 255 where a signal ended it.
pub fn exit_code(code: Option<i32>) -> (out: i32)
    ensures
        out == code_or_255(code),
{
    match code {
        Some(n) => n,
        None => 255,
    }
}

/// Compose the command line for the remote shell: change to the project's tree and run cargo with
/// `args`. The root and the key go through [`shell_quote_path`], so that a leading `~/` stays an
/// unquoted tilde; the arguments go through [`shell_quote`].
pub fn build_remote_cargo_cmd(remote_root: &str, project_key: &str, args: &[String]) -> (cmd:
    String)
    ensures
        cmd@ == remote_cargo_cmd(remote_root@, project_key@, texts(args@)),
{
    let mut cmd = "cd ".to_owned();
    cmd.append(shell_quote_path(remote_root).as_str());
    cmd.append("/");
    cmd.append(shell_quote_path(project_key).as_str());
    cmd.append(" && cargo");
    let ghost head = cmd@;
    let mut i: usize = 0;
    assert(head + quoted_args(texts(args@).take(0)) =~= head);
    while i < args.len()
        invariant
            i <= args.len(),
            cmd@ == head + quoted_args(texts(args@).take(i as int)),
        decreases args.len() - i,
    {
        let ghost before = cmd@;
        cmd.append(" ");
        cmd.append(shell_quote(args[i].as_str()).as_str());
        i += 1;
        assert(texts(args@).take(i as int).drop_last() =~= texts(args@).take(i - 1));
        assert(cmd@ =~= head + quoted_args(texts(args@).take(i as int)));
    }
    assert(texts(args@).take(i as int) =~= texts(args@));
    cmd
}

/// The index of the first line feed or carriage return of `bytes`, or its length.
pub open spec fn line_stop(bytes: Seq<u8>) -> nat
    decreases bytes.len(),
{
    if bytes.len() > 0 && bytes[0] != 10 && bytes[0] != 13 {
        1 + line_stop(bytes.drop_first())
    } else {
        0
    }
}

/// The first line of `bytes`, and how many bytes it takes with its end, where it is complete. A line
/// ends at a line feed, at a carriage return, or at both, one behind the other; so each update of a
/// progress bar is a line. What is left at the end of a stream is a line too. A carriage return that
/// stands last completes a line only at the end of the stream, for a line feed may follow it.
pub open spec fn first_line(bytes: Seq<u8>, ended: bool) -> Option<(Seq<u8>, int)> {
    let n = line_stop(bytes) as int;
    let line = bytes.take(n);
    if n >= bytes.len() {
        if ended && n > 0 {
            Some((line, n))
        } else {
            None
        }
    } else if bytes[n] == 10 {
        Some((line, n + 1))
    } else if n + 1 < bytes.len() {
        Some((
            line,
            if bytes[n + 1] == 10 {
                n + 2
            } else {
                n + 1
            },
        ))
    } else if ended {
        Some((line, n + 1))
    } else {
        None
    }
}

/// Take the first line off what a program has written so far, where it is complete. The line is
/// handed out without its end; `bytes` keeps what follows it.
pub fn take_line(bytes: &mut Vec<u8>, ended: bool) -> (line: Option<Vec<u8>>)
    ensures
        match first_line(old(bytes)@, ended) {
            Some((l, n)) => {
                &&& line is Some
                &&& line->0@ == l
                &&& final(bytes)@ == old(bytes)@.skip(n)
            },
            None => line is None && final(bytes)@ == old(bytes)@,
        },
{
    let ghost all = bytes@;
    let mut n: usize = 0;
    assert(all.skip(0) =~= all);
    while n < bytes.len() && bytes[n] != 10 && bytes[n] != 13
        invariant
            bytes@ == all,
            n <= bytes.len(),
            line_stop(all) == n + line_stop(all.skip(n as int)),
        decreases bytes.len() - n,
    {
        assert(all.skip(n as int).drop_first() =~= all.skip(n + 1));
        n += 1;
    }
    assert(line_stop(all) == n);
    let mut end: usize = n;
    if n >= bytes.len() {
        if !ended || n == 0 {
            return None;
        }
    } else if bytes[n] == 10 {
        end = n + 1;
    } else if n + 1 < bytes.len() {
        end = if bytes[n + 1] == 10 {
            n + 2
        } else {
            n + 1
        };
    } else if ended {
        end = n + 1;
    } else {
        return None;
    }
    let line = copy_bytes(bytes, 0, n);
    let rest = copy_bytes(bytes, end, bytes.len());
    assert(line@ =~= all.take(n as int));
    assert(rest@ =~= all.skip(end as int));
    *bytes = rest;
    Some(line)
}

/// Copy the bytes from `from` on, up to and without `to`.
fn copy_bytes(bytes: &Vec<u8>, from: usize, to: usize) -> (out: Vec<u8>)
    requires
        from <= to <= bytes.len(),
    ensures
        out@ == bytes@.subrange(from as int, to as int),
{
    let mut out: Vec<u8> = Vec::new();
    let mut i: usize = from;
    while i < to
        invariant
            from <= i <= to <= bytes.len(),
            out@ == bytes@.subrange(from as int, i as int),
        decreases to - i,
    {
        out.push(bytes[i]);
        i += 1;
        assert(out@ =~= bytes@.subrange(from as int, i as int));
    }
    out
}

/// The arguments that exclude what is never uploaded, written out.
pub proof fn lemma_exclusions()
    ensures
        exclusions(excluded()) == seq![
            "--exclude"@,
            "target/"@,
            "--exclude"@,
            "node_modules/"@,
            "--exclude"@,
            ".DS_Store"@,
            "--exclude"@,
            "*.swp"@,
            "--exclude"@,
            ".env"@,
            "--exclude"@,
            ".env.local"@,
        ],
{
    let e = excluded();
    reveal_with_fuel(exclusions, 7);
    assert(e.drop_last() =~= seq!["target/"@, "node_modules/"@, ".DS_Store"@, "*.swp"@, ".env"@]);
    assert(e.drop_last().drop_last() =~= seq!["target/"@, "node_modules/"@, ".DS_Store"@, "*.swp"@]);
    assert(e.drop_last().drop_last().drop_last() =~= seq![
        "target/"@,
        "node_modules/"@,
        ".DS_Store"@,
    ]);
    assert(e.drop_last().drop_last().drop_last().drop_last() =~= seq!["target/"@, "node_modules/"@]);
    assert(e.drop_last().drop_last().drop_last().drop_last().drop_last() =~= seq!["target/"@]);
    assert(e.drop_last().drop_last().drop_last().drop_last().drop_last().drop_last()
        =~= Seq::empty());
}

/// The words that the arguments of a build are to a shell.
pub open spec fn argument_words(args: Seq<Seq<char>>) -> Seq<Token> {
    Seq::new(args.len(), |i: int| plain_word(args[i]))
}

proof fn lemma_args_read_back(r: Reading, args: Seq<Seq<char>>)
    requires
        r.mode is Bare,
    ensures
        ({
            let m = r.read(quoted_args(args));
            &&& m is Some
            &&& m->0.mode is Bare
            &&& m->0.end() == Some(r.tokens.push(r.word()) + argument_words(args))
        }),
    decreases args.len(),
{
    if args.len() == 0 {
        assert(r.tokens.push(r.word()) + argument_words(args) =~= r.tokens.push(r.word()));
    } else {
        let front = args.drop_last();
        lemma_args_read_back(r, front);
        let m = r.read(quoted_args(front))->0;
        let gap = m.complete(m.word());
        reveal_strlit(" ");
        assert(" "@ =~= seq![' ']);
        assert(m.read(" "@) == Some(gap)) by {
            reveal_with_fuel(Reading::read, 2);
            assert(" "@.drop_first() =~= Seq::empty());
        }
        crate::shell::lemma_read_in_parts(r, quoted_args(front), " "@);
        crate::shell::lemma_quoted_reads_back(gap, args.last());
        crate::shell::lemma_read_in_parts(r, quoted_args(front) + " "@, quoted(args.last()));
        assert(gap.text + args.last() =~= args.last());
        assert(gap.tokens.push(plain_word(args.last())) =~= r.tokens.push(r.word())
            + argument_words(args));
    }
}

/// From a gap between words, `<root>/<key>` is one word: the two with a slash between them, under
/// the home directory where the root is.
proof fn lemma_tree_reads_back(r: Reading, root: Seq<char>, key_text: Seq<char>, key: Seq<char>)
    requires
        r.ready(),
        r.mode is Gap,
        key_text == quoted(key) || key_text == quoted_path(key),
    ensures
        r.read(quoted_path(root) + "/"@ + key_text) == Some(
            Reading { home: is_home_path(root), ..r.with(root + "/"@ + key) },
        ),
{
    crate::shell::lemma_quoted_path_reads_back(r, root);
    let a = Reading { home: is_home_path(root), ..r.with(root) };
    let b = a.take('/');
    reveal_strlit("/");
    assert("/"@ =~= seq!['/']);
    assert(r.text + root =~= root);
    assert(a.read("/"@) == Some(b)) by {
        reveal_with_fuel(Reading::read, 2);
        assert("/"@.drop_first() =~= Seq::empty());
        assert(a.step('/') == Some(b));
    }
    crate::shell::lemma_read_in_parts(r, quoted_path(root), "/"@);
    assert(b.ready());
    crate::shell::lemma_quoted_reads_back(b, key);
    crate::shell::lemma_quoted_path_reads_back(b, key);
    crate::shell::lemma_read_in_parts(r, quoted_path(root) + "/"@, key_text);
    assert(b.text + key =~= r.text + (root + "/"@ + key));
}

/// A remote shell reads the command line of a build as: change to the directory `<root>/<key>`,
/// and then run cargo with exactly the arguments that were given, whatever they hold. The
/// directory is under the home directory where the root is `~` or begins with `~/`.
pub proof fn law_remote_command_reads_back(root: Seq<char>, key: Seq<char>, args: Seq<Seq<char>>)
    ensures
        shell_tokens(remote_cargo_cmd(root, key, args)) == Some(
            seq![
                plain_word("cd"@),
                Token::Word { text: root + "/"@ + key, home: is_home_path(root) },
                Token::AndIf,
                plain_word("cargo"@),
            ] + argument_words(args),
        ),
{
    let r = Reading::start();
    reveal_strlit("cd ");
    reveal_strlit("cd");
    reveal_strlit("cargo");
    reveal_strlit(" && cargo");
    let cd = "cd "@;
    assert(cd =~= seq!['c', 'd', ' ']);
    let a = r.complete(plain_word("cd"@));
    assert(r.read(cd) == Some(a)) by {
        reveal_with_fuel(Reading::read, 4);
        assert(cd.drop_first().drop_first().drop_first() =~= Seq::empty());
        assert(r.text.push('c').push('d') =~= "cd"@);
    }
    let tree = quoted_path(root) + "/"@ + quoted_path(key);
    lemma_tree_reads_back(a, root, quoted_path(key), key);
    let path = root + "/"@ + key;
    let b = Reading { home: is_home_path(root), ..a.with(path) };
    assert(a.text + path =~= path);
    crate::shell::lemma_read_in_parts(r, cd, tree);
    let word = Token::Word { text: path, home: is_home_path(root) };
    let mid = " && cargo"@;
    assert(mid =~= seq![' ', '&', '&', ' ', 'c', 'a', 'r', 'g', 'o']);
    let c0 = b.complete(word).complete(Token::AndIf);
    let cargo = "cargo"@;
    assert(cargo =~= seq!['c', 'a', 'r', 'g', 'o']);
    crate::shell::lemma_quoted_reads_back(c0, cargo);
    assert(quoted(cargo) == cargo);
    let c = c0.with(cargo);
    assert(c0.text + cargo =~= cargo);
    let sep = seq![' ', '&', '&', ' '];
    assert(b.read(sep) == Some(c0)) by {
        reveal_with_fuel(Reading::read, 5);
        assert(sep.drop_first().drop_first().drop_first().drop_first() =~= Seq::empty());
        let b1 = b.complete(word);
        assert(b.step(' ') == Some(b1));
        assert(b1.step('&')->0.step('&') == Some(c0));
    }
    assert(mid =~= sep + cargo);
    crate::shell::lemma_read_in_parts(b, sep, cargo);
    crate::shell::lemma_read_in_parts(r, cd + tree, mid);
    lemma_args_read_back(c, args);
    crate::shell::lemma_read_in_parts(r, cd + tree + mid, quoted_args(args));
    assert(remote_cargo_cmd(root, key, args) =~= cd + tree + mid + quoted_args(args));
    assert(c.tokens.push(c.word()) =~= seq![
        plain_word("cd"@),
        word,
        Token::AndIf,
        plain_word("cargo"@),
    ]);
}

/// A remote shell reads the command line that makes a project's tree as: make the directory
/// `<root>/<key>`, which is the one that the build changes to.
pub proof fn law_remote_mkdir_reads_back(root: Seq<char>, key: Seq<char>)
    ensures
        shell_tokens(remote_mkdir_cmd(root, key)) == Some(
            seq![
                plain_word("mkdir"@),
                plain_word("-p"@),
                Token::Word { text: root + "/"@ + key, home: is_home_path(root) },
            ],
        ),
{
    let r = Reading::start();
    reveal_strlit("mkdir -p ");
    reveal_strlit("mkdir");
    reveal_strlit("-p");
    let head = "mkdir -p "@;
    let mkdir = "mkdir"@;
    let p = "-p"@;
    let gap = seq![' '];
    assert(mkdir =~= seq!['m', 'k', 'd', 'i', 'r']);
    assert(p =~= seq!['-', 'p']);
    assert(head =~= mkdir + gap + p + gap);
    crate::shell::lemma_quoted_reads_back(r, mkdir);
    let r1 = r.with(mkdir);
    let g1 = r1.complete(r1.word());
    crate::shell::lemma_quoted_reads_back(g1, p);
    let r2 = g1.with(p);
    let g2 = r2.complete(r2.word());
    assert(gap.drop_first() =~= Seq::empty());
    assert(r1.read(gap) == Some(g1) && r2.read(gap) == Some(g2)) by {
        reveal_with_fuel(Reading::read, 2);
    }
    crate::shell::lemma_read_in_parts(r, mkdir, gap);
    crate::shell::lemma_read_in_parts(r, mkdir + gap, p);
    crate::shell::lemma_read_in_parts(r, mkdir + gap + p, gap);
    let tree = quoted_path(root) + "/"@ + quoted(key);
    lemma_tree_reads_back(g2, root, quoted(key), key);
    crate::shell::lemma_read_in_parts(r, head, tree);
    assert(remote_mkdir_cmd(root, key) =~= head + tree);
    let path = root + "/"@ + key;
    let word = Token::Word { text: path, home: is_home_path(root) };
    assert(r.text + mkdir =~= mkdir);
    assert(g1.text + p =~= p);
    assert(g2.text + path =~= path);
    assert(g2.tokens.push(word) =~= seq![plain_word(mkdir), plain_word(p), word]);
}

/// `target/` is never uploaded, and the one on the remote host is never deleted, whatever the
/// configuration is: the arguments that say so stand before those of the user.
pub proof fn law_target_stays(cfg: ConfigView, local_root: Seq<char>, key: Seq<char>)
    ensures
        ({
            let args = upload_command(cfg, local_root, key).args;
            &&& args.len() >= 5
            &&& args[2] == "--filter=protect target/"@
            &&& args[3] == "--exclude"@
            &&& args[4] == "target/"@
        }),
{
    lemma_exclusions();
}

/// Each of the names that are never uploaded stands behind an `--exclude`, before the arguments of
/// the user.
pub proof fn law_excluded_names_are_excluded(
    cfg: ConfigView,
    local_root: Seq<char>,
    key: Seq<char>,
    k: int,
)
    requires
        0 <= k < excluded().len(),
    ensures
        ({
            let args = upload_command(cfg, local_root, key).args;
            &&& args.len() >= 15
            &&& args[3 + 2 * k] == "--exclude"@
            &&& args[4 + 2 * k] == excluded()[k]
        }),
{
    lemma_exclusions();
}

/// Every step of a run works on one remote directory, `<root>/<key>`: it is made, the sources go
/// there, the build runs there, and the artifacts come from its `target/`, in each step of a pull.
pub proof fn law_steps_share_one_tree(
    cfg: ConfigView,
    local_root: Seq<char>,
    key: Seq<char>,
    args: Seq<Seq<char>>,
    k: int,
)
    requires
        0 <= k < pull_plan(cfg, local_root, key).steps.len(),
    ensures
        ({
            let dir = cfg.remote_root + "/"@ + key;
            let word = Token::Word { text: dir, home: is_home_path(cfg.remote_root) };
            let pull = pull_plan(cfg, local_root, key).steps[k].command.args;
            &&& shell_tokens(mkdir_command(cfg, key).args.last())->0[2] == word
            &&& upload_command(cfg, local_root, key).args.last() == cfg.host + ":"@ + dir + "/"@
            &&& shell_tokens(build_command(cfg, key, args).args.last())->0[1] == word
            &&& pull[pull.len() - 2] == cfg.host + ":"@ + dir + "/"@ + "target/"@ + (if k
                < artifact_dirs().len() {
                artifact_dirs()[k]
            } else {
                Seq::empty()
            })
        }),
{
    law_remote_mkdir_reads_back(cfg.remote_root, key);
    law_remote_command_reads_back(cfg.remote_root, key, args);
    let dir = cfg.remote_root + "/"@ + key;
    assert(remote_tree(cfg, key) =~= cfg.host + ":"@ + dir + "/"@);
    let source = remote_tree(cfg, key) + "target/"@;
    assert(source + Seq::<char>::empty() =~= source);
}

/// The artifacts of every target triple come back: a pull has a step from the whole of the remote
/// `target/` to the whole of the local one, whose rules, behind those that leave something behind,
/// take each directory in it, in each of these the directory `release/` with all that it holds, and
/// nothing else.
pub proof fn law_every_release_comes_back(cfg: ConfigView, local_root: Seq<char>, key: Seq<char>)
    ensures
        ({
            let plan = pull_plan(cfg, local_root, key);
            let step = plan.steps.last();
            let args = step.command.args;
            let n = left_behind().len() as int;
            &&& step.dest == plan.target
            &&& step.command.program == "rsync"@
            &&& args.take(2) == seq!["-azm"@, "--ignore-missing-args"@]
            &&& args.subrange(2, 2 + n) == left_behind()
            &&& args.subrange(2 + n, 6 + n) == seq![
                "--include=/*/"@,
                "--include=/*/release/"@,
                "--include=/*/release/**"@,
                "--exclude=*"@,
            ]
            &&& args.skip(6 + n) == remote_shell(cfg.ssh_args) + seq![
                remote_tree(cfg, key) + "target/"@,
                plan.target + "/"@,
            ]
        }),
{
}

/// What only the remote toolchain can use never comes back: in every step of a pull, each rule that
/// leaves something behind stands before every `--include`, and `rsync` takes the first rule that
/// matches.
pub proof fn law_build_dirs_stay_remote(
    cfg: ConfigView,
    local_root: Seq<char>,
    key: Seq<char>,
    k: int,
    i: int,
)
    requires
        0 <= k < pull_plan(cfg, local_root, key).steps.len(),
        0 <= i < left_behind().len(),
    ensures
        ({
            let args = pull_plan(cfg, local_root, key).steps[k].command.args;
            &&& args.len() > 2 + i
            &&& args[2 + i] == left_behind()[i]
            &&& forall|j: int|
                0 <= j < args.len() && "--include"@.is_prefix_of(#[trigger] args[j]) ==> 2 + i < j
        }),
{
    let args = pull_plan(cfg, local_root, key).steps[k].command.args;
    let lead = "--include"@;
    reveal_strlit("--include");
    reveal_strlit("-az");
    reveal_strlit("-azm");
    reveal_strlit("--ignore-missing-args");
    reveal_strlit("--exclude=build/");
    reveal_strlit("--exclude=deps/");
    reveal_strlit("--exclude=incremental/");
    reveal_strlit("--exclude=.fingerprint/");
    assert forall|j: int|
        0 <= j < args.len() && "--include"@.is_prefix_of(#[trigger] args[j]) implies 2 + i < j by {
        assert(args[j].take(lead.len() as int) =~= lead);
        assert(args[j][1] == lead[1] && args[j][2] == lead[2] && args[j][3] == lead[3]);
        if j == 0 {
            assert(args[j] == "-az"@ || args[j] == "-azm"@);
        } else if j == 1 {
            assert(args[j] == "--ignore-missing-args"@);
        } else if j < 6 {
            assert(args[j] == left_behind()[j - 2]);
            assert(args[j][2] == 'e');
        }
    }
}

proof fn lemma_line_stop(bytes: Seq<u8>, i: int)
    ensures
        line_stop(bytes) <= bytes.len(),
        0 <= i < line_stop(bytes) ==> bytes[i] != 10 && bytes[i] != 13,
    decreases bytes.len(),
{
    if bytes.len() > 0 {
        lemma_line_stop(bytes.drop_first(), i - 1);
    }
}

/// A line that is taken off a stream holds no line end, and taking it makes what is left shorter.
pub proof fn law_lines_are_single(bytes: Seq<u8>, ended: bool)
    ensures
        first_line(bytes, ended) matches Some((line, n)) ==> {
            &&& 0 < n <= bytes.len()
            &&& line == bytes.take(line.len() as int)
            &&& !line.contains(10)
            &&& !line.contains(13)
        },
{
    lemma_line_stop(bytes, 0);
    if let Some((line, n)) = first_line(bytes, ended) {
        assert forall|i: int| 0 <= i < line.len() implies line[i] != 10 && line[i] != 13 by {
            lemma_line_stop(bytes, i);
        }
    }
}

} // verus!
