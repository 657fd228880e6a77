//! Transport layer: which commands reach the remote host, and what their results mean.
//!
//! A transport does no input or output itself. Each of its methods says what to do next; the
//! caller does it and comes back with what came of it.
use vstd::prelude::*;

use crate::config::ConfigView;
use crate::json::{json_list, json_quote};
use crate::proto::{Event, EventView};
use crate::text::{signed_decimal, texts, to_signed_decimal};
use crate::transport::ssh::SshTransport;
use crate::transport::webtransport::WebTransportTransport;

pub mod ssh;
pub mod webtransport;

verus! {

/// Outcome of a remote build.
#[derive(Debug, Clone, Copy, PartialEq, Eq, Structural)]
pub struct TransportOutcome {
    /// Exit code of the remote `cargo`.
    pub exit_code: i32,
}

/// A program to run, with its arguments.
#[derive(Debug, PartialEq, Eq)]
pub struct CommandLine {
    pub program: String,
    pub args: Vec<String>,
}

/// What a [`CommandLine`] holds.
pub struct CommandView {
    pub program: Seq<char>,
    pub args: Seq<Seq<char>>,
}

impl View for CommandLine {
    type V = CommandView;

    open spec fn view(&self) -> CommandView {
        CommandView { program: self.program@, args: texts(self.args@) }
    }
}

/// How a program ended.
#[derive(Debug, Clone, Copy, PartialEq, Eq, Structural)]
pub struct ExitReport {
    /// Whether it succeeded.
    pub success: bool,
    /// Its exit code; none where a signal ended it.
    pub code: Option<i32>,
}

/// Why a transport gave up.
#[derive(Debug, PartialEq, Eq)]
pub enum TransportError {
    /// The remote directory could not be made.
    Mkdir { code: Option<i32>, host: String },
    /// The sources could not be copied.
    Rsync { code: Option<i32> },
    /// The daemon reported an error.
    Daemon { message: String },
    /// The daemon's stream ended before the build did.
    StreamClosed,
}

/// What a [`TransportError`] holds.
pub enum TransportErrorView {
    Mkdir { code: Option<i32>, host: Seq<char> },
    Rsync { code: Option<i32> },
    Daemon { message: Seq<char> },
    StreamClosed,
}

impl View for TransportError {
    type V = TransportErrorView;

    open spec fn view(&self) -> TransportErrorView {
        match self {
            TransportError::Mkdir { code, host } => TransportErrorView::Mkdir {
                code: *code,
                host: host@,
            },
            TransportError::Rsync { code } => TransportErrorView::Rsync { code: *code },
            TransportError::Daemon { message } => TransportErrorView::Daemon { message: message@ },
            TransportError::StreamClosed => TransportErrorView::StreamClosed,
        }
    }
}

/// An exit code as the messages show it.
pub open spec fn shown_code(code: Option<i32>) -> Seq<char> {
    match code {
        Some(n) => "Some("@ + signed_decimal(n as int) + ")"@,
        None => "None"@,
    }
}

/// Show an exit code.
fn show_code(code: Option<i32>) -> (out: String)
    ensures
        out@ == shown_code(code),
{
    match code {
        Some(n) => {
            let mut out = "Some(".to_owned();
            out.append(to_signed_decimal(n).as_str());
            out.append(")");
            out
        },
        None => "None".to_owned(),
    }
}

impl TransportErrorView {
    /// The text of the error.
    pub open spec fn text(self) -> Seq<char> {
        match self {
            TransportErrorView::Mkdir { code, host } => "ssh mkdir failed (status "@ + shown_code(
                code,
            ) + "). Is "@ + host + " reachable?"@,
            TransportErrorView::Rsync { code } => "rsync failed (status "@ + shown_code(code)
                + ") — check that rsync is installed locally and remotely"@,
            TransportErrorView::Daemon { message } => "rcargod error: "@ + message,
            TransportErrorView::StreamClosed => "WT stream closed before daemon sent Exit"@,
        }
    }
}

impl TransportError {
    /// The text of the error, for the user.
    pub fn message(&self) -> (out: String)
        ensures
            out@ == self@.text(),
    {
        match self {
            TransportError::Mkdir { code, host } => {
                let mut out = "ssh mkdir failed (status ".to_owned();
                out.append(show_code(*code).as_str());
                out.append("). Is ");
                out.append(host.as_str());
                out.append(" reachable?");
                out
            },
            TransportError::Rsync { code } => {
                let mut out = "rsync failed (status ".to_owned();
                out.append(show_code(*code).as_str());
                out.append(") — check that rsync is installed locally and remotely");
                out
            },
            TransportError::Daemon { message } => {
                let mut out = "rcargod error: ".to_owned();
                out.append(message.as_str());
                out
            },
            TransportError::StreamClosed => "WT stream closed before daemon sent Exit".to_owned(),
        }
    }
}

/// How far the upload of the sources has come.
#[derive(Debug, Clone, Copy, PartialEq, Eq, Structural)]
pub enum SyncProgress {
    /// Nothing has been done.
    Start,
    /// The command that makes the remote directory has ended.
    MadeDir(ExitReport),
    /// The command that copies the sources has ended.
    Copied(ExitReport),
}

/// What the upload of the sources needs next.
#[derive(Debug, PartialEq, Eq)]
pub enum SyncStep {
    /// Make the remote directory with this command.
    MakeDir(CommandLine),
    /// Copy the sources with this command.
    Copy(CommandLine),
    /// Nothing; the sources are there.
    Done,
    /// Give up.
    Fail(TransportError),
}

/// What a [`SyncStep`] holds.
pub enum SyncStepView {
    MakeDir(CommandView),
    Copy(CommandView),
    Done,
    Fail(TransportErrorView),
}

impl View for SyncStep {
    type V = SyncStepView;

    open spec fn view(&self) -> SyncStepView {
        match self {
            SyncStep::MakeDir(c) => SyncStepView::MakeDir(c@),
            SyncStep::Copy(c) => SyncStepView::Copy(c@),
            SyncStep::Done => SyncStepView::Done,
            SyncStep::Fail(e) => SyncStepView::Fail(e@),
        }
    }
}

/// What happened in a remote build.
#[derive(Debug)]
pub enum BuildInput {
    /// Nothing yet.
    Start,
    /// The local program wrote this line to its standard output.
    OutLine(String),
    /// The local program wrote this line to its standard error.
    ErrLine(String),
    /// The local program ended, with this exit code unless a signal ended it.
    Exited(Option<i32>),
    /// The daemon's stream gave this text up to and with its next line end; nothing at its end.
    Read(String),
    /// A line of the stream stands for this event.
    Decoded(Event),
    /// A line of the stream stands for no event, for this reason.
    Undecodable { line: String, cause: String },
}

/// What a [`BuildInput`] holds.
pub enum BuildInputView {
    Start,
    OutLine(Seq<char>),
    ErrLine(Seq<char>),
    Exited(Option<i32>),
    Read(Seq<char>),
    Decoded(EventView),
    Undecodable { line: Seq<char>, cause: Seq<char> },
}

impl View for BuildInput {
    type V = BuildInputView;

    open spec fn view(&self) -> BuildInputView {
        match self {
            BuildInput::Start => BuildInputView::Start,
            BuildInput::OutLine(l) => BuildInputView::OutLine(l@),
            BuildInput::ErrLine(l) => BuildInputView::ErrLine(l@),
            BuildInput::Exited(c) => BuildInputView::Exited(*c),
            BuildInput::Read(t) => BuildInputView::Read(t@),
            BuildInput::Decoded(e) => BuildInputView::Decoded(e@),
            BuildInput::Undecodable { line, cause } => BuildInputView::Undecodable {
                line: line@,
                cause: cause@,
            },
        }
    }
}

/// What a remote build needs next.
#[derive(Debug, PartialEq, Eq)]
pub enum BuildStep {
    /// Run this program, and report its lines and its end.
    Spawn(CommandLine),
    /// Open a session at this address, write these texts, close the sending half, and read.
    Open { url: String, lines: Vec<String> },
    /// Write this text to the standard output, and go on.
    WriteOut(String),
    /// Write this text to the standard error, and go on.
    WriteErr(String),
    /// Decode this line, and report what it stands for.
    Decode(String),
    /// Log this warning, and go on.
    Warn(String),
    /// Go on.
    Continue,
    /// Nothing; the build is over.
    Done(TransportOutcome),
    /// Give up.
    Fail(TransportError),
}

/// What a [`BuildStep`] holds.
pub enum BuildStepView {
    Spawn(CommandView),
    Open { url: Seq<char>, lines: Seq<Seq<char>> },
    WriteOut(Seq<char>),
    WriteErr(Seq<char>),
    Decode(Seq<char>),
    Warn(Seq<char>),
    Continue,
    Done(TransportOutcome),
    Fail(TransportErrorView),
}

impl View for BuildStep {
    type V = BuildStepView;

    open spec fn view(&self) -> BuildStepView {
        match self {
            BuildStep::Spawn(c) => BuildStepView::Spawn(c@),
            BuildStep::Open { url, lines } => BuildStepView::Open {
                url: url@,
                lines: texts(lines@),
            },
            BuildStep::WriteOut(t) => BuildStepView::WriteOut(t@),
            BuildStep::WriteErr(t) => BuildStepView::WriteErr(t@),
            BuildStep::Decode(t) => BuildStepView::Decode(t@),
            BuildStep::Warn(t) => BuildStepView::Warn(t@),
            BuildStep::Continue => BuildStepView::Continue,
            BuildStep::Done(o) => BuildStepView::Done(*o),
            BuildStep::Fail(e) => BuildStepView::Fail(e@),
        }
    }
}

/// One directory of artifacts to copy back.
#[derive(Debug, PartialEq, Eq)]
pub struct PullStep {
    /// The local directory that the artifacts go to; it may have to be made.
    pub dest: String,
    /// The command that copies them. That it fails is no error: there may be nothing to copy.
    pub command: CommandLine,
}

/// What a [`PullStep`] holds.
pub struct PullStepView {
    pub dest: Seq<char>,
    pub command: CommandView,
}

impl View for PullStep {
    type V = PullStepView;

    open spec fn view(&self) -> PullStepView {
        PullStepView { dest: self.dest@, command: self.command@ }
    }
}

/// How to copy artifacts back.
#[derive(Debug, PartialEq, Eq)]
pub struct PullPlan {
    /// The local `target` directory; it may have to be made.
    pub target: String,
    /// What to copy, in order.
    pub steps: Vec<PullStep>,
}

/// What a [`PullPlan`] holds.
#[verifier::ext_equal]
pub struct PullPlanView {
    pub target: Seq<char>,
    pub steps: Seq<PullStepView>,
}

impl View for PullPlan {
    type V = PullPlanView;

    open spec fn view(&self) -> PullPlanView {
        PullPlanView {
            target: self.target@,
            steps: Seq::new(self.steps@.len(), |i: int| self.steps@[i]@),
        }
    }
}

/// The choice of transport.
pub enum Transport {
    /// Over `ssh` and `rsync` alone.
    Ssh(SshTransport),
    /// Builds over a WebTransport session with the daemon.
    WebTransport(WebTransportTransport),
}

/// What a [`Transport`] holds.
pub enum TransportView {
    Ssh { config: ConfigView },
    WebTransport { config: ConfigView, address: Seq<char> },
}

impl TransportView {
    /// The configuration of the transport.
    pub open spec fn config(self) -> ConfigView {
        match self {
            TransportView::Ssh { config } => config,
            TransportView::WebTransport { config, .. } => config,
        }
    }

    /// What a build over this transport needs next.
    pub open spec fn build_step(
        self,
        project_key: Seq<char>,
        args: Seq<Seq<char>>,
        input: BuildInputView,
    ) -> BuildStepView {
        match self {
            TransportView::Ssh { config } => ssh::build_step(config, project_key, args, input),
            TransportView::WebTransport { address, .. } => webtransport::build_step(
                address,
                project_key,
                args,
                input,
            ),
        }
    }
}

impl View for Transport {
    type V = TransportView;

    open spec fn view(&self) -> TransportView {
        match self {
            Transport::Ssh(t) => TransportView::Ssh { config: t.config() },
            Transport::WebTransport(t) => TransportView::WebTransport {
                config: t.config(),
                address: t.address(),
            },
        }
    }
}

impl Transport {
    /// What the upload of the tree at `local_root` needs next.
    pub fn sync_up(&self, local_root: &str, project_key: &str, progress: SyncProgress) -> (step:
        SyncStep)
        ensures
            step@ == ssh::sync_step(self@.config(), local_root@, project_key@, progress),
            progress matches SyncProgress::MadeDir(exit) ==> exit.success ==> {
                let n = self@.config().rsync_args.len() as int;
                &&& step@ is Copy
                &&& step@->Copy_0.args.len() > 15 + n
                &&& step@->Copy_0.args.subrange(15, 15 + n) == self@.config().rsync_args
            },
    {
        match self {
            Transport::Ssh(t) => t.sync_up(local_root, project_key, progress),
            Transport::WebTransport(t) => t.sync_up(local_root, project_key, progress),
        }
    }

    /// What `cargo <args>` on the remote host needs next.
    pub fn run_cargo(&self, project_key: &str, args: &[String], input: BuildInput) -> (step:
        BuildStep)
        ensures
            step@ == self@.build_step(project_key@, texts(args@), input@),
            self@ is WebTransport && input@ is Start ==> {
                &&& step@ matches BuildStepView::Open { lines, .. }
                &&& lines.len() == 2
                &&& lines[1] == "{\"op\":\"build\",\"project_key\":"@ + json_quote(project_key@)
                    + ",\"args\":"@ + json_list(texts(args@)) + ",\"env\":"@ + "{}"@ + "}"@ + "\n"@
            },
            self@ is Ssh && input@ is Start ==> step@ is Spawn && crate::laws::ssh::runs_cargo(
                step@->Spawn_0.args.last(),
                self@.config().remote_root,
                project_key@,
                texts(args@),
            ),
    {
        match self {
            Transport::Ssh(t) => t.run_cargo(project_key, args, input),
            Transport::WebTransport(t) => t.run_cargo(project_key, args, input),
        }
    }

    /// How to copy the artifacts back to the tree at `local_root`.
    pub fn pull_artifacts(&self, local_root: &str, project_key: &str) -> (plan: PullPlan)
        ensures
            plan@ == ssh::pull_plan(self@.config(), local_root@, project_key@),
    {
        match self {
            Transport::Ssh(t) => t.pull_artifacts(local_root, project_key),
            Transport::WebTransport(t) => t.pull_artifacts(local_root, project_key),
        }
    }
}

} // verus!
