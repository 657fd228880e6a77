//! Transport over a WebTransport session with the build daemon.
//!
//! The session carries the build alone: one line of JSON for each request and each event. The
//! sources still go up, and the artifacts come back, over `ssh` and `rsync`.
use vstd::prelude::*;

use crate::config::{Config, ConfigView};
use crate::json::{json_list, json_quote};
use crate::laws::wire::law_session_asks_for_the_build;
use crate::proto::{build_request, framed, EventView, RequestView};
use crate::proto::{frame, Event, Request, PROTO_VERSION};
use crate::text::{copy_list, decimal, put, texts, to_decimal, trim_back, trim_end, CharClass};
use crate::transport::ssh::{pull_plan, sync_step, SshTransport};
use crate::transport::{BuildInput, BuildInputView, BuildStep, BuildStepView};
use crate::transport::{PullPlan, SyncProgress, SyncStep};
use crate::transport::{TransportError, TransportErrorView, TransportOutcome};

verus! {

/// Transport whose builds run in a WebTransport session with the daemon.
pub struct WebTransportTransport {
    ssh: SshTransport,
    url: String,
}

/// The address of the daemon's sessions.
pub open spec fn session_url(host: Seq<char>, port: u16) -> Seq<char> {
    "https://"@ + host + ":"@ + decimal(port as nat) + "/rcargo"@
}

/// What a client writes to open a build: a hello, then the build.
pub open spec fn opening(key: Seq<char>, args: Seq<Seq<char>>) -> Seq<Seq<char>> {
    seq![
        framed((RequestView::Hello { client_version: PROTO_VERSION }).line()),
        framed(build_request(key, args).line()),
    ]
}

/// What the text that was read from the daemon's stream asks for. A text that is empty is the end of
/// the stream; an empty line is passed over.
pub open spec fn on_read(text: Seq<char>) -> BuildStepView {
    let line = trim_back(text, CharClass::LineEnd);
    if text.len() == 0 {
        BuildStepView::Fail(TransportErrorView::StreamClosed)
    } else if line.len() == 0 {
        BuildStepView::Continue
    } else {
        BuildStepView::Decode(line)
    }
}

/// What an event of the daemon asks for.
pub open spec fn on_event(event: EventView) -> BuildStepView {
    match event {
        EventView::Stdout { data } => BuildStepView::WriteOut(data + "\n"@),
        EventView::Stderr { data } => BuildStepView::WriteErr(data + "\n"@),
        EventView::HelloAck { server_version } => if server_version == PROTO_VERSION {
            BuildStepView::Continue
        } else {
            BuildStepView::Warn(
                "rcargo WT: protocol mismatch: client v"@ + decimal(PROTO_VERSION as nat)
                    + ", server v"@ + decimal(server_version as nat),
            )
        },
        EventView::Exit { code } => BuildStepView::Done(TransportOutcome { exit_code: code }),
        EventView::Error { message } => BuildStepView::Fail(TransportErrorView::Daemon { message }),
    }
}

/// What a build over a session needs next. What only a local program can bring asks for nothing.
pub open spec fn build_step(
    url: Seq<char>,
    key: Seq<char>,
    args: Seq<Seq<char>>,
    input: BuildInputView,
) -> BuildStepView {
    match input {
        BuildInputView::Start => BuildStepView::Open { url: url, lines: opening(key, args) },
        BuildInputView::Read(text) => on_read(text),
        BuildInputView::Decoded(event) => on_event(event),
        BuildInputView::Undecodable { line, cause } => BuildStepView::Warn(
            "rcargo WT: bad event line: "@ + cause + " (raw: "@ + line + ")"@,
        ),
        _ => BuildStepView::Continue,
    }
}

impl WebTransportTransport {
    /// The configuration of the transport.
    pub closed spec fn config(&self) -> ConfigView {
        self.ssh.config()
    }

    /// The address of the daemon's sessions.
    pub closed spec fn address(&self) -> Seq<char> {
        self.url@
    }

    /// A transport to the daemon at this host and port.
    pub fn new(cfg: Config, wt_host: String, wt_port: u16) -> (t: Self)
        ensures
            t.config() == cfg@,
            t.address() == session_url(wt_host@, wt_port),
    {
        let mut url = "https://".to_owned();
        url.append(wt_host.as_str());
        url.append(":");
        url.append(to_decimal(wt_port as u64).as_str());
        url.append("/rcargo");
        WebTransportTransport { ssh: SshTransport::new(cfg), url: url }
    }

    /// What the upload of the tree at `local_root` needs next. It goes over `ssh` and `rsync`.
    pub fn sync_up(&self, local_root: &str, project_key: &str, progress: SyncProgress) -> (step:
        SyncStep)
        ensures
            step@ == sync_step(self.config(), local_root@, project_key@, progress),
            progress matches SyncProgress::MadeDir(exit) ==> exit.success ==> {
                let n = self.config().rsync_args.len() as int;
                &&& step@ is Copy
                &&& step@->Copy_0.args.len() > 15 + n
                &&& step@->Copy_0.args.subrange(15, 15 + n) == self.config().rsync_args
            },
    {
        self.ssh.sync_up(local_root, project_key, progress)
    }

    /// How to copy the artifacts back to the tree at `local_root`, over `rsync`.
    pub fn pull_artifacts(&self, local_root: &str, project_key: &str) -> (plan: PullPlan)
        ensures
            plan@ == pull_plan(self.config(), local_root@, project_key@),
    {
        self.ssh.pull_artifacts(local_root, project_key)
    }

    /// What `cargo <args>` on the remote host needs next: open a session with a hello and the
    /// build, then take the daemon's lines one by one until it reports the exit or an error, or
    /// its stream ends.
    pub fn run_cargo(&self, project_key: &str, args: &[String], input: BuildInput) -> (step:
        BuildStep)
        ensures
            step@ == build_step(self.address(), project_key@, texts(args@), input@),
            input@ is Start ==> {
                &&& step@ matches BuildStepView::Open { lines, .. }
                &&& lines.len() == 2
                &&& lines[1] == "{\"op\":\"build\",\"project_key\":"@ + json_quote(project_key@)
                    + ",\"args\":"@ + json_list(texts(args@)) + ",\"env\":"@ + "{}"@ + "}"@ + "\n"@
            },
    {
        proof {
            law_session_asks_for_the_build(
                Seq::empty(),
                0,
                self.address(),
                project_key@,
                texts(args@),
            );
        }
        match input {
            BuildInput::Start => {
                let hello = Request::Hello { client_version: PROTO_VERSION };
                let build = Request::Build {
                    project_key: project_key.to_owned(),
                    args: copy_list(args),
                    env: Vec::new(),
                };
                let mut lines: Vec<String> = Vec::new();
                put(&mut lines, frame(hello.to_line()).as_str());
                put(&mut lines, frame(build.to_line()).as_str());
                proof {
                    assert(crate::json::pair_texts(Seq::empty()) =~= Seq::empty());
                    assert(build@ == RequestView::Build {
                        project_key: project_key@,
                        args: texts(args@),
                        env: Seq::empty(),
                    });
                    assert(texts(lines@) =~= opening(project_key@, texts(args@)));
                }
                BuildStep::Open { url: self.url.clone(), lines: lines }
            },
            BuildInput::Read(text) => {
                if text.as_str().is_empty() {
                    return BuildStep::Fail(TransportError::StreamClosed);
                }
                let line = trim_end(text.as_str(), CharClass::LineEnd);
                if line.as_str().is_empty() {
                    BuildStep::Continue
                } else {
                    BuildStep::Decode(line)
                }
            },
            BuildInput::Decoded(event) => take_event(event),
            BuildInput::Undecodable { line, cause } => {
                let mut text = "rcargo WT: bad event line: ".to_owned();
                text.append(cause.as_str());
                text.append(" (raw: ");
                text.append(line.as_str());
                text.append(")");
                BuildStep::Warn(text)
            },
            _ => BuildStep::Continue,
        }
    }
}

/// What an event of the daemon asks for.
fn take_event(event: Event) -> (step: BuildStep)
    ensures
        step@ == on_event(event@),
{
    match event {
        Event::Stdout { data } => {
            let mut text = data;
            text.append("\n");
            BuildStep::WriteOut(text)
        },
        Event::Stderr { data } => {
            let mut text = data;
            text.append("\n");
            BuildStep::WriteErr(text)
        },
        Event::HelloAck { server_version } => {
            if server_version == PROTO_VERSION {
                BuildStep::Continue
            } else {
                let mut text = "rcargo WT: protocol mismatch: client v".to_owned();
                text.append(to_decimal(PROTO_VERSION as u64).as_str());
                text.append(", server v");
                text.append(to_decimal(server_version as u64).as_str());
                BuildStep::Warn(text)
            }
        },
        Event::Exit { code } => BuildStep::Done(TransportOutcome { exit_code: code }),
        Event::Error { message } => BuildStep::Fail(TransportError::Daemon { message }),
    }
}

/// Whether a step ends the build.
pub open spec fn is_end(step: BuildStepView) -> bool {
    step is Done || step is Fail
}

/// How a build ends whose daemon sends `events` and then closes the stream.
pub open spec fn session_end(events: Seq<EventView>) -> BuildStepView
    decreases events.len(),
{
    if events.len() == 0 {
        on_read(Seq::empty())
    } else if is_end(on_event(events[0])) {
        on_event(events[0])
    } else {
        session_end(events.drop_first())
    }
}

/// What a client writes, and where to, whose daemon sends `events`.
pub open spec fn session_output(events: Seq<EventView>) -> Seq<BuildStepView>
    decreases events.len(),
{
    if events.len() == 0 || is_end(on_event(events[0])) {
        Seq::empty()
    } else {
        let step = on_event(events[0]);
        let first = if step is WriteOut || step is WriteErr {
            seq![step]
        } else {
            Seq::empty()
        };
        first + session_output(events.drop_first())
    }
}

/// Whether none of `events` ends a build.
pub open spec fn all_pass(events: Seq<EventView>) -> bool {
    forall|i: int| 0 <= i < events.len() ==> !is_end(on_event(#[trigger] events[i]))
}

/// The first exit or error that the daemon sends decides how the build ends: an exit by its code,
/// an error by its message. What comes before it, and behind it, does not matter.
pub proof fn law_first_end_decides(before: Seq<EventView>, end: EventView, after: Seq<EventView>)
    requires
        all_pass(before),
        end is Exit || end is Error,
    ensures
        session_end(before + seq![end] + after) == (match end {
            EventView::Exit { code } => BuildStepView::Done(TransportOutcome { exit_code: code }),
            EventView::Error { message } => BuildStepView::Fail(
                TransportErrorView::Daemon { message: message },
            ),
            _ => BuildStepView::Continue,
        }),
    decreases before.len(),
{
    let all = before + seq![end] + after;
    if before.len() == 0 {
        assert(all[0] == end);
    } else {
        let rest = before.drop_first();
        assert(all[0] == before[0]);
        assert forall|i: int| 0 <= i < rest.len() implies !is_end(on_event(#[trigger] rest[i])) by {
            assert(rest[i] == before[i + 1]);
        }
        law_first_end_decides(rest, end, after);
        assert(all.drop_first() =~= rest + seq![end] + after);
    }
}

/// A build whose daemon sends neither an exit nor an error before its stream ends has failed.
pub proof fn law_no_end_is_failure(events: Seq<EventView>)
    requires
        all_pass(events),
    ensures
        session_end(events) == BuildStepView::Fail(TransportErrorView::StreamClosed),
    decreases events.len(),
{
    if events.len() > 0 {
        let rest = events.drop_first();
        assert forall|i: int| 0 <= i < rest.len() implies !is_end(on_event(#[trigger] rest[i])) by {
            assert(rest[i] == events[i + 1]);
        }
        law_no_end_is_failure(rest);
    }
}

/// A line that the daemon writes for an event reaches the client's decoder as it was written.
pub proof fn law_event_line_arrives(event: EventView)
    ensures
        on_read(framed(event.line())) == BuildStepView::Decode(event.line()),
{
    let line = event.line();
    crate::proto::law_event_is_one_line(event);
    assert(line.last() == '}');
    assert(framed(line).drop_last() =~= line);
    reveal_with_fuel(trim_back, 3);
}

} // verus!
