//! The build daemon: how it answers requests and what it reports of a build.
//!
//! The daemon's loops do no input or output here. Each function says what to do next; the caller
//! does it and comes back with what came of it.
use vstd::prelude::*;

use crate::json::{copy_pairs, pair_texts};
use crate::project_key::{hex_encode, hex_text};
use crate::proto::{build_request, names_once, PROTO_VERSION};
use crate::proto::{event_views, framed, Event, EventView, Request, RequestView};
use crate::text::{after_prefix, blank, copy_list, is_blank, opt_text, texts, trim_back, trim_end};
use crate::text::{stripped, CharClass};
use crate::transport::ssh::{code_or_255, exit_code};
use crate::transport::webtransport::{all_pass, is_end, on_event, opening};
use crate::transport::webtransport::{session_end, session_output};
use crate::transport::{BuildStepView, CommandLine, CommandView, TransportErrorView};
use crate::transport::TransportOutcome;

verus! {

/// What came from a client.
#[derive(Debug)]
pub enum ServeInput {
    /// A line, without its line end.
    Line(String),
    /// A line that stands for this request.
    Decoded(Request),
    /// A line that stands for no request, for this reason.
    Undecodable(String),
}

/// What a [`ServeInput`] holds.
pub enum ServeInputView {
    Line(Seq<char>),
    Decoded(RequestView),
    Undecodable(Seq<char>),
}

impl View for ServeInput {
    type V = ServeInputView;

    open spec fn view(&self) -> ServeInputView {
        match self {
            ServeInput::Line(l) => ServeInputView::Line(l@),
            ServeInput::Decoded(r) => ServeInputView::Decoded(r@),
            ServeInput::Undecodable(c) => ServeInputView::Undecodable(c@),
        }
    }
}

/// What a client is owed next.
#[derive(Debug)]
pub enum ServeStep {
    /// Nothing; read the next line.
    Read,
    /// Decode this line.
    Decode(String),
    /// Send this event, then read the next line.
    Answer(Event),
    /// Run this build, then read the next line.
    Build { project_key: String, args: Vec<String>, env: Vec<(String, String)> },
    /// Close the connection.
    Stop,
}

/// What a [`ServeStep`] holds.
pub enum ServeStepView {
    Read,
    Decode(Seq<char>),
    Answer(EventView),
    Build { project_key: Seq<char>, args: Seq<Seq<char>>, env: Seq<(Seq<char>, Seq<char>)> },
    Stop,
}

impl View for ServeStep {
    type V = ServeStepView;

    open spec fn view(&self) -> ServeStepView {
        match self {
            ServeStep::Read => ServeStepView::Read,
            ServeStep::Decode(l) => ServeStepView::Decode(l@),
            ServeStep::Answer(e) => ServeStepView::Answer(e@),
            ServeStep::Build { project_key, args, env } => ServeStepView::Build {
                project_key: project_key@,
                args: texts(args@),
                env: pair_texts(env@),
            },
            ServeStep::Stop => ServeStepView::Stop,
        }
    }
}

/// What a client is owed for what came from it.
pub open spec fn serve_step(input: ServeInputView) -> ServeStepView {
    match input {
        ServeInputView::Line(line) => if is_blank(line) {
            ServeStepView::Read
        } else {
            ServeStepView::Decode(line)
        },
        ServeInputView::Undecodable(cause) => ServeStepView::Answer(
            EventView::Error { message: "parse error: "@ + cause },
        ),
        ServeInputView::Decoded(request) => match request {
            RequestView::Hello { .. } => ServeStepView::Answer(
                EventView::HelloAck { server_version: PROTO_VERSION },
            ),
            RequestView::Bye => ServeStepView::Stop,
            RequestView::Build { project_key, args, env } => ServeStepView::Build {
                project_key: project_key,
                args: args,
                env: env,
            },
        },
    }
}

/// What a client is owed next. A blank line is passed over; a line that is no request is answered
/// with an error, and the client may go on; a hello is answered with the version; a bye ends the
/// connection.
pub fn serve_one(input: ServeInput) -> (step: ServeStep)
    ensures
        step@ == serve_step(input@),
        input@ matches ServeInputView::Decoded(RequestView::Build { project_key, args, env })
            ==> step@ == (ServeStepView::Build { project_key, args, env }),
        step is Stop <==> input@ == ServeInputView::Decoded(RequestView::Bye),
{
    match input {
        ServeInput::Line(line) => {
            if blank(line.as_str()) {
                ServeStep::Read
            } else {
                ServeStep::Decode(line)
            }
        },
        ServeInput::Undecodable(cause) => {
            let mut message = "parse error: ".to_owned();
            message.append(cause.as_str());
            ServeStep::Answer(Event::Error { message })
        },
        ServeInput::Decoded(request) => match request {
            Request::Hello { .. } => ServeStep::Answer(
                Event::HelloAck { server_version: PROTO_VERSION },
            ),
            Request::Bye => ServeStep::Stop,
            Request::Build { project_key, args, env } => ServeStep::Build {
                project_key,
                args,
                env,
            },
        },
    }
}

/// What happened in a build.
#[derive(Debug)]
pub enum JobInput {
    /// Nothing yet.
    Start,
    /// The project's tree could not be made, for this reason.
    DirFailed(String),
    /// The project's tree is there.
    DirReady,
    /// Cargo could not be started, for this reason.
    SpawnFailed(String),
    /// Cargo wrote this line to its standard output.
    OutLine(String),
    /// Cargo wrote this line to its standard error.
    ErrLine(String),
    /// Cargo ended, with this exit code unless a signal ended it or its end is not known.
    Exited(Option<i32>),
}

/// What a [`JobInput`] holds.
pub enum JobInputView {
    Start,
    DirFailed(Seq<char>),
    DirReady,
    SpawnFailed(Seq<char>),
    OutLine(Seq<char>),
    ErrLine(Seq<char>),
    Exited(Option<i32>),
}

impl View for JobInput {
    type V = JobInputView;

    open spec fn view(&self) -> JobInputView {
        match self {
            JobInput::Start => JobInputView::Start,
            JobInput::DirFailed(e) => JobInputView::DirFailed(e@),
            JobInput::DirReady => JobInputView::DirReady,
            JobInput::SpawnFailed(e) => JobInputView::SpawnFailed(e@),
            JobInput::OutLine(l) => JobInputView::OutLine(l@),
            JobInput::ErrLine(l) => JobInputView::ErrLine(l@),
            JobInput::Exited(c) => JobInputView::Exited(*c),
        }
    }
}

/// What a build needs next.
#[derive(Debug)]
pub enum JobStep {
    /// Make this directory, with its parents.
    MakeDir(String),
    /// Start this command in this directory, with these variables set.
    Spawn { command: CommandLine, dir: String, env: Vec<(String, String)> },
    /// Send this event, and go on.
    Send(Event),
    /// Send these events; the build is over.
    Finish(Vec<Event>),
}

/// What a [`JobStep`] holds.
pub enum JobStepView {
    MakeDir(Seq<char>),
    Spawn { command: CommandView, dir: Seq<char>, env: Seq<(Seq<char>, Seq<char>)> },
    Send(EventView),
    Finish(Seq<EventView>),
}

impl View for JobStep {
    type V = JobStepView;

    open spec fn view(&self) -> JobStepView {
        match self {
            JobStep::MakeDir(d) => JobStepView::MakeDir(d@),
            JobStep::Spawn { command, dir, env } => JobStepView::Spawn {
                command: command@,
                dir: dir@,
                env: pair_texts(env@),
            },
            JobStep::Send(e) => JobStepView::Send(e@),
            JobStep::Finish(es) => JobStepView::Finish(event_views(es@)),
        }
    }
}

/// The directory of a project's tree.
pub open spec fn tree_dir(root: Seq<char>, key: Seq<char>) -> Seq<char> {
    root + "/"@ + key
}

/// What a build of a project needs next.
pub open spec fn job_step(
    root: Seq<char>,
    key: Seq<char>,
    args: Seq<Seq<char>>,
    env: Seq<(Seq<char>, Seq<char>)>,
    input: JobInputView,
) -> JobStepView {
    match input {
        JobInputView::Start => JobStepView::MakeDir(tree_dir(root, key)),
        JobInputView::DirFailed(cause) => JobStepView::Finish(
            seq![
                EventView::Error { message: "mkdir "@ + tree_dir(root, key) + ": "@ + cause },
                EventView::Exit { code: 1 },
            ],
        ),
        JobInputView::DirReady => JobStepView::Spawn {
            command: CommandView { program: "cargo"@, args: args },
            dir: tree_dir(root, key),
            env: env,
        },
        JobInputView::SpawnFailed(cause) => JobStepView::Finish(
            seq![
                EventView::Error { message: "spawn cargo: "@ + cause },
                EventView::Exit { code: 127 },
            ],
        ),
        JobInputView::OutLine(line) => JobStepView::Send(EventView::Stdout { data: line }),
        JobInputView::ErrLine(line) => JobStepView::Send(EventView::Stderr { data: line }),
        JobInputView::Exited(code) => JobStepView::Finish(
            seq![EventView::Exit { code: code_or_255(code) }],
        ),
    }
}

/// The list of these two events.
fn error_and_exit(message: String, code: i32) -> (events: Vec<Event>)
    ensures
        event_views(events@) == seq![
            EventView::Error { message: message@ },
            EventView::Exit { code: code },
        ],
{
    let mut events: Vec<Event> = Vec::new();
    events.push(Event::Error { message });
    events.push(Event::Exit { code });
    assert(event_views(events@) =~= seq![
        EventView::Error { message: message@ },
        EventView::Exit { code: code },
    ]);
    events
}

/// What the build `cargo <args>` of a project needs next: make its tree, run cargo there, send
/// each line that it writes, and at the end its exit code.
pub fn run_cargo(
    remote_root: &str,
    project_key: &str,
    args: &Vec<String>,
    env: &Vec<(String, String)>,
    input: JobInput,
) -> (step: JobStep)
    requires
        names_once(pair_texts(env@)),
    ensures
        step@ == job_step(
            remote_root@,
            project_key@,
            texts(args@),
            pair_texts(env@),
            input@,
        ),
        input is DirReady ==> {
            &&& step@ matches JobStepView::Spawn { command, dir, env: vars }
            &&& command.program == "cargo"@
            &&& command.args == texts(args@)
            &&& dir == remote_root@ + "/"@ + project_key@
            &&& vars == pair_texts(env@)
        },
        input matches JobInput::Exited(Some(code)) ==> step@ == JobStepView::Finish(
            seq![EventView::Exit { code }],
        ),
{
    let mut dir = remote_root.to_owned();
    dir.append("/");
    dir.append(project_key);
    match input {
        JobInput::Start => JobStep::MakeDir(dir),
        JobInput::DirFailed(cause) => {
            let mut message = "mkdir ".to_owned();
            message.append(dir.as_str());
            message.append(": ");
            message.append(cause.as_str());
            JobStep::Finish(error_and_exit(message, 1))
        },
        JobInput::DirReady => JobStep::Spawn {
            command: CommandLine {
                program: "cargo".to_owned(),
                args: copy_list(args.as_slice()),
            },
            dir: dir,
            env: copy_pairs(env),
        },
        JobInput::SpawnFailed(cause) => {
            let mut message = "spawn cargo: ".to_owned();
            message.append(cause.as_str());
            JobStep::Finish(error_and_exit(message, 127))
        },
        JobInput::OutLine(line) => JobStep::Send(Event::Stdout { data: line }),
        JobInput::ErrLine(line) => JobStep::Send(Event::Stderr { data: line }),
        JobInput::Exited(code) => {
            let mut events: Vec<Event> = Vec::new();
            events.push(Event::Exit { code: exit_code(code) });
            assert(event_views(events@) =~= seq![EventView::Exit { code: code_or_255(code) }]);
            JobStep::Finish(events)
        },
    }
}

/// `p` with the home directory in place of a leading `~`, where `p` begins with `~/` and the home
/// directory is known.
pub open spec fn expanded(p: Seq<char>, home: Option<Seq<char>>) -> Seq<char> {
    match (stripped(p, "~/"@), home) {
        (Some(rest), Some(h)) => trim_back(h, CharClass::Slash) + "/"@ + rest,
        _ => p,
    }
}

/// Put the home directory in place of a leading `~` of `p`.
pub fn expand_tilde(p: &str, home: Option<String>) -> (out: String)
    ensures
        out@ == expanded(p@, opt_text(home)),
{
    if let Some(rest) = after_prefix(p, "~/") {
        if let Some(h) = home {
            let mut out = trim_end(h.as_str(), CharClass::Slash);
            out.append("/");
            out.append(rest.as_str());
            return out;
        }
    }
    p.to_owned()
}

/// The notice of a certificate with this SHA-256 hash.
pub open spec fn notice_of_cert(hash: Seq<u8>) -> Seq<char> {
    "rcargod WT self-signed leaf cert sha256="@ + hex_text(hash)
        + " (pin this in clients for production)"@
}

/// The notice of the daemon's certificate, by which a client can pin it.
pub fn cert_notice(hash: &[u8]) -> (out: String)
    ensures
        out@ == notice_of_cert(hash@),
{
    let mut out = "rcargod WT self-signed leaf cert sha256=".to_owned();
    out.append(hex_encode(hash).as_str());
    out.append(" (pin this in clients for production)");
    out
}

/// A line that cargo writes.
pub enum OutputLine {
    Stdout(Seq<char>),
    Stderr(Seq<char>),
}

/// How a build can go.
pub enum JobRun {
    /// The project's tree could not be made.
    NoDir { cause: Seq<char> },
    /// Cargo could not be started.
    NoSpawn { cause: Seq<char> },
    /// Cargo wrote these lines and ended.
    Ran { lines: Seq<OutputLine>, code: Option<i32> },
}

/// What the caller reports of the lines that cargo writes.
pub open spec fn line_inputs(lines: Seq<OutputLine>) -> Seq<JobInputView> {
    Seq::new(
        lines.len(),
        |i: int|
            match lines[i] {
                OutputLine::Stdout(l) => JobInputView::OutLine(l),
                OutputLine::Stderr(l) => JobInputView::ErrLine(l),
            },
    )
}

/// What the caller reports of a build, from its start to its end.
pub open spec fn run_inputs(run: JobRun) -> Seq<JobInputView> {
    match run {
        JobRun::NoDir { cause } => seq![JobInputView::Start, JobInputView::DirFailed(cause)],
        JobRun::NoSpawn { cause } => seq![
            JobInputView::Start,
            JobInputView::DirReady,
            JobInputView::SpawnFailed(cause),
        ],
        JobRun::Ran { lines, code } => seq![JobInputView::Start, JobInputView::DirReady]
            + line_inputs(lines) + seq![JobInputView::Exited(code)],
    }
}

/// The events that a step sends.
pub open spec fn sent_by(step: JobStepView) -> Seq<EventView> {
    match step {
        JobStepView::Send(e) => seq![e],
        JobStepView::Finish(es) => es,
        _ => Seq::empty(),
    }
}

/// The events that the daemon sends while `inputs` happen.
pub open spec fn sent(
    root: Seq<char>,
    key: Seq<char>,
    args: Seq<Seq<char>>,
    env: Seq<(Seq<char>, Seq<char>)>,
    inputs: Seq<JobInputView>,
) -> Seq<EventView>
    decreases inputs.len(),
{
    if inputs.len() == 0 {
        Seq::empty()
    } else {
        sent(root, key, args, env, inputs.drop_last()) + sent_by(
            job_step(root, key, args, env, inputs.last()),
        )
    }
}

/// The events that the daemon sends for the lines that cargo writes.
pub open spec fn line_events(lines: Seq<OutputLine>) -> Seq<EventView> {
    Seq::new(
        lines.len(),
        |i: int|
            match lines[i] {
                OutputLine::Stdout(l) => EventView::Stdout { data: l },
                OutputLine::Stderr(l) => EventView::Stderr { data: l },
            },
    )
}

proof fn lemma_lines_sent(
    root: Seq<char>,
    key: Seq<char>,
    args: Seq<Seq<char>>,
    env: Seq<(Seq<char>, Seq<char>)>,
    lines: Seq<OutputLine>,
)
    ensures
        sent(
            root,
            key,
            args,
            env,
            seq![JobInputView::Start, JobInputView::DirReady] + line_inputs(lines),
        ) == line_events(lines),
    decreases lines.len(),
{
    let open = seq![JobInputView::Start, JobInputView::DirReady];
    let inputs = open + line_inputs(lines);
    if lines.len() == 0 {
        assert(inputs =~= open);
        assert(open.drop_last() =~= seq![JobInputView::Start]);
        assert(open.drop_last().drop_last() =~= Seq::empty());
        reveal_with_fuel(sent, 3);
        assert(sent(root, key, args, env, inputs) =~= line_events(lines));
    } else {
        lemma_lines_sent(root, key, args, env, lines.drop_last());
        assert(inputs.drop_last() =~= open + line_inputs(lines.drop_last()));
        assert(sent(root, key, args, env, inputs) =~= line_events(lines));
    }
}

/// What the daemon sends for a whole build.
pub open spec fn run_events(root: Seq<char>, key: Seq<char>, run: JobRun) -> Seq<EventView> {
    match run {
        JobRun::NoDir { cause } => seq![
            EventView::Error { message: "mkdir "@ + tree_dir(root, key) + ": "@ + cause },
            EventView::Exit { code: 1 },
        ],
        JobRun::NoSpawn { cause } => seq![
            EventView::Error { message: "spawn cargo: "@ + cause },
            EventView::Exit { code: 127 },
        ],
        JobRun::Ran { lines, code } => line_events(lines).push(
            EventView::Exit { code: code_or_255(code) },
        ),
    }
}

/// However a build goes, the daemon sends an event for each line of output, in order, and then the
/// exit.
pub proof fn law_build_is_reported(
    root: Seq<char>,
    key: Seq<char>,
    args: Seq<Seq<char>>,
    env: Seq<(Seq<char>, Seq<char>)>,
    run: JobRun,
)
    ensures
        sent(root, key, args, env, run_inputs(run)) == run_events(root, key, run),
{
    let inputs = run_inputs(run);
    match run {
        JobRun::NoDir { cause } => {
            assert(inputs.drop_last() =~= seq![JobInputView::Start]);
            assert(inputs.drop_last().drop_last() =~= Seq::empty());
            reveal_with_fuel(sent, 3);
            assert(sent(root, key, args, env, inputs) =~= run_events(root, key, run));
        },
        JobRun::NoSpawn { cause } => {
            assert(inputs.drop_last() =~= seq![JobInputView::Start, JobInputView::DirReady]);
            assert(inputs.drop_last().drop_last() =~= seq![JobInputView::Start]);
            assert(inputs.drop_last().drop_last().drop_last() =~= Seq::empty());
            reveal_with_fuel(sent, 4);
            assert(sent(root, key, args, env, inputs) =~= run_events(root, key, run));
        },
        JobRun::Ran { lines, code } => {
            lemma_lines_sent(root, key, args, env, lines);
            assert(inputs.drop_last() =~= seq![JobInputView::Start, JobInputView::DirReady]
                + line_inputs(lines));
            assert(sent(root, key, args, env, inputs) =~= run_events(root, key, run));
        },
    }
}

/// However a build goes, the last event that the daemon sends is an exit, and no event before it
/// is one.
pub proof fn law_exit_comes_last(
    root: Seq<char>,
    key: Seq<char>,
    args: Seq<Seq<char>>,
    env: Seq<(Seq<char>, Seq<char>)>,
    run: JobRun,
)
    ensures
        ({
            let events = sent(root, key, args, env, run_inputs(run));
            &&& events.len() > 0
            &&& events.last() is Exit
            &&& forall|i: int| 0 <= i < events.len() - 1 ==> !((#[trigger] events[i]) is Exit)
        }),
{
    law_build_is_reported(root, key, args, env, run);
}

/// What a client writes for the lines of a build: each with a line end, to the stream it came from.
pub open spec fn line_output(lines: Seq<OutputLine>) -> Seq<BuildStepView> {
    Seq::new(
        lines.len(),
        |i: int|
            match lines[i] {
                OutputLine::Stdout(l) => BuildStepView::WriteOut(l + "\n"@),
                OutputLine::Stderr(l) => BuildStepView::WriteErr(l + "\n"@),
            },
    )
}

proof fn lemma_lines_shown(lines: Seq<OutputLine>, exit: EventView)
    requires
        exit is Exit,
    ensures
        session_output(line_events(lines).push(exit)) == line_output(lines),
    decreases lines.len(),
{
    let events = line_events(lines).push(exit);
    if lines.len() == 0 {
        assert(events[0] == exit);
        assert(session_output(events) =~= line_output(lines));
    } else {
        let rest = lines.drop_first();
        lemma_lines_shown(rest, exit);
        assert(events.drop_first() =~= line_events(rest).push(exit));
        assert(session_output(events) =~= line_output(lines));
    }
}

/// A client of the daemon shows each line that cargo wrote, in order and on the stream it was
/// written to, and ends with cargo's exit code, or 255 where there is none.
pub proof fn law_client_sees_the_build(
    root: Seq<char>,
    key: Seq<char>,
    lines: Seq<OutputLine>,
    code: Option<i32>,
)
    ensures
        ({
            let events = run_events(root, key, JobRun::Ran { lines, code });
            &&& session_output(events) == line_output(lines)
            &&& session_end(events) == BuildStepView::Done(
                TransportOutcome { exit_code: code_or_255(code) },
            )
        }),
{
    let exit = EventView::Exit { code: code_or_255(code) };
    let events = run_events(root, key, JobRun::Ran { lines, code });
    lemma_lines_shown(lines, exit);
    let before = line_events(lines);
    assert(all_pass(before)) by {
        assert forall|i: int| 0 <= i < before.len() implies !is_end(
            on_event(#[trigger] before[i]),
        ) by {}
    }
    crate::transport::webtransport::law_first_end_decides(before, exit, Seq::empty());
    assert(events =~= before + seq![exit] + Seq::empty());
}

/// A client of a daemon that cannot make the project's tree, or cannot start cargo, shows nothing
/// and fails with the daemon's reason.
pub proof fn law_client_sees_the_failure(root: Seq<char>, key: Seq<char>, run: JobRun)
    requires
        !(run is Ran),
    ensures
        ({
            let events = run_events(root, key, run);
            &&& session_output(events) == Seq::<BuildStepView>::empty()
            &&& session_end(events) == BuildStepView::Fail(
                TransportErrorView::Daemon {
                    message: match run {
                        JobRun::NoDir { cause } => "mkdir "@ + tree_dir(root, key) + ": "@ + cause,
                        JobRun::NoSpawn { cause } => "spawn cargo: "@ + cause,
                        _ => Seq::empty(),
                    },
                },
            )
        }),
{
}

/// A path without a leading `~/` is not expanded, nor is any path where the home directory is not
/// known; one that is expanded begins with the home directory and ends as it did.
pub proof fn law_only_leading_tilde_expands(p: Seq<char>, home: Seq<char>)
    ensures
        stripped(p, "~/"@) is None ==> expanded(p, Some(home)) == p,
        stripped(p, "~/"@) is Some ==> {
            &&& trim_back(home, CharClass::Slash).is_prefix_of(expanded(p, Some(home)))
            &&& p.skip("~/"@.len() as int).is_suffix_of(expanded(p, Some(home)))
        },
        expanded(p, None) == p,
{
    if stripped(p, "~/"@) is Some {
        let h = trim_back(home, CharClass::Slash);
        let rest = p.skip("~/"@.len() as int);
        let e = expanded(p, Some(home));
        assert(e.take(h.len() as int) =~= h);
        assert(e.skip(e.len() - rest.len()) =~= rest);
    }
}

/// Only a bye ends a connection: a line that is no request is answered with an error that says
/// why, and the next line is read.
pub proof fn law_only_bye_stops(input: ServeInputView)
    ensures
        serve_step(input) is Stop <==> input == ServeInputView::Decoded(RequestView::Bye),
        input matches ServeInputView::Undecodable(cause) ==> serve_step(input)
            == ServeStepView::Answer(EventView::Error { message: "parse error: "@ + cause }),
{
}

/// Whatever version a client speaks, its hello is answered with the daemon's.
pub proof fn law_hello_is_answered(version: u32)
    ensures
        serve_step(ServeInputView::Decoded(RequestView::Hello { client_version: version }))
            == ServeStepView::Answer(EventView::HelloAck { server_version: PROTO_VERSION }),
{
}

/// A line that a client writes for a request reaches the daemon's decoder as it was written.
pub proof fn law_request_line_arrives(request: RequestView)
    ensures
        serve_step(ServeInputView::Line(request.line())) == ServeStepView::Decode(request.line()),
{
    assert(request.line()[0] == '{');
}

/// No variable is set twice in a build: the build that a client asks for names each variable once,
/// and where a request does, so do the build that the daemon runs for it and the process of that
/// build.
pub proof fn law_variables_are_named_once(
    key: Seq<char>,
    args: Seq<Seq<char>>,
    request: RequestView,
    root: Seq<char>,
)
    requires
        request.is_valid(),
    ensures
        opening(key, args)[1] == framed(build_request(key, args).line()),
        build_request(key, args).is_valid(),
        serve_step(ServeInputView::Decoded(request)) matches ServeStepView::Build {
            project_key,
            args: words,
            env,
        } ==> names_once(env) && (job_step(
            root,
            project_key,
            words,
            env,
            JobInputView::DirReady,
        ) matches JobStepView::Spawn { env: vars, .. } ==> names_once(vars)),
{
}

} // verus!
