//! Wire protocol between a client and the build daemon.
//!
//! Each side writes one JSON object per line: one [`Request`] in, many [`Event`]s back, ending
//! with [`Event::Exit`].
use vstd::prelude::*;

use crate::json::{is_one_line, json_list, json_member, json_object, json_quote, pair_texts};
use crate::json::{json_array, json_map, json_string, member};
use crate::text::{decimal, signed_decimal, texts};
use crate::text::{same_text, to_decimal, to_signed_decimal};

verus! {

/// Version of the protocol. It grows with each change that old peers cannot read.
pub const PROTO_VERSION: u32 = 1;

/// One request from a client to the daemon.
#[derive(Debug, Clone)]
pub enum Request {
    /// Run `cargo <args>` in the tree of the project, with these variables set, each name once.
    Build { project_key: String, args: Vec<String>, env: Vec<(String, String)> },
    /// Ask which version the daemon speaks.
    Hello { client_version: u32 },
    /// Close the connection.
    Bye,
}

/// What a [`Request`] holds.
pub enum RequestView {
    Build { project_key: Seq<char>, args: Seq<Seq<char>>, env: Seq<(Seq<char>, Seq<char>)> },
    Hello { client_version: u32 },
    Bye,
}

/// Whether each name stands once in a list of names and values.
pub open spec fn names_once(env: Seq<(Seq<char>, Seq<char>)>) -> bool {
    forall|i: int, j: int|
        0 <= i < j < env.len() ==> (#[trigger] env[i]).0 != (#[trigger] env[j]).0
}

impl RequestView {
    /// Whether the request names each variable once.
    pub open spec fn is_valid(self) -> bool {
        match self {
            RequestView::Build { env, .. } => names_once(env),
            _ => true,
        }
    }
}

/// The request to build a project with these arguments, and with no variables set.
pub open spec fn build_request(key: Seq<char>, args: Seq<Seq<char>>) -> RequestView {
    RequestView::Build { project_key: key, args: args, env: Seq::empty() }
}

impl View for Request {
    type V = RequestView;

    open spec fn view(&self) -> RequestView {
        match self {
            Request::Build { project_key, args, env } => RequestView::Build {
                project_key: project_key@,
                args: texts(args@),
                env: pair_texts(env@),
            },
            Request::Hello { client_version } => RequestView::Hello {
                client_version: *client_version,
            },
            Request::Bye => RequestView::Bye,
        }
    }
}

/// One event from the daemon to a client.
#[derive(Debug, Clone, PartialEq, Eq)]
pub enum Event {
    /// A line that the build wrote to its standard output.
    Stdout { data: String },
    /// A line that the build wrote to its standard error.
    Stderr { data: String },
    /// The answer to a hello: the version that the daemon speaks.
    HelloAck { server_version: u32 },
    /// The build is over; nothing follows.
    Exit { code: i32 },
    /// Something went wrong before the exit, or in its place.
    Error { message: String },
}

/// What an [`Event`] holds.
pub enum EventView {
    Stdout { data: Seq<char> },
    Stderr { data: Seq<char> },
    HelloAck { server_version: u32 },
    Exit { code: i32 },
    Error { message: Seq<char> },
}

impl View for Event {
    type V = EventView;

    open spec fn view(&self) -> EventView {
        match self {
            Event::Stdout { data } => EventView::Stdout { data: data@ },
            Event::Stderr { data } => EventView::Stderr { data: data@ },
            Event::HelloAck { server_version } => EventView::HelloAck {
                server_version: *server_version,
            },
            Event::Exit { code } => EventView::Exit { code: *code },
            Event::Error { message } => EventView::Error { message: message@ },
        }
    }
}

/// What each event of a list holds.
pub open spec fn event_views(events: Seq<Event>) -> Seq<EventView> {
    Seq::new(events.len(), |i: int| events[i]@)
}

/// The JSON object whose first member is `tag`, with `kind` for its value, and whose other members
/// stand in `rest`, each behind a comma.
pub open spec fn tagged(tag: Seq<char>, kind: Seq<char>, rest: Seq<char>) -> Seq<char> {
    seq!['{'] + (json_member(tag, json_quote(kind)) + (rest + seq!['}']))
}

/// A further member of a JSON object, behind a comma.
pub open spec fn next_member(name: Seq<char>, value: Seq<char>) -> Seq<char> {
    seq![','] + json_member(name, value)
}

impl EventView {
    /// The name of the event's kind on the wire.
    pub open spec fn kind(self) -> Seq<char> {
        match self {
            EventView::Stdout { .. } => "stdout"@,
            EventView::Stderr { .. } => "stderr"@,
            EventView::HelloAck { .. } => "hello_ack"@,
            EventView::Exit { .. } => "exit"@,
            EventView::Error { .. } => "error"@,
        }
    }

    /// The members of the event behind its kind.
    pub open spec fn members(self) -> Seq<char> {
        match self {
            EventView::Stdout { data } => next_member("data"@, json_quote(data)),
            EventView::Stderr { data } => next_member("data"@, json_quote(data)),
            EventView::HelloAck { server_version } => next_member(
                "server_version"@,
                decimal(server_version as nat),
            ),
            EventView::Exit { code } => next_member("code"@, signed_decimal(code as int)),
            EventView::Error { message } => next_member("message"@, json_quote(message)),
        }
    }

    /// The line that stands for the event.
    pub open spec fn line(self) -> Seq<char> {
        tagged("kind"@, self.kind(), self.members())
    }
}

impl RequestView {
    /// The name of the request's kind on the wire.
    pub open spec fn op(self) -> Seq<char> {
        match self {
            RequestView::Build { .. } => "build"@,
            RequestView::Hello { .. } => "hello"@,
            RequestView::Bye => "bye"@,
        }
    }

    /// The members of the request behind its kind.
    pub open spec fn members(self) -> Seq<char> {
        match self {
            RequestView::Build { project_key, args, env } => next_member(
                "project_key"@,
                json_quote(project_key),
            ) + (next_member("args"@, json_list(args)) + next_member("env"@, json_object(env))),
            RequestView::Hello { client_version } => next_member(
                "client_version"@,
                decimal(client_version as nat),
            ),
            RequestView::Bye => Seq::empty(),
        }
    }

    /// The line that stands for the request.
    pub open spec fn line(self) -> Seq<char> {
        tagged("op"@, self.op(), self.members())
    }
}

/// The JSON object whose first member is `tag`, behind which `rest` stands.
fn object(tag: &str, kind: &str, rest: &str) -> (out: String)
    ensures
        out@ == tagged(tag@, kind@, rest@),
{
    let mut out = String::new();
    out.push('{');
    out.append(member(tag, json_string(kind).as_str()).as_str());
    out.append(rest);
    out.push('}');
    assert(out@ =~= tagged(tag@, kind@, rest@));
    out
}

/// A further member of a JSON object.
fn further(name: &str, value: &str) -> (out: String)
    ensures
        out@ == next_member(name@, value@),
{
    let mut out = String::new();
    out.push(',');
    out.append(member(name, value).as_str());
    assert(out@ =~= next_member(name@, value@));
    out
}

impl Event {
    /// Encode as one line of JSON, without the line end.
    pub fn to_line(&self) -> (line: String)
        ensures
            line@ == self@.line(),
    {
        match self {
            Event::Stdout { data } => object(
                "kind",
                "stdout",
                further("data", json_string(data.as_str()).as_str()).as_str(),
            ),
            Event::Stderr { data } => object(
                "kind",
                "stderr",
                further("data", json_string(data.as_str()).as_str()).as_str(),
            ),
            Event::HelloAck { server_version } => object(
                "kind",
                "hello_ack",
                further("server_version", to_decimal(*server_version as u64).as_str()).as_str(),
            ),
            Event::Exit { code } => object(
                "kind",
                "exit",
                further("code", to_signed_decimal(*code).as_str()).as_str(),
            ),
            Event::Error { message } => object(
                "kind",
                "error",
                further("message", json_string(message.as_str()).as_str()).as_str(),
            ),
        }
    }
}

/// Tell whether each name stands once in a list of names and values.
pub fn has_names_once(env: &Vec<(String, String)>) -> (r: bool)
    ensures
        r == names_once(pair_texts(env@)),
{
    let ghost all = pair_texts(env@);
    let mut j: usize = 0;
    while j < env.len()
        invariant
            all == pair_texts(env@),
            j <= env.len(),
            forall|a: int, b: int|
                0 <= a < b < j ==> (#[trigger] all[a]).0 != (#[trigger] all[b]).0,
        decreases env.len() - j,
    {
        let mut i: usize = 0;
        while i < j
            invariant
                all == pair_texts(env@),
                i <= j < env.len(),
                forall|a: int| 0 <= a < i ==> (#[trigger] all[a]).0 != all[j as int].0,
            decreases j - i,
        {
            if same_text(env[i].0.as_str(), env[j].0.as_str()) {
                assert(all[i as int].0 == all[j as int].0);
                return false;
            }
            i += 1;
        }
        j += 1;
    }
    true
}

impl Request {
    /// Encode as one line of JSON, without the line end.
    pub fn to_line(&self) -> (line: String)
        requires
            self@.is_valid(),
        ensures
            line@ == self@.line(),
    {
        match self {
            Request::Build { project_key, args, env } => {
                let mut rest = further("project_key", json_string(project_key.as_str()).as_str());
                rest.append(further("args", json_array(args).as_str()).as_str());
                rest.append(further("env", json_map(env).as_str()).as_str());
                assert(rest@ =~= self@.members());
                object("op", "build", rest.as_str())
            },
            Request::Hello { client_version } => object(
                "op",
                "hello",
                further("client_version", to_decimal(*client_version as u64).as_str()).as_str(),
            ),
            Request::Bye => {
                let rest = String::new();
                object("op", "bye", rest.as_str())
            },
        }
    }
}

/// A line as it goes over the wire: with a line end behind it.
pub open spec fn framed(line: Seq<char>) -> Seq<char> {
    line.push('\n')
}

/// Put the line end behind a line.
pub fn frame(line: String) -> (out: String)
    ensures
        out@ == framed(line@),
{
    let mut out = line;
    out.push('\n');
    out
}

proof fn lemma_tagged_is_one_line(tag: Seq<char>, kind: Seq<char>, rest: Seq<char>)
    requires
        is_one_line(rest),
    ensures
        is_one_line(tagged(tag, kind, rest)),
{
    crate::json::lemma_quote_is_one_line(kind);
    crate::json::lemma_member_is_one_line(tag, json_quote(kind));
    crate::json::lemma_one_line_add(rest, seq!['}']);
    crate::json::lemma_one_line_add(json_member(tag, json_quote(kind)), rest + seq!['}']);
    crate::json::lemma_one_line_add(
        seq!['{'],
        json_member(tag, json_quote(kind)) + (rest + seq!['}']),
    );
}

proof fn lemma_next_is_one_line(name: Seq<char>, value: Seq<char>)
    requires
        is_one_line(value),
    ensures
        is_one_line(next_member(name, value)),
{
    crate::json::lemma_member_is_one_line(name, value);
    crate::json::lemma_one_line_add(seq![','], json_member(name, value));
}

proof fn lemma_decimal_is_one_line(n: nat)
    ensures
        is_one_line(decimal(n)),
{
    crate::text::lemma_decimal_reads_back(n);
    let d = decimal(n);
    assert forall|i: int| 0 <= i < d.len() implies (#[trigger] d[i]) as u32 >= 0x20 by {
        assert(crate::text::is_digit(d[i]));
    }
}

proof fn lemma_signed_decimal_is_one_line(n: int)
    ensures
        is_one_line(signed_decimal(n)),
{
    if n < 0 {
        lemma_decimal_is_one_line((-n) as nat);
        crate::json::lemma_one_line_add(seq!['-'], decimal((-n) as nat));
    } else {
        lemma_decimal_is_one_line(n as nat);
    }
}

/// The line of an event holds no line end, whatever text the event carries: the line end behind it
/// is the first, so a reader of lines gets exactly the events that were written.
pub proof fn law_event_is_one_line(e: EventView)
    ensures
        is_one_line(e.line()),
        !e.line().contains('\n'),
        !e.line().contains('\r'),
{
    match e {
        EventView::Stdout { data } => {
            crate::json::lemma_quote_is_one_line(data);
            lemma_next_is_one_line("data"@, json_quote(data));
        },
        EventView::Stderr { data } => {
            crate::json::lemma_quote_is_one_line(data);
            lemma_next_is_one_line("data"@, json_quote(data));
        },
        EventView::HelloAck { server_version } => {
            lemma_decimal_is_one_line(server_version as nat);
            lemma_next_is_one_line("server_version"@, decimal(server_version as nat));
        },
        EventView::Exit { code } => {
            lemma_signed_decimal_is_one_line(code as int);
            lemma_next_is_one_line("code"@, signed_decimal(code as int));
        },
        EventView::Error { message } => {
            crate::json::lemma_quote_is_one_line(message);
            lemma_next_is_one_line("message"@, json_quote(message));
        },
    }
    lemma_tagged_is_one_line("kind"@, e.kind(), e.members());
}

/// The line of a request holds no line end, whatever text the request carries.
pub proof fn law_request_is_one_line(r: RequestView)
    ensures
        is_one_line(r.line()),
        !r.line().contains('\n'),
        !r.line().contains('\r'),
{
    match r {
        RequestView::Build { project_key, args, env } => {
            crate::json::lemma_quote_is_one_line(project_key);
            crate::json::lemma_list_is_one_line(args);
            crate::json::lemma_object_is_one_line(env);
            let k = next_member("project_key"@, json_quote(project_key));
            let a = next_member("args"@, json_list(args));
            let e = next_member("env"@, json_object(env));
            lemma_next_is_one_line("project_key"@, json_quote(project_key));
            lemma_next_is_one_line("args"@, json_list(args));
            lemma_next_is_one_line("env"@, json_object(env));
            crate::json::lemma_one_line_add(a, e);
            crate::json::lemma_one_line_add(k, a + e);
        },
        RequestView::Hello { client_version } => {
            lemma_decimal_is_one_line(client_version as nat);
            lemma_next_is_one_line("client_version"@, decimal(client_version as nat));
        },
        RequestView::Bye => {},
    }
    lemma_tagged_is_one_line("op"@, r.op(), r.members());
}

proof fn lemma_tagged_splits(
    tag: Seq<char>,
    k: Seq<char>,
    l: Seq<char>,
    x: Seq<char>,
    y: Seq<char>,
)
    requires
        tagged(tag, k, x) == tagged(tag, l, y),
    ensures
        k == l,
        x == y,
{
    let a = json_member(tag, json_quote(k)) + (x + seq!['}']);
    let b = json_member(tag, json_quote(l)) + (y + seq!['}']);
    crate::json::lemma_strip(seq!['{'], a, b);
    crate::json::lemma_member_splits((tag, k), (tag, l), x + seq!['}'], y + seq!['}']);
    assert((x + seq!['}']).drop_last() =~= x);
    assert((y + seq!['}']).drop_last() =~= y);
}

proof fn lemma_next_splits(name: Seq<char>, v: Seq<char>, w: Seq<char>, x: Seq<char>, y: Seq<char>)
    requires
        next_member(name, v) + x == next_member(name, w) + y,
    ensures
        v + x == w + y,
{
    let head = seq![','] + json_quote(name) + seq![':'];
    assert(next_member(name, v) + x =~= head + (v + x));
    assert(next_member(name, w) + y =~= head + (w + y));
    crate::json::lemma_strip(head, v + x, w + y);
}

proof fn lemma_quoted_members_same(name: Seq<char>, v: Seq<char>, w: Seq<char>)
    requires
        next_member(name, json_quote(v)) == next_member(name, json_quote(w)),
    ensures
        v == w,
{
    let none = Seq::<char>::empty();
    assert(next_member(name, json_quote(v)) + none =~= next_member(name, json_quote(v)));
    assert(next_member(name, json_quote(w)) + none =~= next_member(name, json_quote(w)));
    lemma_next_splits(name, json_quote(v), json_quote(w), none, none);
    crate::json::lemma_quote_splits(v, w, none, none);
}

proof fn lemma_members_same(name: Seq<char>, v: Seq<char>, w: Seq<char>)
    requires
        next_member(name, v) == next_member(name, w),
    ensures
        v == w,
{
    let none = Seq::<char>::empty();
    assert(next_member(name, v) + none =~= next_member(name, v));
    assert(next_member(name, w) + none =~= next_member(name, w));
    lemma_next_splits(name, v, w, none, none);
    assert(v + none =~= v);
    assert(w + none =~= w);
}

proof fn lemma_signed_decimal_same(m: int, n: int)
    requires
        signed_decimal(m) == signed_decimal(n),
    ensures
        m == n,
{
    let p = if m < 0 {
        (-m) as nat
    } else {
        m as nat
    };
    let q = if n < 0 {
        (-n) as nat
    } else {
        n as nat
    };
    crate::text::lemma_decimal_reads_back(p);
    crate::text::lemma_decimal_reads_back(q);
    assert(crate::text::is_digit(decimal(p)[0]));
    assert(crate::text::is_digit(decimal(q)[0]));
    if m < 0 {
        assert(signed_decimal(m)[0] == '-');
        assert(signed_decimal(m).drop_first() =~= decimal(p));
    }
    if n < 0 {
        assert(signed_decimal(n)[0] == '-');
        assert(signed_decimal(n).drop_first() =~= decimal(q));
    }
}

/// A line stands for one event only: two events with the same line are the same event.
pub proof fn law_event_line_is_faithful(a: EventView, b: EventView)
    requires
        a.line() == b.line(),
    ensures
        a == b,
{
    lemma_tagged_splits("kind"@, a.kind(), b.kind(), a.members(), b.members());
    reveal_strlit("stdout");
    reveal_strlit("stderr");
    reveal_strlit("hello_ack");
    reveal_strlit("exit");
    reveal_strlit("error");
    assert("stdout"@[3] == 'o');
    assert("stderr"@[3] == 'e');
    match (a, b) {
        (EventView::Stdout { data: s }, EventView::Stdout { data: t }) => {
            lemma_quoted_members_same("data"@, s, t);
        },
        (EventView::Stderr { data: s }, EventView::Stderr { data: t }) => {
            lemma_quoted_members_same("data"@, s, t);
        },
        (EventView::Error { message: s }, EventView::Error { message: t }) => {
            lemma_quoted_members_same("message"@, s, t);
        },
        (EventView::HelloAck { server_version: m }, EventView::HelloAck { server_version: n }) => {
            lemma_members_same("server_version"@, decimal(m as nat), decimal(n as nat));
            crate::text::lemma_decimal_reads_back(m as nat);
            crate::text::lemma_decimal_reads_back(n as nat);
        },
        (EventView::Exit { code: m }, EventView::Exit { code: n }) => {
            lemma_members_same("code"@, signed_decimal(m as int), signed_decimal(n as int));
            lemma_signed_decimal_same(m as int, n as int);
        },
        _ => {
            assert(a.kind().len() == b.kind().len());
            assert(a.kind()[3] == b.kind()[3]);
            assert(false);
        },
    }
}

/// A line stands for one request only: two requests with the same line are the same request.
pub proof fn law_request_line_is_faithful(a: RequestView, b: RequestView)
    requires
        a.line() == b.line(),
    ensures
        a == b,
{
    lemma_tagged_splits("op"@, a.op(), b.op(), a.members(), b.members());
    reveal_strlit("build");
    reveal_strlit("hello");
    reveal_strlit("bye");
    assert("build"@[0] == 'b');
    assert("hello"@[0] == 'h');
    match (a, b) {
        (
            RequestView::Build { project_key: k1, args: a1, env: e1 },
            RequestView::Build { project_key: k2, args: a2, env: e2 },
        ) => {
            let x = next_member("args"@, json_list(a1)) + next_member("env"@, json_object(e1));
            let y = next_member("args"@, json_list(a2)) + next_member("env"@, json_object(e2));
            lemma_next_splits("project_key"@, json_quote(k1), json_quote(k2), x, y);
            crate::json::lemma_quote_splits(k1, k2, x, y);
            let p = next_member("env"@, json_object(e1));
            let q = next_member("env"@, json_object(e2));
            lemma_next_splits("args"@, json_list(a1), json_list(a2), p, q);
            crate::json::lemma_list_splits(a1, a2, p, q);
            lemma_members_same("env"@, json_object(e1), json_object(e2));
            let none = Seq::<char>::empty();
            assert(json_object(e1) + none =~= json_object(e1));
            assert(json_object(e2) + none =~= json_object(e2));
            crate::json::lemma_object_splits(e1, e2, none, none);
        },
        (RequestView::Hello { client_version: m }, RequestView::Hello { client_version: n }) => {
            lemma_members_same("client_version"@, decimal(m as nat), decimal(n as nat));
            crate::text::lemma_decimal_reads_back(m as nat);
            crate::text::lemma_decimal_reads_back(n as nat);
        },
        (RequestView::Bye, RequestView::Bye) => {},
        _ => {
            assert(a.op().len() == b.op().len());
            assert(a.op()[0] == b.op()[0]);
            assert(false);
        },
    }
}

/// The event that a line stands for, where it stands for one.
pub open spec fn event_of(line: Seq<char>) -> Option<EventView> {
    if exists|e: EventView| e.line() == line {
        Some(choose|e: EventView| e.line() == line)
    } else {
        None
    }
}

/// The request that a line stands for, where it stands for one.
pub open spec fn request_of(line: Seq<char>) -> Option<RequestView> {
    if exists|r: RequestView| r.line() == line {
        Some(choose|r: RequestView| r.line() == line)
    } else {
        None
    }
}

/// The line of an event stands for that event, with its kind and every field.
pub proof fn law_event_line_stands_for_it(e: EventView)
    ensures
        event_of(e.line()) == Some(e),
{
    let found = choose|f: EventView| f.line() == e.line();
    law_event_line_is_faithful(found, e);
}

/// The line of a request stands for that request, with its kind and every field.
pub proof fn law_request_line_stands_for_it(r: RequestView)
    ensures
        request_of(r.line()) == Some(r),
{
    let found = choose|q: RequestView| q.line() == r.line();
    law_request_line_is_faithful(found, r);
}

} // verus!
