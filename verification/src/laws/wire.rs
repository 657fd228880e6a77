//! Laws of the lines on the wire, and of a session with the daemon.
use vstd::prelude::*;

use crate::json::{json_chars, json_list, json_object, json_quote};
use crate::proto::{framed, names_once, next_member, tagged, EventView, RequestView};
use crate::text::{decimal, signed_decimal};
use crate::transport::webtransport::{build_step, session_url};
use crate::transport::{BuildInputView, BuildStepView, TransportErrorView, TransportOutcome};

verus! {

/// The line of each event, character by character.
pub proof fn law_event_lines(text: Seq<char>, version: u32, code: i32)
    ensures
        (EventView::Stdout { data: text }).line() == "{\"kind\":\"stdout\",\"data\":"@ + json_quote(
            text,
        ) + "}"@,
        (EventView::Stderr { data: text }).line() == "{\"kind\":\"stderr\",\"data\":"@ + json_quote(
            text,
        ) + "}"@,
        (EventView::HelloAck { server_version: version }).line()
            == "{\"kind\":\"hello_ack\",\"server_version\":"@ + decimal(version as nat) + "}"@,
        (EventView::Exit { code }).line() == "{\"kind\":\"exit\",\"code\":"@ + signed_decimal(
            code as int,
        ) + "}"@,
        (EventView::Error { message: text }).line() == "{\"kind\":\"error\",\"message\":"@
            + json_quote(text) + "}"@,
{
    reveal_strlit("}");
    assert("}"@ =~= seq!['}']);
    let none = Seq::<char>::empty();
    lemma_stdout_head();
    lemma_line("kind"@, "stdout"@, "data"@, json_quote(text), none);
    assert(next_member("data"@, json_quote(text)) + none =~= next_member("data"@, json_quote(text)));
    assert((EventView::Stdout { data: text }).line() =~= "{\"kind\":\"stdout\",\"data\":"@ + json_quote(text) + "}"@);
    lemma_stderr_head();
    lemma_line("kind"@, "stderr"@, "data"@, json_quote(text), none);
    assert(next_member("data"@, json_quote(text)) + none =~= next_member("data"@, json_quote(text)));
    assert((EventView::Stderr { data: text }).line() =~= "{\"kind\":\"stderr\",\"data\":"@ + json_quote(text) + "}"@);
    lemma_ack_head();
    lemma_line("kind"@, "hello_ack"@, "server_version"@, decimal(version as nat), none);
    assert(next_member("server_version"@, decimal(version as nat)) + none =~= next_member("server_version"@, decimal(version as nat)));
    assert((EventView::HelloAck { server_version: version }).line() =~= "{\"kind\":\"hello_ack\",\"server_version\":"@ + decimal(version as nat) + "}"@);
    lemma_exit_head();
    lemma_line("kind"@, "exit"@, "code"@, signed_decimal(code as int), none);
    assert(next_member("code"@, signed_decimal(code as int)) + none =~= next_member("code"@, signed_decimal(code as int)));
    assert((EventView::Exit { code }).line() =~= "{\"kind\":\"exit\",\"code\":"@ + signed_decimal(code as int) + "}"@);
    lemma_error_head();
    lemma_line("kind"@, "error"@, "message"@, json_quote(text), none);
    assert(next_member("message"@, json_quote(text)) + none =~= next_member("message"@, json_quote(text)));
    assert((EventView::Error { message: text }).line() =~= "{\"kind\":\"error\",\"message\":"@ + json_quote(text) + "}"@);
}

/// The line of each request, character by character.
pub proof fn law_request_lines(
    key: Seq<char>,
    args: Seq<Seq<char>>,
    env: Seq<(Seq<char>, Seq<char>)>,
    version: u32,
)
    ensures
        (RequestView::Build { project_key: key, args, env }).line()
            == "{\"op\":\"build\",\"project_key\":"@ + json_quote(key) + ",\"args\":"@ + json_list(
            args,
        ) + ",\"env\":"@ + json_object(env) + "}"@,
        (RequestView::Hello { client_version: version }).line()
            == "{\"op\":\"hello\",\"client_version\":"@ + decimal(version as nat) + "}"@,
        RequestView::Bye.line() == "{\"op\":\"bye\"}"@,
{
    reveal_strlit("}");
    assert("}"@ =~= seq!['}']);
    let none = Seq::<char>::empty();
    let a = next_member("args"@, json_list(args));
    let e = next_member("env"@, json_object(env));
    lemma_build_head();
    lemma_member_names(json_list(args), json_object(env));
    lemma_line("op"@, "build"@, "project_key"@, json_quote(key), a + e);
    assert((RequestView::Build { project_key: key, args, env }).line()
        =~= "{\"op\":\"build\",\"project_key\":"@ + json_quote(key) + ",\"args\":"@ + json_list(args)
        + ",\"env\":"@ + json_object(env) + "}"@);
    lemma_hello_head();
    lemma_line("op"@, "hello"@, "client_version"@, decimal(version as nat), none);
    assert(next_member("client_version"@, decimal(version as nat)) + none =~= next_member("client_version"@, decimal(version as nat)));
    assert((RequestView::Hello { client_version: version }).line() =~= "{\"op\":\"hello\",\"client_version\":"@ + decimal(version as nat) + "}"@);
    lemma_bye_line();
}

proof fn lemma_member_names(list: Seq<char>, object: Seq<char>)
    ensures
        next_member("args"@, list) == ",\"args\":"@ + list,
        next_member("env"@, object) == ",\"env\":"@ + object,
{
    reveal_strlit("args");
    reveal_strlit("env");
    reveal_strlit(",\"args\":");
    reveal_strlit(",\"env\":");
    lemma_bare("args"@);
    lemma_bare("env"@);
    assert(next_member("args"@, list) =~= ",\"args\":"@ + list);
    assert(next_member("env"@, object) =~= ",\"env\":"@ + object);
}

proof fn lemma_bye_line()
    ensures
        RequestView::Bye.line() == "{\"op\":\"bye\"}"@,
{
    reveal_strlit("op");
    reveal_strlit("bye");
    reveal_strlit("{\"op\":\"bye\"}");
    lemma_bare("op"@);
    lemma_bare("bye"@);
    assert(RequestView::Bye.line() =~= "{\"op\":\"bye\"}"@);
}

/// Whether nothing in `s` is escaped in a JSON string.
spec fn is_bare(s: Seq<char>) -> bool {
    forall|i: int|
        0 <= i < s.len() ==> ('a' <= #[trigger] s[i] <= 'z' || s[i] == '_')
}

proof fn lemma_bare(s: Seq<char>)
    requires
        is_bare(s),
    ensures
        json_chars(s) == s,
        json_quote(s) == seq!['"'] + s + seq!['"'],
    decreases s.len(),
{
    if s.len() > 0 {
        let t = s.drop_first();
        assert forall|i: int|
            0 <= i < t.len() implies ('a' <= #[trigger] t[i] <= 'z' || t[i] == '_') by {
            assert(t[i] == s[i + 1]);
        }
        lemma_bare(t);
        assert('a' <= s[0] <= 'z' || s[0] == '_');
        assert(crate::json::json_char(s[0]) =~= seq![s[0]]);
        assert(json_chars(s) =~= s);
    } else {
        assert(json_chars(s) =~= s);
    }
    assert(json_quote(s) =~= seq!['"'] + s + seq!['"']);
}

/// The front of a line: a brace, the tag with the kind, and the name of the next member.
spec fn head(tag: Seq<char>, kind: Seq<char>, name: Seq<char>) -> Seq<char> {
    seq!['{', '"'] + tag + seq!['"', ':', '"'] + kind + seq!['"', ',', '"'] + name + seq!['"', ':']
}

/// A line with a member behind its tag is its front, the value, and what follows.
proof fn lemma_line(
    tag: Seq<char>,
    kind: Seq<char>,
    name: Seq<char>,
    value: Seq<char>,
    more: Seq<char>,
)
    requires
        is_bare(tag),
        is_bare(kind),
        is_bare(name),
    ensures
        tagged(tag, kind, next_member(name, value) + more) == head(tag, kind, name) + value + more
            + seq!['}'],
{
    lemma_bare(tag);
    lemma_bare(kind);
    lemma_bare(name);
    assert(tagged(tag, kind, next_member(name, value) + more) =~= head(tag, kind, name) + value
        + more + seq!['}']);
}

proof fn lemma_stdout_head()
    ensures
        head("kind"@, "stdout"@, "data"@) == "{\"kind\":\"stdout\",\"data\":"@,
        is_bare("kind"@) && is_bare("stdout"@) && is_bare("data"@),
{
    reveal_strlit("kind");
    reveal_strlit("stdout");
    reveal_strlit("data");
    reveal_strlit("{\"kind\":\"stdout\",\"data\":");
    assert(head("kind"@, "stdout"@, "data"@) =~= "{\"kind\":\"stdout\",\"data\":"@);
}

proof fn lemma_stderr_head()
    ensures
        head("kind"@, "stderr"@, "data"@) == "{\"kind\":\"stderr\",\"data\":"@,
        is_bare("kind"@) && is_bare("stderr"@) && is_bare("data"@),
{
    reveal_strlit("kind");
    reveal_strlit("stderr");
    reveal_strlit("data");
    reveal_strlit("{\"kind\":\"stderr\",\"data\":");
    assert(head("kind"@, "stderr"@, "data"@) =~= "{\"kind\":\"stderr\",\"data\":"@);
}

proof fn lemma_ack_head()
    ensures
        head("kind"@, "hello_ack"@, "server_version"@) == "{\"kind\":\"hello_ack\",\"server_version\":"@,
        is_bare("kind"@) && is_bare("hello_ack"@) && is_bare("server_version"@),
{
    reveal_strlit("kind");
    reveal_strlit("hello_ack");
    reveal_strlit("server_version");
    reveal_strlit("{\"kind\":\"hello_ack\",\"server_version\":");
    assert(head("kind"@, "hello_ack"@, "server_version"@) =~= "{\"kind\":\"hello_ack\",\"server_version\":"@);
}

proof fn lemma_exit_head()
    ensures
        head("kind"@, "exit"@, "code"@) == "{\"kind\":\"exit\",\"code\":"@,
        is_bare("kind"@) && is_bare("exit"@) && is_bare("code"@),
{
    reveal_strlit("kind");
    reveal_strlit("exit");
    reveal_strlit("code");
    reveal_strlit("{\"kind\":\"exit\",\"code\":");
    assert(head("kind"@, "exit"@, "code"@) =~= "{\"kind\":\"exit\",\"code\":"@);
}

proof fn lemma_error_head()
    ensures
        head("kind"@, "error"@, "message"@) == "{\"kind\":\"error\",\"message\":"@,
        is_bare("kind"@) && is_bare("error"@) && is_bare("message"@),
{
    reveal_strlit("kind");
    reveal_strlit("error");
    reveal_strlit("message");
    reveal_strlit("{\"kind\":\"error\",\"message\":");
    assert(head("kind"@, "error"@, "message"@) =~= "{\"kind\":\"error\",\"message\":"@);
}

proof fn lemma_build_head()
    ensures
        head("op"@, "build"@, "project_key"@) == "{\"op\":\"build\",\"project_key\":"@,
        is_bare("op"@) && is_bare("build"@) && is_bare("project_key"@),
{
    reveal_strlit("op");
    reveal_strlit("build");
    reveal_strlit("project_key");
    reveal_strlit("{\"op\":\"build\",\"project_key\":");
    assert(head("op"@, "build"@, "project_key"@) =~= "{\"op\":\"build\",\"project_key\":"@);
}

proof fn lemma_hello_head()
    ensures
        head("op"@, "hello"@, "client_version"@) == "{\"op\":\"hello\",\"client_version\":"@,
        is_bare("op"@) && is_bare("hello"@) && is_bare("client_version"@),
{
    reveal_strlit("op");
    reveal_strlit("hello");
    reveal_strlit("client_version");
    reveal_strlit("{\"op\":\"hello\",\"client_version\":");
    assert(head("op"@, "hello"@, "client_version"@) =~= "{\"op\":\"hello\",\"client_version\":"@);
}

/// A JSON list holds each item once and in order, with commas between them.
pub proof fn law_list_grows_by_items(items: Seq<Seq<char>>, last: Seq<char>)
    ensures
        json_list(Seq::empty()) == "[]"@,
        json_list(seq![last]) == "["@ + json_quote(last) + "]"@,
        items.len() > 0 ==> json_list(items.push(last)) == json_list(items).drop_last() + ","@
            + json_quote(last) + "]"@,
{
    reveal_strlit("[]");
    reveal_strlit("[");
    reveal_strlit("]");
    reveal_strlit(",");
    assert(json_list(Seq::empty()) =~= "[]"@);
    lemma_items_grow(Seq::empty(), last);
    assert(Seq::<Seq<char>>::empty().push(last) =~= seq![last]);
    assert(json_list(seq![last]) =~= "["@ + json_quote(last) + "]"@);
    if items.len() > 0 {
        lemma_items_grow(items, last);
        assert(json_list(items.push(last)) =~= json_list(items).drop_last() + ","@ + json_quote(
            last,
        ) + "]"@);
    }
}

proof fn lemma_items_grow(items: Seq<Seq<char>>, last: Seq<char>)
    ensures
        crate::json::json_items(items.push(last)) == crate::json::json_items(items) + (seq![',']
            + json_quote(last)),
        items.len() > 0 ==> crate::json::json_items(items).len() > 0,
    decreases items.len(),
{
    let all = items.push(last);
    if items.len() == 0 {
        assert(all.drop_first() =~= Seq::empty());
        assert(crate::json::json_items(all.drop_first()) =~= Seq::empty());
        assert(crate::json::json_items(all) =~= crate::json::json_items(items) + (seq![',']
            + json_quote(last)));
    } else {
        assert(all[0] == items[0]);
        assert(all.drop_first() =~= items.drop_first().push(last));
        lemma_items_grow(items.drop_first(), last);
        assert(crate::json::json_items(all) =~= crate::json::json_items(items) + (seq![',']
            + json_quote(last)));
    }
}

/// A JSON object holds each pair once and in order, with commas between them.
pub proof fn law_object_grows_by_pairs(
    pairs: Seq<(Seq<char>, Seq<char>)>,
    name: Seq<char>,
    value: Seq<char>,
)
    ensures
        json_object(Seq::empty()) == "{}"@,
        json_object(seq![(name, value)]) == "{"@ + json_quote(name) + ":"@ + json_quote(value)
            + "}"@,
        pairs.len() > 0 ==> json_object(pairs.push((name, value))) == json_object(pairs).drop_last()
            + ","@ + json_quote(name) + ":"@ + json_quote(value) + "}"@,
{
    reveal_strlit("{}");
    reveal_strlit("{");
    reveal_strlit("}");
    reveal_strlit(",");
    reveal_strlit(":");
    assert(json_object(Seq::empty()) =~= "{}"@);
    let none = Seq::<(Seq<char>, Seq<char>)>::empty();
    lemma_pairs_grow(none, name, value);
    assert(none.push((name, value)) =~= seq![(name, value)]);
    assert(json_object(seq![(name, value)]) =~= "{"@ + json_quote(name) + ":"@ + json_quote(value)
        + "}"@);
    if pairs.len() > 0 {
        lemma_pairs_grow(pairs, name, value);
        assert(json_object(pairs.push((name, value))) =~= json_object(pairs).drop_last() + ","@
            + json_quote(name) + ":"@ + json_quote(value) + "}"@);
    }
}

proof fn lemma_pairs_grow(
    pairs: Seq<(Seq<char>, Seq<char>)>,
    name: Seq<char>,
    value: Seq<char>,
)
    ensures
        crate::json::json_pairs(pairs.push((name, value))) == crate::json::json_pairs(pairs) + (
        seq![','] + json_quote(name) + seq![':'] + json_quote(value)),
        pairs.len() > 0 ==> crate::json::json_pairs(pairs).len() > 0,
    decreases pairs.len(),
{
    let all = pairs.push((name, value));
    let tail = seq![','] + json_quote(name) + seq![':'] + json_quote(value);
    if pairs.len() == 0 {
        assert(all.drop_first() =~= Seq::empty());
        assert(crate::json::json_pairs(all.drop_first()) =~= Seq::empty());
        assert(crate::json::json_pairs(all) =~= crate::json::json_pairs(pairs) + tail);
    } else {
        assert(all[0] == pairs[0]);
        assert(all.drop_first() =~= pairs.drop_first().push((name, value)));
        lemma_pairs_grow(pairs.drop_first(), name, value);
        assert(crate::json::json_pairs(all) =~= crate::json::json_pairs(pairs) + tail);
    }
}

/// A line goes over the wire with one line feed behind it.
pub proof fn law_frame_is_one_line_feed(line: Seq<char>)
    ensures
        framed(line) == line + "\n"@,
{
    reveal_strlit("\n");
    assert(framed(line) =~= line + "\n"@);
}

/// No name stands twice exactly where any two places hold different names.
pub proof fn law_names_stand_once(env: Seq<(Seq<char>, Seq<char>)>, i: int, j: int)
    requires
        0 <= i < env.len(),
        0 <= j < env.len(),
        i != j,
    ensures
        names_once(env) ==> env[i].0 != env[j].0,
        (forall|a: int, b: int|
            0 <= a < b < env.len() ==> (#[trigger] env[a]).0 != (#[trigger] env[b]).0)
            ==> names_once(env),
{
    if names_once(env) {
        if i < j {
            assert(env[i].0 != env[j].0);
        } else {
            assert(env[j].0 != env[i].0);
        }
    }
}

/// A session is opened at the daemon's address with two lines: a hello of version 1, and the build
/// of this project with every argument, and with no variables.
pub proof fn law_session_asks_for_the_build(
    host: Seq<char>,
    port: u16,
    url: Seq<char>,
    key: Seq<char>,
    args: Seq<Seq<char>>,
)
    ensures
        session_url(host, port) == "https://"@ + host + ":"@ + decimal(port as nat) + "/rcargo"@,
        ({
            &&& build_step(url, key, args, BuildInputView::Start) matches BuildStepView::Open {
                url: at,
                lines,
            }
            &&& at == url
            &&& lines.len() == 2
            &&& lines[0] == "{\"op\":\"hello\",\"client_version\":"@ + decimal(1) + "}"@ + "\n"@
            &&& lines[1] == "{\"op\":\"build\",\"project_key\":"@ + json_quote(key) + ",\"args\":"@
                + json_list(args) + ",\"env\":"@ + "{}"@ + "}"@ + "\n"@
        }),
{
    let env = Seq::<(Seq<char>, Seq<char>)>::empty();
    law_request_lines(key, args, env, 1);
    law_object_grows_by_pairs(env, key, key);
    law_frame_is_one_line_feed((RequestView::Hello { client_version: 1 }).line());
    law_frame_is_one_line_feed((RequestView::Build { project_key: key, args, env }).line());
}

/// What a client does with what comes over the stream: a line is decoded without its end, an empty
/// line is passed over, and the end of the stream is a failure.
pub proof fn law_session_reads_lines(
    url: Seq<char>,
    key: Seq<char>,
    args: Seq<Seq<char>>,
    line: Seq<char>,
    end: Seq<char>,
)
    requires
        line.len() > 0 ==> line.last() != '\n' && line.last() != '\r',
        forall|i: int| 0 <= i < end.len() ==> #[trigger] end[i] == '\n' || end[i] == '\r',
    ensures
        ({
            let step = build_step(url, key, args, BuildInputView::Read(line + end));
            &&& line.len() > 0 ==> step == BuildStepView::Decode(line)
            &&& line.len() == 0 && end.len() > 0 ==> step == BuildStepView::Continue
            &&& line.len() == 0 && end.len() == 0 ==> step == BuildStepView::Fail(
                TransportErrorView::StreamClosed,
            )
        }),
{
    lemma_ends_go(line, end);
}

proof fn lemma_ends_go(line: Seq<char>, end: Seq<char>)
    requires
        line.len() > 0 ==> line.last() != '\n' && line.last() != '\r',
        forall|i: int| 0 <= i < end.len() ==> #[trigger] end[i] == '\n' || end[i] == '\r',
    ensures
        crate::text::trim_back(line + end, crate::text::CharClass::LineEnd) == line,
    decreases end.len(),
{
    if end.len() == 0 {
        assert(line + end =~= line);
    } else {
        let e = end.drop_last();
        assert forall|i: int| 0 <= i < e.len() implies #[trigger] e[i] == '\n' || e[i] == '\r' by {
            assert(e[i] == end[i]);
        }
        assert((line + end).last() == end[end.len() - 1]);
        assert((line + end).drop_last() =~= line + e);
        lemma_ends_go(line, e);
    }
}

/// What a client does with each event: output is shown on its stream with a line feed, an exit ends
/// the build with its code and an error with its message; a daemon of another version and a line
/// that is no event are warned of, and the build goes on.
pub proof fn law_session_heeds_events(
    url: Seq<char>,
    key: Seq<char>,
    args: Seq<Seq<char>>,
    text: Seq<char>,
    cause: Seq<char>,
    version: u32,
    code: i32,
)
    ensures
        build_step(url, key, args, BuildInputView::Decoded(EventView::Stdout { data: text }))
            == BuildStepView::WriteOut(text + "\n"@),
        build_step(url, key, args, BuildInputView::Decoded(EventView::Stderr { data: text }))
            == BuildStepView::WriteErr(text + "\n"@),
        build_step(url, key, args, BuildInputView::Decoded(EventView::Exit { code }))
            == BuildStepView::Done(TransportOutcome { exit_code: code }),
        build_step(url, key, args, BuildInputView::Decoded(EventView::Error { message: text }))
            == BuildStepView::Fail(TransportErrorView::Daemon { message: text }),
        version == 1 ==> build_step(
            url,
            key,
            args,
            BuildInputView::Decoded(EventView::HelloAck { server_version: version }),
        ) == BuildStepView::Continue,
        version != 1 ==> build_step(
            url,
            key,
            args,
            BuildInputView::Decoded(EventView::HelloAck { server_version: version }),
        ) == BuildStepView::Warn(
            "rcargo WT: protocol mismatch: client v"@ + decimal(1) + ", server v"@ + decimal(
                version as nat,
            ),
        ),
        build_step(url, key, args, BuildInputView::Undecodable { line: text, cause })
            == BuildStepView::Warn(
            "rcargo WT: bad event line: "@ + cause + " (raw: "@ + text + ")"@,
        ),
        build_step(url, key, args, BuildInputView::OutLine(text)) == BuildStepView::Continue,
        build_step(url, key, args, BuildInputView::ErrLine(text)) == BuildStepView::Continue,
        build_step(url, key, args, BuildInputView::Exited(Some(code))) == BuildStepView::Continue,
        build_step(url, key, args, BuildInputView::Exited(None)) == BuildStepView::Continue,
{
}

} // verus!
