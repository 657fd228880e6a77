//! JSON text for strings, lists of strings and maps of strings.
use vstd::prelude::*;

use crate::text::{hex_digit, texts};

verus! {

/// One character as it stands in a JSON string: a quote, a backslash and the control characters
/// below the space are escaped, anything else is itself.
pub open spec fn json_char(c: char) -> Seq<char> {
    if c == '"' || c == '\\' {
        seq!['\\', c]
    } else if c == '\u{8}' {
        seq!['\\', 'b']
    } else if c == '\t' {
        seq!['\\', 't']
    } else if c == '\n' {
        seq!['\\', 'n']
    } else if c == '\u{c}' {
        seq!['\\', 'f']
    } else if c == '\r' {
        seq!['\\', 'r']
    } else if (c as u32) < 0x20 {
        seq![
            '\\',
            'u',
            '0',
            '0',
            hex_digit((c as u32 / 16) as int),
            hex_digit((c as u32 % 16) as int),
        ]
    } else {
        seq![c]
    }
}

/// The characters of `s` as they stand in a JSON string.
pub open spec fn json_chars(s: Seq<char>) -> Seq<char>
    decreases s.len(),
{
    if s.len() == 0 {
        Seq::empty()
    } else {
        json_char(s[0]) + json_chars(s.drop_first())
    }
}

/// `s` as a JSON string, with its quotes.
pub open spec fn json_quote(s: Seq<char>) -> Seq<char> {
    seq!['"'] + (json_chars(s) + seq!['"'])
}

/// The strings as JSON, each behind a comma.
pub open spec fn json_items(items: Seq<Seq<char>>) -> Seq<char>
    decreases items.len(),
{
    if items.len() == 0 {
        Seq::empty()
    } else {
        seq![','] + (json_quote(items[0]) + json_items(items.drop_first()))
    }
}

/// The strings as a JSON array.
pub open spec fn json_list(items: Seq<Seq<char>>) -> Seq<char> {
    if items.len() == 0 {
        seq!['[', ']']
    } else {
        seq!['['] + (json_items(items).drop_first() + seq![']'])
    }
}

/// One member of a JSON object: its name and, behind a colon, the JSON text of its value.
pub open spec fn json_member(name: Seq<char>, value: Seq<char>) -> Seq<char> {
    json_quote(name) + (seq![':'] + value)
}

/// The pairs as members of a JSON object, each behind a comma.
pub open spec fn json_pairs(pairs: Seq<(Seq<char>, Seq<char>)>) -> Seq<char>
    decreases pairs.len(),
{
    if pairs.len() == 0 {
        Seq::empty()
    } else {
        seq![','] + (json_member(pairs[0].0, json_quote(pairs[0].1)) + json_pairs(
            pairs.drop_first(),
        ))
    }
}

/// The pairs as a JSON object, in their order.
pub open spec fn json_object(pairs: Seq<(Seq<char>, Seq<char>)>) -> Seq<char> {
    if pairs.len() == 0 {
        seq!['{', '}']
    } else {
        seq!['{'] + (json_pairs(pairs).drop_first() + seq!['}'])
    }
}

/// `serde_json::to_string` of a string gives the string in double quotes, where a double quote, a
/// backslash and each control character below the space are escaped: the usual ones by a letter,
/// the others by `\u00` and two hexadecimal digits with small letters.
#[verifier::external_body]
pub(crate) fn json_string(s: &str) -> (out: String)
    ensures
        out@ == json_quote(s@),
{
    serde_json::to_string(s).expect("a string is JSON")
}

/// The strings as a JSON array.
pub(crate) fn json_array(items: &Vec<String>) -> (out: String)
    ensures
        out@ == json_list(texts(items@)),
{
    let ghost all = texts(items@);
    let mut out = String::new();
    out.push('[');
    if items.len() > 0 {
        out.append(json_string(items[0].as_str()).as_str());
        assert(all.drop_first() =~= all.skip(1));
        assert(json_items(all).drop_first() =~= json_quote(all[0]) + json_items(all.skip(1)));
        assert(out@ + json_items(all.skip(1)) =~= seq!['['] + json_items(all).drop_first());
        let mut i: usize = 1;
        while i < items.len()
            invariant
                all == texts(items@),
                1 <= i <= items.len(),
                out@ + json_items(all.skip(i as int)) == seq!['['] + json_items(all).drop_first(),
            decreases items.len() - i,
        {
            let ghost rest = all.skip(i as int);
            let ghost before = out@;
            out.push(',');
            out.append(json_string(items[i].as_str()).as_str());
            assert(rest.drop_first() =~= all.skip(i + 1));
            assert(out@ + json_items(rest.drop_first()) =~= before + json_items(rest));
            i += 1;
        }
        assert(out@ + json_items(all.skip(i as int)) =~= out@);
    }
    out.push(']');
    assert(out@ =~= json_list(all));
    out
}

/// The contents of each pair of a list.
pub open spec fn pair_texts(list: Seq<(String, String)>) -> Seq<(Seq<char>, Seq<char>)> {
    Seq::new(list.len(), |i: int| (list[i].0@, list[i].1@))
}

/// A copy of a list of pairs.
pub(crate) fn copy_pairs(list: &Vec<(String, String)>) -> (out: Vec<(String, String)>)
    ensures
        out@ == list@,
{
    let mut out: Vec<(String, String)> = Vec::new();
    let mut i: usize = 0;
    while i < list.len()
        invariant
            i <= list.len(),
            out@ == list@.take(i as int),
        decreases list.len() - i,
    {
        out.push((list[i].0.clone(), list[i].1.clone()));
        i += 1;
        assert(out@ =~= list@.take(i as int));
    }
    assert(list@.take(i as int) =~= list@);
    out
}

/// One member of a JSON object.
pub(crate) fn member(name: &str, value: &str) -> (out: String)
    ensures
        out@ == json_member(name@, value@),
{
    let mut out = json_string(name);
    out.push(':');
    out.append(value);
    assert(out@ =~= json_member(name@, value@));
    out
}

/// The pairs as a JSON object, in their order.
pub(crate) fn json_map(pairs: &Vec<(String, String)>) -> (out: String)
    ensures
        out@ == json_object(pair_texts(pairs@)),
{
    let ghost all = pair_texts(pairs@);
    let mut out = String::new();
    out.push('{');
    if pairs.len() > 0 {
        let first = json_string(pairs[0].1.as_str());
        out.append(member(pairs[0].0.as_str(), first.as_str()).as_str());
        assert(all.drop_first() =~= all.skip(1));
        assert(json_pairs(all).drop_first() =~= json_member(all[0].0, json_quote(all[0].1))
            + json_pairs(all.skip(1)));
        assert(out@ + json_pairs(all.skip(1)) =~= seq!['{'] + json_pairs(all).drop_first());
        let mut i: usize = 1;
        while i < pairs.len()
            invariant
                all == pair_texts(pairs@),
                1 <= i <= pairs.len(),
                out@ + json_pairs(all.skip(i as int)) == seq!['{'] + json_pairs(all).drop_first(),
            decreases pairs.len() - i,
        {
            let ghost rest = all.skip(i as int);
            let ghost before = out@;
            out.push(',');
            let value = json_string(pairs[i].1.as_str());
            out.append(member(pairs[i].0.as_str(), value.as_str()).as_str());
            assert(rest.drop_first() =~= all.skip(i + 1));
            assert(out@ + json_pairs(rest.drop_first()) =~= before + json_pairs(rest));
            i += 1;
        }
        assert(out@ + json_pairs(all.skip(i as int)) =~= out@);
    }
    out.push('}');
    assert(out@ =~= json_object(all));
    out
}

/// Whether a text holds no control character below the space, and so no line end.
pub open spec fn is_one_line(s: Seq<char>) -> bool {
    forall|i: int| 0 <= i < s.len() ==> (#[trigger] s[i]) as u32 >= 0x20
}

/// Two texts on one line, one behind the other, are on one line.
pub proof fn lemma_one_line_add(a: Seq<char>, b: Seq<char>)
    ensures
        is_one_line(a) && is_one_line(b) ==> is_one_line(a + b),
{
    if is_one_line(a) && is_one_line(b) {
        assert forall|i: int| 0 <= i < (a + b).len() implies (#[trigger] (a + b)[i]) as u32
            >= 0x20 by {
            if i < a.len() {
                assert((a + b)[i] == a[i]);
            } else {
                assert((a + b)[i] == b[i - a.len()]);
            }
        }
    }
}

/// A JSON string is on one line, whatever it holds.
pub proof fn lemma_quote_is_one_line(s: Seq<char>)
    ensures
        is_one_line(json_quote(s)),
{
    lemma_chars_are_one_line(s);
    lemma_one_line_add(json_chars(s), seq!['"']);
    lemma_one_line_add(seq!['"'], json_chars(s) + seq!['"']);
}

proof fn lemma_chars_are_one_line(s: Seq<char>)
    ensures
        is_one_line(json_chars(s)),
    decreases s.len(),
{
    if s.len() > 0 {
        lemma_chars_are_one_line(s.drop_first());
        let e = json_char(s[0]);
        assert(is_one_line(e));
        lemma_one_line_add(e, json_chars(s.drop_first()));
    }
}

/// A JSON array of strings is on one line.
pub proof fn lemma_list_is_one_line(items: Seq<Seq<char>>)
    ensures
        is_one_line(json_list(items)),
{
    if items.len() > 0 {
        lemma_items_are_one_line(items);
        let rest = json_items(items).drop_first();
        assert(is_one_line(rest));
        lemma_one_line_add(rest, seq![']']);
        lemma_one_line_add(seq!['['], rest + seq![']']);
    }
}

proof fn lemma_items_are_one_line(items: Seq<Seq<char>>)
    ensures
        is_one_line(json_items(items)),
    decreases items.len(),
{
    if items.len() > 0 {
        let rest = items.drop_first();
        lemma_items_are_one_line(rest);
        lemma_quote_is_one_line(items[0]);
        lemma_one_line_add(json_quote(items[0]), json_items(rest));
        lemma_one_line_add(seq![','], json_quote(items[0]) + json_items(rest));
    }
}

/// A member of a JSON object is on one line where its value is.
pub proof fn lemma_member_is_one_line(name: Seq<char>, value: Seq<char>)
    requires
        is_one_line(value),
    ensures
        is_one_line(json_member(name, value)),
{
    lemma_quote_is_one_line(name);
    lemma_one_line_add(seq![':'], value);
    lemma_one_line_add(json_quote(name), seq![':'] + value);
}

/// A JSON object of strings is on one line.
pub proof fn lemma_object_is_one_line(pairs: Seq<(Seq<char>, Seq<char>)>)
    ensures
        is_one_line(json_object(pairs)),
{
    if pairs.len() > 0 {
        lemma_pairs_are_one_line(pairs);
        let rest = json_pairs(pairs).drop_first();
        assert(is_one_line(rest));
        lemma_one_line_add(rest, seq!['}']);
        lemma_one_line_add(seq!['{'], rest + seq!['}']);
    }
}

proof fn lemma_pairs_are_one_line(pairs: Seq<(Seq<char>, Seq<char>)>)
    ensures
        is_one_line(json_pairs(pairs)),
    decreases pairs.len(),
{
    if pairs.len() > 0 {
        let rest = pairs.drop_first();
        let first = json_member(pairs[0].0, json_quote(pairs[0].1));
        lemma_pairs_are_one_line(rest);
        lemma_quote_is_one_line(pairs[0].1);
        lemma_member_is_one_line(pairs[0].0, json_quote(pairs[0].1));
        lemma_one_line_add(first, json_pairs(rest));
        lemma_one_line_add(seq![','], first + json_pairs(rest));
    }
}

/// What follows a common beginning of two equal texts is equal.
pub proof fn lemma_strip(head: Seq<char>, a: Seq<char>, b: Seq<char>)
    requires
        head + a == head + b,
    ensures
        a == b,
{
    assert((head + a).skip(head.len() as int) =~= a);
    assert((head + b).skip(head.len() as int) =~= b);
}

proof fn lemma_json_char_splits(a: char, b: char, x: Seq<char>, y: Seq<char>)
    requires
        json_char(a) + x == json_char(b) + y,
    ensures
        a == b,
        x == y,
{
    let l = json_char(a) + x;
    let r = json_char(b) + y;
    assert(l[0] == json_char(a)[0]);
    assert(r[0] == json_char(b)[0]);
    if json_char(a).len() > 1 {
        assert(l[1] == json_char(a)[1]);
    }
    if json_char(b).len() > 1 {
        assert(r[1] == json_char(b)[1]);
    }
    if json_char(a).len() == 6 && json_char(b).len() == 6 {
        assert(l[4] == json_char(a)[4]);
        assert(r[4] == json_char(b)[4]);
        assert(l[5] == json_char(a)[5]);
        assert(r[5] == json_char(b)[5]);
    }
    assert(a == b);
    lemma_strip(json_char(a), x, y);
}

proof fn lemma_chars_split(s: Seq<char>, t: Seq<char>, x: Seq<char>, y: Seq<char>)
    requires
        json_chars(s) + (seq!['"'] + x) == json_chars(t) + (seq!['"'] + y),
    ensures
        s == t,
        x == y,
    decreases s.len(),
{
    let l = json_chars(s) + (seq!['"'] + x);
    let r = json_chars(t) + (seq!['"'] + y);
    if s.len() == 0 {
        assert(l[0] == '"');
        if t.len() > 0 {
            assert(r[0] == json_char(t[0])[0]);
        }
        assert(s =~= t);
        assert(l =~= seq!['"'] + x);
        assert(r =~= seq!['"'] + y);
        lemma_strip(seq!['"'], x, y);
    } else if t.len() == 0 {
        assert(r[0] == '"');
        assert(l[0] == json_char(s[0])[0]);
    } else {
        let s1 = s.drop_first();
        let t1 = t.drop_first();
        let lx = json_chars(s1) + (seq!['"'] + x);
        let ry = json_chars(t1) + (seq!['"'] + y);
        assert(l =~= json_char(s[0]) + lx);
        assert(r =~= json_char(t[0]) + ry);
        lemma_json_char_splits(s[0], t[0], lx, ry);
        lemma_chars_split(s1, t1, x, y);
        assert(s =~= seq![s[0]] + s1);
        assert(t =~= seq![t[0]] + t1);
    }
}

/// Where a JSON string ends is seen in the text: two texts that begin with JSON strings and are
/// equal begin with the same string and go on alike.
pub proof fn lemma_quote_splits(s: Seq<char>, t: Seq<char>, x: Seq<char>, y: Seq<char>)
    requires
        json_quote(s) + x == json_quote(t) + y,
    ensures
        s == t,
        x == y,
{
    let l = json_chars(s) + (seq!['"'] + x);
    let r = json_chars(t) + (seq!['"'] + y);
    assert(json_quote(s) + x =~= seq!['"'] + l);
    assert(json_quote(t) + y =~= seq!['"'] + r);
    lemma_strip(seq!['"'], l, r);
    lemma_chars_split(s, t, x, y);
}

proof fn lemma_items_split(a: Seq<Seq<char>>, b: Seq<Seq<char>>, x: Seq<char>, y: Seq<char>)
    requires
        json_items(a) + (seq![']'] + x) == json_items(b) + (seq![']'] + y),
    ensures
        a == b,
        x == y,
    decreases a.len(),
{
    let l = json_items(a) + (seq![']'] + x);
    let r = json_items(b) + (seq![']'] + y);
    if a.len() == 0 {
        assert(l[0] == ']');
        if b.len() > 0 {
            assert(r[0] == ',');
        }
        assert(a =~= b);
        assert(l =~= seq![']'] + x);
        assert(r =~= seq![']'] + y);
        lemma_strip(seq![']'], x, y);
    } else if b.len() == 0 {
        assert(r[0] == ']');
        assert(l[0] == ',');
    } else {
        let lx = json_items(a.drop_first()) + (seq![']'] + x);
        let ry = json_items(b.drop_first()) + (seq![']'] + y);
        assert(l =~= seq![','] + (json_quote(a[0]) + lx));
        assert(r =~= seq![','] + (json_quote(b[0]) + ry));
        lemma_strip(seq![','], json_quote(a[0]) + lx, json_quote(b[0]) + ry);
        lemma_quote_splits(a[0], b[0], lx, ry);
        lemma_items_split(a.drop_first(), b.drop_first(), x, y);
        assert(a =~= seq![a[0]] + a.drop_first());
        assert(b =~= seq![b[0]] + b.drop_first());
    }
}

/// Where a JSON array of strings ends is seen in the text.
pub proof fn lemma_list_splits(a: Seq<Seq<char>>, b: Seq<Seq<char>>, x: Seq<char>, y: Seq<char>)
    requires
        json_list(a) + x == json_list(b) + y,
    ensures
        a == b,
        x == y,
{
    let l = json_list(a) + x;
    let r = json_list(b) + y;
    let la = json_items(a);
    let lb = json_items(b);
    if a.len() == 0 {
        assert(l[1] == ']');
        if b.len() > 0 {
            assert(r[1] == lb.drop_first()[0]);
            assert(lb[1] == json_quote(b[0])[0]);
        }
    } else if b.len() == 0 {
        assert(r[1] == ']');
        assert(l[1] == la.drop_first()[0]);
        assert(la[1] == json_quote(a[0])[0]);
    }
    assert(a.len() == 0 <==> b.len() == 0);
    if a.len() == 0 {
        assert(a =~= b);
        lemma_strip(seq!['[', ']'], x, y);
    } else {
        let lx = la.drop_first() + (seq![']'] + x);
        let ry = lb.drop_first() + (seq![']'] + y);
        assert(l =~= seq!['['] + lx);
        assert(r =~= seq!['['] + ry);
        lemma_strip(seq!['['], lx, ry);
        assert(la + (seq![']'] + x) =~= seq![','] + lx);
        assert(lb + (seq![']'] + y) =~= seq![','] + ry);
        lemma_items_split(a, b, x, y);
    }
}

/// Where a member of a JSON object with a string for its value ends is seen in the text.
pub proof fn lemma_member_splits(
    a: (Seq<char>, Seq<char>),
    b: (Seq<char>, Seq<char>),
    x: Seq<char>,
    y: Seq<char>,
)
    requires
        json_member(a.0, json_quote(a.1)) + x == json_member(b.0, json_quote(b.1)) + y,
    ensures
        a == b,
        x == y,
{
    let lx = json_quote(a.1) + x;
    let ry = json_quote(b.1) + y;
    assert(json_member(a.0, json_quote(a.1)) + x =~= json_quote(a.0) + (seq![':'] + lx));
    assert(json_member(b.0, json_quote(b.1)) + y =~= json_quote(b.0) + (seq![':'] + ry));
    lemma_quote_splits(a.0, b.0, seq![':'] + lx, seq![':'] + ry);
    lemma_strip(seq![':'], lx, ry);
    lemma_quote_splits(a.1, b.1, x, y);
}

proof fn lemma_pairs_split(
    a: Seq<(Seq<char>, Seq<char>)>,
    b: Seq<(Seq<char>, Seq<char>)>,
    x: Seq<char>,
    y: Seq<char>,
)
    requires
        json_pairs(a) + (seq!['}'] + x) == json_pairs(b) + (seq!['}'] + y),
    ensures
        a == b,
        x == y,
    decreases a.len(),
{
    let l = json_pairs(a) + (seq!['}'] + x);
    let r = json_pairs(b) + (seq!['}'] + y);
    if a.len() == 0 {
        assert(l[0] == '}');
        if b.len() > 0 {
            assert(r[0] == ',');
        }
        assert(a =~= b);
        assert(l =~= seq!['}'] + x);
        assert(r =~= seq!['}'] + y);
        lemma_strip(seq!['}'], x, y);
    } else if b.len() == 0 {
        assert(r[0] == '}');
        assert(l[0] == ',');
    } else {
        let ma = json_member(a[0].0, json_quote(a[0].1));
        let mb = json_member(b[0].0, json_quote(b[0].1));
        let lx = json_pairs(a.drop_first()) + (seq!['}'] + x);
        let ry = json_pairs(b.drop_first()) + (seq!['}'] + y);
        assert(l =~= seq![','] + (ma + lx));
        assert(r =~= seq![','] + (mb + ry));
        lemma_strip(seq![','], ma + lx, mb + ry);
        lemma_member_splits(a[0], b[0], lx, ry);
        lemma_pairs_split(a.drop_first(), b.drop_first(), x, y);
        assert(a =~= seq![a[0]] + a.drop_first());
        assert(b =~= seq![b[0]] + b.drop_first());
    }
}

/// Where a JSON object of strings ends is seen in the text.
pub proof fn lemma_object_splits(
    a: Seq<(Seq<char>, Seq<char>)>,
    b: Seq<(Seq<char>, Seq<char>)>,
    x: Seq<char>,
    y: Seq<char>,
)
    requires
        json_object(a) + x == json_object(b) + y,
    ensures
        a == b,
        x == y,
{
    let l = json_object(a) + x;
    let r = json_object(b) + y;
    let la = json_pairs(a);
    let lb = json_pairs(b);
    if a.len() == 0 {
        assert(l[1] == '}');
        if b.len() > 0 {
            assert(r[1] == lb.drop_first()[0]);
            assert(lb[1] == json_quote(b[0].0)[0]);
        }
    } else if b.len() == 0 {
        assert(r[1] == '}');
        assert(l[1] == la.drop_first()[0]);
        assert(la[1] == json_quote(a[0].0)[0]);
    }
    assert(a.len() == 0 <==> b.len() == 0);
    if a.len() == 0 {
        assert(a =~= b);
        lemma_strip(seq!['{', '}'], x, y);
    } else {
        let lx = la.drop_first() + (seq!['}'] + x);
        let ry = lb.drop_first() + (seq!['}'] + y);
        assert(l =~= seq!['{'] + lx);
        assert(r =~= seq!['{'] + ry);
        lemma_strip(seq!['{'], lx, ry);
        assert(la + (seq!['}'] + x) =~= seq![','] + lx);
        assert(lb + (seq!['}'] + y) =~= seq![','] + ry);
        lemma_pairs_split(a, b, x, y);
    }
}

} // verus!
