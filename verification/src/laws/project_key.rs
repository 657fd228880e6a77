//! Laws of project keys.
use vstd::prelude::*;

use crate::project_key::{composed_key, file_name, hex_text, is_set, name_start, project_key};
use crate::project_key::{key_chars, origin_said, sanitized, sha256_digest};
use crate::text::{is_white, trim_back, CharClass};

verus! {

/// The bytes in hexadecimal, byte by byte.
pub open spec fn hex_of(bytes: Seq<u8>) -> Seq<char>
    decreases bytes.len(),
{
    if bytes.len() == 0 {
        Seq::empty()
    } else {
        let digits = "0123456789abcdef"@;
        hex_of(bytes.drop_last()).push(digits[bytes.last() as int / 16]).push(
            digits[bytes.last() as int % 16],
        )
    }
}

/// A byte in hexadecimal is two digits, the high one first.
pub proof fn law_hex_is_two_digits(bytes: Seq<u8>)
    ensures
        hex_text(bytes) == hex_of(bytes),
    decreases bytes.len(),
{
    reveal_strlit("0123456789abcdef");
    if bytes.len() == 0 {
        assert(hex_text(bytes) =~= hex_of(bytes));
    } else {
        let front = bytes.drop_last();
        law_hex_is_two_digits(front);
        let n = 2 * front.len() as int;
        let b = bytes.last() as int;
        assert(0 <= b / 16 < 16 && 0 <= b % 16 < 16);
        assert(hex_text(bytes)[n] == crate::text::hex_digit(b / 16));
        assert(hex_text(bytes)[n + 1] == crate::text::hex_digit(b % 16));
        assert forall|i: int| 0 <= i < n implies hex_text(bytes)[i] == hex_text(front)[i] by {
            assert(bytes[i / 2] == front[i / 2]);
        }
        assert(hex_text(bytes) =~= hex_of(bytes));
    }
}

/// One character of a basename, made safe: a capital made small; a letter, a digit, `-`, `_` or `.`
/// as it is; a dash for any other.
pub open spec fn made_safe(c: char) -> char {
    if 'A' <= c <= 'Z' {
        (c as u32 + 32) as char
    } else if 'a' <= c <= 'z' || '0' <= c <= '9' || c == '-' || c == '_' || c == '.' {
        c
    } else {
        '-'
    }
}

/// A basename is made safe character by character. Only at its ends do dashes go, whatever they
/// stand for; what has nothing else becomes `rcargo-project`.
pub proof fn law_basename_is_made_safe_in_place(
    front: Seq<char>,
    kept: Seq<char>,
    back: Seq<char>,
)
    requires
        forall|i: int| 0 <= i < front.len() ==> made_safe(#[trigger] front[i]) == '-',
        forall|i: int| 0 <= i < back.len() ==> made_safe(#[trigger] back[i]) == '-',
        kept.len() > 0 ==> made_safe(kept[0]) != '-' && made_safe(kept.last()) != '-',
    ensures
        kept.len() > 0 ==> sanitized(front + kept + back) == Seq::new(
            kept.len(),
            |i: int| made_safe(kept[i]),
        ),
        kept.len() == 0 ==> sanitized(front + kept + back) == "rcargo-project"@,
{
    let s = front + kept + back;
    let f = Seq::new(front.len(), |i: int| made_safe(front[i]));
    let k = Seq::new(kept.len(), |i: int| made_safe(kept[i]));
    let b = Seq::new(back.len(), |i: int| made_safe(back[i]));
    assert forall|c: char| #[trigger] made_safe(c) == crate::project_key::key_char(c) by {}
    assert forall|i: int| 0 <= i < s.len() implies key_chars(s)[i] == (f + k + b)[i] by {
        assert(key_chars(s)[i] == made_safe(s[i]));
    }
    assert(key_chars(s) =~= f + k + b);
    assert forall|i: int| 0 <= i < f.len() implies CharClass::Dash.has(#[trigger] f[i]) by {
        assert(made_safe(front[i]) == '-');
    }
    assert forall|i: int| 0 <= i < b.len() implies CharClass::Dash.has(#[trigger] b[i]) by {
        assert(made_safe(back[i]) == '-');
    }
    crate::laws::text::law_trim_takes_the_ends(f, k, b, CharClass::Dash);
}

/// Whether `name` can be the last name of a path.
pub open spec fn is_name(name: Seq<char>) -> bool {
    &&& name.len() > 0
    &&& name != "."@
    &&& name != ".."@
    &&& forall|i: int| 0 <= i < name.len() ==> #[trigger] name[i] != '/'
}

/// The last name of a path is what stands behind its last slash; slashes at its end, and names `.`
/// there, do not count. `..`, and a path with no name at all, have none.
pub proof fn law_last_name_of_a_path(dir: Seq<char>, name: Seq<char>)
    ensures
        is_name(name) ==> file_name(name) == Some(name),
        is_name(name) ==> file_name(dir + "/"@ + name) == Some(name),
        file_name(dir + "/"@) == file_name(dir),
        file_name(dir + "/."@) == file_name(dir),
        file_name(dir + "/.."@) is None,
        file_name("."@) is None,
        file_name(".."@) is None,
        file_name(Seq::empty()) is None,
{
    reveal_strlit("/");
    reveal_strlit("/.");
    reveal_strlit("/..");
    reveal_strlit(".");
    reveal_strlit("..");
    let slash = seq!['/'];
    assert("/"@ =~= slash);
    assert("."@ =~= seq!['.']);
    assert(".."@ =~= seq!['.', '.']);
    if is_name(name) {
        lemma_name_found(Seq::empty(), name);
        assert(Seq::<char>::empty() + name =~= name);
        lemma_name_found(dir + slash, name);
    }
    // A slash at the end goes with those before it.
    assert((dir + slash).drop_last() =~= dir);
    assert(trim_back(dir + slash, CharClass::Slash) == trim_back(dir, CharClass::Slash));
    // So does a name `.` behind one.
    let dot = dir + "/."@;
    assert(dot =~= (dir + slash) + "."@);
    lemma_start_found(dir + slash, "."@);
    assert(dot.last() == '.');
    assert(dot.skip((dir + slash).len() as int) =~= "."@);
    assert(dot.take((dir + slash).len() as int) =~= dir + slash);
    let up = dir + "/.."@;
    assert(up =~= (dir + slash) + ".."@);
    lemma_start_found(dir + slash, ".."@);
    assert(up.last() == '.');
    assert(up.skip((dir + slash).len() as int) =~= ".."@);
    let none = Seq::<char>::empty();
    assert(none + "."@ =~= "."@);
    assert(none + ".."@ =~= ".."@);
    lemma_start_found(none, "."@);
    lemma_start_found(none, ".."@);
    assert("."@.skip(0) =~= "."@);
    assert("."@.take(0) =~= none);
    assert(".."@.skip(0) =~= ".."@);
    assert(none.skip(0) =~= none);
    assert(file_name(none) is None);
    assert(file_name("."@) == file_name(none));
}

proof fn lemma_start_found(dir: Seq<char>, name: Seq<char>)
    requires
        dir.len() > 0 ==> dir.last() == '/',
        forall|i: int| 0 <= i < name.len() ==> #[trigger] name[i] != '/',
    ensures
        name_start(dir + name) == dir.len(),
    decreases name.len(),
{
    let s = dir + name;
    if name.len() == 0 {
        assert(s =~= dir);
    } else {
        let m = name.drop_last();
        assert forall|i: int| 0 <= i < m.len() implies #[trigger] m[i] != '/' by {
            assert(m[i] == name[i]);
        }
        assert(s.last() == name[name.len() - 1]);
        assert(s.drop_last() =~= dir + m);
        lemma_start_found(dir, m);
    }
}

proof fn lemma_name_found(dir: Seq<char>, name: Seq<char>)
    requires
        dir.len() > 0 ==> dir.last() == '/',
        is_name(name),
    ensures
        file_name(dir + name) == Some(name),
{
    let s = dir + name;
    assert(s.last() == name[name.len() - 1]);
    lemma_start_found(dir, name);
    assert(s.skip(dir.len() as int) =~= name);
}

/// A key that the user sets counts unless it is white space alone, and is made safe; neither the
/// path nor the origin matters then.
pub proof fn law_set_key_counts(
    set_key: Seq<char>,
    i: int,
    path: Seq<char>,
    origin: Option<Seq<char>>,
)
    ensures
        0 <= i < set_key.len() && !is_white(set_key[i]) ==> is_set(Some(set_key)) && project_key(
            Some(set_key),
            path,
            origin,
        ) == sanitized(set_key),
        (forall|k: int| 0 <= k < set_key.len() ==> is_white(#[trigger] set_key[k])) ==> !is_set(
            Some(set_key),
        ),
        !is_set(None),
{
}

/// A key that the user does not set is the last name of the path, or `rcargo-unknown`, made safe, a
/// dash, and the first six bytes, in hexadecimal, of the hash of the path, a zero byte and the git
/// origin, where none counts as empty.
pub proof fn law_key_is_name_and_hash(
    set_key: Option<Seq<char>>,
    path: Seq<char>,
    origin: Option<Seq<char>>,
)
    requires
        !is_set(set_key),
    ensures
        ({
            let text = if origin is Some {
                origin->0
            } else {
                Seq::empty()
            };
            let name = if file_name(path) is Some {
                file_name(path)->0
            } else {
                "rcargo-unknown"@
            };
            let hash = sha256_digest(
                vstd::utf8::encode_utf8(path) + seq![0u8] + vstd::utf8::encode_utf8(text),
            );
            project_key(set_key, path, origin) == sanitized(name) + "-"@ + hex_of(hash.take(6))
        }),
{
    let text = if origin is Some {
        origin->0
    } else {
        Seq::empty()
    };
    let hash = sha256_digest(
        vstd::utf8::encode_utf8(path) + seq![0u8] + vstd::utf8::encode_utf8(text),
    );
    law_hex_is_two_digits(hash.take(6));
}

/// A key is made of its name and its digest alone.
pub proof fn law_composed_key(name: Seq<char>, digest: Seq<u8>)
    ensures
        composed_key(Some(name), digest) == sanitized(name) + "-"@ + hex_of(digest.take(6)),
        composed_key(None, digest) == sanitized("rcargo-unknown"@) + "-"@ + hex_of(digest.take(6)),
{
    law_hex_is_two_digits(digest.take(6));
}

/// The git origin is what git wrote, without the white space around it, wherever git succeeded.
pub proof fn law_origin_is_what_git_said(front: Seq<char>, url: Seq<char>, back: Seq<char>)
    requires
        forall|i: int| 0 <= i < front.len() ==> is_white(#[trigger] front[i]),
        forall|i: int| 0 <= i < back.len() ==> is_white(#[trigger] back[i]),
        url.len() > 0 ==> !is_white(url[0]) && !is_white(url.last()),
    ensures
        origin_said(true, front + url + back) == Some(url),
        origin_said(false, front + url + back) is None,
{
    assert forall|i: int| 0 <= i < front.len() implies CharClass::White.has(#[trigger] front[i]) by {
        assert(is_white(front[i]));
    }
    assert forall|i: int| 0 <= i < back.len() implies CharClass::White.has(#[trigger] back[i]) by {
        assert(is_white(back[i]));
    }
    crate::laws::text::law_trim_takes_the_ends(front, url, back, CharClass::White);
}

} // verus!
