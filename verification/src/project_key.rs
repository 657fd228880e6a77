//! Deterministic project keys.
//!
//! The same tree always maps to the same remote directory, so that `target/` survives from one
//! run to the next. The key is
//!
//! ```text
//! <basename>-<first 12 hex digits of sha256(canonical path, NUL, git origin)>
//! ```
//!
//! The basename is the directory's name, made small and safe. Two checkouts of one repository at
//! different paths hash different text. A key that the user sets is taken in its place, made safe
//! in the same way.
use sha2::Digest;
use vstd::prelude::*;
use vstd::string::*;

use crate::text::{alphanumeric, blank, chars_of, same_text, string_of, to_lower, trim, CharClass};
use crate::text::{hex_digit, is_alphanumeric, is_blank, lower, opt_text};
use crate::text::{trim_back, trim_both, trim_front};

verus! {

/// The SHA-256 digest of a sequence of bytes.
pub uninterp spec fn sha256_digest(data: Seq<u8>) -> Seq<u8>;

/// `sha2::Sha256::digest` gives the SHA-256 digest of the bytes, which has 32 bytes.
#[verifier::external_body]
fn sha256(data: &[u8]) -> (digest: Vec<u8>)
    ensures
        digest@ == sha256_digest(data@),
        digest@.len() == 32,
{
    sha2::Sha256::digest(data).to_vec()
}

/// The bytes in hexadecimal: two digits for each, the high one first.
pub open spec fn hex_text(data: Seq<u8>) -> Seq<char> {
    Seq::new(
        2 * data.len(),
        |i: int|
            hex_digit(
                if i % 2 == 0 {
                    data[i / 2] as int / 16
                } else {
                    data[i / 2] as int % 16
                },
            ),
    )
}

/// `hex::encode` writes each byte as two hexadecimal digits with small letters, the high one first.
#[verifier::external_body]
pub(crate) fn hex_encode(data: &[u8]) -> (out: String)
    ensures
        out@ == hex_text(data@),
{
    hex::encode(data)
}

/// Whether a character may stand in the basename of a key.
pub open spec fn is_key_char(c: char) -> bool {
    is_alphanumeric(c) || c == '-' || c == '_' || c == '.'
}

/// One character of a basename, made safe.
pub open spec fn key_char(c: char) -> char {
    if is_key_char(c) {
        lower(c)
    } else {
        '-'
    }
}

/// The characters of `s`, each made safe.
pub open spec fn key_chars(s: Seq<char>) -> Seq<char> {
    Seq::new(s.len(), |i: int| key_char(s[i]))
}

/// `s` made safe, without dashes at its ends; `rcargo-project` where nothing is left.
pub open spec fn sanitized(s: Seq<char>) -> Seq<char> {
    let t = trim_both(key_chars(s), CharClass::Dash);
    if t.len() == 0 {
        "rcargo-project"@
    } else {
        t
    }
}

/// The index behind the last `/` of a path.
pub open spec fn name_start(path: Seq<char>) -> int
    decreases path.len(),
{
    if path.len() == 0 || path.last() == '/' {
        path.len() as int
    } else {
        name_start(path.drop_last())
    }
}

/// The last name of a path lies inside it.
pub proof fn lemma_name_start_bound(path: Seq<char>)
    ensures
        0 <= name_start(path) <= path.len(),
    decreases path.len(),
{
    if path.len() > 0 && path.last() != '/' {
        lemma_name_start_bound(path.drop_last());
    }
}

/// Trimming never makes a text longer.
pub proof fn lemma_trim_back_bound(s: Seq<char>, class: CharClass)
    ensures
        trim_back(s, class).len() <= s.len(),
    decreases s.len(),
{
    if s.len() > 0 && class.has(s.last()) {
        lemma_trim_back_bound(s.drop_last(), class);
    }
}

/// The last name in a path: what follows its last `/`, leaving aside slashes and names `.` at its
/// end. There is none where that name is `..`, or where nothing is left.
pub open spec fn file_name(path: Seq<char>) -> Option<Seq<char>>
    decreases path.len(),
{
    let t = trim_back(path, CharClass::Slash);
    let at = name_start(t);
    let name = t.skip(at);
    if name.len() == 0 {
        None
    } else if name == "."@ {
        proof {
            lemma_name_start_bound(t);
            lemma_trim_back_bound(path, CharClass::Slash);
        }
        file_name(t.take(at))
    } else if name == ".."@ {
        None
    } else {
        Some(name)
    }
}

/// The bytes that the hash of a key is over.
pub open spec fn hashed_bytes(canonical: Seq<char>, origin: Seq<char>) -> Seq<u8> {
    vstd::utf8::encode_utf8(canonical) + seq![0u8] + vstd::utf8::encode_utf8(origin)
}

/// The git origin, or the empty text where there is none.
pub open spec fn origin_text(origin: Option<Seq<char>>) -> Seq<char> {
    match origin {
        Some(o) => o,
        None => Seq::empty(),
    }
}

/// The digest that the hash of a key is taken from.
pub open spec fn tree_digest(canonical: Seq<char>, origin: Option<Seq<char>>) -> Seq<u8> {
    sha256_digest(hashed_bytes(canonical, origin_text(origin)))
}

/// The basename, or what stands for one.
pub open spec fn name_or_unknown(basename: Option<Seq<char>>) -> Seq<char> {
    match basename {
        Some(b) => b,
        None => "rcargo-unknown"@,
    }
}

/// The key made of a basename and a digest.
pub open spec fn composed_key(basename: Option<Seq<char>>, digest: Seq<u8>) -> Seq<char> {
    sanitized(name_or_unknown(basename)) + "-"@ + hex_text(digest.take(6))
}

/// The key of the tree at the path `canonical` with the git origin `origin`, where the user may
/// have set a key.
pub open spec fn project_key(
    set_key: Option<Seq<char>>,
    canonical: Seq<char>,
    origin: Option<Seq<char>>,
) -> Seq<char> {
    if is_set(set_key) {
        sanitized(set_key->0)
    } else {
        composed_key(
            file_name(canonical),
            tree_digest(canonical, origin),
        )
    }
}

/// Make a basename safe: ASCII letters become small, every character but `-`, `_`, `.`, letters
/// and digits becomes `-`, and dashes at the ends go.
pub fn sanitize_basename(s: &str) -> (out: String)
    ensures
        out@ == sanitized(s@),
{
    let chars = chars_of(s);
    let mut mapped = String::new();
    let mut i: usize = 0;
    while i < chars.len()
        invariant
            i <= chars.len(),
            mapped@ == key_chars(chars@).take(i as int),
        decreases chars.len() - i,
    {
        let c = chars[i];
        if alphanumeric(c) || c == '-' || c == '_' || c == '.' {
            mapped.push(to_lower(c));
        } else {
            mapped.push('-');
        }
        i += 1;
        assert(mapped@ =~= key_chars(chars@).take(i as int));
    }
    assert(mapped@ =~= key_chars(s@));
    let trimmed = trim(mapped.as_str(), CharClass::Dash);
    if trimmed.as_str().is_empty() {
        "rcargo-project".to_owned()
    } else {
        trimmed
    }
}

/// What `git remote get-url origin` came to.
#[derive(Debug, PartialEq, Eq)]
pub struct GitOutput {
    /// Whether git succeeded.
    pub success: bool,
    /// What git wrote.
    pub stdout: String,
}

/// The git origin that git's output stands for.
pub open spec fn origin_said(success: bool, stdout: Seq<char>) -> Option<Seq<char>> {
    if success {
        Some(trim_both(stdout, CharClass::White))
    } else {
        None
    }
}

/// The git origin of a tree, from what git said: none where git did not run or failed.
pub fn git_origin_url(output: Option<GitOutput>) -> (origin: Option<String>)
    ensures
        match output {
            Some(o) => opt_text(origin) == origin_said(o.success, o.stdout@),
            None => origin is None,
        },
{
    match output {
        Some(o) => if o.success {
            Some(trim(o.stdout.as_str(), CharClass::White))
        } else {
            None
        },
        None => None,
    }
}

/// The last name in a path.
pub fn path_file_name(path: &str) -> (name: Option<String>)
    ensures
        opt_text(name) == file_name(path@),
{
    let chars = chars_of(path);
    let mut end: usize = chars.len();
    assert(chars@.take(end as int) =~= chars@);
    loop
        invariant
            end <= chars.len(),
            file_name(path@) == file_name(chars@.take(end as int)),
        decreases end,
    {
        let ghost before = chars@.take(end as int);
        let ghost mark = end;
        while end > 0 && chars[end - 1] == '/'
            invariant
                end <= mark <= chars.len(),
                before == chars@.take(mark as int),
                trim_back(before, CharClass::Slash) == trim_back(
                    chars@.take(end as int),
                    CharClass::Slash,
                ),
            decreases end,
        {
            assert(chars@.take(end as int).drop_last() =~= chars@.take(end - 1));
            end -= 1;
        }
        let ghost t = chars@.take(end as int);
        assert(trim_back(before, CharClass::Slash) == t);
        let mut start: usize = end;
        assert(t.take(end as int) =~= t);
        while start > 0 && chars[start - 1] != '/'
            invariant
                start <= end <= chars.len(),
                t == chars@.take(end as int),
                name_start(t) == name_start(t.take(start as int)),
            decreases start,
        {
            assert(t.take(start as int).drop_last() =~= t.take(start - 1));
            start -= 1;
        }
        assert(name_start(t) == start);
        let name = string_of(&chars, start, end);
        assert(t.skip(start as int) =~= name@);
        assert(t.take(start as int) =~= chars@.take(start as int));
        proof {
            reveal_strlit(".");
            reveal_strlit("..");
        }
        if name.as_str().is_empty() || same_text(name.as_str(), "..") {
            return None;
        }
        if !same_text(name.as_str(), ".") {
            return Some(name);
        }
        end = start;
    }
}

/// Compose a key from a basename and a digest: the basename made safe, a dash, and the first six
/// bytes of the digest in hexadecimal.
pub fn compose_key(basename: Option<String>, digest: &[u8]) -> (key: String)
    requires
        digest@.len() >= 6,
    ensures
        key@ == composed_key(opt_text(basename), digest@),
{
    let base = match basename {
        Some(b) => b,
        None => "rcargo-unknown".to_owned(),
    };
    let mut head: Vec<u8> = Vec::new();
    let mut i: usize = 0;
    while i < 6
        invariant
            i <= 6,
            digest@.len() >= 6,
            head@ == digest@.take(i as int),
        decreases 6 - i,
    {
        head.push(digest[i]);
        i += 1;
        assert(head@ =~= digest@.take(i as int));
    }
    let mut key = sanitize_basename(base.as_str());
    key.append("-");
    key.append(hex_encode(head.as_slice()).as_str());
    key
}

/// Whether the user has set a key: one that is not blank.
pub open spec fn is_set(set_key: Option<Seq<char>>) -> bool {
    set_key is Some && !is_blank(set_key->0)
}

/// Tell whether the user has set a key, so that neither the path nor the origin matters.
pub fn key_is_set(set_key: &Option<String>) -> (r: bool)
    ensures
        r == is_set(opt_text(*set_key)),
{
    match set_key {
        Some(k) => !blank(k.as_str()),
        None => false,
    }
}

/// The key of the tree at the path `canonical` with this git origin. A key in `set_key` that is
/// not blank is taken instead, made safe.
pub fn project_key_for(set_key: Option<String>, canonical: &str, origin: Option<String>) -> (key:
    String)
    ensures
        key@ == project_key(
            opt_text(set_key),
            canonical@,
            opt_text(origin),
        ),
        is_safe_basename(key@),
        !is_set(opt_text(set_key)) ==> {
            &&& tree_digest(canonical@, opt_text(origin)).len() == 32
            &&& is_derived_key(key@, file_name(canonical@))
        },
{
    if let Some(k) = set_key {
        if !blank(k.as_str()) {
            proof {
                law_sanitized_is_safe(k@);
            }
            return sanitize_basename(k.as_str());
        }
    }
    let found = match origin {
        Some(o) => o,
        None => String::new(),
    };
    let mut data: Vec<u8> = canonical.as_bytes_vec();
    data.push(0);
    let mut tail: Vec<u8> = found.as_str().as_bytes_vec();
    data.append(&mut tail);
    assert(data@ =~= hashed_bytes(canonical@, found@));
    let digest = sha256(data.as_slice());
    let basename = path_file_name(canonical);
    proof {
        law_key_shape(opt_text(basename), digest@);
    }
    compose_key(basename, digest.as_slice())
}

/// Whether `c` may stand in a key that is made safe: a small letter, a digit, `-`, `_` or `.`.
pub open spec fn is_plain(c: char) -> bool {
    ||| 'a' <= c <= 'z'
    ||| '0' <= c <= '9'
    ||| c == '-'
    ||| c == '_'
    ||| c == '.'
}

/// Whether a text is a safe basename: not empty, of plain characters, with no dash at its ends.
pub open spec fn is_safe_basename(s: Seq<char>) -> bool {
    &&& s.len() > 0
    &&& forall|i: int| 0 <= i < s.len() ==> is_plain(#[trigger] s[i])
    &&& s[0] != '-'
    &&& s.last() != '-'
}

/// Whether `c` is a hexadecimal digit with small letters.
pub open spec fn is_hex_digit(c: char) -> bool {
    '0' <= c <= '9' || 'a' <= c <= 'f'
}

/// Whether a key is the basename, made safe, a dash and twelve hexadecimal digits.
pub open spec fn is_derived_key(key: Seq<char>, basename: Option<Seq<char>>) -> bool {
    let base = sanitized(name_or_unknown(basename));
    &&& key.len() == base.len() + 13
    &&& key.take(base.len() as int) == base
    &&& key[base.len() as int] == '-'
    &&& forall|i: int| base.len() < i < key.len() ==> is_hex_digit(#[trigger] key[i])
}

proof fn lemma_trim_front_of_plain(s: Seq<char>)
    requires
        forall|i: int| 0 <= i < s.len() ==> is_plain(#[trigger] s[i]),
    ensures
        ({
            let t = trim_front(s, CharClass::Dash);
            &&& forall|i: int| 0 <= i < t.len() ==> is_plain(#[trigger] t[i])
            &&& t.len() > 0 ==> t[0] != '-'
        }),
    decreases s.len(),
{
    if s.len() > 0 && s[0] == '-' {
        let r = s.drop_first();
        assert forall|i: int| 0 <= i < r.len() implies is_plain(#[trigger] r[i]) by {
            assert(r[i] == s[i + 1]);
        }
        lemma_trim_front_of_plain(r);
    }
}

proof fn lemma_trim_back_of_plain(s: Seq<char>)
    requires
        forall|i: int| 0 <= i < s.len() ==> is_plain(#[trigger] s[i]),
        s.len() > 0 ==> s[0] != '-',
    ensures
        ({
            let t = trim_back(s, CharClass::Dash);
            &&& forall|i: int| 0 <= i < t.len() ==> is_plain(#[trigger] t[i])
            &&& t.len() > 0 ==> t[0] != '-' && t.last() != '-'
        }),
    decreases s.len(),
{
    if s.len() > 0 && s.last() == '-' {
        let r = s.drop_last();
        assert forall|i: int| 0 <= i < r.len() implies is_plain(#[trigger] r[i]) by {
            assert(r[i] == s[i]);
        }
        lemma_trim_back_of_plain(r);
    }
}

/// A basename made safe is a safe basename, whatever it was.
pub proof fn law_sanitized_is_safe(s: Seq<char>)
    ensures
        is_safe_basename(sanitized(s)),
{
    let m = key_chars(s);
    assert forall|i: int| 0 <= i < m.len() implies is_plain(#[trigger] m[i]) by {
        let c = s[i];
        assert(m[i] == key_char(c));
        if 'A' <= c <= 'Z' {
            assert(lower(c) as u32 == c as u32 + 32);
        }
    }
    lemma_trim_front_of_plain(m);
    lemma_trim_back_of_plain(trim_front(m, CharClass::Dash));
    if trim_both(m, CharClass::Dash).len() == 0 {
        reveal_strlit("rcargo-project");
    }
}

/// Making a safe basename safe changes nothing; so doing it twice is doing it once.
pub proof fn law_sanitizing_is_idempotent(s: Seq<char>)
    ensures
        is_safe_basename(s) ==> sanitized(s) == s,
        sanitized(sanitized(s)) == sanitized(s),
{
    law_sanitized_is_safe(s);
    lemma_safe_stays(sanitized(s));
    if is_safe_basename(s) {
        lemma_safe_stays(s);
    }
}

proof fn lemma_safe_stays(s: Seq<char>)
    requires
        is_safe_basename(s),
    ensures
        sanitized(s) == s,
{
    assert forall|i: int| 0 <= i < s.len() implies key_char(#[trigger] s[i]) == s[i] by {
        assert(is_plain(s[i]));
    }
    assert(key_chars(s) =~= s);
}

/// The hexadecimal text of six bytes is twelve plain characters.
proof fn lemma_hex_is_plain(data: Seq<u8>)
    ensures
        hex_text(data).len() == 2 * data.len(),
        forall|i: int| 0 <= i < hex_text(data).len() ==> is_plain(#[trigger] hex_text(data)[i]),
{
    assert forall|i: int| 0 <= i < hex_text(data).len() implies is_plain(
        #[trigger] hex_text(data)[i],
    ) by {
        let n = if i % 2 == 0 {
            data[i / 2] as int / 16
        } else {
            data[i / 2] as int % 16
        };
        assert(n < 16);
        assert(hex_text(data)[i] == hex_digit(n));
    }
}

/// A key that is not set by the user is a safe basename, a dash and twelve hexadecimal digits.
pub proof fn law_key_shape(basename: Option<Seq<char>>, digest: Seq<u8>)
    requires
        digest.len() >= 6,
    ensures
        ({
            let key = composed_key(basename, digest);
            let n = key.len() - 13;
            &&& n > 0
            &&& is_safe_basename(key.take(n))
            &&& key[n] == '-'
            &&& key.skip(n + 1) == hex_text(digest.take(6))
            &&& is_safe_basename(key)
            &&& is_derived_key(key, basename)
        }),
{
    let base = name_or_unknown(basename);
    law_sanitized_is_safe(base);
    lemma_hex_is_plain(digest.take(6));
    reveal_strlit("-");
    let key = composed_key(basename, digest);
    let safe = sanitized(base);
    let n = safe.len() as int;
    let tail = hex_text(digest.take(6));
    assert(key.take(n) =~= safe);
    assert(key.skip(n + 1) =~= tail);
    assert forall|i: int| 0 <= i < key.len() implies is_plain(#[trigger] key[i]) by {
        if i < n {
            assert(key[i] == safe[i]);
        } else if i > n {
            assert(key[i] == tail[i - n - 1]);
        }
    }
    let d = digest.take(6);
    assert(key.last() == tail[11]);
    assert(tail[11] == hex_digit(d[5] as int % 16));
    assert(d[5] % 16 < 16);
    assert forall|i: int| n < i < key.len() implies is_hex_digit(#[trigger] key[i]) by {
        let m = i - n - 1;
        assert(key[i] == tail[m]);
        assert(tail[m] == hex_digit(
            if m % 2 == 0 {
                d[m / 2] as int / 16
            } else {
                d[m / 2] as int % 16
            },
        ));
    }
}

/// A safe basename, and so every key, stands in a shell command as it is, without quotes.
pub proof fn law_key_needs_no_quotes(key: Seq<char>)
    requires
        is_safe_basename(key),
    ensures
        crate::shell::quoted(key) == key,
        crate::shell::quoted_path(key) == key,
{
    assert forall|i: int| 0 <= i < key.len() implies crate::shell::is_safe(#[trigger] key[i]) by {
        assert(is_plain(key[i]));
    }
    assert(is_plain(key[0]));
}

/// A key that the user sets to nothing but white space counts as not set.
pub proof fn law_blank_key_is_unset(set_key: Seq<char>, canonical: Seq<char>, origin: Option<Seq<char>>)
    requires
        is_blank(set_key),
    ensures
        project_key(Some(set_key), canonical, origin) == project_key(None, canonical, origin),
{
}

/// Whether a text is free of NUL characters, as every path is.
pub open spec fn has_no_nul(s: Seq<char>) -> bool {
    forall|i: int| 0 <= i < s.len() ==> (#[trigger] s[i]) != '\0'
}

proof fn lemma_no_nul_bytes(s: Seq<char>)
    requires
        has_no_nul(s),
    ensures
        forall|i: int|
            0 <= i < vstd::utf8::encode_utf8(s).len() ==> #[trigger] vstd::utf8::encode_utf8(s)[i]
                != 0,
    decreases s.len(),
{
    if s.len() > 0 {
        let bytes = vstd::utf8::encode_utf8(s);
        let rest = s.drop_first();
        let n = vstd::utf8::encode_scalar(s[0] as u32).len() as int;
        assert forall|i: int| 0 <= i < rest.len() implies (#[trigger] rest[i]) != '\0' by {
            assert(rest[i] == s[i + 1]);
        }
        lemma_no_nul_bytes(rest);
        vstd::utf8::char_is_scalar(s[0]);
        vstd::utf8::encode_utf8_first_scalar(s);
        assert(bytes[0] != 0) by {
            if bytes[0] == 0 {
                assert(vstd::utf8::codepoint_width_1(0u8) == 0) by (bit_vector);
                vstd::utf8::char_u32_cast(s[0], 0u32);
                assert(s[0] == '\0');
            }
        }
        assert forall|i: int| 0 <= i < bytes.len() implies #[trigger] bytes[i] != 0 by {
            if i >= n {
                assert(bytes[i] == vstd::utf8::encode_utf8(rest)[i - n]);
            }
        }
    }
}

/// Two trees whose paths or git origins differ never hash the same text.
pub proof fn law_trees_hash_apart(
    path: Seq<char>,
    origin: Seq<char>,
    other_path: Seq<char>,
    other_origin: Seq<char>,
)
    requires
        has_no_nul(path),
        has_no_nul(other_path),
        hashed_bytes(path, origin) == hashed_bytes(other_path, other_origin),
    ensures
        path == other_path,
        origin == other_origin,
{
    let a = vstd::utf8::encode_utf8(path);
    let b = vstd::utf8::encode_utf8(other_path);
    let x = vstd::utf8::encode_utf8(origin);
    let y = vstd::utf8::encode_utf8(other_origin);
    let left = hashed_bytes(path, origin);
    let right = hashed_bytes(other_path, other_origin);
    lemma_no_nul_bytes(path);
    lemma_no_nul_bytes(other_path);
    assert(left[a.len() as int] == 0);
    assert(right[b.len() as int] == 0);
    if a.len() < b.len() {
        assert(right[a.len() as int] == b[a.len() as int]);
    }
    if b.len() < a.len() {
        assert(left[b.len() as int] == a[b.len() as int]);
    }
    assert(a =~= left.take(a.len() as int));
    assert(b =~= right.take(b.len() as int));
    assert(x =~= left.skip(a.len() as int + 1));
    assert(y =~= right.skip(b.len() as int + 1));
    vstd::utf8::encode_utf8_decode_utf8(path);
    vstd::utf8::encode_utf8_decode_utf8(other_path);
    vstd::utf8::encode_utf8_decode_utf8(origin);
    vstd::utf8::encode_utf8_decode_utf8(other_origin);
}

proof fn lemma_hex_is_faithful(a: Seq<u8>, b: Seq<u8>)
    requires
        hex_text(a) == hex_text(b),
    ensures
        a == b,
{
    assert(hex_text(a).len() == 2 * a.len());
    assert(hex_text(b).len() == 2 * b.len());
    assert forall|k: int| 0 <= k < a.len() implies a[k] == b[k] by {
        assert(hex_text(a)[2 * k] == hex_digit(a[k] as int / 16));
        assert(hex_text(b)[2 * k] == hex_digit(b[k] as int / 16));
        assert(hex_text(a)[2 * k + 1] == hex_digit(a[k] as int % 16));
        assert(hex_text(b)[2 * k + 1] == hex_digit(b[k] as int % 16));
        lemma_hex_digit_is_faithful(a[k] as int / 16, b[k] as int / 16);
        lemma_hex_digit_is_faithful(a[k] as int % 16, b[k] as int % 16);
    }
    assert(a =~= b);
}

proof fn lemma_hex_digit_is_faithful(m: int, n: int)
    requires
        0 <= m < 16,
        0 <= n < 16,
        hex_digit(m) == hex_digit(n),
    ensures
        m == n,
{
}

/// Two keys that are not set by the user are the same only where the basenames, made safe, and the
/// first six bytes of the digests are.
pub proof fn law_keys_differ_with_the_hash(
    basename: Option<Seq<char>>,
    digest: Seq<u8>,
    other_basename: Option<Seq<char>>,
    other_digest: Seq<u8>,
)
    requires
        digest.len() >= 6,
        other_digest.len() >= 6,
        composed_key(basename, digest) == composed_key(other_basename, other_digest),
    ensures
        sanitized(name_or_unknown(basename)) == sanitized(name_or_unknown(other_basename)),
        digest.take(6) == other_digest.take(6),
{
    law_key_shape(basename, digest);
    law_key_shape(other_basename, other_digest);
    lemma_hex_is_faithful(digest.take(6), other_digest.take(6));
    let key = composed_key(basename, digest);
    let n = key.len() - 13;
    reveal_strlit("-");
    lemma_hex_is_plain(digest.take(6));
    lemma_hex_is_plain(other_digest.take(6));
    assert(key.take(n) =~= sanitized(name_or_unknown(basename)));
    assert(composed_key(other_basename, other_digest).take(n) =~= sanitized(
        name_or_unknown(other_basename),
    ));
}

/// Keys that are not set by the user tell trees apart. Trees with the same path and origin have the
/// same key. Trees whose paths or origins differ have different keys, even where the origin is the
/// same, unless the first six bytes of their digests happen to be equal.
pub proof fn law_keys_tell_trees_apart(
    set_key: Option<Seq<char>>,
    path: Seq<char>,
    origin: Option<Seq<char>>,
    other_set_key: Option<Seq<char>>,
    other_path: Seq<char>,
    other_origin: Option<Seq<char>>,
)
    requires
        !is_set(set_key),
        !is_set(other_set_key),
        has_no_nul(path),
        has_no_nul(other_path),
    ensures
        ({
            let key = project_key(set_key, path, origin);
            let other_key = project_key(other_set_key, other_path, other_origin);
            let digest = tree_digest(path, origin);
            let other_digest = tree_digest(other_path, other_origin);
            let same_tree = path == other_path && origin_text(origin) == origin_text(other_origin);
            let no_collision = digest.take(6) == other_digest.take(6) ==> hashed_bytes(
                path,
                origin_text(origin),
            ) == hashed_bytes(other_path, origin_text(other_origin));
            &&& same_tree ==> key == other_key
            &&& digest.len() == 32 && other_digest.len() == 32 && no_collision && !same_tree ==> key
                != other_key
        }),
{
    let digest = tree_digest(path, origin);
    let other_digest = tree_digest(other_path, other_origin);
    let bytes = hashed_bytes(path, origin_text(origin));
    let other_bytes = hashed_bytes(other_path, origin_text(other_origin));
    if digest.len() == 32 && other_digest.len() == 32 {
        if project_key(set_key, path, origin) == project_key(
            other_set_key,
            other_path,
            other_origin,
        ) {
            law_keys_differ_with_the_hash(
                file_name(path),
                digest,
                file_name(other_path),
                other_digest,
            );
        }
        if bytes == other_bytes {
            law_trees_hash_apart(
                path,
                origin_text(origin),
                other_path,
                origin_text(other_origin),
            );
        }
    }
}

} // verus!
