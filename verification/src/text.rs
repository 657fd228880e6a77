//! Text as sequences of characters: trimming, splitting, joining and decimal numbers.
use vstd::prelude::*;

verus! {

/// `String::push` appends the given character to the end of the string.
pub assume_specification[ String::push ](s: &mut String, c: char)
    ensures
        final(s)@ == old(s)@.push(c),
;

/// The contents of each string of a list.
pub open spec fn texts(list: Seq<String>) -> Seq<Seq<char>> {
    Seq::new(list.len(), |i: int| list[i]@)
}

/// The contents of an optional string.
pub open spec fn opt_text(s: Option<String>) -> Option<Seq<char>> {
    match s {
        Some(t) => Some(t@),
        None => None,
    }
}

/// Whether `c` has the Unicode property `White_Space`.
pub open spec fn is_white(c: char) -> bool {
    let n = c as u32;
    ||| 0x9 <= n <= 0xd
    ||| n == 0x20
    ||| n == 0x85
    ||| n == 0xa0
    ||| n == 0x1680
    ||| 0x2000 <= n <= 0x200a
    ||| 0x2028 <= n <= 0x2029
    ||| n == 0x202f
    ||| n == 0x205f
    ||| n == 0x3000
}

/// Whether `c` is an ASCII letter or an ASCII digit.
pub open spec fn is_alphanumeric(c: char) -> bool {
    ||| 'a' <= c <= 'z'
    ||| 'A' <= c <= 'Z'
    ||| '0' <= c <= '9'
}

/// `c` with an ASCII capital made small.
pub open spec fn lower(c: char) -> char {
    if 'A' <= c <= 'Z' {
        (c as u8 + 32) as char
    } else {
        c
    }
}

/// A set of characters that can be trimmed off a text.
#[derive(Clone, Copy, PartialEq, Eq, Structural, Debug)]
pub enum CharClass {
    /// Unicode white space.
    White,
    /// `-`
    Dash,
    /// `/`
    Slash,
    /// `\n` and `\r`
    LineEnd,
}

impl CharClass {
    /// Whether `c` belongs to the class.
    pub open spec fn has(self, c: char) -> bool {
        match self {
            CharClass::White => is_white(c),
            CharClass::Dash => c == '-',
            CharClass::Slash => c == '/',
            CharClass::LineEnd => c == '\n' || c == '\r',
        }
    }

    /// Tell whether `c` belongs to the class.
    pub fn holds(self, c: char) -> (r: bool)
        ensures
            r == self.has(c),
    {
        match self {
            CharClass::White => white(c),
            CharClass::Dash => c == '-',
            CharClass::Slash => c == '/',
            CharClass::LineEnd => c == '\n' || c == '\r',
        }
    }
}

/// `s` without its longest prefix of characters of `class`.
pub open spec fn trim_front(s: Seq<char>, class: CharClass) -> Seq<char>
    decreases s.len(),
{
    if s.len() > 0 && class.has(s[0]) {
        trim_front(s.drop_first(), class)
    } else {
        s
    }
}

/// `s` without its longest suffix of characters of `class`.
pub open spec fn trim_back(s: Seq<char>, class: CharClass) -> Seq<char>
    decreases s.len(),
{
    if s.len() > 0 && class.has(s.last()) {
        trim_back(s.drop_last(), class)
    } else {
        s
    }
}

/// `s` without the characters of `class` at its two ends.
pub open spec fn trim_both(s: Seq<char>, class: CharClass) -> Seq<char> {
    trim_back(trim_front(s, class), class)
}

/// Whether every character of `s` is white space.
pub open spec fn is_blank(s: Seq<char>) -> bool {
    forall|i: int| 0 <= i < s.len() ==> is_white(#[trigger] s[i])
}

/// The number of characters of `s` before its first white space.
pub open spec fn word_len(s: Seq<char>) -> nat
    decreases s.len(),
{
    if s.len() > 0 && !is_white(s[0]) {
        1 + word_len(s.drop_first())
    } else {
        0
    }
}

/// The words of `s`: its longest runs of characters that are not white space, in order.
pub open spec fn words(s: Seq<char>) -> Seq<Seq<char>>
    decreases s.len(),
{
    if s.len() == 0 {
        Seq::empty()
    } else if is_white(s[0]) {
        words(s.drop_first())
    } else {
        let n = 1 + word_len(s.drop_first());
        if n <= s.len() {
            seq![s.take(n as int)] + words(s.skip(n as int))
        } else {
            Seq::empty()
        }
    }
}

/// The parts with `sep` between each two neighbours.
pub open spec fn joined(parts: Seq<Seq<char>>, sep: Seq<char>) -> Seq<char>
    decreases parts.len(),
{
    if parts.len() == 0 {
        Seq::empty()
    } else if parts.len() == 1 {
        parts[0]
    } else {
        joined(parts.drop_last(), sep) + sep + parts.last()
    }
}

/// The decimal digit for `d`.
pub open spec fn digit(d: nat) -> char {
    ('0' as u32 + d) as char
}

/// `n` in decimal, without leading zeros.
pub open spec fn decimal(n: nat) -> Seq<char>
    decreases n,
{
    if n < 10 {
        seq![digit(n)]
    } else {
        decimal(n / 10).push(digit(n % 10))
    }
}

/// `n` in decimal, with a leading `-` below zero.
pub open spec fn signed_decimal(n: int) -> Seq<char> {
    if n < 0 {
        seq!['-'] + decimal((-n) as nat)
    } else {
        decimal(n as nat)
    }
}

/// The hexadecimal digit for `n`, with small letters.
pub open spec fn hex_digit(n: int) -> char {
    if n < 10 {
        ('0' as u32 + n) as char
    } else {
        ('a' as u32 + (n - 10)) as char
    }
}

/// Whether `c` is a decimal digit.
pub open spec fn is_digit(c: char) -> bool {
    '0' <= c <= '9'
}

/// The number that a sequence of decimal digits stands for.
pub open spec fn number(s: Seq<char>) -> nat
    decreases s.len(),
{
    if s.len() == 0 {
        0
    } else {
        (10 * number(s.drop_last()) + (s.last() as u32 - '0' as u32)) as nat
    }
}

/// The number of characters of `s` before its first character that is no digit.
pub open spec fn digit_run(s: Seq<char>) -> nat
    decreases s.len(),
{
    if s.len() > 0 && is_digit(s[0]) {
        1 + digit_run(s.drop_first())
    } else {
        0
    }
}

/// Why a text is not a port number.
#[derive(Clone, Copy, PartialEq, Eq, Structural, Debug)]
pub enum PortError {
    /// The text is empty.
    Empty,
    /// A character is no decimal digit.
    InvalidDigit,
    /// The number is greater than 65535.
    TooLarge,
}

/// The port number that `s` stands for: decimal digits, after at most one `+`.
pub open spec fn port(s: Seq<char>) -> Result<u16, PortError> {
    let digits = if s.len() > 1 && s[0] == '+' {
        s.drop_first()
    } else {
        s
    };
    let n = digit_run(digits);
    if s.len() == 0 {
        Err(PortError::Empty)
    } else if number(digits.take(n as int)) > 65535 {
        Err(PortError::TooLarge)
    } else if n < digits.len() {
        Err(PortError::InvalidDigit)
    } else {
        Ok(number(digits) as u16)
    }
}

/// The characters of a string, in order.
pub fn chars_of(s: &str) -> (out: Vec<char>)
    ensures
        out@ == s@,
{
    let mut out: Vec<char> = Vec::new();
    for c in it: s.chars()
        invariant
            it.seq() == s@,
            out@ == s@.take(it.index() as int),
    {
        out.push(c);
        assert(out@ =~= s@.take(it.index() + 1));
    }
    assert(s@.take(s@.len() as int) =~= s@);
    out
}

/// The string made of the characters from `from` on, up to and without `to`.
pub fn string_of(chars: &Vec<char>, from: usize, to: usize) -> (out: String)
    requires
        from <= to <= chars.len(),
    ensures
        out@ == chars@.subrange(from as int, to as int),
{
    let mut out = String::new();
    let mut i: usize = from;
    while i < to
        invariant
            from <= i <= to <= chars.len(),
            out@ == chars@.subrange(from as int, i as int),
        decreases to - i,
    {
        out.push(chars[i]);
        i += 1;
        assert(out@ =~= chars@.subrange(from as int, i as int));
    }
    out
}

/// A copy of an optional string.
pub fn copy_opt(s: &Option<String>) -> (out: Option<String>)
    ensures
        out == *s,
{
    match s {
        Some(t) => Some(t.clone()),
        None => None,
    }
}

/// Copy the strings of a list from the index `from` on.
pub fn copy_tail(list: &[String], from: usize) -> (out: Vec<String>)
    requires
        from <= list.len(),
    ensures
        texts(out@) == texts(list@).skip(from as int),
{
    let mut out: Vec<String> = Vec::new();
    let mut i: usize = from;
    let ghost rest = texts(list@).skip(from as int);
    assert(texts(out@) =~= rest.take(0));
    while i < list.len()
        invariant
            from <= i <= list.len(),
            rest == texts(list@).skip(from as int),
            texts(out@) == rest.take(i - from),
        decreases list.len() - i,
    {
        let ghost before = texts(out@);
        put(&mut out, list[i].as_str());
        i += 1;
        assert(before.push(list@[i - 1]@) =~= rest.take(i - from));
    }
    assert(rest.take(i - from) =~= rest);
    out
}

/// A copy of a list of strings.
pub fn copy_list(list: &[String]) -> (out: Vec<String>)
    ensures
        out@ == list@,
{
    let mut out: Vec<String> = Vec::new();
    let mut i: usize = 0;
    while i < list.len()
        invariant
            i <= list.len(),
            out@ == list@.take(i as int),
        decreases list.len() - i,
    {
        out.push(list[i].clone());
        i += 1;
        assert(out@ =~= list@.take(i as int));
    }
    assert(list@.take(i as int) =~= list@);
    out
}

/// Add a copy of `s` to the end of a list.
pub fn put(list: &mut Vec<String>, s: &str)
    ensures
        texts(final(list)@) == texts(old(list)@).push(s@),
{
    list.push(s.to_owned());
    assert(texts(list@) =~= texts(old(list)@).push(s@));
}

/// Add copies of the strings of `more` to the end of a list.
pub fn put_all(list: &mut Vec<String>, more: &[String])
    ensures
        texts(final(list)@) == texts(old(list)@) + texts(more@),
{
    let mut i: usize = 0;
    assert(texts(old(list)@) + texts(more@).take(0) =~= texts(old(list)@));
    while i < more.len()
        invariant
            i <= more.len(),
            texts(list@) == texts(old(list)@) + texts(more@).take(i as int),
        decreases more.len() - i,
    {
        let ghost before = texts(list@);
        put(list, more[i].as_str());
        i += 1;
        assert(before.push(more@[i - 1]@) =~= texts(old(list)@) + texts(more@).take(i as int));
    }
    assert(texts(more@).take(i as int) =~= texts(more@));
}

/// The path of `name` under the directory `base`: a `/` stands between the two unless `base` is
/// empty or ends in one. An absolute `name` is a path by itself.
pub open spec fn path_under(base: Seq<char>, name: Seq<char>) -> Seq<char> {
    if name.len() > 0 && name[0] == '/' {
        name
    } else if base.len() == 0 || base.last() == '/' {
        base + name
    } else {
        base + seq!['/'] + name
    }
}

/// The path of `name` under the directory `base`.
pub fn join_path(base: &str, name: &str) -> (out: String)
    ensures
        out@ == path_under(base@, name@),
{
    let tail = chars_of(name);
    if tail.len() > 0 && tail[0] == '/' {
        return name.to_owned();
    }
    let chars = chars_of(base);
    let mut out = base.to_owned();
    if chars.len() > 0 && chars[chars.len() - 1] != '/' {
        out.push('/');
    }
    out.append(name);
    assert(out@ =~= path_under(base@, name@));
    out
}

/// Tell whether two strings hold the same characters.
pub fn same_text(a: &str, b: &str) -> (same: bool)
    ensures
        same == (a@ == b@),
{
    a.to_owned() == b.to_owned()
}

/// Tell whether `c` is white space.
pub fn white(c: char) -> (r: bool)
    ensures
        r == is_white(c),
{
    let n: u32 = c as u32;
    (0x9 <= n && n <= 0xd) || n == 0x20 || n == 0x85 || n == 0xa0 || n == 0x1680 || (0x2000 <= n
        && n <= 0x200a) || (0x2028 <= n && n <= 0x2029) || n == 0x202f || n == 0x205f || n == 0x3000
}

/// Tell whether `c` is an ASCII letter or an ASCII digit.
pub fn alphanumeric(c: char) -> (r: bool)
    ensures
        r == is_alphanumeric(c),
{
    ('a' <= c && c <= 'z') || ('A' <= c && c <= 'Z') || ('0' <= c && c <= '9')
}

/// `c` with an ASCII capital made small.
pub fn to_lower(c: char) -> (r: char)
    ensures
        r == lower(c),
{
    if 'A' <= c && c <= 'Z' {
        ((c as u8) + 32) as char
    } else {
        c
    }
}

/// The index at which the text without its leading characters of `class` begins.
fn front_index(chars: &Vec<char>, class: CharClass) -> (at: usize)
    ensures
        at <= chars.len(),
        trim_front(chars@, class) == chars@.skip(at as int),
{
    let mut at: usize = 0;
    assert(chars@.skip(0) =~= chars@);
    while at < chars.len() && class.holds(chars[at])
        invariant
            at <= chars.len(),
            trim_front(chars@, class) == trim_front(chars@.skip(at as int), class),
        decreases chars.len() - at,
    {
        assert(chars@.skip(at as int).drop_first() =~= chars@.skip(at + 1));
        at += 1;
    }
    at
}

/// The index, not below `from`, at which the text without its trailing characters of `class` ends.
fn back_index(chars: &Vec<char>, from: usize, class: CharClass) -> (to: usize)
    requires
        from <= chars.len(),
    ensures
        from <= to <= chars.len(),
        trim_back(chars@.skip(from as int), class) == chars@.subrange(from as int, to as int),
{
    let mut to: usize = chars.len();
    assert(chars@.subrange(from as int, to as int) =~= chars@.skip(from as int));
    while to > from && class.holds(chars[to - 1])
        invariant
            from <= to <= chars.len(),
            trim_back(chars@.skip(from as int), class) == trim_back(
                chars@.subrange(from as int, to as int),
                class,
            ),
        decreases to,
    {
        assert(chars@.subrange(from as int, to as int).drop_last() =~= chars@.subrange(
            from as int,
            to - 1,
        ));
        to -= 1;
    }
    to
}

/// `s` without the characters of `class` at its end.
pub fn trim_end(s: &str, class: CharClass) -> (out: String)
    ensures
        out@ == trim_back(s@, class),
{
    let chars = chars_of(s);
    let to = back_index(&chars, 0, class);
    assert(chars@.skip(0) =~= chars@);
    string_of(&chars, 0, to)
}

/// `s` without the characters of `class` at its two ends.
pub fn trim(s: &str, class: CharClass) -> (out: String)
    ensures
        out@ == trim_both(s@, class),
{
    let chars = chars_of(s);
    let from = front_index(&chars, class);
    let to = back_index(&chars, from, class);
    string_of(&chars, from, to)
}

/// A text is blank exactly when trimming its white space leaves nothing.
pub proof fn lemma_blank_iff_trimmed_empty(s: Seq<char>)
    ensures
        is_blank(s) <==> trim_both(s, CharClass::White).len() == 0,
    decreases s.len(),
{
    if s.len() > 0 {
        if is_white(s[0]) {
            let t = s.drop_first();
            lemma_blank_iff_trimmed_empty(t);
            if is_blank(t) {
                assert forall|i: int| 0 <= i < s.len() implies is_white(#[trigger] s[i]) by {
                    if i > 0 {
                        assert(s[i] == t[i - 1]);
                    }
                }
            }
            if is_blank(s) {
                assert forall|i: int| 0 <= i < t.len() implies is_white(#[trigger] t[i]) by {
                    assert(t[i] == s[i + 1]);
                }
            }
        } else {
            lemma_trim_back_keeps_head(s, CharClass::White);
        }
    }
}

/// Trimming the end keeps a first character outside the class.
pub proof fn lemma_trim_back_keeps_head(s: Seq<char>, class: CharClass)
    requires
        s.len() > 0,
        !class.has(s[0]),
    ensures
        trim_back(s, class).len() > 0,
        trim_back(s, class)[0] == s[0],
    decreases s.len(),
{
    if class.has(s.last()) {
        lemma_trim_back_keeps_head(s.drop_last(), class);
    }
}

/// Tell whether `s` holds nothing but white space.
pub fn blank(s: &str) -> (r: bool)
    ensures
        r == is_blank(s@),
{
    proof {
        lemma_blank_iff_trimmed_empty(s@);
    }
    trim(s, CharClass::White).as_str().is_empty()
}

/// What follows `prefix` in `s`, where `s` begins with it.
pub open spec fn stripped(s: Seq<char>, prefix: Seq<char>) -> Option<Seq<char>> {
    if prefix.is_prefix_of(s) {
        Some(s.skip(prefix.len() as int))
    } else {
        None
    }
}

/// What follows `prefix` in `s`, where `s` begins with it.
pub fn after_prefix(s: &str, prefix: &str) -> (rest: Option<String>)
    ensures
        opt_text(rest) == stripped(s@, prefix@),
{
    let chars = chars_of(s);
    let head = chars_of(prefix);
    if chars.len() < head.len() {
        return None;
    }
    let mut i: usize = 0;
    while i < head.len()
        invariant
            head@ == prefix@,
            chars@ == s@,
            i <= head.len() <= chars.len(),
            chars@.take(i as int) == head@.take(i as int),
        decreases head.len() - i,
    {
        if chars[i] != head[i] {
            assert(s@[i as int] != prefix@[i as int]);
            return None;
        }
        assert(chars@.take(i + 1) =~= chars@.take(i as int).push(chars[i as int]));
        assert(head@.take(i + 1) =~= head@.take(i as int).push(head[i as int]));
        i += 1;
    }
    assert(head@.take(i as int) =~= head@);
    assert(s@.skip(prefix@.len() as int) =~= chars@.subrange(head.len() as int, chars.len() as int));
    Some(string_of(&chars, head.len(), chars.len()))
}

/// The strings of `parts` with `sep` between each two neighbours.
pub fn join(parts: &Vec<String>, sep: &str) -> (out: String)
    ensures
        out@ == joined(texts(parts@), sep@),
{
    let mut out = String::new();
    let mut i: usize = 0;
    while i < parts.len()
        invariant
            i <= parts.len(),
            out@ == joined(texts(parts@).take(i as int), sep@),
        decreases parts.len() - i,
    {
        if i > 0 {
            out.append(sep);
        }
        out.append(parts[i].as_str());
        assert(texts(parts@).take(i + 1).drop_last() =~= texts(parts@).take(i as int));
        i += 1;
        assert(out@ =~= joined(texts(parts@).take(i as int), sep@));
    }
    assert(texts(parts@).take(i as int) =~= texts(parts@));
    out
}

proof fn lemma_word_len_bound(s: Seq<char>)
    ensures
        word_len(s) <= s.len(),
    decreases s.len(),
{
    if s.len() > 0 {
        lemma_word_len_bound(s.drop_first());
    }
}

/// The words of `s`, in order.
pub fn split_words(s: &str) -> (out: Vec<String>)
    ensures
        texts(out@) == words(s@),
{
    let chars = chars_of(s);
    let mut out: Vec<String> = Vec::new();
    let mut at: usize = 0;
    assert(chars@.skip(0) =~= chars@);
    assert(texts(out@) + words(chars@) =~= words(chars@));
    while at < chars.len()
        invariant
            at <= chars.len(),
            words(chars@) == texts(out@) + words(chars@.skip(at as int)),
        decreases chars.len() - at,
    {
        let ghost rest = chars@.skip(at as int);
        if white(chars[at]) {
            assert(rest.drop_first() =~= chars@.skip(at + 1));
            at += 1;
        } else {
            let mut end: usize = at + 1;
            assert(rest.drop_first() =~= chars@.skip(end as int));
            while end < chars.len() && !white(chars[end])
                invariant
                    at < end <= chars.len(),
                    rest == chars@.skip(at as int),
                    word_len(rest.drop_first()) == end - at - 1 + word_len(chars@.skip(end as int)),
                decreases chars.len() - end,
            {
                assert(chars@.skip(end as int).drop_first() =~= chars@.skip(end + 1));
                end += 1;
            }
            assert(word_len(chars@.skip(end as int)) == 0);
            let ghost before = texts(out@);
            out.push(string_of(&chars, at, end));
            proof {
                let n: int = end - at;
                assert(rest.take(n) =~= chars@.subrange(at as int, end as int));
                assert(rest.skip(n) =~= chars@.skip(end as int));
                assert(texts(out@) =~= before.push(rest.take(n)));
                assert(before + words(rest) =~= texts(out@) + words(rest.skip(n)));
            }
            at = end;
        }
    }
    assert(texts(out@) + words(chars@.skip(at as int)) =~= texts(out@));
    out
}

/// The words of a text are not empty and hold no white space.
pub proof fn lemma_words_are_words(s: Seq<char>, k: int, i: int)
    requires
        0 <= k < words(s).len(),
    ensures
        words(s)[k].len() > 0,
        0 <= i < words(s)[k].len() ==> !is_white(words(s)[k][i]),
    decreases s.len(),
{
    if s.len() > 0 {
        if is_white(s[0]) {
            lemma_words_are_words(s.drop_first(), k, i);
        } else {
            let n = 1 + word_len(s.drop_first());
            lemma_word_len_bound(s.drop_first());
            if k == 0 {
                if 0 < i < n {
                    lemma_word_has_no_white(s.drop_first(), i - 1);
                }
            } else {
                lemma_words_are_words(s.skip(n as int), k - 1, i);
            }
        }
    }
}

proof fn lemma_word_has_no_white(s: Seq<char>, i: int)
    requires
        0 <= i < word_len(s),
    ensures
        i < s.len(),
        !is_white(s[i]),
    decreases s.len(),
{
    if i > 0 {
        lemma_word_has_no_white(s.drop_first(), i - 1);
    }
}

/// The decimal digit for `d`.
fn digit_char(d: u64) -> (c: char)
    requires
        d < 10,
    ensures
        c == digit(d as nat),
{
    (48 + d as u8) as char
}

/// `n` in decimal.
pub fn to_decimal(n: u64) -> (out: String)
    ensures
        out@ == decimal(n as nat),
    decreases n,
{
    if n < 10 {
        let mut out = String::new();
        out.push(digit_char(n));
        assert(out@ =~= decimal(n as nat));
        out
    } else {
        let mut out = to_decimal(n / 10);
        out.push(digit_char(n % 10));
        out
    }
}

/// `n` in decimal, with its sign below zero.
pub fn to_signed_decimal(n: i32) -> (out: String)
    ensures
        out@ == signed_decimal(n as int),
{
    if n < 0 {
        let mut out = String::new();
        out.push('-');
        let magnitude: i64 = -(n as i64);
        let digits = to_decimal(magnitude as u64);
        out.append(digits.as_str());
        assert(out@ =~= signed_decimal(n as int));
        out
    } else {
        to_decimal(n as u64)
    }
}

/// Decimal digits read back give the number that was written.
pub proof fn lemma_decimal_reads_back(n: nat)
    ensures
        number(decimal(n)) == n,
        decimal(n).len() > 0,
        forall|i: int| 0 <= i < decimal(n).len() ==> is_digit(#[trigger] decimal(n)[i]),
    decreases n,
{
    if n < 10 {
        assert(decimal(n).drop_last() =~= Seq::empty());
        assert(number(decimal(n).drop_last()) == 0);
    } else {
        lemma_decimal_reads_back(n / 10);
        let d = decimal(n / 10);
        assert(d.push(digit(n % 10)).drop_last() =~= d);
    }
}

proof fn lemma_digit_run(s: Seq<char>, n: int)
    requires
        0 <= n <= s.len(),
        forall|i: int| 0 <= i < n ==> is_digit(#[trigger] s[i]),
        n < s.len() ==> !is_digit(s[n]),
    ensures
        digit_run(s) == n,
    decreases s.len(),
{
    if n > 0 {
        let t = s.drop_first();
        assert forall|i: int| 0 <= i < n - 1 implies is_digit(#[trigger] t[i]) by {
            assert(t[i] == s[i + 1]);
        }
        lemma_digit_run(t, n - 1);
    }
}

proof fn lemma_digit_run_shows(s: Seq<char>, i: int)
    requires
        0 <= i < digit_run(s),
    ensures
        i < s.len(),
        is_digit(s[i]),
    decreases s.len(),
{
    if i > 0 {
        lemma_digit_run_shows(s.drop_first(), i - 1);
    }
}

proof fn lemma_digit_run_bound(s: Seq<char>)
    ensures
        digit_run(s) <= s.len(),
        digit_run(s) < s.len() ==> !is_digit(s[digit_run(s) as int]),
    decreases s.len(),
{
    if s.len() > 0 {
        lemma_digit_run_bound(s.drop_first());
    }
}

/// More digits never make the number smaller.
proof fn lemma_number_grows(s: Seq<char>, i: int, j: int)
    requires
        0 <= i <= j <= s.len(),
        forall|k: int| 0 <= k < j ==> is_digit(#[trigger] s[k]),
    ensures
        number(s.take(i)) <= number(s.take(j)),
    decreases j - i,
{
    if i < j {
        lemma_number_grows(s, i, j - 1);
        assert(s.take(j).drop_last() =~= s.take(j - 1));
        assert(is_digit(s[j - 1]));
    }
}

/// Read a port number: decimal digits, after at most one `+`, up to 65535.
pub fn parse_port(s: &str) -> (out: Result<u16, PortError>)
    ensures
        out == port(s@),
{
    let chars = chars_of(s);
    if chars.len() == 0 {
        return Err(PortError::Empty);
    }
    let start: usize = if chars.len() > 1 && chars[0] == '+' {
        1
    } else {
        0
    };
    let ghost digits = chars@.skip(start as int);
    assert(chars@.skip(0) =~= chars@);
    assert(chars@.skip(1) =~= chars@.drop_first());
    let mut value: u32 = 0;
    let mut i: usize = start;
    assert(digits.take(0) =~= Seq::empty());
    while i < chars.len()
        invariant
            start <= i <= chars.len(),
            chars@ == s@,
            s@.len() > 0,
            digits == chars@.skip(start as int),
            digits == (if s@.len() > 1 && s@[0] == '+' {
                s@.drop_first()
            } else {
                s@
            }),
            value <= 65535,
            value == number(digits.take(i - start)),
            forall|k: int| 0 <= k < i - start ==> is_digit(#[trigger] digits[k]),
        decreases chars.len() - i,
    {
        let c = chars[i];
        let ghost n = i - start;
        assert(digits[n] == c);
        if c < '0' || '9' < c {
            proof {
                lemma_digit_run(digits, n as int);
            }
            return Err(PortError::InvalidDigit);
        }
        value = value * 10 + (c as u32 - 48);
        i += 1;
        assert(digits.take(n + 1).drop_last() =~= digits.take(n as int));
        if value > 65535 {
            proof {
                let run = digit_run(digits);
                lemma_digit_run_bound(digits);
                assert forall|k: int| 0 <= k < run implies is_digit(#[trigger] digits[k]) by {
                    lemma_digit_run_shows(digits, k);
                }
                assert(run > n);
                lemma_number_grows(digits, n + 1, run as int);
            }
            return Err(PortError::TooLarge);
        }
    }
    proof {
        lemma_digit_run(digits, digits.len() as int);
        assert(digits.take(digits.len() as int) =~= digits);
    }
    Ok(value as u16)
}

/// A port number written in decimal reads back as itself.
pub proof fn lemma_port_reads_back(n: u16)
    ensures
        port(decimal(n as nat)) == Ok::<u16, PortError>(n),
{
    let s = decimal(n as nat);
    lemma_decimal_reads_back(n as nat);
    assert(is_digit(s[0]));
    lemma_digit_run(s, s.len() as int);
    assert(s.take(s.len() as int) =~= s);
}

} // verus!
