//! Laws of trimming, splitting, joining, quoting and numbers.
use vstd::prelude::*;

use crate::text::{decimal, digit_run, is_blank, is_digit, is_white, joined, number, path_under};
use crate::text::{port, signed_decimal, stripped, trim_back, trim_both, trim_front, word_len, words};
use crate::text::{CharClass, PortError};

verus! {

/// Whether every character of `s` belongs to `class`.
pub open spec fn all_in(s: Seq<char>, class: CharClass) -> bool {
    forall|i: int| 0 <= i < s.len() ==> class.has(#[trigger] s[i])
}

/// What each class of characters holds.
pub proof fn law_classes(c: char)
    ensures
        CharClass::Dash.has(c) <==> c == '-',
        CharClass::Slash.has(c) <==> c == '/',
        CharClass::LineEnd.has(c) <==> c == '\n' || c == '\r',
        CharClass::White.has(c) <==> is_white(c),
        is_white(' ') && is_white('\n') && is_white('\t') && is_white('\r'),
        'a' <= c <= 'z' || 'A' <= c <= 'Z' || '0' <= c <= '9' || '!' <= c <= '/' ==> !is_white(c),
{
}

/// Trimming takes off all that belongs to the class at the ends, and nothing else.
pub proof fn law_trim_takes_the_ends(
    front: Seq<char>,
    kept: Seq<char>,
    back: Seq<char>,
    class: CharClass,
)
    requires
        all_in(front, class),
        all_in(back, class),
        kept.len() > 0 ==> !class.has(kept[0]) && !class.has(kept.last()),
    ensures
        trim_both(front + kept + back, class) == kept,
        kept.len() > 0 ==> trim_back(front + kept + back, class) == front + kept,
        kept.len() == 0 ==> trim_back(front + kept + back, class) == Seq::<char>::empty(),
{
    let s = front + kept + back;
    if kept.len() > 0 {
        assert((front + kept).last() == kept.last());
        lemma_trim_back_to(front + kept, back, class);
        assert(s =~= front + (kept + back));
        lemma_trim_front_to(front, kept + back, class);
        lemma_trim_back_to(kept, back, class);
    } else {
        assert forall|i: int| 0 <= i < s.len() implies class.has(#[trigger] s[i]) by {
            if i < front.len() {
                assert(s[i] == front[i]);
            } else {
                assert(s[i] == back[i - front.len()]);
            }
        }
        lemma_trim_back_to(Seq::empty(), s, class);
        assert(Seq::<char>::empty() + s =~= s);
        lemma_trim_front_to(s, Seq::empty(), class);
        assert(s + Seq::<char>::empty() =~= s);
        assert(kept =~= Seq::empty());
    }
}

proof fn lemma_trim_back_to(kept: Seq<char>, back: Seq<char>, class: CharClass)
    requires
        all_in(back, class),
        kept.len() > 0 ==> !class.has(kept.last()),
    ensures
        trim_back(kept + back, class) == kept,
    decreases back.len(),
{
    if back.len() == 0 {
        assert(kept + back =~= kept);
    } else {
        let b = back.drop_last();
        assert forall|i: int| 0 <= i < b.len() implies class.has(#[trigger] b[i]) by {
            assert(b[i] == back[i]);
        }
        assert((kept + back).last() == back[back.len() - 1]);
        assert((kept + back).drop_last() =~= kept + b);
        lemma_trim_back_to(kept, b, class);
    }
}

proof fn lemma_trim_front_to(front: Seq<char>, kept: Seq<char>, class: CharClass)
    requires
        all_in(front, class),
        kept.len() > 0 ==> !class.has(kept[0]),
    ensures
        trim_front(front + kept, class) == kept,
    decreases front.len(),
{
    if front.len() == 0 {
        assert(front + kept =~= kept);
    } else {
        let f = front.drop_first();
        assert forall|i: int| 0 <= i < f.len() implies class.has(#[trigger] f[i]) by {
            assert(f[i] == front[i + 1]);
        }
        assert((front + kept)[0] == front[0]);
        assert((front + kept).drop_first() =~= f + kept);
        lemma_trim_front_to(f, kept, class);
    }
}

/// A text with no white space in it is one word; white space is where words are split, and none of
/// it belongs to a word.
pub proof fn law_words_are_split_at_white_space(a: Seq<char>, c: char, b: Seq<char>)
    requires
        is_white(c),
    ensures
        words(a + seq![c] + b) == words(a) + words(b),
        a.len() > 0 && (forall|i: int| 0 <= i < a.len() ==> !is_white(#[trigger] a[i])) ==> words(a)
            == seq![a],
        words(Seq::empty()) == Seq::<Seq<char>>::empty(),
{
    lemma_words_of_parts(a, c, b);
    if a.len() > 0 && (forall|i: int| 0 <= i < a.len() ==> !is_white(#[trigger] a[i])) {
        let rest = a.drop_first();
        assert forall|i: int| 0 <= i < rest.len() implies !is_white(#[trigger] rest[i]) by {
            assert(rest[i] == a[i + 1]);
        }
        lemma_word_len_of_word(rest);
        assert(a.take(a.len() as int) =~= a);
        let none = a.skip(a.len() as int);
        assert(none.len() == 0);
        assert(words(none) == Seq::<Seq<char>>::empty());
        assert(!is_white(a[0]));
        assert(1 + word_len(rest) == a.len());
        assert(words(a) =~= seq![a] + words(none));
        assert(words(a) =~= seq![a]);
    }
}

proof fn lemma_word_len_of_word(s: Seq<char>)
    requires
        forall|i: int| 0 <= i < s.len() ==> !is_white(#[trigger] s[i]),
    ensures
        word_len(s) == s.len(),
    decreases s.len(),
{
    if s.len() > 0 {
        let rest = s.drop_first();
        assert forall|i: int| 0 <= i < rest.len() implies !is_white(#[trigger] rest[i]) by {
            assert(rest[i] == s[i + 1]);
        }
        lemma_word_len_of_word(rest);
    }
}

proof fn lemma_word_len_stops(a: Seq<char>, c: char, b: Seq<char>)
    requires
        is_white(c),
    ensures
        word_len(a + seq![c] + b) == word_len(a),
        word_len(a) <= a.len(),
    decreases a.len(),
{
    let s = a + seq![c] + b;
    if a.len() == 0 {
        assert(s[0] == c);
    } else {
        assert(s[0] == a[0]);
        assert(s.drop_first() =~= a.drop_first() + seq![c] + b);
        lemma_word_len_stops(a.drop_first(), c, b);
    }
}

proof fn lemma_words_of_parts(a: Seq<char>, c: char, b: Seq<char>)
    requires
        is_white(c),
    ensures
        words(a + seq![c] + b) == words(a) + words(b),
    decreases a.len(),
{
    let s = a + seq![c] + b;
    if a.len() == 0 {
        assert(s[0] == c);
        assert(s.drop_first() =~= b);
        assert(words(a) + words(b) =~= words(b));
    } else if is_white(a[0]) {
        assert(s[0] == a[0]);
        assert(s.drop_first() =~= a.drop_first() + seq![c] + b);
        lemma_words_of_parts(a.drop_first(), c, b);
    } else {
        assert(s[0] == a[0]);
        assert(s.drop_first() =~= a.drop_first() + seq![c] + b);
        lemma_word_len_stops(a.drop_first(), c, b);
        let n = 1 + word_len(a.drop_first());
        assert(s.take(n as int) =~= a.take(n as int));
        assert(s.skip(n as int) =~= a.skip(n as int) + seq![c] + b);
        lemma_words_of_parts(a.skip(n as int), c, b);
        assert(words(s) =~= words(a) + words(b));
    }
}

/// Joining puts the separator between two neighbours, and nowhere else.
pub proof fn law_joined_is_separated(parts: Seq<Seq<char>>, last: Seq<char>, sep: Seq<char>)
    ensures
        joined(Seq::empty(), sep) == Seq::<char>::empty(),
        joined(seq![last], sep) == last,
        parts.len() > 0 ==> joined(parts.push(last), sep) == joined(parts, sep) + sep + last,
{
    assert(parts.push(last).drop_last() =~= parts);
}

/// A prefix is taken off exactly where it stands.
pub proof fn law_prefix_is_taken_off(prefix: Seq<char>, rest: Seq<char>, s: Seq<char>)
    ensures
        stripped(prefix + rest, prefix) == Some(rest),
        stripped(s, prefix) matches Some(r) ==> s == prefix + r,
{
    let p = prefix + rest;
    assert(p.take(prefix.len() as int) =~= prefix);
    assert(p.skip(prefix.len() as int) =~= rest);
    if stripped(s, prefix) is Some {
        assert(s =~= prefix + s.skip(prefix.len() as int));
    }
}

/// A path under a directory is the directory, one slash, and the name; a name that begins with a
/// slash is a path by itself.
pub proof fn law_path_has_one_slash(base: Seq<char>, name: Seq<char>)
    ensures
        name.len() > 0 && name[0] == '/' ==> path_under(base, name) == name,
        name.len() == 0 || name[0] != '/' ==> {
            &&& base.len() > 0 && base.last() != '/' ==> path_under(base, name) == base + "/"@ + name
            &&& path_under(base + "/"@, name) == base + "/"@ + name
        },
        path_under(Seq::empty(), name) == name,
{
    reveal_strlit("/");
    assert("/"@ =~= seq!['/']);
    assert(Seq::<char>::empty() + name =~= name);
}

/// A number in decimal is made of digits, has no leading zero, and each digit counts ten times the
/// one behind it.
pub proof fn law_decimal(n: nat, d: nat)
    requires
        d < 10,
    ensures
        n < 10 ==> decimal(n) == seq!["0123456789"@[n as int]],
        n > 0 ==> decimal(10 * n + d) == decimal(n).push("0123456789"@[d as int]),
        signed_decimal(n as int) == decimal(n),
        n > 0 ==> signed_decimal(-(n as int)) == "-"@ + decimal(n),
{
    reveal_strlit("0123456789");
    reveal_strlit("-");
    assert("-"@ =~= seq!['-']);
    if n > 0 {
        assert((10 * n + d) as nat / 10 == n);
        assert((10 * n + d) as nat % 10 == d);
    }
}

/// The digits of a text stand for the number that decimal writes so.
pub proof fn law_number_of_digits(s: Seq<char>, d: nat)
    requires
        d < 10,
    ensures
        number(Seq::empty()) == 0,
        number(s.push("0123456789"@[d as int])) == 10 * number(s) + d,
{
    reveal_strlit("0123456789");
    assert(s.push("0123456789"@[d as int]).drop_last() =~= s);
}

/// A text is a port exactly where it is decimal digits, after at most one `+`, for a number up to
/// 65535; and it is refused for the reason that comes first when it is read from the front.
pub proof fn law_port(digits: Seq<char>, other: char, rest: Seq<char>)
    requires
        forall|i: int| 0 <= i < digits.len() ==> '0' <= #[trigger] digits[i] <= '9',
        !('0' <= other <= '9'),
    ensures
        port(Seq::empty()) == Err::<u16, PortError>(PortError::Empty),
        digits.len() > 0 && number(digits) <= 65535 ==> port(digits) == Ok::<u16, PortError>(
            number(digits) as u16,
        ),
        digits.len() > 0 && number(digits) > 65535 ==> port(digits) == Err::<u16, PortError>(
            PortError::TooLarge,
        ),
        rest.len() > 0 && rest[0] != '+' ==> port("+"@ + rest) == port(rest),
        rest.len() > 0 && rest[0] == '+' ==> port("+"@ + rest) == Err::<u16, PortError>(
            PortError::InvalidDigit,
        ),
        digits.len() > 0 || other != '+' || rest.len() == 0 ==> port(digits + seq![other] + rest)
            == Err::<u16, PortError>(
            if number(digits) > 65535 {
                PortError::TooLarge
            } else {
                PortError::InvalidDigit
            },
        ),
{
    reveal_strlit("+");
    assert("+"@ =~= seq!['+']);
    lemma_run(digits, Seq::empty());
    assert(digits + Seq::<char>::empty() =~= digits);
    assert(digits.take(digits.len() as int) =~= digits);
    assert(("+"@ + rest).drop_first() =~= rest);
    assert(("+"@ + rest)[0] == '+');
    assert(number(rest.take(0)) == 0);
    if digits.len() > 0 {
        assert(is_digit(digits[0]));
    }
    let s = digits + seq![other] + rest;
    assert(s =~= digits + (seq![other] + rest));
    assert((seq![other] + rest)[0] == other);
    lemma_run(digits, seq![other] + rest);
    assert(s.take(digits.len() as int) =~= digits);
    if digits.len() == 0 {
        assert(s[0] == other);
        assert(number(digits) == 0);
    } else {
        assert(s[0] == digits[0]);
    }
}

proof fn lemma_run(digits: Seq<char>, rest: Seq<char>)
    requires
        forall|i: int| 0 <= i < digits.len() ==> is_digit(#[trigger] digits[i]),
        rest.len() > 0 ==> !is_digit(rest[0]),
    ensures
        digit_run(digits + rest) == digits.len(),
    decreases digits.len(),
{
    let s = digits + rest;
    if digits.len() == 0 {
        assert(s =~= rest);
    } else {
        let t = digits.drop_first();
        assert forall|i: int| 0 <= i < t.len() implies is_digit(#[trigger] t[i]) by {
            assert(t[i] == digits[i + 1]);
        }
        assert(s[0] == digits[0]);
        assert(s.drop_first() =~= t + rest);
        lemma_run(t, rest);
    }
}

/// A text is blank where it holds nothing but white space, and so where trimming leaves nothing.
pub proof fn law_blank(s: Seq<char>, i: int)
    ensures
        is_blank(s) && 0 <= i < s.len() ==> is_white(s[i]),
        0 <= i < s.len() && !is_white(s[i]) ==> !is_blank(s),
        is_blank(Seq::empty()),
        is_blank(s) <==> trim_both(s, CharClass::White) == Seq::<char>::empty(),
{
    crate::text::lemma_blank_iff_trimmed_empty(s);
    if trim_both(s, CharClass::White).len() == 0 {
        assert(trim_both(s, CharClass::White) =~= Seq::empty());
    }
}

} // verus!
