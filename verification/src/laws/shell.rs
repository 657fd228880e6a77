//! Laws of quoting.
use vstd::prelude::*;

use crate::shell::{escaped, quoted, quoted_path};

verus! {

/// Whether `c` is one of the characters that need no quotes.
pub open spec fn needs_no_quotes(c: char) -> bool {
    ||| 'a' <= c <= 'z'
    ||| 'A' <= c <= 'Z'
    ||| '0' <= c <= '9'
    ||| "-_./=:@,+"@.contains(c)
}

/// An argument of characters that need no quotes stays as it is. Any other argument stands between
/// single quotes, each of its characters as it is but for a single quote, which stands as
/// quote, backslash, quote, quote.
pub proof fn law_quotes_stand_where_needed(s: Seq<char>, c: char, a: Seq<char>, b: Seq<char>)
    ensures
        s.len() > 0 && (forall|i: int| 0 <= i < s.len() ==> needs_no_quotes(#[trigger] s[i]))
            ==> quoted(s) == s,
        s.len() == 0 || (exists|i: int| 0 <= i < s.len() && !needs_no_quotes(#[trigger] s[i]))
            ==> quoted(s) == "'"@ + escaped(s) + "'"@,
        escaped(Seq::empty()) == Seq::<char>::empty(),
        c != '\'' ==> escaped(seq![c]) == seq![c],
        escaped(seq!['\'']) == "'\\''"@,
        escaped(a + b) == escaped(a) + escaped(b),
{
    reveal_strlit("'");
    reveal_strlit("'\\''");
    reveal_strlit("-_./=:@,+");
    assert("'"@ =~= seq!['\'']);
    assert("'\\''"@ =~= seq!['\'', '\\', '\'', '\'']);
    let marks = "-_./=:@,+"@;
    assert(marks =~= seq!['-', '_', '.', '/', '=', ':', '@', ',', '+']);
    assert forall|x: char| needs_no_quotes(x) == #[trigger] crate::shell::is_safe(x) by {
        assert(marks[0] == '-' && marks[1] == '_' && marks[2] == '.' && marks[3] == '/');
        assert(marks[4] == '=' && marks[5] == ':' && marks[6] == '@' && marks[7] == ',');
        assert(marks[8] == '+');
    }
    if exists|i: int| 0 <= i < s.len() && !needs_no_quotes(#[trigger] s[i]) {
        let i = choose|i: int| 0 <= i < s.len() && !needs_no_quotes(#[trigger] s[i]);
        assert(!crate::shell::is_safe(s[i]));
    }
    reveal_with_fuel(escaped, 2);
    assert(seq![c].drop_first() =~= Seq::empty());
    assert(seq!['\''].drop_first() =~= Seq::empty());
    assert(escaped(seq![c]) =~= crate::shell::escaped_char(c));
    assert(escaped(seq!['\'']) =~= "'\\''"@);
    lemma_escaped_in_parts(a, b);
}

proof fn lemma_escaped_in_parts(a: Seq<char>, b: Seq<char>)
    ensures
        escaped(a + b) == escaped(a) + escaped(b),
    decreases a.len(),
{
    if a.len() == 0 {
        assert(a + b =~= b);
        assert(escaped(a) + escaped(b) =~= escaped(b));
    } else {
        assert((a + b)[0] == a[0]);
        assert((a + b).drop_first() =~= a.drop_first() + b);
        lemma_escaped_in_parts(a.drop_first(), b);
        assert(escaped(a + b) =~= escaped(a) + escaped(b));
    }
}

/// A path keeps a leading `~/`, or a bare `~`, outside the quotes; what follows is quoted like any
/// argument, and so is every other path.
pub proof fn law_tilde_stays_outside(rest: Seq<char>, s: Seq<char>)
    ensures
        quoted_path("~"@) == "~"@,
        quoted_path("~/"@) == "~/"@,
        rest.len() > 0 ==> quoted_path("~/"@ + rest) == "~/"@ + quoted(rest),
        s.len() == 0 || s[0] != '~' || (s.len() > 1 && s[1] != '/') ==> quoted_path(s) == quoted(s),
{
    reveal_strlit("~");
    reveal_strlit("~/");
    assert("~/"@ =~= seq!['~', '/']);
    let p = "~/"@ + rest;
    assert(p.take(2) =~= "~/"@);
    assert(p.skip(2) =~= rest);
}

} // verus!
