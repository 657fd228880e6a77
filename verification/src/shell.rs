//! Quoting for POSIX shells, and how a shell reads a command line back.
//!
//! The second half is a model of the part of the POSIX shell grammar that the command lines of
//! this library stay inside: words made of plain characters, single quotes and backslashes, the
//! operator `&&`, and an unquoted `~` at the start of a word or behind a `/`. Anything else makes
//! the model give no reading, so a command line that has one cannot hide an expansion, a
//! redirection or a second command.
use vstd::prelude::*;

use crate::text::{after_prefix, alphanumeric, chars_of, same_text};

verus! {

/// Whether a shell takes `c` literally without quotes.
pub open spec fn is_safe(c: char) -> bool {
    ||| crate::text::is_alphanumeric(c)
    ||| c == '-'
    ||| c == '_'
    ||| c == '.'
    ||| c == '/'
    ||| c == '='
    ||| c == ':'
    ||| c == '@'
    ||| c == ','
    ||| c == '+'
}

/// Whether a shell takes all of `s` literally without quotes.
pub open spec fn all_safe(s: Seq<char>) -> bool {
    forall|i: int| 0 <= i < s.len() ==> is_safe(#[trigger] s[i])
}

/// One character as it stands between single quotes: a single quote closes the quotes, stands
/// behind a backslash, and opens them again.
pub open spec fn escaped_char(c: char) -> Seq<char> {
    if c == '\'' {
        seq!['\'', '\\', '\'', '\'']
    } else {
        seq![c]
    }
}

/// Every character of `s` as it stands between single quotes.
pub open spec fn escaped(s: Seq<char>) -> Seq<char>
    decreases s.len(),
{
    if s.len() == 0 {
        Seq::empty()
    } else {
        escaped_char(s[0]) + escaped(s.drop_first())
    }
}

/// `s` as one shell argument: as it is where every character is safe, else in single quotes.
pub open spec fn quoted(s: Seq<char>) -> Seq<char> {
    if s.len() > 0 && all_safe(s) {
        s
    } else {
        seq!['\''] + escaped(s) + seq!['\'']
    }
}

/// Whether a shell that reads `s` unquoted puts the home directory in its front.
pub open spec fn is_home_path(s: Seq<char>) -> bool {
    s.len() > 0 && s[0] == '~' && (s.len() == 1 || s[1] == '/')
}

/// `s` as one shell argument, with a leading `~` or `~/` left outside the quotes.
pub open spec fn quoted_path(s: Seq<char>) -> Seq<char> {
    if !is_home_path(s) {
        quoted(s)
    } else if s.len() <= 2 {
        s
    } else {
        s.take(2) + quoted(s.skip(2))
    }
}

/// Quote a single shell argument: wrap it in single quotes and escape the single quotes inside.
/// An argument of safe characters alone stays as it is; the empty one becomes `''`.
pub fn shell_quote(s: &str) -> (out: String)
    ensures
        out@ == quoted(s@),
{
    let chars = chars_of(s);
    let mut safe: bool = chars.len() > 0;
    let mut i: usize = 0;
    while i < chars.len() && safe
        invariant
            i <= chars.len(),
            safe ==> chars.len() > 0,
            safe ==> forall|k: int| 0 <= k < i ==> is_safe(#[trigger] chars[k]),
            !safe ==> chars.len() == 0 || !all_safe(chars@),
        decreases chars.len() - i,
    {
        let c = chars[i];
        safe = alphanumeric(c) || matches!(c, '-' | '_' | '.' | '/' | '=' | ':' | '@' | ',' | '+');
        i += 1;
        assert(!safe ==> !is_safe(chars@[i - 1]));
    }
    if safe {
        return s.to_owned();
    }
    let mut out = String::new();
    out.push('\'');
    let mut j: usize = 0;
    assert(chars@.skip(0) =~= chars@);
    assert(out@ =~= seq!['\'']);
    while j < chars.len()
        invariant
            j <= chars.len(),
            out@ + escaped(chars@.skip(j as int)) == seq!['\''] + escaped(chars@),
        decreases chars.len() - j,
    {
        let ghost before = out@;
        if chars[j] == '\'' {
            out.push('\'');
            out.push('\\');
            out.push('\'');
            out.push('\'');
        } else {
            out.push(chars[j]);
        }
        proof {
            let rest = chars@.skip(j as int);
            assert(rest.drop_first() =~= chars@.skip(j + 1));
            assert(out@ =~= before + escaped_char(chars@[j as int]));
            assert(out@ + escaped(rest.drop_first()) =~= before + (escaped_char(rest[0]) + escaped(
                rest.drop_first(),
            )));
        }
        j += 1;
    }
    assert(out@ + escaped(chars@.skip(j as int)) =~= out@);
    out.push('\'');
    assert(out@ =~= quoted(s@));
    out
}

/// Like [`shell_quote`], but with a leading `~/` or a bare `~` left unquoted, so that the shell
/// puts the home directory there. What follows the tilde is quoted.
pub fn shell_quote_path(s: &str) -> (out: String)
    ensures
        out@ == quoted_path(s@),
{
    proof {
        reveal_strlit("~");
        reveal_strlit("~/");
        assert("~"@ =~= seq!['~']);
        assert("~/"@ =~= seq!['~', '/']);
    }
    if same_text(s, "~") {
        return s.to_owned();
    }
    match after_prefix(s, "~/") {
        Some(rest) => {
            let mut out = "~/".to_owned();
            if !rest.as_str().is_empty() {
                out.append(shell_quote(rest.as_str()).as_str());
            }
            assert(s@.take(2) =~= "~/"@);
            assert(out@ =~= quoted_path(s@));
            out
        },
        None => {
            proof {
                if is_home_path(s@) {
                    if s@.len() == 1 {
                        assert(s@ =~= "~"@);
                    } else {
                        assert("~/"@.is_prefix_of(s@));
                    }
                }
            }
            shell_quote(s)
        },
    }
}

/// A piece of a command line, as a shell reads it.
pub enum Token {
    /// A word, and whether a shell replaces its leading `~` by the home directory.
    Word { text: Seq<char>, home: bool },
    /// The operator `&&`.
    AndIf,
}

/// Where a shell stands in a command line.
pub enum Mode {
    /// Between two words.
    Gap,
    /// Behind the first `&` of an operator.
    Ampersand,
    /// In a word, outside quotes.
    Bare,
    /// In a word, between single quotes.
    Quoted,
    /// In a word, behind a backslash.
    Escape,
}

/// What a shell has read of a command line: the tokens that are complete, and the word begun.
pub struct Reading {
    pub tokens: Seq<Token>,
    pub mode: Mode,
    pub text: Seq<char>,
    pub home: bool,
}

impl Reading {
    /// The reading before the first character.
    pub open spec fn start() -> Self {
        Reading { tokens: Seq::empty(), mode: Mode::Gap, text: Seq::empty(), home: false }
    }

    /// The reading with `token` complete, between two words.
    pub open spec fn complete(self, token: Token) -> Self {
        Reading {
            tokens: self.tokens.push(token),
            mode: Mode::Gap,
            text: Seq::empty(),
            home: false,
        }
    }

    /// The word that is begun.
    pub open spec fn word(self) -> Token {
        Token::Word { text: self.text, home: self.home }
    }

    /// The reading in another mode.
    pub open spec fn turn(self, mode: Mode) -> Self {
        Reading { mode: mode, ..self }
    }

    /// The reading with `c` added to the word, outside quotes.
    pub open spec fn take(self, c: char) -> Self {
        Reading { mode: Mode::Bare, text: self.text.push(c), ..self }
    }

    /// Whether the word begun ends in a `/`, behind which no shell takes a `~` for a directory.
    pub open spec fn follows_slash(self) -> bool {
        self.text.len() > 0 && self.text.last() == '/'
    }

    /// The reading one character on, or none where the character leaves the model.
    pub open spec fn step(self, c: char) -> Option<Reading> {
        match self.mode {
            Mode::Gap => {
                if c == ' ' {
                    Some(self)
                } else if c == '&' {
                    Some(self.turn(Mode::Ampersand))
                } else if c == '\'' {
                    Some(self.turn(Mode::Quoted))
                } else if c == '\\' {
                    Some(self.turn(Mode::Escape))
                } else if c == '~' {
                    Some(Reading { home: true, ..self.take(c) })
                } else if is_safe(c) {
                    Some(self.take(c))
                } else {
                    None
                }
            },
            Mode::Ampersand => {
                if c == '&' {
                    Some(self.complete(Token::AndIf))
                } else {
                    None
                }
            },
            Mode::Bare => {
                if c == ' ' {
                    Some(self.complete(self.word()))
                } else if self.home && self.text.len() == 1 && c != '/' {
                    None
                } else if c == '\'' {
                    Some(self.turn(Mode::Quoted))
                } else if c == '\\' {
                    Some(self.turn(Mode::Escape))
                } else if is_safe(c) || (c == '~' && self.follows_slash()) {
                    Some(self.take(c))
                } else {
                    None
                }
            },
            Mode::Quoted => {
                if c == '\'' {
                    Some(self.turn(Mode::Bare))
                } else {
                    Some(Reading { text: self.text.push(c), ..self })
                }
            },
            Mode::Escape => {
                if c == '\n' {
                    None
                } else {
                    Some(self.take(c))
                }
            },
        }
    }

    /// The reading after all of `s`.
    pub open spec fn read(self, s: Seq<char>) -> Option<Reading>
        decreases s.len(),
    {
        if s.len() == 0 {
            Some(self)
        } else {
            match self.step(s[0]) {
                Some(next) => next.read(s.drop_first()),
                None => None,
            }
        }
    }

    /// The tokens of a command line that ends here.
    pub open spec fn end(self) -> Option<Seq<Token>> {
        match self.mode {
            Mode::Gap => Some(self.tokens),
            Mode::Bare => Some(self.tokens.push(self.word())),
            _ => None,
        }
    }

    /// Whether a quoted argument can follow: between words, or in a word where the home directory
    /// is already decided.
    pub open spec fn ready(self) -> bool {
        match self.mode {
            Mode::Gap => self.text.len() == 0 && !self.home,
            Mode::Bare => self.home ==> self.text.len() > 1,
            _ => false,
        }
    }

    /// The reading with all of `s` added to the word.
    pub open spec fn with(self, s: Seq<char>) -> Self {
        Reading { mode: Mode::Bare, text: self.text + s, ..self }
    }
}

/// The tokens of a command line, or none where it is outside the model.
pub open spec fn shell_tokens(line: Seq<char>) -> Option<Seq<Token>> {
    match Reading::start().read(line) {
        Some(r) => r.end(),
        None => None,
    }
}

/// A word that a shell takes as it is.
pub open spec fn plain_word(text: Seq<char>) -> Token {
    Token::Word { text: text, home: false }
}

/// Reading `a` and then `b` is reading both at once.
pub proof fn lemma_read_in_parts(r: Reading, a: Seq<char>, b: Seq<char>)
    ensures
        r.read(a + b) == (match r.read(a) {
            Some(m) => m.read(b),
            None => None,
        }),
    decreases a.len(),
{
    if a.len() == 0 {
        assert(a + b =~= b);
    } else {
        assert((a + b).drop_first() =~= a.drop_first() + b);
        match r.step(a[0]) {
            Some(next) => {
                lemma_read_in_parts(next, a.drop_first(), b);
            },
            None => {},
        }
    }
}

proof fn lemma_read_safe(r: Reading, s: Seq<char>)
    requires
        r.ready(),
        all_safe(s),
        s.len() > 0,
    ensures
        r.read(s) == Some(r.with(s)),
    decreases s.len(),
{
    assert(is_safe(s[0]));
    let next = r.take(s[0]);
    assert(r.step(s[0]) == Some(next));
    let rest = s.drop_first();
    if rest.len() == 0 {
        assert(next.read(rest) == Some(next));
        assert(r.text.push(s[0]) =~= r.text + s);
    } else {
        assert forall|i: int| 0 <= i < rest.len() implies is_safe(#[trigger] rest[i]) by {
            assert(rest[i] == s[i + 1]);
        }
        lemma_read_safe(next, rest);
        assert(r.text.push(s[0]) + rest =~= r.text + s);
    }
}

proof fn lemma_read_escaped(r: Reading, s: Seq<char>)
    requires
        r.mode is Quoted,
        r.home ==> r.text.len() > 1,
    ensures
        r.read(escaped(s)) == Some(Reading { text: r.text + s, ..r }),
    decreases s.len(),
{
    if s.len() == 0 {
        assert(r.text + s =~= r.text);
    } else {
        let c = s[0];
        let rest = s.drop_first();
        let next = Reading { text: r.text.push(c), ..r };
        assert(r.read(escaped_char(c)) == Some(next)) by {
            reveal_with_fuel(Reading::read, 5);
            if c == '\'' {
                let e = escaped_char(c);
                assert(e.drop_first().drop_first().drop_first().drop_first() =~= Seq::empty());
            } else {
                assert(escaped_char(c).drop_first() =~= Seq::empty());
            }
        }
        lemma_read_in_parts(r, escaped_char(c), escaped(rest));
        lemma_read_escaped(next, rest);
        assert(r.text.push(c) + rest =~= r.text + s);
    }
}

/// A quoted argument adds exactly its own text to the word that a shell reads.
pub proof fn lemma_quoted_reads_back(r: Reading, s: Seq<char>)
    requires
        r.ready(),
    ensures
        r.read(quoted(s)) == Some(r.with(s)),
        r.with(s).ready(),
{
    if s.len() > 0 && all_safe(s) {
        lemma_read_safe(r, s);
    } else {
        let open = r.turn(Mode::Quoted);
        let quote = seq!['\''];
        assert(quote.drop_first() =~= Seq::empty());
        assert(r.read(quote) == Some(open)) by {
            reveal_with_fuel(Reading::read, 2);
        }
        lemma_read_in_parts(r, quote, escaped(s));
        lemma_read_escaped(open, s);
        lemma_read_in_parts(r, quote + escaped(s), quote);
        let inside = Reading { text: r.text + s, ..open };
        assert(inside.read(quote) == Some(r.with(s))) by {
            reveal_with_fuel(Reading::read, 2);
        }
    }
}

/// A quoted path, at the start of a word or behind a `/`, adds exactly its own text to the word that
/// a shell reads, and a path that begins with `~/`, or is `~`, at the start of a word is a path under
/// the home directory. Behind it, a `/` can follow.
pub proof fn lemma_quoted_path_reads_back(r: Reading, s: Seq<char>)
    requires
        r.ready(),
        r.mode is Gap || r.follows_slash(),
    ensures
        r.read(quoted_path(s)) == Some(
            Reading { home: r.home || (r.mode is Gap && is_home_path(s)), ..r.with(s) },
        ),
{
    if is_home_path(s) {
        let tilde = if r.mode is Gap {
            Reading { home: true, ..r.take('~') }
        } else {
            r.take('~')
        };
        assert(r.step('~') == Some(tilde));
        if s.len() == 1 {
            assert(s.drop_first() =~= Seq::empty());
            assert(tilde.read(s.drop_first()) == Some(tilde));
            assert(r.text.push('~') =~= r.text + s);
        } else {
            let lead = s.take(2);
            let slash = tilde.take('/');
            assert(r.read(lead) == Some(slash)) by {
                reveal_with_fuel(Reading::read, 3);
                assert(lead.drop_first().drop_first() =~= Seq::empty());
                assert(tilde.step('/') == Some(slash));
            }
            if s.len() == 2 {
                assert(lead =~= s);
                assert(r.text.push('~').push('/') =~= r.text + s);
            } else {
                let rest = s.skip(2);
                lemma_read_in_parts(r, lead, quoted(rest));
                lemma_quoted_reads_back(slash, rest);
                assert(r.text.push('~').push('/') + rest =~= r.text + s);
            }
        }
    } else {
        lemma_quoted_reads_back(r, s);
    }
}

/// Two arguments that are quoted alike are the same argument.
pub proof fn law_quoting_is_faithful(a: Seq<char>, b: Seq<char>)
    requires
        quoted(a) == quoted(b),
    ensures
        a == b,
{
    let r = Reading::start();
    lemma_quoted_reads_back(r, a);
    lemma_quoted_reads_back(r, b);
    assert(r.text + a =~= a);
    assert(r.text + b =~= b);
}

/// A shell reads a quoted argument as one word, which is the argument.
pub proof fn law_quoted_is_one_word(s: Seq<char>)
    ensures
        shell_tokens(quoted(s)) == Some(seq![plain_word(s)]),
{
    let r = Reading::start();
    lemma_quoted_reads_back(r, s);
    assert(r.text + s =~= s);
    assert(r.tokens.push(plain_word(s)) =~= seq![plain_word(s)]);
}

/// A shell reads a quoted path as one word, which is the path, and puts the home directory in its
/// front exactly where the path is `~` or begins with `~/`.
pub proof fn law_quoted_path_is_one_word(s: Seq<char>)
    ensures
        shell_tokens(quoted_path(s)) == Some(
            seq![Token::Word { text: s, home: is_home_path(s) }],
        ),
{
    let r = Reading::start();
    lemma_quoted_path_reads_back(r, s);
    assert(r.text + s =~= s);
    let word = Token::Word { text: s, home: is_home_path(s) };
    assert(r.tokens.push(word) =~= seq![word]);
}

} // verus!
