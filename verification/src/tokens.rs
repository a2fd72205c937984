use vstd::prelude::*;

use crate::text::{chars_of, owned, string_from};
use crate::types::{Numeral, numeral_ok};

verus! {

/// A lexical token of the layout language.
#[derive(Debug, PartialEq, Clone)]
pub enum Token {
    Window,
    Variable,
    Declare,
    Stylesheet,
    Then,
    Repeat,
    LParenthesis,
    RParenthesis,
    Colon,
    Comment,
    Dot,
    Ampersand,
    Dollar,
    LBracket,
    RBracket,
    Comma,
    Minus,
    Plus,
    Mul,
    Div,
    Eq,
    NotEq,
    And,
    Or,
    Gt,
    Lt,
    Number(Numeral),
    LiteralString(String),
    Identifier(String),
    Whitespace,
    Error,
}

/// The mathematical form of a [`Token`]: text payloads as character sequences.
pub enum SpecToken {
    Window,
    Variable,
    Declare,
    Stylesheet,
    Then,
    Repeat,
    LParenthesis,
    RParenthesis,
    Colon,
    Comment,
    Dot,
    Ampersand,
    Dollar,
    LBracket,
    RBracket,
    Comma,
    Minus,
    Plus,
    Mul,
    Div,
    Eq,
    NotEq,
    And,
    Or,
    Gt,
    Lt,
    Number(Seq<char>),
    LiteralString(Seq<char>),
    Identifier(Seq<char>),
    Whitespace,
    Error,
}

impl View for Token {
    type V = SpecToken;

    open spec fn view(&self) -> SpecToken {
        match self {
            Token::Window => SpecToken::Window,
            Token::Variable => SpecToken::Variable,
            Token::Declare => SpecToken::Declare,
            Token::Stylesheet => SpecToken::Stylesheet,
            Token::Then => SpecToken::Then,
            Token::Repeat => SpecToken::Repeat,
            Token::LParenthesis => SpecToken::LParenthesis,
            Token::RParenthesis => SpecToken::RParenthesis,
            Token::Colon => SpecToken::Colon,
            Token::Comment => SpecToken::Comment,
            Token::Dot => SpecToken::Dot,
            Token::Ampersand => SpecToken::Ampersand,
            Token::Dollar => SpecToken::Dollar,
            Token::LBracket => SpecToken::LBracket,
            Token::RBracket => SpecToken::RBracket,
            Token::Comma => SpecToken::Comma,
            Token::Minus => SpecToken::Minus,
            Token::Plus => SpecToken::Plus,
            Token::Mul => SpecToken::Mul,
            Token::Div => SpecToken::Div,
            Token::Eq => SpecToken::Eq,
            Token::NotEq => SpecToken::NotEq,
            Token::And => SpecToken::And,
            Token::Or => SpecToken::Or,
            Token::Gt => SpecToken::Gt,
            Token::Lt => SpecToken::Lt,
            Token::Number(v) => SpecToken::Number(v@),
            Token::LiteralString(v) => SpecToken::LiteralString(v@),
            Token::Identifier(v) => SpecToken::Identifier(v@),
            Token::Whitespace => SpecToken::Whitespace,
            Token::Error => SpecToken::Error,
        }
    }
}

/// How a token is shown to a reader: keywords and punctuation as written, a
/// number, string or identifier by its text, and placeholders for the rest.
pub open spec fn token_text(t: SpecToken) -> Seq<char> {
    match t {
        SpecToken::Window => "window"@,
        SpecToken::Variable => "variable"@,
        SpecToken::Declare => "declare"@,
        SpecToken::Stylesheet => "stylesheet"@,
        SpecToken::Then => "then"@,
        SpecToken::Repeat => "repeat"@,
        SpecToken::Ampersand => "&"@,
        SpecToken::Dollar => "$"@,
        SpecToken::LParenthesis => "("@,
        SpecToken::RParenthesis => ")"@,
        SpecToken::Gt => ">"@,
        SpecToken::Lt => "<"@,
        SpecToken::Plus => "+"@,
        SpecToken::Mul => "*"@,
        SpecToken::Div => "/"@,
        SpecToken::Eq => "=="@,
        SpecToken::NotEq => "!="@,
        SpecToken::And => "&&"@,
        SpecToken::Or => "||"@,
        SpecToken::Comment => "<comment>"@,
        SpecToken::Colon => ":"@,
        SpecToken::Number(v) => v,
        SpecToken::Dot => "."@,
        SpecToken::Minus => "-"@,
        SpecToken::LiteralString(v) => v,
        SpecToken::Identifier(v) => v,
        SpecToken::LBracket => "["@,
        SpecToken::RBracket => "]"@,
        SpecToken::Comma => ","@,
        SpecToken::Whitespace => "<whitespace>"@,
        SpecToken::Error => "<error>"@,
    }
}

impl Token {
    /// The token as shown in messages; see [`token_text`].
    pub fn text(&self) -> (res: String)
        ensures
            res@ == token_text(self@),
    {
        match self {
            Token::Window => owned("window"),
            Token::Variable => owned("variable"),
            Token::Declare => owned("declare"),
            Token::Stylesheet => owned("stylesheet"),
            Token::Then => owned("then"),
            Token::Repeat => owned("repeat"),
            Token::Ampersand => owned("&"),
            Token::Dollar => owned("$"),
            Token::LParenthesis => owned("("),
            Token::RParenthesis => owned(")"),
            Token::Gt => owned(">"),
            Token::Lt => owned("<"),
            Token::Plus => owned("+"),
            Token::Mul => owned("*"),
            Token::Div => owned("/"),
            Token::Eq => owned("=="),
            Token::NotEq => owned("!="),
            Token::And => owned("&&"),
            Token::Or => owned("||"),
            Token::Comment => owned("<comment>"),
            Token::Colon => owned(":"),
            Token::Number(v) => owned(v.digits()),
            Token::Dot => owned("."),
            Token::Minus => owned("-"),
            Token::LiteralString(v) => v.clone(),
            Token::Identifier(v) => v.clone(),
            Token::LBracket => owned("["),
            Token::RBracket => owned("]"),
            Token::Comma => owned(","),
            Token::Whitespace => owned("<whitespace>"),
            Token::Error => owned("<error>"),
        }
    }
}

/// A token with the character offsets `start..end` it was read from.
#[derive(Debug, Clone)]
pub struct Spanned {
    pub token: Token,
    pub start: usize,
    pub end: usize,
}

/// The mathematical form of a [`Spanned`] token.
pub struct SpecSpanned {
    pub token: SpecToken,
    pub start: int,
    pub end: int,
}

impl View for Spanned {
    type V = SpecSpanned;

    open spec fn view(&self) -> SpecSpanned {
        SpecSpanned { token: self.token@, start: self.start as int, end: self.end as int }
    }
}

/// The views of a sequence of spanned tokens.
pub open spec fn spanned_view(v: Seq<Spanned>) -> Seq<SpecSpanned> {
    Seq::new(v.len(), |i: int| v[i]@)
}

/// The tokens of a sequence of spanned tokens, spans dropped.
pub open spec fn tokens_of(v: Seq<SpecSpanned>) -> Seq<SpecToken> {
    Seq::new(v.len(), |i: int| v[i].token)
}

pub open spec fn is_space(c: char) -> bool {
    c == ' ' || c == '\t' || c == '\n' || c == '\x0c'
}

pub open spec fn is_digit(c: char) -> bool {
    '0' <= c <= '9'
}

pub open spec fn is_ident_start(c: char) -> bool {
    ('a' <= c <= 'z') || ('A' <= c <= 'Z') || c == '_'
}

pub open spec fn is_ident_char(c: char) -> bool {
    is_ident_start(c) || is_digit(c)
}

/// End of the run of digits that starts at `i`.
pub open spec fn digits_end(s: Seq<char>, i: int) -> int
    decreases s.len() - i,
{
    if 0 <= i < s.len() && is_digit(s[i]) {
        digits_end(s, i + 1)
    } else {
        i
    }
}

/// End of the run of identifier characters that starts at `i`.
pub open spec fn ident_end(s: Seq<char>, i: int) -> int
    decreases s.len() - i,
{
    if 0 <= i < s.len() && is_ident_char(s[i]) {
        ident_end(s, i + 1)
    } else {
        i
    }
}

/// End of the run of whitespace that starts at `i`.
pub open spec fn space_end(s: Seq<char>, i: int) -> int
    decreases s.len() - i,
{
    if 0 <= i < s.len() && is_space(s[i]) {
        space_end(s, i + 1)
    } else {
        i
    }
}

/// Position of the first newline at or after `i`, or the end of `s`.
pub open spec fn line_end(s: Seq<char>, i: int) -> int
    decreases s.len() - i,
{
    if 0 <= i < s.len() && s[i] != '\n' {
        line_end(s, i + 1)
    } else {
        i
    }
}

/// Position of the first `'` at or after `i`, if there is one.
pub open spec fn quote_close(s: Seq<char>, i: int) -> Option<int>
    decreases s.len() - i,
{
    if 0 <= i < s.len() {
        if s[i] == '\'' {
            Some(i)
        } else {
            quote_close(s, i + 1)
        }
    } else {
        None
    }
}

/// The token for an identifier-shaped word: a keyword, or an identifier.
pub open spec fn word_token(w: Seq<char>) -> SpecToken {
    if w == "window"@ {
        SpecToken::Window
    } else if w == "variable"@ {
        SpecToken::Variable
    } else if w == "declare"@ {
        SpecToken::Declare
    } else if w == "stylesheet"@ {
        SpecToken::Stylesheet
    } else if w == "then"@ {
        SpecToken::Then
    } else if w == "repeat"@ {
        SpecToken::Repeat
    } else {
        SpecToken::Identifier(w)
    }
}

/// The longest token that starts at `i` (a character that is not whitespace), and where it ends.
/// Characters that start no token are read as an `Error` token of one character.
pub open spec fn next_token(s: Seq<char>, i: int) -> (SpecToken, int) {
    let c = s[i];
    let next_is = |d: char| i < s.len() - 1 && s[i + 1] == d;
    if c == '(' {
        (SpecToken::LParenthesis, i + 1)
    } else if c == ')' {
        (SpecToken::RParenthesis, i + 1)
    } else if c == ':' {
        (SpecToken::Colon, i + 1)
    } else if c == '.' {
        (SpecToken::Dot, i + 1)
    } else if c == '$' {
        (SpecToken::Dollar, i + 1)
    } else if c == '[' {
        (SpecToken::LBracket, i + 1)
    } else if c == ']' {
        (SpecToken::RBracket, i + 1)
    } else if c == ',' {
        (SpecToken::Comma, i + 1)
    } else if c == '-' {
        (SpecToken::Minus, i + 1)
    } else if c == '+' {
        (SpecToken::Plus, i + 1)
    } else if c == '*' {
        (SpecToken::Mul, i + 1)
    } else if c == '/' {
        (SpecToken::Div, i + 1)
    } else if c == '>' {
        (SpecToken::Gt, i + 1)
    } else if c == '<' {
        (SpecToken::Lt, i + 1)
    } else if c == '&' {
        if next_is('&') {
            (SpecToken::And, i + 2)
        } else {
            (SpecToken::Ampersand, i + 1)
        }
    } else if c == '|' {
        if next_is('|') {
            (SpecToken::Or, i + 2)
        } else {
            (SpecToken::Error, i + 1)
        }
    } else if c == '=' {
        if next_is('=') {
            (SpecToken::Eq, i + 2)
        } else {
            (SpecToken::Error, i + 1)
        }
    } else if c == '!' {
        if next_is('=') {
            (SpecToken::NotEq, i + 2)
        } else {
            (SpecToken::Error, i + 1)
        }
    } else if c == ';' {
        if next_is(';') {
            (SpecToken::Comment, line_end(s, i + 2))
        } else {
            (SpecToken::Error, i + 1)
        }
    } else if is_digit(c) {
        (SpecToken::Number(s.subrange(i, digits_end(s, i))), digits_end(s, i))
    } else if c == '\'' {
        match quote_close(s, i + 1) {
            Some(j) => (SpecToken::LiteralString(s.subrange(i, j + 1)), j + 1),
            None => (SpecToken::Error, i + 1),
        }
    } else if is_ident_start(c) {
        (word_token(s.subrange(i, ident_end(s, i))), ident_end(s, i))
    } else {
        (SpecToken::Error, i + 1)
    }
}

pub proof fn lemma_runs(s: Seq<char>, i: int)
    requires
        0 <= i <= s.len(),
    ensures
        i <= digits_end(s, i) <= s.len(),
        i <= ident_end(s, i) <= s.len(),
        i <= space_end(s, i) <= s.len(),
        i <= line_end(s, i) <= s.len(),
        quote_close(s, i) matches Some(j) ==> i <= j < s.len() && s[j] == '\'',
    decreases s.len() - i,
{
    if i < s.len() {
        lemma_runs(s, i + 1);
    }
}

/// A run of digits that starts on a digit is a numeral.
pub proof fn lemma_digit_run(s: Seq<char>, i: int)
    requires
        0 <= i < s.len(),
        is_digit(s[i]),
    ensures
        numeral_ok(s.subrange(i, digits_end(s, i))),
{
    lemma_digits_all(s, i);
    lemma_runs(s, i + 1);
    assert(digits_end(s, i) == digits_end(s, i + 1));
    let d = s.subrange(i, digits_end(s, i));
    assert forall|j: int| 0 <= j < d.len() implies #[trigger] is_digit(d[j]) by {
        assert(d[j] == s[i + j]);
    }
}

proof fn lemma_digits_all(s: Seq<char>, i: int)
    requires
        0 <= i <= s.len(),
    ensures
        forall|j: int| i <= j < digits_end(s, i) ==> #[trigger] is_digit(s[j]),
    decreases s.len() - i,
{
    if 0 <= i < s.len() && is_digit(s[i]) {
        lemma_digits_all(s, i + 1);
    }
}

pub proof fn lemma_next_token_advances(s: Seq<char>, i: int)
    requires
        0 <= i < s.len(),
    ensures
        i < next_token(s, i).1 <= s.len(),
{
    lemma_runs(s, i);
    lemma_runs(s, i + 1);
    if i + 2 <= s.len() {
        lemma_runs(s, i + 2);
    }
}

/// The tokens read from `s` starting at `i`; whitespace separates tokens and is dropped.
pub open spec fn lex_from(s: Seq<char>, i: int) -> Seq<SpecSpanned>
    decreases s.len() - i,
{
    if i < 0 || i >= s.len() {
        Seq::empty()
    } else if is_space(s[i]) {
        proof {
            lemma_runs(s, i + 1);
        }
        lex_from(s, space_end(s, i + 1))
    } else {
        let (t, e) = next_token(s, i);
        proof {
            lemma_next_token_advances(s, i);
        }
        seq![SpecSpanned { token: t, start: i, end: e }] + lex_from(s, e)
    }
}

/// The tokens of a whole text.
pub open spec fn lex_spec(s: Seq<char>) -> Seq<SpecSpanned> {
    lex_from(s, 0)
}

/// Whether the lexer can give `t` for a text of its own: a keyword or a
/// punctuation token, a numeral, a quoted string without inner quotes, or an
/// identifier that is no keyword.
pub open spec fn readable_token(t: SpecToken) -> bool {
    match t {
        SpecToken::Comment | SpecToken::Whitespace | SpecToken::Error => false,
        SpecToken::Number(d) => numeral_ok(d),
        SpecToken::LiteralString(v) => v.len() >= 2 && v[0] == '\'' && v.last() == '\''
            && forall|k: int| 0 < k < v.len() - 1 ==> #[trigger] v[k] != '\'',
        SpecToken::Identifier(v) => v.len() > 0 && is_ident_start(v[0])
            && (forall|k: int| 0 <= k < v.len() ==> #[trigger] is_ident_char(v[k]))
            && word_token(v) == SpecToken::Identifier(v),
        _ => true,
    }
}

/// Where every character from `i` on is an identifier character, the run
/// reaches the end; likewise for digits.
proof fn lemma_all_ident(s: Seq<char>, i: int)
    requires
        0 <= i <= s.len(),
    ensures
        (forall|k: int| i <= k < s.len() ==> #[trigger] is_ident_char(s[k])) ==> ident_end(s, i) == s.len(),
        (forall|k: int| i <= k < s.len() ==> #[trigger] is_digit(s[k])) ==> digits_end(s, i) == s.len(),
    decreases s.len() - i,
{
    if i < s.len() {
        lemma_all_ident(s, i + 1);
    }
}

/// Where no character from `i` up to the last is a quote and the last one
/// is, the first quote from `i` on is the last character.
proof fn lemma_quote_at_end(s: Seq<char>, i: int)
    requires
        0 <= i < s.len(),
        s.last() == '\'',
        forall|k: int| i <= k < s.len() - 1 ==> #[trigger] s[k] != '\'',
    ensures
        quote_close(s, i) == Some(s.len() - 1),
    decreases s.len() - i,
{
    if i < s.len() - 1 {
        lemma_quote_at_end(s, i + 1);
    }
}

/// A token shown as text reads back as that same token, alone.
pub proof fn law_token_text_reads_back(t: SpecToken)
    requires
        readable_token(t),
    ensures
        tokens_of(lex_spec(token_text(t))) == seq![t],
{
    let s = token_text(t);
    reveal_strlit("window");
    reveal_strlit("variable");
    reveal_strlit("declare");
    reveal_strlit("stylesheet");
    reveal_strlit("then");
    reveal_strlit("repeat");
    match t {
        SpecToken::Window => {
            reveal_strlit("window");
            reveal_with_fuel(ident_end, 12);
            assert(s.subrange(0, s.len() as int) == s);
            assert(next_token(s, 0) == (t, s.len() as int));
        },
        SpecToken::Variable => {
            reveal_strlit("variable");
            reveal_with_fuel(ident_end, 12);
            assert(s.subrange(0, s.len() as int) == s);
            assert(next_token(s, 0) == (t, s.len() as int));
        },
        SpecToken::Declare => {
            reveal_strlit("declare");
            reveal_with_fuel(ident_end, 12);
            assert(s.subrange(0, s.len() as int) == s);
            assert(next_token(s, 0) == (t, s.len() as int));
        },
        SpecToken::Stylesheet => {
            reveal_strlit("stylesheet");
            reveal_with_fuel(ident_end, 12);
            assert(s.subrange(0, s.len() as int) == s);
            assert(next_token(s, 0) == (t, s.len() as int));
        },
        SpecToken::Then => {
            reveal_strlit("then");
            reveal_with_fuel(ident_end, 12);
            assert(s.subrange(0, s.len() as int) == s);
            assert(next_token(s, 0) == (t, s.len() as int));
        },
        SpecToken::Repeat => {
            reveal_strlit("repeat");
            reveal_with_fuel(ident_end, 12);
            assert(s.subrange(0, s.len() as int) == s);
            assert(next_token(s, 0) == (t, s.len() as int));
        },
        SpecToken::Ampersand => {
            reveal_strlit("&");
            assert(next_token(s, 0) == (t, s.len() as int));
        },
        SpecToken::Dollar => {
            reveal_strlit("$");
            assert(next_token(s, 0) == (t, s.len() as int));
        },
        SpecToken::LParenthesis => {
            reveal_strlit("(");
            assert(next_token(s, 0) == (t, s.len() as int));
        },
        SpecToken::RParenthesis => {
            reveal_strlit(")");
            assert(next_token(s, 0) == (t, s.len() as int));
        },
        SpecToken::Gt => {
            reveal_strlit(">");
            assert(next_token(s, 0) == (t, s.len() as int));
        },
        SpecToken::Lt => {
            reveal_strlit("<");
            assert(next_token(s, 0) == (t, s.len() as int));
        },
        SpecToken::Plus => {
            reveal_strlit("+");
            assert(next_token(s, 0) == (t, s.len() as int));
        },
        SpecToken::Mul => {
            reveal_strlit("*");
            assert(next_token(s, 0) == (t, s.len() as int));
        },
        SpecToken::Div => {
            reveal_strlit("/");
            assert(next_token(s, 0) == (t, s.len() as int));
        },
        SpecToken::Eq => {
            reveal_strlit("==");
            assert(next_token(s, 0) == (t, s.len() as int));
        },
        SpecToken::NotEq => {
            reveal_strlit("!=");
            assert(next_token(s, 0) == (t, s.len() as int));
        },
        SpecToken::And => {
            reveal_strlit("&&");
            assert(next_token(s, 0) == (t, s.len() as int));
        },
        SpecToken::Or => {
            reveal_strlit("||");
            assert(next_token(s, 0) == (t, s.len() as int));
        },
        SpecToken::Colon => {
            reveal_strlit(":");
            assert(next_token(s, 0) == (t, s.len() as int));
        },
        SpecToken::Dot => {
            reveal_strlit(".");
            assert(next_token(s, 0) == (t, s.len() as int));
        },
        SpecToken::Minus => {
            reveal_strlit("-");
            assert(next_token(s, 0) == (t, s.len() as int));
        },
        SpecToken::LBracket => {
            reveal_strlit("[");
            assert(next_token(s, 0) == (t, s.len() as int));
        },
        SpecToken::RBracket => {
            reveal_strlit("]");
            assert(next_token(s, 0) == (t, s.len() as int));
        },
        SpecToken::Comma => {
            reveal_strlit(",");
            assert(next_token(s, 0) == (t, s.len() as int));
        },
        SpecToken::Number(d) => {
            lemma_all_ident(d, 0);
            assert(is_digit(d[0]));
            assert(d.subrange(0, d.len() as int) == d);
            assert(next_token(s, 0) == (t, s.len() as int));
        },
        SpecToken::LiteralString(v) => {
            lemma_quote_at_end(v, 1);
            assert(v.subrange(0, v.len() as int) == v);
            assert(next_token(s, 0) == (t, s.len() as int));
        },
        SpecToken::Identifier(v) => {
            lemma_all_ident(v, 0);
            assert(is_ident_char(v[0]));
            assert(v.subrange(0, v.len() as int) == v);
            assert(next_token(s, 0) == (t, s.len() as int));
        },
        _ => {},
    }
    assert(s.len() > 0);
    lemma_next_token_advances(s, 0);
    assert(next_token(s, 0) == (t, s.len() as int));
    assert(lex_from(s, s.len() as int) == Seq::<SpecSpanned>::empty());
    assert(lex_spec(s) == seq![SpecSpanned { token: t, start: 0, end: s.len() as int }]);
}

/// The characters of a run are all of the run's kind, and no quote comes
/// before the first one found.
proof fn lemma_run_contents(s: Seq<char>, i: int)
    requires
        0 <= i <= s.len(),
    ensures
        forall|k: int| i <= k < ident_end(s, i) ==> #[trigger] is_ident_char(s[k]),
        quote_close(s, i) matches Some(j) ==> forall|k: int| i <= k < j ==> #[trigger] s[k] != '\'',
    decreases s.len() - i,
{
    if i < s.len() {
        lemma_run_contents(s, i + 1);
    }
}

/// The token read at `i` is readable back from its own text, unless it is
/// a comment or an error.
proof fn lemma_next_token_readable(s: Seq<char>, i: int)
    requires
        0 <= i < s.len(),
        !is_space(s[i]),
    ensures
        next_token(s, i).0 != SpecToken::Comment && next_token(s, i).0 != SpecToken::Error
            ==> readable_token(next_token(s, i).0),
{
    lemma_runs(s, i);
    lemma_runs(s, i + 1);
    lemma_run_contents(s, i);
    lemma_run_contents(s, i + 1);
    let c = s[i];
    if is_digit(c) {
        lemma_digit_run(s, i);
    } else if c == '\'' {
        if let Some(j) = quote_close(s, i + 1) {
            let v = s.subrange(i, j + 1);
            assert forall|k: int| 0 < k < v.len() - 1 implies #[trigger] v[k] != '\'' by {
                assert(v[k] == s[i + k]);
            }
        }
    } else if is_ident_start(c) {
        let w = s.subrange(i, ident_end(s, i));
        assert forall|k: int| 0 <= k < w.len() implies #[trigger] is_ident_char(w[k]) by {
            assert(w[k] == s[i + k]);
        }
    }
}

/// Every token the lexer reads from a text, but comments and errors, is
/// readable back from its own text (see [`law_token_text_reads_back`]).
pub proof fn law_lexed_tokens_are_readable(s: Seq<char>, i: int)
    ensures
        forall|k: int| 0 <= k < lex_from(s, i).len() && lex_from(s, i)[k].token != SpecToken::Comment
            && lex_from(s, i)[k].token != SpecToken::Error ==> #[trigger] readable_token(lex_from(s, i)[k].token),
    decreases s.len() - i,
{
    if 0 <= i < s.len() {
        if is_space(s[i]) {
            lemma_runs(s, i + 1);
            law_lexed_tokens_are_readable(s, space_end(s, i + 1));
        } else {
            lemma_next_token_advances(s, i);
            lemma_next_token_readable(s, i);
            let e = next_token(s, i).1;
            law_lexed_tokens_are_readable(s, e);
            let first = seq![SpecSpanned { token: next_token(s, i).0, start: i, end: e }];
            assert forall|k: int| 0 < k < lex_from(s, i).len() implies #[trigger] lex_from(s, i)[k] == lex_from(s, e)[k - 1] by {
                assert(lex_from(s, i) == first + lex_from(s, e));
            }
        }
    }
}

fn scan_digits(s: &Vec<char>, i: usize) -> (e: usize)
    requires
        i <= s@.len(),
    ensures
        e == digits_end(s@, i as int),
{
    let mut j = i;
    while j < s.len() && '0' <= s[j] && s[j] <= '9'
        invariant
            i <= j <= s@.len(),
            digits_end(s@, j as int) == digits_end(s@, i as int),
        decreases s@.len() - j,
    {
        j += 1;
    }
    j
}

pub(crate) fn is_ident_start_exec(c: char) -> (b: bool)
    ensures
        b == is_ident_start(c),
{
    ('a' <= c && c <= 'z') || ('A' <= c && c <= 'Z') || c == '_'
}

pub(crate) fn is_ident_char_exec(c: char) -> (b: bool)
    ensures
        b == is_ident_char(c),
{
    is_ident_start_exec(c) || ('0' <= c && c <= '9')
}

pub(crate) fn is_space_exec(c: char) -> (b: bool)
    ensures
        b == is_space(c),
{
    c == ' ' || c == '\t' || c == '\n' || c == '\x0c'
}

pub(crate) fn scan_ident(s: &Vec<char>, i: usize) -> (e: usize)
    requires
        i <= s@.len(),
    ensures
        e == ident_end(s@, i as int),
{
    let mut j = i;
    while j < s.len() && is_ident_char_exec(s[j])
        invariant
            i <= j <= s@.len(),
            ident_end(s@, j as int) == ident_end(s@, i as int),
        decreases s@.len() - j,
    {
        j += 1;
    }
    j
}

pub(crate) fn scan_space(s: &Vec<char>, i: usize) -> (e: usize)
    requires
        i <= s@.len(),
    ensures
        e == space_end(s@, i as int),
{
    let mut j = i;
    while j < s.len() && is_space_exec(s[j])
        invariant
            i <= j <= s@.len(),
            space_end(s@, j as int) == space_end(s@, i as int),
        decreases s@.len() - j,
    {
        j += 1;
    }
    j
}

fn scan_line(s: &Vec<char>, i: usize) -> (e: usize)
    requires
        i <= s@.len(),
    ensures
        e == line_end(s@, i as int),
{
    let mut j = i;
    while j < s.len() && s[j] != '\n'
        invariant
            i <= j <= s@.len(),
            line_end(s@, j as int) == line_end(s@, i as int),
        decreases s@.len() - j,
    {
        j += 1;
    }
    j
}

fn scan_quote(s: &Vec<char>, i: usize) -> (e: Option<usize>)
    requires
        i <= s@.len(),
    ensures
        e matches Some(j) ==> quote_close(s@, i as int) == Some(j as int),
        e is None ==> quote_close(s@, i as int) is None,
{
    let mut j = i;
    while j < s.len()
        invariant
            i <= j <= s@.len(),
            quote_close(s@, j as int) == quote_close(s@, i as int),
        decreases s@.len() - j,
    {
        if s[j] == '\'' {
            return Some(j);
        }
        j += 1;
    }
    None
}

fn word_token_exec(w: String) -> (t: Token)
    ensures
        t@ == word_token(w@),
{
    if w == owned("window") {
        Token::Window
    } else if w == owned("variable") {
        Token::Variable
    } else if w == owned("declare") {
        Token::Declare
    } else if w == owned("stylesheet") {
        Token::Stylesheet
    } else if w == owned("then") {
        Token::Then
    } else if w == owned("repeat") {
        Token::Repeat
    } else {
        Token::Identifier(w)
    }
}

fn next_token_exec(s: &Vec<char>, i: usize) -> (res: (Token, usize))
    requires
        i < s@.len(),
    ensures
        res.0@ == next_token(s@, i as int).0,
        res.1 == next_token(s@, i as int).1,
{
    proof {
        lemma_next_token_advances(s@, i as int);
        lemma_runs(s@, i as int);
    }
    let c = s[i];
    let next_is_amp = i < s.len() - 1 && s[i + 1] == '&';
    let next_is_bar = i < s.len() - 1 && s[i + 1] == '|';
    let next_is_eq = i < s.len() - 1 && s[i + 1] == '=';
    let next_is_semi = i < s.len() - 1 && s[i + 1] == ';';
    if c == '(' {
        (Token::LParenthesis, i + 1)
    } else if c == ')' {
        (Token::RParenthesis, i + 1)
    } else if c == ':' {
        (Token::Colon, i + 1)
    } else if c == '.' {
        (Token::Dot, i + 1)
    } else if c == '$' {
        (Token::Dollar, i + 1)
    } else if c == '[' {
        (Token::LBracket, i + 1)
    } else if c == ']' {
        (Token::RBracket, i + 1)
    } else if c == ',' {
        (Token::Comma, i + 1)
    } else if c == '-' {
        (Token::Minus, i + 1)
    } else if c == '+' {
        (Token::Plus, i + 1)
    } else if c == '*' {
        (Token::Mul, i + 1)
    } else if c == '/' {
        (Token::Div, i + 1)
    } else if c == '>' {
        (Token::Gt, i + 1)
    } else if c == '<' {
        (Token::Lt, i + 1)
    } else if c == '&' {
        if next_is_amp {
            (Token::And, i + 2)
        } else {
            (Token::Ampersand, i + 1)
        }
    } else if c == '|' {
        if next_is_bar {
            (Token::Or, i + 2)
        } else {
            (Token::Error, i + 1)
        }
    } else if c == '=' {
        if next_is_eq {
            (Token::Eq, i + 2)
        } else {
            (Token::Error, i + 1)
        }
    } else if c == '!' {
        if next_is_eq {
            (Token::NotEq, i + 2)
        } else {
            (Token::Error, i + 1)
        }
    } else if c == ';' {
        if next_is_semi {
            let e = scan_line(s, i + 2);
            (Token::Comment, e)
        } else {
            (Token::Error, i + 1)
        }
    } else if '0' <= c && c <= '9' {
        let e = scan_digits(s, i);
        proof {
            lemma_digit_run(s@, i as int);
        }
        match Numeral::new(string_from(s, i, e)) {
            Some(n) => (Token::Number(n), e),
            None => (Token::Error, i + 1),
        }
    } else if c == '\'' {
        match scan_quote(s, i + 1) {
            Some(j) => {
                proof {
                    lemma_runs(s@, i + 1);
                }
                (Token::LiteralString(string_from(s, i, j + 1)), j + 1)
            },
            None => (Token::Error, i + 1),
        }
    } else if is_ident_start_exec(c) {
        let e = scan_ident(s, i);
        (word_token_exec(string_from(s, i, e)), e)
    } else {
        (Token::Error, i + 1)
    }
}

/// Reads the tokens of `code`, with the character offsets each was read from.
pub fn lex(code: &str) -> (res: Vec<Spanned>)
    ensures
        spanned_view(res@) == lex_spec(code@),
{
    let s = chars_of(code);
    let mut out: Vec<Spanned> = Vec::new();
    let mut i: usize = 0;
    while i < s.len()
        invariant
            0 <= i <= s@.len(),
            s@ == code@,
            lex_spec(code@) == spanned_view(out@) + lex_from(s@, i as int),
        decreases s@.len() - i,
    {
        if is_space_exec(s[i]) {
            proof {
                lemma_runs(s@, i + 1);
            }
            i = scan_space(&s, i + 1);
        } else {
            let (t, e) = next_token_exec(&s, i);
            proof {
                lemma_next_token_advances(s@, i as int);
            }
            let ghost old_out = out@;
            out.push(Spanned { token: t, start: i, end: e });
            assert(spanned_view(out@) == spanned_view(old_out) + seq![SpecSpanned { token: t@, start: i as int, end: e as int }]);
            i = e;
        }
    }
    assert(lex_from(s@, i as int) == Seq::<SpecSpanned>::empty());
    assert(spanned_view(out@) + Seq::<SpecSpanned>::empty() == spanned_view(out@));
    out
}

} // verus!
