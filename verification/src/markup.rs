use vstd::prelude::*;

use crate::text::{chars_of, owned, string_from};
use crate::tokens::{
    ident_end, is_ident_start, is_ident_start_exec, is_space,
    is_space_exec, lemma_runs, scan_ident, scan_space, space_end,
};

verus! {

/// A token of the tag markup: `<% @name %>` blocks, tags such as
/// `<ui.label :text="Hello" />` and their attributes.
#[derive(Debug, PartialEq, Clone)]
pub enum Token {
    BlockBindingOpen,
    BlockBindingClose,
    BlockBindingValue(String),
    TagStart,
    Slash,
    TagEnd,
    Dot,
    Colon,
    Hifen,
    Equals,
    LiteralString(String),
    Binding(String),
    Identifier(String),
    Whitespace,
    Error,
}

/// The mathematical form of a markup [`Token`].
pub enum TokenView {
    BlockBindingOpen,
    BlockBindingClose,
    BlockBindingValue(Seq<char>),
    TagStart,
    Slash,
    TagEnd,
    Dot,
    Colon,
    Hifen,
    Equals,
    LiteralString(Seq<char>),
    Binding(Seq<char>),
    Identifier(Seq<char>),
    Whitespace,
    Error,
}

impl View for Token {
    type V = TokenView;

    open spec fn view(&self) -> TokenView {
        match self {
            Token::BlockBindingOpen => TokenView::BlockBindingOpen,
            Token::BlockBindingClose => TokenView::BlockBindingClose,
            Token::BlockBindingValue(v) => TokenView::BlockBindingValue(v@),
            Token::TagStart => TokenView::TagStart,
            Token::Slash => TokenView::Slash,
            Token::TagEnd => TokenView::TagEnd,
            Token::Dot => TokenView::Dot,
            Token::Colon => TokenView::Colon,
            Token::Hifen => TokenView::Hifen,
            Token::Equals => TokenView::Equals,
            Token::LiteralString(v) => TokenView::LiteralString(v@),
            Token::Binding(v) => TokenView::Binding(v@),
            Token::Identifier(v) => TokenView::Identifier(v@),
            Token::Whitespace => TokenView::Whitespace,
            Token::Error => TokenView::Error,
        }
    }
}

/// How a markup token is shown: as written, or a placeholder. A colon is
/// shown as `;`.
pub open spec fn markup_token_text(t: TokenView) -> Seq<char> {
    match t {
        TokenView::BlockBindingOpen => "<%"@,
        TokenView::BlockBindingClose => "%>"@,
        TokenView::BlockBindingValue(v) => v,
        TokenView::Slash => "/"@,
        TokenView::Colon => ";"@,
        TokenView::TagEnd => ">"@,
        TokenView::TagStart => "<"@,
        TokenView::Equals => "="@,
        TokenView::Dot => "."@,
        TokenView::Hifen => "-"@,
        TokenView::LiteralString(v) => v,
        TokenView::Binding(v) => v,
        TokenView::Identifier(v) => v,
        TokenView::Whitespace => "<whitespace>"@,
        TokenView::Error => "<error>"@,
    }
}

impl Token {
    /// The token as shown in messages; see [`markup_token_text`].
    pub fn text(&self) -> (res: String)
        ensures
            res@ == markup_token_text(self@),
    {
        match self {
            Token::BlockBindingOpen => owned("<%"),
            Token::BlockBindingClose => owned("%>"),
            Token::BlockBindingValue(v) => v.clone(),
            Token::Slash => owned("/"),
            Token::Colon => owned(";"),
            Token::TagEnd => owned(">"),
            Token::TagStart => owned("<"),
            Token::Equals => owned("="),
            Token::Dot => owned("."),
            Token::Hifen => owned("-"),
            Token::LiteralString(v) => v.clone(),
            Token::Binding(v) => v.clone(),
            Token::Identifier(v) => v.clone(),
            Token::Whitespace => owned("<whitespace>"),
            Token::Error => owned("<error>"),
        }
    }
}

/// Whether `c` is a Unicode word character, as `regex_syntax::is_word_character`
/// tells: in the `Alphabetic` or `Join_Control` property, or in the
/// `Decimal_Number`, `Mark` or `Connector_Punctuation` category. These are the
/// characters of the class `\w`.
pub uninterp spec fn unicode_word(c: char) -> bool;

/// Calls `regex_syntax::is_word_character`, which is true exactly of the
/// Unicode word characters; the crate is built with its Unicode tables, so it
/// does not panic. Which characters those are is left to the name
/// [`unicode_word`].
#[verifier::external_body]
fn is_word_character(c: char) -> (res: bool)
    ensures
        res == unicode_word(c),
{
    regex_syntax::is_word_character(c)
}

/// A character of a block binding's name: a Unicode word character or `-`.
pub open spec fn is_name_char(c: char) -> bool {
    unicode_word(c) || c == '-'
}

/// End of the run of name characters that starts at `i`.
pub open spec fn name_end(s: Seq<char>, i: int) -> int
    decreases s.len() - i,
{
    if 0 <= i < s.len() && is_name_char(s[i]) {
        name_end(s, i + 1)
    } else {
        i
    }
}

/// Position of the first `"` at or after `i`, if there is one.
pub open spec fn dquote_close(s: Seq<char>, i: int) -> Option<int>
    decreases s.len() - i,
{
    if 0 <= i < s.len() {
        if s[i] == '"' {
            Some(i)
        } else {
            dquote_close(s, i + 1)
        }
    } else {
        None
    }
}

/// Where `{@name}` that starts at `i` ends, if it is there.
pub open spec fn brace_end(s: Seq<char>, i: int) -> Option<int> {
    let e = ident_end(s, i + 2);
    if i + 1 < s.len() && s[i + 1] == '@' && e > i + 2 && e < s.len() && s[e] == '}' {
        Some(e + 1)
    } else {
        None
    }
}

/// The longest markup token that starts at `i` (a character that is not
/// whitespace), and where it ends. A character that starts no token is read
/// as an `Error` token of one character.
pub open spec fn next_markup_token(s: Seq<char>, i: int) -> (TokenView, int) {
    let c = s[i];
    let next_is = |d: char| i < s.len() - 1 && s[i + 1] == d;
    if c == '<' {
        if next_is('%') {
            (TokenView::BlockBindingOpen, i + 2)
        } else {
            (TokenView::TagStart, i + 1)
        }
    } else if c == '%' {
        if next_is('>') {
            (TokenView::BlockBindingClose, i + 2)
        } else {
            (TokenView::Error, i + 1)
        }
    } else if c == '@' {
        if name_end(s, i + 1) > i + 1 {
            (TokenView::BlockBindingValue(s.subrange(i, name_end(s, i + 1))), name_end(s, i + 1))
        } else {
            (TokenView::Error, i + 1)
        }
    } else if c == '/' {
        (TokenView::Slash, i + 1)
    } else if c == '>' {
        (TokenView::TagEnd, i + 1)
    } else if c == '.' {
        (TokenView::Dot, i + 1)
    } else if c == ':' {
        (TokenView::Colon, i + 1)
    } else if c == '-' {
        (TokenView::Hifen, i + 1)
    } else if c == '=' {
        (TokenView::Equals, i + 1)
    } else if c == '"' {
        match dquote_close(s, i + 1) {
            Some(j) => (TokenView::LiteralString(s.subrange(i, j + 1)), j + 1),
            None => (TokenView::Error, i + 1),
        }
    } else if c == '{' {
        match brace_end(s, i) {
            Some(e) => (TokenView::Binding(s.subrange(i, e)), e),
            None => (TokenView::Error, i + 1),
        }
    } else if is_ident_start(c) {
        (TokenView::Identifier(s.subrange(i, ident_end(s, i))), ident_end(s, i))
    } else {
        (TokenView::Error, i + 1)
    }
}

pub proof fn lemma_markup_runs(s: Seq<char>, i: int)
    requires
        0 <= i <= s.len(),
    ensures
        i <= name_end(s, i) <= s.len(),
        dquote_close(s, i) matches Some(j) ==> i <= j < s.len() && s[j] == '"',
    decreases s.len() - i,
{
    if i < s.len() {
        lemma_markup_runs(s, i + 1);
    }
}

pub proof fn lemma_next_markup_token_advances(s: Seq<char>, i: int)
    requires
        0 <= i < s.len(),
    ensures
        i < next_markup_token(s, i).1 <= s.len(),
{
    lemma_runs(s, i);
    lemma_runs(s, i + 1);
    lemma_markup_runs(s, i + 1);
    if i + 2 <= s.len() {
        lemma_runs(s, i + 2);
    }
}

/// The markup tokens read from `s` starting at `i`; whitespace separates
/// tokens and is dropped.
pub open spec fn markup_lex_from(s: Seq<char>, i: int) -> Seq<TokenView>
    decreases s.len() - i,
{
    if i < 0 || i >= s.len() {
        Seq::empty()
    } else if is_space(s[i]) {
        proof {
            lemma_runs(s, i + 1);
        }
        markup_lex_from(s, space_end(s, i + 1))
    } else {
        let (t, e) = next_markup_token(s, i);
        proof {
            lemma_next_markup_token_advances(s, i);
        }
        seq![t] + markup_lex_from(s, e)
    }
}

/// The markup tokens of a whole text.
pub open spec fn markup_tokens(s: Seq<char>) -> Seq<TokenView> {
    markup_lex_from(s, 0)
}

/// The views of a sequence of markup tokens.
pub open spec fn markup_views(v: Seq<Token>) -> Seq<TokenView> {
    Seq::new(v.len(), |i: int| v[i]@)
}

fn scan_name(s: &Vec<char>, i: usize) -> (e: usize)
    requires
        i <= s@.len(),
    ensures
        e == name_end(s@, i as int),
{
    let mut j = i;
    while j < s.len() && (is_word_character(s[j]) || s[j] == '-')
        invariant
            i <= j <= s@.len(),
            name_end(s@, j as int) == name_end(s@, i as int),
        decreases s@.len() - j,
    {
        j += 1;
    }
    j
}

fn scan_dquote(s: &Vec<char>, i: usize) -> (e: Option<usize>)
    requires
        i <= s@.len(),
    ensures
        e matches Some(j) ==> dquote_close(s@, i as int) == Some(j as int),
        e is None ==> dquote_close(s@, i as int) is None,
{
    let mut j = i;
    while j < s.len()
        invariant
            i <= j <= s@.len(),
            dquote_close(s@, j as int) == dquote_close(s@, i as int),
        decreases s@.len() - j,
    {
        if s[j] == '"' {
            return Some(j);
        }
        j += 1;
    }
    None
}

fn next_markup_token_exec(s: &Vec<char>, i: usize) -> (res: (Token, usize))
    requires
        i < s@.len(),
    ensures
        res.0@ == next_markup_token(s@, i as int).0,
        res.1 == next_markup_token(s@, i as int).1,
{
    proof {
        lemma_next_markup_token_advances(s@, i as int);
        lemma_runs(s@, i as int);
        lemma_markup_runs(s@, i as int + 1);
    }
    let c = s[i];
    let next = if i < s.len() - 1 { Some(s[i + 1]) } else { None };
    if c == '<' {
        if next == Some('%') {
            (Token::BlockBindingOpen, i + 2)
        } else {
            (Token::TagStart, i + 1)
        }
    } else if c == '%' {
        if next == Some('>') {
            (Token::BlockBindingClose, i + 2)
        } else {
            (Token::Error, i + 1)
        }
    } else if c == '@' {
        let e = scan_name(s, i + 1);
        if e > i + 1 {
            (Token::BlockBindingValue(string_from(s, i, e)), e)
        } else {
            (Token::Error, i + 1)
        }
    } else if c == '/' {
        (Token::Slash, i + 1)
    } else if c == '>' {
        (Token::TagEnd, i + 1)
    } else if c == '.' {
        (Token::Dot, i + 1)
    } else if c == ':' {
        (Token::Colon, i + 1)
    } else if c == '-' {
        (Token::Hifen, i + 1)
    } else if c == '=' {
        (Token::Equals, i + 1)
    } else if c == '"' {
        match scan_dquote(s, i + 1) {
            Some(j) => (Token::LiteralString(string_from(s, i, j + 1)), j + 1),
            None => (Token::Error, i + 1),
        }
    } else if c == '{' {
        if next == Some('@') {
            proof {
                lemma_runs(s@, i as int + 2);
            }
            let e = scan_ident(s, i + 2);
            if e > i + 2 && e < s.len() && s[e] == '}' {
                (Token::Binding(string_from(s, i, e + 1)), e + 1)
            } else {
                (Token::Error, i + 1)
            }
        } else {
            (Token::Error, i + 1)
        }
    } else if is_ident_start_exec(c) {
        let e = scan_ident(s, i);
        (Token::Identifier(string_from(s, i, e)), e)
    } else {
        (Token::Error, i + 1)
    }
}

/// Reads the markup tokens of `code`; see [`markup_tokens`].
pub fn lex_markup(code: &str) -> (res: Vec<Token>)
    ensures
        markup_views(res@) == markup_tokens(code@),
{
    let s = chars_of(code);
    let mut out: Vec<Token> = Vec::new();
    let mut i: usize = 0;
    while i < s.len()
        invariant
            0 <= i <= s@.len(),
            s@ == code@,
            markup_tokens(code@) == markup_views(out@) + markup_lex_from(s@, i as int),
        decreases s@.len() - i,
    {
        if is_space_exec(s[i]) {
            proof {
                lemma_runs(s@, i + 1);
            }
            i = scan_space(&s, i + 1);
        } else {
            let (t, e) = next_markup_token_exec(&s, i);
            proof {
                lemma_next_markup_token_advances(s@, i as int);
            }
            let ghost old_out = out@;
            out.push(t);
            assert(markup_views(out@) == markup_views(old_out) + seq![t@]);
            i = e;
        }
    }
    assert(markup_lex_from(s@, i as int) == Seq::<TokenView>::empty());
    assert(markup_views(out@) + Seq::<TokenView>::empty() == markup_views(out@));
    out
}


// ----------------------------------------------------------------------------
// The tree of a markup document.
// ----------------------------------------------------------------------------

/// An attribute value: a quoted literal, or a `{@name}` binding.
#[derive(Debug, Clone)]
pub enum Value {
    Literal(String),
    Binding(String),
}

/// An attribute of an element.
#[derive(Debug, Clone)]
pub enum Attr {
    Property { name: String, value: Value },
    Event { kind: String, handler: String },
}

/// A markup node: an element with attributes and children, text, or a
/// `<% @name %>` binding.
#[derive(Debug)]
pub enum SExpr {
    Element { name: String, attributes: Vec<Attr>, children: Vec<SExpr>, self_closing: bool },
    Text(String),
    Binding(String),
}

pub enum ValueView {
    Literal(Seq<char>),
    Binding(Seq<char>),
}

pub enum AttrView {
    Property { name: Seq<char>, value: ValueView },
    Event { kind: Seq<char>, handler: Seq<char> },
}

pub enum SExprView {
    Element { name: Seq<char>, attributes: Seq<AttrView>, children: Seq<SExprView>, self_closing: bool },
    Text(Seq<char>),
    Binding(Seq<char>),
}

impl View for Value {
    type V = ValueView;

    open spec fn view(&self) -> ValueView {
        match self {
            Value::Literal(v) => ValueView::Literal(v@),
            Value::Binding(v) => ValueView::Binding(v@),
        }
    }
}

impl View for Attr {
    type V = AttrView;

    open spec fn view(&self) -> AttrView {
        match self {
            Attr::Property { name, value } => AttrView::Property { name: name@, value: value@ },
            Attr::Event { kind, handler } => AttrView::Event { kind: kind@, handler: handler@ },
        }
    }
}

pub open spec fn attrs_view(v: Seq<Attr>) -> Seq<AttrView> {
    Seq::new(v.len(), |i: int| v[i]@)
}

pub open spec fn sexpr_view(e: SExpr) -> SExprView
    decreases e,
{
    match e {
        SExpr::Element { name, attributes, children, self_closing } => SExprView::Element {
            name: name@,
            attributes: attrs_view(attributes@),
            children: sexprs_view(children@),
            self_closing,
        },
        SExpr::Text(t) => SExprView::Text(t@),
        SExpr::Binding(b) => SExprView::Binding(b@),
    }
}

pub open spec fn sexprs_view(s: Seq<SExpr>) -> Seq<SExprView>
    decreases s,
{
    if s.len() == 0 {
        Seq::empty()
    } else {
        sexprs_view(s.drop_last()).push(sexpr_view(s.last()))
    }
}

impl View for SExpr {
    type V = SExprView;

    open spec fn view(&self) -> SExprView {
        sexpr_view(*self)
    }
}

// ----------------------------------------------------------------------------
// The grammar, over the tokens.
// ----------------------------------------------------------------------------

/// Whether token `p` of `t` is the plain token `k`.
pub open spec fn mark_is(t: Seq<TokenView>, p: int, k: TokenView) -> bool {
    0 <= p < t.len() && t[p] == k
}

/// `s` without the characters equal to `c`.
pub open spec fn without(s: Seq<char>, c: char) -> Seq<char>
    decreases s.len(),
{
    if s.len() == 0 {
        s
    } else if s.last() == c {
        without(s.drop_last(), c)
    } else {
        without(s.drop_last(), c).push(s.last())
    }
}

/// A tag name `prefix.name`, which names the tag by its second part.
pub open spec fn tag_name_at(t: Seq<TokenView>, p: int) -> Option<(Seq<char>, int)> {
    if 0 <= p && p + 2 < t.len() && t[p] is Identifier && t[p + 1] == TokenView::Dot
        && t[p + 2] is Identifier {
        Some((t[p + 2]->Identifier_0, p + 3))
    } else {
        None
    }
}

/// An attribute `:name=value`: a literal loses its quotes, a binding is kept
/// as written.
pub open spec fn attr_at(t: Seq<TokenView>, p: int) -> Option<(AttrView, int)> {
    if 0 <= p && p + 3 < t.len() && t[p] == TokenView::Colon && t[p + 1] is Identifier
        && t[p + 2] == TokenView::Equals {
        let name = t[p + 1]->Identifier_0;
        match t[p + 3] {
            TokenView::LiteralString(v) => Some((AttrView::Property { name, value: ValueView::Literal(without(v, '"')) }, p + 4)),
            TokenView::Binding(v) => Some((AttrView::Property { name, value: ValueView::Binding(v) }, p + 4)),
            _ => None,
        }
    } else {
        None
    }
}

/// As many attributes as follow position `p`, appended to `acc`.
pub open spec fn attrs_from(t: Seq<TokenView>, p: int, acc: Seq<AttrView>) -> (Seq<AttrView>, int)
    decreases t.len() - p,
{
    match attr_at(t, p) {
        Some((a, q)) => if p < q <= t.len() {
            attrs_from(t, q, acc.push(a))
        } else {
            (acc, p)
        },
        None => (acc, p),
    }
}

/// An opening `<prefix.name attributes`, up to what closes it.
pub open spec fn open_tag(t: Seq<TokenView>, p: int) -> Option<(Seq<char>, Seq<AttrView>, int)> {
    if mark_is(t, p, TokenView::TagStart) {
        match tag_name_at(t, p + 1) {
            Some((name, q)) => {
                let (attrs, r) = attrs_from(t, q, Seq::empty());
                Some((name, attrs, r))
            },
            None => None,
        }
    } else {
        None
    }
}

/// A node at `p`: a self-closing element `<a.b ... />`, an element
/// `<a.b ...> children </c.d>` (the closing name is not compared), or a block
/// `<% @name %>` that binds `name`.
pub open spec fn element_at(t: Seq<TokenView>, p: int) -> Option<(SExprView, int)>
    decreases t.len() - p, 0int,
{
    match open_tag(t, p) {
        Some((name, attrs, r)) => {
            proof {
                lemma_open_tag_bounds(t, p);
            }
            if mark_is(t, r, TokenView::Slash) && mark_is(t, r + 1, TokenView::TagEnd) {
                Some((SExprView::Element { name, attributes: attrs, children: Seq::empty(), self_closing: true }, r + 2))
            } else if mark_is(t, r, TokenView::TagEnd) {
                let (kids, q) = children_from(t, r + 1, Seq::empty());
                if mark_is(t, q, TokenView::TagStart) && mark_is(t, q + 1, TokenView::Slash) {
                    match tag_name_at(t, q + 2) {
                        Some((_, q2)) => if mark_is(t, q2, TokenView::TagEnd) {
                            Some((SExprView::Element { name, attributes: attrs, children: kids, self_closing: false }, q2 + 1))
                        } else {
                            None
                        },
                        None => None,
                    }
                } else {
                    None
                }
            } else {
                None
            }
        },
        None => if mark_is(t, p, TokenView::BlockBindingOpen) && p + 2 < t.len()
            && t[p + 1] is BlockBindingValue && t[p + 2] == TokenView::BlockBindingClose {
            Some((SExprView::Binding(without(t[p + 1]->BlockBindingValue_0, '@')), p + 3))
        } else {
            None
        },
    }
}

/// As many nodes as follow position `p`, appended to `acc`.
pub open spec fn children_from(t: Seq<TokenView>, p: int, acc: Seq<SExprView>) -> (Seq<SExprView>, int)
    decreases t.len() - p, 1int,
{
    if p < 0 || p >= t.len() {
        (acc, p)
    } else {
        match element_at(t, p) {
            Some((e, q)) => if p < q <= t.len() {
                children_from(t, q, acc.push(e))
            } else {
                (acc, p)
            },
            None => (acc, p),
        }
    }
}

/// The node a whole document is: one node that takes up all the tokens.
pub open spec fn markup_document(t: Seq<TokenView>) -> Option<SExprView> {
    match element_at(t, 0) {
        Some((e, q)) => if q == t.len() {
            Some(e)
        } else {
            None
        },
        None => None,
    }
}

/// The node `code` is written as, if it is one.
pub open spec fn markup_spec(code: Seq<char>) -> Option<SExprView> {
    markup_document(markup_tokens(code))
}

pub proof fn lemma_attrs_bounds(t: Seq<TokenView>, p: int, acc: Seq<AttrView>)
    requires
        0 <= p <= t.len(),
    ensures
        p <= attrs_from(t, p, acc).1 <= t.len(),
    decreases t.len() - p,
{
    if let Some((a, q)) = attr_at(t, p) {
        if p < q <= t.len() {
            lemma_attrs_bounds(t, q, acc.push(a));
        }
    }
}

pub proof fn lemma_open_tag_bounds(t: Seq<TokenView>, p: int)
    ensures
        open_tag(t, p) matches Some((_, _, r)) ==> p < r <= t.len(),
{
    if let Some((_, q)) = tag_name_at(t, p + 1) {
        if mark_is(t, p, TokenView::TagStart) {
            lemma_attrs_bounds(t, q, Seq::empty());
        }
    }
}

pub proof fn lemma_children_bounds(t: Seq<TokenView>, p: int, acc: Seq<SExprView>)
    requires
        0 <= p <= t.len(),
    ensures
        p <= children_from(t, p, acc).1 <= t.len(),
    decreases t.len() - p,
{
    if p < t.len() {
        if let Some((e, q)) = element_at(t, p) {
            if p < q <= t.len() {
                lemma_children_bounds(t, q, acc.push(e));
            }
        }
    }
}

pub proof fn lemma_element_bounds(t: Seq<TokenView>, p: int)
    requires
        0 <= p <= t.len(),
    ensures
        element_at(t, p) matches Some((_, q)) ==> p < q <= t.len(),
{
    lemma_open_tag_bounds(t, p);
    if let Some((_, _, r)) = open_tag(t, p) {
        if mark_is(t, r, TokenView::TagEnd) {
            lemma_children_bounds(t, r + 1, Seq::empty());
        }
    }
}

/// An element keeps what its opening tag says: its name is the tag's name,
/// its attributes are the tag's attributes, and it closes itself exactly
/// when `/>` ends the tag, in which case it has no children.
pub proof fn law_element_keeps_its_tag(t: Seq<TokenView>, p: int)
    ensures
        element_at(t, p) matches Some((SExprView::Element { name, attributes, children, self_closing }, q))
            ==> (open_tag(t, p) matches Some((n, a, r)) && name == n && attributes == a
            && (self_closing <==> mark_is(t, r, TokenView::Slash))
            && (self_closing ==> children.len() == 0 && q == r + 2)),
{
}

/// Reading attributes keeps every one of them, in order: what was read
/// before stays in front, and an attribute at `p` comes right after it.
pub proof fn law_attributes_kept_in_order(t: Seq<TokenView>, p: int, acc: Seq<AttrView>)
    requires
        0 <= p <= t.len(),
    ensures
        attrs_from(t, p, acc).0.len() >= acc.len(),
        attrs_from(t, p, acc).0.take(acc.len() as int) == acc,
        attr_at(t, p) matches Some((x, _)) ==> attrs_from(t, p, acc).0.len() > acc.len()
            && attrs_from(t, p, acc).0[acc.len() as int] == x,
    decreases t.len() - p,
{
    if let Some((x, q)) = attr_at(t, p) {
        if p < q <= t.len() {
            law_attributes_kept_in_order(t, q, acc.push(x));
            assert(attrs_from(t, q, acc.push(x)).0.take(acc.len() as int) == acc.push(x).take(acc.len() as int));
            assert(acc.push(x).take(acc.len() as int) == acc);
            assert(attrs_from(t, q, acc.push(x)).0.take(acc.len() + 1int)[acc.len() as int] == x);
        }
    } else {
        assert(acc.take(acc.len() as int) == acc);
    }
}

/// `s` holds no `c`, and keeps every other character of its source in order:
/// removing `c` from a text without it gives the text back, and removing it
/// from `c + s + c` gives `s`.
pub proof fn law_without_drops_only_that_character(s: Seq<char>, c: char)
    ensures
        forall|k: int| 0 <= k < without(s, c).len() ==> #[trigger] without(s, c)[k] != c,
        (forall|k: int| 0 <= k < s.len() ==> #[trigger] s[k] != c) ==> without(s, c) == s,
        (forall|k: int| 0 <= k < s.len() ==> #[trigger] s[k] != c) ==> without(seq![c] + s + seq![c], c) == s,
    decreases s.len(),
{
    if s.len() > 0 {
        law_without_drops_only_that_character(s.drop_last(), c);
        let w0 = without(s.drop_last(), c);
        if s.last() != c {
            assert forall|k: int| 0 <= k < w0.push(s.last()).len() implies #[trigger] w0.push(s.last())[k] != c by {
                if k < w0.len() {
                    assert(w0.push(s.last())[k] == w0[k]);
                }
            }
        }
    }
    if forall|k: int| 0 <= k < s.len() ==> #[trigger] s[k] != c {
        lemma_without_keeps(seq![c], s, c);
        let w = seq![c] + s + seq![c];
        assert(w.drop_last() == seq![c] + s);
        assert(w.last() == c);
        assert(seq![c].drop_last() == Seq::<char>::empty());
        assert(seq![c].last() == c);
        assert(without(Seq::<char>::empty(), c) == Seq::<char>::empty());
        assert(without(seq![c], c) == without(seq![c].drop_last(), c));
        assert(without(seq![c], c) == Seq::<char>::empty());
        assert(Seq::<char>::empty() + s == s);
    }
}

proof fn lemma_without_keeps(a: Seq<char>, s: Seq<char>, c: char)
    requires
        forall|k: int| 0 <= k < s.len() ==> #[trigger] s[k] != c,
    ensures
        without(a + s, c) == without(a, c) + s,
    decreases s.len(),
{
    if s.len() == 0 {
        assert(a + s == a);
    } else {
        lemma_without_keeps(a, s.drop_last(), c);
        assert((a + s).drop_last() == a + s.drop_last());
        assert(without(a, c) + s.drop_last() + seq![s.last()] == without(a, c) + s);
    }
}

/// An attribute `:name="text"` is the property `name` with the literal
/// `text`, its quotes removed; `:name={@v}` is the property `name` bound to
/// `{@v}` as written.
pub proof fn law_attribute_values(t: Seq<TokenView>, p: int, name: Seq<char>, v: Seq<char>)
    requires
        0 <= p,
        p + 3 < t.len(),
        t[p] == TokenView::Colon,
        t[p + 1] == TokenView::Identifier(name),
        t[p + 2] == TokenView::Equals,
        forall|k: int| 0 <= k < v.len() ==> #[trigger] v[k] != '"',
    ensures
        t[p + 3] == TokenView::LiteralString(seq!['"'] + v + seq!['"']) ==> attr_at(t, p) == Some(
            (AttrView::Property { name, value: ValueView::Literal(v) }, p + 4),
        ),
        t[p + 3] == TokenView::Binding(v) ==> attr_at(t, p) == Some(
            (AttrView::Property { name, value: ValueView::Binding(v) }, p + 4),
        ),
{
    law_without_drops_only_that_character(v, '"');
}

/// Reading children keeps every one of them, in order: what was read before
/// stays in front, and a node at `p` comes right after it.
pub proof fn law_children_kept_in_order(t: Seq<TokenView>, p: int, acc: Seq<SExprView>)
    requires
        0 <= p <= t.len(),
    ensures
        children_from(t, p, acc).0.len() >= acc.len(),
        children_from(t, p, acc).0.take(acc.len() as int) == acc,
        p < t.len() && element_at(t, p) is Some ==> children_from(t, p, acc).0.len() > acc.len()
            && children_from(t, p, acc).0[acc.len() as int] == element_at(t, p).unwrap().0,
    decreases t.len() - p,
{
    if p < t.len() {
        lemma_element_bounds(t, p);
        if let Some((x, q)) = element_at(t, p) {
            law_children_kept_in_order(t, q, acc.push(x));
            assert(children_from(t, q, acc.push(x)).0.take(acc.len() as int) == acc.push(x).take(acc.len() as int));
            assert(acc.push(x).take(acc.len() as int) == acc);
            assert(children_from(t, q, acc.push(x)).0.take(acc.len() + 1int)[acc.len() as int] == x);
            return;
        }
    }
    assert(acc.take(acc.len() as int) == acc);
}

/// A block `<% @name %>` binds `name`: the binding is the block's value
/// without its `@`.
pub proof fn law_block_binds_its_name(t: Seq<TokenView>, p: int, name: Seq<char>)
    requires
        0 <= p,
        p + 2 < t.len(),
        t[p] == TokenView::BlockBindingOpen,
        t[p + 1] == TokenView::BlockBindingValue(seq!['@'] + name),
        t[p + 2] == TokenView::BlockBindingClose,
        forall|k: int| 0 <= k < name.len() ==> #[trigger] name[k] != '@',
    ensures
        element_at(t, p) == Some((SExprView::Binding(name), p + 3)),
{
    lemma_without_keeps(seq!['@'], name, '@');
    assert(seq!['@'].drop_last() == Seq::<char>::empty());
    assert(seq!['@'].last() == '@');
    assert(without(Seq::<char>::empty(), '@') == Seq::<char>::empty());
    assert(without(seq!['@'], '@') == without(seq!['@'].drop_last(), '@'));
    assert(Seq::<char>::empty() + name == name);
}

// ----------------------------------------------------------------------------
// Reading the tree.
// ----------------------------------------------------------------------------

/// A number for each kind of token; plain tokens are equal exactly when
/// their kinds are.
pub open spec fn mark_kind(t: TokenView) -> u8 {
    match t {
        TokenView::BlockBindingOpen => 0,
        TokenView::BlockBindingClose => 1,
        TokenView::BlockBindingValue(_) => 2,
        TokenView::TagStart => 3,
        TokenView::Slash => 4,
        TokenView::TagEnd => 5,
        TokenView::Dot => 6,
        TokenView::Colon => 7,
        TokenView::Hifen => 8,
        TokenView::Equals => 9,
        TokenView::LiteralString(_) => 10,
        TokenView::Binding(_) => 11,
        TokenView::Identifier(_) => 12,
        TokenView::Whitespace => 13,
        TokenView::Error => 14,
    }
}

fn mark_kind_exec(t: &Token) -> (k: u8)
    ensures
        k == mark_kind(t@),
{
    match t {
        Token::BlockBindingOpen => 0,
        Token::BlockBindingClose => 1,
        Token::BlockBindingValue(_) => 2,
        Token::TagStart => 3,
        Token::Slash => 4,
        Token::TagEnd => 5,
        Token::Dot => 6,
        Token::Colon => 7,
        Token::Hifen => 8,
        Token::Equals => 9,
        Token::LiteralString(_) => 10,
        Token::Binding(_) => 11,
        Token::Identifier(_) => 12,
        Token::Whitespace => 13,
        Token::Error => 14,
    }
}

/// Whether token `p` has kind `k`.
fn kind_at(toks: &Vec<Token>, p: usize, k: u8) -> (b: bool)
    ensures
        b == (p < toks@.len() && mark_kind(toks@[p as int]@) == k),
{
    p < toks.len() && mark_kind_exec(&toks[p]) == k
}

fn without_exec(v: &String, c: char) -> (res: String)
    ensures
        res@ == without(v@, c),
{
    let chars = chars_of(v.as_str());
    let mut out = String::new();
    let mut i: usize = 0;
    while i < chars.len()
        invariant
            0 <= i <= chars@.len(),
            chars@ == v@,
            out@ == without(chars@.take(i as int), c),
        decreases chars@.len() - i,
    {
        assert(chars@.take(i + 1).drop_last() == chars@.take(i as int));
        if chars[i] != c {
            crate::text::push_char(&mut out, chars[i]);
        }
        i += 1;
    }
    assert(chars@.take(chars@.len() as int) == chars@);
    out
}

fn tag_name_exec(toks: &Vec<Token>, p: usize) -> (res: Option<(String, usize)>)
    ensures
        match tag_name_at(markup_views(toks@), p as int) {
            Some((n, q)) => res matches Some((m, r)) && m@ == n && r == q,
            None => res is None,
        },
{
    if p < toks.len() && toks.len() - p > 2 && kind_at(toks, p, 12) && kind_at(toks, p + 1, 6) {
        match &toks[p + 2] {
            Token::Identifier(v) => Some((v.clone(), p + 3)),
            _ => None,
        }
    } else {
        None
    }
}

fn attr_exec(toks: &Vec<Token>, p: usize) -> (res: Option<(Attr, usize)>)
    ensures
        match attr_at(markup_views(toks@), p as int) {
            Some((a, q)) => res matches Some((b, r)) && b@ == a && r == q,
            None => res is None,
        },
{
    if p < toks.len() && toks.len() - p > 3 && kind_at(toks, p, 7) && kind_at(toks, p + 2, 9) {
        match &toks[p + 1] {
            Token::Identifier(name) => match &toks[p + 3] {
                Token::LiteralString(v) => Some((Attr::Property { name: name.clone(), value: Value::Literal(without_exec(v, '"')) }, p + 4)),
                Token::Binding(v) => Some((Attr::Property { name: name.clone(), value: Value::Binding(v.clone()) }, p + 4)),
                _ => None,
            },
            _ => None,
        }
    } else {
        None
    }
}

fn attrs_exec(toks: &Vec<Token>, p: usize) -> (res: (Vec<Attr>, usize))
    requires
        p <= toks@.len(),
    ensures
        attrs_from(markup_views(toks@), p as int, Seq::empty()) == (attrs_view(res.0@), res.1 as int),
{
    let ghost t = markup_views(toks@);
    let mut out: Vec<Attr> = Vec::new();
    let mut q = p;
    assert(attrs_view(out@) == Seq::<AttrView>::empty());
    loop
        invariant
            p <= q <= toks@.len(),
            t == markup_views(toks@),
            attrs_from(t, p as int, Seq::empty()) == attrs_from(t, q as int, attrs_view(out@)),
        ensures
            attrs_from(t, p as int, Seq::empty()) == (attrs_view(out@), q as int),
        decreases toks@.len() - q,
    {
        match attr_exec(toks, q) {
            Some((a, q2)) => {
                let ghost before = out@;
                out.push(a);
                assert(attrs_view(out@) == attrs_view(before).push(a@));
                q = q2;
            },
            None => {
                break;
            },
        }
    }
    (out, q)
}

fn open_tag_exec(toks: &Vec<Token>, p: usize) -> (res: Option<(String, Vec<Attr>, usize)>)
    requires
        p <= toks@.len(),
    ensures
        match open_tag(markup_views(toks@), p as int) {
            Some((n, a, r)) => res matches Some((m, b, q)) && m@ == n && attrs_view(b@) == a && q == r,
            None => res is None,
        },
{
    let len: usize = toks.len();
    if p >= len || !kind_at(toks, p, 3) {
        return None;
    }
    match tag_name_exec(toks, p + 1) {
        Some((name, q)) => {
            let (attrs, r) = attrs_exec(toks, q);
            Some((name, attrs, r))
        },
        None => None,
    }
}

fn element_exec(toks: &Vec<Token>, p: usize) -> (res: Option<(SExpr, usize)>)
    requires
        p <= toks@.len(),
    ensures
        match element_at(markup_views(toks@), p as int) {
            Some((e, q)) => res matches Some((f, r)) && f@ == e && r == q,
            None => res is None,
        },
    decreases toks@.len() - p, 0int,
{
    let ghost t = markup_views(toks@);
    let len: usize = toks.len();
    proof {
        lemma_open_tag_bounds(t, p as int);
    }
    match open_tag_exec(toks, p) {
        Some((name, attrs, r)) => {
            if kind_at(toks, r, 4) && kind_at(toks, r + 1, 5) {
                let e = SExpr::Element { name, attributes: attrs, children: Vec::new(), self_closing: true };
                assert(sexprs_view(Seq::<SExpr>::empty()) == Seq::<SExprView>::empty());
                Some((e, r + 2))
            } else if kind_at(toks, r, 5) {
                proof {
                    lemma_children_bounds(t, r + 1, Seq::empty());
                }
                let (kids, q) = children_exec(toks, r + 1);
                if kind_at(toks, q, 3) && kind_at(toks, q + 1, 4) {
                    match tag_name_exec(toks, q + 2) {
                        Some((_, q2)) => if kind_at(toks, q2, 5) {
                            Some((SExpr::Element { name, attributes: attrs, children: kids, self_closing: false }, q2 + 1))
                        } else {
                            None
                        },
                        None => None,
                    }
                } else {
                    None
                }
            } else {
                None
            }
        },
        None => {
            if kind_at(toks, p, 0) && len - p > 2 && kind_at(toks, p + 2, 1) {
                match &toks[p + 1] {
                    Token::BlockBindingValue(v) => Some((SExpr::Binding(without_exec(v, '@')), p + 3)),
                    _ => None,
                }
            } else {
                None
            }
        },
    }
}

fn children_exec(toks: &Vec<Token>, p: usize) -> (res: (Vec<SExpr>, usize))
    requires
        p <= toks@.len(),
    ensures
        children_from(markup_views(toks@), p as int, Seq::empty()) == (sexprs_view(res.0@), res.1 as int),
    decreases toks@.len() - p, 1int,
{
    let ghost t = markup_views(toks@);
    let mut out: Vec<SExpr> = Vec::new();
    let mut q = p;
    assert(sexprs_view(out@) == Seq::<SExprView>::empty());
    loop
        invariant
            p <= q <= toks@.len(),
            t == markup_views(toks@),
            children_from(t, p as int, Seq::empty()) == children_from(t, q as int, sexprs_view(out@)),
        ensures
            children_from(t, p as int, Seq::empty()) == (sexprs_view(out@), q as int),
        decreases toks@.len() - q,
    {
        if q >= toks.len() {
            break;
        }
        proof {
            lemma_element_bounds(t, q as int);
        }
        match element_exec(toks, q) {
            Some((e, q2)) => {
                let ghost before = out@;
                let ghost ev = e@;
                out.push(e);
                assert(out@.drop_last() == before);
                assert(sexprs_view(out@) == sexprs_view(before).push(ev));
                q = q2;
            },
            None => {
                break;
            },
        }
    }
    (out, q)
}

/// Reads `code` as one markup node; see [`markup_spec`]. There is none when
/// the tokens do not form exactly one node.
pub fn parse_markup(code: &str) -> (res: Option<SExpr>)
    ensures
        match markup_spec(code@) {
            Some(e) => res matches Some(f) && f@ == e,
            None => res is None,
        },
{
    let toks = lex_markup(code);
    match element_exec(&toks, 0) {
        Some((e, q)) => if q == toks.len() {
            Some(e)
        } else {
            None
        },
        None => None,
    }
}

} // verus!
