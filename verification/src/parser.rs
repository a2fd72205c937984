use vstd::prelude::*;

use crate::tokens::{SpecToken, Token, Spanned, SpecSpanned, spanned_view, tokens_of, lex_spec, lex};
use crate::text::{chars_of, owned, string_from};
use crate::duration::{SpecDuration, duration_spec, DurationOutcome, duration_outcome};
use crate::types::{
    SpecExpr, SpecValue, SpecVNode, SpecDeclaration, SpecRule, SpecSelector, SpecStylesheet,
    SpecUheex, BinaryOperator, WidgetKind, TimeSpan, Expr, Value, Numeral, Attrs, VNode,
    Declaration, Rule, Selector, Stylesheet, Uheex, clone_expr, nodes_view, decls_view, rules_view,
};


verus! {

// ---------------------------------------------------------------------------
// The grammar, as a parsing-expression grammar over tokens: alternatives are
// tried in order and the first that succeeds is taken, repetitions are greedy,
// and a failed alternative or repetition gives back what it had read.
// Positions are token indices.
// ---------------------------------------------------------------------------

/// `t[p]` is the payload-free token `k`.
pub open spec fn tok_is(t: Seq<SpecToken>, p: int, k: SpecToken) -> bool {
    0 <= p < t.len() && t[p] == k
}

/// The first position at or after `p` that does not hold a comment.
pub open spec fn skip_comments(t: Seq<SpecToken>, p: int) -> int
    decreases t.len() - p,
{
    if 0 <= p < t.len() && t[p] is Comment {
        skip_comments(t, p + 1)
    } else {
        p
    }
}

/// `v` without the `'` characters at its start and at its end.
pub open spec fn trim_quotes(v: Seq<char>) -> Seq<char> {
    trim_quotes_end(trim_quotes_start(v))
}

pub open spec fn trim_quotes_start(v: Seq<char>) -> Seq<char>
    decreases v.len(),
{
    if v.len() > 0 && v[0] == '\'' {
        trim_quotes_start(v.drop_first())
    } else {
        v
    }
}

pub open spec fn trim_quotes_end(v: Seq<char>) -> Seq<char>
    decreases v.len(),
{
    if v.len() > 0 && v.last() == '\'' {
        trim_quotes_end(v.drop_last())
    } else {
        v
    }
}

/// A literal value token: a quoted string, a number or a bare word.
pub open spec fn value_at(t: Seq<SpecToken>, p: int) -> Option<SpecExpr> {
    if 0 <= p < t.len() {
        match t[p] {
            SpecToken::LiteralString(v) => Some(SpecExpr::Value(SpecValue::String(trim_quotes(v)))),
            SpecToken::Number(v) => Some(SpecExpr::Value(SpecValue::Number(v))),
            SpecToken::Identifier(v) => Some(SpecExpr::Value(SpecValue::String(v))),
            _ => None,
        }
    } else {
        None
    }
}

/// The identifier at `p`, if there is one.
pub open spec fn ident_at(t: Seq<SpecToken>, p: int) -> Option<Seq<char>> {
    if 0 <= p < t.len() {
        match t[p] {
            SpecToken::Identifier(v) => Some(v),
            _ => None,
        }
    } else {
        None
    }
}

/// The binary operator at `p`, if there is one.
pub open spec fn op_at(t: Seq<SpecToken>, p: int) -> Option<BinaryOperator> {
    if 0 <= p < t.len() {
        match t[p] {
            SpecToken::Gt => Some(BinaryOperator::Gt),
            SpecToken::Lt => Some(BinaryOperator::Lt),
            SpecToken::Plus => Some(BinaryOperator::Add),
            SpecToken::Minus => Some(BinaryOperator::Sub),
            SpecToken::Mul => Some(BinaryOperator::Mul),
            SpecToken::Div => Some(BinaryOperator::Div),
            SpecToken::Eq => Some(BinaryOperator::Eq),
            SpecToken::NotEq => Some(BinaryOperator::NotEq),
            SpecToken::And => Some(BinaryOperator::And),
            SpecToken::Or => Some(BinaryOperator::Or),
            _ => None,
        }
    } else {
        None
    }
}

/// `&name`: a binding.
pub open spec fn binding_at(t: Seq<SpecToken>, p: int) -> Option<(SpecExpr, int)> {
    if tok_is(t, p, SpecToken::Ampersand) {
        match ident_at(t, p + 1) {
            Some(v) => Some((SpecExpr::Binding(v), p + 2)),
            None => None,
        }
    } else {
        None
    }
}

/// A value or a binding.
pub open spec fn atom(t: Seq<SpecToken>, p: int) -> Option<(SpecExpr, int)> {
    match value_at(t, p) {
        Some(v) => Some((v, p + 1)),
        None => binding_at(t, p),
    }
}

/// `(op atom)*` folded to the left onto `acc`.
pub open spec fn fold_ops(t: Seq<SpecToken>, p: int, acc: SpecExpr) -> (SpecExpr, int)
    decreases t.len() - p,
{
    match op_at(t, p) {
        Some(o) => match atom(t, p + 1) {
            Some((r, q)) => if p < q <= t.len() {
                fold_ops(t, q, SpecExpr::Binary { left: Box::new(acc), operator: o, right: Box::new(r) })
            } else {
                (acc, p)
            },
            None => (acc, p),
        },
        None => (acc, p),
    }
}

/// `( atom (op atom)* )`.
pub open spec fn paren_expr(t: Seq<SpecToken>, p: int) -> Option<(SpecExpr, int)> {
    if tok_is(t, p, SpecToken::LParenthesis) {
        match atom(t, p + 1) {
            Some((a, q)) => {
                let (e, r) = fold_ops(t, q, a);
                if tok_is(t, r, SpecToken::RParenthesis) {
                    Some((e, r + 1))
                } else {
                    None
                }
            },
            None => None,
        }
    } else {
        None
    }
}

/// An expression, with the comments around it.
pub open spec fn expr(t: Seq<SpecToken>, p: int) -> Option<(SpecExpr, int)> {
    let p0 = skip_comments(t, p);
    let core = match paren_expr(t, p0) {
        Some(x) => Some(x),
        None => match value_at(t, p0) {
            Some(v) => Some((v, p0 + 1)),
            None => binding_at(t, p0),
        },
    };
    match core {
        Some((e, q)) => Some((e, skip_comments(t, q))),
        None => None,
    }
}

/// `:name expr`, with the comments around it.
pub open spec fn attr(t: Seq<SpecToken>, p: int) -> Option<((Seq<char>, SpecExpr), int)> {
    let p0 = skip_comments(t, p);
    if tok_is(t, p0, SpecToken::Colon) {
        match ident_at(t, p0 + 1) {
            Some(k) => match expr(t, p0 + 2) {
                Some((e, q)) => Some(((k, e), skip_comments(t, q))),
                None => None,
            },
            None => None,
        }
    } else {
        None
    }
}

/// Attributes read from `p` on, added to `acc`; a later one for a key replaces an earlier one.
pub open spec fn attrs_from(t: Seq<SpecToken>, p: int, acc: Map<Seq<char>, SpecExpr>) -> (Map<Seq<char>, SpecExpr>, int)
    decreases t.len() - p,
{
    match attr(t, p) {
        Some(((k, e), q)) => if p < q <= t.len() {
            attrs_from(t, q, acc.insert(k, e))
        } else {
            (acc, p)
        },
        None => (acc, p),
    }
}

/// The attributes read from `p` on.
pub open spec fn attrs(t: Seq<SpecToken>, p: int) -> (Map<Seq<char>, SpecExpr>, int) {
    attrs_from(t, p, Map::empty())
}

/// The widget kind a widget's name selects.
pub open spec fn kind_of(name: Seq<char>) -> WidgetKind {
    if name == "label"@ {
        WidgetKind::Label
    } else if name == "row"@ {
        WidgetKind::Row
    } else if name == "column"@ {
        WidgetKind::Column
    } else {
        WidgetKind::Custom
    }
}

/// What stands between a node's parentheses.
pub open spec fn node_body(t: Seq<SpecToken>, p: int) -> Option<(SpecVNode, int)>
    decreases t.len() - p, 2int,
{
    if !(0 <= p < t.len()) {
        None
    } else {
        match t[p] {
            SpecToken::Window => {
                let (a, q) = attrs(t, p + 1);
                proof {
                    lemma_attrs_bounds(t, p + 1, Map::empty());
                }
                match nodes_plus(t, q) {
                    Some((kids, r)) => Some((SpecVNode::Window { attributes: a, child: kids }, r)),
                    None => None,
                }
            },
            SpecToken::Then => {
                let (a, q) = attrs(t, p + 1);
                proof {
                    lemma_attrs_bounds(t, p + 1, Map::empty());
                }
                match node(t, q) {
                    Some((c, r)) => if a.contains_key("cond"@) {
                        Some((SpecVNode::Then { cond: a["cond"@], child: Box::new(c) }, r))
                    } else {
                        None
                    },
                    None => None,
                }
            },
            SpecToken::Repeat => {
                let (a, q) = attrs(t, p + 1);
                proof {
                    lemma_attrs_bounds(t, p + 1, Map::empty());
                }
                match node(t, q) {
                    Some((c, r)) => if a.contains_key("times"@) {
                        Some((SpecVNode::Repeat { times: a["times"@], child: Box::new(c) }, r))
                    } else {
                        None
                    },
                    None => None,
                }
            },
            SpecToken::Identifier(name) => {
                let (a, q) = attrs(t, p + 1);
                proof {
                    lemma_attrs_bounds(t, p + 1, Map::empty());
                }
                match nodes_plus(t, q) {
                    Some((kids, r)) => Some((SpecVNode::Widget { kind: kind_of(name), attributes: a, child: kids }, r)),
                    None => None,
                }
            },
            SpecToken::LiteralString(v) => Some((SpecVNode::String(trim_quotes(v)), p + 1)),
            SpecToken::Number(v) => Some((SpecVNode::Number(v), p + 1)),
            SpecToken::Ampersand => match ident_at(t, p + 1) {
                Some(v) => Some((SpecVNode::Binding(v), p + 2)),
                None => None,
            },
            _ => None,
        }
    }
}

/// `( body )`, with the comments around it.
pub open spec fn node(t: Seq<SpecToken>, p: int) -> Option<(SpecVNode, int)>
    decreases t.len() - p, 3int,
{
    let p0 = skip_comments(t, p);
    proof {
        lemma_skip_bounds(t, p);
    }
    if tok_is(t, p0, SpecToken::LParenthesis) {
        match node_body(t, p0 + 1) {
            Some((n, q)) => if tok_is(t, q, SpecToken::RParenthesis) {
                Some((n, skip_comments(t, q + 1)))
            } else {
                None
            },
            None => None,
        }
    } else {
        None
    }
}

/// One or more nodes.
pub open spec fn nodes_plus(t: Seq<SpecToken>, p: int) -> Option<(Seq<SpecVNode>, int)>
    decreases t.len() - p, 4int,
{
    match node(t, p) {
        Some((n, q)) => if p < q <= t.len() {
            Some(nodes_star(t, q, seq![n]))
        } else {
            None
        },
        None => None,
    }
}

/// Zero or more nodes, appended to `acc`.
pub open spec fn nodes_star(t: Seq<SpecToken>, p: int, acc: Seq<SpecVNode>) -> (Seq<SpecVNode>, int)
    decreases t.len() - p, 4int,
{
    match node(t, p) {
        Some((n, q)) => if p < q <= t.len() {
            nodes_star(t, q, acc.push(n))
        } else {
            (acc, p)
        },
        None => (acc, p),
    }
}


// ----------------------------------------------------------------------------
// Global variables.
// ----------------------------------------------------------------------------

/// What reading from a position gives when reading may also stop the program
/// (an `interval` that is not a valid duration stops it).
pub enum Step<T> {
    Done(T, int),
    Fail,
    Panic,
}

/// `( value )`.
pub open spec fn paren_value(t: Seq<SpecToken>, p: int) -> Option<(SpecExpr, int)> {
    if tok_is(t, p, SpecToken::LParenthesis) && value_at(t, p + 1) is Some && tok_is(t, p + 2, SpecToken::RParenthesis) {
        Some((value_at(t, p + 1).unwrap(), p + 3))
    } else {
        None
    }
}

/// `$( text )` as a shell command, or `( value )`.
pub open spec fn var_value(t: Seq<SpecToken>, p: int) -> Option<(SpecExpr, int)> {
    if tok_is(t, p, SpecToken::Dollar) {
        match paren_value(t, p + 1) {
            Some((SpecExpr::Value(SpecValue::String(s)), q)) => Some((SpecExpr::Shell(s), q)),
            _ => None,
        }
    } else {
        paren_value(t, p)
    }
}

/// The default refresh interval of a variable: one second.
pub open spec fn default_interval() -> TimeSpan {
    TimeSpan { secs: 1, nanos: 0 }
}

/// `(variable attrs value)`. It needs a `name` attribute with a text value; an
/// `interval` attribute with a text value must be a valid duration, else reading stops the program.
pub open spec fn variable(t: Seq<SpecToken>, p: int) -> Step<SpecVNode> {
    if tok_is(t, p, SpecToken::LParenthesis) && tok_is(t, p + 1, SpecToken::Variable) {
        let (a, q) = attrs(t, p + 2);
        match var_value(t, q) {
            Some((value, r)) => {
                if a.contains_key("name"@) && a["name"@] is Value && a["name"@]->Value_0 is String {
                    let name = a["name"@]->Value_0->String_0;
                    let initial = if a.contains_key("initial"@) { Some(a["initial"@]) } else { None };
                    let interval = if a.contains_key("interval"@) && a["interval"@] is Value && a["interval"@]->Value_0 is String {
                        duration_spec(a["interval"@]->Value_0->String_0)
                    } else {
                        SpecDuration::Span(default_interval())
                    };
                    match interval {
                        SpecDuration::Span(d) => if tok_is(t, r, SpecToken::RParenthesis) {
                            Step::Done(SpecVNode::Variable { name, initial, value, interval: d }, r + 1)
                        } else {
                            Step::Fail
                        },
                        _ => Step::Panic,
                    }
                } else {
                    Step::Fail
                }
            },
            None => Step::Fail,
        }
    } else {
        Step::Fail
    }
}

/// Variables read from `p` on, appended to `acc`.
pub open spec fn variables_from(t: Seq<SpecToken>, p: int, acc: Seq<SpecVNode>) -> Step<Seq<SpecVNode>>
    decreases t.len() - p,
{
    match variable(t, p) {
        Step::Done(v, q) => if p < q <= t.len() {
            variables_from(t, q, acc.push(v))
        } else {
            Step::Done(acc, p)
        },
        Step::Fail => Step::Done(acc, p),
        Step::Panic => Step::Panic,
    }
}

/// `(declare variable*)`.
pub open spec fn declare(t: Seq<SpecToken>, p: int) -> Step<Seq<SpecVNode>> {
    if tok_is(t, p, SpecToken::LParenthesis) && tok_is(t, p + 1, SpecToken::Declare) {
        match variables_from(t, p + 2, Seq::empty()) {
            Step::Done(vs, q) => if tok_is(t, q, SpecToken::RParenthesis) {
                Step::Done(vs, q + 1)
            } else {
                Step::Fail
            },
            Step::Fail => Step::Fail,
            Step::Panic => Step::Panic,
        }
    } else {
        Step::Fail
    }
}

// ----------------------------------------------------------------------------
// Stylesheet.
// ----------------------------------------------------------------------------

/// A name in a stylesheet: an identifier, or the word `window`.
pub open spec fn style_ident(t: Seq<SpecToken>, p: int) -> Option<Seq<char>> {
    if 0 <= p < t.len() {
        match t[p] {
            SpecToken::Identifier(v) => Some(v),
            SpecToken::Window => Some("window"@),
            _ => None,
        }
    } else {
        None
    }
}

/// `:name expr`, or `(name declaration*)`.
pub open spec fn declaration(t: Seq<SpecToken>, p: int) -> Option<(SpecDeclaration, int)>
    decreases t.len() - p, 0int,
{
    if tok_is(t, p, SpecToken::Colon) && style_ident(t, p + 1) is Some {
        match expr(t, p + 2) {
            Some((e, q)) => Some((SpecDeclaration::Simple { property: style_ident(t, p + 1).unwrap(), value: e }, q)),
            None => None,
        }
    } else if tok_is(t, p, SpecToken::LParenthesis) && style_ident(t, p + 1) is Some {
        let (ds, q) = declarations_from(t, p + 2, Seq::empty());
        if tok_is(t, q, SpecToken::RParenthesis) {
            Some((SpecDeclaration::Nested { property: style_ident(t, p + 1).unwrap(), value: ds }, q + 1))
        } else {
            None
        }
    } else {
        None
    }
}

/// Declarations read from `p` on, appended to `acc`.
pub open spec fn declarations_from(t: Seq<SpecToken>, p: int, acc: Seq<SpecDeclaration>) -> (Seq<SpecDeclaration>, int)
    decreases t.len() - p, 1int,
{
    match declaration(t, p) {
        Some((d, q)) => if p < q <= t.len() {
            declarations_from(t, q, acc.push(d))
        } else {
            (acc, p)
        },
        None => (acc, p),
    }
}

/// The declarations of a rule: each may have comments around it.
pub open spec fn rule_declarations(t: Seq<SpecToken>, p: int, acc: Seq<SpecDeclaration>) -> (Seq<SpecDeclaration>, int)
    decreases t.len() - p,
{
    let p0 = skip_comments(t, p);
    match declaration(t, p0) {
        Some((d, q)) => {
            let q0 = skip_comments(t, q);
            if p < q0 <= t.len() {
                rule_declarations(t, q0, acc.push(d))
            } else {
                (acc, p)
            }
        },
        None => (acc, p),
    }
}

/// `(name declarations)` for a tag, or `(.name declarations)` for a class.
pub open spec fn rule(t: Seq<SpecToken>, p: int) -> Option<(SpecRule, int)> {
    if tok_is(t, p, SpecToken::LParenthesis) && style_ident(t, p + 1) is Some {
        let (ds, q) = rule_declarations(t, p + 2, Seq::empty());
        if tok_is(t, q, SpecToken::RParenthesis) {
            Some((SpecRule { selector: SpecSelector::Tag(style_ident(t, p + 1).unwrap()), declarations: ds }, q + 1))
        } else {
            None
        }
    } else if tok_is(t, p, SpecToken::LParenthesis) && tok_is(t, p + 1, SpecToken::Dot) && style_ident(t, p + 2) is Some {
        let (ds, q) = rule_declarations(t, p + 3, Seq::empty());
        if tok_is(t, q, SpecToken::RParenthesis) {
            Some((SpecRule { selector: SpecSelector::Class(style_ident(t, p + 2).unwrap()), declarations: ds }, q + 1))
        } else {
            None
        }
    } else {
        None
    }
}

/// Rules read from `p` on, appended to `acc`.
pub open spec fn rules_from(t: Seq<SpecToken>, p: int, acc: Seq<SpecRule>) -> (Seq<SpecRule>, int)
    decreases t.len() - p,
{
    match rule(t, p) {
        Some((r, q)) => if p < q <= t.len() {
            rules_from(t, q, acc.push(r))
        } else {
            (acc, p)
        },
        None => (acc, p),
    }
}

/// `(stylesheet rule*)`, comments allowed before and after the rules.
pub open spec fn stylesheet(t: Seq<SpecToken>, p: int) -> Option<(SpecStylesheet, int)> {
    if tok_is(t, p, SpecToken::LParenthesis) && tok_is(t, p + 1, SpecToken::Stylesheet) {
        let (rs, q) = rules_from(t, skip_comments(t, p + 2), Seq::empty());
        let q0 = skip_comments(t, q);
        if tok_is(t, q0, SpecToken::RParenthesis) {
            Some((SpecStylesheet { rules: rs }, q0 + 1))
        } else {
            None
        }
    } else {
        None
    }
}

// ----------------------------------------------------------------------------
// The whole layout.
// ----------------------------------------------------------------------------

/// The result of reading a layout.
pub enum SpecOutcome {
    Parsed(SpecUheex),
    Rejected,
    Panicked,
}

/// A layout: an optional `declare` block, one root node, an optional
/// stylesheet, comments anywhere between them, and nothing else.
pub open spec fn document(t: Seq<SpecToken>) -> SpecOutcome {
    let p0 = skip_comments(t, 0);
    let globals = match declare(t, skip_comments(t, p0)) {
        Step::Done(vs, q) => Step::Done(Some(vs), skip_comments(t, q)),
        Step::Fail => Step::Done(None, p0),
        Step::Panic => Step::Panic,
    };
    match globals {
        Step::Done(g, p1) => match node(t, skip_comments(t, p1)) {
            Some((root, q)) => {
                let p2 = skip_comments(t, q);
                let (ss, p3) = match stylesheet(t, skip_comments(t, p2)) {
                    Some((s, r)) => (Some(s), skip_comments(t, r)),
                    None => (None, p2),
                };
                if skip_comments(t, p3) == t.len() {
                    SpecOutcome::Parsed(SpecUheex {
                        globals: match g {
                            Some(vs) => vs,
                            None => Seq::empty(),
                        },
                        root,
                        stylesheet: ss,
                    })
                } else {
                    SpecOutcome::Rejected
                }
            },
            None => SpecOutcome::Rejected,
        },
        Step::Fail => SpecOutcome::Rejected,
        Step::Panic => SpecOutcome::Panicked,
    }
}

/// What reading the layout text `code` gives.
pub open spec fn parse_spec(code: Seq<char>) -> SpecOutcome {
    document(tokens_of(lex_spec(code)))
}

pub proof fn lemma_skip_bounds(t: Seq<SpecToken>, p: int)
    ensures
        p <= skip_comments(t, p),
        0 <= p <= t.len() ==> skip_comments(t, p) <= t.len(),
    decreases t.len() - p,
{
    if 0 <= p < t.len() && t[p] is Comment {
        lemma_skip_bounds(t, p + 1);
    }
}

pub proof fn lemma_fold_bounds(t: Seq<SpecToken>, p: int, acc: SpecExpr)
    ensures
        p <= fold_ops(t, p, acc).1,
        0 <= p <= t.len() ==> fold_ops(t, p, acc).1 <= t.len(),
    decreases t.len() - p,
{
    match op_at(t, p) {
        Some(o) => match atom(t, p + 1) {
            Some((r, q)) => if p < q <= t.len() {
                lemma_fold_bounds(t, q, SpecExpr::Binary { left: Box::new(acc), operator: o, right: Box::new(r) });
            },
            None => {},
        },
        None => {},
    }
}

pub proof fn lemma_expr_bounds(t: Seq<SpecToken>, p: int)
    requires
        0 <= p <= t.len(),
    ensures
        expr(t, p) matches Some((_, q)) ==> p < q <= t.len(),
{
    let p0 = skip_comments(t, p);
    lemma_skip_bounds(t, p);
    if let Some((a, q)) = atom(t, p0 + 1) {
        lemma_fold_bounds(t, q, a);
    }
    if let Some((_, q)) = paren_expr(t, p0) {
        lemma_skip_bounds(t, q);
    } else if let Some(_) = value_at(t, p0) {
        lemma_skip_bounds(t, p0 + 1);
    } else if let Some(_) = binding_at(t, p0) {
        lemma_skip_bounds(t, p0 + 2);
    }
}

pub proof fn lemma_attr_bounds(t: Seq<SpecToken>, p: int)
    requires
        0 <= p <= t.len(),
    ensures
        attr(t, p) matches Some((_, q)) ==> p < q <= t.len(),
{
    let p0 = skip_comments(t, p);
    lemma_skip_bounds(t, p);
    if tok_is(t, p0, SpecToken::Colon) && ident_at(t, p0 + 1) is Some {
        lemma_expr_bounds(t, p0 + 2);
        if let Some((_, q)) = expr(t, p0 + 2) {
            lemma_skip_bounds(t, q);
        }
    }
}

pub proof fn lemma_attrs_bounds(t: Seq<SpecToken>, p: int, acc: Map<Seq<char>, SpecExpr>)
    ensures
        p <= attrs_from(t, p, acc).1,
        0 <= p <= t.len() ==> attrs_from(t, p, acc).1 <= t.len(),
    decreases t.len() - p,
{
    match attr(t, p) {
        Some(((k, e), q)) => if p < q <= t.len() {
            lemma_attrs_bounds(t, q, acc.insert(k, e));
        },
        None => {},
    }
}

// ----------------------------------------------------------------------------
// Reading tokens.
// ----------------------------------------------------------------------------

/// The views of a vector of tokens.
pub open spec fn token_views(v: Seq<Token>) -> Seq<SpecToken> {
    Seq::new(v.len(), |i: int| v[i]@)
}

/// A number for each token variant.
pub open spec fn kind_of_token(t: SpecToken) -> u8 {
    match t {
        SpecToken::Window => 0,
        SpecToken::Variable => 1,
        SpecToken::Declare => 2,
        SpecToken::Stylesheet => 3,
        SpecToken::Then => 4,
        SpecToken::Repeat => 5,
        SpecToken::LParenthesis => 6,
        SpecToken::RParenthesis => 7,
        SpecToken::Colon => 8,
        SpecToken::Comment => 9,
        SpecToken::Dot => 10,
        SpecToken::Ampersand => 11,
        SpecToken::Dollar => 12,
        SpecToken::LBracket => 13,
        SpecToken::RBracket => 14,
        SpecToken::Comma => 15,
        SpecToken::Minus => 16,
        SpecToken::Plus => 17,
        SpecToken::Mul => 18,
        SpecToken::Div => 19,
        SpecToken::Eq => 20,
        SpecToken::NotEq => 21,
        SpecToken::And => 22,
        SpecToken::Or => 23,
        SpecToken::Gt => 24,
        SpecToken::Lt => 25,
        SpecToken::Number(_) => 26,
        SpecToken::LiteralString(_) => 27,
        SpecToken::Identifier(_) => 28,
        SpecToken::Whitespace => 29,
        SpecToken::Error => 30,
    }
}

/// True for the token variants that carry no text.
pub open spec fn plain_token(t: SpecToken) -> bool {
    !(t is Number || t is LiteralString || t is Identifier)
}

fn kind_exec(t: &Token) -> (k: u8)
    ensures
        k == kind_of_token(t@),
{
    match t {
        Token::Window => 0,
        Token::Variable => 1,
        Token::Declare => 2,
        Token::Stylesheet => 3,
        Token::Then => 4,
        Token::Repeat => 5,
        Token::LParenthesis => 6,
        Token::RParenthesis => 7,
        Token::Colon => 8,
        Token::Comment => 9,
        Token::Dot => 10,
        Token::Ampersand => 11,
        Token::Dollar => 12,
        Token::LBracket => 13,
        Token::RBracket => 14,
        Token::Comma => 15,
        Token::Minus => 16,
        Token::Plus => 17,
        Token::Mul => 18,
        Token::Div => 19,
        Token::Eq => 20,
        Token::NotEq => 21,
        Token::And => 22,
        Token::Or => 23,
        Token::Gt => 24,
        Token::Lt => 25,
        Token::Number(_) => 26,
        Token::LiteralString(_) => 27,
        Token::Identifier(_) => 28,
        Token::Whitespace => 29,
        Token::Error => 30,
    }
}

/// `toks[p]` is the text-free token `k`.
fn tok_is_exec(toks: &Vec<Token>, p: usize, k: Token) -> (b: bool)
    requires
        plain_token(k@),
    ensures
        b == tok_is(token_views(toks@), p as int, k@),
        toks@.len() <= usize::MAX,
{
    if p < toks.len() {
        let a = kind_exec(&toks[p]);
        let b = kind_exec(&k);
        proof {
            assert(token_views(toks@)[p as int] == toks@[p as int]@);
        }
        a == b
    } else {
        false
    }
}

fn skip_exec(toks: &Vec<Token>, p: usize) -> (q: usize)
    requires
        p <= toks@.len(),
    ensures
        q as int == skip_comments(token_views(toks@), p as int),
        p <= q <= toks@.len(),
        toks@.len() <= usize::MAX,
{
    let mut q = p;
    while q < toks.len() && kind_exec(&toks[q]) == 9
        invariant
            p <= q <= toks@.len(),
            skip_comments(token_views(toks@), q as int) == skip_comments(token_views(toks@), p as int),
        decreases toks@.len() - q,
    {
        proof {
            assert(token_views(toks@)[q as int] == toks@[q as int]@);
        }
        q += 1;
    }
    proof {
        if q < toks.len() {
            assert(token_views(toks@)[q as int] == toks@[q as int]@);
        }
    }
    q
}

fn trim_quotes_exec(v: &String) -> (res: String)
    ensures
        res@ == trim_quotes(v@),
{
    let c = chars_of(v.as_str());
    let mut a: usize = 0;
    assert(c@.subrange(0, c@.len() as int) == c@);
    while a < c.len() && c[a] == '\''
        invariant
            0 <= a <= c@.len(),
            c@ == v@,
            trim_quotes_start(c@.subrange(a as int, c@.len() as int)) == trim_quotes_start(v@),
        decreases c@.len() - a,
    {
        assert(c@.subrange(a as int, c@.len() as int).drop_first() == c@.subrange(a + 1, c@.len() as int));
        a += 1;
    }
    let mut b: usize = c.len();
    while b > a && c[b - 1] == '\''
        invariant
            a <= b <= c@.len(),
            c@ == v@,
            trim_quotes_end(c@.subrange(a as int, b as int)) == trim_quotes_end(trim_quotes_start(v@)),
        decreases b - a,
    {
        assert(c@.subrange(a as int, b as int).drop_last() == c@.subrange(a as int, b - 1));
        b -= 1;
    }
    string_from(&c, a, b)
}

fn ident_exec(toks: &Vec<Token>, p: usize) -> (res: Option<String>)
    ensures
        res is Some <==> ident_at(token_views(toks@), p as int) is Some,
        res matches Some(v) ==> ident_at(token_views(toks@), p as int) == Some(v@),
        toks@.len() <= usize::MAX,
{
    if p < toks.len() {
        proof {
            assert(token_views(toks@)[p as int] == toks@[p as int]@);
        }
        match &toks[p] {
            Token::Identifier(v) => Some(v.clone()),
            _ => None,
        }
    } else {
        None
    }
}

fn value_exec(toks: &Vec<Token>, p: usize) -> (res: Option<Expr>)
    ensures
        res is Some <==> value_at(token_views(toks@), p as int) is Some,
        res matches Some(e) ==> value_at(token_views(toks@), p as int) == Some(e@),
        toks@.len() <= usize::MAX,
{
    if p < toks.len() {
        proof {
            assert(token_views(toks@)[p as int] == toks@[p as int]@);
        }
        match &toks[p] {
            Token::LiteralString(v) => Some(Expr::Value(Value::String(trim_quotes_exec(v)))),
            Token::Number(v) => Some(Expr::Value(Value::Number(v.duplicate()))),
            Token::Identifier(v) => Some(Expr::Value(Value::String(v.clone()))),
            _ => None,
        }
    } else {
        None
    }
}

fn binding_exec(toks: &Vec<Token>, p: usize) -> (res: Option<(Expr, usize)>)
    requires
        p <= toks@.len(),
    ensures
        res is Some <==> binding_at(token_views(toks@), p as int) is Some,
        res matches Some((e, q)) ==> binding_at(token_views(toks@), p as int) == Some((e@, q as int)),
{
    if tok_is_exec(toks, p, Token::Ampersand) {
        match ident_exec(toks, p + 1) {
            Some(v) => Some((Expr::Binding(v), p + 2)),
            None => None,
        }
    } else {
        None
    }
}

fn atom_exec(toks: &Vec<Token>, p: usize) -> (res: Option<(Expr, usize)>)
    requires
        p <= toks@.len(),
    ensures
        res is Some <==> atom(token_views(toks@), p as int) is Some,
        res matches Some((e, q)) ==> atom(token_views(toks@), p as int) == Some((e@, q as int)),
{
    match value_exec(toks, p) {
        Some(v) => Some((v, p + 1)),
        None => binding_exec(toks, p),
    }
}

fn op_exec(toks: &Vec<Token>, p: usize) -> (res: Option<BinaryOperator>)
    ensures
        res == op_at(token_views(toks@), p as int),
        toks@.len() <= usize::MAX,
{
    if p < toks.len() {
        proof {
            assert(token_views(toks@)[p as int] == toks@[p as int]@);
        }
        match &toks[p] {
            Token::Gt => Some(BinaryOperator::Gt),
            Token::Lt => Some(BinaryOperator::Lt),
            Token::Plus => Some(BinaryOperator::Add),
            Token::Minus => Some(BinaryOperator::Sub),
            Token::Mul => Some(BinaryOperator::Mul),
            Token::Div => Some(BinaryOperator::Div),
            Token::Eq => Some(BinaryOperator::Eq),
            Token::NotEq => Some(BinaryOperator::NotEq),
            Token::And => Some(BinaryOperator::And),
            Token::Or => Some(BinaryOperator::Or),
            _ => None,
        }
    } else {
        None
    }
}

fn paren_expr_exec(toks: &Vec<Token>, p: usize) -> (res: Option<(Expr, usize)>)
    requires
        p <= toks@.len(),
    ensures
        res is Some <==> paren_expr(token_views(toks@), p as int) is Some,
        res matches Some((e, q)) ==> paren_expr(token_views(toks@), p as int) == Some((e@, q as int)),
{
    let ghost t = token_views(toks@);
    if !tok_is_exec(toks, p, Token::LParenthesis) {
        return None;
    }
    match atom_exec(toks, p + 1) {
        Some((a, q0)) => {
            let ghost a0 = a@;
            let mut acc = a;
            let mut q = q0;
            proof {
                lemma_atom_bounds(t, p + 1);
            }
            loop
                invariant
                    q0 <= q <= toks@.len(),
                    t == token_views(toks@),
                    fold_ops(t, q0 as int, a0) == fold_ops(t, q as int, acc@),
                ensures
                    q0 <= q <= toks@.len(),
                    fold_ops(t, q0 as int, a0) == (acc@, q as int),
                decreases toks@.len() - q,
            {
                match op_exec(toks, q) {
                    Some(o) => {
                        proof {
                            lemma_atom_bounds(t, q + 1);
                        }
                        if q < toks.len() {
                            match atom_exec(toks, q + 1) {
                                Some((r, q2)) => {
                                    acc = Expr::Binary { left: Box::new(acc), operator: o, right: Box::new(r) };
                                    q = q2;
                                },
                                None => {
                                    break;
                                },
                            }
                        } else {
                            break;
                        }
                    },
                    None => {
                        break;
                    },
                }
            }
            if tok_is_exec(toks, q, Token::RParenthesis) {
                Some((acc, q + 1))
            } else {
                None
            }
        },
        None => None,
    }
}

pub proof fn lemma_atom_bounds(t: Seq<SpecToken>, p: int)
    requires
        0 <= p <= t.len(),
    ensures
        atom(t, p) matches Some((_, q)) ==> p < q <= t.len(),
{
}

fn expr_exec(toks: &Vec<Token>, p: usize) -> (res: Option<(Expr, usize)>)
    requires
        p <= toks@.len(),
    ensures
        res is Some <==> expr(token_views(toks@), p as int) is Some,
        res matches Some((e, q)) ==> expr(token_views(toks@), p as int) == Some((e@, q as int)),
{
    let p0 = skip_exec(toks, p);
    let core = match paren_expr_exec(toks, p0) {
        Some(x) => Some(x),
        None => match value_exec(toks, p0) {
            Some(v) => Some((v, p0 + 1)),
            None => binding_exec(toks, p0),
        },
    };
    proof {
        lemma_expr_bounds(token_views(toks@), p as int);
    }
    match core {
        Some((e, q)) => {
            let q2 = skip_exec(toks, q);
            Some((e, q2))
        },
        None => None,
    }
}

fn attr_exec(toks: &Vec<Token>, p: usize) -> (res: Option<(String, Expr, usize)>)
    requires
        p <= toks@.len(),
    ensures
        res is Some <==> attr(token_views(toks@), p as int) is Some,
        res matches Some((k, e, q)) ==> attr(token_views(toks@), p as int) == Some(((k@, e@), q as int)),
{
    let p0 = skip_exec(toks, p);
    if !tok_is_exec(toks, p0, Token::Colon) {
        return None;
    }
    match ident_exec(toks, p0 + 1) {
        Some(k) => match expr_exec(toks, p0 + 2) {
            Some((e, q)) => {
                proof {
                    lemma_expr_bounds(token_views(toks@), p0 + 2);
                }
                let q2 = skip_exec(toks, q);
                Some((k, e, q2))
            },
            None => None,
        },
        None => None,
    }
}

fn attrs_exec(toks: &Vec<Token>, p: usize) -> (res: (Attrs, usize))
    requires
        p <= toks@.len(),
    ensures
        res.0@ == attrs(token_views(toks@), p as int).0,
        res.1 as int == attrs(token_views(toks@), p as int).1,
        p <= res.1 <= toks@.len(),
{
    let ghost t = token_views(toks@);
    let mut acc = Attrs::new();
    let mut q = p;
    loop
        invariant
            p <= q <= toks@.len(),
            t == token_views(toks@),
            attrs(t, p as int) == attrs_from(t, q as int, acc@),
        ensures
            p <= q <= toks@.len(),
            attrs(t, p as int) == (acc@, q as int),
        decreases toks@.len() - q,
    {
        proof {
            lemma_attr_bounds(t, q as int);
        }
        match attr_exec(toks, q) {
            Some((k, e, q2)) => {
                acc.insert(k, e);
                q = q2;
            },
            None => {
                break;
            },
        }
    }
    (acc, q)
}

pub proof fn lemma_star_bounds(t: Seq<SpecToken>, p: int, acc: Seq<SpecVNode>)
    requires
        0 <= p <= t.len(),
    ensures
        p <= nodes_star(t, p, acc).1 <= t.len(),
    decreases t.len() - p,
{
    match node(t, p) {
        Some((n, q)) => if p < q <= t.len() {
            lemma_star_bounds(t, q, acc.push(n));
        },
        None => {},
    }
}

pub proof fn lemma_plus_bounds(t: Seq<SpecToken>, p: int)
    requires
        0 <= p <= t.len(),
    ensures
        nodes_plus(t, p) matches Some((_, r)) ==> p < r <= t.len(),
{
    if let Some((n, q)) = node(t, p) {
        if p < q <= t.len() {
            lemma_star_bounds(t, q, seq![n]);
        }
    }
}

pub proof fn lemma_body_bounds(t: Seq<SpecToken>, p: int)
    requires
        0 <= p <= t.len(),
    ensures
        node_body(t, p) matches Some((_, r)) ==> p < r <= t.len(),
    decreases t.len() - p, 2int,
{
    if 0 <= p < t.len() {
        lemma_attrs_bounds(t, p + 1, Map::empty());
        let q = attrs(t, p + 1).1;
        match t[p] {
            SpecToken::Window => {
                lemma_plus_bounds(t, q);
            },
            SpecToken::Identifier(_) => {
                lemma_plus_bounds(t, q);
            },
            SpecToken::Then => {
                lemma_node_bounds(t, q);
            },
            SpecToken::Repeat => {
                lemma_node_bounds(t, q);
            },
            _ => {},
        }
    }
}

pub proof fn lemma_node_bounds(t: Seq<SpecToken>, p: int)
    requires
        0 <= p <= t.len(),
    ensures
        node(t, p) matches Some((_, r)) ==> p < r <= t.len(),
    decreases t.len() - p, 3int,
{
    let p0 = skip_comments(t, p);
    lemma_skip_bounds(t, p);
    if tok_is(t, p0, SpecToken::LParenthesis) {
        lemma_body_bounds(t, p0 + 1);
        if let Some((_, q)) = node_body(t, p0 + 1) {
            lemma_skip_bounds(t, q + 1);
        }
    }
}

fn kind_exec_of(name: &String) -> (k: WidgetKind)
    ensures
        k == kind_of(name@),
{
    if *name == owned("label") {
        WidgetKind::Label
    } else if *name == owned("row") {
        WidgetKind::Row
    } else if *name == owned("column") {
        WidgetKind::Column
    } else {
        WidgetKind::Custom
    }
}

fn node_body_exec(toks: &Vec<Token>, p: usize) -> (res: Option<(VNode, usize)>)
    requires
        p <= toks@.len(),
    ensures
        res is Some <==> node_body(token_views(toks@), p as int) is Some,
        res matches Some((n, q)) ==> node_body(token_views(toks@), p as int) == Some((n@, q as int)),
    decreases toks@.len() - p, 2int,
{
    let ghost t = token_views(toks@);
    if p >= toks.len() {
        return None;
    }
    proof {
        assert(t[p as int] == toks@[p as int]@);
        lemma_attrs_bounds(t, p + 1, Map::empty());
    }
    match &toks[p] {
        Token::Window => {
            let (a, q) = attrs_exec(toks, p + 1);
            match nodes_plus_exec(toks, q) {
                Some((kids, r)) => Some((VNode::Window { attributes: a, child: Box::new(kids) }, r)),
                None => None,
            }
        },
        Token::Then => {
            let (a, q) = attrs_exec(toks, p + 1);
            match node_exec(toks, q) {
                Some((c, r)) => match a.get("cond") {
                    Some(e) => Some((VNode::Then { cond: Box::new(clone_expr(e)), child: Box::new(c) }, r)),
                    None => None,
                },
                None => None,
            }
        },
        Token::Repeat => {
            let (a, q) = attrs_exec(toks, p + 1);
            match node_exec(toks, q) {
                Some((c, r)) => match a.get("times") {
                    Some(e) => Some((VNode::Repeat { times: Box::new(clone_expr(e)), child: Box::new(c) }, r)),
                    None => None,
                },
                None => None,
            }
        },
        Token::Identifier(name) => {
            let kind = kind_exec_of(name);
            let (a, q) = attrs_exec(toks, p + 1);
            match nodes_plus_exec(toks, q) {
                Some((kids, r)) => Some((VNode::Widget { kind, attributes: a, child: Box::new(kids) }, r)),
                None => None,
            }
        },
        Token::LiteralString(v) => Some((VNode::String(trim_quotes_exec(v)), p + 1)),
        Token::Number(v) => Some((VNode::Number(v.duplicate()), p + 1)),
        Token::Ampersand => match ident_exec(toks, p + 1) {
            Some(v) => Some((VNode::Binding(v), p + 2)),
            None => None,
        },
        _ => None,
    }
}

fn node_exec(toks: &Vec<Token>, p: usize) -> (res: Option<(VNode, usize)>)
    requires
        p <= toks@.len(),
    ensures
        res is Some <==> node(token_views(toks@), p as int) is Some,
        res matches Some((n, q)) ==> node(token_views(toks@), p as int) == Some((n@, q as int)),
    decreases toks@.len() - p, 3int,
{
    let p0 = skip_exec(toks, p);
    if !tok_is_exec(toks, p0, Token::LParenthesis) {
        return None;
    }
    proof {
        lemma_body_bounds(token_views(toks@), p0 + 1);
    }
    match node_body_exec(toks, p0 + 1) {
        Some((n, q)) => {
            if tok_is_exec(toks, q, Token::RParenthesis) {
                let r = skip_exec(toks, q + 1);
                Some((n, r))
            } else {
                None
            }
        },
        None => None,
    }
}

fn nodes_plus_exec(toks: &Vec<Token>, p: usize) -> (res: Option<(Vec<VNode>, usize)>)
    requires
        p <= toks@.len(),
    ensures
        res is Some <==> nodes_plus(token_views(toks@), p as int) is Some,
        res matches Some((v, q)) ==> nodes_plus(token_views(toks@), p as int) == Some((nodes_view(v@), q as int)),
    decreases toks@.len() - p, 4int,
{
    let ghost t = token_views(toks@);
    proof {
        lemma_node_bounds(t, p as int);
    }
    match node_exec(toks, p) {
        Some((first, q1)) => {
            let ghost n1 = first@;
            let ghost f = first;
            let mut out: Vec<VNode> = Vec::new();
            out.push(first);
            assert(nodes_view(out@) == seq![n1]) by {
                assert(out@.drop_last() == Seq::<VNode>::empty());
                assert(out@.last() == f);
                assert(nodes_view(Seq::<VNode>::empty()) == Seq::<SpecVNode>::empty());
            }
            let mut q = q1;
            loop
                invariant
                    p < q1 <= q <= toks@.len(),
                    t == token_views(toks@),
                    nodes_star(t, q1 as int, seq![n1]) == nodes_star(t, q as int, nodes_view(out@)),
                ensures
                    p < q1 <= q <= toks@.len(),
                    nodes_star(t, q1 as int, seq![n1]) == (nodes_view(out@), q as int),
                decreases toks@.len() - q,
            {
                proof {
                    lemma_node_bounds(t, q as int);
                }
                match node_exec(toks, q) {
                    Some((n, q2)) => {
                        let ghost before = out@;
                        out.push(n);
                        assert(out@.drop_last() == before);
                        q = q2;
                    },
                    None => {
                        break;
                    },
                }
            }
            Some((out, q))
        },
        None => None,
    }
}

/// What reading from a position gave: a value and where reading stopped, a
/// failure, or the point where the program would stop.
pub enum Read<T> {
    Done(T, usize),
    Fail,
    Panic,
}

fn paren_value_exec(toks: &Vec<Token>, p: usize) -> (res: Option<(Expr, usize)>)
    requires
        p <= toks@.len(),
    ensures
        res is Some <==> paren_value(token_views(toks@), p as int) is Some,
        res matches Some((e, q)) ==> paren_value(token_views(toks@), p as int) == Some((e@, q as int)),
{
    if tok_is_exec(toks, p, Token::LParenthesis) {
        match value_exec(toks, p + 1) {
            Some(v) => if tok_is_exec(toks, p + 2, Token::RParenthesis) {
                Some((v, p + 3))
            } else {
                None
            },
            None => None,
        }
    } else {
        None
    }
}

fn var_value_exec(toks: &Vec<Token>, p: usize) -> (res: Option<(Expr, usize)>)
    requires
        p <= toks@.len(),
    ensures
        res is Some <==> var_value(token_views(toks@), p as int) is Some,
        res matches Some((e, q)) ==> var_value(token_views(toks@), p as int) == Some((e@, q as int)),
{
    if tok_is_exec(toks, p, Token::Dollar) {
        match paren_value_exec(toks, p + 1) {
            Some((Expr::Value(Value::String(s)), q)) => Some((Expr::Shell(s), q)),
            _ => None,
        }
    } else {
        paren_value_exec(toks, p)
    }
}

fn variable_exec(toks: &Vec<Token>, p: usize) -> (res: Read<VNode>)
    requires
        p <= toks@.len(),
    ensures
        res matches Read::Done(n, q) ==> variable(token_views(toks@), p as int) == Step::Done(n@, q as int),
        res is Fail ==> variable(token_views(toks@), p as int) is Fail,
        res is Panic ==> variable(token_views(toks@), p as int) is Panic,
{
    let ghost t = token_views(toks@);
    if !(tok_is_exec(toks, p, Token::LParenthesis) && tok_is_exec(toks, p + 1, Token::Variable)) {
        return Read::Fail;
    }
    let (a, q) = attrs_exec(toks, p + 2);
    let (value, r) = match var_value_exec(toks, q) {
        Some(x) => x,
        None => {
            return Read::Fail;
        },
    };
    let name = match a.get("name") {
        Some(Expr::Value(Value::String(s))) => s.clone(),
        _ => {
            return Read::Fail;
        },
    };
    let initial = match a.get("initial") {
        Some(e) => Some(clone_expr(e)),
        None => None,
    };
    let interval = match a.get("interval") {
        Some(Expr::Value(Value::String(s))) => match duration_outcome(s.as_str()) {
            DurationOutcome::Span(d) => d,
            _ => {
                return Read::Panic;
            },
        },
        _ => TimeSpan { secs: 1, nanos: 0 },
    };
    if tok_is_exec(toks, r, Token::RParenthesis) {
        Read::Done(VNode::Variable { name, initial, value, interval }, r + 1)
    } else {
        Read::Fail
    }
}

pub proof fn lemma_declare_bounds(t: Seq<SpecToken>, p: int)
    requires
        0 <= p <= t.len(),
    ensures
        declare(t, p) matches Step::Done(_, q) ==> p < q <= t.len(),
{
    if p + 2 <= t.len() {
        lemma_variables_bounds(t, p + 2, Seq::empty());
    }
}

pub proof fn lemma_variables_bounds(t: Seq<SpecToken>, p: int, acc: Seq<SpecVNode>)
    requires
        0 <= p <= t.len(),
    ensures
        variables_from(t, p, acc) matches Step::Done(_, q) ==> p <= q <= t.len(),
    decreases t.len() - p,
{
    match variable(t, p) {
        Step::Done(v, q) => if p < q <= t.len() {
            lemma_variables_bounds(t, q, acc.push(v));
        },
        _ => {},
    }
}

pub proof fn lemma_variable_bounds(t: Seq<SpecToken>, p: int)
    requires
        0 <= p <= t.len(),
    ensures
        variable(t, p) matches Step::Done(_, q) ==> p < q <= t.len(),
{
    lemma_attrs_bounds(t, p + 2, Map::empty());
}

fn declare_exec(toks: &Vec<Token>, p: usize) -> (res: Read<Vec<VNode>>)
    requires
        p <= toks@.len(),
    ensures
        res matches Read::Done(v, q) ==> declare(token_views(toks@), p as int) == Step::Done(nodes_view(v@), q as int),
        res is Fail ==> declare(token_views(toks@), p as int) is Fail,
        res is Panic ==> declare(token_views(toks@), p as int) is Panic,
{
    let ghost t = token_views(toks@);
    if !(tok_is_exec(toks, p, Token::LParenthesis) && tok_is_exec(toks, p + 1, Token::Declare)) {
        return Read::Fail;
    }
    let mut out: Vec<VNode> = Vec::new();
    let mut q = p + 2;
    assert(nodes_view(out@) == Seq::<SpecVNode>::empty());
    loop
        invariant
            p + 2 <= q <= toks@.len(),
            t == token_views(toks@),
            variables_from(t, p + 2, Seq::empty()) == variables_from(t, q as int, nodes_view(out@)),
            tok_is(t, p as int, SpecToken::LParenthesis),
            tok_is(t, p + 1, SpecToken::Declare),
        ensures
            p + 2 <= q <= toks@.len(),
            variables_from(t, p + 2, Seq::empty()) == Step::Done(nodes_view(out@), q as int),
        decreases toks@.len() - q,
    {
        proof {
            lemma_variable_bounds(t, q as int);
        }
        match variable_exec(toks, q) {
            Read::Done(n, q2) => {
                let ghost before = out@;
                out.push(n);
                assert(out@.drop_last() == before);
                q = q2;
            },
            Read::Fail => {
                break;
            },
            Read::Panic => {
                assert(variables_from(t, q as int, nodes_view(out@)) is Panic);
                return Read::Panic;
            },
        }
    }
    if tok_is_exec(toks, q, Token::RParenthesis) {
        Read::Done(out, q + 1)
    } else {
        Read::Fail
    }
}

fn style_ident_exec(toks: &Vec<Token>, p: usize) -> (res: Option<String>)
    ensures
        res is Some <==> style_ident(token_views(toks@), p as int) is Some,
        res matches Some(v) ==> style_ident(token_views(toks@), p as int) == Some(v@),
        toks@.len() <= usize::MAX,
{
    if p < toks.len() {
        proof {
            assert(token_views(toks@)[p as int] == toks@[p as int]@);
        }
        match &toks[p] {
            Token::Identifier(v) => Some(v.clone()),
            Token::Window => Some(owned("window")),
            _ => None,
        }
    } else {
        None
    }
}

pub proof fn lemma_declarations_bounds(t: Seq<SpecToken>, p: int, acc: Seq<SpecDeclaration>)
    requires
        0 <= p <= t.len(),
    ensures
        p <= declarations_from(t, p, acc).1 <= t.len(),
    decreases t.len() - p,
{
    match declaration(t, p) {
        Some((d, q)) => if p < q <= t.len() {
            lemma_declarations_bounds(t, q, acc.push(d));
        },
        None => {},
    }
}

pub proof fn lemma_declaration_bounds(t: Seq<SpecToken>, p: int)
    requires
        0 <= p <= t.len(),
    ensures
        declaration(t, p) matches Some((_, q)) ==> p < q <= t.len(),
{
    if tok_is(t, p, SpecToken::Colon) && style_ident(t, p + 1) is Some {
        lemma_expr_bounds(t, p + 2);
    } else if tok_is(t, p, SpecToken::LParenthesis) && style_ident(t, p + 1) is Some {
        lemma_declarations_bounds(t, p + 2, Seq::empty());
    }
}

fn declaration_exec(toks: &Vec<Token>, p: usize) -> (res: Option<(Declaration, usize)>)
    requires
        p <= toks@.len(),
    ensures
        res is Some <==> declaration(token_views(toks@), p as int) is Some,
        res matches Some((d, q)) ==> declaration(token_views(toks@), p as int) == Some((d@, q as int)),
    decreases toks@.len() - p, 0int,
{
    if tok_is_exec(toks, p, Token::Colon) {
        match style_ident_exec(toks, p + 1) {
            Some(k) => {
                return match expr_exec(toks, p + 2) {
                    Some((e, q)) => Some((Declaration::Simple { property: k, value: e }, q)),
                    None => None,
                };
            },
            None => {},
        }
    }
    if tok_is_exec(toks, p, Token::LParenthesis) {
        match style_ident_exec(toks, p + 1) {
            Some(k) => {
                let (ds, q) = declarations_exec(toks, p + 2);
                if tok_is_exec(toks, q, Token::RParenthesis) {
                    Some((Declaration::Nested { property: k, value: ds }, q + 1))
                } else {
                    None
                }
            },
            None => None,
        }
    } else {
        None
    }
}

fn declarations_exec(toks: &Vec<Token>, p: usize) -> (res: (Vec<Declaration>, usize))
    requires
        p <= toks@.len(),
    ensures
        declarations_from(token_views(toks@), p as int, Seq::empty()) == (decls_view(res.0@), res.1 as int),
        p <= res.1 <= toks@.len(),
    decreases toks@.len() - p, 1int,
{
    let ghost t = token_views(toks@);
    let mut out: Vec<Declaration> = Vec::new();
    let mut q = p;
    assert(decls_view(out@) == Seq::<SpecDeclaration>::empty());
    loop
        invariant
            p <= q <= toks@.len(),
            t == token_views(toks@),
            declarations_from(t, p as int, Seq::empty()) == declarations_from(t, q as int, decls_view(out@)),
        ensures
            p <= q <= toks@.len(),
            declarations_from(t, p as int, Seq::empty()) == (decls_view(out@), q as int),
        decreases toks@.len() - q,
    {
        proof {
            lemma_declaration_bounds(t, q as int);
        }
        match declaration_exec(toks, q) {
            Some((d, q2)) => {
                let ghost before = out@;
                out.push(d);
                assert(out@.drop_last() == before);
                q = q2;
            },
            None => {
                break;
            },
        }
    }
    (out, q)
}

fn rule_declarations_exec(toks: &Vec<Token>, p: usize) -> (res: (Vec<Declaration>, usize))
    requires
        p <= toks@.len(),
    ensures
        rule_declarations(token_views(toks@), p as int, Seq::empty()) == (decls_view(res.0@), res.1 as int),
        p <= res.1 <= toks@.len(),
{
    let ghost t = token_views(toks@);
    let mut out: Vec<Declaration> = Vec::new();
    let mut q = p;
    assert(decls_view(out@) == Seq::<SpecDeclaration>::empty());
    loop
        invariant
            p <= q <= toks@.len(),
            t == token_views(toks@),
            rule_declarations(t, p as int, Seq::empty()) == rule_declarations(t, q as int, decls_view(out@)),
        ensures
            p <= q <= toks@.len(),
            rule_declarations(t, p as int, Seq::empty()) == (decls_view(out@), q as int),
        decreases toks@.len() - q,
    {
        let q0 = skip_exec(toks, q);
        proof {
            lemma_declaration_bounds(t, q0 as int);
        }
        match declaration_exec(toks, q0) {
            Some((d, q2)) => {
                let q3 = skip_exec(toks, q2);
                let ghost before = out@;
                out.push(d);
                assert(out@.drop_last() == before);
                q = q3;
            },
            None => {
                break;
            },
        }
    }
    (out, q)
}

fn rule_exec(toks: &Vec<Token>, p: usize) -> (res: Option<(Rule, usize)>)
    requires
        p <= toks@.len(),
    ensures
        res is Some <==> rule(token_views(toks@), p as int) is Some,
        res matches Some((r, q)) ==> rule(token_views(toks@), p as int) == Some((r@, q as int)),
{
    if tok_is_exec(toks, p, Token::LParenthesis) {
        match style_ident_exec(toks, p + 1) {
            Some(k) => {
                let (ds, q) = rule_declarations_exec(toks, p + 2);
                return if tok_is_exec(toks, q, Token::RParenthesis) {
                    Some((Rule { selector: Selector::Tag(k), declarations: ds }, q + 1))
                } else {
                    None
                };
            },
            None => {},
        }
    }
    if tok_is_exec(toks, p, Token::LParenthesis) && tok_is_exec(toks, p + 1, Token::Dot) {
        match style_ident_exec(toks, p + 2) {
            Some(k) => {
                let (ds, q) = rule_declarations_exec(toks, p + 3);
                if tok_is_exec(toks, q, Token::RParenthesis) {
                    Some((Rule { selector: Selector::Class(k), declarations: ds }, q + 1))
                } else {
                    None
                }
            },
            None => None,
        }
    } else {
        None
    }
}

fn stylesheet_exec(toks: &Vec<Token>, p: usize) -> (res: Option<(Stylesheet, usize)>)
    requires
        p <= toks@.len(),
    ensures
        res is Some <==> stylesheet(token_views(toks@), p as int) is Some,
        res matches Some((s, q)) ==> stylesheet(token_views(toks@), p as int) == Some((s@, q as int)),
{
    let ghost t = token_views(toks@);
    if !(tok_is_exec(toks, p, Token::LParenthesis) && tok_is_exec(toks, p + 1, Token::Stylesheet)) {
        return None;
    }
    let start = skip_exec(toks, p + 2);
    let mut out: Vec<Rule> = Vec::new();
    let mut q = start;
    assert(rules_view(out@) == Seq::<SpecRule>::empty());
    loop
        invariant
            start <= q <= toks@.len(),
            t == token_views(toks@),
            rules_from(t, start as int, Seq::empty()) == rules_from(t, q as int, rules_view(out@)),
        ensures
            start <= q <= toks@.len(),
            rules_from(t, start as int, Seq::empty()) == (rules_view(out@), q as int),
        decreases toks@.len() - q,
    {
        match rule_exec(toks, q) {
            Some((r, q2)) => {
                let ghost before = out@;
                out.push(r);
                assert(rules_view(out@) == rules_view(before).push(out@.last()@));
                if q2 > q {
                    q = q2;
                } else {
                    proof {
                        lemma_rule_bounds(t, q as int);
                    }
                    break;
                }
            },
            None => {
                break;
            },
        }
    }
    let q0 = skip_exec(toks, q);
    if tok_is_exec(toks, q0, Token::RParenthesis) {
        Some((Stylesheet { rules: out }, q0 + 1))
    } else {
        None
    }
}

pub proof fn lemma_rule_bounds(t: Seq<SpecToken>, p: int)
    requires
        0 <= p <= t.len(),
    ensures
        rule(t, p) matches Some((_, q)) ==> p < q <= t.len(),
{
    if p + 2 <= t.len() {
        lemma_rule_declarations_bounds(t, p + 2, Seq::empty());
    }
    if p + 3 <= t.len() {
        lemma_rule_declarations_bounds(t, p + 3, Seq::empty());
    }
}

pub proof fn lemma_rule_declarations_bounds(t: Seq<SpecToken>, p: int, acc: Seq<SpecDeclaration>)
    requires
        0 <= p <= t.len(),
    ensures
        p <= rule_declarations(t, p, acc).1 <= t.len(),
    decreases t.len() - p,
{
    let p0 = skip_comments(t, p);
    match declaration(t, p0) {
        Some((d, q)) => {
            let q0 = skip_comments(t, q);
            if p < q0 <= t.len() {
                lemma_rule_declarations_bounds(t, q0, acc.push(d));
            }
        },
        None => {},
    }
}

pub proof fn lemma_stylesheet_bounds(t: Seq<SpecToken>, p: int)
    requires
        0 <= p <= t.len(),
    ensures
        stylesheet(t, p) matches Some((_, q)) ==> p < q <= t.len(),
{
    if p + 2 <= t.len() {
        lemma_skip_bounds(t, p + 2);
        let s0 = skip_comments(t, p + 2);
        lemma_rules_bounds(t, s0, Seq::empty());
        lemma_skip_bounds(t, rules_from(t, s0, Seq::empty()).1);
    }
}

pub proof fn lemma_rules_bounds(t: Seq<SpecToken>, p: int, acc: Seq<SpecRule>)
    requires
        0 <= p <= t.len(),
    ensures
        p <= rules_from(t, p, acc).1 <= t.len(),
    decreases t.len() - p,
{
    match rule(t, p) {
        Some((r, q)) => if p < q <= t.len() {
            lemma_rules_bounds(t, q, acc.push(r));
        },
        None => {},
    }
}

/// The result of reading a layout.
pub enum ParseOutcome {
    /// The layout was read.
    Parsed(Uheex),
    /// The text is not a layout.
    Rejected,
    /// An `interval` attribute is not a valid duration; reading it stops the program.
    Panicked,
}

impl View for ParseOutcome {
    type V = SpecOutcome;

    open spec fn view(&self) -> SpecOutcome {
        match self {
            ParseOutcome::Parsed(u) => SpecOutcome::Parsed(u@),
            ParseOutcome::Rejected => SpecOutcome::Rejected,
            ParseOutcome::Panicked => SpecOutcome::Panicked,
        }
    }
}

fn document_exec(toks: &Vec<Token>) -> (res: ParseOutcome)
    ensures
        res@ == document(token_views(toks@)),
{
    let ghost t = token_views(toks@);
    let p0 = skip_exec(toks, 0);
    let p00 = skip_exec(toks, p0);
    let (globals, p1) = match declare_exec(toks, p00) {
        Read::Done(vs, q) => (vs, skip_exec(toks, q)),
        Read::Fail => (Vec::new(), p0),
        Read::Panic => {
            return ParseOutcome::Panicked;
        },
    };
    assert(nodes_view(Seq::<VNode>::empty()) == Seq::<SpecVNode>::empty());
    let p1s = skip_exec(toks, p1);
    proof {
        lemma_node_bounds(t, p1s as int);
        lemma_skip_bounds(t, p1s as int);
    }
    match node_exec(toks, p1s) {
        Some((root, q)) => {
            let p2 = skip_exec(toks, q);
            let p2s = skip_exec(toks, p2);
            proof {
                lemma_stylesheet_bounds(t, p2s as int);
            }
            let (ss, p3) = match stylesheet_exec(toks, p2s) {
                Some((s, r)) => (Some(s), skip_exec(toks, r)),
                None => (None, p2),
            };
            let end = skip_exec(toks, p3);
            if end == toks.len() {
                ParseOutcome::Parsed(Uheex { globals, root, stylesheet: ss })
            } else {
                ParseOutcome::Rejected
            }
        },
        None => ParseOutcome::Rejected,
    }
}

/// The tokens of a vector of spanned tokens.
fn tokens_only(v: Vec<Spanned>) -> (res: Vec<Token>)
    ensures
        token_views(res@) == tokens_of(spanned_view(v@)),
{
    let mut out: Vec<Token> = Vec::new();
    let mut v = v;
    let ghost orig = v@;
    let mut rest: Vec<Token> = Vec::new();
    while v.len() > 0
        invariant
            v@.len() <= orig.len(),
            v@ == orig.take(v@.len() as int),
            rest@.len() == orig.len() - v@.len(),
            forall|i: int| 0 <= i < rest@.len() ==> #[trigger] rest@[i]@ == orig[orig.len() - 1 - i].token@,
        decreases v@.len(),
    {
        let s = v.pop().unwrap();
        rest.push(s.token);
    }
    while rest.len() > 0
        invariant
            out@.len() + rest@.len() == orig.len(),
            forall|i: int| 0 <= i < rest@.len() ==> #[trigger] rest@[i]@ == orig[orig.len() - 1 - i].token@,
            forall|i: int| 0 <= i < out@.len() ==> #[trigger] out@[i]@ == orig[i].token@,
        decreases rest@.len(),
    {
        let tk = rest.pop().unwrap();
        out.push(tk);
    }
    assert(token_views(out@) == tokens_of(spanned_view(orig)));
    out
}

/// Reads the layout written in `code`.
pub fn parse_document(code: &str) -> (res: ParseOutcome)
    ensures
        res@ == parse_spec(code@),
{
    let spanned = lex(code);
    let toks = tokens_only(spanned);
    document_exec(&toks)
}

} // verus!
