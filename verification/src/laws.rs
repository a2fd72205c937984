use vstd::prelude::*;

use crate::codegen::{all_renderable, height, max_height, operator_text, renderable};
use crate::parser::{
    SpecOutcome, attrs, attrs_from, document, lemma_attrs_bounds, lemma_node_bounds, lemma_plus_bounds,
    lemma_skip_bounds, kind_of, node, node_body, nodes_plus, nodes_star, op_at, parse_spec, skip_comments, tok_is,
};
use crate::tokens::{
    SpecSpanned, SpecToken, law_token_text_reads_back, lemma_next_token_advances, lemma_runs, lex_from, lex_spec,
    token_text, tokens_of,
};
use crate::types::{BinaryOperator, SpecVNode, WidgetKind};

verus! {

proof fn lemma_star_ok(t: Seq<SpecToken>, p: int, acc: Seq<SpecVNode>)
    requires
        0 <= p <= t.len(),
        all_renderable(acc),
    ensures
        all_renderable(nodes_star(t, p, acc).0),
        nodes_star(t, p, acc).0.len() >= acc.len(),
        max_height(nodes_star(t, p, acc).0) <= max_height(acc) || max_height(nodes_star(t, p, acc).0) <= nodes_star(t, p, acc).1 - p,
    decreases t.len() - p,
{
    match node(t, p) {
        Some((n, q)) => if p < q <= t.len() {
            lemma_node_ok(t, p);
            assert(acc.push(n).drop_last() == acc);
            lemma_star_ok(t, q, acc.push(n));
            lemma_star_end(t, q, acc.push(n));
        },
        None => {},
    }
}

proof fn lemma_star_end(t: Seq<SpecToken>, p: int, acc: Seq<SpecVNode>)
    requires
        0 <= p <= t.len(),
    ensures
        p <= nodes_star(t, p, acc).1,
{
    crate::parser::lemma_star_bounds(t, p, acc);
}

proof fn lemma_plus_ok(t: Seq<SpecToken>, p: int)
    requires
        0 <= p <= t.len(),
    ensures
        nodes_plus(t, p) matches Some((s, q)) ==> s.len() >= 1 && all_renderable(s) && max_height(s) <= q - p,
    decreases t.len() - p, 4int,
{
    if let Some((n, q)) = node(t, p) {
        if p < q <= t.len() {
            lemma_node_ok(t, p);
            let one = seq![n];
            assert(one.drop_last() == Seq::<SpecVNode>::empty());
            assert(one.last() == n);
            assert(all_renderable(Seq::<SpecVNode>::empty()));
            assert(max_height(Seq::<SpecVNode>::empty()) == 0);
            assert(all_renderable(one));
            assert(max_height(one) == height(n));
            lemma_star_ok(t, q, one);
            lemma_star_end(t, q, one);
        }
    }
}

proof fn lemma_body_ok(t: Seq<SpecToken>, p: int)
    requires
        0 <= p <= t.len(),
    ensures
        node_body(t, p) matches Some((n, q)) ==> renderable(n) && height(n) <= q - p,
    decreases t.len() - p, 2int,
{
    if 0 <= p < t.len() {
        lemma_attrs_bounds(t, p + 1, Map::empty());
        let q = attrs(t, p + 1).1;
        match t[p] {
            SpecToken::Window => {
                lemma_plus_ok(t, q);
            },
            SpecToken::Identifier(_) => {
                lemma_plus_ok(t, q);
                if let Some((kids, r)) = nodes_plus(t, q) {
                    if kids.len() > 0 {
                        lemma_first_height(kids);
                        lemma_first_renderable(kids);
                    }
                }
            },
            SpecToken::Then => {
                lemma_node_ok(t, q);
            },
            SpecToken::Repeat => {
                lemma_node_ok(t, q);
            },
            _ => {},
        }
    }
}

proof fn lemma_node_ok(t: Seq<SpecToken>, p: int)
    requires
        0 <= p <= t.len(),
    ensures
        node(t, p) matches Some((n, q)) ==> renderable(n) && height(n) <= q - p,
    decreases t.len() - p, 3int,
{
    let p0 = skip_comments(t, p);
    lemma_skip_bounds(t, p);
    if tok_is(t, p0, SpecToken::LParenthesis) {
        lemma_body_ok(t, p0 + 1);
        if let Some((_, q)) = node_body(t, p0 + 1) {
            lemma_skip_bounds(t, q + 1);
        }
    }
}

proof fn lemma_first_height(s: Seq<SpecVNode>)
    requires
        s.len() > 0,
    ensures
        height(s[0]) <= max_height(s),
    decreases s.len(),
{
    if s.len() > 1 {
        lemma_first_height(s.drop_last());
    }
}

proof fn lemma_first_renderable(s: Seq<SpecVNode>)
    requires
        s.len() > 0,
        all_renderable(s),
    ensures
        renderable(s[0]),
    decreases s.len(),
{
    if s.len() > 1 {
        lemma_first_renderable(s.drop_last());
    }
}

proof fn lemma_lex_len(s: Seq<char>, i: int)
    requires
        0 <= i <= s.len(),
    ensures
        lex_from(s, i).len() <= s.len() - i,
    decreases s.len() - i,
{
    if i < s.len() {
        if crate::tokens::is_space(s[i]) {
            lemma_runs(s, i + 1);
            lemma_lex_len(s, crate::tokens::space_end(s, i + 1));
        } else {
            lemma_next_token_advances(s, i);
            lemma_lex_len(s, crate::tokens::next_token(s, i).1);
        }
    }
}

/// Every layout the parser accepts can be turned into Slint code: each label
/// it reaches has a child, and its nesting is no deeper than the text is long.
pub proof fn law_parsed_layouts_render(code: Seq<char>)
    ensures
        parse_spec(code) matches SpecOutcome::Parsed(u) ==> renderable(u.root) && height(u.root) <= code.len(),
{
    let t = tokens_of(lex_spec(code));
    lemma_lex_len(code, 0);
    assert(t.len() == lex_spec(code).len());
    let p0 = skip_comments(t, 0);
    lemma_skip_bounds(t, 0);
    lemma_skip_bounds(t, p0);
    let d = crate::parser::declare(t, skip_comments(t, p0));
    if let crate::parser::Step::Done(_, q) = d {
        crate::parser::lemma_declare_bounds(t, skip_comments(t, p0));
        lemma_skip_bounds(t, q);
    }
    let p1 = match d {
        crate::parser::Step::Done(_, q) => skip_comments(t, q),
        _ => p0,
    };
    lemma_skip_bounds(t, p1);
    lemma_node_ok(t, skip_comments(t, p1));
    lemma_node_bounds(t, skip_comments(t, p1));
}

/// A widget's name decides its kind: `label`, `row` and `column` name the
/// three layouts, each a kind of its own, and every other name is a custom
/// widget; a widget read from the tokens has the kind its name says.
pub proof fn law_widget_kind_follows_name(t: Seq<SpecToken>, p: int, name: Seq<char>)
    ensures
        (kind_of(name) == WidgetKind::Label) <==> name == "label"@,
        (kind_of(name) == WidgetKind::Row) <==> name == "row"@,
        (kind_of(name) == WidgetKind::Column) <==> name == "column"@,
        (kind_of(name) == WidgetKind::Custom) <==> (name != "label"@ && name != "row"@ && name != "column"@),
        0 <= p < t.len() && t[p] == SpecToken::Identifier(name) && node_body(t, p) is Some
            ==> (node_body(t, p).unwrap().0 matches SpecVNode::Widget { kind, .. } && kind == kind_of(name)),
{
    reveal_strlit("label");
    reveal_strlit("row");
    reveal_strlit("column");
    assert("label"@.len() == 5 && "row"@.len() == 3 && "column"@.len() == 6);
    assert("label"@ != "row"@ && "label"@ != "column"@ && "row"@ != "column"@);
}

/// Whether `op` compares its operands.
pub open spec fn is_comparison(op: BinaryOperator) -> bool {
    op is Eq || op is NotEq || op is Gt || op is Lt || op is Gte || op is Lte
}

/// A condition keeps the comparison the layout wrote. Each of `==`, `!=`,
/// `>` and `<` is written as the one token that the layout language itself
/// reads as that comparison; `>=` and `<=` are `>` and `<` followed by `=`;
/// and different comparisons are written differently.
pub proof fn law_comparisons_written_as_read(op: BinaryOperator, other: BinaryOperator)
    ensures
        (op is Eq || op is NotEq || op is Gt || op is Lt) ==> (tokens_of(lex_spec(operator_text(op))).len() == 1
            && op_at(tokens_of(lex_spec(operator_text(op))), 0) == Some(op)),
        operator_text(BinaryOperator::Gte) == operator_text(BinaryOperator::Gt) + "="@,
        operator_text(BinaryOperator::Lte) == operator_text(BinaryOperator::Lt) + "="@,
        is_comparison(op) && is_comparison(other) && op != other ==> operator_text(op) != operator_text(other),
        !is_comparison(op) ==> operator_text(op) == "<op>"@,
{
    reveal_strlit("==");
    reveal_strlit("!=");
    reveal_strlit(">");
    reveal_strlit("<");
    reveal_strlit(">=");
    reveal_strlit("<=");
    reveal_strlit("=");
    let tok = match op {
        BinaryOperator::Eq => SpecToken::Eq,
        BinaryOperator::NotEq => SpecToken::NotEq,
        BinaryOperator::Gt => SpecToken::Gt,
        _ => SpecToken::Lt,
    };
    law_token_text_reads_back(tok);
    if op is Eq || op is NotEq || op is Gt || op is Lt {
        assert(token_text(tok) == operator_text(op));
    }
    assert(seq!['>'] + seq!['='] == seq!['>', '=']);
    assert(seq!['<'] + seq!['='] == seq!['<', '=']);
}

} // verus!
