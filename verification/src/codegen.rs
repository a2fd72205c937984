use vstd::prelude::*;

use crate::duration::digits_value;
use crate::text::{chars_of, owned, push_char, push_str, string_from, trim, trim_bounds};
use crate::types::{
    Attrs, BinaryOperator, Expr, Numeral, SpecExpr, SpecValue, SpecVNode, SpecUheex, Uheex,
    VNode, Value, WidgetKind, numeral_ok, nodes_view,
};
use crate::tokens::is_digit;

verus! {

/// The Slint code every generated layout starts with: the window component,
/// the hidden password field and its callbacks.
pub open spec fn base_layout() -> Seq<char> {
    "\n    import { LineEdit } from \"std-widgets.slint\";\n    export component BaseLayout inherits Window {\n    \n    in-out property<string> passwd <=> password.text;\n\n    callback submit <=> password.accepted;\n\n    forward-focus: password;\n\n    Rectangle {\n        opacity: 0;\n        clip: true;\n        width: 10px;\n        height: 10px;\n\n        password := LineEdit {\n            enabled: true;\n            placeholder-text: \"Enter password\";\n            input-type: InputType.password;\n        }\n    }\n\n    "@
}

fn base_layout_exec() -> (res: &'static str)
    ensures
        res@ == base_layout(),
{
    "\n    import { LineEdit } from \"std-widgets.slint\";\n    export component BaseLayout inherits Window {\n    \n    in-out property<string> passwd <=> password.text;\n\n    callback submit <=> password.accepted;\n\n    forward-focus: password;\n\n    Rectangle {\n        opacity: 0;\n        clip: true;\n        width: 10px;\n        height: 10px;\n\n        password := LineEdit {\n            enabled: true;\n            placeholder-text: \"Enter password\";\n            input-type: InputType.password;\n        }\n    }\n\n    "
}

/// `unit` written `n` times.
pub open spec fn rep(unit: Seq<char>, n: nat) -> Seq<char>
    decreases n,
{
    if n == 0 {
        Seq::empty()
    } else {
        rep(unit, (n - 1) as nat) + unit
    }
}

/// Indentation for nesting level `n`: four spaces per level.
pub open spec fn indent(n: nat) -> Seq<char> {
    rep("    "@, n)
}

/// The decimal digits of `n`.
pub open spec fn decimal(n: nat) -> Seq<char>
    decreases n,
{
    if n < 10 {
        seq![(n + '0' as nat) as char]
    } else {
        decimal(n / 10).push(((n % 10) + '0' as nat) as char)
    }
}

/// `d` without its leading zeros.
pub open spec fn strip_zeros(d: Seq<char>) -> Seq<char>
    decreases d.len(),
{
    if d.len() > 0 && d[0] == '0' {
        strip_zeros(d.drop_first())
    } else {
        d
    }
}

/// A written number as it is printed: without leading zeros, `0` for zero.
pub open spec fn number_text(d: Seq<char>) -> Seq<char> {
    if strip_zeros(d).len() == 0 {
        seq!['0']
    } else {
        strip_zeros(d)
    }
}

/// A written number converted to `usize`, saturating at `usize::MAX`.
pub open spec fn saturate_usize(d: Seq<char>) -> nat {
    if digits_value(d) > usize::MAX {
        usize::MAX as nat
    } else {
        digits_value(d)
    }
}

/// A written number converted to `i32`, saturating at `i32::MAX`.
pub open spec fn saturate_i32(d: Seq<char>) -> nat {
    if digits_value(d) > i32::MAX {
        i32::MAX as nat
    } else {
        digits_value(d)
    }
}

/// The text value of attribute `key`, or `default` when it is absent or not a text value.
pub open spec fn text_attr(a: Map<Seq<char>, SpecExpr>, key: Seq<char>, default: Seq<char>) -> Seq<char> {
    if a.contains_key(key) && a[key] is Value && a[key]->Value_0 is String {
        a[key]->Value_0->String_0
    } else {
        default
    }
}

/// Item `i` of an array attribute as an anchor name, `center` by default.
pub open spec fn anchor_item(arr: Seq<SpecExpr>, i: int) -> Seq<char> {
    if i < arr.len() && arr[i] is Value && arr[i]->Value_0 is String {
        arr[i]->Value_0->String_0
    } else {
        "center"@
    }
}

/// Item `i` of an `absolute` array as a coordinate: text as is, a number in pixels, `0px` otherwise.
pub open spec fn coordinate(arr: Seq<SpecExpr>, i: int) -> Seq<char> {
    if i < arr.len() && arr[i] is Value && arr[i]->Value_0 is String {
        arr[i]->Value_0->String_0
    } else if i < arr.len() && arr[i] is Value && arr[i]->Value_0 is Number {
        decimal(saturate_i32(arr[i]->Value_0->Number_0)) + "px"@
    } else {
        "0px"@
    }
}

/// The Slint properties written for a widget's attributes.
pub open spec fn attrs_text(kind: WidgetKind, a: Map<Seq<char>, SpecExpr>) -> Seq<char> {
    match kind {
        WidgetKind::Label => {
            let pos = if a.contains_key("absolute"@) && a["absolute"@] is Array {
                let arr = a["absolute"@]->Array_0;
                "x: "@ + coordinate(arr, 0) + ";\n"@ + "y: "@ + coordinate(arr, 1) + ";\n"@
            } else {
                Seq::empty()
            };
            pos + "color: "@ + text_attr(a, "color"@, "#FFFFFF"@) + ";\n"@
        },
        WidgetKind::Row | WidgetKind::Column => {
            "alignment: "@ + text_attr(a, "align"@, "center"@) + ";\n"@
                + "spacing: "@ + text_attr(a, "spacing"@, "0"@) + ";\n"@
                + "padding: "@ + text_attr(a, "padding"@, "0"@) + ";\n"@
        },
        WidgetKind::Rectangle => {
            "width: "@ + text_attr(a, "width"@, "100px"@) + ";\n"@
                + "height: "@ + text_attr(a, "height"@, "100px"@) + ";\n"@
                + "background: "@ + text_attr(a, "background"@, "transparent"@) + ";\n"@
        },
        _ => Seq::empty(),
    }
}

/// One side of a condition.
pub open spec fn operand_text(e: SpecExpr) -> Seq<char> {
    match e {
        SpecExpr::Value(SpecValue::String(s)) => "\""@ + s + "\""@,
        SpecExpr::Value(SpecValue::Number(n)) => number_text(n),
        SpecExpr::Binding(name) => if name == "count"@ {
            "passwd.character-count"@
        } else {
            "<expr>"@
        },
        _ => "<expr>"@,
    }
}

pub open spec fn operator_text(op: BinaryOperator) -> Seq<char> {
    match op {
        BinaryOperator::Eq => "=="@,
        BinaryOperator::NotEq => "!="@,
        BinaryOperator::Gt => ">"@,
        BinaryOperator::Lt => "<"@,
        BinaryOperator::Gte => ">="@,
        BinaryOperator::Lte => "<="@,
        _ => "<op>"@,
    }
}

/// A condition: only a binary comparison is written.
pub open spec fn condition_text(e: SpecExpr) -> Seq<char> {
    match e {
        SpecExpr::Binary { left, operator, right } => operand_text(*left) + " "@ + operator_text(operator) + " "@ + operand_text(*right),
        _ => Seq::empty(),
    }
}

/// The repeat count of a `repeat` node.
pub open spec fn times_text(e: SpecExpr) -> Seq<char> {
    match e {
        SpecExpr::Value(SpecValue::Number(n)) => decimal(saturate_usize(n)),
        SpecExpr::Binding(name) => if name == "count"@ {
            "passwd.character-count"@
        } else {
            Seq::empty()
        },
        _ => Seq::empty(),
    }
}

/// The Slint code for a node at nesting level `i`.
pub open spec fn node_text(n: SpecVNode, i: nat) -> Seq<char>
    decreases n,
{
    match n {
        SpecVNode::Window { attributes, child } => {
            let (ax, ay) = if attributes.contains_key("anchor"@) && attributes["anchor"@] is Array {
                (anchor_item(attributes["anchor"@]->Array_0, 0), anchor_item(attributes["anchor"@]->Array_0, 1))
            } else {
                ("center"@, "center"@)
            };
            indent(i) + "Rectangle {\n"@
                + indent(i + 1) + "background: "@ + text_attr(attributes, "background"@, "#151515"@) + ";\n"@
                + indent(i + 1) + "HorizontalLayout {\n"@
                + rep("        "@, i + 1) + "alignment: "@ + ax + "; \n"@
                + rep("        "@, i + 1) + "VerticalLayout {\n"@
                + rep("            "@, i + 1) + "alignment: "@ + ay + "; \n"@
                + nodes_text(child, i + 1)
                + "}}\n"@
                + indent(i) + "}\n"@
        },
        SpecVNode::Widget { kind, attributes, child } => match kind {
            WidgetKind::Label => {
                indent(i) + "Text {\n"@
                    + indent(i + 1) + "text: "@ + trim(if child.len() > 0 { node_text(child[0], i + 1) } else { Seq::empty() }) + ";\n"@
                    + indent(i + 1) + attrs_text(kind, attributes) + "\n"@
                    + indent(i) + "}\n"@
            },
            WidgetKind::Row => {
                indent(i) + "HorizontalLayout {\n"@
                    + indent(i + 1) + attrs_text(kind, attributes) + "\n"@
                    + nodes_text(child, i + 1)
                    + indent(i) + "}\n"@
            },
            WidgetKind::Column => {
                indent(i) + "VerticalLayout {\n"@
                    + indent(i + 1) + attrs_text(kind, attributes) + "\n"@
                    + nodes_text(child, i + 1)
                    + indent(i) + "}\n"@
            },
            WidgetKind::Rectangle => {
                indent(i) + "Rectangle {\n"@
                    + indent(i + 1) + attrs_text(kind, attributes) + "\n"@
                    + nodes_text(child, i + 1)
                    + indent(i) + "}\n"@
            },
            _ => Seq::empty(),
        },
        SpecVNode::Then { cond, child } => {
            indent(i) + "if ("@ + condition_text(cond) + "): "@ + node_text(*child, 0) + indent(i) + "\n"@
        },
        SpecVNode::Repeat { times, child } => {
            indent(i) + "for _ in "@ + times_text(times) + ": "@ + node_text(*child, 0) + indent(i) + "\n"@
        },
        SpecVNode::Binding(name) => indent(i) + name + "\n"@,
        SpecVNode::String(s) => "\""@ + s + "\"\n"@,
        _ => Seq::empty(),
    }
}

/// The Slint code for a sequence of sibling nodes at nesting level `i`.
pub open spec fn nodes_text(s: Seq<SpecVNode>, i: nat) -> Seq<char>
    decreases s,
{
    if s.len() == 0 {
        Seq::empty()
    } else {
        nodes_text(s.drop_last(), i) + node_text(s.last(), i)
    }
}

/// True when every label the code generation reaches has a child to show.
pub open spec fn renderable(n: SpecVNode) -> bool
    decreases n,
{
    match n {
        SpecVNode::Window { child, .. } => all_renderable(child),
        SpecVNode::Widget { kind, child, .. } => match kind {
            WidgetKind::Label => child.len() > 0 && renderable(child[0]),
            WidgetKind::Row | WidgetKind::Column | WidgetKind::Rectangle => all_renderable(child),
            _ => true,
        },
        SpecVNode::Then { child, .. } => renderable(*child),
        SpecVNode::Repeat { child, .. } => renderable(*child),
        _ => true,
    }
}

pub open spec fn all_renderable(s: Seq<SpecVNode>) -> bool
    decreases s,
{
    if s.len() == 0 {
        true
    } else {
        all_renderable(s.drop_last()) && renderable(s.last())
    }
}

/// How many levels of nesting the code generation goes through below a node.
pub open spec fn height(n: SpecVNode) -> nat
    decreases n,
{
    match n {
        SpecVNode::Window { child, .. } => 1 + max_height(child),
        SpecVNode::Widget { kind, child, .. } => match kind {
            WidgetKind::Label => if child.len() > 0 { 1 + height(child[0]) } else { 1 },
            WidgetKind::Row | WidgetKind::Column | WidgetKind::Rectangle => 1 + max_height(child),
            _ => 0,
        },
        SpecVNode::Then { child, .. } => height(*child),
        SpecVNode::Repeat { child, .. } => height(*child),
        _ => 0,
    }
}

pub open spec fn max_height(s: Seq<SpecVNode>) -> nat
    decreases s,
{
    if s.len() == 0 {
        0
    } else {
        let a = max_height(s.drop_last());
        let b = height(s.last());
        if a > b { a } else { b }
    }
}

/// The property a global variable declares.
pub open spec fn global_text(g: SpecVNode) -> Seq<char> {
    match g {
        SpecVNode::Variable { name, value, .. } => match value {
            SpecExpr::Value(SpecValue::String(s)) => "in-out property<string> "@ + name + ": \""@ + s + "\";\n"@,
            SpecExpr::Value(SpecValue::Number(n)) => "in-out property<int> "@ + name + ": "@ + number_text(n) + ";\n"@,
            _ => Seq::empty(),
        },
        _ => Seq::empty(),
    }
}

pub open spec fn globals_text(s: Seq<SpecVNode>) -> Seq<char>
    decreases s.len(),
{
    if s.len() == 0 {
        Seq::empty()
    } else {
        globals_text(s.drop_last()) + global_text(s.last())
    }
}

/// The Slint component generated for a layout.
pub open spec fn slint_text(u: SpecUheex) -> Seq<char> {
    base_layout() + globals_text(u.globals) + node_text(u.root, 0) + "}"@
}

pub proof fn lemma_nodes_view_index(v: Seq<VNode>)
    ensures
        nodes_view(v).len() == v.len(),
        forall|k: int| 0 <= k < v.len() ==> #[trigger] nodes_view(v)[k] == v[k]@,
    decreases v.len(),
{
    if v.len() > 0 {
        lemma_nodes_view_index(v.drop_last());
    }
}

pub proof fn lemma_nodes_view_take(v: Seq<VNode>, k: int)
    requires
        0 <= k < v.len(),
    ensures
        nodes_view(v.take(k + 1)) == nodes_view(v.take(k)).push(v[k]@),
{
    assert(v.take(k + 1).drop_last() == v.take(k));
}

pub proof fn lemma_all_renderable(s: Seq<SpecVNode>, k: int)
    requires
        all_renderable(s),
        0 <= k < s.len(),
    ensures
        renderable(s[k]),
    decreases s.len(),
{
    if k < s.len() - 1 {
        lemma_all_renderable(s.drop_last(), k);
    }
}

pub proof fn lemma_max_height(s: Seq<SpecVNode>, k: int)
    requires
        0 <= k < s.len(),
    ensures
        height(s[k]) <= max_height(s),
    decreases s.len(),
{
    if k < s.len() - 1 {
        lemma_max_height(s.drop_last(), k);
    }
}

/// Appends `unit` `n` times.
fn push_rep(s: &mut String, unit: &str, n: usize)
    ensures
        final(s)@ == old(s)@ + rep(unit@, n as nat),
{
    let ghost start = s@;
    let mut k: usize = 0;
    while k < n
        invariant
            k <= n,
            s@ == start + rep(unit@, k as nat),
        decreases n - k,
    {
        push_str(s, unit);
        k += 1;
    }
}

/// The decimal digits of `n`.
pub fn decimal_exec(n: u64) -> (res: String)
    ensures
        res@ == decimal(n as nat),
    decreases n,
{
    if n < 10 {
        let mut s = String::new();
        push_char(&mut s, ((n as u32) + ('0' as u32)) as u8 as char);
        assert(s@ == seq![(n + '0' as nat) as char]);
        s
    } else {
        let mut s = decimal_exec(n / 10);
        push_char(&mut s, (((n % 10) as u32) + ('0' as u32)) as u8 as char);
        s
    }
}

proof fn lemma_value_grows(d: Seq<char>)
    requires
        d.len() > 0,
    ensures
        digits_value(d) >= digits_value(d.drop_last()),
{
}

/// The value of a numeral, saturating at `cap`.
fn numeral_value(n: &Numeral, cap: u64) -> (res: u64)
    requires
        cap >= 9,
    ensures
        res == (if digits_value(n@) > cap { cap as nat } else { digits_value(n@) }),
{
    n.lemma_wf();
    let d = chars_of(n.digits());
    let mut acc: u64 = 0;
    let mut i: usize = 0;
    let mut saturated = false;
    while i < d.len()
        invariant
            0 <= i <= d@.len(),
            d@ == n@,
            numeral_ok(n@),
            cap >= 9,
            saturated ==> digits_value(d@.take(i as int)) > cap,
            !saturated ==> acc as nat == digits_value(d@.take(i as int)) && acc <= cap,
        decreases d@.len() - i,
    {
        assert(is_digit(d@[i as int]));
        assert(d@.take(i + 1).drop_last() == d@.take(i as int));
        let dv = (d[i] as u32 - '0' as u32) as u64;
        if !saturated {
            if acc > (cap - dv) / 10 {
                saturated = true;
                assert(acc * 10 + dv > cap) by (nonlinear_arith)
                    requires
                        acc > (cap - dv) / 10,
                        dv <= 9,
                        cap >= 9,
                ;
            } else {
                assert(acc * 10 + dv <= cap) by (nonlinear_arith)
                    requires
                        acc <= (cap - dv) / 10,
                        dv <= 9,
                        cap >= 9,
                ;
                acc = acc * 10 + dv;
            }
        } else {
            proof {
                lemma_value_grows(d@.take(i + 1));
            }
        }
        i += 1;
    }
    assert(d@.take(d@.len() as int) == d@);
    if saturated {
        cap
    } else {
        acc
    }
}

/// A numeral as it is printed.
pub(crate) fn number_text_exec(n: &Numeral) -> (res: String)
    ensures
        res@ == number_text(n@),
{
    let d = chars_of(n.digits());
    let mut a: usize = 0;
    assert(d@.subrange(0, d@.len() as int) == d@);
    while a < d.len() && d[a] == '0'
        invariant
            0 <= a <= d@.len(),
            d@ == n@,
            strip_zeros(d@.subrange(a as int, d@.len() as int)) == strip_zeros(n@),
        decreases d@.len() - a,
    {
        assert(d@.subrange(a as int, d@.len() as int).drop_first() == d@.subrange(a + 1, d@.len() as int));
        a += 1;
    }
    if a == d.len() {
        let mut s = String::new();
        push_char(&mut s, '0');
        s
    } else {
        string_from(&d, a, d.len())
    }
}

/// The text value of attribute `key`, or `default`.
fn text_attr_exec(a: &Attrs, key: &str, default: &str) -> (res: String)
    ensures
        res@ == text_attr(a@, key@, default@),
{
    match a.get(key) {
        Some(Expr::Value(Value::String(s))) => s.clone(),
        _ => owned(default),
    }
}

fn anchor_item_exec(arr: &Vec<Expr>, i: usize) -> (res: String)
    ensures
        res@ == anchor_item(crate::types::exprs_view(arr@), i as int),
{
    proof {
        lemma_exprs_view_index(arr@);
    }
    if i < arr.len() {
        match &arr[i] {
            Expr::Value(Value::String(s)) => s.clone(),
            _ => owned("center"),
        }
    } else {
        owned("center")
    }
}

fn coordinate_exec(arr: &Vec<Expr>, i: usize) -> (res: String)
    ensures
        res@ == coordinate(crate::types::exprs_view(arr@), i as int),
{
    proof {
        lemma_exprs_view_index(arr@);
    }
    if i < arr.len() {
        match &arr[i] {
            Expr::Value(Value::String(s)) => s.clone(),
            Expr::Value(Value::Number(n)) => {
                let v = numeral_value(n, 2147483647);
                let mut s = decimal_exec(v);
                push_str(&mut s, "px");
                s
            },
            _ => owned("0px"),
        }
    } else {
        owned("0px")
    }
}

pub proof fn lemma_exprs_view_index(v: Seq<Expr>)
    ensures
        crate::types::exprs_view(v).len() == v.len(),
        forall|k: int| 0 <= k < v.len() ==> #[trigger] crate::types::exprs_view(v)[k] == v[k]@,
    decreases v.len(),
{
    if v.len() > 0 {
        lemma_exprs_view_index(v.drop_last());
    }
}

fn attrs_text_exec(kind: &WidgetKind, a: &Attrs) -> (res: String)
    ensures
        res@ == attrs_text(*kind, a@),
{
    let mut s = String::new();
    match kind {
        WidgetKind::Label => {
            match a.get("absolute") {
                Some(Expr::Array(arr)) => {
                    push_str(&mut s, "x: ");
                    let x = coordinate_exec(arr, 0);
                    push_str(&mut s, x.as_str());
                    push_str(&mut s, ";\n");
                    push_str(&mut s, "y: ");
                    let y = coordinate_exec(arr, 1);
                    push_str(&mut s, y.as_str());
                    push_str(&mut s, ";\n");
                },
                _ => {},
            }
            push_str(&mut s, "color: ");
            let c = text_attr_exec(a, "color", "#FFFFFF");
            push_str(&mut s, c.as_str());
            push_str(&mut s, ";\n");
        },
        WidgetKind::Row | WidgetKind::Column => {
            push_str(&mut s, "alignment: ");
            let x = text_attr_exec(a, "align", "center");
            push_str(&mut s, x.as_str());
            push_str(&mut s, ";\n");
            push_str(&mut s, "spacing: ");
            let x = text_attr_exec(a, "spacing", "0");
            push_str(&mut s, x.as_str());
            push_str(&mut s, ";\n");
            push_str(&mut s, "padding: ");
            let x = text_attr_exec(a, "padding", "0");
            push_str(&mut s, x.as_str());
            push_str(&mut s, ";\n");
        },
        WidgetKind::Rectangle => {
            push_str(&mut s, "width: ");
            let x = text_attr_exec(a, "width", "100px");
            push_str(&mut s, x.as_str());
            push_str(&mut s, ";\n");
            push_str(&mut s, "height: ");
            let x = text_attr_exec(a, "height", "100px");
            push_str(&mut s, x.as_str());
            push_str(&mut s, ";\n");
            push_str(&mut s, "background: ");
            let x = text_attr_exec(a, "background", "transparent");
            push_str(&mut s, x.as_str());
            push_str(&mut s, ";\n");
        },
        _ => {},
    }
    s
}

fn operand_text_exec(e: &Expr) -> (res: String)
    ensures
        res@ == operand_text(e@),
{
    match e {
        Expr::Value(Value::String(s)) => {
            let mut r = owned("\"");
            push_str(&mut r, s.as_str());
            push_str(&mut r, "\"");
            r
        },
        Expr::Value(Value::Number(n)) => number_text_exec(n),
        Expr::Binding(name) => if crate::text::str_eq(name.as_str(), "count") {
            owned("passwd.character-count")
        } else {
            owned("<expr>")
        },
        _ => owned("<expr>"),
    }
}

fn operator_text_exec(op: &BinaryOperator) -> (res: &'static str)
    ensures
        res@ == operator_text(*op),
{
    match op {
        BinaryOperator::Eq => "==",
        BinaryOperator::NotEq => "!=",
        BinaryOperator::Gt => ">",
        BinaryOperator::Lt => "<",
        BinaryOperator::Gte => ">=",
        BinaryOperator::Lte => "<=",
        _ => "<op>",
    }
}

fn condition_text_exec(e: &Expr) -> (res: String)
    ensures
        res@ == condition_text(e@),
{
    match e {
        Expr::Binary { left, operator, right } => {
            let mut s = operand_text_exec(left);
            push_str(&mut s, " ");
            push_str(&mut s, operator_text_exec(operator));
            push_str(&mut s, " ");
            let r = operand_text_exec(right);
            push_str(&mut s, r.as_str());
            s
        },
        _ => String::new(),
    }
}

fn times_text_exec(e: &Expr) -> (res: String)
    ensures
        res@ == times_text(e@),
{
    match e {
        Expr::Value(Value::Number(n)) => {
            let v = numeral_value(n, usize::MAX as u64);
            decimal_exec(v)
        },
        Expr::Binding(name) => if crate::text::str_eq(name.as_str(), "count") {
            owned("passwd.character-count")
        } else {
            String::new()
        },
        _ => String::new(),
    }
}

/// The Slint code for the children `child` at nesting level `i`.
fn children_text(child: &Vec<VNode>, i: usize) -> (res: String)
    requires
        all_renderable(nodes_view(child@)),
        i + max_height(nodes_view(child@)) <= usize::MAX,
    ensures
        res@ == nodes_text(nodes_view(child@), i as nat),
    decreases child@,
{
    let mut s = String::new();
    let mut k: usize = 0;
    proof {
        lemma_nodes_view_index(child@);
        assert(child@.take(0) == Seq::<VNode>::empty());
    }
    while k < child.len()
        invariant
            0 <= k <= child@.len(),
            all_renderable(nodes_view(child@)),
            i + max_height(nodes_view(child@)) <= usize::MAX,
            nodes_view(child@).len() == child@.len(),
            forall|j: int| 0 <= j < child@.len() ==> #[trigger] nodes_view(child@)[j] == child@[j]@,
            s@ == nodes_text(nodes_view(child@.take(k as int)), i as nat),
        decreases child@.len() - k,
    {
        proof {
            lemma_all_renderable(nodes_view(child@), k as int);
            lemma_max_height(nodes_view(child@), k as int);
            lemma_nodes_view_take(child@, k as int);
            assert(decreases_to!(child@ => child@[k as int]));
        }
        let t = node_to_slint(&child[k], i);
        push_str(&mut s, t.as_str());
        proof {
            let pre = nodes_view(child@.take(k as int));
            assert(nodes_view(child@.take(k + 1)).drop_last() == pre);
        }
        k += 1;
    }
    assert(child@.take(child@.len() as int) == child@);
    s
}

/// The Slint code for `n` at nesting level `i`.
fn node_to_slint(n: &VNode, i: usize) -> (res: String)
    requires
        renderable(n@),
        i + height(n@) <= usize::MAX,
    ensures
        res@ == node_text(n@, i as nat),
    decreases n,
{
    let mut s = String::new();
    match n {
        VNode::Window { attributes, child } => {
            let (ax, ay) = match attributes.get("anchor") {
                Some(Expr::Array(arr)) => (anchor_item_exec(arr, 0), anchor_item_exec(arr, 1)),
                _ => (owned("center"), owned("center")),
            };
            push_rep(&mut s, "    ", i);
            push_str(&mut s, "Rectangle {\n");
            push_rep(&mut s, "    ", i + 1);
            push_str(&mut s, "background: ");
            let bg = text_attr_exec(attributes, "background", "#151515");
            push_str(&mut s, bg.as_str());
            push_str(&mut s, ";\n");
            push_rep(&mut s, "    ", i + 1);
            push_str(&mut s, "HorizontalLayout {\n");
            push_rep(&mut s, "        ", i + 1);
            push_str(&mut s, "alignment: ");
            push_str(&mut s, ax.as_str());
            push_str(&mut s, "; \n");
            push_rep(&mut s, "        ", i + 1);
            push_str(&mut s, "VerticalLayout {\n");
            push_rep(&mut s, "            ", i + 1);
            push_str(&mut s, "alignment: ");
            push_str(&mut s, ay.as_str());
            push_str(&mut s, "; \n");
            assert(decreases_to!(*n => **child)) by {
                assert(decreases_to!(*n => (*n)->Window_child));
            }
            let c = children_text(child, i + 1);
            push_str(&mut s, c.as_str());
            push_str(&mut s, "}}\n");
            push_rep(&mut s, "    ", i);
            push_str(&mut s, "}\n");
        },
        VNode::Widget { kind, attributes, child } => {
            assert(decreases_to!(*n => **child)) by {
                assert(decreases_to!(*n => (*n)->Widget_child));
            }
            match kind {
                WidgetKind::Label => {
                    push_rep(&mut s, "    ", i);
                    push_str(&mut s, "Text {\n");
                    proof {
                        lemma_nodes_view_index(child@);
                        assert(decreases_to!(**child => child@[0]));
                    }
                    let inner = node_to_slint(&child[0], i + 1);
                    let ic = chars_of(inner.as_str());
                    let (lo, hi) = trim_bounds(&ic, 0, ic.len());
                    assert(ic@.subrange(0, ic@.len() as int) == ic@);
                    let trimmed = string_from(&ic, lo, hi);
                    push_rep(&mut s, "    ", i + 1);
                    push_str(&mut s, "text: ");
                    push_str(&mut s, trimmed.as_str());
                    push_str(&mut s, ";\n");
                    let at = attrs_text_exec(kind, attributes);
                    push_rep(&mut s, "    ", i + 1);
                    push_str(&mut s, at.as_str());
                    push_str(&mut s, "\n");
                    push_rep(&mut s, "    ", i);
                    push_str(&mut s, "}\n");
                },
                WidgetKind::Row | WidgetKind::Column | WidgetKind::Rectangle => {
                    push_rep(&mut s, "    ", i);
                    match kind {
                        WidgetKind::Row => push_str(&mut s, "HorizontalLayout {\n"),
                        WidgetKind::Column => push_str(&mut s, "VerticalLayout {\n"),
                        _ => push_str(&mut s, "Rectangle {\n"),
                    }
                    let at = attrs_text_exec(kind, attributes);
                    push_rep(&mut s, "    ", i + 1);
                    push_str(&mut s, at.as_str());
                    push_str(&mut s, "\n");
                    let c = children_text(child, i + 1);
                    push_str(&mut s, c.as_str());
                    push_rep(&mut s, "    ", i);
                    push_str(&mut s, "}\n");
                },
                _ => {},
            }
        },
        VNode::Then { cond, child } => {
            push_rep(&mut s, "    ", i);
            push_str(&mut s, "if (");
            let c = condition_text_exec(cond);
            push_str(&mut s, c.as_str());
            push_str(&mut s, "): ");
            let t = node_to_slint(child, 0);
            push_str(&mut s, t.as_str());
            push_rep(&mut s, "    ", i);
            push_str(&mut s, "\n");
        },
        VNode::Repeat { times, child } => {
            push_rep(&mut s, "    ", i);
            push_str(&mut s, "for _ in ");
            let c = times_text_exec(times);
            push_str(&mut s, c.as_str());
            push_str(&mut s, ": ");
            let t = node_to_slint(child, 0);
            push_str(&mut s, t.as_str());
            push_rep(&mut s, "    ", i);
            push_str(&mut s, "\n");
        },
        VNode::Binding(name) => {
            push_rep(&mut s, "    ", i);
            push_str(&mut s, name.as_str());
            push_str(&mut s, "\n");
        },
        VNode::String(t) => {
            push_str(&mut s, "\"");
            push_str(&mut s, t.as_str());
            push_str(&mut s, "\"\n");
        },
        _ => {},
    }
    s
}

fn global_text_exec(g: &VNode) -> (res: String)
    ensures
        res@ == global_text(g@),
{
    let mut s = String::new();
    match g {
        VNode::Variable { name, value, .. } => match value {
            Expr::Value(Value::String(v)) => {
                push_str(&mut s, "in-out property<string> ");
                push_str(&mut s, name.as_str());
                push_str(&mut s, ": \"");
                push_str(&mut s, v.as_str());
                push_str(&mut s, "\";\n");
            },
            Expr::Value(Value::Number(v)) => {
                push_str(&mut s, "in-out property<int> ");
                push_str(&mut s, name.as_str());
                push_str(&mut s, ": ");
                let t = number_text_exec(v);
                push_str(&mut s, t.as_str());
                push_str(&mut s, ";\n");
            },
            _ => {},
        },
        _ => {},
    }
    s
}

/// `n` capped at `usize::MAX`.
pub open spec fn capped(n: nat) -> nat {
    if n >= usize::MAX {
        usize::MAX as nat
    } else {
        n
    }
}

/// Whether code can be generated for `n`, and how deep it nests, capped.
fn render_check(n: &VNode) -> (res: (bool, usize))
    ensures
        res.0 == renderable(n@),
        res.1 == capped(height(n@)),
    decreases n,
{
    match n {
        VNode::Window { child, .. } => {
            let (ok, m) = children_check(n, child);
            (ok, if m == usize::MAX { m } else { m + 1 })
        },
        VNode::Widget { kind, child, .. } => match kind {
            WidgetKind::Label => {
                proof {
                    lemma_nodes_view_index(child@);
                }
                if child.len() == 0 {
                    (false, 1)
                } else {
                    proof {
                        assert(decreases_to!(*n => (**child)@[0]));
                    }
                    let (ok, h) = render_check(&child[0]);
                    assert(nodes_view((**child)@)[0] == (**child)@[0]@);
                    (ok, if h == usize::MAX { h } else { h + 1 })
                }
            },
            WidgetKind::Row | WidgetKind::Column | WidgetKind::Rectangle => {
                let (ok, m) = children_check(n, child);
                (ok, if m == usize::MAX { m } else { m + 1 })
            },
            _ => (true, 0),
        },
        VNode::Then { child, .. } => render_check(child),
        VNode::Repeat { child, .. } => render_check(child),
        _ => (true, 0),
    }
}

/// Whether code can be generated for every node of `child`, the children of
/// `n`, and the deepest nesting among them, capped.
fn children_check(n: &VNode, child: &Vec<VNode>) -> (res: (bool, usize))
    requires
        (n matches VNode::Window { child: c, .. } && *c == *child)
            || (n matches VNode::Widget { child: c, .. } && *c == *child),
    ensures
        res.0 == all_renderable(nodes_view(child@)),
        res.1 == capped(max_height(nodes_view(child@))),
    decreases n, 0int,
{
    let mut ok = true;
    let mut m: usize = 0;
    let mut i: usize = 0;
    proof {
        lemma_nodes_view_index(child@);
        assert(child@.take(0) == Seq::<VNode>::empty());
    }
    while i < child.len()
        invariant
            0 <= i <= child@.len(),
            (n matches VNode::Window { child: c, .. } && *c == *child)
                || (n matches VNode::Widget { child: c, .. } && *c == *child),
            ok == all_renderable(nodes_view(child@.take(i as int))),
            m == capped(max_height(nodes_view(child@.take(i as int)))),
        decreases child@.len() - i,
    {
        proof {
            lemma_nodes_view_take(child@, i as int);
            let pre = nodes_view(child@.take(i as int));
            assert(pre.push(child@[i as int]@).drop_last() == pre);
            assert(decreases_to!(*n => child@[i as int])) by {
                assert(decreases_to!(*child => child@));
                assert(decreases_to!(child@ => child@[i as int]));
            }
        }
        let (o, h) = render_check(&child[i]);
        ok = ok && o;
        if h > m {
            m = h;
        }
        i += 1;
    }
    assert(child@.take(child@.len() as int) == child@);
    (ok, m)
}

impl Uheex {
    /// Whether [`Uheex::to_slint`] can run on this layout: every label it
    /// reaches has a child, and the nesting fits a `usize`.
    pub fn can_render(&self) -> (res: bool)
        ensures
            res == (renderable(self.root@) && height(self.root@) < usize::MAX),
    {
        let (ok, h) = render_check(&self.root);
        ok && h < usize::MAX
    }
}

impl Uheex {
    /// The Slint component for this layout: the base component, a property for
    /// each global variable with a literal value, the root node, and the closing brace.
    pub fn to_slint(&self) -> (res: String)
        requires
            renderable(self.root@),
            height(self.root@) <= usize::MAX,
        ensures
            res@ == slint_text(self@),
    {
        let mut s = owned(base_layout_exec());
        let ghost start = s@;
        let mut k: usize = 0;
        proof {
            lemma_nodes_view_index(self.globals@);
            assert(self.globals@.take(0) == Seq::<VNode>::empty());
        }
        while k < self.globals.len()
            invariant
                0 <= k <= self.globals@.len(),
                start == base_layout(),
                nodes_view(self.globals@).len() == self.globals@.len(),
                forall|j: int| 0 <= j < self.globals@.len() ==> #[trigger] nodes_view(self.globals@)[j] == self.globals@[j]@,
                s@ == start + globals_text(nodes_view(self.globals@.take(k as int))),
            decreases self.globals@.len() - k,
        {
            let t = global_text_exec(&self.globals[k]);
            push_str(&mut s, t.as_str());
            proof {
                lemma_nodes_view_take(self.globals@, k as int);
                assert(nodes_view(self.globals@.take(k + 1)).drop_last() == nodes_view(self.globals@.take(k as int)));
            }
            k += 1;
        }
        assert(self.globals@.take(self.globals@.len() as int) == self.globals@);
        let r = node_to_slint(&self.root, 0);
        push_str(&mut s, r.as_str());
        push_str(&mut s, "}");
        s
    }
}

} // verus!
