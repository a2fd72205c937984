use vstd::prelude::*;

use crate::tokens::is_digit;

verus! {

/// A nonnegative decimal number as written in a layout: one or more ASCII digits.
#[derive(Debug, PartialEq, Eq)]
pub struct Numeral {
    digits: String,
}

/// True when `d` is one or more ASCII digits.
pub open spec fn numeral_ok(d: Seq<char>) -> bool {
    d.len() > 0 && forall|i: int| 0 <= i < d.len() ==> #[trigger] is_digit(d[i])
}

impl View for Numeral {
    type V = Seq<char>;

    closed spec fn view(&self) -> Seq<char> {
        self.digits@
    }
}

impl Numeral {
    #[verifier::type_invariant]
    spec fn wf(self) -> bool {
        numeral_ok(self.digits@)
    }

    /// The numeral written by `digits`, if they are one or more ASCII digits.
    pub fn new(digits: String) -> (res: Option<Numeral>)
        ensures
            res is Some <==> numeral_ok(digits@),
            res matches Some(n) ==> n@ == digits@,
    {
        let chars = crate::text::chars_of(digits.as_str());
        if chars.len() == 0 {
            return None;
        }
        let mut i: usize = 0;
        while i < chars.len()
            invariant
                0 <= i <= chars@.len(),
                chars@ == digits@,
                forall|j: int| 0 <= j < i ==> #[trigger] is_digit(chars@[j]),
            decreases chars@.len() - i,
        {
            if !('0' <= chars[i] && chars[i] <= '9') {
                assert(!is_digit(digits@[i as int]));
                return None;
            }
            i += 1;
        }
        Some(Numeral { digits })
    }

    /// A copy with the same digits.
    pub fn duplicate(&self) -> (res: Numeral)
        ensures
            res@ == self@,
    {
        proof {
            use_type_invariant(self);
        }
        Numeral { digits: self.digits.clone() }
    }

    /// The digits as written.
    pub fn digits(&self) -> (res: &str)
        ensures
            res@ == self@,
    {
        self.digits.as_str()
    }

    /// Every numeral is one or more ASCII digits.
    pub fn lemma_wf(&self)
        ensures
            numeral_ok(self@),
    {
        proof {
            use_type_invariant(self);
        }
    }
}

impl Clone for Numeral {
    fn clone(&self) -> (res: Self)
        ensures
            res@ == self@,
    {
        self.duplicate()
    }
}

/// A span of time: whole seconds and the nanoseconds beyond them.
#[derive(Debug, Clone, Copy, PartialEq, Eq, Structural)]
pub struct TimeSpan {
    pub secs: u64,
    pub nanos: u32,
}

/// A duration written in a layout, such as `500ms`, `5s`, `2m` or `1h`.
#[derive(Debug, Clone, Copy)]
pub struct DurationHuman(pub TimeSpan);

#[derive(Debug, Clone)]
pub enum WidgetKind {
    Label,
    Rectangle,
    Row,
    Column,
    Absolute,
    Custom,
}

#[derive(Debug, Clone)]
pub enum BinaryOperator {
    Add,
    Sub,
    Mul,
    Div,
    Eq,
    NotEq,
    And,
    Or,
    Gt,
    Lt,
    Gte,
    Lte,
}

#[derive(Debug, Clone)]
pub enum Value {
    String(String),
    Number(Numeral),
    Binding(String),
}

pub enum SpecValue {
    String(Seq<char>),
    Number(Seq<char>),
    Binding(Seq<char>),
}

impl View for Value {
    type V = SpecValue;

    open spec fn view(&self) -> SpecValue {
        match self {
            Value::String(s) => SpecValue::String(s@),
            Value::Number(n) => SpecValue::Number(n@),
            Value::Binding(s) => SpecValue::Binding(s@),
        }
    }
}

#[derive(Debug)]
pub enum Expr {
    Value(Value),
    Array(Vec<Expr>),
    Binary { left: Box<Expr>, operator: BinaryOperator, right: Box<Expr> },
    Binding(String),
    Shell(String),
}

pub enum SpecExpr {
    Value(SpecValue),
    Array(Seq<SpecExpr>),
    Binary { left: Box<SpecExpr>, operator: BinaryOperator, right: Box<SpecExpr> },
    Binding(Seq<char>),
    Shell(Seq<char>),
}

pub open spec fn expr_view(e: Expr) -> SpecExpr
    decreases e,
{
    match e {
        Expr::Value(v) => SpecExpr::Value(v@),
        Expr::Array(items) => SpecExpr::Array(exprs_view(items@)),
        Expr::Binary { left, operator, right } => SpecExpr::Binary {
            left: Box::new(expr_view(*left)),
            operator,
            right: Box::new(expr_view(*right)),
        },
        Expr::Binding(s) => SpecExpr::Binding(s@),
        Expr::Shell(s) => SpecExpr::Shell(s@),
    }
}

pub open spec fn exprs_view(s: Seq<Expr>) -> Seq<SpecExpr>
    decreases s,
{
    if s.len() == 0 {
        Seq::empty()
    } else {
        exprs_view(s.drop_last()).push(expr_view(s.last()))
    }
}

impl View for Expr {
    type V = SpecExpr;

    open spec fn view(&self) -> SpecExpr {
        expr_view(*self)
    }
}

/// Named attributes of a node. A later entry for a key hides earlier ones.
#[derive(Debug, Clone)]
pub struct Attrs {
    entries: Vec<(String, Expr)>,
}

pub open spec fn attrs_map(entries: Seq<(String, Expr)>) -> Map<Seq<char>, SpecExpr>
    decreases entries.len(),
{
    if entries.len() == 0 {
        Map::empty()
    } else {
        attrs_map(entries.drop_last()).insert(entries.last().0@, entries.last().1@)
    }
}

impl View for Attrs {
    type V = Map<Seq<char>, SpecExpr>;

    closed spec fn view(&self) -> Map<Seq<char>, SpecExpr> {
        attrs_map(self.entries@)
    }
}

impl Attrs {
    pub fn new() -> (res: Attrs)
        ensures
            res@ == Map::<Seq<char>, SpecExpr>::empty(),
    {
        Attrs { entries: Vec::new() }
    }

    /// Sets `key` to `value`, replacing any earlier value.
    pub fn insert(&mut self, key: String, value: Expr)
        ensures
            final(self)@ == old(self)@.insert(key@, value@),
    {
        let ghost before = self.entries@;
        self.entries.push((key, value));
        assert(self.entries@.drop_last() == before);
    }

    /// The entries in the order they were set; a later entry for a key hides
    /// earlier ones.
    pub fn entries(&self) -> (res: &Vec<(String, Expr)>)
        ensures
            attrs_map(res@) == self@,
    {
        &self.entries
    }

    /// The value set for `key`, if any.
    pub fn get(&self, key: &str) -> (res: Option<&Expr>)
        ensures
            res is Some <==> self@.contains_key(key@),
            res matches Some(e) ==> e@ == self@[key@],
    {
        let mut i = self.entries.len();
        assert(self.entries@.take(i as int) == self.entries@);
        while i > 0
            invariant
                i <= self.entries@.len(),
                forall|j: int| i <= j < self.entries@.len() ==> #[trigger] self.entries@[j].0@ != key@,
                attrs_map(self.entries@).contains_key(key@) <==> attrs_map(self.entries@.take(i as int)).contains_key(key@),
                attrs_map(self.entries@).contains_key(key@) ==> attrs_map(self.entries@)[key@] == attrs_map(self.entries@.take(i as int))[key@],
            decreases i,
        {
            let ghost pre = self.entries@.take(i as int);
            assert(pre.drop_last() == self.entries@.take(i - 1));
            let entry = &self.entries[i - 1];
            if crate::text::str_eq(entry.0.as_str(), key) {
                return Some(&entry.1);
            }
            i -= 1;
        }
        assert(self.entries@.take(0) == Seq::<(String, Expr)>::empty());
        None
    }
}


#[derive(Debug, Clone)]
pub enum Selector {
    Tag(String),
    Class(String),
    Id(String),
}

pub enum SpecSelector {
    Tag(Seq<char>),
    Class(Seq<char>),
    Id(Seq<char>),
}

impl View for Selector {
    type V = SpecSelector;

    open spec fn view(&self) -> SpecSelector {
        match self {
            Selector::Tag(s) => SpecSelector::Tag(s@),
            Selector::Class(s) => SpecSelector::Class(s@),
            Selector::Id(s) => SpecSelector::Id(s@),
        }
    }
}

#[derive(Debug)]
pub enum Declaration {
    Simple { property: String, value: Expr },
    Nested { property: String, value: Vec<Declaration> },
}

pub enum SpecDeclaration {
    Simple { property: Seq<char>, value: SpecExpr },
    Nested { property: Seq<char>, value: Seq<SpecDeclaration> },
}

pub open spec fn decl_view(d: Declaration) -> SpecDeclaration
    decreases d,
{
    match d {
        Declaration::Simple { property, value } => SpecDeclaration::Simple {
            property: property@,
            value: value@,
        },
        Declaration::Nested { property, value } => SpecDeclaration::Nested {
            property: property@,
            value: decls_view(value@),
        },
    }
}

pub open spec fn decls_view(s: Seq<Declaration>) -> Seq<SpecDeclaration>
    decreases s,
{
    if s.len() == 0 {
        Seq::empty()
    } else {
        decls_view(s.drop_last()).push(decl_view(s.last()))
    }
}

impl View for Declaration {
    type V = SpecDeclaration;

    open spec fn view(&self) -> SpecDeclaration {
        decl_view(*self)
    }
}

#[derive(Debug)]
pub struct Rule {
    pub selector: Selector,
    pub declarations: Vec<Declaration>,
}

pub struct SpecRule {
    pub selector: SpecSelector,
    pub declarations: Seq<SpecDeclaration>,
}

impl View for Rule {
    type V = SpecRule;

    open spec fn view(&self) -> SpecRule {
        SpecRule { selector: self.selector@, declarations: decls_view(self.declarations@) }
    }
}

pub open spec fn rules_view(s: Seq<Rule>) -> Seq<SpecRule> {
    Seq::new(s.len(), |i: int| s[i]@)
}

#[derive(Debug)]
pub struct Stylesheet {
    pub rules: Vec<Rule>,
}

pub struct SpecStylesheet {
    pub rules: Seq<SpecRule>,
}

impl View for Stylesheet {
    type V = SpecStylesheet;

    open spec fn view(&self) -> SpecStylesheet {
        SpecStylesheet { rules: rules_view(self.rules@) }
    }
}

#[derive(Debug)]
pub enum VNode {
    Window { attributes: Attrs, child: Box<Vec<VNode>> },
    Then { cond: Box<Expr>, child: Box<VNode> },
    Repeat { times: Box<Expr>, child: Box<VNode> },
    Widget { kind: WidgetKind, attributes: Attrs, child: Box<Vec<VNode>> },
    Variable { name: String, initial: Option<Expr>, value: Expr, interval: TimeSpan },
    Declare { vars: Vec<VNode> },
    String(String),
    Number(Numeral),
    Binding(String),
    Empty,
    Fragment(Box<Vec<VNode>>),
}

pub enum SpecVNode {
    Window { attributes: Map<Seq<char>, SpecExpr>, child: Seq<SpecVNode> },
    Then { cond: SpecExpr, child: Box<SpecVNode> },
    Repeat { times: SpecExpr, child: Box<SpecVNode> },
    Widget { kind: WidgetKind, attributes: Map<Seq<char>, SpecExpr>, child: Seq<SpecVNode> },
    Variable { name: Seq<char>, initial: Option<SpecExpr>, value: SpecExpr, interval: TimeSpan },
    Declare { vars: Seq<SpecVNode> },
    String(Seq<char>),
    Number(Seq<char>),
    Binding(Seq<char>),
    Empty,
    Fragment(Seq<SpecVNode>),
}

pub open spec fn opt_expr_view(e: Option<Expr>) -> Option<SpecExpr> {
    match e {
        Some(x) => Some(x@),
        None => None,
    }
}

pub open spec fn node_view(n: VNode) -> SpecVNode
    decreases n,
{
    match n {
        VNode::Window { attributes, child } => SpecVNode::Window {
            attributes: attributes@,
            child: nodes_view((*child)@),
        },
        VNode::Then { cond, child } => SpecVNode::Then {
            cond: (*cond)@,
            child: Box::new(node_view(*child)),
        },
        VNode::Repeat { times, child } => SpecVNode::Repeat {
            times: (*times)@,
            child: Box::new(node_view(*child)),
        },
        VNode::Widget { kind, attributes, child } => SpecVNode::Widget {
            kind,
            attributes: attributes@,
            child: nodes_view((*child)@),
        },
        VNode::Variable { name, initial, value, interval } => SpecVNode::Variable {
            name: name@,
            initial: opt_expr_view(initial),
            value: value@,
            interval,
        },
        VNode::Declare { vars } => SpecVNode::Declare { vars: nodes_view(vars@) },
        VNode::String(s) => SpecVNode::String(s@),
        VNode::Number(n) => SpecVNode::Number(n@),
        VNode::Binding(s) => SpecVNode::Binding(s@),
        VNode::Empty => SpecVNode::Empty,
        VNode::Fragment(nodes) => SpecVNode::Fragment(nodes_view((*nodes)@)),
    }
}

pub open spec fn nodes_view(s: Seq<VNode>) -> Seq<SpecVNode>
    decreases s,
{
    if s.len() == 0 {
        Seq::empty()
    } else {
        nodes_view(s.drop_last()).push(node_view(s.last()))
    }
}

impl View for VNode {
    type V = SpecVNode;

    open spec fn view(&self) -> SpecVNode {
        node_view(*self)
    }
}

/// A parsed layout: global variables, the root node and an optional stylesheet.
#[derive(Debug)]
pub struct Uheex {
    pub globals: Vec<VNode>,
    pub root: VNode,
    pub stylesheet: Option<Stylesheet>,
}

pub struct SpecUheex {
    pub globals: Seq<SpecVNode>,
    pub root: SpecVNode,
    pub stylesheet: Option<SpecStylesheet>,
}

impl View for Uheex {
    type V = SpecUheex;

    open spec fn view(&self) -> SpecUheex {
        SpecUheex {
            globals: nodes_view(self.globals@),
            root: self.root@,
            stylesheet: match self.stylesheet {
                Some(s) => Some(s@),
                None => None,
            },
        }
    }
}

impl Clone for Expr {
    fn clone(&self) -> (res: Self)
        ensures
            res@ == self@,
    {
        clone_expr(self)
    }
}

/// A copy of `e` with the same view.
pub fn clone_expr(e: &Expr) -> (res: Expr)
    ensures
        res@ == e@,
    decreases e,
{
    match e {
        Expr::Value(v) => Expr::Value(clone_value(v)),
        Expr::Array(items) => {
            let mut out: Vec<Expr> = Vec::new();
            let mut i: usize = 0;
            while i < items.len()
                invariant
                    0 <= i <= items@.len(),
                    exprs_view(out@) == exprs_view(items@.take(i as int)),
                    *e == Expr::Array(*items),
                decreases items@.len() - i,
            {
                assert(decreases_to!(*e => items@[i as int])) by {
                    assert(decreases_to!(*e => (*e)->Array_0));
                    assert(decreases_to!(*items => items@));
                    assert(decreases_to!(items@ => items@[i as int]));
                }
                let c = clone_expr(&items[i]);
                let ghost before = out@;
                out.push(c);
                assert(out@.drop_last() == before);
                assert(items@.take(i + 1).drop_last() == items@.take(i as int));
                i += 1;
            }
            assert(items@.take(items@.len() as int) == items@);
            Expr::Array(out)
        },
        Expr::Binary { left, operator, right } => Expr::Binary {
            left: Box::new(clone_expr(left)),
            operator: clone_operator(operator),
            right: Box::new(clone_expr(right)),
        },
        Expr::Binding(s) => Expr::Binding(s.clone()),
        Expr::Shell(s) => Expr::Shell(s.clone()),
    }
}

pub fn clone_value(v: &Value) -> (res: Value)
    ensures
        res@ == v@,
{
    match v {
        Value::String(s) => Value::String(s.clone()),
        Value::Number(n) => Value::Number(n.duplicate()),
        Value::Binding(s) => Value::Binding(s.clone()),
    }
}

pub fn clone_operator(op: &BinaryOperator) -> (res: BinaryOperator)
    ensures
        res == *op,
{
    match op {
        BinaryOperator::Add => BinaryOperator::Add,
        BinaryOperator::Sub => BinaryOperator::Sub,
        BinaryOperator::Mul => BinaryOperator::Mul,
        BinaryOperator::Div => BinaryOperator::Div,
        BinaryOperator::Eq => BinaryOperator::Eq,
        BinaryOperator::NotEq => BinaryOperator::NotEq,
        BinaryOperator::And => BinaryOperator::And,
        BinaryOperator::Or => BinaryOperator::Or,
        BinaryOperator::Gt => BinaryOperator::Gt,
        BinaryOperator::Lt => BinaryOperator::Lt,
        BinaryOperator::Gte => BinaryOperator::Gte,
        BinaryOperator::Lte => BinaryOperator::Lte,
    }
}

} // verus!
