use vstd::prelude::*;

use crate::state::{string_from_utf8_lossy, utf8_lossy};
use crate::text::{chars_of, string_from, trim, trim_bounds};
use crate::types::{nodes_view, Expr, SpecExpr, SpecValue, SpecVNode, Uheex, VNode, Value};

verus! {

/// Whether a global is a variable whose value comes from a shell command.
pub open spec fn is_shell_var(n: SpecVNode) -> bool {
    n matches SpecVNode::Variable { value: SpecExpr::Shell(_), .. }
}

/// The shell commands of the variables among `globals`, in order.
pub open spec fn shell_commands_of(globals: Seq<SpecVNode>) -> Seq<Seq<char>>
    decreases globals.len(),
{
    if globals.len() == 0 {
        Seq::empty()
    } else {
        let before = shell_commands_of(globals.drop_last());
        match globals.last() {
            SpecVNode::Variable { value: SpecExpr::Shell(c), .. } => before.push(c),
            _ => before,
        }
    }
}

/// What a command's output becomes: its bytes decoded as
/// `String::from_utf8_lossy` decodes them, without surrounding whitespace.
pub open spec fn output_text(out: Seq<u8>) -> Seq<char> {
    trim(utf8_lossy(out))
}

/// A global with a shell command given the output `out` of that command: its
/// value becomes the output's text. Any other global stays as it is.
pub open spec fn resolve_node(n: SpecVNode, out: Seq<u8>) -> SpecVNode {
    match n {
        SpecVNode::Variable { name, initial, value: SpecExpr::Shell(_), interval } => SpecVNode::Variable {
            name,
            initial,
            value: SpecExpr::Value(SpecValue::String(output_text(out))),
            interval,
        },
        _ => n,
    }
}

/// `globals` after each shell variable, in order, took the output of its
/// command from `outs`.
pub open spec fn resolved_globals(globals: Seq<SpecVNode>, outs: Seq<Seq<u8>>) -> Seq<SpecVNode>
    decreases globals.len(),
{
    if globals.len() == 0 {
        Seq::empty()
    } else {
        let k = shell_commands_of(globals.drop_last()).len() as int;
        resolved_globals(globals.drop_last(), outs).push(resolve_node(globals.last(), outs[k]))
    }
}

proof fn lemma_nodes_view_take(v: Seq<VNode>, i: int)
    requires
        0 <= i < v.len(),
    ensures
        nodes_view(v.take(i + 1)) == nodes_view(v.take(i)).push(v[i]@),
        nodes_view(v.take(i + 1)).len() == i + 1,
{
    assert(v.take(i + 1).drop_last() == v.take(i));
    lemma_nodes_view_len(v.take(i + 1));
}

proof fn lemma_nodes_view_len(v: Seq<VNode>)
    ensures
        nodes_view(v).len() == v.len(),
    decreases v.len(),
{
    if v.len() > 0 {
        lemma_nodes_view_len(v.drop_last());
    }
}

/// The text of a command's output; see [`output_text`].
fn output_text_exec(out: &Vec<u8>) -> (res: String)
    ensures
        res@ == output_text(out@),
{
    let decoded = string_from_utf8_lossy(out.as_slice());
    let chars = chars_of(decoded.as_str());
    let (a, b) = trim_bounds(&chars, 0, chars.len());
    assert(chars@.subrange(0, chars@.len() as int) == chars@);
    string_from(&chars, a, b)
}

impl Uheex {
    /// The shell commands whose outputs give the values of the global
    /// variables, in order.
    pub fn shell_commands(&self) -> (res: Vec<String>)
        ensures
            res@.map_values(|c: String| c@) == shell_commands_of(self@.globals),
    {
        let mut res: Vec<String> = Vec::new();
        let mut i: usize = 0;
        proof {
            lemma_nodes_view_len(self.globals@);
        }
        while i < self.globals.len()
            invariant
                0 <= i <= self.globals@.len(),
                res@.map_values(|c: String| c@) == shell_commands_of(nodes_view(self.globals@.take(i as int))),
            decreases self.globals@.len() - i,
        {
            proof {
                lemma_nodes_view_take(self.globals@, i as int);
            }
            let ghost before = res@;
            let ghost pre = nodes_view(self.globals@.take(i as int));
            assert(pre.push(self.globals@[i as int]@).drop_last() == pre);
            match &self.globals[i] {
                VNode::Variable { value: Expr::Shell(c), .. } => {
                    res.push(c.clone());
                    assert(res@.map_values(|c: String| c@) == before.map_values(|c: String| c@).push(c@));
                },
                _ => {},
            }
            i += 1;
        }
        assert(self.globals@.take(self.globals@.len() as int) == self.globals@);
        res
    }

    /// Gives each global variable whose value comes from a shell command the
    /// output of that command: `outputs` holds what the commands of
    /// [`Uheex::shell_commands`] printed, in the same order, and each such
    /// value becomes the text of its output (see [`output_text`]).
    pub fn resolve_vars(&mut self, outputs: &Vec<Vec<u8>>)
        requires
            outputs@.len() == shell_commands_of(old(self)@.globals).len(),
        ensures
            final(self)@.globals == resolved_globals(old(self)@.globals, outputs@.map_values(|o: Vec<u8>| o@)),
            final(self)@.root == old(self)@.root,
            final(self)@.stylesheet == old(self)@.stylesheet,
    {
        let ghost outs = outputs@.map_values(|o: Vec<u8>| o@);
        let ghost g0 = old(self)@.globals;
        let ghost orig = self.globals@;
        let mut rest: Vec<VNode> = Vec::new();
        std::mem::swap(&mut rest, &mut self.globals);
        let mut done: Vec<VNode> = Vec::new();
        let mut k: usize = 0;
        let n_out = outputs.len();
        proof {
            lemma_nodes_view_len(orig);
            assert(orig.take(0) == Seq::<VNode>::empty());
            assert(orig.skip(0) == orig);
        }
        while rest.len() > 0
            invariant
                g0 == nodes_view(orig),
                orig.len() == g0.len(),
                outputs@.len() == shell_commands_of(g0).len(),
                n_out == outputs@.len(),
                outs == outputs@.map_values(|o: Vec<u8>| o@),
                rest@ == orig.skip(orig.len() - rest@.len()),
                rest@.len() <= orig.len(),
                k == shell_commands_of(nodes_view(orig.take(orig.len() - rest@.len()))).len(),
                nodes_view(done@) == resolved_globals(nodes_view(orig.take(orig.len() - rest@.len())), outs),
            decreases rest@.len(),
        {
            let ghost i = orig.len() - rest@.len();
            proof {
                lemma_nodes_view_take(orig, i);
                lemma_shell_prefix(g0, i + 1);
                assert(nodes_view(orig.take(i + 1)) == g0.take(i + 1)) by {
                    lemma_nodes_view_prefix(orig, i + 1);
                }
                assert(nodes_view(orig.take(i)) == g0.take(i)) by {
                    lemma_nodes_view_prefix(orig, i);
                }
                assert(g0.take(i + 1).drop_last() == g0.take(i));
                assert(rest@[0] == orig[i]);
                let pre = nodes_view(orig.take(i));
                assert(pre.push(orig[i]@).drop_last() == pre);
            }
            let n = rest.remove(0);
            let ghost before = done@;
            let shell = match &n {
                VNode::Variable { value: Expr::Shell(_), .. } => true,
                _ => false,
            };
            if shell {
                let text = output_text_exec(&outputs[k]);
                let resolved = match n {
                    VNode::Variable { name, initial, value: _, interval } => VNode::Variable {
                        name,
                        initial,
                        value: Expr::Value(Value::String(text)),
                        interval,
                    },
                    other => other,
                };
                done.push(resolved);
                k += 1;
            } else {
                done.push(n);
            }
            proof {
                assert(done@.drop_last() == before);
                assert(rest@ == orig.skip(i + 1));
                let pre = nodes_view(orig.take(i));
                assert(nodes_view(orig.take(i + 1)) == pre.push(orig[i]@));
                assert(resolved_globals(pre.push(orig[i]@), outs) == resolved_globals(pre, outs).push(
                    resolve_node(orig[i]@, outs[shell_commands_of(pre).len() as int]),
                ));
                assert(nodes_view(done@) == nodes_view(before).push(done@.last()@));
                assert(done@.last()@ == resolve_node(orig[i]@, outs[shell_commands_of(pre).len() as int]));
            }
        }
        proof {
            assert(orig.take(orig.len() as int) == orig);
        }
        self.globals = done;
    }
}

proof fn lemma_nodes_view_prefix(v: Seq<VNode>, i: int)
    requires
        0 <= i <= v.len(),
    ensures
        nodes_view(v.take(i)) == nodes_view(v).take(i),
    decreases v.len() - i,
{
    lemma_nodes_view_len(v);
    lemma_nodes_view_len(v.take(i));
    if i < v.len() {
        lemma_nodes_view_prefix(v, i + 1);
        lemma_nodes_view_take(v, i);
        assert(nodes_view(v).take(i + 1).drop_last() == nodes_view(v).take(i));
    } else {
        assert(v.take(i) == v);
    }
}

proof fn lemma_shell_prefix(g: Seq<SpecVNode>, i: int)
    requires
        0 <= i <= g.len(),
    ensures
        shell_commands_of(g.take(i)).len() <= shell_commands_of(g).len(),
        i < g.len() && is_shell_var(g[i]) ==> shell_commands_of(g.take(i)).len() < shell_commands_of(g).len(),
    decreases g.len() - i,
{
    if i < g.len() {
        lemma_shell_prefix(g, i + 1);
        assert(g.take(i + 1).drop_last() == g.take(i));
    } else {
        assert(g.take(i) == g);
    }
}

proof fn lemma_resolved_len(g: Seq<SpecVNode>, outs: Seq<Seq<u8>>)
    ensures
        resolved_globals(g, outs).len() == g.len(),
    decreases g.len(),
{
    if g.len() > 0 {
        lemma_resolved_len(g.drop_last(), outs);
    }
}

/// Resolving the variables leaves no global that needs a command, keeps
/// every other global as it was, and keeps the number of globals; resolving
/// the result again changes nothing.
pub proof fn law_resolved_globals_need_no_commands(g: Seq<SpecVNode>, outs: Seq<Seq<u8>>, again: Seq<Seq<u8>>)
    ensures
        resolved_globals(g, outs).len() == g.len(),
        shell_commands_of(resolved_globals(g, outs)).len() == 0,
        forall|i: int| 0 <= i < g.len() && !is_shell_var(g[i]) ==> #[trigger] resolved_globals(g, outs)[i] == g[i],
        resolved_globals(resolved_globals(g, outs), again) == resolved_globals(g, outs),
    decreases g.len(),
{
    lemma_resolved_len(g, outs);
    if g.len() > 0 {
        let r = resolved_globals(g, outs);
        law_resolved_globals_need_no_commands(g.drop_last(), outs, again);
        let r0 = resolved_globals(g.drop_last(), outs);
        assert(r.drop_last() == r0);
        assert(forall|i: int| 0 <= i < g.len() - 1 ==> #[trigger] g.drop_last()[i] == g[i]);
        assert(forall|i: int| 0 <= i < g.len() - 1 ==> #[trigger] r[i] == r0[i]);
    }
}

} // verus!
