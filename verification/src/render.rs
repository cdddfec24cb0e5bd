//! Diagnostic text rendering of a tree.
//!
//! A variable renders as its name, a constant as the decimal form of
//! its value, and an internal node as the operator's label followed by
//! its children in parentheses, comma separated.  The text is for
//! diagnostics only and is never parsed back.

use vstd::prelude::*;

use crate::scalar::decimal_of;
use crate::scalar::scalar_decimal;
use crate::tree::Node;
use crate::tree::NodeV;
use crate::tree::Op;
use crate::tree::OpV;
use crate::tree::lemma_view_args;
use vstd::string::StringExecFns;

verus! {

/// The label of an operator in the diagnostic rendering.
pub open spec fn op_label(op: OpV) -> Seq<char> {
    match op {
        OpV::Add => "Add"@,
        OpV::Mul => "Mul"@,
        OpV::Pow => "Pow"@,
        OpV::Sin => "Sin"@,
        OpV::Cos => "Cos"@,
        OpV::Log => "Log"@,
        OpV::Var(name) => name,
        OpV::Const(b) => decimal_of(b),
    }
}

/// The diagnostic rendering of a tree: a leaf as its name or decimal
/// value, an internal node as `Label(child, child)` with the children
/// rendered recursively.
pub open spec fn rendered(n: NodeV) -> Seq<char>
    decreases n,
{
    match n.op {
        OpV::Var(name) => name,
        OpV::Const(b) => decimal_of(b),
        _ => if n.args.len() == 1 {
            op_label(n.op) + "("@ + rendered(n.args[0]) + ")"@
        } else if n.args.len() == 2 {
            op_label(n.op) + "("@ + rendered(n.args[0]) + ", "@ + rendered(n.args[1]) + ")"@
        } else {
            op_label(n.op) + "("@ + ")"@
        },
    }
}

/// The label of an operator, as text.
fn op_label_string(op: &Op) -> (r: String)
    ensures
        r@ == op_label(op@),
{
    match op {
        Op::Add => String::from_str("Add"),
        Op::Mul => String::from_str("Mul"),
        Op::Pow => String::from_str("Pow"),
        Op::Sin => String::from_str("Sin"),
        Op::Cos => String::from_str("Cos"),
        Op::Log => String::from_str("Log"),
        Op::Var(name) => name.clone(),
        Op::Const(c) => scalar_decimal(*c),
    }
}

/// The diagnostic rendering of a tree, executed.
pub fn debug_render(n: &Node) -> (r: String)
    requires
        n@.wf(),
    ensures
        r@ == rendered(n@),
    decreases n,
{
    proof {
        lemma_view_args(n.args@);
        assert forall|i: int| 0 <= i < n@.args.len() implies (#[trigger] n@.args[i]).wf() by {}
        assert(decreases_to!(*n => n.args));
        assert(decreases_to!(n.args => n.args@));
    }
    match &n.op {
        Op::Var(name) => name.clone(),
        Op::Const(c) => scalar_decimal(*c),
        Op::Sin | Op::Cos => {
            proof {
                assert(decreases_to!(n.args@ => n.args@[0]));
                assert(n.args@[0]@ == n@.args[0]);
            }
            let mut s = op_label_string(&n.op);
            s.append("(");
            let child = debug_render(&n.args[0]);
            s.append(child.as_str());
            s.append(")");
            proof {
                assert(s@ =~= rendered(n@));
            }
            s
        },
        _ => {
            proof {
                assert(decreases_to!(n.args@ => n.args@[0]));
                assert(decreases_to!(n.args@ => n.args@[1]));
                assert(n.args@[0]@ == n@.args[0]);
                assert(n.args@[1]@ == n@.args[1]);
            }
            let mut s = op_label_string(&n.op);
            s.append("(");
            let left = debug_render(&n.args[0]);
            s.append(left.as_str());
            s.append(", ");
            let right = debug_render(&n.args[1]);
            s.append(right.as_str());
            s.append(")");
            proof {
                assert(s@ =~= rendered(n@));
            }
            s
        },
    }
}

} // verus!
