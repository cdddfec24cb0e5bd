//! The algebraic simplifier.
//!
//! `simplify_step` is the rewrite applied to one freshly assembled node
//! whose children are already simplified: identity and annihilator
//! elimination first, then constant folding, first match wins, and at
//! most one rule fires.  Every builder of this crate routes through it,
//! so a tree built bottom-up through the builders is simplified at every
//! node (`is_simplified`).  `resimplify` is the separate whole-tree
//! pass, depth first, for trees assembled with simplification off; it is
//! idempotent (see `lemma_resimplify_idempotent`).
//!
//! A child counts as "equal to zero" (or one) when it is a constant
//! within the fixed absolute tolerance of the value; see
//! `crate::scalar::near_zero` and `near_one`.

use vstd::prelude::*;

use crate::scalar::BITS_EULER;
use crate::scalar::BITS_ONE;
use crate::scalar::BITS_ZERO;
use crate::scalar::Scalar;
use crate::scalar::cos_bits;
use crate::scalar::is_near_one;
use crate::scalar::is_near_zero;
use crate::scalar::ln_bits;
use crate::scalar::near_one;
use crate::scalar::near_zero;
use crate::scalar::pow_bits;
use crate::scalar::prod_bits;
use crate::scalar::quot_bits;
use crate::scalar::scalar_add;
use crate::scalar::scalar_cos;
use crate::scalar::scalar_div;
use crate::scalar::scalar_ln;
use crate::scalar::scalar_mul;
use crate::scalar::scalar_pow;
use crate::scalar::scalar_sin;
use crate::scalar::sin_bits;
use crate::scalar::sum_bits;
use crate::tree::Node;
use crate::tree::NodeV;
use crate::tree::Op;
use crate::tree::OpV;
use crate::tree::arity;
use crate::tree::const_v;
use crate::tree::lemma_view_args;
use crate::tree::node2_v;
use crate::tree::raw_v;
use crate::tree::var_v;
use crate::tree::view_args;
use vstd::string::StringExecFns;

verus! {

/// The node is a constant within the tolerance of zero.
pub open spec fn near_zero_node(n: NodeV) -> bool {
    match n.op {
        OpV::Const(b) => near_zero(b),
        _ => false,
    }
}

/// The node is a constant within the tolerance of one.
pub open spec fn near_one_node(n: NodeV) -> bool {
    match n.op {
        OpV::Const(b) => near_one(b),
        _ => false,
    }
}

/// The node is a constant leaf.
pub open spec fn const_node(n: NodeV) -> bool {
    match n.op {
        OpV::Const(_) => true,
        _ => false,
    }
}

/// One simplification rewrite of the top node, children untouched.
///
/// Rules per operator, checked in order, first match wins:
/// - addition: a left or right operand equal to zero is dropped, then
///   two constants fold to the constant sum;
/// - multiplication: an operand equal to one is dropped, an operand
///   equal to zero annihilates the node to the constant zero, then two
///   constants fold to the constant product;
/// - power: an exponent equal to one yields the base, an exponent equal
///   to zero yields the constant one, then two constants fold to the
///   constant real power;
/// - sine, cosine: a constant operand folds;
/// - logarithm: a constant base and value fold to the quotient of their
///   natural logarithms;
/// - variables and constants are never rewritten.
///
/// A node whose child count does not match its operator is returned
/// unchanged; the builders of this crate never produce one.
#[verifier::opaque]
pub open spec fn simplify_step(n: NodeV) -> NodeV {
    if n.args.len() != arity(n.op) {
        n
    } else {
        match n.op {
            OpV::Add => {
                let a = n.args[0];
                let b = n.args[1];
                if near_zero_node(a) {
                    b
                } else if near_zero_node(b) {
                    a
                } else {
                    match (a.op, b.op) {
                        (OpV::Const(x), OpV::Const(y)) => const_v(sum_bits(x, y)),
                        _ => n,
                    }
                }
            },
            OpV::Mul => {
                let a = n.args[0];
                let b = n.args[1];
                if near_one_node(a) {
                    b
                } else if near_one_node(b) {
                    a
                } else if near_zero_node(a) || near_zero_node(b) {
                    const_v(BITS_ZERO)
                } else {
                    match (a.op, b.op) {
                        (OpV::Const(x), OpV::Const(y)) => const_v(prod_bits(x, y)),
                        _ => n,
                    }
                }
            },
            OpV::Pow => {
                let a = n.args[0];
                let b = n.args[1];
                if near_one_node(b) {
                    a
                } else if near_zero_node(b) {
                    const_v(BITS_ONE)
                } else {
                    match (a.op, b.op) {
                        (OpV::Const(x), OpV::Const(y)) => const_v(pow_bits(x, y)),
                        _ => n,
                    }
                }
            },
            OpV::Sin => {
                match n.args[0].op {
                    OpV::Const(x) => const_v(sin_bits(x)),
                    _ => n,
                }
            },
            OpV::Cos => {
                match n.args[0].op {
                    OpV::Const(x) => const_v(cos_bits(x)),
                    _ => n,
                }
            },
            OpV::Log => {
                let a = n.args[0];
                let b = n.args[1];
                match (a.op, b.op) {
                    (OpV::Const(x), OpV::Const(y)) => const_v(quot_bits(ln_bits(y), ln_bits(x))),
                    _ => n,
                }
            },
            OpV::Var(_) => n,
            OpV::Const(_) => n,
        }
    }
}

impl NodeV {
    /// Every node of the tree is well formed and a fixed point of
    /// `simplify_step`: nothing in the tree is left for the simplifier
    /// to do.  This is the state every builder of this crate leaves a
    /// tree in.
    pub open spec fn is_simplified(self) -> bool
        decreases self,
    {
        &&& self.wf()
        &&& simplify_step(self) == self
        &&& forall|i: int| 0 <= i < self.args.len() ==> (#[trigger] self.args[i]).is_simplified()
    }
}

/// A leaf holding a literal is simplified.
pub proof fn lemma_const_v_simplified(bits: u64)
    ensures
        const_v(bits).is_simplified(),
{
    reveal(simplify_step);
    assert(const_v(bits).args.len() == 0);
}

/// A leaf naming an input is simplified.
pub proof fn lemma_var_v_simplified(name: Seq<char>)
    ensures
        var_v(name).is_simplified(),
{
    reveal(simplify_step);
    assert(var_v(name).args.len() == 0);
}

/// One rewrite keeps the arity invariant.
pub proof fn lemma_step_wf(n: NodeV)
    requires
        n.wf(),
    ensures
        simplify_step(n).wf(),
{
    reveal(simplify_step);
    if n.args.len() == arity(n.op) && arity(n.op) == 2 {
        assert(n.args[0].wf());
        assert(n.args[1].wf());
    }
    let r = simplify_step(n);
    if r != n && !(exists|i: int| 0 <= i < n.args.len() && r == n.args[i]) {
        assert(r.args.len() == 0);
    }
}

/// One rewrite of a fresh node whose children are simplified yields a
/// simplified tree.
pub proof fn lemma_step_simplified(n: NodeV)
    requires
        n.args.len() == arity(n.op),
        forall|i: int| 0 <= i < n.args.len() ==> (#[trigger] n.args[i]).is_simplified(),
    ensures
        simplify_step(n).is_simplified(),
{
    reveal(simplify_step);
    if arity(n.op) == 2 {
        assert(n.args[0].is_simplified());
        assert(n.args[1].is_simplified());
    }
    if arity(n.op) == 1 {
        assert(n.args[0].is_simplified());
    }
    let r = simplify_step(n);
    if r == n {
        assert(n.wf());
        assert(r.is_simplified());
    } else if exists|i: int| 0 <= i < n.args.len() && r == n.args[i] {
        assert(r.is_simplified());
    } else {
        assert(r.args.len() == 0);
        assert(r.is_simplified());
    }
}

/// The node is a constant within the tolerance of zero.
fn node_near_zero(n: &Node) -> (r: bool)
    ensures
        r == near_zero_node(n@),
{
    match &n.op {
        Op::Const(c) => is_near_zero(*c),
        _ => false,
    }
}

/// The node is a constant within the tolerance of one.
fn node_near_one(n: &Node) -> (r: bool)
    ensures
        r == near_one_node(n@),
{
    match &n.op {
        Op::Const(c) => is_near_one(*c),
        _ => false,
    }
}

/// Assemble a binary node without rewriting it.
pub(crate) fn raw2(op: Op, a: Node, b: Node) -> (r: Node)
    ensures
        r@ == node2_v(op@, a@, b@),
{
    let ghost av = a@;
    let ghost bv = b@;
    let mut args: Vec<Node> = Vec::new();
    args.push(a);
    args.push(b);
    let r = Node { op, args };
    proof {
        lemma_view_args(r.args@);
        assert(r@.args =~= seq![av, bv]);
        assert(r@ =~= node2_v(r.op@, av, bv));
    }
    r
}

/// A leaf holding the given literal; a constant is never rewritten.
pub fn constant(value: Scalar) -> (r: Node)
    ensures
        r@ == const_v(value.bits),
        r@.is_simplified(),
{
    let r = Node { op: Op::Const(value), args: Vec::new() };
    proof {
        lemma_view_args(r.args@);
        assert(r@ =~= const_v(value.bits));
        lemma_const_v_simplified(value.bits);
    }
    r
}

/// A leaf naming the given input; a variable is never rewritten.
pub fn variable(name: &str) -> (r: Node)
    ensures
        r@ == var_v(name@),
        r@.is_simplified(),
{
    let r = Node { op: Op::Var(String::from_str(name)), args: Vec::new() };
    proof {
        lemma_view_args(r.args@);
        assert(r@ =~= var_v(name@));
        lemma_var_v_simplified(name@);
    }
    r
}

/// Assemble a binary node and apply one simplification rewrite to it.
pub(crate) fn simplify2(op: Op, a: Node, b: Node) -> (r: Node)
    requires
        arity(op@) == 2,
    ensures
        r@ == simplify_step(node2_v(op@, a@, b@)),
{
    proof {
        reveal(simplify_step);
    }
    match op {
        Op::Add => {
            if node_near_zero(&a) {
                b
            } else if node_near_zero(&b) {
                a
            } else {
                match (&a.op, &b.op) {
                    (Op::Const(x), Op::Const(y)) => constant(scalar_add(*x, *y)),
                    _ => raw2(Op::Add, a, b),
                }
            }
        },
        Op::Mul => {
            if node_near_one(&a) {
                b
            } else if node_near_one(&b) {
                a
            } else if node_near_zero(&a) || node_near_zero(&b) {
                constant(Scalar::from_bits(BITS_ZERO))
            } else {
                match (&a.op, &b.op) {
                    (Op::Const(x), Op::Const(y)) => constant(scalar_mul(*x, *y)),
                    _ => raw2(Op::Mul, a, b),
                }
            }
        },
        Op::Pow => {
            if node_near_one(&b) {
                a
            } else if node_near_zero(&b) {
                constant(Scalar::from_bits(BITS_ONE))
            } else {
                match (&a.op, &b.op) {
                    (Op::Const(x), Op::Const(y)) => constant(scalar_pow(*x, *y)),
                    _ => raw2(Op::Pow, a, b),
                }
            }
        },
        Op::Log => {
            match (&a.op, &b.op) {
                (Op::Const(x), Op::Const(y)) => constant(scalar_div(scalar_ln(*y), scalar_ln(*x))),
                _ => raw2(Op::Log, a, b),
            }
        },
        _ => {
            proof {
                assert(false);
            }
            constant(Scalar::from_bits(BITS_ZERO))
        },
    }
}

/// Sum of two operands, simplified on construction.
pub fn add(a: Node, b: Node) -> (r: Node)
    ensures
        r@ == simplify_step(node2_v(OpV::Add, a@, b@)),
        a@.wf() && b@.wf() ==> r@.wf(),
        a@.is_simplified() && b@.is_simplified() ==> r@.is_simplified(),
{
    proof {
        if a@.wf() && b@.wf() {
            lemma_step_wf(node2_v(OpV::Add, a@, b@));
        }
        if a@.is_simplified() && b@.is_simplified() {
            lemma_step_simplified(node2_v(OpV::Add, a@, b@));
        }
    }
    simplify2(Op::Add, a, b)
}

/// Product of two operands, simplified on construction.
pub fn multiply(a: Node, b: Node) -> (r: Node)
    ensures
        r@ == simplify_step(node2_v(OpV::Mul, a@, b@)),
        a@.wf() && b@.wf() ==> r@.wf(),
        a@.is_simplified() && b@.is_simplified() ==> r@.is_simplified(),
{
    proof {
        if a@.wf() && b@.wf() {
            lemma_step_wf(node2_v(OpV::Mul, a@, b@));
        }
        if a@.is_simplified() && b@.is_simplified() {
            lemma_step_simplified(node2_v(OpV::Mul, a@, b@));
        }
    }
    simplify2(Op::Mul, a, b)
}

/// The first operand raised to the second, simplified on construction.
pub fn power(base: Node, exponent: Node) -> (r: Node)
    ensures
        r@ == simplify_step(node2_v(OpV::Pow, base@, exponent@)),
        base@.wf() && exponent@.wf() ==> r@.wf(),
        base@.is_simplified() && exponent@.is_simplified() ==> r@.is_simplified(),
{
    proof {
        if base@.wf() && exponent@.wf() {
            lemma_step_wf(node2_v(OpV::Pow, base@, exponent@));
        }
        if base@.is_simplified() && exponent@.is_simplified() {
            lemma_step_simplified(node2_v(OpV::Pow, base@, exponent@));
        }
    }
    simplify2(Op::Pow, base, exponent)
}

/// Logarithm of `value` in base `base`, simplified on construction.
pub fn log(base: Node, value: Node) -> (r: Node)
    ensures
        r@ == simplify_step(node2_v(OpV::Log, base@, value@)),
        base@.wf() && value@.wf() ==> r@.wf(),
        base@.is_simplified() && value@.is_simplified() ==> r@.is_simplified(),
{
    proof {
        if base@.wf() && value@.wf() {
            lemma_step_wf(node2_v(OpV::Log, base@, value@));
        }
        if base@.is_simplified() && value@.is_simplified() {
            lemma_step_simplified(node2_v(OpV::Log, base@, value@));
        }
    }
    simplify2(Op::Log, base, value)
}

/// Natural logarithm: the logarithm in the base of Euler's number.
pub fn ln(value: Node) -> (r: Node)
    ensures
        r@ == simplify_step(node2_v(OpV::Log, const_v(BITS_EULER), value@)),
        value@.wf() ==> r@.wf(),
        value@.is_simplified() ==> r@.is_simplified(),
{
    proof {
        lemma_const_v_simplified(BITS_EULER);
    }
    log(constant(Scalar::from_bits(BITS_EULER)), value)
}

/// Assemble a unary node without rewriting it.
pub(crate) fn raw1(op: Op, a: Node) -> (r: Node)
    ensures
        r@ == crate::tree::node1_v(op@, a@),
{
    let ghost av = a@;
    let mut args: Vec<Node> = Vec::new();
    args.push(a);
    let r = Node { op, args };
    proof {
        lemma_view_args(r.args@);
        assert(r@.args =~= seq![av]);
        assert(r@ =~= crate::tree::node1_v(r.op@, av));
    }
    r
}

/// Assemble a unary node and apply one simplification rewrite to it.
pub(crate) fn simplify1(op: Op, a: Node) -> (r: Node)
    requires
        arity(op@) == 1,
    ensures
        r@ == simplify_step(crate::tree::node1_v(op@, a@)),
{
    proof {
        reveal(simplify_step);
    }
    match op {
        Op::Sin => {
            match &a.op {
                Op::Const(x) => constant(scalar_sin(*x)),
                _ => raw1(Op::Sin, a),
            }
        },
        Op::Cos => {
            match &a.op {
                Op::Const(x) => constant(scalar_cos(*x)),
                _ => raw1(Op::Cos, a),
            }
        },
        _ => {
            proof {
                assert(false);
            }
            constant(Scalar::from_bits(BITS_ZERO))
        },
    }
}

/// Explicit engine configuration: whether freshly assembled nodes are
/// passed through the simplifier.
pub struct Settings {
    pub simplify_enabled: bool,
}

impl Default for Settings {
    /// Simplification on.
    fn default() -> (r: Settings)
        ensures
            r.simplify_enabled,
    {
        Settings { simplify_enabled: true }
    }
}

/// Assemble a node from an operator and already built children, with
/// one simplification rewrite of the new node when the settings ask for
/// it.  The children must match the operator's arity.
pub fn assemble(settings: &Settings, op: Op, args: Vec<Node>) -> (r: Node)
    requires
        args@.len() == arity(op@),
    ensures
        settings.simplify_enabled ==> r@ == simplify_step(raw_v(op@, view_args(args@))),
        !settings.simplify_enabled ==> r@ == raw_v(op@, view_args(args@)),
{
    let n = Node { op, args };
    proof {
        lemma_view_args(n.args@);
        assert(n@ =~= raw_v(n.op@, view_args(n.args@)));
    }
    if settings.simplify_enabled {
        simplify_top(n)
    } else {
        n
    }
}

/// Apply one simplification rewrite to the top node of an assembled
/// tree whose child count matches its operator.
pub(crate) fn simplify_top(n: Node) -> (r: Node)
    requires
        n.args@.len() == arity(n.op@),
    ensures
        r@ == simplify_step(n@),
{
    let ghost nv = n@;
    let ghost s = n.args@;
    proof {
        reveal(simplify_step);
        lemma_view_args(s);
    }
    match &n.op {
        Op::Var(_) | Op::Const(_) => n,
        Op::Sin | Op::Cos => {
            let mut args = n.args;
            let op = n.op;
            let a = args.pop().unwrap();
            proof {
                assert(a == s[0]);
                assert(s[0]@ == view_args(s)[0]);
                assert(view_args(s).len() == 1);
                assert(op@ == nv.op);
                assert(nv.args =~= seq![a@]);
                assert(crate::tree::node1_v(op@, a@) =~= nv);
            }
            simplify1(op, a)
        },
        _ => {
            let mut args = n.args;
            let op = n.op;
            let b = args.pop().unwrap();
            let a = args.pop().unwrap();
            proof {
                assert(b == s[1]);
                assert(a == s.drop_last()[0]);
                assert(s.drop_last()[0] == s[0]);
                assert(s[0]@ == view_args(s)[0]);
                assert(s[1]@ == view_args(s)[1]);
                assert(view_args(s).len() == 2);
                assert(op@ == nv.op);
                assert(nv.args =~= seq![a@, b@]);
                assert(node2_v(op@, a@, b@) =~= nv);
            }
            simplify2(op, a, b)
        },
    }
}

/// The whole-tree pass: re-simplify the children depth first, then the
/// node itself.  It re-canonicalises a tree that was assembled with
/// simplification off.
pub open spec fn resimplify(n: NodeV) -> NodeV
    decreases n,
{
    simplify_step(NodeV { op: n.op, args: resimplify_args(n.args) })
}

/// The whole-tree pass on a sequence of nodes, element by element.
pub open spec fn resimplify_args(s: Seq<NodeV>) -> Seq<NodeV>
    decreases s,
{
    if s.len() == 0 {
        Seq::empty()
    } else {
        proof {
            assert(decreases_to!(s => s[s.len() - 1]));
            vstd::seq::axiom_seq_len_decreases(s, s.drop_last());
        }
        resimplify_args(s.drop_last()).push(resimplify(s.last()))
    }
}

/// The whole-tree pass on a sequence, element by element.
pub proof fn lemma_resimplify_args(s: Seq<NodeV>)
    ensures
        resimplify_args(s).len() == s.len(),
        forall|i: int| 0 <= i < s.len() ==> resimplify_args(s)[i] == resimplify(s[i]),
    decreases s.len(),
{
    if s.len() > 0 {
        lemma_resimplify_args(s.drop_last());
        assert(resimplify_args(s) == resimplify_args(s.drop_last()).push(resimplify(s.last())));
        assert forall|i: int| 0 <= i < s.len() implies resimplify_args(s)[i] == resimplify(s[i]) by {
            if i < s.len() - 1 {
                assert(s.drop_last()[i] == s[i]);
                assert(resimplify_args(s)[i] == resimplify_args(s.drop_last())[i]);
            } else {
                assert(resimplify_args(s)[i] == resimplify(s.last()));
            }
        }
    }
}

/// The whole-tree pass leaves a well-formed tree fully simplified.
pub proof fn lemma_resimplify_simplified(n: NodeV)
    requires
        n.wf(),
    ensures
        resimplify(n).is_simplified(),
    decreases n,
{
    let m = NodeV { op: n.op, args: resimplify_args(n.args) };
    lemma_resimplify_args(n.args);
    assert forall|i: int| 0 <= i < m.args.len() implies (#[trigger] m.args[i]).is_simplified() by {
        assert(n.args[i].wf());
        lemma_resimplify_simplified(n.args[i]);
    }
    lemma_step_simplified(m);
}

/// The whole-tree pass does nothing to a tree that is already fully
/// simplified.
pub proof fn lemma_resimplify_of_simplified(n: NodeV)
    requires
        n.is_simplified(),
    ensures
        resimplify(n) == n,
    decreases n,
{
    let m = NodeV { op: n.op, args: resimplify_args(n.args) };
    lemma_resimplify_args(n.args);
    assert forall|i: int| 0 <= i < n.args.len() implies resimplify_args(n.args)[i] == n.args[i] by {
        assert(n.args[i].is_simplified());
        lemma_resimplify_of_simplified(n.args[i]);
    }
    assert(m.args =~= n.args);
    assert(m == n);
}

/// Applying the whole-tree pass twice yields the same tree as applying
/// it once: re-simplification is idempotent.
pub proof fn lemma_resimplify_idempotent(n: NodeV)
    requires
        n.wf(),
    ensures
        resimplify(resimplify(n)) == resimplify(n),
{
    lemma_resimplify_simplified(n);
    lemma_resimplify_of_simplified(resimplify(n));
}

/// The whole-tree pass, executed: simplify the children depth first,
/// then the node itself.  The result is fully simplified.
pub fn resimplify_tree(n: &Node) -> (r: Node)
    requires
        n@.wf(),
    ensures
        r@ == resimplify(n@),
        r@.is_simplified(),
    decreases n,
{
    proof {
        reveal(simplify_step);
        lemma_view_args(n.args@);
        lemma_resimplify_args(n@.args);
        lemma_resimplify_simplified(n@);
    }
    let op = crate::tree::clone_op(&n.op);
    match &n.op {
        Op::Var(_) | Op::Const(_) => {
            let r = Node { op, args: Vec::new() };
            proof {
                lemma_view_args(r.args@);
                assert(r@.args =~= n@.args);
                assert(r@.args =~= resimplify_args(n@.args));
                assert(r@ =~= resimplify(n@));
            }
            r
        },
        Op::Sin | Op::Cos => {
            proof {
                assert(decreases_to!(*n => n.args));
                assert(decreases_to!(n.args => n.args@));
                assert(decreases_to!(n.args@ => n.args@[0]));
                assert(n@.args[0].wf());
            }
            let a = resimplify_tree(&n.args[0]);
            let r = simplify1(op, a);
            proof {
                assert(crate::tree::node1_v(op@, a@).args =~= resimplify_args(n@.args));
                assert(crate::tree::node1_v(op@, a@) =~= NodeV { op: n@.op, args: resimplify_args(n@.args) });
            }
            r
        },
        _ => {
            proof {
                assert(decreases_to!(*n => n.args));
                assert(decreases_to!(n.args => n.args@));
                assert(decreases_to!(n.args@ => n.args@[0]));
                assert(decreases_to!(n.args@ => n.args@[1]));
                assert(n@.args[0].wf());
                assert(n@.args[1].wf());
            }
            let a = resimplify_tree(&n.args[0]);
            let b = resimplify_tree(&n.args[1]);
            let r = simplify2(op, a, b);
            proof {
                assert(node2_v(op@, a@, b@).args =~= resimplify_args(n@.args));
                assert(node2_v(op@, a@, b@) =~= NodeV { op: n@.op, args: resimplify_args(n@.args) });
            }
            r
        },
    }
}

/// Sine of the operand, simplified on construction.
pub fn sine(value: Node) -> (r: Node)
    ensures
        r@ == simplify_step(crate::tree::node1_v(OpV::Sin, value@)),
        value@.wf() ==> r@.wf(),
        value@.is_simplified() ==> r@.is_simplified(),
{
    proof {
        if value@.wf() {
            lemma_step_wf(crate::tree::node1_v(OpV::Sin, value@));
        }
        if value@.is_simplified() {
            lemma_step_simplified(crate::tree::node1_v(OpV::Sin, value@));
        }
    }
    simplify1(Op::Sin, value)
}

/// Cosine of the operand, simplified on construction.
pub fn cosine(value: Node) -> (r: Node)
    ensures
        r@ == simplify_step(crate::tree::node1_v(OpV::Cos, value@)),
        value@.wf() ==> r@.wf(),
        value@.is_simplified() ==> r@.is_simplified(),
{
    proof {
        if value@.wf() {
            lemma_step_wf(crate::tree::node1_v(OpV::Cos, value@));
        }
        if value@.is_simplified() {
            lemma_step_simplified(crate::tree::node1_v(OpV::Cos, value@));
        }
    }
    simplify1(Op::Cos, value)
}

} // verus!
