//! The expression tree: an operator tag plus an ordered sequence of
//! exclusively owned child nodes.
//!
//! The arity of a node is fixed by its operator: the binary operators
//! (addition, multiplication, power, logarithm) take exactly two
//! children, the unary ones (sine, cosine) exactly one, and the leaves
//! (variable, constant) none.  Every function that builds a node keeps
//! this invariant, stated by `NodeV::wf`.
//!
//! `Node` is the executable tree; its fields stay private to the crate,
//! so every tree a caller can hold went through the builders of this
//! crate.  `NodeV` is its mathematical image, used by every contract.

use vstd::prelude::*;

use crate::scalar::Scalar;

verus! {

broadcast use vstd::std_specs::vec::axiom_vec_index_decreases;

/// The operator tag of a node.
#[derive(Clone, Debug)]
pub enum Op {
    /// Sum of two operands.
    Add,
    /// Product of two operands.
    Mul,
    /// First operand raised to the second (real power).
    Pow,
    /// Sine of the operand.
    Sin,
    /// Cosine of the operand.
    Cos,
    /// Logarithm of the second operand in the base given by the first.
    Log,
    /// A named input, no operands.
    Var(String),
    /// A literal, no operands.
    Const(Scalar),
}

/// One node of an expression tree.
pub struct Node {
    pub(crate) op: Op,
    pub(crate) args: Vec<Node>,
}

/// The mathematical image of an operator tag.
pub ghost enum OpV {
    Add,
    Mul,
    Pow,
    Sin,
    Cos,
    Log,
    Var(Seq<char>),
    Const(u64),
}

/// The mathematical image of a node.
#[verifier::ext_equal]
pub ghost struct NodeV {
    pub op: OpV,
    pub args: Seq<NodeV>,
}

impl Op {
    /// The image of an operator tag.
    pub open spec fn view(&self) -> OpV {
        match self {
            Op::Add => OpV::Add,
            Op::Mul => OpV::Mul,
            Op::Pow => OpV::Pow,
            Op::Sin => OpV::Sin,
            Op::Cos => OpV::Cos,
            Op::Log => OpV::Log,
            Op::Var(name) => OpV::Var(name@),
            Op::Const(c) => OpV::Const(c.bits),
        }
    }
}

/// How many children a node with this operator takes.
pub open spec fn arity(op: OpV) -> nat {
    match op {
        OpV::Add | OpV::Mul | OpV::Pow | OpV::Log => 2,
        OpV::Sin | OpV::Cos => 1,
        OpV::Var(_) | OpV::Const(_) => 0,
    }
}

impl NodeV {
    /// The arity invariant: every node of the tree has exactly as many
    /// children as its operator takes.
    pub open spec fn wf(self) -> bool
        decreases self,
    {
        &&& self.args.len() == arity(self.op)
        &&& forall|i: int| 0 <= i < self.args.len() ==> (#[trigger] self.args[i]).wf()
    }
}

impl View for Node {
    type V = NodeV;

    open(crate) spec fn view(&self) -> NodeV
        decreases *self,
    {
        proof {
            assert(decreases_to!(*self => self.args));
            assert(decreases_to!(self.args => self.args@));
        }
        NodeV { op: self.op@, args: view_args(self.args@) }
    }
}

/// The images of a sequence of nodes, in order.
pub open(crate) spec fn view_args(s: Seq<Node>) -> Seq<NodeV>
    decreases s,
{
    if s.len() == 0 {
        Seq::empty()
    } else {
        proof {
            assert(decreases_to!(s => s[s.len() - 1]));
            vstd::seq::axiom_seq_len_decreases(s, s.drop_last());
        }
        view_args(s.drop_last()).push(s.last()@)
    }
}

/// The images of a sequence of nodes, element by element.
pub(crate) broadcast proof fn lemma_view_args(s: Seq<Node>)
    ensures
        #![trigger view_args(s)]
        view_args(s).len() == s.len(),
        forall|i: int| 0 <= i < s.len() ==> view_args(s)[i] == s[i]@,
    decreases s.len(),
{
    if s.len() > 0 {
        lemma_view_args(s.drop_last());
        assert(view_args(s) == view_args(s.drop_last()).push(s.last()@));
        assert forall|i: int| 0 <= i < s.len() implies view_args(s)[i] == s[i]@ by {
            if i < s.len() - 1 {
                assert(s.drop_last()[i] == s[i]);
                assert(view_args(s)[i] == view_args(s.drop_last())[i]);
            } else {
                assert(view_args(s)[i] == s.last()@);
            }
        }
    }
}

/// A copy of an operator tag, field for field.
pub(crate) fn clone_op(op: &Op) -> (r: Op)
    ensures
        r@ == op@,
{
    match op {
        Op::Add => Op::Add,
        Op::Mul => Op::Mul,
        Op::Pow => Op::Pow,
        Op::Sin => Op::Sin,
        Op::Cos => Op::Cos,
        Op::Log => Op::Log,
        Op::Var(name) => Op::Var(name.clone()),
        Op::Const(c) => Op::Const(*c),
    }
}

impl Clone for Node {
    /// A deep copy: the copy has the same image as the original, so a
    /// subexpression can be reused by cloning it.
    fn clone(&self) -> (res: Node)
        ensures
            res@ == self@,
        decreases *self,
    {
        let mut kids: Vec<Node> = Vec::new();
        let mut i: usize = 0;
        while i < self.args.len()
            invariant
                i <= self.args.len(),
                kids@.len() == i as int,
                forall|j: int| 0 <= j < i as int ==> kids@[j]@ == self.args@[j]@,
            decreases self.args.len() - i,
        {
            proof {
                assert(decreases_to!(*self => self.args));
                assert(decreases_to!(self.args => self.args@));
                assert(decreases_to!(self.args@ => self.args@[i as int]));
            }
            kids.push(self.args[i].clone());
            i = i + 1;
        }
        let res = Node { op: clone_op(&self.op), args: kids };
        proof {
            lemma_view_args(res.args@);
            lemma_view_args(self.args@);
            assert(view_args(res.args@) =~= view_args(self.args@));
            assert(res@ =~= self@);
        }
        res
    }
}

/// A node as assembled, before any rewrite.
pub open spec fn raw_v(op: OpV, args: Seq<NodeV>) -> NodeV {
    NodeV { op, args }
}

/// A leaf holding a literal.
pub open spec fn const_v(bits: u64) -> NodeV {
    NodeV { op: OpV::Const(bits), args: seq![] }
}

/// A leaf naming an input.
pub open spec fn var_v(name: Seq<char>) -> NodeV {
    NodeV { op: OpV::Var(name), args: seq![] }
}

/// An unsimplified unary node.
pub open spec fn node1_v(op: OpV, a: NodeV) -> NodeV {
    NodeV { op, args: seq![a] }
}

/// An unsimplified binary node.
pub open spec fn node2_v(op: OpV, a: NodeV, b: NodeV) -> NodeV {
    NodeV { op, args: seq![a, b] }
}

} // verus!
