//! Numeric evaluation of an expression tree under variable bindings.
//!
//! Children are evaluated left to right before the node's own operator
//! combines them, and the first unbound variable met in that order stops
//! evaluation with an error naming it.  Nothing is cached: every call is
//! a fresh walk of the tree.

use vstd::prelude::*;

use crate::scalar::BITS_ZERO;
use crate::scalar::Scalar;
use crate::scalar::cos_bits;
use crate::scalar::ln_bits;
use crate::scalar::pow_bits;
use crate::scalar::prod_bits;
use crate::scalar::quot_bits;
use crate::scalar::scalar_add;
use crate::scalar::scalar_cos;
use crate::scalar::scalar_div;
use crate::scalar::scalar_ln;
use crate::scalar::scalar_mul;
use crate::scalar::scalar_pow;
use crate::scalar::scalar_sin;
use crate::scalar::sin_bits;
use crate::scalar::sum_bits;
use crate::tree::Node;
use crate::tree::NodeV;
use crate::tree::Op;
use crate::tree::OpV;
use crate::tree::arity;
use crate::tree::lemma_view_args;
use vstd::string::StringExecFns;

verus! {

/// A table of variable bindings: names mapped to scalar values, a later
/// binding of a name overriding an earlier one.
pub struct Bindings {
    pub(crate) entries: Vec<(String, Scalar)>,
}

/// The mapping a list of bindings denotes, entry by entry.
pub open(crate) spec fn map_of(s: Seq<(String, Scalar)>) -> Map<Seq<char>, u64>
    decreases s.len(),
{
    if s.len() == 0 {
        Map::empty()
    } else {
        map_of(s.drop_last()).insert(s.last().0@, s.last().1.bits)
    }
}

impl View for Bindings {
    type V = Map<Seq<char>, u64>;

    open(crate) spec fn view(&self) -> Map<Seq<char>, u64> {
        map_of(self.entries@)
    }
}

/// A key bound nowhere in the list is not in the mapping.
proof fn lemma_map_of_absent(s: Seq<(String, Scalar)>, key: Seq<char>)
    requires
        forall|j: int| 0 <= j < s.len() ==> (#[trigger] s[j]).0@ != key,
    ensures
        !map_of(s).dom().contains(key),
    decreases s.len(),
{
    if s.len() > 0 {
        assert(s[s.len() - 1].0@ != key);
        assert forall|j: int| 0 <= j < s.drop_last().len() implies (#[trigger] s.drop_last()[j]).0@ != key by {
            assert(s.drop_last()[j] == s[j]);
        }
        lemma_map_of_absent(s.drop_last(), key);
    }
}

/// The mapping sends a key to the value of its last binding.
proof fn lemma_map_of_found(s: Seq<(String, Scalar)>, i: int, key: Seq<char>)
    requires
        0 <= i < s.len(),
        s[i].0@ == key,
        forall|j: int| i < j < s.len() ==> (#[trigger] s[j]).0@ != key,
    ensures
        map_of(s).dom().contains(key),
        map_of(s)[key] == s[i].1.bits,
    decreases s.len(),
{
    if i == s.len() - 1 {
    } else {
        assert(s[s.len() - 1].0@ != key);
        assert(s.drop_last()[i] == s[i]);
        assert forall|j: int| i < j < s.drop_last().len() implies (#[trigger] s.drop_last()[j]).0@ != key by {
            assert(s.drop_last()[j] == s[j]);
        }
        lemma_map_of_found(s.drop_last(), i, key);
    }
}

impl Bindings {
    /// An empty table.
    pub fn new() -> (r: Bindings)
        ensures
            r@ == Map::<Seq<char>, u64>::empty(),
    {
        Bindings { entries: Vec::new() }
    }

    /// Bind a name to a value, overriding any earlier binding of it.
    pub fn set(&mut self, name: &str, value: Scalar)
        ensures
            final(self)@ == old(self)@.insert(name@, value.bits),
    {
        let ghost before = self.entries@;
        self.entries.push((String::from_str(name), value));
        proof {
            assert(self.entries@.drop_last() =~= before);
        }
    }

    /// The value bound to a name, if any.
    pub fn get(&self, name: &String) -> (r: Option<Scalar>)
        ensures
            (match r {
                Some(v) => self@.dom().contains(name@) && v.bits == self@[name@],
                None => !self@.dom().contains(name@),
            }),
    {
        let mut i: usize = self.entries.len();
        while i > 0
            invariant
                i <= self.entries@.len(),
                forall|j: int| i <= j < self.entries@.len() ==> (#[trigger] self.entries@[j]).0@ != name@,
            decreases i,
        {
            i = i - 1;
            if self.entries[i].0 == *name {
                proof {
                    lemma_map_of_found(self.entries@, i as int, name@);
                }
                return Some(self.entries[i].1);
            }
        }
        proof {
            lemma_map_of_absent(self.entries@, name@);
        }
        None
    }

    /// Whether a name is bound.
    pub fn contains(&self, name: &String) -> (r: bool)
        ensures
            r == self@.dom().contains(name@),
    {
        self.get(name).is_some()
    }
}

/// Evaluation failure.
#[derive(Debug)]
pub enum EvalError {
    /// The named variable had no binding.
    UnboundVariable(String),
}

/// The value of a tree under a mapping of variable bindings, or the
/// first unbound variable met in evaluation order (children left to
/// right, depth first).
///
/// Each operator combines the values of its children: sum, product,
/// real power, sine, cosine; a logarithm node takes its first operand
/// as the base and divides the natural logarithm of the value by the
/// natural logarithm of the base.  A node whose child count does not
/// match its operator evaluates to zero; the trees of this crate never
/// contain one.
pub open spec fn eval_node(n: NodeV, m: Map<Seq<char>, u64>) -> Result<u64, Seq<char>>
    decreases n,
{
    if n.args.len() != arity(n.op) {
        Ok(BITS_ZERO)
    } else {
        match n.op {
            OpV::Const(b) => Ok(b),
            OpV::Var(name) => if m.dom().contains(name) {
                Ok(m[name])
            } else {
                Err(name)
            },
            OpV::Sin => match eval_node(n.args[0], m) {
                Err(e) => Err(e),
                Ok(a) => Ok(sin_bits(a)),
            },
            OpV::Cos => match eval_node(n.args[0], m) {
                Err(e) => Err(e),
                Ok(a) => Ok(cos_bits(a)),
            },
            OpV::Add => match (eval_node(n.args[0], m), eval_node(n.args[1], m)) {
                (Err(e), _) => Err(e),
                (Ok(_), Err(e)) => Err(e),
                (Ok(a), Ok(b)) => Ok(sum_bits(a, b)),
            },
            OpV::Mul => match (eval_node(n.args[0], m), eval_node(n.args[1], m)) {
                (Err(e), _) => Err(e),
                (Ok(_), Err(e)) => Err(e),
                (Ok(a), Ok(b)) => Ok(prod_bits(a, b)),
            },
            OpV::Pow => match (eval_node(n.args[0], m), eval_node(n.args[1], m)) {
                (Err(e), _) => Err(e),
                (Ok(_), Err(e)) => Err(e),
                (Ok(a), Ok(b)) => Ok(pow_bits(a, b)),
            },
            OpV::Log => match (eval_node(n.args[0], m), eval_node(n.args[1], m)) {
                (Err(e), _) => Err(e),
                (Ok(_), Err(e)) => Err(e),
                (Ok(a), Ok(b)) => Ok(quot_bits(ln_bits(b), ln_bits(a))),
            },
        }
    }
}

/// The set of variable names a tree mentions.
pub open spec fn vars_of(n: NodeV) -> Set<Seq<char>>
    decreases n,
{
    if n.args.len() != arity(n.op) {
        Set::empty()
    } else {
        match n.op {
            OpV::Var(name) => Set::empty().insert(name),
            OpV::Const(_) => Set::empty(),
            OpV::Sin | OpV::Cos => vars_of(n.args[0]),
            OpV::Add | OpV::Mul | OpV::Pow | OpV::Log => vars_of(n.args[0]).union(
                vars_of(n.args[1]),
            ),
        }
    }
}

/// Evaluation of a well-formed tree succeeds exactly when every
/// variable the tree mentions is bound.
pub proof fn lemma_eval_ok_iff_bound(n: NodeV, m: Map<Seq<char>, u64>)
    requires
        n.wf(),
    ensures
        (eval_node(n, m) is Ok) <==> vars_of(n).subset_of(m.dom()),
    decreases n,
{
    if arity(n.op) >= 1 {
        assert(n.args[0].wf());
        lemma_eval_ok_iff_bound(n.args[0], m);
    }
    if arity(n.op) == 2 {
        assert(n.args[1].wf());
        lemma_eval_ok_iff_bound(n.args[1], m);
    }
}

impl Node {
    /// Evaluate the tree under the given bindings: children first, left
    /// to right, then the node's operator.  Returns an error naming the
    /// first unbound variable met, and a value otherwise.
    pub fn evaluate(&self, bindings: &Bindings) -> (r: Result<Scalar, EvalError>)
        requires
            self@.wf(),
        ensures
            (match (r, eval_node(self@, bindings@)) {
                (Ok(v), Ok(bits)) => v.bits == bits,
                (Err(EvalError::UnboundVariable(nm)), Err(missing)) => nm@ == missing,
                _ => false,
            }),
        decreases self,
    {
        proof {
            lemma_view_args(self.args@);
            assert forall|i: int| 0 <= i < self@.args.len() implies (#[trigger] self@.args[i]).wf() by {}
            assert(decreases_to!(*self => self.args));
            assert(decreases_to!(self.args => self.args@));
        }
        match &self.op {
            Op::Const(c) => Ok(*c),
            Op::Var(name) => match bindings.get(name) {
                Some(v) => Ok(v),
                None => Err(EvalError::UnboundVariable(name.clone())),
            },
            Op::Sin => {
                proof {
                    assert(decreases_to!(self.args@ => self.args@[0]));
                    assert(self.args@[0]@ == self@.args[0]);
                }
                match self.args[0].evaluate(bindings) {
                    Err(e) => Err(e),
                    Ok(a) => Ok(scalar_sin(a)),
                }
            },
            Op::Cos => {
                proof {
                    assert(decreases_to!(self.args@ => self.args@[0]));
                    assert(self.args@[0]@ == self@.args[0]);
                }
                match self.args[0].evaluate(bindings) {
                    Err(e) => Err(e),
                    Ok(a) => Ok(scalar_cos(a)),
                }
            },
            Op::Add => {
                proof {
                    assert(decreases_to!(self.args@ => self.args@[0]));
                    assert(decreases_to!(self.args@ => self.args@[1]));
                    assert(self.args@[0]@ == self@.args[0]);
                    assert(self.args@[1]@ == self@.args[1]);
                }
                match self.args[0].evaluate(bindings) {
                    Err(e) => Err(e),
                    Ok(a) => match self.args[1].evaluate(bindings) {
                        Err(e) => Err(e),
                        Ok(b) => Ok(scalar_add(a, b)),
                    },
                }
            },
            Op::Mul => {
                proof {
                    assert(decreases_to!(self.args@ => self.args@[0]));
                    assert(decreases_to!(self.args@ => self.args@[1]));
                    assert(self.args@[0]@ == self@.args[0]);
                    assert(self.args@[1]@ == self@.args[1]);
                }
                match self.args[0].evaluate(bindings) {
                    Err(e) => Err(e),
                    Ok(a) => match self.args[1].evaluate(bindings) {
                        Err(e) => Err(e),
                        Ok(b) => Ok(scalar_mul(a, b)),
                    },
                }
            },
            Op::Pow => {
                proof {
                    assert(decreases_to!(self.args@ => self.args@[0]));
                    assert(decreases_to!(self.args@ => self.args@[1]));
                    assert(self.args@[0]@ == self@.args[0]);
                    assert(self.args@[1]@ == self@.args[1]);
                }
                match self.args[0].evaluate(bindings) {
                    Err(e) => Err(e),
                    Ok(a) => match self.args[1].evaluate(bindings) {
                        Err(e) => Err(e),
                        Ok(b) => Ok(scalar_pow(a, b)),
                    },
                }
            },
            Op::Log => {
                proof {
                    assert(decreases_to!(self.args@ => self.args@[0]));
                    assert(decreases_to!(self.args@ => self.args@[1]));
                    assert(self.args@[0]@ == self@.args[0]);
                    assert(self.args@[1]@ == self@.args[1]);
                }
                match self.args[0].evaluate(bindings) {
                    Err(e) => Err(e),
                    Ok(base) => match self.args[1].evaluate(bindings) {
                        Err(e) => Err(e),
                        Ok(value) => Ok(scalar_div(scalar_ln(value), scalar_ln(base))),
                    },
                }
            },
        }
    }
}

} // verus!
