//! Structural differentiation.
//!
//! `derivative` gives the partial derivative of a tree with respect to
//! a named variable, purely by shape: no evaluation happens.  Every
//! intermediate node of the result goes through one simplification
//! rewrite as it is built, exactly as the executable
//! `Node::partial_derivative` builds its result through the simplifying
//! constructors, so zero and one terms cancel as the result is
//! assembled.
//!
//! Division never appears: a quotient is always expressed as
//! multiplication by a power with exponent minus one.

use vstd::prelude::*;

use crate::scalar::BITS_EULER;
use crate::scalar::BITS_NEG_ONE;
use crate::scalar::BITS_NEG_TWO;
use crate::scalar::BITS_ONE;
use crate::scalar::BITS_ZERO;
use crate::scalar::Scalar;
use crate::simplify::constant;
use crate::simplify::cosine;
use crate::simplify::ln;
use crate::simplify::log;
use crate::simplify::multiply;
use crate::simplify::power;
use crate::simplify::simplify_step;
use crate::simplify::sine;
use crate::tree::Node;
use crate::tree::NodeV;
use crate::tree::Op;
use crate::tree::OpV;
use crate::tree::arity;
use crate::tree::const_v;
use crate::tree::lemma_view_args;
use crate::tree::node1_v;
use crate::tree::node2_v;

verus! {

/// A sum node as the simplifying constructor builds it.
pub open spec fn add_s(a: NodeV, b: NodeV) -> NodeV {
    simplify_step(node2_v(OpV::Add, a, b))
}

/// A product node as the simplifying constructor builds it.
pub open spec fn mul_s(a: NodeV, b: NodeV) -> NodeV {
    simplify_step(node2_v(OpV::Mul, a, b))
}

/// A power node as the simplifying constructor builds it.
pub open spec fn pow_s(a: NodeV, b: NodeV) -> NodeV {
    simplify_step(node2_v(OpV::Pow, a, b))
}

/// A logarithm node as the simplifying constructor builds it.
pub open spec fn log_s(a: NodeV, b: NodeV) -> NodeV {
    simplify_step(node2_v(OpV::Log, a, b))
}

/// A sine node as the simplifying constructor builds it.
pub open spec fn sin_s(a: NodeV) -> NodeV {
    simplify_step(node1_v(OpV::Sin, a))
}

/// A cosine node as the simplifying constructor builds it.
pub open spec fn cos_s(a: NodeV) -> NodeV {
    simplify_step(node1_v(OpV::Cos, a))
}

/// A natural logarithm: a logarithm in the base of Euler's number.
pub open spec fn ln_s(a: NodeV) -> NodeV {
    log_s(const_v(BITS_EULER), a)
}

/// The partial derivative of a tree with respect to the variable `x`,
/// built bottom-up through the simplifying constructors.
///
/// The rules, writing `a` and `b` for the operands and `da`, `db` for
/// their derivatives:
/// - a variable is one when it is `x`, else zero; a constant is zero;
/// - sum: `da + db`;
/// - product: `da*b + a*db`;
/// - power: `a^b * (db*ln(a) + b*da*a^-1)`, the combined logarithmic
///   form covering variable base and variable exponent at once;
/// - sine: `cos(a) * da`; cosine: `-1 * sin(a) * da`;
/// - logarithm (base `a` of `b`): `(db*b^-1*ln(a) + -1*da*a^-1*ln(b)) *
///   ln(a)^-2`, the quotient rule for `ln(b)/ln(a)` written with powers.
///
/// A node whose child count does not match its operator has derivative
/// zero; the trees of this crate never contain one.
#[verifier::opaque]
pub open spec fn derivative(n: NodeV, x: Seq<char>) -> NodeV
    decreases n,
{
    if n.args.len() != arity(n.op) {
        const_v(BITS_ZERO)
    } else {
        match n.op {
            OpV::Var(name) => if name == x {
                const_v(BITS_ONE)
            } else {
                const_v(BITS_ZERO)
            },
            OpV::Const(_) => const_v(BITS_ZERO),
            OpV::Add => add_s(derivative(n.args[0], x), derivative(n.args[1], x)),
            OpV::Mul => {
                let a = n.args[0];
                let b = n.args[1];
                add_s(mul_s(derivative(a, x), b), mul_s(a, derivative(b, x)))
            },
            OpV::Pow => {
                let a = n.args[0];
                let b = n.args[1];
                mul_s(
                    pow_s(a, b),
                    add_s(
                        mul_s(derivative(b, x), ln_s(a)),
                        mul_s(mul_s(b, derivative(a, x)), pow_s(a, const_v(BITS_NEG_ONE))),
                    ),
                )
            },
            OpV::Sin => mul_s(cos_s(n.args[0]), derivative(n.args[0], x)),
            OpV::Cos => mul_s(
                mul_s(const_v(BITS_NEG_ONE), sin_s(n.args[0])),
                derivative(n.args[0], x),
            ),
            OpV::Log => {
                let a = n.args[0];
                let b = n.args[1];
                mul_s(
                    add_s(
                        mul_s(mul_s(derivative(b, x), pow_s(b, const_v(BITS_NEG_ONE))), ln_s(a)),
                        mul_s(
                            mul_s(mul_s(const_v(BITS_NEG_ONE), derivative(a, x)), pow_s(a, const_v(BITS_NEG_ONE))),
                            ln_s(b),
                        ),
                    ),
                    pow_s(ln_s(a), const_v(BITS_NEG_TWO)),
                )
            },
        }
    }
}

/// A constant leaf from a bit pattern.
fn c_bits(bits: u64) -> (r: Node)
    ensures
        r@ == const_v(bits),
        r@.is_simplified(),
{
    constant(Scalar::from_bits(bits))
}

impl Node {
    /// The partial derivative of this tree with respect to the named
    /// variable: a new tree, simplified at every node as it is built.
    /// The original tree is not changed.
    #[verifier::rlimit(100)]
    pub fn partial_derivative(&self, variable: &String) -> (r: Node)
        requires
            self@.wf(),
        ensures
            r@ == derivative(self@, variable@),
            r@.wf(),
            self@.is_simplified() ==> r@.is_simplified(),
        decreases self,
    {
        proof {
            reveal_with_fuel(derivative, 2);
            lemma_view_args(self.args@);
            if self@.is_simplified() {
                assert forall|i: int| 0 <= i < self@.args.len() implies (#[trigger] self@.args[i]).is_simplified() by {}
            }
            assert forall|i: int| 0 <= i < self@.args.len() implies (#[trigger] self@.args[i]).wf() by {}
            assert(decreases_to!(*self => self.args));
            assert(decreases_to!(self.args => self.args@));
        }
        match &self.op {
            Op::Var(name) => {
                let r = if *name == *variable {
                    c_bits(BITS_ONE)
                } else {
                    c_bits(BITS_ZERO)
                };
                proof { assert(r@ == derivative(self@, variable@)); }
                r
            },
            Op::Const(_) => {
                let r = c_bits(BITS_ZERO);
                proof { assert(r@ == derivative(self@, variable@)); }
                r
            },
            Op::Add => {
                proof {
                    assert(decreases_to!(self.args@ => self.args@[0]));
                    assert(decreases_to!(self.args@ => self.args@[1]));
                    assert(self.args@[0]@ == self@.args[0]);
                    assert(self.args@[1]@ == self@.args[1]);
                }
                let da = self.args[0].partial_derivative(variable);
                let db = self.args[1].partial_derivative(variable);
                let r = crate::simplify::add(da, db);
                proof { assert(r@ == derivative(self@, variable@)); }
                r
            },
            Op::Mul => {
                proof {
                    assert(decreases_to!(self.args@ => self.args@[0]));
                    assert(decreases_to!(self.args@ => self.args@[1]));
                    assert(self.args@[0]@ == self@.args[0]);
                    assert(self.args@[1]@ == self@.args[1]);
                }
                let da = self.args[0].partial_derivative(variable);
                let db = self.args[1].partial_derivative(variable);
                let a = self.args[0].clone();
                let b = self.args[1].clone();
                let r = crate::simplify::add(multiply(da, b), multiply(a, db));
                proof { assert(r@ == derivative(self@, variable@)); }
                r
            },
            Op::Pow => {
                proof {
                    assert(decreases_to!(self.args@ => self.args@[0]));
                    assert(decreases_to!(self.args@ => self.args@[1]));
                    assert(self.args@[0]@ == self@.args[0]);
                    assert(self.args@[1]@ == self@.args[1]);
                }
                let da = self.args[0].partial_derivative(variable);
                let db = self.args[1].partial_derivative(variable);
                let a = self.args[0].clone();
                let b = self.args[1].clone();
                let r = multiply(
                    power(a.clone(), b.clone()),
                    crate::simplify::add(
                        multiply(db, ln(a.clone())),
                        multiply(multiply(b, da), power(a, c_bits(BITS_NEG_ONE))),
                    ),
                );
                proof { assert(r@ == derivative(self@, variable@)); }
                r
            },
            Op::Sin => {
                proof {
                    assert(decreases_to!(self.args@ => self.args@[0]));
                    assert(self.args@[0]@ == self@.args[0]);
                }
                let da = self.args[0].partial_derivative(variable);
                let a = self.args[0].clone();
                let r = multiply(cosine(a), da);
                proof { assert(r@ == derivative(self@, variable@)); }
                r
            },
            Op::Cos => {
                proof {
                    assert(decreases_to!(self.args@ => self.args@[0]));
                    assert(self.args@[0]@ == self@.args[0]);
                }
                let da = self.args[0].partial_derivative(variable);
                let a = self.args[0].clone();
                let r = multiply(multiply(c_bits(BITS_NEG_ONE), sine(a)), da);
                proof { assert(r@ == derivative(self@, variable@)); }
                r
            },
            Op::Log => {
                proof {
                    assert(decreases_to!(self.args@ => self.args@[0]));
                    assert(decreases_to!(self.args@ => self.args@[1]));
                    assert(self.args@[0]@ == self@.args[0]);
                    assert(self.args@[1]@ == self@.args[1]);
                }
                let da = self.args[0].partial_derivative(variable);
                let db = self.args[1].partial_derivative(variable);
                let a = self.args[0].clone();
                let b = self.args[1].clone();
                let r = multiply(
                    crate::simplify::add(
                        multiply(multiply(db, power(b.clone(), c_bits(BITS_NEG_ONE))), ln(a.clone())),
                        multiply(
                            multiply(multiply(c_bits(BITS_NEG_ONE), da), power(a.clone(), c_bits(BITS_NEG_ONE))),
                            ln(b),
                        ),
                    ),
                    power(ln(a), c_bits(BITS_NEG_TWO)),
                );
                proof { assert(r@ == derivative(self@, variable@)); }
                r
            },
        }
    }
}

} // verus!
