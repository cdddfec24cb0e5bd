//! Proved laws of the engine, stated over the mathematical images of
//! trees so that each holds for every binding and every operand.

use vstd::prelude::*;

use crate::deriv::add_s;
use crate::deriv::cos_s;
use crate::deriv::derivative;
use crate::deriv::mul_s;
use crate::deriv::sin_s;
use crate::eval::eval_node;
use crate::scalar::BITS_NEG_ONE;
use crate::scalar::BITS_ONE;
use crate::scalar::BITS_ZERO;
use crate::simplify::const_node;
use crate::simplify::near_one_node;
use crate::simplify::near_zero_node;
use crate::simplify::simplify_step;
use crate::tree::NodeV;
use crate::tree::OpV;
use crate::tree::const_v;
use crate::tree::node1_v;
use crate::tree::node2_v;
use crate::tree::var_v;

verus! {

/// Encoding of two.
pub const BITS_TWO: u64 = 0x4000_0000_0000_0000;

/// Encoding of three.
pub const BITS_THREE: u64 = 0x4008_0000_0000_0000;

/// Encoding of four.
pub const BITS_FOUR: u64 = 0x4010_0000_0000_0000;

/// Encoding of five.
pub const BITS_FIVE: u64 = 0x4014_0000_0000_0000;

/// Multiplying any node by the constant one on the left simplifies to
/// that node unchanged.
pub proof fn lemma_one_times(n: NodeV)
    ensures
        mul_s(const_v(BITS_ONE), n) == n,
{
    reveal(simplify_step);
}

/// Multiplying by the constant one on the right simplifies to the left
/// operand unchanged, as long as that operand is not itself a constant
/// within the tolerance of one (such a constant is dropped in favour of
/// the exact one on the right).
pub proof fn lemma_times_one(n: NodeV)
    requires
        !near_one_node(n),
    ensures
        mul_s(n, const_v(BITS_ONE)) == n,
{
    reveal(simplify_step);
}

/// Adding the constant zero on the left simplifies to the other operand
/// unchanged.
pub proof fn lemma_zero_plus(n: NodeV)
    ensures
        add_s(const_v(BITS_ZERO), n) == n,
{
    reveal(simplify_step);
}

/// Adding the constant zero on the right simplifies to the left operand
/// unchanged, as long as that operand is not itself a constant within
/// the tolerance of zero (such a constant is dropped in favour of the
/// exact zero on the right).
pub proof fn lemma_plus_zero(n: NodeV)
    requires
        !near_zero_node(n),
    ensures
        add_s(n, const_v(BITS_ZERO)) == n,
{
    reveal(simplify_step);
}

/// Multiplying any node by the constant zero annihilates it to the
/// constant zero, as long as the node is not a constant within the
/// tolerance of one (which would be dropped first).
pub proof fn lemma_zero_times(n: NodeV)
    requires
        !near_one_node(n),
    ensures
        mul_s(const_v(BITS_ZERO), n) == const_v(BITS_ZERO),
{
    reveal(simplify_step);
}

/// The derivative of a constant is the constant zero, so it evaluates
/// to zero under every binding of every variable.
pub proof fn lemma_constant_derivative_zero(
    bits: u64,
    x: Seq<char>,
    m: Map<Seq<char>, u64>,
)
    ensures
        derivative(const_v(bits), x) == const_v(BITS_ZERO),
        eval_node(derivative(const_v(bits), x), m) == Ok::<u64, Seq<char>>(BITS_ZERO),
{
    reveal(derivative);
    reveal(simplify_step);
}

/// A sum of two operands near zero on neither side, not both constant,
/// is kept as assembled.
proof fn lemma_step_add_kept(a: NodeV, b: NodeV)
    requires
        !near_zero_node(a),
        !near_zero_node(b),
        !(const_node(a) && const_node(b)),
    ensures
        add_s(a, b) == node2_v(OpV::Add, a, b),
{
    reveal(simplify_step);
}

/// A sum whose left operand is near zero simplifies to the right one.
proof fn lemma_step_add_drop_left(a: NodeV, b: NodeV)
    requires
        near_zero_node(a),
    ensures
        add_s(a, b) == b,
{
    reveal(simplify_step);
}

/// A sum whose right operand alone is near zero simplifies to the left
/// one.
proof fn lemma_step_add_drop_right(a: NodeV, b: NodeV)
    requires
        !near_zero_node(a),
        near_zero_node(b),
    ensures
        add_s(a, b) == a,
{
    reveal(simplify_step);
}

/// A product with no operand near one or zero, not both constant, is
/// kept as assembled.
proof fn lemma_step_mul_kept(a: NodeV, b: NodeV)
    requires
        !near_one_node(a),
        !near_one_node(b),
        !near_zero_node(a),
        !near_zero_node(b),
        !(const_node(a) && const_node(b)),
    ensures
        mul_s(a, b) == node2_v(OpV::Mul, a, b),
{
    reveal(simplify_step);
}

/// A product whose right operand is near one (the left one not being)
/// simplifies to the left operand.
proof fn lemma_step_mul_drop_right(a: NodeV, b: NodeV)
    requires
        !near_one_node(a),
        near_one_node(b),
    ensures
        mul_s(a, b) == a,
{
    reveal(simplify_step);
}

/// A product with an operand near zero, and none near one, annihilates
/// to the constant zero.
proof fn lemma_step_mul_annihilate(a: NodeV, b: NodeV)
    requires
        !near_one_node(a),
        !near_one_node(b),
        near_zero_node(a) || near_zero_node(b),
    ensures
        mul_s(a, b) == const_v(BITS_ZERO),
{
    reveal(simplify_step);
}

/// A sine of a non-constant operand is kept as assembled.
proof fn lemma_step_sin_kept(a: NodeV)
    requires
        !const_node(a),
    ensures
        sin_s(a) == node1_v(OpV::Sin, a),
{
    reveal(simplify_step);
}

/// A cosine of a non-constant operand is kept as assembled.
proof fn lemma_step_cos_kept(a: NodeV)
    requires
        !const_node(a),
    ensures
        cos_s(a) == node1_v(OpV::Cos, a),
{
    reveal(simplify_step);
}

/// One unfolding of the derivative on a variable leaf.
proof fn lemma_d_var(name: Seq<char>, x: Seq<char>)
    ensures
        derivative(var_v(name), x) == if name == x {
            const_v(BITS_ONE)
        } else {
            const_v(BITS_ZERO)
        },
{
    reveal(derivative);
}

/// One unfolding of the derivative on a sum node.
proof fn lemma_d_add(a: NodeV, b: NodeV, x: Seq<char>)
    ensures
        derivative(node2_v(OpV::Add, a, b), x) == add_s(derivative(a, x), derivative(b, x)),
{
    reveal(derivative);
}

/// One unfolding of the derivative on a product node.
proof fn lemma_d_mul(a: NodeV, b: NodeV, x: Seq<char>)
    ensures
        derivative(node2_v(OpV::Mul, a, b), x) == add_s(
            mul_s(derivative(a, x), b),
            mul_s(a, derivative(b, x)),
        ),
{
    reveal(derivative);
}

/// One unfolding of the derivative on a sine node.
proof fn lemma_d_sin(a: NodeV, x: Seq<char>)
    ensures
        derivative(node1_v(OpV::Sin, a), x) == mul_s(cos_s(a), derivative(a, x)),
{
    reveal(derivative);
}

/// One unfolding of the derivative on a cosine node.
proof fn lemma_d_cos(a: NodeV, x: Seq<char>)
    ensures
        derivative(node1_v(OpV::Cos, a), x) == mul_s(
            mul_s(const_v(BITS_NEG_ONE), sin_s(a)),
            derivative(a, x),
        ),
{
    reveal(derivative);
}

/// The names `x` and `y` differ.
proof fn lemma_x_neq_y()
    ensures
        "x"@ != "y"@,
{
    reveal_strlit("x");
    reveal_strlit("y");
    assert("x"@[0] == 'x' && "y"@[0] == 'y');
}

/// The linear expression `3*x + 4*y + 5` as the constructors build it.
pub open spec fn linear_example() -> NodeV {
    add_s(
        add_s(
            mul_s(const_v(BITS_THREE), var_v("x"@)),
            mul_s(const_v(BITS_FOUR), var_v("y"@)),
        ),
        const_v(BITS_FIVE),
    )
}

/// Linearity: the derivative of `3*x + 4*y + 5` with respect to `x` is
/// the constant three, and with respect to `y` the constant four, so
/// each evaluates to that constant under every binding of `x` and `y`.
pub proof fn lemma_linearity(m: Map<Seq<char>, u64>)
    ensures
        derivative(linear_example(), "x"@) == const_v(BITS_THREE),
        derivative(linear_example(), "y"@) == const_v(BITS_FOUR),
        eval_node(derivative(linear_example(), "x"@), m) == Ok::<u64, Seq<char>>(BITS_THREE),
        eval_node(derivative(linear_example(), "y"@), m) == Ok::<u64, Seq<char>>(BITS_FOUR),
{
    lemma_x_neq_y();
    let x = "x"@;
    let y = "y"@;
    let c0 = const_v(BITS_ZERO);
    let c1 = const_v(BITS_ONE);
    let c3 = const_v(BITS_THREE);
    let c4 = const_v(BITS_FOUR);
    let c5 = const_v(BITS_FIVE);
    let vx = var_v(x);
    let vy = var_v(y);
    let m3x = mul_s(c3, vx);
    let m4y = mul_s(c4, vy);
    lemma_step_mul_kept(c3, vx);
    lemma_step_mul_kept(c4, vy);
    let sum = add_s(m3x, m4y);
    lemma_step_add_kept(m3x, m4y);
    let f = add_s(sum, c5);
    lemma_step_add_kept(sum, c5);
    lemma_d_var(x, x);
    lemma_d_var(y, x);
    lemma_d_var(x, y);
    lemma_d_var(y, y);
    lemma_constant_derivative_zero(BITS_THREE, x, m);
    lemma_constant_derivative_zero(BITS_FOUR, x, m);
    lemma_constant_derivative_zero(BITS_FIVE, x, m);
    lemma_constant_derivative_zero(BITS_THREE, y, m);
    lemma_constant_derivative_zero(BITS_FOUR, y, m);
    lemma_constant_derivative_zero(BITS_FIVE, y, m);
    // with respect to x
    lemma_d_mul(c3, vx, x);
    lemma_step_mul_annihilate(c0, vx);
    lemma_step_mul_drop_right(c3, c1);
    lemma_step_add_drop_left(c0, c3);
    assert(derivative(m3x, x) == c3);
    lemma_d_mul(c4, vy, x);
    lemma_step_mul_annihilate(c0, vy);
    lemma_step_mul_annihilate(c4, c0);
    lemma_step_add_drop_left(c0, c0);
    assert(derivative(m4y, x) == c0);
    lemma_d_add(m3x, m4y, x);
    lemma_step_add_drop_right(c3, c0);
    assert(derivative(sum, x) == c3);
    lemma_d_add(sum, c5, x);
    assert(derivative(f, x) == c3);
    // with respect to y
    lemma_d_mul(c3, vx, y);
    lemma_step_mul_annihilate(c3, c0);
    assert(derivative(m3x, y) == c0);
    lemma_d_mul(c4, vy, y);
    lemma_step_mul_annihilate(c0, vy);
    lemma_step_mul_drop_right(c4, c1);
    lemma_step_add_drop_left(c0, c4);
    assert(derivative(m4y, y) == c4);
    lemma_d_add(m3x, m4y, y);
    lemma_step_add_drop_left(c0, c4);
    assert(derivative(sum, y) == c4);
    lemma_d_add(sum, c5, y);
    lemma_step_add_drop_right(c4, c0);
    assert(derivative(f, y) == c4);
}

/// The product expression `3*x*y + 5` as the constructors build it.
pub open spec fn product_example() -> NodeV {
    add_s(
        mul_s(mul_s(const_v(BITS_THREE), var_v("x"@)), var_v("y"@)),
        const_v(BITS_FIVE),
    )
}

/// The product rule: the derivative of `3*x*y + 5` with respect to `x`
/// is the tree `3*y`, and with respect to `y` the tree `3*x`.
pub proof fn lemma_product_rule()
    ensures
        derivative(product_example(), "x"@) == node2_v(
            OpV::Mul,
            const_v(BITS_THREE),
            var_v("y"@),
        ),
        derivative(product_example(), "y"@) == node2_v(
            OpV::Mul,
            const_v(BITS_THREE),
            var_v("x"@),
        ),
{
    lemma_x_neq_y();
    let x = "x"@;
    let y = "y"@;
    let ghost mv: Map<Seq<char>, u64> = Map::empty();
    let c0 = const_v(BITS_ZERO);
    let c1 = const_v(BITS_ONE);
    let c3 = const_v(BITS_THREE);
    let c5 = const_v(BITS_FIVE);
    let vx = var_v(x);
    let vy = var_v(y);
    let m3x = mul_s(c3, vx);
    lemma_step_mul_kept(c3, vx);
    let m3xy = mul_s(m3x, vy);
    lemma_step_mul_kept(m3x, vy);
    let f = add_s(m3xy, c5);
    lemma_step_add_kept(m3xy, c5);
    lemma_d_var(x, x);
    lemma_d_var(y, x);
    lemma_d_var(x, y);
    lemma_d_var(y, y);
    lemma_constant_derivative_zero(BITS_THREE, x, mv);
    lemma_constant_derivative_zero(BITS_FIVE, x, mv);
    lemma_constant_derivative_zero(BITS_THREE, y, mv);
    lemma_constant_derivative_zero(BITS_FIVE, y, mv);
    // with respect to x
    lemma_d_mul(c3, vx, x);
    lemma_step_mul_annihilate(c0, vx);
    lemma_step_mul_drop_right(c3, c1);
    lemma_step_add_drop_left(c0, c3);
    assert(derivative(m3x, x) == c3);
    lemma_d_mul(m3x, vy, x);
    lemma_step_mul_kept(c3, vy);
    lemma_step_mul_annihilate(m3x, c0);
    lemma_step_add_drop_right(mul_s(c3, vy), c0);
    assert(derivative(m3xy, x) == node2_v(OpV::Mul, c3, vy));
    lemma_d_add(m3xy, c5, x);
    lemma_step_add_drop_right(node2_v(OpV::Mul, c3, vy), c0);
    assert(derivative(f, x) == node2_v(OpV::Mul, c3, vy));
    // with respect to y
    lemma_d_mul(c3, vx, y);
    lemma_step_mul_annihilate(c3, c0);
    lemma_step_mul_annihilate(c0, vx);
    lemma_step_add_drop_left(c0, c0);
    assert(derivative(m3x, y) == c0);
    lemma_d_mul(m3x, vy, y);
    lemma_step_mul_annihilate(c0, vy);
    lemma_step_mul_drop_right(m3x, c1);
    lemma_step_add_drop_left(c0, m3x);
    assert(derivative(m3xy, y) == m3x);
    lemma_d_add(m3xy, c5, y);
    lemma_step_add_drop_right(m3x, c0);
    assert(derivative(f, y) == m3x);
}

/// The trigonometric expression `2*sin(x) + 3*cos(y)` as the
/// constructors build it.
pub open spec fn trig_example() -> NodeV {
    add_s(
        mul_s(const_v(BITS_TWO), sin_s(var_v("x"@))),
        mul_s(const_v(BITS_THREE), cos_s(var_v("y"@))),
    )
}

/// The chain rule on the trigonometric functions: the derivative of
/// `2*sin(x) + 3*cos(y)` with respect to `x` is the tree `2*cos(x)`,
/// and with respect to `y` the tree `3*(-1*sin(y))`.
pub proof fn lemma_trig_chain_rule()
    ensures
        derivative(trig_example(), "x"@) == node2_v(
            OpV::Mul,
            const_v(BITS_TWO),
            node1_v(OpV::Cos, var_v("x"@)),
        ),
        derivative(trig_example(), "y"@) == node2_v(
            OpV::Mul,
            const_v(BITS_THREE),
            node2_v(OpV::Mul, const_v(BITS_NEG_ONE), node1_v(OpV::Sin, var_v("y"@))),
        ),
{
    lemma_x_neq_y();
    let x = "x"@;
    let y = "y"@;
    let ghost mv: Map<Seq<char>, u64> = Map::empty();
    let c0 = const_v(BITS_ZERO);
    let c1 = const_v(BITS_ONE);
    let cm1 = const_v(BITS_NEG_ONE);
    let c2 = const_v(BITS_TWO);
    let c3 = const_v(BITS_THREE);
    let vx = var_v(x);
    let vy = var_v(y);
    let sinx = sin_s(vx);
    let cosy = cos_s(vy);
    lemma_step_sin_kept(vx);
    lemma_step_cos_kept(vy);
    let cosx = node1_v(OpV::Cos, vx);
    let siny = node1_v(OpV::Sin, vy);
    let left = mul_s(c2, sinx);
    let right = mul_s(c3, cosy);
    lemma_step_mul_kept(c2, sinx);
    lemma_step_mul_kept(c3, cosy);
    let f = add_s(left, right);
    lemma_step_add_kept(left, right);
    lemma_d_var(x, x);
    lemma_d_var(y, x);
    lemma_d_var(x, y);
    lemma_d_var(y, y);
    lemma_constant_derivative_zero(BITS_TWO, x, mv);
    lemma_constant_derivative_zero(BITS_THREE, x, mv);
    lemma_constant_derivative_zero(BITS_TWO, y, mv);
    lemma_constant_derivative_zero(BITS_THREE, y, mv);
    // with respect to x
    lemma_d_sin(vx, x);
    lemma_step_cos_kept(vx);
    lemma_step_mul_drop_right(cosx, c1);
    assert(derivative(sinx, x) == cosx);
    lemma_d_mul(c2, sinx, x);
    lemma_step_mul_annihilate(c0, sinx);
    lemma_step_mul_kept(c2, cosx);
    lemma_step_add_drop_left(c0, node2_v(OpV::Mul, c2, cosx));
    assert(derivative(left, x) == node2_v(OpV::Mul, c2, cosx));
    lemma_d_cos(vy, x);
    lemma_step_sin_kept(vy);
    lemma_step_mul_kept(cm1, siny);
    lemma_step_mul_annihilate(node2_v(OpV::Mul, cm1, siny), c0);
    assert(derivative(cosy, x) == c0);
    lemma_d_mul(c3, cosy, x);
    lemma_step_mul_annihilate(c0, cosy);
    lemma_step_mul_annihilate(c3, c0);
    lemma_step_add_drop_left(c0, c0);
    assert(derivative(right, x) == c0);
    lemma_d_add(left, right, x);
    lemma_step_add_drop_right(node2_v(OpV::Mul, c2, cosx), c0);
    assert(derivative(f, x) == node2_v(OpV::Mul, c2, cosx));
    // with respect to y
    lemma_d_sin(vx, y);
    lemma_step_mul_annihilate(cosx, c0);
    assert(derivative(sinx, y) == c0);
    lemma_d_mul(c2, sinx, y);
    lemma_step_mul_annihilate(c0, sinx);
    lemma_step_mul_annihilate(c2, c0);
    lemma_step_add_drop_left(c0, c0);
    assert(derivative(left, y) == c0);
    lemma_d_cos(vy, y);
    lemma_step_mul_drop_right(node2_v(OpV::Mul, cm1, siny), c1);
    assert(derivative(cosy, y) == node2_v(OpV::Mul, cm1, siny));
    lemma_d_mul(c3, cosy, y);
    lemma_step_mul_annihilate(c0, cosy);
    lemma_step_mul_kept(c3, node2_v(OpV::Mul, cm1, siny));
    lemma_step_add_drop_left(c0, node2_v(OpV::Mul, c3, node2_v(OpV::Mul, cm1, siny)));
    assert(derivative(right, y) == node2_v(OpV::Mul, c3, node2_v(OpV::Mul, cm1, siny)));
    lemma_d_add(left, right, y);
    assert(derivative(f, y) == node2_v(OpV::Mul, c3, node2_v(OpV::Mul, cm1, siny)));
}

} // verus!
