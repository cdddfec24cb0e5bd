//! A symbolic partial-derivative engine over expression trees.
//!
//! Expressions are built from addition, multiplication, power, sine,
//! cosine, logarithm, variables and constants.  Every constructor routes
//! the new node through an algebraic simplifier, `partial_derivative`
//! walks a tree and emits a new simplified tree, and `evaluate` reduces
//! a tree to a number under a table of variable bindings.

use vstd::prelude::*;

pub mod deriv;
pub mod eval;
pub mod laws;
pub mod render;
pub mod scalar;
pub mod simplify;
pub mod tree;

verus! {

pub use eval::Bindings;
pub use render::debug_render;
pub use eval::EvalError;
pub use scalar::Scalar;
pub use simplify::Settings;
pub use simplify::add;
pub use simplify::assemble;
pub use simplify::constant;
pub use simplify::cosine;
pub use simplify::ln;
pub use simplify::log;
pub use simplify::multiply;
pub use simplify::power;
pub use simplify::resimplify_tree;
pub use simplify::sine;
pub use simplify::variable;
pub use tree::Node;
pub use tree::NodeV;
pub use tree::Op;
pub use tree::OpV;

} // verus!
