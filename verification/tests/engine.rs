use symdiff::Bindings;
use symdiff::EvalError;
use symdiff::Node;
use symdiff::Op;
use symdiff::Scalar;
use symdiff::Settings;
use symdiff::add;
use symdiff::assemble;
use symdiff::constant;
use symdiff::cosine;
use symdiff::debug_render;
use symdiff::ln;
use symdiff::log;
use symdiff::multiply;
use symdiff::power;
use symdiff::resimplify_tree;
use symdiff::sine;
use symdiff::variable;

fn num(v: f64) -> Scalar {
    Scalar::from_bits(v.to_bits())
}

fn val(s: Scalar) -> f64 {
    f64::from_bits(s.to_bits())
}

fn c(v: f64) -> Node {
    constant(num(v))
}

fn eval(n: &Node, b: &Bindings) -> f64 {
    val(n.evaluate(b).unwrap())
}

#[test]
fn fold_addition_to_constant() {
    let n = add(c(2.0), c(3.0));
    assert_eq!(debug_render(&n), "5");
    assert_eq!(eval(&n, &Bindings::new()), 5.0);
}

#[test]
fn fold_product_to_constant() {
    let n = multiply(c(2.0), c(3.0));
    assert_eq!(debug_render(&n), "6");
    assert_eq!(eval(&n, &Bindings::new()), 6.0);
}

#[test]
fn fold_power_to_constant() {
    let n = power(c(2.0), c(3.0));
    assert_eq!(eval(&n, &Bindings::new()), 8.0);
}

#[test]
fn fold_sine_of_constant() {
    let n = sine(c(1.0));
    assert!((eval(&n, &Bindings::new()) - 1.0f64.sin()).abs() < 1e-12);
}

#[test]
fn fold_cosine_of_constant() {
    let n = cosine(c(1.0));
    assert!((eval(&n, &Bindings::new()) - 1.0f64.cos()).abs() < 1e-12);
}

#[test]
fn fold_log_to_constant() {
    let n = log(c(2.0), c(8.0));
    assert!((eval(&n, &Bindings::new()) - 3.0).abs() < 1e-9);
}

#[test]
fn natural_log_of_constant() {
    let n = ln(c(2.0));
    assert!((eval(&n, &Bindings::new()) - 2.0f64.ln()).abs() < 1e-12);
}

#[test]
fn identity_one_times_variable() {
    let n = multiply(c(1.0), variable("x"));
    assert_eq!(debug_render(&n), debug_render(&variable("x")));
    assert_eq!(debug_render(&n), "x");
}

#[test]
fn identity_variable_times_one() {
    let n = multiply(variable("x"), c(1.0));
    assert_eq!(debug_render(&n), "x");
}

#[test]
fn identity_zero_plus_variable() {
    let n = add(c(0.0), variable("x"));
    assert_eq!(debug_render(&n), "x");
}

#[test]
fn identity_variable_plus_zero() {
    let n = add(variable("x"), c(0.0));
    assert_eq!(debug_render(&n), "x");
}

#[test]
fn annihilator_zero_times_variable() {
    let n = multiply(c(0.0), variable("x"));
    assert_eq!(debug_render(&n), "0");
    let n = multiply(variable("x"), c(0.0));
    assert_eq!(debug_render(&n), "0");
}

#[test]
fn power_with_exponent_one() {
    let n = power(variable("x"), c(1.0));
    assert_eq!(debug_render(&n), "x");
}

#[test]
fn power_with_exponent_zero() {
    let n = power(variable("x"), c(0.0));
    assert_eq!(debug_render(&n), "1");
}

#[test]
fn tolerance_accepts_nearly_one() {
    let n = multiply(c(1.0 + 1e-7), variable("x"));
    assert_eq!(debug_render(&n), "x");
}

#[test]
fn tolerance_accepts_nearly_zero() {
    let n = add(c(1e-6), variable("x"));
    assert_eq!(debug_render(&n), "x");
}

#[test]
fn tolerance_rejects_far_from_zero() {
    let n = add(c(1e-4), variable("x"));
    assert!(debug_render(&n).starts_with("Add("));
}

#[test]
fn render_structure_of_compound_node() {
    let n = add(variable("x"), c(5.0));
    assert_eq!(debug_render(&n), "Add(x, 5)");
    let n = sine(variable("y"));
    assert_eq!(debug_render(&n), "Sin(y)");
}

#[test]
fn unbound_variable_is_reported() {
    let n = variable("z");
    match n.evaluate(&Bindings::new()) {
        Err(EvalError::UnboundVariable(name)) => assert_eq!(name, "z"),
        _ => panic!("expected an unbound-variable error"),
    }
}

#[test]
fn first_unbound_variable_wins() {
    let mut b = Bindings::new();
    b.set("q", num(1.0));
    let n = add(variable("p"), variable("q"));
    match n.evaluate(&b) {
        Err(EvalError::UnboundVariable(name)) => assert_eq!(name, "p"),
        _ => panic!("expected an unbound-variable error"),
    }
}

#[test]
fn bindings_later_entry_overrides() {
    let mut b = Bindings::new();
    b.set("x", num(1.0));
    b.set("x", num(2.0));
    assert_eq!(val(b.get(&"x".to_string()).unwrap()), 2.0);
}

#[test]
fn bindings_missing_name() {
    let mut b = Bindings::new();
    b.set("x", num(1.0));
    assert!(b.get(&"y".to_string()).is_none());
    assert!(b.contains(&"x".to_string()));
    assert!(!b.contains(&"y".to_string()));
}

#[test]
fn clone_keeps_the_tree() {
    let n = add(multiply(c(2.0), variable("x")), c(5.0));
    let copy = n.clone();
    assert_eq!(debug_render(&copy), debug_render(&n));
}

#[test]
fn assemble_without_simplification_keeps_shape() {
    let s = Settings { simplify_enabled: false };
    let n = assemble(&s, Op::Add, vec![c(2.0), c(3.0)]);
    assert_eq!(debug_render(&n), "Add(2, 3)");
}

#[test]
fn assemble_with_simplification_folds() {
    let s = Settings::default();
    let n = assemble(&s, Op::Add, vec![c(2.0), c(3.0)]);
    assert_eq!(debug_render(&n), "5");
}

#[test]
fn resimplify_canonicalises_raw_tree() {
    let s = Settings { simplify_enabled: false };
    let inner = assemble(&s, Op::Mul, vec![c(1.0), variable("x")]);
    let outer = assemble(&s, Op::Add, vec![inner, c(0.0)]);
    assert_eq!(debug_render(&outer), "Add(Mul(1, x), 0)");
    let once = resimplify_tree(&outer);
    assert_eq!(debug_render(&once), "x");
}

#[test]
fn resimplify_twice_is_resimplify_once() {
    let s = Settings { simplify_enabled: false };
    let inner = assemble(&s, Op::Mul, vec![c(1.0), variable("x")]);
    let mid = assemble(&s, Op::Add, vec![inner, c(0.0)]);
    let outer = assemble(&s, Op::Sin, vec![mid]);
    let once = resimplify_tree(&outer);
    let twice = resimplify_tree(&once);
    assert_eq!(debug_render(&twice), debug_render(&once));
}

#[test]
fn resimplify_leaves_simplified_tree_alone() {
    let n = add(multiply(c(2.0), variable("x")), c(5.0));
    let again = resimplify_tree(&n);
    assert_eq!(debug_render(&again), debug_render(&n));
}
