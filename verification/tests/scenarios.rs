use symdiff::Bindings;
use symdiff::Node;
use symdiff::Scalar;
use symdiff::add;
use symdiff::constant;
use symdiff::cosine;
use symdiff::debug_render;
use symdiff::ln;
use symdiff::log;
use symdiff::multiply;
use symdiff::power;
use symdiff::sine;
use symdiff::variable;

fn num(v: f64) -> Scalar {
    Scalar::from_bits(v.to_bits())
}

fn val(s: Scalar) -> f64 {
    f64::from_bits(s.to_bits())
}

fn c(v: f64) -> Node {
    constant(num(v))
}

fn eval(n: &Node, b: &Bindings) -> f64 {
    val(n.evaluate(b).unwrap())
}

#[test]
fn derivative_of_constant_is_zero_everywhere() {
    let f = c(7.0);
    let d = f.partial_derivative(&"x".to_string());
    assert_eq!(eval(&d, &Bindings::new()), 0.0);
    let mut b = Bindings::new();
    b.set("x", num(123.25));
    assert_eq!(eval(&d, &b), 0.0);
}

#[test]
fn linearity_scenario() {
    // f(x, y) = 3x + 4y + 5
    let f = add(
        add(
            multiply(c(3.0), variable("x")),
            multiply(c(4.0), variable("y")),
        ),
        c(5.0),
    );
    let df_dx = f.partial_derivative(&"x".to_string());
    let df_dy = f.partial_derivative(&"y".to_string());
    let mut b = Bindings::new();
    b.set("x", num(1.0));
    b.set("y", num(2.0));
    assert_eq!(eval(&f, &b), 16.0);
    assert_eq!(eval(&df_dx, &b), 3.0);
    assert_eq!(eval(&df_dy, &b), 4.0);
    // the derivatives are constants, so any other binding gives the same
    let mut other = Bindings::new();
    other.set("x", num(-7.5));
    other.set("y", num(11.0));
    assert_eq!(eval(&df_dx, &other), 3.0);
    assert_eq!(eval(&df_dy, &other), 4.0);
}

#[test]
fn product_rule_scenario() {
    // f(x, y) = 3xy + 5
    let f = add(
        multiply(multiply(c(3.0), variable("x")), variable("y")),
        c(5.0),
    );
    let df_dx = f.partial_derivative(&"x".to_string());
    let df_dy = f.partial_derivative(&"y".to_string());
    assert_eq!(debug_render(&df_dx), "Mul(3, y)");
    assert_eq!(debug_render(&df_dy), "Mul(3, x)");
    let mut b = Bindings::new();
    b.set("x", num(1.0));
    b.set("y", num(2.0));
    assert_eq!(eval(&f, &b), 11.0);
    assert_eq!(eval(&df_dx, &b), 6.0);
    assert_eq!(eval(&df_dy, &b), 3.0);
}

#[test]
fn trigonometric_chain_rule_scenario() {
    // f(x, y) = 2 sin(x) + 3 cos(y)
    let f = add(
        multiply(c(2.0), sine(variable("x"))),
        multiply(c(3.0), cosine(variable("y"))),
    );
    let df_dx = f.partial_derivative(&"x".to_string());
    let df_dy = f.partial_derivative(&"y".to_string());
    let mut b = Bindings::new();
    b.set("x", num(1.0));
    b.set("y", num(2.0));
    assert!((eval(&df_dx, &b) - 2.0 * 1.0f64.cos()).abs() < 1e-3);
    assert!((eval(&df_dy, &b) - (-3.0 * 2.0f64.sin())).abs() < 1e-3);
}

#[test]
fn power_rule_scenario() {
    // f(x) = x^3, so df/dx at 6 is 108
    let f = power(variable("x"), c(3.0));
    let df_dx = f.partial_derivative(&"x".to_string());
    let mut b = Bindings::new();
    b.set("x", num(6.0));
    assert_eq!(eval(&f, &b), 216.0);
    assert!((eval(&df_dx, &b) - 108.0).abs() < 1e-9);
}

#[test]
fn logarithm_scenario() {
    // f(x, y) = 2 log_3(x) + ln(y)
    let f = add(
        multiply(c(2.0), log(c(3.0), variable("x"))),
        ln(variable("y")),
    );
    let df_dx = f.partial_derivative(&"x".to_string());
    let df_dy = f.partial_derivative(&"y".to_string());
    let mut b = Bindings::new();
    b.set("x", num(1.0));
    b.set("y", num(2.0));
    assert!((eval(&f, &b) - 2.0f64.ln()).abs() < 1e-9);
    assert!((eval(&df_dx, &b) - 2.0 / 3.0f64.ln()).abs() < 1e-9);
    assert!((eval(&df_dy, &b) - 0.5).abs() < 1e-9);
}

#[test]
fn derivative_with_three_variables() {
    // f(x, y, z) = 5x + 3y + 4xyz
    let x = || variable("x");
    let y = || variable("y");
    let z = || variable("z");
    let f = add(
        add(multiply(c(5.0), x()), multiply(c(3.0), y())),
        multiply(multiply(multiply(c(4.0), x()), y()), z()),
    );
    let df_dx = f.partial_derivative(&"x".to_string());
    let df_dy = f.partial_derivative(&"y".to_string());
    let df_dz = f.partial_derivative(&"z".to_string());
    let mut b = Bindings::new();
    b.set("x", num(1.0));
    b.set("y", num(2.0));
    b.set("z", num(3.0));
    assert_eq!(eval(&f, &b), 35.0);
    assert_eq!(eval(&df_dx, &b), 29.0); // 5 + 4yz
    assert_eq!(eval(&df_dy, &b), 15.0); // 3 + 4xz
    assert_eq!(eval(&df_dz, &b), 8.0); // 4xy
}
