use evalexpr::{ContextWithMutableVariables, HashMapContext, Value};
use numerical_approximater::expr::error::ExprError;
use numerical_approximater::expr::{normalize_expression, OdeFunction};

/// Evaluate a parsed right-hand side at `(x, y)` the way the terminal front end does.
fn eval(f: &OdeFunction, x: f64, y: f64) -> Result<f64, String> {
    let mut ctx = HashMapContext::new();
    ctx.set_value("e".into(), Value::from(std::f64::consts::E))
        .map_err(|e| e.to_string())?;
    ctx.set_value("x".into(), Value::from(x)).map_err(|e| e.to_string())?;
    ctx.set_value("y".into(), Value::from(y)).map_err(|e| e.to_string())?;
    let v = f.tree().eval_with_context(&ctx).map_err(|e| e.to_string())?;
    v.as_number().map_err(|_| "expression must evaluate to a number".to_string())
}

fn err_text(raw: &str) -> String {
    normalize_expression(raw).err().expect("should fail").message()
}

#[test]
fn expr_implicit_mult() {
    assert_eq!(normalize_expression("x+2y").unwrap(), "x+2*y");
    assert_eq!(normalize_expression("2y").unwrap(), "2*y");
    assert_eq!(normalize_expression("xy").unwrap(), "x*y");
    assert_eq!(normalize_expression("2(x+1)").unwrap(), "2*(x+1)");
}

#[test]
fn mod_implicit_mult() {
    assert_eq!(normalize_expression("x+2y").unwrap(), "x+2*y");
    assert_eq!(normalize_expression("2y").unwrap(), "2*y");
    assert_eq!(normalize_expression("xy").unwrap(), "x*y");
    assert_eq!(normalize_expression("2(x+1)").unwrap(), "2*(x+1)");
}

#[test]
fn expr_strip_y_prime() {
    assert_eq!(normalize_expression("y'=x+2y").unwrap(), "x+2*y");
    assert_eq!(normalize_expression("y' = x + 2y").unwrap(), "x+2*y");
}

#[test]
fn mod_strip_y_prime() {
    assert_eq!(normalize_expression("y'=x+2y").unwrap(), "x+2*y");
    assert_eq!(normalize_expression("y' = x + 2y").unwrap(), "x+2*y");
}

#[test]
fn expr_trig() {
    let f = OdeFunction::parse("sin(x)+2y").unwrap();
    assert!((eval(&f, 0.0, 1.0).unwrap() - 2.0).abs() < 1e-10);
    let f = OdeFunction::parse("cos(y)*x").unwrap();
    assert!((eval(&f, 1.0, 0.0).unwrap() - 1.0).abs() < 1e-10);
}

#[test]
fn mod_trig() {
    let f = OdeFunction::parse("sin(x)+2y").unwrap();
    assert!((eval(&f, 0.0, 1.0).unwrap() - 2.0).abs() < 1e-10);
    let f = OdeFunction::parse("cos(y)*x").unwrap();
    assert!((eval(&f, 1.0, 0.0).unwrap() - 1.0).abs() < 1e-10);
}

#[test]
fn expr_eval_implicit() {
    let f = OdeFunction::parse("x+2y").unwrap();
    assert!((eval(&f, 1.0, 3.0).unwrap() - 7.0).abs() < 1e-10);
}

#[test]
fn mod_eval_implicit() {
    let f = OdeFunction::parse("x+2y").unwrap();
    assert!((eval(&f, 1.0, 3.0).unwrap() - 7.0).abs() < 1e-10);
}

#[test]
fn expr_supports_e_to_x() {
    let f = OdeFunction::parse("e^x").unwrap();
    assert!((eval(&f, 1.0, 0.0).unwrap() - std::f64::consts::E).abs() < 1e-10);
}

#[test]
fn mod_supports_e_to_x() {
    let f = OdeFunction::parse("e^x").unwrap();
    assert!((eval(&f, 1.0, 0.0).unwrap() - std::f64::consts::E).abs() < 1e-10);
}

#[test]
fn expr_rejects_unknown_identifier() {
    assert_eq!(err_text("e^x+sos"), "parse error: unknown identifier 'sos'");
}

#[test]
fn mod_rejects_unknown_identifier() {
    assert_eq!(err_text("e^x+sos"), "parse error: unknown identifier 'sos'");
}

#[test]
fn expr_rejects_function_raised_to_power() {
    assert_eq!(
        err_text("sin^3"),
        "parse error: cannot raise function 'sin' to a power; write sin(...)^... instead, e.g. sin(x)^3"
    );
}

#[test]
fn mod_rejects_function_raised_to_power() {
    assert_eq!(
        err_text("sin^3"),
        "parse error: cannot raise function 'sin' to a power; write sin(...)^... instead, e.g. sin(x)^3"
    );
}

#[test]
fn expr_rejects_bare_function_name() {
    assert_eq!(
        err_text("sin"),
        "parse error: function 'sin' must be called with parentheses, e.g. sin(x)"
    );
}

#[test]
fn mod_rejects_bare_function_name() {
    assert_eq!(
        err_text("sin"),
        "parse error: function 'sin' must be called with parentheses, e.g. sin(x)"
    );
}

#[test]
fn expr_allows_function_result_power() {
    let f = OdeFunction::parse("sin(x)^3").unwrap();
    assert!(eval(&f, 0.0, 0.0).is_ok());
}

#[test]
fn mod_allows_function_result_power() {
    let f = OdeFunction::parse("sin(x)^3").unwrap();
    assert!(eval(&f, 0.0, 0.0).is_ok());
}

#[test]
fn expr_rejects_unclosed_paren() {
    assert_eq!(err_text("sin(x+1"), "parse error: unclosed '('");
}

#[test]
fn mod_rejects_unclosed_paren() {
    assert_eq!(err_text("sin(x+1"), "parse error: unclosed '('");
}

#[test]
fn expr_strip_dy_dx_prefix() {
    assert_eq!(normalize_expression("dy/dx = x").unwrap(), "x");
    assert_eq!(normalize_expression("Dy/Dx = 2*y").unwrap(), "2*y");
    assert_eq!(normalize_expression("dy/dx=x+1").unwrap(), "x+1");
}

#[test]
fn mod_strip_dy_dx_prefix() {
    assert_eq!(normalize_expression("dy/dx = x").unwrap(), "x");
    assert_eq!(normalize_expression("Dy/Dx = 2*y").unwrap(), "2*y");
    assert_eq!(normalize_expression("dy/dx=x+1").unwrap(), "x+1");
}

#[test]
fn expr_scientific_notation_numbers() {
    let f = OdeFunction::parse("1e3").unwrap();
    assert!((eval(&f, 0.0, 0.0).unwrap() - 1000.0).abs() < 1e-6);
    let f = OdeFunction::parse("1e-3 + x").unwrap();
    assert!((eval(&f, 1.0, 0.0).unwrap() - 1.001).abs() < 1e-6);
}

#[test]
fn mod_scientific_notation_numbers() {
    let f = OdeFunction::parse("1e3").unwrap();
    assert!((eval(&f, 0.0, 0.0).unwrap() - 1000.0).abs() < 1e-6);
    let f = OdeFunction::parse("1e-3 + x").unwrap();
    assert!((eval(&f, 1.0, 0.0).unwrap() - 1.001).abs() < 1e-6);
}

#[test]
fn expr_scientific_notation_does_not_confuse_with_euler_e() {
    let f = OdeFunction::parse("1e2").unwrap();
    assert!((eval(&f, 0.0, 0.0).unwrap() - 100.0).abs() < 1e-6);
    let f = OdeFunction::parse("e^x").unwrap();
    assert!((eval(&f, 1.0, 0.0).unwrap() - std::f64::consts::E).abs() < 1e-10);
}

#[test]
fn mod_scientific_notation_does_not_confuse_with_euler_e() {
    let f = OdeFunction::parse("1e2").unwrap();
    assert!((eval(&f, 0.0, 0.0).unwrap() - 100.0).abs() < 1e-6);
    let f = OdeFunction::parse("e^x").unwrap();
    assert!((eval(&f, 1.0, 0.0).unwrap() - std::f64::consts::E).abs() < 1e-10);
}

#[test]
fn expr_exp_ln_sqrt_functions() {
    let f = OdeFunction::parse("exp(x)").unwrap();
    assert!((eval(&f, 1.0, 0.0).unwrap() - std::f64::consts::E).abs() < 1e-10);
    let f = OdeFunction::parse("ln(e)").unwrap();
    assert!((eval(&f, 0.0, 0.0).unwrap() - 1.0).abs() < 1e-10);
    let f = OdeFunction::parse("sqrt(4)").unwrap();
    assert!((eval(&f, 0.0, 0.0).unwrap() - 2.0).abs() < 1e-10);
}

#[test]
fn mod_exp_ln_sqrt_functions() {
    let f = OdeFunction::parse("exp(x)").unwrap();
    assert!((eval(&f, 1.0, 0.0).unwrap() - std::f64::consts::E).abs() < 1e-10);
    let f = OdeFunction::parse("ln(e)").unwrap();
    assert!((eval(&f, 0.0, 0.0).unwrap() - 1.0).abs() < 1e-10);
    let f = OdeFunction::parse("sqrt(4)").unwrap();
    assert!((eval(&f, 0.0, 0.0).unwrap() - 2.0).abs() < 1e-10);
}

#[test]
fn expr_unary_minus() {
    let f = OdeFunction::parse("-x").unwrap();
    assert!((eval(&f, 3.0, 0.0).unwrap() - (-3.0)).abs() < 1e-10);
    let f = OdeFunction::parse("-y + 2").unwrap();
    assert!((eval(&f, 0.0, 5.0).unwrap() - (-3.0)).abs() < 1e-10);
}

#[test]
fn mod_unary_minus() {
    let f = OdeFunction::parse("-x").unwrap();
    assert!((eval(&f, 3.0, 0.0).unwrap() - (-3.0)).abs() < 1e-10);
    let f = OdeFunction::parse("-y + 2").unwrap();
    assert!((eval(&f, 0.0, 5.0).unwrap() - (-3.0)).abs() < 1e-10);
}

#[test]
fn expr_rejects_trailing_operator() {
    assert!(err_text("x+").contains("unexpected '+' at end of expression"));
    assert!(err_text("2*").contains("unexpected '*' at end of expression"));
}

#[test]
fn mod_rejects_trailing_operator() {
    assert!(err_text("x+").contains("unexpected '+' at end of expression"));
    assert!(err_text("2*").contains("unexpected '*' at end of expression"));
}

#[test]
fn expr_rejects_unary_minus_without_operand() {
    assert!(err_text("-").contains("'-' is missing an operand"));
}

#[test]
fn mod_rejects_unary_minus_without_operand() {
    assert!(err_text("-").contains("'-' is missing an operand"));
}

#[test]
fn rejects_empty_equation() {
    assert_eq!(normalize_expression("  y' =  "), Err(ExprError::Empty));
    assert_eq!(err_text("   "), "equation cannot be empty");
}

#[test]
fn rejects_unexpected_character_naming_it() {
    assert_eq!(err_text("x $ y"), "parse error: unexpected character '$'");
    assert_eq!(normalize_expression("x\u{e9}"), Err(ExprError::UnexpectedCharacter('\u{e9}')));
    assert_eq!(err_text("x\u{e9}"), "parse error: unexpected character '\u{e9}'");
    assert_eq!(err_text("x\u{b2}"), "parse error: unexpected character '\u{b2}'");
}

#[test]
fn rejects_stray_close_paren_and_equals() {
    assert_eq!(err_text("x)+(y"), "parse error: unexpected ')'");
    assert_eq!(err_text("x = y"), "parse error: unexpected '=' in expression");
}

#[test]
fn rejects_operator_without_left_operand() {
    assert_eq!(err_text("x*(+y)"), "parse error: unexpected '+' at start of expression");
    assert_eq!(err_text("x*+y"), "parse error: unexpected '*' at end of expression");
    assert_eq!(err_text("*2"), "parse error: unexpected '*' at start of expression");
    assert_eq!(err_text("x-"), "parse error: unexpected '-' at end of expression");
}

#[test]
fn maps_functions_and_euler_e() {
    assert_eq!(normalize_expression("SIN(x)").unwrap(), "math::sin(x)");
    assert_eq!(normalize_expression("E^x").unwrap(), "e^x");
    assert_eq!(normalize_expression("2sqrt(y)").unwrap(), "2*math::sqrt(y)");
    assert_eq!(normalize_expression("(x)(y)").unwrap(), "(x)*(y)");
    assert_eq!(normalize_expression("y\u{2032} = -y").unwrap(), "-y");
    assert_eq!(normalize_expression("\u{a0}x\u{3000}").unwrap(), "x");
}

#[test]
fn parse_reports_notation_faults_before_building() {
    let err = OdeFunction::parse("sin").err().expect("should fail");
    assert_eq!(err, ExprError::FunctionCall("sin".to_string()));
    let err = OdeFunction::parse("x^-y^-z").err().expect("should fail");
    assert_eq!(err.message(), "parse error: unknown identifier 'z'");
    let f = OdeFunction::parse("dy/dx = -2^x").unwrap();
    assert!((eval(&f, 3.0, 0.0).unwrap() + 8.0).abs() < 1e-10);
}

#[test]
fn only_a_full_dy_dx_prefix_is_stripped() {
    assert_eq!(normalize_expression("Dy/Dx = 2*y").unwrap(), "2*y");
    assert_eq!(normalize_expression("dy = x"), Err(ExprError::UnknownIdentifier("dy".to_string())));
    assert_eq!(normalize_expression("dy/d = x"), Err(ExprError::UnknownIdentifier("dy".to_string())));
}
