use mathlang::ast::Expr;
use mathlang::context::Context;
use mathlang::eval::{eval_expr, EvalError};
use mathlang::process_with_seed;
use mathlang::RunError;

fn run(input: &str) -> String {
    process_with_seed(input, 0).unwrap()
}

#[test]
fn addition() {
    assert_eq!(run("3 + 6"), "9".to_string());
    assert_eq!(run("3+6"), "9".to_string());
    assert_eq!(run("   3 + 6   "), "9".to_string());
}

#[test]
fn subtraction() {
    assert_eq!(run("3 - 6"), "-3".to_string());
    assert_eq!(run("3-6"), "-3".to_string());
}

#[test]
fn negative() {
    assert_eq!(run("- 6"), "-6".to_string());
    assert_eq!(run("-6"), "-6".to_string());
    assert_eq!(run("--6"), "6".to_string());
    assert_eq!(run("---6"), "-6".to_string());
}

#[test]
fn complex_add_sub() {
    assert_eq!(run("5 + -3 - 51 - - 7 + 0"), "-42".to_string());
}

#[test]
fn multiple() {
    assert_eq!(run("3 * 6"), "18".to_string());
    assert_eq!(run("3*6"), "18".to_string());
    assert_eq!(run("3*- 6"), "-18".to_string());
}

#[test]
fn divide() {
    assert_eq!(run("6 / 3"), "2".to_string());
    assert_eq!(run("6/3"), "2".to_string());
    assert_eq!(run("6/-3"), "-2".to_string());
    assert_eq!(run("-6/- 3"), "2".to_string());
}

#[test]
fn order_of_operations() {
    assert_eq!(run("1 + 2 * 3"), "7".to_string());
    assert_eq!(run("(1 + 2) * 3"), "9".to_string());
    assert_eq!(run(" ( 1 + 2) * 3"), "9".to_string());
}

#[test]
fn milestone_1() {
    assert_eq!(run("5 + (3 + 7) * 99"), "995".to_string());
}

#[test]
fn simple_variable() {
    assert_eq!(
        run("
    a = 5 + 3

    a
    "),
        "8".to_string()
    );
}

#[test]
fn milestone_2() {
    assert_eq!(
        run("
    a = 5 + 3
    b = 89

    b / a
    "),
        "11".to_string()
    );
}

#[test]
fn milestone_3() {
    assert_eq!(
        process_with_seed(
            "
    a = RAND
    b = RAND

    a + b
    ",
            42
        )
        .unwrap(),
        "55".to_string()
    );
}

#[test]
fn simple_print() {
    assert_eq!(
        run("
    a = 5 + 3
    PRINT a

    a
    "),
        "8\n8".to_string()
    );
}

#[test]
fn truncating_division() {
    assert_eq!(run("7 / -2"), "-3".to_string());
    assert_eq!(run("-7 / 2"), "-3".to_string());
    assert_eq!(run("-7 / -2"), "3".to_string());
}

#[test]
fn wrapping_arithmetic() {
    assert_eq!(run("2147483647 + 1"), "-2147483648".to_string());
    assert_eq!(run("0 - 2147483647 - 1 - 1"), "2147483647".to_string());
    assert_eq!(run("(0 - 2147483647 - 1) / -1"), "-2147483648".to_string());
}

#[test]
fn identical_seeds_identical_output() {
    let program = "
    a = RAND
    PRINT RAND
    PRINT a

    a + RAND
    ";
    let first = process_with_seed(program, 12345).unwrap();
    let second = process_with_seed(program, 12345).unwrap();
    assert_eq!(first, second);
}

#[test]
fn rand_draws_are_in_range() {
    for seed in 0..20u64 {
        let out = process_with_seed("RAND", seed).unwrap();
        let v: i64 = out.parse().unwrap();
        assert!(0 <= v && v < 100);
    }
}

#[test]
fn unknown_identifier_fails() {
    assert!(matches!(
        process_with_seed("nope", 0),
        Err(RunError::Eval(EvalError::UnresolvedIdentifier))
    ));
}

#[test]
fn division_by_zero_fails() {
    assert!(matches!(
        process_with_seed("6 / 0", 0),
        Err(RunError::Eval(EvalError::DivisionByZero))
    ));
}

#[test]
fn malformed_syntax_fails() {
    assert!(matches!(process_with_seed("(1 + 2", 0), Err(RunError::Syntax(_))));
    assert!(matches!(process_with_seed("3 +", 0), Err(RunError::Syntax(_))));
    assert!(matches!(process_with_seed("", 0), Err(RunError::Syntax(_))));
    assert!(matches!(process_with_seed("1 2", 0), Err(RunError::Syntax(_))));
}

#[test]
fn print_without_argument_fails() {
    assert!(matches!(
        process_with_seed("PRINT", 0),
        Err(RunError::Eval(EvalError::ArityMismatch))
    ));
}

#[test]
fn rand_with_argument_fails() {
    assert!(matches!(
        process_with_seed("RAND 5\n\n1", 0),
        Err(RunError::Eval(EvalError::ArityMismatch))
    ));
}

#[test]
fn self_reference_exceeds_depth_limit() {
    assert!(matches!(
        process_with_seed("a = a\n\na", 0),
        Err(RunError::Eval(EvalError::DepthLimitExceeded))
    ));
}

#[test]
fn oversized_literal_is_a_syntax_error() {
    assert!(matches!(process_with_seed("2147483648", 0), Err(RunError::Syntax(_))));
    assert_eq!(run("2147483647"), "2147483647".to_string());
}

#[test]
fn later_binding_shadows_earlier() {
    assert_eq!(run("a = 1\na = 2\n\na"), "2".to_string());
}

#[test]
fn variables_shadow_builtins() {
    assert_eq!(run("RAND = 7\n\nRAND"), "7".to_string());
}

#[test]
fn empty_context_has_empty_output() {
    assert_eq!(Context::builtins(0).into_output(), "".to_string());
}

#[test]
fn with_variables_resolves_identifiers() {
    let cx = Context::builtins(9);
    let mut cx = cx.with_variables(vec![("a".to_string(), Expr::Number(5))]);
    let r = eval_expr(&mut cx, &Expr::Ident("a".to_string()), 16);
    assert_eq!(r, Ok(5));
}

#[test]
fn prints_appear_in_invocation_order() {
    assert_eq!(run("PRINT 1\nPRINT 2\n\n3"), "1\n2\n3".to_string());
}

#[test]
fn utilities_run_after_all_bindings_are_installed() {
    assert_eq!(run("PRINT a\na = 1\n\na"), "1\n1".to_string());
}
