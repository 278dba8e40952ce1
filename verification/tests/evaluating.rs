use mussel::env::Env;
use mussel::expr::{Atom, BinOp, Expr, Operator};
use mussel::interp::{interpreter, interpreter_expr, EvalError, Io, NoHost};
use mussel::lexer::lex;
use mussel::parser::parser;

const FUEL: u64 = 10_000;

fn run_with_inputs(src: &[u8], inputs: &[&str]) -> (Vec<String>, Result<(), EvalError>) {
    let toks = lex(src).expect("lexing should succeed");
    let parsed = parser(&toks).expect("parsing should succeed");
    let lowered = Expr::from_parser(src, parsed).expect("lowering should succeed");
    let mut io = Io::new(inputs.iter().map(|l| l.as_bytes().to_vec()).collect());
    let r = interpreter(lowered, &mut io, FUEL);
    let outputs = io
        .outputs
        .iter()
        .map(|c| String::from_utf8_lossy(c).into_owned())
        .collect();
    (outputs, r)
}

fn run(src: &[u8]) -> (Vec<String>, Result<(), EvalError>) {
    run_with_inputs(src, &[])
}

fn outputs_of(src: &[u8]) -> Vec<String> {
    let (outputs, r) = run(src);
    r.expect("evaluation should succeed");
    outputs
}

#[test]
fn for_loop_prints_each_item_on_its_own_line() {
    assert_eq!(outputs_of(b"for i in [1,2,3] { println(i) }"), vec!["1\n", "2\n", "3\n"]);
}

#[test]
fn until_true_runs_zero_iterations() {
    let (outputs, r) = run(b"until true { println(1) }");
    r.expect("terminates at once");
    assert_eq!(outputs, Vec::<String>::new());
}

#[test]
fn until_loop_counts_up() {
    assert_eq!(outputs_of(b"let i = 0 until i == 3 { let i = i + 1 } println(i)"), vec!["3\n"]);
}

#[test]
fn integer_division_by_zero_is_fatal() {
    let (_, r) = run(b"println(5 / 0)");
    assert!(matches!(r, Err(EvalError::DivisionByZeroError)));
}

#[test]
fn division_by_zero_of_literal_operands() {
    let mut env = Env::new();
    let mut io = Io::new(Vec::new());
    let e = Expr::Binary(
        Box::new(Expr::Constant(Atom::Number(5))),
        BinOp::Div,
        Box::new(Expr::Constant(Atom::Number(0))),
    );
    let r = interpreter_expr(&e, &mut env, &mut io, &mut NoHost, FUEL);
    assert!(matches!(r, Err(EvalError::DivisionByZeroError)));
    let e = Expr::Binary(
        Box::new(Expr::Constant(Atom::Float(5.0f64.to_bits()))),
        BinOp::Div,
        Box::new(Expr::Constant(Atom::Float(0.0f64.to_bits()))),
    );
    let r = interpreter_expr(&e, &mut env, &mut io, &mut NoHost, FUEL);
    assert!(matches!(r, Err(EvalError::DivisionByZeroError)));
    // the negative zero encoding divides fatally too
    let e = Expr::Binary(
        Box::new(Expr::Constant(Atom::Float(5.0f64.to_bits()))),
        BinOp::Div,
        Box::new(Expr::Constant(Atom::Float((-0.0f64).to_bits()))),
    );
    let r = interpreter_expr(&e, &mut env, &mut io, &mut NoHost, FUEL);
    assert!(matches!(r, Err(EvalError::DivisionByZeroError)));
}

#[test]
fn end_to_end_function_call_prints_sum() {
    assert_eq!(outputs_of(b"fn add(a, b) { return a + b }  println(add(2, 3))"), vec!["5\n"]);
}

#[test]
fn scoping_isolation_callee_bindings_invisible() {
    let (_, r) = run(b"fn f() { let x = 1 }  f()  println(x)");
    match r {
        Err(EvalError::NameError(n)) => assert_eq!(n, b"x".to_vec()),
        other => panic!("expected a name fault, got {:?}", other),
    }
}

#[test]
fn scoping_enclosing_bindings_visible_in_closure() {
    assert_eq!(outputs_of(b"let y = 7 fn g() { return y } println(g())"), vec!["7\n"]);
}

#[test]
fn closure_literal_calls() {
    assert_eq!(outputs_of(b"let f = |x| { return x * 2 } println(f(21))"), vec!["42\n"]);
}

#[test]
fn interpolation_resolves_two_levels_then_concatenates() {
    // x is bound to the name of another bound variable; a string with
    // two spans resolves each through both levels
    let mut env = Env::new();
    let mut io = Io::new(Vec::new());
    env.insert(b"y".to_vec(), Expr::Constant(Atom::Number(7)));
    env.insert(b"x".to_vec(), Expr::Constant(Atom::Name(b"y".to_vec())));
    let e = Expr::Constant(Atom::String(b"{x}-{x}".to_vec()));
    let r = interpreter_expr(&e, &mut env, &mut io, &mut NoHost, FUEL).expect("interpolates");
    match r {
        Expr::Constant(Atom::String(s)) => assert_eq!(s, b"7-7".to_vec()),
        other => panic!("expected a string, got {:?}", other),
    }
}

#[test]
fn interpolation_zero_or_one_span_unchanged() {
    let mut env = Env::new();
    let mut io = Io::new(Vec::new());
    env.insert(b"x".to_vec(), Expr::Constant(Atom::Number(7)));
    for text in [&b"plain"[..], &b"{x}"[..], &b"a{x"[..]] {
        let e = Expr::Constant(Atom::String(text.to_vec()));
        let r = interpreter_expr(&e, &mut env, &mut io, &mut NoHost, FUEL).expect("returns the string");
        match r {
            Expr::Constant(Atom::String(s)) => assert_eq!(s, text.to_vec()),
            other => panic!("expected a string, got {:?}", other),
        }
    }
}

#[test]
fn comparisons() {
    assert_eq!(outputs_of(b"println(1 < 2)"), vec!["true\n"]);
    assert_eq!(outputs_of(b"println(2 <= 1)"), vec!["false\n"]);
    assert_eq!(outputs_of(b"println(\"a\" == \"a\")"), vec!["true\n"]);
    assert_eq!(outputs_of(b"println(true != false)"), vec!["true\n"]);
    let (_, r) = run(b"println(true < false)");
    assert!(matches!(r, Err(EvalError::InvalidComparisonError)));
    let (_, r) = run(b"println(1 == \"1\")");
    assert!(matches!(r, Err(EvalError::InvalidComparisonError)));
}

#[test]
fn float_arithmetic_and_comparison() {
    assert_eq!(outputs_of(b"println(1.5 + 0.25)"), vec!["1.75\n"]);
    assert_eq!(outputs_of(b"println(1.5 < 2.5)"), vec!["true\n"]);
    assert_eq!(outputs_of(b"println(7.5 / 2.5)"), vec!["3\n"]);
}

#[test]
fn mixed_numeric_kinds_are_a_type_fault() {
    let (_, r) = run(b"println(1 + 2.5)");
    assert!(matches!(r, Err(EvalError::TypeError)));
}

#[test]
fn non_boolean_condition_is_a_type_fault() {
    let (_, r) = run(b"if 1 { }");
    assert!(matches!(r, Err(EvalError::TypeError)));
}

#[test]
fn else_branch_runs_on_false() {
    assert_eq!(outputs_of(b"if false { println(1) } else { println(2) }"), vec!["2\n"]);
}

#[test]
fn for_over_non_array_is_fatal() {
    let (_, r) = run(b"for i in 5 { }");
    assert!(matches!(r, Err(EvalError::NotIterableError)));
}

#[test]
fn index_out_of_bounds_is_fatal() {
    let (_, r) = run(b"let a = [1] println(a[3])");
    assert!(matches!(r, Err(EvalError::IndexOutOfBoundsError)));
}

#[test]
fn array_index_reads_the_element() {
    assert_eq!(outputs_of(b"let a = [10, 20, 30] println(a[1])"), vec!["20\n"]);
}

#[test]
fn undefined_function_is_fatal() {
    let (_, r) = run(b"nope()");
    match r {
        Err(EvalError::UndefinedFunctionError(n)) => assert_eq!(n, b"nope".to_vec()),
        other => panic!("expected an undefined-function fault, got {:?}", other),
    }
}

#[test]
fn unknown_library_is_fatal() {
    let (_, r) = run(b"include nosuch");
    match r {
        Err(EvalError::UnknownLibraryError(n)) => assert_eq!(n, b"nosuch".to_vec()),
        other => panic!("expected an unknown-library fault, got {:?}", other),
    }
}

#[test]
fn integer_overflow_is_fatal() {
    let mut env = Env::new();
    let mut io = Io::new(Vec::new());
    let e = Expr::Binary(
        Box::new(Expr::Constant(Atom::Number(i64::MAX))),
        BinOp::Add,
        Box::new(Expr::Constant(Atom::Number(1))),
    );
    let r = interpreter_expr(&e, &mut env, &mut io, &mut NoHost, FUEL);
    assert!(matches!(r, Err(EvalError::OverflowError)));
}

#[test]
fn integer_division_truncates_toward_zero() {
    assert_eq!(outputs_of(b"println(7 / 2)"), vec!["3\n"]);
    assert_eq!(outputs_of(b"println(0 - 7 / 2)"), vec!["-3\n"]);
}

#[test]
fn input_reads_a_line_and_trims_its_end() {
    let (outputs, r) = run_with_inputs(b"println(input())", &["abc"]);
    r.expect("reads the line");
    assert_eq!(outputs, vec!["abc\n"]);
    let (outputs, r) = run_with_inputs(b"let v = input(\"? \") println(v)", &["7  "]);
    r.expect("reads the line");
    assert_eq!(outputs, vec!["? ", "7\n"]);
}

#[test]
fn println_concatenates_arguments_on_one_line() {
    assert_eq!(outputs_of(b"println(1, 2)"), vec!["12\n"]);
    assert_eq!(outputs_of(b"println()"), vec!["\n"]);
}

#[test]
fn println_renders_arrays() {
    assert_eq!(outputs_of(b"let a = [1, 2] println(a)"), vec!["[1, 2]\n"]);
}

#[test]
fn for_loop_scope_is_discarded_after_the_loop() {
    let (_, r) = run(b"for i in [1,2] { let j = i } println(j)");
    assert!(matches!(r, Err(EvalError::NameError(_))));
}

#[test]
fn compare_values_directly() {
    let mut env = Env::new();
    let mut io = Io::new(Vec::new());
    let e = Expr::Compare(
        Box::new(Expr::Constant(Atom::Number(3))),
        Operator::GreaterThanEqual,
        Box::new(Expr::Constant(Atom::Number(3))),
    );
    let r = interpreter_expr(&e, &mut env, &mut io, &mut NoHost, FUEL).expect("compares");
    assert!(matches!(r, Expr::Constant(Atom::Boolean(true))));
}

#[test]
fn recursion_depth_budget_is_fatal_when_exhausted() {
    let src: &[u8] = b"fn f() { return f() } f()";
    let toks = lex(src).expect("lexing should succeed");
    let parsed = parser(&toks).expect("parsing should succeed");
    let lowered = Expr::from_parser(src, parsed).expect("lowering should succeed");
    let mut io = Io::new(Vec::new());
    let r = interpreter(lowered, &mut io, 100);
    assert!(matches!(r, Err(EvalError::RecursionLimitError)));
}
