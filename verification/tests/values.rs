use mussel::env::Env;
use mussel::expr::{expr_clone, expr_eq, Atom, Expr};
use mussel::floats::{float_abs, float_add, float_eq, float_is_zero, float_lt, float_parse};
use mussel::expr::BuiltinId;
use mussel::interp::{interpreter_with_host, EvalError, HostBuiltins, Io};
use mussel::literals::{format_i64, parse_i64};

#[test]
fn parse_i64_accepts_in_range_literals() {
    assert_eq!(parse_i64(b"0"), Some(0));
    assert_eq!(parse_i64(b"42"), Some(42));
    assert_eq!(parse_i64(b"-123"), Some(-123));
    assert_eq!(parse_i64(b"9223372036854775807"), Some(i64::MAX));
    assert_eq!(parse_i64(b"-9223372036854775808"), Some(i64::MIN));
}

#[test]
fn parse_i64_rejects_malformed_and_out_of_range() {
    assert_eq!(parse_i64(b""), None);
    assert_eq!(parse_i64(b"-"), None);
    assert_eq!(parse_i64(b"12a"), None);
    assert_eq!(parse_i64(b"9223372036854775808"), None);
    assert_eq!(parse_i64(b"-9223372036854775809"), None);
}

#[test]
fn format_i64_writes_decimal_text() {
    assert_eq!(format_i64(0), b"0".to_vec());
    assert_eq!(format_i64(42), b"42".to_vec());
    assert_eq!(format_i64(-7), b"-7".to_vec());
    assert_eq!(format_i64(i64::MAX), b"9223372036854775807".to_vec());
    assert_eq!(format_i64(i64::MIN), b"-9223372036854775808".to_vec());
}

#[test]
fn format_then_parse_is_the_identity() {
    for n in [0i64, 1, -1, 999, -1000, i64::MAX, i64::MIN] {
        assert_eq!(parse_i64(&format_i64(n)), Some(n));
    }
}

#[test]
fn float_bits_match_the_host_parser() {
    assert_eq!(float_parse(b"1.5"), Some(1.5f64.to_bits()));
    assert_eq!(float_parse(b"-2.25"), Some((-2.25f64).to_bits()));
    assert_eq!(float_parse(b"0.1"), Some(0.1f64.to_bits()));
}

#[test]
fn float_arithmetic_matches_the_host() {
    let a = 0.1f64.to_bits();
    let b = 0.2f64.to_bits();
    assert_eq!(float_add(a, b), (0.1f64 + 0.2f64).to_bits());
}

#[test]
fn float_zero_has_two_encodings() {
    assert!(float_is_zero(0.0f64.to_bits()));
    assert!(float_is_zero((-0.0f64).to_bits()));
    assert!(!float_is_zero(1.0f64.to_bits()));
    assert!(float_eq(0.0f64.to_bits(), (-0.0f64).to_bits()));
}

#[test]
fn float_comparison_orders_signed_magnitudes() {
    assert!(float_lt((-1.5f64).to_bits(), 1.0f64.to_bits()));
    assert!(float_lt(1.0f64.to_bits(), 2.5f64.to_bits()));
    assert!(!float_lt(2.5f64.to_bits(), 1.0f64.to_bits()));
    let nan = f64::NAN.to_bits();
    assert!(!float_lt(nan, 1.0f64.to_bits()));
    assert!(!float_eq(nan, nan));
}

#[test]
fn float_abs_clears_the_sign_bit() {
    assert_eq!(float_abs((-2.5f64).to_bits()), 2.5f64.to_bits());
    assert_eq!(float_abs(2.5f64.to_bits()), 2.5f64.to_bits());
}

#[test]
fn env_lookup_insert_and_shadowing() {
    let mut env = Env::new();
    assert!(env.lookup(b"x").is_none());
    env.insert(b"x".to_vec(), Expr::Constant(Atom::Number(1)));
    env.insert(b"x".to_vec(), Expr::Constant(Atom::Number(2)));
    match env.lookup(b"x") {
        Some(Expr::Constant(Atom::Number(2))) => {}
        other => panic!("expected the shadowing binding, got {:?}", other),
    }
    assert!(env.contains(b"x"));
    assert!(!env.contains(b"y"));
}

#[test]
fn env_clone_is_isolated_from_the_original() {
    let mut env = Env::new();
    env.insert(b"x".to_vec(), Expr::Constant(Atom::Number(1)));
    let mut scope = env.clone_env();
    scope.insert(b"x".to_vec(), Expr::Constant(Atom::Number(9)));
    scope.insert(b"y".to_vec(), Expr::Constant(Atom::Number(5)));
    match env.lookup(b"x") {
        Some(Expr::Constant(Atom::Number(1))) => {}
        other => panic!("the caller's binding changed: {:?}", other),
    }
    assert!(env.lookup(b"y").is_none());
}

#[test]
fn expr_equality_and_clone_are_structural() {
    let e = Expr::Array(vec![
        Expr::Constant(Atom::Number(1)),
        Expr::Constant(Atom::String(b"s".to_vec())),
    ]);
    let c = expr_clone(&e);
    assert!(expr_eq(&e, &c));
    let different = Expr::Array(vec![Expr::Constant(Atom::Number(2))]);
    assert!(!expr_eq(&e, &different));
}

#[test]
fn builtin_lowercase_and_uppercase_fold_case() {
    let (outputs, r) = run(b"include string println(lowercase(\"AbC\"), uppercase(\"dEf\"))");
    r.expect("folds");
    assert_eq!(outputs, vec!["abcDEF\n"]);
}

fn run(src: &[u8]) -> (Vec<String>, Result<(), EvalError>) {
    let toks = mussel::lexer::lex(src).expect("lexing should succeed");
    let parsed = mussel::parser::parser(&toks).expect("parsing should succeed");
    let lowered = Expr::from_parser(src, parsed).expect("lowering should succeed");
    let mut io = Io::new(Vec::new());
    let r = mussel::interp::interpreter(lowered, &mut io, 10_000);
    let outputs = io
        .outputs
        .iter()
        .map(|c| String::from_utf8_lossy(c).into_owned())
        .collect();
    (outputs, r)
}

#[test]
fn builtin_length_split_reverse() {
    let (outputs, r) = run(b"include string println(length(\"abc\"))");
    r.expect("length");
    assert_eq!(outputs, vec!["3\n"]);
    let (outputs, r) = run(b"include string println(split(\"a,b,c\", \",\"))");
    r.expect("split");
    assert_eq!(outputs, vec!["[a, b, c]\n"]);
    let (outputs, r) = run(b"include string println(split(\"ab\", \"\"))");
    r.expect("split by empty");
    assert_eq!(outputs, vec!["[, a, b, ]\n"]);
    let (outputs, r) = run(b"include string println(reverse(\"abc\"))");
    r.expect("reverse");
    assert_eq!(outputs, vec!["cba\n"]);
}

#[test]
fn builtin_trims() {
    let (outputs, r) = run(b"include string println(trim(\"  x  \"), ltrim(\"  y\"), rtrim(\"z  \"))");
    r.expect("trims");
    assert_eq!(outputs, vec!["xyz\n"]);
}

#[test]
fn builtin_math_abs() {
    let (outputs, r) = run(b"include math println(abs(-5), abs(4))");
    r.expect("abs");
    assert_eq!(outputs, vec!["54\n"]);
    let (outputs, r) = run(b"include math println(abs(-2.5))");
    r.expect("float abs");
    assert_eq!(outputs, vec!["2.5\n"]);
}

#[test]
fn builtin_rand_respects_a_collapsed_range() {
    let (outputs, r) = run(b"include random println(rand(4, 4))");
    r.expect("rand");
    assert_eq!(outputs, vec!["4\n"]);
    let (_, r) = run(b"include random println(rand(5, 1))");
    assert!(matches!(r, Err(EvalError::BuiltinError(_))));
}

#[test]
fn builtin_time_moves_forward() {
    let (outputs, r) = run(b"include time println(time_ms() > 0)");
    r.expect("clock");
    assert_eq!(outputs, vec!["true\n"]);
    let (outputs, r) = run(b"include time println(time_sec() > 0.5)");
    r.expect("clock in seconds");
    assert_eq!(outputs, vec!["true\n"]);
}

#[test]
fn builtin_wrong_arity_is_fatal() {
    let (_, r) = run(b"include string println(length())");
    assert!(matches!(r, Err(EvalError::BuiltinError(_))));
}

/// A test host that computes the float builtins with the machine's own
/// floating point, as an embedding application would.
struct TestHost;

impl HostBuiltins for TestHost {
    fn host_call(&mut self, id: BuiltinId, args: Vec<Expr>) -> Result<Expr, EvalError> {
        let as_f64 = |e: &Expr| match e {
            Expr::Constant(Atom::Number(n)) => Some(*n as f64),
            Expr::Constant(Atom::Float(b)) => Some(f64::from_bits(*b)),
            _ => None,
        };
        match id {
            BuiltinId::MathSqrt => match args.as_slice() {
                [a] => match as_f64(a) {
                    Some(x) => Ok(Expr::Constant(Atom::Float(x.sqrt().to_bits()))),
                    None => Err(EvalError::BuiltinError(b"sqrt".to_vec())),
                },
                _ => Err(EvalError::BuiltinError(b"sqrt".to_vec())),
            },
            BuiltinId::MathPow => match args.as_slice() {
                [a, b] => match (as_f64(a), as_f64(b)) {
                    (Some(x), Some(y)) => Ok(Expr::Constant(Atom::Float(x.powf(y).to_bits()))),
                    _ => Err(EvalError::BuiltinError(b"pow".to_vec())),
                },
                _ => Err(EvalError::BuiltinError(b"pow".to_vec())),
            },
            _ => Err(EvalError::UnavailableBuiltinError(Vec::new())),
        }
    }
}

fn run_with_host(src: &[u8]) -> (Vec<String>, Result<(), EvalError>) {
    let toks = mussel::lexer::lex(src).expect("lexing should succeed");
    let parsed = mussel::parser::parser(&toks).expect("parsing should succeed");
    let lowered = Expr::from_parser(src, parsed).expect("lowering should succeed");
    let mut io = Io::new(Vec::new());
    let r = interpreter_with_host(lowered, &mut io, &mut TestHost, 10_000);
    let outputs = io
        .outputs
        .iter()
        .map(|c| String::from_utf8_lossy(c).into_owned())
        .collect();
    (outputs, r)
}

#[test]
fn host_answers_sqrt_and_pow() {
    let (outputs, r) = run_with_host(b"include math println(sqrt(2.25))");
    r.expect("sqrt through the host");
    assert_eq!(outputs, vec!["1.5
"]);
    let (outputs, r) = run_with_host(b"include math println(pow(2, 3))");
    r.expect("pow through the host");
    assert_eq!(outputs, vec!["8
"]);
}

#[test]
fn os_builtins_are_reported_unavailable() {
    let (_, r) = run(b"include os println(getcwd())");
    assert!(matches!(r, Err(EvalError::UnavailableBuiltinError(_))));
}

#[test]
fn io_channel_starts_empty() {
    let io = Io::new(vec![b"line".to_vec()]);
    assert_eq!(io.cursor, 0);
    assert!(io.outputs.is_empty());
}
