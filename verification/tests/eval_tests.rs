use simplexpr::ast::{BinOp, SimplExpr, Span, UnaryOp};
use simplexpr::dynval::DynVal;
use simplexpr::error::EvalError;
use simplexpr::eval::Env;

fn sp() -> Span {
    Span(0, 0, 0)
}

fn lit(text: &str) -> SimplExpr {
    SimplExpr::Literal(sp(), DynVal::from_string(text.to_string()))
}

fn bin(a: SimplExpr, op: BinOp, b: SimplExpr) -> SimplExpr {
    SimplExpr::BinOp(sp(), Box::new(a), op, Box::new(b))
}

fn call(name: &str, args: Vec<SimplExpr>) -> SimplExpr {
    SimplExpr::FunctionCall(sp(), name.to_string(), args)
}

fn eval_text(e: &SimplExpr) -> String {
    e.eval(&Env::new()).unwrap().as_string()
}

fn eval_err(e: &SimplExpr) -> EvalError {
    e.eval(&Env::new()).unwrap_err()
}

fn unspanned(e: EvalError) -> EvalError {
    match e {
        EvalError::Spanned(_, inner) => unspanned(*inner),
        other => other,
    }
}

#[test]
fn literal_evaluates_verbatim() {
    let mut env = Env::new();
    env.insert("x".to_string(), DynVal::from_string("ignored".to_string()));
    let r = lit("hello").eval(&env).unwrap();
    assert_eq!(r.as_string(), "hello");
}

#[test]
fn unresolved_variable_fails_with_name() {
    let e = SimplExpr::VarRef(sp(), "missing".to_string());
    match unspanned(eval_err(&e)) {
        EvalError::UnresolvedVariable(name) => assert_eq!(name, "missing"),
        other => panic!("wrong error: {:?}", other),
    }
}

#[test]
fn bound_variable_resolves() {
    let mut env = Env::new();
    env.insert("x".to_string(), DynVal::from_string("7".to_string()));
    let e = SimplExpr::VarRef(sp(), "x".to_string());
    assert_eq!(e.eval(&env).unwrap().as_string(), "7");
}

#[test]
fn substitution_commutes_with_evaluation() {
    let mut env = Env::new();
    env.insert("a".to_string(), DynVal::from_string("1".to_string()));
    env.insert("b".to_string(), DynVal::from_string("2".to_string()));
    let e = bin(
        SimplExpr::VarRef(sp(), "a".to_string()),
        BinOp::Plus,
        SimplExpr::VarRef(sp(), "b".to_string()),
    );
    let direct = e.eval(&env).unwrap().as_string();
    let e2 = bin(
        SimplExpr::VarRef(sp(), "a".to_string()),
        BinOp::Plus,
        SimplExpr::VarRef(sp(), "b".to_string()),
    );
    let resolved = e2.resolve_refs(&env).unwrap();
    let staged = resolved.eval_no_vars().unwrap().as_string();
    assert_eq!(direct, "3");
    assert_eq!(staged, "3");
}

#[test]
fn elvis_empty_takes_right() {
    let e = bin(lit(""), BinOp::Elvis, lit("fallback"));
    assert_eq!(eval_text(&e), "fallback");
}

#[test]
fn elvis_nonempty_keeps_left() {
    let e = bin(lit("a"), BinOp::Elvis, lit("fallback"));
    assert_eq!(eval_text(&e), "a");
}

#[test]
fn plus_adds_numbers() {
    let e = bin(lit("1"), BinOp::Plus, lit("2"));
    assert_eq!(eval_text(&e), "3");
}

#[test]
fn plus_concatenates_strings() {
    let e = bin(lit("a"), BinOp::Plus, lit("b"));
    assert_eq!(eval_text(&e), "ab");
}

#[test]
fn plus_mixed_falls_back_to_concatenation() {
    let e = bin(lit("1"), BinOp::Plus, lit("a"));
    assert_eq!(eval_text(&e), "1a");
}

#[test]
fn minus_times_div_mod() {
    assert_eq!(eval_text(&bin(lit("5"), BinOp::Minus, lit("2"))), "3");
    assert_eq!(eval_text(&bin(lit("2"), BinOp::Times, lit("3"))), "6");
    assert_eq!(eval_text(&bin(lit("7"), BinOp::Div, lit("2"))), "3.5");
    assert_eq!(eval_text(&bin(lit("7"), BinOp::Mod, lit("4"))), "3");
}

#[test]
fn division_by_zero_is_infinite_not_an_error() {
    assert_eq!(eval_text(&bin(lit("1"), BinOp::Div, lit("0"))), "inf");
}

#[test]
fn comparisons() {
    assert_eq!(eval_text(&bin(lit("2"), BinOp::GreaterThan, lit("1"))), "true");
    assert_eq!(eval_text(&bin(lit("2"), BinOp::LessThan, lit("1"))), "false");
}

#[test]
fn comparison_on_text_is_a_conversion_error() {
    let e = bin(lit("a"), BinOp::LessThan, lit("b"));
    match unspanned(eval_err(&e)) {
        EvalError::ConversionError(c) => assert_eq!(c.value.as_string(), "a"),
        other => panic!("wrong error: {:?}", other),
    }
}

#[test]
fn equality_is_structural_on_text() {
    assert_eq!(eval_text(&bin(lit("xy"), BinOp::Equals, lit("xy"))), "true");
    assert_eq!(eval_text(&bin(lit("xy"), BinOp::NotEquals, lit("xy"))), "false");
    assert_eq!(eval_text(&bin(lit("1"), BinOp::Equals, lit("1.0"))), "false");
}

#[test]
fn and_or_coerce_both_sides() {
    assert_eq!(eval_text(&bin(lit("true"), BinOp::And, lit("false"))), "false");
    assert_eq!(eval_text(&bin(lit("false"), BinOp::Or, lit("true"))), "true");
    let e = bin(lit("true"), BinOp::And, lit("1"));
    assert!(matches!(unspanned(eval_err(&e)), EvalError::ConversionError(_)));
}

#[test]
fn not_negates() {
    let e = SimplExpr::UnaryOp(sp(), UnaryOp::Not, Box::new(lit("true")));
    assert_eq!(eval_text(&e), "false");
}

#[test]
fn not_on_number_is_a_conversion_error() {
    let e = SimplExpr::UnaryOp(sp(), UnaryOp::Not, Box::new(lit("5")));
    assert!(matches!(unspanned(eval_err(&e)), EvalError::ConversionError(_)));
}

#[test]
fn if_else_takes_only_one_branch() {
    let bad = SimplExpr::UnaryOp(sp(), UnaryOp::Not, Box::new(lit("zebra")));
    let e = SimplExpr::IfElse(sp(), Box::new(lit("true")), Box::new(lit("x")), Box::new(bad));
    assert_eq!(eval_text(&e), "x");
    let bad2 = SimplExpr::UnaryOp(sp(), UnaryOp::Not, Box::new(lit("zebra")));
    let e2 = SimplExpr::IfElse(sp(), Box::new(lit("false")), Box::new(bad2), Box::new(lit("y")));
    assert_eq!(eval_text(&e2), "y");
}

#[test]
fn if_else_condition_must_be_boolean() {
    let e = SimplExpr::IfElse(sp(), Box::new(lit("7")), Box::new(lit("x")), Box::new(lit("y")));
    assert!(matches!(unspanned(eval_err(&e)), EvalError::ConversionError(_)));
}

#[test]
fn regex_match_works() {
    assert_eq!(eval_text(&bin(lit("abc"), BinOp::RegexMatch, lit("b+"))), "true");
    assert_eq!(eval_text(&bin(lit("abc"), BinOp::RegexMatch, lit("^c"))), "false");
}

#[test]
fn malformed_regex_is_reported() {
    let e = bin(lit("abc"), BinOp::RegexMatch, lit("("));
    assert!(matches!(unspanned(eval_err(&e)), EvalError::InvalidRegex(_)));
}

#[test]
fn json_array_out_of_range_yields_null() {
    let e = SimplExpr::JsonAccess(sp(), Box::new(lit("[1,2]")), Box::new(lit("5")));
    assert_eq!(eval_text(&e), "null");
}

#[test]
fn json_array_negative_index_yields_null() {
    let e = SimplExpr::JsonAccess(sp(), Box::new(lit("[1,2]")), Box::new(lit("-1")));
    assert_eq!(eval_text(&e), "null");
}

#[test]
fn json_array_in_range() {
    let e = SimplExpr::JsonAccess(sp(), Box::new(lit("[1,2]")), Box::new(lit("1")));
    assert_eq!(eval_text(&e), "2");
}

#[test]
fn json_object_lookup_and_missing_key() {
    let e = SimplExpr::JsonAccess(sp(), Box::new(lit("{\"a\": 1}")), Box::new(lit("a")));
    assert_eq!(eval_text(&e), "1");
    let e2 = SimplExpr::JsonAccess(sp(), Box::new(lit("{\"a\": 1}")), Box::new(lit("b")));
    assert_eq!(eval_text(&e2), "null");
}

#[test]
fn json_object_string_member_comes_out_unquoted() {
    let e = SimplExpr::JsonAccess(sp(), Box::new(lit("{\"a\": \"text\"}")), Box::new(lit("a")));
    assert_eq!(eval_text(&e), "text");
}

#[test]
fn json_object_falls_back_to_integer_form_of_key() {
    let e = SimplExpr::JsonAccess(sp(), Box::new(lit("{\"1\": \"one\"}")), Box::new(lit("+1")));
    assert_eq!(eval_text(&e), "one");
}

#[test]
fn json_scalar_cannot_be_indexed() {
    let e = SimplExpr::JsonAccess(sp(), Box::new(lit("5")), Box::new(lit("0")));
    match unspanned(eval_err(&e)) {
        EvalError::CannotIndex(v) => assert_eq!(v, "5"),
        other => panic!("wrong error: {:?}", other),
    }
}

#[test]
fn non_json_container_is_a_conversion_error() {
    let e = SimplExpr::JsonAccess(sp(), Box::new(lit("not json")), Box::new(lit("0")));
    assert!(matches!(unspanned(eval_err(&e)), EvalError::ConversionError(_)));
}

#[test]
fn json_nested_container_renders_compactly() {
    let outer = SimplExpr::JsonAccess(sp(), Box::new(lit("[[1,2],[3]]")), Box::new(lit("0")));
    assert_eq!(eval_text(&outer), "[1,2]");
    let chained = SimplExpr::JsonAccess(
        sp(),
        Box::new(SimplExpr::JsonAccess(
            sp(),
            Box::new(lit("[[1,2],[3]]")),
            Box::new(lit("0")),
        )),
        Box::new(lit("1")),
    );
    assert_eq!(eval_text(&chained), "2");
}

#[test]
fn json_array_index_must_be_an_integer() {
    let e = SimplExpr::JsonAccess(sp(), Box::new(lit("[1,2]")), Box::new(lit("x")));
    assert!(matches!(unspanned(eval_err(&e)), EvalError::ConversionError(_)));
}

#[test]
fn round_formats_to_fixed_point() {
    let e = call("round", vec![lit("3.14159"), lit("2")]);
    assert_eq!(eval_text(&e), "3.14");
}

#[test]
fn round_pads_with_zeros() {
    let e = call("round", vec![lit("1"), lit("3")]);
    assert_eq!(eval_text(&e), "1.000");
}

#[test]
fn round_with_one_argument_is_an_arity_error() {
    let e = call("round", vec![lit("3.14159")]);
    match unspanned(eval_err(&e)) {
        EvalError::WrongArgCount(name) => assert_eq!(name, "round"),
        other => panic!("wrong error: {:?}", other),
    }
}

#[test]
fn round_with_three_arguments_is_an_arity_error() {
    let e = call("round", vec![lit("1"), lit("2"), lit("3")]);
    match unspanned(eval_err(&e)) {
        EvalError::WrongArgCount(name) => assert_eq!(name, "round"),
        other => panic!("wrong error: {:?}", other),
    }
}

#[test]
fn replace_rewrites_every_match() {
    let e = call("replace", vec![lit("a.b.c"), lit("\\."), lit("-")]);
    assert_eq!(eval_text(&e), "a-b-c");
}

#[test]
fn replace_inserts_dollar_literally() {
    let e = call("replace", vec![lit("abc"), lit("b"), lit("$x")]);
    assert_eq!(eval_text(&e), "a$xc");
}

#[test]
fn replace_inserts_backslash_literally() {
    let e = call("replace", vec![lit("abc"), lit("b"), lit("x\\y")]);
    assert_eq!(eval_text(&e), "ax\\yc");
}

#[test]
fn replace_with_malformed_pattern_is_reported() {
    let e = call("replace", vec![lit("abc"), lit("("), lit("-")]);
    assert!(matches!(unspanned(eval_err(&e)), EvalError::InvalidRegex(_)));
}

#[test]
fn replace_arity_is_checked() {
    let e = call("replace", vec![lit("abc"), lit("b")]);
    match unspanned(eval_err(&e)) {
        EvalError::WrongArgCount(name) => assert_eq!(name, "replace"),
        other => panic!("wrong error: {:?}", other),
    }
}

#[test]
fn unknown_function_is_reported_with_its_name() {
    let e = call("nosuch", vec![lit("1")]);
    match unspanned(eval_err(&e)) {
        EvalError::UnknownFunction(name) => assert_eq!(name, "nosuch"),
        other => panic!("wrong error: {:?}", other),
    }
}

#[test]
fn function_argument_failure_wins_over_dispatch() {
    let bad = SimplExpr::VarRef(sp(), "nope".to_string());
    let e = call("round", vec![bad]);
    assert!(matches!(unspanned(eval_err(&e)), EvalError::UnresolvedVariable(_)));
}

#[test]
fn errors_carry_a_span() {
    let e = SimplExpr::VarRef(Span(3, 9, 1), "missing".to_string());
    let err = eval_err(&e);
    assert_eq!(err.span(), Some(Span(3, 9, 1)));
}
