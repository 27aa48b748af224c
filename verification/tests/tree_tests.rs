use simplexpr::ast::{BinOp, SimplExpr, Span};
use simplexpr::dynval::DynVal;
use simplexpr::error::EvalError;
use simplexpr::eval::Env;

fn sp() -> Span {
    Span(0, 0, 0)
}

fn var(name: &str) -> SimplExpr {
    SimplExpr::VarRef(sp(), name.to_string())
}

fn lit(text: &str) -> SimplExpr {
    SimplExpr::Literal(sp(), DynVal::from_string(text.to_string()))
}

#[test]
fn var_refs_of_if_else_come_in_order() {
    let e = SimplExpr::IfElse(sp(), Box::new(var("a")), Box::new(var("b")), Box::new(var("c")));
    assert_eq!(e.var_refs(), vec!["a".to_string(), "b".to_string(), "c".to_string()]);
}

#[test]
fn var_refs_keeps_duplicates() {
    let e = SimplExpr::BinOp(sp(), Box::new(var("x")), BinOp::Plus, Box::new(var("x")));
    assert_eq!(e.var_refs(), vec!["x".to_string(), "x".to_string()]);
}

#[test]
fn var_refs_walks_function_arguments() {
    let e = SimplExpr::FunctionCall(sp(), "f".to_string(), vec![var("p"), lit("1"), var("q")]);
    assert_eq!(e.var_refs(), vec!["p".to_string(), "q".to_string()]);
}

#[test]
fn var_refs_of_a_literal_is_empty() {
    assert_eq!(lit("1").var_refs(), Vec::<String>::new());
}

#[test]
fn resolve_refs_substitutes_every_reference() {
    let mut env = Env::new();
    env.insert("x".to_string(), DynVal::from_string("5".to_string()));
    let e = SimplExpr::BinOp(sp(), Box::new(var("x")), BinOp::Plus, Box::new(lit("1")));
    let resolved = e.resolve_refs(&env).unwrap();
    assert!(resolved.var_refs().is_empty());
    assert_eq!(resolved.eval_no_vars().unwrap().as_string(), "6");
}

#[test]
fn resolve_refs_reports_the_unknown_name() {
    let env = Env::new();
    let e = SimplExpr::BinOp(sp(), Box::new(var("y")), BinOp::Plus, Box::new(lit("1")));
    match e.resolve_refs(&env).unwrap_err() {
        EvalError::Spanned(_, inner) => match *inner {
            EvalError::UnknownVariable(name) => assert_eq!(name, "y"),
            other => panic!("wrong error: {:?}", other),
        },
        other => panic!("expected a located error: {:?}", other),
    }
}

#[test]
fn map_terminals_into_transforms_only_terminals() {
    let e = SimplExpr::BinOp(sp(), Box::new(var("x")), BinOp::Plus, Box::new(lit("1")));
    let mapped = e.map_terminals_into(|t| match t {
        SimplExpr::VarRef(s, _) => SimplExpr::Literal(s, DynVal::from_string("9".to_string())),
        other => other,
    });
    assert_eq!(mapped.eval_no_vars().unwrap().as_string(), "10");
}

#[test]
fn map_terminals_into_maps_function_arguments() {
    let e = SimplExpr::FunctionCall(sp(), "round".to_string(), vec![var("n"), var("d")]);
    let mapped = e.map_terminals_into(|t| match t {
        SimplExpr::VarRef(s, name) => {
            if name == "n" {
                SimplExpr::Literal(s, DynVal::from_string("2.5".to_string()))
            } else {
                SimplExpr::Literal(s, DynVal::from_string("1".to_string()))
            }
        },
        other => other,
    });
    assert_eq!(mapped.eval_no_vars().unwrap().as_string(), "2.5");
}

#[test]
fn environment_later_binding_shadows_earlier() {
    let mut env = Env::new();
    env.insert("x".to_string(), DynVal::from_string("1".to_string()));
    env.insert("x".to_string(), DynVal::from_string("2".to_string()));
    assert_eq!(env.get(&"x".to_string()).unwrap().as_string(), "2");
    assert!(env.get(&"y".to_string()).is_none());
}

#[test]
fn eval_no_vars_reports_an_unresolved_reference_with_its_location() {
    let e = var("x");
    match e.eval_no_vars().unwrap_err() {
        EvalError::Spanned(_, inner) => {
            assert!(matches!(*inner, EvalError::UnresolvedVariable(_)));
        },
        other => panic!("expected a located error: {:?}", other),
    }
}

#[test]
fn eval_no_vars_passes_other_errors_through() {
    let e = SimplExpr::BinOp(sp(), Box::new(lit("a")), BinOp::Minus, Box::new(lit("1")));
    assert!(matches!(
        e.eval_no_vars().unwrap_err(),
        EvalError::ConversionError(_)
    ));
}

#[test]
fn spanned_wrapping_keeps_the_inner_error() {
    let err = EvalError::UnknownVariable("v".to_string()).at(Span(1, 2, 3));
    assert_eq!(err.span(), Some(Span(1, 2, 3)));
    match err {
        EvalError::Spanned(_, inner) => {
            assert!(matches!(*inner, EvalError::UnknownVariable(_)));
        },
        other => panic!("expected a located error: {:?}", other),
    }
}

#[test]
fn conversion_error_reports_the_value_span() {
    let e = SimplExpr::UnaryOp(
        Span(4, 5, 6),
        simplexpr::ast::UnaryOp::Not,
        Box::new(SimplExpr::Literal(Span(7, 8, 9), DynVal::from_string("oops".to_string()))),
    );
    let err = e.eval(&Env::new()).unwrap_err();
    assert_eq!(err.span(), Some(Span(7, 8, 9)));
}

#[test]
fn dynval_conversions() {
    let v = DynVal::from_string("+42".to_string());
    assert_eq!(v.as_i32().unwrap(), 42);
    assert!(DynVal::from_string("abc".to_string()).as_i32().is_err());
    assert!(DynVal::from_string("99999999999".to_string()).as_i32().is_err());
    assert_eq!(DynVal::from_string("-2147483648".to_string()).as_i32().unwrap(), -2147483648);
    assert!(DynVal::from_string("2147483648".to_string()).as_i32().is_err());
    assert_eq!(DynVal::from_bool(true).as_bool().unwrap(), true);
    assert!(DynVal::from_string("TRUE".to_string()).as_bool().is_err());
    assert_eq!(DynVal::from_string("hi".to_string()).as_string(), "hi");
}

#[test]
fn dynval_equality_ignores_spans() {
    let a = DynVal::from_string("v".to_string());
    let b = DynVal::from_string("v".to_string()).at(Span(1, 1, 1));
    assert!(a.eq_val(&b));
}
