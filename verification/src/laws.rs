use vstd::prelude::*;
use crate::ast::{spec_var_refs, spec_var_refs_seq, BinOp, ExprV, Span};
use crate::dynval::{spec_parse_i32, ValV};
use crate::error::ErrV;
use crate::eval::{
    spec_call, spec_eval, spec_eval_args, spec_eval_no_vars, spec_json_index, spec_resolve,
    spec_resolve_seq,
};
use crate::jsonval::JShapeV;
use crate::jsonval::json_shape;
use crate::numeric::is_numeric;

verus! {

/// Every name in the list is bound by the environment.
pub open spec fn all_bound(names: Seq<Seq<char>>, env: Map<Seq<char>, ValV>) -> bool {
    forall|i: int| 0 <= i < names.len() ==> env.contains_key(#[trigger] names[i])
}

/// Every variable the expression references is bound.
pub open spec fn vars_bound(e: ExprV, env: Map<Seq<char>, ValV>) -> bool {
    all_bound(spec_var_refs(e), env)
}

proof fn lemma_all_bound_split(x: Seq<Seq<char>>, y: Seq<Seq<char>>, env: Map<Seq<char>, ValV>)
    requires
        all_bound(x + y, env),
    ensures
        all_bound(x, env),
        all_bound(y, env),
{
    assert forall|i: int| 0 <= i < x.len() implies env.contains_key(#[trigger] x[i]) by {
        assert((x + y)[i] == x[i]);
    }
    assert forall|i: int| 0 <= i < y.len() implies env.contains_key(#[trigger] y[i]) by {
        assert((x + y)[x.len() + i] == y[i]);
    }
}

/// A literal evaluates to its held value, re-tagged with the node's
/// span, whatever the environment holds.
pub proof fn lemma_literal_evaluates_to_itself(sp: Span, v: ValV, env: Map<Seq<char>, ValV>)
    ensures
        spec_eval(ExprV::Literal(sp, v), env) == Ok::<ValV, ErrV>(
            ValV { text: v.text, span: Some(sp) },
        ),
{
}

/// A reference to a name the environment does not bind fails with an
/// unresolved-variable error carrying that name, located at the node.
pub proof fn lemma_absent_variable_fails(sp: Span, name: Seq<char>, env: Map<Seq<char>, ValV>)
    requires
        !env.contains_key(name),
    ensures
        spec_eval(ExprV::VarRef(sp, name), env) == Err::<ValV, ErrV>(
            ErrV::Spanned(sp, Box::new(ErrV::UnresolvedVariable(name))),
        ),
{
}

/// The Elvis operator returns the right operand when the left one's
/// string form is empty, and the left operand's text otherwise.
pub proof fn lemma_elvis(sp: Span, spa: Span, spb: Span, a: ValV, b: ValV, env: Map<Seq<char>, ValV>)
    ensures
        a.text.len() == 0 ==> spec_eval(
            ExprV::BinOp(
                sp,
                Box::new(ExprV::Literal(spa, a)),
                BinOp::Elvis,
                Box::new(ExprV::Literal(spb, b)),
            ),
            env,
        ) == Ok::<ValV, ErrV>(ValV { text: b.text, span: Some(sp) }),
        a.text.len() != 0 ==> spec_eval(
            ExprV::BinOp(
                sp,
                Box::new(ExprV::Literal(spa, a)),
                BinOp::Elvis,
                Box::new(ExprV::Literal(spb, b)),
            ),
            env,
        ) == Ok::<ValV, ErrV>(ValV { text: a.text, span: Some(sp) }),
{
    assert(spec_eval(ExprV::Literal(spa, a), env) == Ok::<ValV, ErrV>(
        ValV { text: a.text, span: Some(spa) },
    ));
    assert(spec_eval(ExprV::Literal(spb, b), env) == Ok::<ValV, ErrV>(
        ValV { text: b.text, span: Some(spb) },
    ));
}

/// Addition falls back to string concatenation as soon as either side is
/// not numeric, and then never fails.
pub proof fn lemma_plus_concatenates(
    sp: Span,
    spa: Span,
    spb: Span,
    a: ValV,
    b: ValV,
    env: Map<Seq<char>, ValV>,
)
    requires
        !is_numeric(a.text) || !is_numeric(b.text),
    ensures
        spec_eval(
            ExprV::BinOp(
                sp,
                Box::new(ExprV::Literal(spa, a)),
                BinOp::Plus,
                Box::new(ExprV::Literal(spb, b)),
            ),
            env,
        ) == Ok::<ValV, ErrV>(ValV { text: a.text + b.text, span: Some(sp) }),
{
    assert(spec_eval(ExprV::Literal(spa, a), env) == Ok::<ValV, ErrV>(
        ValV { text: a.text, span: Some(spa) },
    ));
    assert(spec_eval(ExprV::Literal(spb, b), env) == Ok::<ValV, ErrV>(
        ValV { text: b.text, span: Some(spb) },
    ));
}

/// Indexing a JSON array out of range yields JSON null, not a failure.
pub proof fn lemma_json_index_out_of_range(
    vv: ValV,
    vi: ValV,
    sp: Span,
    items: Seq<Seq<char>>,
    n: i32,
)
    requires
        json_shape(vv.text) == JShapeV::Array(items),
        spec_parse_i32(vi.text) == Some(n),
        !(0 <= n < items.len()),
    ensures
        spec_json_index(vv, vi, sp) == Ok::<Seq<char>, ErrV>("null"@),
{
}

/// The round built-in demands exactly two arguments.
pub proof fn lemma_round_arity(args: Seq<ValV>)
    requires
        args.len() != 2,
    ensures
        spec_call("round"@, args) == Err::<Seq<char>, ErrV>(ErrV::WrongArgCount("round"@)),
{
}

/// The replace built-in demands exactly three arguments.
pub proof fn lemma_replace_arity(args: Seq<ValV>)
    requires
        args.len() != 3,
    ensures
        spec_call("replace"@, args) == Err::<Seq<char>, ErrV>(ErrV::WrongArgCount("replace"@)),
{
    reveal_strlit("round");
    reveal_strlit("replace");
    assert("round"@.len() == 5);
    assert("replace"@.len() == 7);
}

/// A name no registry resolves fails with an unknown-function error
/// carrying that name.
pub proof fn lemma_unknown_function(name: Seq<char>, args: Seq<ValV>)
    requires
        name != "round"@,
        name != "replace"@,
    ensures
        spec_call(name, args) == Err::<Seq<char>, ErrV>(ErrV::UnknownFunction(name)),
{
}

/// Substitution reports a name the bindings lack as an unknown-variable
/// error carrying that name, located at the node.
pub proof fn lemma_resolve_unknown_variable(sp: Span, name: Seq<char>, env: Map<Seq<char>, ValV>)
    requires
        !env.contains_key(name),
    ensures
        spec_resolve(ExprV::VarRef(sp, name), env) == Err::<ExprV, ErrV>(
            ErrV::Spanned(sp, Box::new(ErrV::UnknownVariable(name))),
        ),
{
}

/// The names a conditional references come out depth first, left to
/// right: condition, then branch, else branch.
pub proof fn lemma_var_refs_if_else(
    sp: Span,
    sa: Span,
    sb: Span,
    sc: Span,
    a: Seq<char>,
    b: Seq<char>,
    c: Seq<char>,
)
    ensures
        spec_var_refs(
            ExprV::IfElse(
                sp,
                Box::new(ExprV::VarRef(sa, a)),
                Box::new(ExprV::VarRef(sb, b)),
                Box::new(ExprV::VarRef(sc, c)),
            ),
        ) == seq![a, b, c],
{
    assert(spec_var_refs(ExprV::VarRef(sa, a)) == seq![a]);
    assert(spec_var_refs(ExprV::VarRef(sb, b)) == seq![b]);
    assert(spec_var_refs(ExprV::VarRef(sc, c)) == seq![c]);
    assert((seq![a] + seq![b]) + seq![c] =~= seq![a, b, c]);
}

/// Substitution commutes with evaluation: resolving every reference
/// under a binding map and then evaluating the closed tree under any
/// environment at all is the same as evaluating the original tree under
/// the binding map.
pub proof fn lemma_subst_eval(e: ExprV, env: Map<Seq<char>, ValV>, env2: Map<Seq<char>, ValV>)
    requires
        vars_bound(e, env),
    ensures
        (spec_resolve(e, env) matches Ok(re) && spec_eval(re, env2) == spec_eval(e, env)),
    decreases e, 1int,
{
    match e {
        ExprV::Literal(_, _) => {},
        ExprV::VarRef(sp, name) => {
            assert(spec_var_refs(e) == seq![name]);
            assert(spec_var_refs(e)[0] == name);
            assert(env.contains_key(name));
        },
        ExprV::BinOp(sp, a, op, b) => {
            assert(spec_var_refs(e) == spec_var_refs(*a) + spec_var_refs(*b));
            lemma_all_bound_split(spec_var_refs(*a), spec_var_refs(*b), env);
            lemma_subst_eval(*a, env, env2);
            lemma_subst_eval(*b, env, env2);
        },
        ExprV::UnaryOp(sp, op, a) => {
            assert(spec_var_refs(e) == spec_var_refs(*a));
            lemma_subst_eval(*a, env, env2);
        },
        ExprV::IfElse(sp, a, b, c) => {
            assert(spec_var_refs(e) == (spec_var_refs(*a) + spec_var_refs(*b)) + spec_var_refs(
                *c,
            ));
            lemma_all_bound_split(spec_var_refs(*a) + spec_var_refs(*b), spec_var_refs(*c), env);
            lemma_all_bound_split(spec_var_refs(*a), spec_var_refs(*b), env);
            lemma_subst_eval(*a, env, env2);
            lemma_subst_eval(*b, env, env2);
            lemma_subst_eval(*c, env, env2);
        },
        ExprV::JsonAccess(sp, a, b) => {
            assert(spec_var_refs(e) == spec_var_refs(*a) + spec_var_refs(*b));
            lemma_all_bound_split(spec_var_refs(*a), spec_var_refs(*b), env);
            lemma_subst_eval(*a, env, env2);
            lemma_subst_eval(*b, env, env2);
        },
        ExprV::FunctionCall(sp, name, args) => {
            assert(spec_var_refs(e) == spec_var_refs_seq(args));
            lemma_subst_eval_args(args, env, env2);
        },
    }
}

proof fn lemma_subst_eval_args(
    args: Seq<ExprV>,
    env: Map<Seq<char>, ValV>,
    env2: Map<Seq<char>, ValV>,
)
    requires
        all_bound(spec_var_refs_seq(args), env),
    ensures
        (spec_resolve_seq(args, env) matches Ok(rs) && spec_eval_args(rs, env2) == spec_eval_args(
            args,
            env,
        )),
    decreases args, 0int,
{
    if args.len() == 0 {
    } else {
        assert(spec_var_refs_seq(args) == spec_var_refs(args[0]) + spec_var_refs_seq(
            args.drop_first(),
        ));
        lemma_all_bound_split(spec_var_refs(args[0]), spec_var_refs_seq(args.drop_first()), env);
        lemma_subst_eval(args[0], env, env2);
        lemma_subst_eval_args(args.drop_first(), env, env2);
        match (spec_resolve(args[0], env), spec_resolve_seq(args.drop_first(), env)) {
            (Ok(r0), Ok(rest)) => {
                let rs = seq![r0] + rest;
                assert(rs[0] == r0);
                assert(rs.drop_first() =~= rest);
                assert(rs.len() > 0);
            },
            _ => {},
        }
    }
}

/// Evaluation never reports a bare unknown-variable failure: that
/// variant belongs to substitution, while evaluation's own is the
/// located unresolved-variable one.
pub proof fn lemma_eval_not_unknown(e: ExprV, env: Map<Seq<char>, ValV>)
    ensures
        !(spec_eval(e, env) matches Err(ErrV::UnknownVariable(_))),
    decreases e, 1int,
{
    match e {
        ExprV::Literal(_, _) => {},
        ExprV::VarRef(_, _) => {},
        ExprV::BinOp(_, a, _, b) => {
            lemma_eval_not_unknown(*a, env);
            lemma_eval_not_unknown(*b, env);
        },
        ExprV::UnaryOp(_, _, a) => {
            lemma_eval_not_unknown(*a, env);
        },
        ExprV::IfElse(_, a, b, c) => {
            lemma_eval_not_unknown(*a, env);
            lemma_eval_not_unknown(*b, env);
            lemma_eval_not_unknown(*c, env);
        },
        ExprV::JsonAccess(_, a, b) => {
            lemma_eval_not_unknown(*a, env);
            lemma_eval_not_unknown(*b, env);
        },
        ExprV::FunctionCall(_, _, args) => {
            lemma_eval_args_not_unknown(args, env);
        },
    }
}

proof fn lemma_eval_args_not_unknown(args: Seq<ExprV>, env: Map<Seq<char>, ValV>)
    ensures
        !(spec_eval_args(args, env) matches Err(ErrV::UnknownVariable(_))),
    decreases args, 0int,
{
    if args.len() > 0 {
        lemma_eval_not_unknown(args[0], env);
        lemma_eval_args_not_unknown(args.drop_first(), env);
    }
}

/// Resolving a tree whose variables are all bound succeeds, and
/// evaluating the result with variables disallowed gives exactly what
/// evaluating the original tree under those bindings gives: substitution
/// commutes with evaluation.
pub proof fn lemma_substitution_commutes(e: ExprV, env: Map<Seq<char>, ValV>)
    requires
        vars_bound(e, env),
    ensures
        (spec_resolve(e, env) matches Ok(re) && spec_eval_no_vars(re) == spec_eval(e, env)),
{
    lemma_subst_eval(e, env, Map::<Seq<char>, ValV>::empty());
    lemma_eval_not_unknown(e, env);
}

} // verus!
