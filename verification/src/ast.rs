use vstd::prelude::*;
use crate::dynval::{DynVal, ValV};

verus! {

/// A source location range, attached to every node and to evaluated
/// values for diagnostics. It carries no semantic weight in comparisons.
#[derive(Clone, Copy, PartialEq, Eq, Structural, Debug)]
pub struct Span(pub usize, pub usize, pub usize);

#[derive(Clone, Copy, PartialEq, Eq, Structural, Debug)]
pub enum BinOp {
    Equals,
    NotEquals,
    And,
    Or,
    Plus,
    Minus,
    Times,
    Div,
    Mod,
    GreaterThan,
    LessThan,
    Elvis,
    RegexMatch,
}

#[derive(Clone, Copy, PartialEq, Eq, Structural, Debug)]
pub enum UnaryOp {
    Not,
}

/// The expression tree: immutable, recursively owned, each variant
/// carrying the span it was parsed at.
#[derive(Debug)]
pub enum SimplExpr {
    Literal(Span, DynVal),
    VarRef(Span, String),
    BinOp(Span, Box<SimplExpr>, BinOp, Box<SimplExpr>),
    UnaryOp(Span, UnaryOp, Box<SimplExpr>),
    IfElse(Span, Box<SimplExpr>, Box<SimplExpr>, Box<SimplExpr>),
    JsonAccess(Span, Box<SimplExpr>, Box<SimplExpr>),
    FunctionCall(Span, String, Vec<SimplExpr>),
}

/// The mathematical model of an expression tree.
pub enum ExprV {
    Literal(Span, ValV),
    VarRef(Span, Seq<char>),
    BinOp(Span, Box<ExprV>, BinOp, Box<ExprV>),
    UnaryOp(Span, UnaryOp, Box<ExprV>),
    IfElse(Span, Box<ExprV>, Box<ExprV>, Box<ExprV>),
    JsonAccess(Span, Box<ExprV>, Box<ExprV>),
    FunctionCall(Span, Seq<char>, Seq<ExprV>),
}

pub open spec fn expr_view(e: SimplExpr) -> ExprV
    decreases e,
{
    match e {
        SimplExpr::Literal(sp, v) => ExprV::Literal(sp, v@),
        SimplExpr::VarRef(sp, name) => ExprV::VarRef(sp, name@),
        SimplExpr::BinOp(sp, a, op, b) => ExprV::BinOp(
            sp,
            Box::new(expr_view(*a)),
            op,
            Box::new(expr_view(*b)),
        ),
        SimplExpr::UnaryOp(sp, op, a) => ExprV::UnaryOp(sp, op, Box::new(expr_view(*a))),
        SimplExpr::IfElse(sp, a, b, c) => ExprV::IfElse(
            sp,
            Box::new(expr_view(*a)),
            Box::new(expr_view(*b)),
            Box::new(expr_view(*c)),
        ),
        SimplExpr::JsonAccess(sp, a, b) => ExprV::JsonAccess(
            sp,
            Box::new(expr_view(*a)),
            Box::new(expr_view(*b)),
        ),
        SimplExpr::FunctionCall(sp, name, args) => ExprV::FunctionCall(
            sp,
            name@,
            expr_view_seq(args@),
        ),
    }
}

pub open spec fn expr_view_seq(s: Seq<SimplExpr>) -> Seq<ExprV>
    decreases s,
{
    if s.len() == 0 {
        Seq::empty()
    } else {
        seq![expr_view(s[0])] + expr_view_seq(s.drop_first())
    }
}

impl View for SimplExpr {
    type V = ExprV;

    open spec fn view(&self) -> ExprV {
        expr_view(*self)
    }
}

/// A view of an expression sequence is pointwise.
pub proof fn lemma_expr_view_seq(s: Seq<SimplExpr>)
    ensures
        expr_view_seq(s).len() == s.len(),
        forall|i: int| 0 <= i < s.len() ==> expr_view_seq(s)[i] == expr_view(#[trigger] s[i]),
    decreases s.len(),
{
    if s.len() > 0 {
        lemma_expr_view_seq(s.drop_first());
        assert forall|i: int| 0 <= i < s.len() implies expr_view_seq(s)[i] == expr_view(
            #[trigger] s[i],
        ) by {
            if i > 0 {
                assert(s.drop_first()[i - 1] == s[i]);
                assert(expr_view_seq(s)[i] == expr_view_seq(s.drop_first())[i - 1]);
            }
        }
    }
}

/// The span a node carries.
pub open spec fn spec_span(e: ExprV) -> Span {
    match e {
        ExprV::Literal(sp, _) => sp,
        ExprV::VarRef(sp, _) => sp,
        ExprV::BinOp(sp, _, _, _) => sp,
        ExprV::UnaryOp(sp, _, _) => sp,
        ExprV::IfElse(sp, _, _, _) => sp,
        ExprV::JsonAccess(sp, _, _) => sp,
        ExprV::FunctionCall(sp, _, _) => sp,
    }
}

/// The variable names an expression references, depth first, left to
/// right, duplicates kept.
pub open spec fn spec_var_refs(e: ExprV) -> Seq<Seq<char>>
    decreases e,
{
    match e {
        ExprV::Literal(_, _) => Seq::empty(),
        ExprV::VarRef(_, name) => seq![name],
        ExprV::BinOp(_, a, _, b) => spec_var_refs(*a) + spec_var_refs(*b),
        ExprV::UnaryOp(_, _, a) => spec_var_refs(*a),
        ExprV::IfElse(_, a, b, c) => spec_var_refs(*a) + spec_var_refs(*b) + spec_var_refs(*c),
        ExprV::JsonAccess(_, a, b) => spec_var_refs(*a) + spec_var_refs(*b),
        ExprV::FunctionCall(_, _, args) => spec_var_refs_seq(args),
    }
}

pub open spec fn spec_var_refs_seq(args: Seq<ExprV>) -> Seq<Seq<char>>
    decreases args,
{
    if args.len() == 0 {
        Seq::empty()
    } else {
        spec_var_refs(args[0]) + spec_var_refs_seq(args.drop_first())
    }
}

/// The views of a sequence of strings.
pub open spec fn strs_view(v: Seq<String>) -> Seq<Seq<char>> {
    v.map_values(|s: String| s@)
}

proof fn lemma_strs_view_add(a: Seq<String>, b: Seq<String>)
    ensures
        strs_view(a + b) == strs_view(a) + strs_view(b),
{
    assert(strs_view(a + b) =~= strs_view(a) + strs_view(b));
}

impl SimplExpr {
    pub fn span(&self) -> (r: Span)
        ensures
            r == spec_span(self@),
    {
        match self {
            SimplExpr::Literal(sp, _) => *sp,
            SimplExpr::VarRef(sp, _) => *sp,
            SimplExpr::BinOp(sp, _, _, _) => *sp,
            SimplExpr::UnaryOp(sp, _, _, ) => *sp,
            SimplExpr::IfElse(sp, _, _, _) => *sp,
            SimplExpr::JsonAccess(sp, _, _) => *sp,
            SimplExpr::FunctionCall(sp, _, _) => *sp,
        }
    }

    /// Collects every referenced variable name, depth first, left to right.
    pub fn var_refs(&self) -> (r: Vec<String>)
        ensures
            strs_view(r@) == spec_var_refs(self@),
        decreases *self,
    {
        match self {
            SimplExpr::Literal(_, _) => Vec::new(),
            SimplExpr::VarRef(_, name) => {
                let mut r: Vec<String> = Vec::new();
                r.push(name.clone());
                r
            }
            SimplExpr::BinOp(_, a, _, b) => {
                let mut r = a.var_refs();
                let mut rb = b.var_refs();
                proof {
                    lemma_strs_view_add(r@, rb@);
                }
                r.append(&mut rb);
                r
            }
            SimplExpr::UnaryOp(_, _, a) => a.var_refs(),
            SimplExpr::IfElse(_, a, b, c) => {
                let mut r = a.var_refs();
                let mut rb = b.var_refs();
                let mut rc = c.var_refs();
                proof {
                    lemma_strs_view_add(r@, rb@);
                    lemma_strs_view_add(r@ + rb@, rc@);
                }
                r.append(&mut rb);
                r.append(&mut rc);
                r
            }
            SimplExpr::JsonAccess(_, a, b) => {
                let mut r = a.var_refs();
                let mut rb = b.var_refs();
                proof {
                    lemma_strs_view_add(r@, rb@);
                }
                r.append(&mut rb);
                r
            }
            SimplExpr::FunctionCall(_, _, args) => {
                let mut r: Vec<String> = Vec::new();
                let mut i: usize = 0;
                proof {
                    lemma_expr_view_seq(args@);
                }
                while i < args.len()
                    invariant
                        i <= args.len(),
                        (*self) is FunctionCall,
                        (*self)->FunctionCall_2 == *args,
                        expr_view_seq(args@).len() == args@.len(),
                        forall|j: int| 0 <= j < args@.len()
                            ==> expr_view_seq(args@)[j] == expr_view(#[trigger] args@[j]),
                        strs_view(r@) == spec_var_refs_seq(expr_view_seq(args@).take(i as int)),
                    decreases args.len() - i,
                {
                    proof {
                        assert(decreases_to!(*self => (*self)->FunctionCall_2));
                        assert(decreases_to!((*self)->FunctionCall_2 => (*self)->FunctionCall_2@));
                        assert(decreases_to!(
                            (*self)->FunctionCall_2@ => (*self)->FunctionCall_2@[i as int]));
                    }
                    let mut ra = args[i].var_refs();
                    proof {
                        lemma_strs_view_add(r@, ra@);
                        lemma_var_refs_seq_take(expr_view_seq(args@), i as int);
                    }
                    r.append(&mut ra);
                    i = i + 1;
                }
                proof {
                    assert(expr_view_seq(args@).take(args@.len() as int) =~= expr_view_seq(args@));
                }
                r
            }
        }
    }
}

impl SimplExpr {
    /// Applies the transform to every terminal subtree: a literal or a
    /// variable reference is handed to the transform directly, while
    /// every structural node kind recurses exactly one level, handing
    /// each immediate child to the transform.
    pub fn map_terminals_into<F: Fn(SimplExpr) -> SimplExpr>(self, f: F) -> (r: SimplExpr)
        requires
            forall|x: SimplExpr| #[trigger] call_requires(f, (x,)),
        ensures
            (match self {
                SimplExpr::BinOp(sp, a, op, b) => (r matches SimplExpr::BinOp(sp2, fa, op2, fb)
                    && sp2 == sp && op2 == op && call_ensures(f, (*a,), *fa) && call_ensures(
                    f,
                    (*b,),
                    *fb,
                )),
                SimplExpr::UnaryOp(sp, op, a) => (r matches SimplExpr::UnaryOp(sp2, op2, fa)
                    && sp2 == sp && op2 == op && call_ensures(f, (*a,), *fa)),
                SimplExpr::IfElse(sp, a, b, c) => (r matches SimplExpr::IfElse(sp2, fa, fb, fc)
                    && sp2 == sp && call_ensures(f, (*a,), *fa) && call_ensures(f, (*b,), *fb)
                    && call_ensures(f, (*c,), *fc)),
                SimplExpr::JsonAccess(sp, a, b) => (r matches SimplExpr::JsonAccess(sp2, fa, fb)
                    && sp2 == sp && call_ensures(f, (*a,), *fa) && call_ensures(f, (*b,), *fb)),
                SimplExpr::FunctionCall(sp, name, args) => (r matches SimplExpr::FunctionCall(
                    sp2,
                    name2,
                    fargs,
                ) && sp2 == sp && name2@ == name@ && fargs@.len() == args@.len() && forall|j: int|
                    0 <= j < args@.len() ==> call_ensures(f, (args@[j],), #[trigger] fargs@[j])),
                _ => call_ensures(f, (self,), r),
            }),
    {
        match self {
            SimplExpr::BinOp(sp, a, op, b) => SimplExpr::BinOp(
                sp,
                Box::new(f(*a)),
                op,
                Box::new(f(*b)),
            ),
            SimplExpr::UnaryOp(sp, op, a) => SimplExpr::UnaryOp(sp, op, Box::new(f(*a))),
            SimplExpr::IfElse(sp, a, b, c) => SimplExpr::IfElse(
                sp,
                Box::new(f(*a)),
                Box::new(f(*b)),
                Box::new(f(*c)),
            ),
            SimplExpr::JsonAccess(sp, a, b) => SimplExpr::JsonAccess(
                sp,
                Box::new(f(*a)),
                Box::new(f(*b)),
            ),
            SimplExpr::FunctionCall(sp, name, args) => {
                let ghost orig = args@;
                let mut rest = args;
                let mut out: Vec<SimplExpr> = Vec::new();
                while rest.len() > 0
                    invariant
                        out@.len() + rest@.len() == orig.len(),
                        rest@ == orig.subrange(out@.len() as int, orig.len() as int),
                        forall|x: SimplExpr| #[trigger] call_requires(f, (x,)),
                        forall|j: int| 0 <= j < out@.len() ==> call_ensures(
                            f,
                            (orig[j],),
                            #[trigger] out@[j],
                        ),
                    decreases rest@.len(),
                {
                    let x = rest.remove(0);
                    proof {
                        assert(x == orig[out@.len() as int]);
                        assert(rest@ =~= orig.subrange(out@.len() as int + 1, orig.len() as int));
                    }
                    let y = f(x);
                    out.push(y);
                }
                SimplExpr::FunctionCall(sp, name, out)
            },
            other => f(other),
        }
    }
}

/// Appending one more expression extends the collected names on the right.
proof fn lemma_var_refs_seq_take(args: Seq<ExprV>, i: int)
    requires
        0 <= i < args.len(),
    ensures
        spec_var_refs_seq(args.take(i + 1)) == spec_var_refs_seq(args.take(i)) + spec_var_refs(
            args[i],
        ),
    decreases i,
{
    if i == 0 {
        let t = args.take(1);
        assert(t.len() == 1);
        assert(t.drop_first() =~= Seq::<ExprV>::empty());
        assert(args.take(0) =~= Seq::<ExprV>::empty());
        assert(t[0] == args[0]);
        assert(spec_var_refs_seq(t) == spec_var_refs(t[0]) + spec_var_refs_seq(t.drop_first()));
        assert(spec_var_refs_seq(Seq::<ExprV>::empty()) == Seq::<Seq<char>>::empty());
        assert(spec_var_refs(args[0]) + Seq::<Seq<char>>::empty() =~= spec_var_refs(args[0]));
        assert(Seq::<Seq<char>>::empty() + spec_var_refs(args[0]) =~= spec_var_refs(args[0]));
    } else {
        lemma_var_refs_seq_take(args.drop_first(), i - 1);
        assert(args.take(i + 1).drop_first() =~= args.drop_first().take(i));
        assert(args.take(i).drop_first() =~= args.drop_first().take(i - 1));
        assert(args.take(i + 1)[0] == args[0]);
        assert(args.take(i)[0] == args[0]);
        assert(args.drop_first()[i - 1] == args[i]);
        assert(spec_var_refs(args[0]) + (spec_var_refs_seq(args.drop_first().take(i - 1))
            + spec_var_refs(args[i])) =~= (spec_var_refs(args[0]) + spec_var_refs_seq(
            args.drop_first().take(i - 1),
        )) + spec_var_refs(args[i]));
    }
}

} // verus!
