use vstd::prelude::*;
use vstd::string::StringExecFns;
use crate::ast::{expr_view, expr_view_seq, spec_span, BinOp, ExprV, SimplExpr, Span, UnaryOp};
use crate::dynval::{
    bool_text, dec_of, i32_to_text, spec_as_bool, spec_parse_i32, ConvV, ConversionError, DynVal,
    ValV,
};
use crate::error::{ErrV, EvalError};
use crate::jsonval::{assoc_get, exec_json_shape, json_shape, spec_assoc, JShapeV, JsonShape};
use crate::numeric::{
    exec_is_numeric, exec_num_add, exec_num_div, exec_num_gt, exec_num_lt, exec_num_mul,
    exec_num_rem, exec_num_round, exec_num_sub, is_numeric, num_add, num_div, num_gt, num_lt,
    num_mul, num_rem, num_round, num_sub,
};
use crate::regexp::{
    escape_repl, escape_replacement, exec_regex_is_match, exec_regex_replace, regex_err,
    regex_match, regex_ok, regex_replace,
};

verus! {

/// The variable binding environment an evaluation reads: a name-to-value
/// mapping, where a binding added later shadows an earlier one of the
/// same name.
pub struct Env {
    entries: Vec<(String, DynVal)>,
}

pub open spec fn map_of(s: Seq<(String, DynVal)>) -> Map<Seq<char>, ValV>
    decreases s.len(),
{
    if s.len() == 0 {
        Map::empty()
    } else {
        map_of(s.drop_last()).insert(s.last().0@, s.last().1@)
    }
}

impl View for Env {
    type V = Map<Seq<char>, ValV>;

    closed spec fn view(&self) -> Map<Seq<char>, ValV> {
        map_of(self.entries@)
    }
}

proof fn lemma_map_of_found(s: Seq<(String, DynVal)>, k: Seq<char>, j: int)
    requires
        0 <= j < s.len(),
        s[j].0@ == k,
        forall|l: int| j < l < s.len() ==> (#[trigger] s[l]).0@ != k,
    ensures
        map_of(s).contains_key(k),
        map_of(s)[k] == s[j].1@,
    decreases s.len(),
{
    if j == s.len() - 1 {
    } else {
        assert(s.drop_last()[j] == s[j]);
        lemma_map_of_found(s.drop_last(), k, j);
    }
}

proof fn lemma_map_of_missing(s: Seq<(String, DynVal)>, k: Seq<char>)
    requires
        forall|j: int| 0 <= j < s.len() ==> (#[trigger] s[j]).0@ != k,
    ensures
        !map_of(s).contains_key(k),
    decreases s.len(),
{
    if s.len() > 0 {
        lemma_map_of_missing(s.drop_last(), k);
    }
}

impl Env {
    /// An environment binding nothing.
    pub fn new() -> (r: Env)
        ensures
            r@ == Map::<Seq<char>, ValV>::empty(),
    {
        Env { entries: Vec::new() }
    }

    /// Binds a name, shadowing any earlier binding of it.
    pub fn insert(&mut self, name: String, value: DynVal)
        ensures
            final(self)@ == old(self)@.insert(name@, value@),
    {
        let ghost n = name@;
        let ghost v = value@;
        self.entries.push((name, value));
        proof {
            assert(self.entries@.drop_last() =~= old(self).entries@);
            assert(self.entries@.last().0@ == n);
            assert(self.entries@.last().1@ == v);
        }
    }

    /// The value bound to the name, if any.
    pub fn get(&self, name: &String) -> (r: Option<DynVal>)
        ensures
            (match r {
                Some(v) => self@.contains_key(name@) && v@ == self@[name@],
                None => !self@.contains_key(name@),
            }),
    {
        let mut i: usize = self.entries.len();
        while i > 0
            invariant
                i <= self.entries.len(),
                forall|l: int| i <= l < self.entries@.len() ==> (#[trigger] self.entries@[l]).0@
                    != name@,
            decreases i,
        {
            i = i - 1;
            if self.entries[i].0 == *name {
                proof {
                    lemma_map_of_found(self.entries@, name@, i as int);
                }
                return Some(self.entries[i].1.clone());
            }
        }
        proof {
            lemma_map_of_missing(self.entries@, name@);
        }
        None
    }
}

/// The views of a sequence of dynamic values.
pub open spec fn vals_view(vs: Seq<DynVal>) -> Seq<ValV> {
    vs.map_values(|d: DynVal| d@)
}

pub open spec fn num_conv_err(v: ValV) -> ErrV {
    ErrV::Conversion(ConvV { value: v, target: "number"@ })
}

/// What a binary operator yields on two already evaluated operands: the
/// text of the result, or the failure.
pub open spec fn spec_binop_text(va: ValV, vb: ValV, op: BinOp) -> Result<Seq<char>, ErrV> {
    match op {
        BinOp::Equals => Ok(bool_text(va.text == vb.text)),
        BinOp::NotEquals => Ok(bool_text(va.text != vb.text)),
        BinOp::And => match (spec_as_bool(va), spec_as_bool(vb)) {
            (Err(c), _) => Err(ErrV::Conversion(c)),
            (Ok(_), Err(c)) => Err(ErrV::Conversion(c)),
            (Ok(x), Ok(y)) => Ok(bool_text(x && y)),
        },
        BinOp::Or => match (spec_as_bool(va), spec_as_bool(vb)) {
            (Err(c), _) => Err(ErrV::Conversion(c)),
            (Ok(_), Err(c)) => Err(ErrV::Conversion(c)),
            (Ok(x), Ok(y)) => Ok(bool_text(x || y)),
        },
        BinOp::Plus => if is_numeric(va.text) && is_numeric(vb.text) {
            Ok(num_add(va.text, vb.text))
        } else {
            Ok(va.text + vb.text)
        },
        BinOp::Minus => if !is_numeric(va.text) {
            Err(num_conv_err(va))
        } else if !is_numeric(vb.text) {
            Err(num_conv_err(vb))
        } else {
            Ok(num_sub(va.text, vb.text))
        },
        BinOp::Times => if !is_numeric(va.text) {
            Err(num_conv_err(va))
        } else if !is_numeric(vb.text) {
            Err(num_conv_err(vb))
        } else {
            Ok(num_mul(va.text, vb.text))
        },
        BinOp::Div => if !is_numeric(va.text) {
            Err(num_conv_err(va))
        } else if !is_numeric(vb.text) {
            Err(num_conv_err(vb))
        } else {
            Ok(num_div(va.text, vb.text))
        },
        BinOp::Mod => if !is_numeric(va.text) {
            Err(num_conv_err(va))
        } else if !is_numeric(vb.text) {
            Err(num_conv_err(vb))
        } else {
            Ok(num_rem(va.text, vb.text))
        },
        BinOp::GreaterThan => if !is_numeric(va.text) {
            Err(num_conv_err(va))
        } else if !is_numeric(vb.text) {
            Err(num_conv_err(vb))
        } else {
            Ok(bool_text(num_gt(va.text, vb.text)))
        },
        BinOp::LessThan => if !is_numeric(va.text) {
            Err(num_conv_err(va))
        } else if !is_numeric(vb.text) {
            Err(num_conv_err(vb))
        } else {
            Ok(bool_text(num_lt(va.text, vb.text)))
        },
        BinOp::Elvis => Ok(
            if va.text.len() == 0 {
                vb.text
            } else {
                va.text
            },
        ),
        BinOp::RegexMatch => match regex_err(vb.text) {
            Some(m) => Err(ErrV::InvalidRegex(m)),
            None => Ok(bool_text(regex_match(vb.text, va.text))),
        },
    }
}

/// What indexing an already evaluated container with an already
/// evaluated index yields. A missing array slot or object member yields
/// JSON null; only a non-container refuses indexing.
pub open spec fn spec_json_index(vv: ValV, vi: ValV, sp: Span) -> Result<Seq<char>, ErrV> {
    match json_shape(vv.text) {
        JShapeV::Invalid => Err(ErrV::Conversion(ConvV { value: vv, target: "json"@ })),
        JShapeV::Scalar => Err(ErrV::Spanned(sp, Box::new(ErrV::CannotIndex(vv.text)))),
        JShapeV::Array(items) => match spec_parse_i32(vi.text) {
            None => Err(ErrV::Conversion(ConvV { value: vi, target: "i32"@ })),
            Some(n) => Ok(
                if 0 <= n < items.len() {
                    items[n as int]
                } else {
                    "null"@
                },
            ),
        },
        JShapeV::Object(members) => match spec_assoc(members, vi.text) {
            Some(t) => Ok(t),
            None => match spec_parse_i32(vi.text) {
                Some(n) => match spec_assoc(members, dec_of(n as int)) {
                    Some(t) => Ok(t),
                    None => Ok("null"@),
                },
                None => Ok("null"@),
            },
        },
    }
}

pub open spec fn clamp_digits(d: int) -> int {
    if d < 0 || d > 1074 {
        1074
    } else {
        d
    }
}

/// What a built-in function call yields on already evaluated arguments.
pub open spec fn spec_call(name: Seq<char>, args: Seq<ValV>) -> Result<Seq<char>, ErrV> {
    if name == "round"@ {
        if args.len() != 2 {
            Err(ErrV::WrongArgCount(name))
        } else if !is_numeric(args[0].text) {
            Err(num_conv_err(args[0]))
        } else {
            match spec_parse_i32(args[1].text) {
                None => Err(ErrV::Conversion(ConvV { value: args[1], target: "i32"@ })),
                Some(d) => Ok(num_round(args[0].text, clamp_digits(d as int))),
            }
        }
    } else if name == "replace"@ {
        if args.len() != 3 {
            Err(ErrV::WrongArgCount(name))
        } else {
            match regex_err(args[1].text) {
                Some(m) => Err(ErrV::InvalidRegex(m)),
                None => Ok(regex_replace(args[1].text, args[0].text, escape_repl(args[2].text))),
            }
        }
    } else {
        Err(ErrV::UnknownFunction(name))
    }
}

/// What evaluating an expression under an environment yields. Evaluation
/// is depth first and left to right; the first failure aborts the rest
/// and is propagated, gaining a location at the node closest to the
/// user-visible operation.
pub open spec fn spec_eval(e: ExprV, env: Map<Seq<char>, ValV>) -> Result<ValV, ErrV>
    decreases e, 0int,
{
    let sp = spec_span(e);
    match e {
        ExprV::Literal(_, v) => Ok(ValV { text: v.text, span: Some(sp) }),
        ExprV::VarRef(_, name) => if env.contains_key(name) {
            Ok(ValV { text: env[name].text, span: Some(sp) })
        } else {
            Err(ErrV::Spanned(sp, Box::new(ErrV::UnresolvedVariable(name))))
        },
        ExprV::BinOp(_, a, op, b) => match spec_eval(*a, env) {
            Err(ea) => Err(ea),
            Ok(va) => match spec_eval(*b, env) {
                Err(eb) => Err(eb),
                Ok(vb) => match spec_binop_text(va, vb, op) {
                    Err(er) => Err(er),
                    Ok(t) => Ok(ValV { text: t, span: Some(sp) }),
                },
            },
        },
        ExprV::UnaryOp(_, op, a) => match spec_eval(*a, env) {
            Err(ea) => Err(ea),
            Ok(va) => match op {
                UnaryOp::Not => match spec_as_bool(va) {
                    Err(c) => Err(ErrV::Conversion(c)),
                    Ok(x) => Ok(ValV { text: bool_text(!x), span: Some(sp) }),
                },
            },
        },
        ExprV::IfElse(_, c, yes, no) => match spec_eval(*c, env) {
            Err(ec) => Err(ec),
            Ok(vc) => match spec_as_bool(vc) {
                Err(cv) => Err(ErrV::Conversion(cv)),
                Ok(cond) => if cond {
                    match spec_eval(*yes, env) {
                        Err(eb) => Err(eb),
                        Ok(vb) => Ok(ValV { text: vb.text, span: Some(sp) }),
                    }
                } else {
                    match spec_eval(*no, env) {
                        Err(eb) => Err(eb),
                        Ok(vb) => Ok(ValV { text: vb.text, span: Some(sp) }),
                    }
                },
            },
        },
        ExprV::JsonAccess(_, a, b) => match spec_eval(*a, env) {
            Err(ea) => Err(ea),
            Ok(va) => match spec_eval(*b, env) {
                Err(eb) => Err(eb),
                Ok(vb) => match spec_json_index(va, vb, sp) {
                    Err(er) => Err(er),
                    Ok(t) => Ok(ValV { text: t, span: Some(sp) }),
                },
            },
        },
        ExprV::FunctionCall(_, name, args) => match spec_eval_args(args, env) {
            Err(e1) => Err(e1),
            Ok(vals) => match spec_call(name, vals) {
                Err(er) => Err(ErrV::Spanned(sp, Box::new(er))),
                Ok(t) => Ok(ValV { text: t, span: Some(sp) }),
            },
        },
    }
}

/// The arguments of a call, evaluated left to right; the first failure
/// aborts the rest.
pub open spec fn spec_eval_args(args: Seq<ExprV>, env: Map<Seq<char>, ValV>) -> Result<
    Seq<ValV>,
    ErrV,
>
    decreases args, 0int,
{
    if args.len() == 0 {
        Ok(Seq::empty())
    } else {
        match spec_eval(args[0], env) {
            Err(e) => Err(e),
            Ok(v) => match spec_eval_args(args.drop_first(), env) {
                Err(e) => Err(e),
                Ok(rest) => Ok(seq![v] + rest),
            },
        }
    }
}

/// Evaluation with an empty environment; an unresolved-substitution
/// failure is reclassified to say variables are not allowed here at all.
pub open spec fn spec_eval_no_vars(e: ExprV) -> Result<ValV, ErrV> {
    match spec_eval(e, Map::<Seq<char>, ValV>::empty()) {
        Err(ErrV::UnknownVariable(n)) => Err(ErrV::NoVariablesAllowed(n)),
        r => r,
    }
}

/// What substituting every variable reference by its bound value yields:
/// the same tree with each `VarRef` replaced by a `Literal`, or the first
/// unknown name, left to right, depth first.
pub open spec fn spec_resolve(e: ExprV, env: Map<Seq<char>, ValV>) -> Result<ExprV, ErrV>
    decreases e, 0int,
{
    match e {
        ExprV::Literal(sp, v) => Ok(ExprV::Literal(sp, v)),
        ExprV::VarRef(sp, name) => if env.contains_key(name) {
            Ok(ExprV::Literal(sp, env[name]))
        } else {
            Err(ErrV::Spanned(sp, Box::new(ErrV::UnknownVariable(name))))
        },
        ExprV::BinOp(sp, a, op, b) => match spec_resolve(*a, env) {
            Err(e1) => Err(e1),
            Ok(ra) => match spec_resolve(*b, env) {
                Err(e2) => Err(e2),
                Ok(rb) => Ok(ExprV::BinOp(sp, Box::new(ra), op, Box::new(rb))),
            },
        },
        ExprV::UnaryOp(sp, op, a) => match spec_resolve(*a, env) {
            Err(e1) => Err(e1),
            Ok(ra) => Ok(ExprV::UnaryOp(sp, op, Box::new(ra))),
        },
        ExprV::IfElse(sp, a, b, c) => match spec_resolve(*a, env) {
            Err(e1) => Err(e1),
            Ok(ra) => match spec_resolve(*b, env) {
                Err(e2) => Err(e2),
                Ok(rb) => match spec_resolve(*c, env) {
                    Err(e3) => Err(e3),
                    Ok(rc) => Ok(ExprV::IfElse(sp, Box::new(ra), Box::new(rb), Box::new(rc))),
                },
            },
        },
        ExprV::JsonAccess(sp, a, b) => match spec_resolve(*a, env) {
            Err(e1) => Err(e1),
            Ok(ra) => match spec_resolve(*b, env) {
                Err(e2) => Err(e2),
                Ok(rb) => Ok(ExprV::JsonAccess(sp, Box::new(ra), Box::new(rb))),
            },
        },
        ExprV::FunctionCall(sp, name, args) => match spec_resolve_seq(args, env) {
            Err(e1) => Err(e1),
            Ok(rs) => Ok(ExprV::FunctionCall(sp, name, rs)),
        },
    }
}

pub open spec fn spec_resolve_seq(args: Seq<ExprV>, env: Map<Seq<char>, ValV>) -> Result<
    Seq<ExprV>,
    ErrV,
>
    decreases args, 0int,
{
    if args.len() == 0 {
        Ok(Seq::empty())
    } else {
        match spec_resolve(args[0], env) {
            Err(e) => Err(e),
            Ok(r0) => match spec_resolve_seq(args.drop_first(), env) {
                Err(e) => Err(e),
                Ok(rest) => Ok(seq![r0] + rest),
            },
        }
    }
}

fn bool_string(b: bool) -> (r: String)
    ensures
        r@ == bool_text(b),
{
    if b {
        "true".to_owned()
    } else {
        "false".to_owned()
    }
}

/// Applies a binary operator to two evaluated operands.
fn binop_text(va: &DynVal, vb: &DynVal, op: BinOp) -> (r: Result<String, EvalError>)
    ensures
        (match r {
            Ok(t) => spec_binop_text(va@, vb@, op) == Ok::<Seq<char>, ErrV>(t@),
            Err(e) => spec_binop_text(va@, vb@, op) == Err::<Seq<char>, ErrV>(e@),
        }),
{
    match op {
        BinOp::Equals => Ok(bool_string(va.eq_val(vb))),
        BinOp::NotEquals => Ok(bool_string(!va.eq_val(vb))),
        BinOp::And => match va.as_bool() {
            Err(c) => Err(EvalError::ConversionError(c)),
            Ok(x) => match vb.as_bool() {
                Err(c) => Err(EvalError::ConversionError(c)),
                Ok(y) => Ok(bool_string(x && y)),
            },
        },
        BinOp::Or => match va.as_bool() {
            Err(c) => Err(EvalError::ConversionError(c)),
            Ok(x) => match vb.as_bool() {
                Err(c) => Err(EvalError::ConversionError(c)),
                Ok(y) => Ok(bool_string(x || y)),
            },
        },
        BinOp::Plus => {
            if exec_is_numeric(va.text.as_str()) && exec_is_numeric(vb.text.as_str()) {
                Ok(exec_num_add(va.text.as_str(), vb.text.as_str()).unwrap())
            } else {
                Ok(va.as_string().concat(vb.text.as_str()))
            }
        },
        BinOp::Minus => match require_numeric(va, vb) {
            Err(e) => Err(e),
            Ok(()) => Ok(exec_num_sub(va.text.as_str(), vb.text.as_str()).unwrap()),
        },
        BinOp::Times => match require_numeric(va, vb) {
            Err(e) => Err(e),
            Ok(()) => Ok(exec_num_mul(va.text.as_str(), vb.text.as_str()).unwrap()),
        },
        BinOp::Div => match require_numeric(va, vb) {
            Err(e) => Err(e),
            Ok(()) => Ok(exec_num_div(va.text.as_str(), vb.text.as_str()).unwrap()),
        },
        BinOp::Mod => match require_numeric(va, vb) {
            Err(e) => Err(e),
            Ok(()) => Ok(exec_num_rem(va.text.as_str(), vb.text.as_str()).unwrap()),
        },
        BinOp::GreaterThan => match require_numeric(va, vb) {
            Err(e) => Err(e),
            Ok(()) => Ok(bool_string(exec_num_gt(va.text.as_str(), vb.text.as_str()).unwrap())),
        },
        BinOp::LessThan => match require_numeric(va, vb) {
            Err(e) => Err(e),
            Ok(()) => Ok(bool_string(exec_num_lt(va.text.as_str(), vb.text.as_str()).unwrap())),
        },
        BinOp::Elvis => {
            if va.text.as_str().is_empty() {
                Ok(vb.as_string())
            } else {
                Ok(va.as_string())
            }
        },
        BinOp::RegexMatch => match exec_regex_is_match(vb.text.as_str(), va.text.as_str()) {
            Ok(b) => Ok(bool_string(b)),
            Err(m) => Err(EvalError::InvalidRegex(m)),
        },
    }
}

/// Demands numeric operands, reporting the left one first.
fn require_numeric(va: &DynVal, vb: &DynVal) -> (r: Result<(), EvalError>)
    ensures
        (match r {
            Ok(_) => is_numeric(va@.text) && is_numeric(vb@.text),
            Err(e) => (if !is_numeric(va@.text) {
                e@ == num_conv_err(va@)
            } else {
                !is_numeric(vb@.text) && e@ == num_conv_err(vb@)
            }),
        }),
{
    if !exec_is_numeric(va.text.as_str()) {
        Err(
            EvalError::ConversionError(
                ConversionError { value: va.clone(), target_type: "number".to_owned() },
            ),
        )
    } else if !exec_is_numeric(vb.text.as_str()) {
        Err(
            EvalError::ConversionError(
                ConversionError { value: vb.clone(), target_type: "number".to_owned() },
            ),
        )
    } else {
        Ok(())
    }
}

/// Indexes an evaluated container value with an evaluated index value.
fn json_index(vv: &DynVal, vi: &DynVal, sp: Span) -> (r: Result<String, EvalError>)
    ensures
        (match r {
            Ok(t) => spec_json_index(vv@, vi@, sp) == Ok::<Seq<char>, ErrV>(t@),
            Err(e) => spec_json_index(vv@, vi@, sp) == Err::<Seq<char>, ErrV>(e@),
        }),
{
    match exec_json_shape(vv.text.as_str()) {
        JsonShape::Invalid => Err(
            EvalError::ConversionError(
                ConversionError { value: vv.clone(), target_type: "json".to_owned() },
            ),
        ),
        JsonShape::Scalar => Err(EvalError::CannotIndex(vv.as_string()).at(sp)),
        JsonShape::Array(items) => match vi.as_i32() {
            Err(c) => Err(EvalError::ConversionError(c)),
            Ok(n) => {
                if n >= 0 && (n as usize) < items.len() {
                    Ok(items[n as usize].clone())
                } else {
                    Ok("null".to_owned())
                }
            },
        },
        JsonShape::Object(members) => {
            let key = vi.as_string();
            match assoc_get(&members, &key) {
                Some(t) => Ok(t),
                None => match vi.as_i32() {
                    Ok(n) => match assoc_get(&members, &i32_to_text(n)) {
                        Some(t) => Ok(t),
                        None => Ok("null".to_owned()),
                    },
                    Err(_) => Ok("null".to_owned()),
                },
            }
        },
    }
}

/// Dispatches a call to the built-in functions.
fn call_expr_function(name: &String, args: &Vec<DynVal>) -> (r: Result<DynVal, EvalError>)
    ensures
        (match r {
            Ok(v) => spec_call(name@, vals_view(args@)) == Ok::<Seq<char>, ErrV>(v@.text) && v@.span
                is None,
            Err(e) => spec_call(name@, vals_view(args@)) == Err::<Seq<char>, ErrV>(e@),
        }),
{
    if *name == "round".to_owned() {
        if args.len() != 2 {
            return Err(EvalError::WrongArgCount(name.clone()));
        }
        if !exec_is_numeric(args[0].text.as_str()) {
            return Err(
                EvalError::ConversionError(
                    ConversionError { value: args[0].clone(), target_type: "number".to_owned() },
                ),
            );
        }
        match args[1].as_i32() {
            Err(c) => Err(EvalError::ConversionError(c)),
            Ok(d) => {
                // a binary double's decimal expansion never needs more fractional digits
                let prec: usize = if d < 0 || d > 1074 {
                    1074
                } else {
                    d as usize
                };
                Ok(DynVal::from_string(exec_num_round(args[0].text.as_str(), prec).unwrap()))
            },
        }
    } else if *name == "replace".to_owned() {
        if args.len() != 3 {
            return Err(EvalError::WrongArgCount(name.clone()));
        }
        let subject = args[0].as_string();
        let pattern = args[1].as_string();
        let replacement = escape_replacement(args[2].text.as_str());
        match exec_regex_replace(pattern.as_str(), subject.as_str(), replacement.as_str()) {
            Ok(s) => Ok(DynVal::from_string(s)),
            Err(m) => Err(EvalError::InvalidRegex(m)),
        }
    } else {
        Err(EvalError::UnknownFunction(name.clone()))
    }
}

/// A host-supplied source of additional named functions: the extension
/// point the dispatcher can fall through to before giving a name up.
pub trait FunctionSource {
    type Err;

    fn run_fn(&self, name: &str, args: &[DynVal]) -> Result<DynVal, Self::Err>;
}

impl SimplExpr {
    /// Evaluates the expression under the environment: one value, or the
    /// first failure met depth first, left to right.
    pub fn eval(&self, env: &Env) -> (r: Result<DynVal, EvalError>)
        ensures
            (match r {
                Ok(v) => spec_eval(self@, env@) == Ok::<ValV, ErrV>(v@),
                Err(e) => spec_eval(self@, env@) == Err::<ValV, ErrV>(e@),
            }),
        decreases *self, 1int,
    {
        let span = self.span();
        let value: Result<DynVal, EvalError> = match self {
            SimplExpr::Literal(_, x) => Ok(x.clone()),
            SimplExpr::VarRef(sp, name) => match env.get(name) {
                Some(v) => Ok(v),
                None => {
                    return Err(EvalError::UnresolvedVariable(name.clone()).at(*sp));
                },
            },
            SimplExpr::BinOp(_, a, op, b) => {
                let va = match a.eval(env) {
                    Ok(v) => v,
                    Err(e) => {
                        return Err(e);
                    },
                };
                let vb = match b.eval(env) {
                    Ok(v) => v,
                    Err(e) => {
                        return Err(e);
                    },
                };
                match binop_text(&va, &vb, *op) {
                    Ok(t) => Ok(DynVal::from_string(t)),
                    Err(e) => {
                        return Err(e);
                    },
                }
            },
            SimplExpr::UnaryOp(_, op, a) => {
                let va = match a.eval(env) {
                    Ok(v) => v,
                    Err(e) => {
                        return Err(e);
                    },
                };
                match op {
                    UnaryOp::Not => match va.as_bool() {
                        Ok(x) => Ok(DynVal::from_bool(!x)),
                        Err(c) => {
                            return Err(EvalError::ConversionError(c));
                        },
                    },
                }
            },
            SimplExpr::IfElse(_, c, yes, no) => {
                let vc = match c.eval(env) {
                    Ok(v) => v,
                    Err(e) => {
                        return Err(e);
                    },
                };
                let cond = match vc.as_bool() {
                    Ok(x) => x,
                    Err(cv) => {
                        return Err(EvalError::ConversionError(cv));
                    },
                };
                let branch = if cond {
                    yes.eval(env)
                } else {
                    no.eval(env)
                };
                match branch {
                    Ok(v) => Ok(v),
                    Err(e) => {
                        return Err(e);
                    },
                }
            },
            SimplExpr::JsonAccess(sp, a, b) => {
                let va = match a.eval(env) {
                    Ok(v) => v,
                    Err(e) => {
                        return Err(e);
                    },
                };
                let vb = match b.eval(env) {
                    Ok(v) => v,
                    Err(e) => {
                        return Err(e);
                    },
                };
                match json_index(&va, &vb, *sp) {
                    Ok(t) => Ok(DynVal::from_string(t)),
                    Err(e) => {
                        return Err(e);
                    },
                }
            },
            SimplExpr::FunctionCall(sp, name, args) => {
                proof {
                    assert(decreases_to!(*self => (*self)->FunctionCall_2));
                    assert(decreases_to!((*self)->FunctionCall_2 => (*self)->FunctionCall_2@));
                }
                let vals = match eval_args_from(args, 0, env) {
                    Ok(vs) => vs,
                    Err(e) => {
                        proof {
                            assert(expr_view_seq(args@).skip(0) =~= expr_view_seq(args@));
                        }
                        return Err(e);
                    },
                };
                proof {
                    assert(expr_view_seq(args@).skip(0) =~= expr_view_seq(args@));
                }
                match call_expr_function(name, &vals) {
                    Ok(v) => Ok(v),
                    Err(e) => {
                        return Err(e.at(*sp));
                    },
                }
            },
        };
        match value {
            Ok(v) => Ok(v.at(span)),
            Err(e) => Err(e),
        }
    }

    /// Evaluates with an empty environment, reclassifying an
    /// unresolved-substitution failure as a variables-not-allowed one.
    pub fn eval_no_vars(&self) -> (r: Result<DynVal, EvalError>)
        ensures
            (match r {
                Ok(v) => spec_eval_no_vars(self@) == Ok::<ValV, ErrV>(v@),
                Err(e) => spec_eval_no_vars(self@) == Err::<ValV, ErrV>(e@),
            }),
    {
        let empty = Env::new();
        match self.eval(&empty) {
            Ok(x) => Ok(x),
            Err(e) => match e {
                EvalError::UnknownVariable(name) => Err(EvalError::NoVariablesAllowed(name)),
                other => Err(other),
            },
        }
    }

    /// Substitutes every variable reference by its bound value, failing
    /// on the first name, left to right and depth first, the bindings
    /// lack.
    pub fn resolve_refs(self, variables: &Env) -> (r: Result<SimplExpr, EvalError>)
        ensures
            (match r {
                Ok(re) => spec_resolve(self@, variables@) == Ok::<ExprV, ErrV>(re@),
                Err(e) => spec_resolve(self@, variables@) == Err::<ExprV, ErrV>(e@),
            }),
        decreases self, 1int,
    {
        match self {
            SimplExpr::Literal(sp, x) => Ok(SimplExpr::Literal(sp, x)),
            SimplExpr::VarRef(sp, name) => match variables.get(&name) {
                Some(v) => Ok(SimplExpr::Literal(sp, v)),
                None => Err(EvalError::UnknownVariable(name).at(sp)),
            },
            SimplExpr::BinOp(sp, a, op, b) => {
                let ra = match (*a).resolve_refs(variables) {
                    Ok(x) => x,
                    Err(e) => {
                        return Err(e);
                    },
                };
                let rb = match (*b).resolve_refs(variables) {
                    Ok(x) => x,
                    Err(e) => {
                        return Err(e);
                    },
                };
                Ok(SimplExpr::BinOp(sp, Box::new(ra), op, Box::new(rb)))
            },
            SimplExpr::UnaryOp(sp, op, a) => {
                let ra = match (*a).resolve_refs(variables) {
                    Ok(x) => x,
                    Err(e) => {
                        return Err(e);
                    },
                };
                Ok(SimplExpr::UnaryOp(sp, op, Box::new(ra)))
            },
            SimplExpr::IfElse(sp, a, b, c) => {
                let ra = match (*a).resolve_refs(variables) {
                    Ok(x) => x,
                    Err(e) => {
                        return Err(e);
                    },
                };
                let rb = match (*b).resolve_refs(variables) {
                    Ok(x) => x,
                    Err(e) => {
                        return Err(e);
                    },
                };
                let rc = match (*c).resolve_refs(variables) {
                    Ok(x) => x,
                    Err(e) => {
                        return Err(e);
                    },
                };
                Ok(SimplExpr::IfElse(sp, Box::new(ra), Box::new(rb), Box::new(rc)))
            },
            SimplExpr::JsonAccess(sp, a, b) => {
                let ra = match (*a).resolve_refs(variables) {
                    Ok(x) => x,
                    Err(e) => {
                        return Err(e);
                    },
                };
                let rb = match (*b).resolve_refs(variables) {
                    Ok(x) => x,
                    Err(e) => {
                        return Err(e);
                    },
                };
                Ok(SimplExpr::JsonAccess(sp, Box::new(ra), Box::new(rb)))
            },
            SimplExpr::FunctionCall(sp, name, args) => {
                proof {
                    assert(decreases_to!(self => self->FunctionCall_2));
                    assert(decreases_to!(self->FunctionCall_2 => self->FunctionCall_2@));
                }
                match resolve_vec(args, variables) {
                    Ok(rs) => Ok(SimplExpr::FunctionCall(sp, name, rs)),
                    Err(e) => Err(e),
                }
            },
        }
    }
}

/// Substitutes through a sequence of argument expressions.
fn resolve_vec(args: Vec<SimplExpr>, variables: &Env) -> (r: Result<Vec<SimplExpr>, EvalError>)
    ensures
        (match r {
            Ok(rs) => spec_resolve_seq(expr_view_seq(args@), variables@) == Ok::<Seq<ExprV>, ErrV>(
                expr_view_seq(rs@),
            ),
            Err(e) => spec_resolve_seq(expr_view_seq(args@), variables@) == Err::<
                Seq<ExprV>,
                ErrV,
            >(e@),
        }),
    decreases args@, 0int,
{
    let ghost orig = args@;
    if args.len() == 0 {
        proof {
            assert(expr_view_seq(orig).len() == 0);
        }
        return Ok(Vec::new());
    }
    let mut rest = args;
    let first = rest.remove(0);
    proof {
        assert(first == orig[0]);
        assert(rest@ =~= orig.subrange(1, orig.len() as int));
        assert(decreases_to!(orig => orig[0]));
        assert(decreases_to!(orig => orig.subrange(1, orig.len() as int)));
        crate::ast::lemma_expr_view_seq(orig);
        assert(expr_view_seq(orig)[0] == expr_view(orig[0]));
        assert(expr_view_seq(orig).drop_first() =~= expr_view_seq(orig.drop_first()));
        assert(orig.drop_first() =~= rest@);
    }
    let rf = match first.resolve_refs(variables) {
        Ok(x) => x,
        Err(e) => {
            return Err(e);
        },
    };
    match resolve_vec(rest, variables) {
        Ok(mut rs) => {
            let ghost pre = rs@;
            rs.insert(0, rf);
            proof {
                assert(rs@[0] == rf);
                assert(rs@.drop_first() =~= pre);
                assert(expr_view_seq(rs@) == seq![expr_view(rs@[0])] + expr_view_seq(
                    rs@.drop_first(),
                ));
                assert(expr_view_seq(rs@) == seq![expr_view(rf)] + expr_view_seq(pre));
            }
            Ok(rs)
        },
        Err(e) => Err(e),
    }
}

/// Evaluates the argument expressions from the given position on.
fn eval_args_from(args: &Vec<SimplExpr>, i: usize, env: &Env) -> (r: Result<Vec<DynVal>, EvalError>)
    requires
        i <= args@.len(),
    ensures
        (match r {
            Ok(vs) => spec_eval_args(expr_view_seq(args@).skip(i as int), env@) == Ok::<
                Seq<ValV>,
                ErrV,
            >(vals_view(vs@)),
            Err(e) => spec_eval_args(expr_view_seq(args@).skip(i as int), env@) == Err::<
                Seq<ValV>,
                ErrV,
            >(e@),
        }),
    decreases args@, (args@.len() - i + 1) as nat,
{
    proof {
        crate::ast::lemma_expr_view_seq(args@);
    }
    if i == args.len() {
        proof {
            assert(expr_view_seq(args@).skip(i as int).len() == 0);
            assert(vals_view(Seq::<DynVal>::empty()) =~= Seq::<ValV>::empty());
        }
        return Ok(Vec::new());
    }
    proof {
        assert(decreases_to!(args@ => args@[i as int]));
        assert(expr_view_seq(args@).skip(i as int)[0] == expr_view(args@[i as int]));
        assert(expr_view_seq(args@).skip(i as int).drop_first() =~= expr_view_seq(args@).skip(
            i as int + 1,
        ));
    }
    let v = match args[i].eval(env) {
        Ok(v) => v,
        Err(e) => {
            return Err(e);
        },
    };
    match eval_args_from(args, i + 1, env) {
        Ok(mut vs) => {
            let ghost pre = vs@;
            vs.insert(0, v);
            proof {
                assert(vs@[0] == v);
                assert(vs@.drop_first() =~= pre);
                assert(vals_view(vs@) =~= seq![v@] + vals_view(pre));
            }
            Ok(vs)
        },
        Err(e) => Err(e),
    }
}

} // verus!
