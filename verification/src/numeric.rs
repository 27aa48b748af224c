use vstd::prelude::*;

verus! {

/// Whether the text reads as a number: what serde_json accepts as a JSON
/// number literal.
pub uninterp spec fn is_numeric(s: Seq<char>) -> bool;

/// The rendering of the sum of the two numbers the texts hold.
pub uninterp spec fn num_add(a: Seq<char>, b: Seq<char>) -> Seq<char>;

/// The rendering of the difference of the two numbers the texts hold.
pub uninterp spec fn num_sub(a: Seq<char>, b: Seq<char>) -> Seq<char>;

/// The rendering of the product of the two numbers the texts hold.
pub uninterp spec fn num_mul(a: Seq<char>, b: Seq<char>) -> Seq<char>;

/// The rendering of the quotient of the two numbers the texts hold.
pub uninterp spec fn num_div(a: Seq<char>, b: Seq<char>) -> Seq<char>;

/// The rendering of the remainder of the two numbers the texts hold.
pub uninterp spec fn num_rem(a: Seq<char>, b: Seq<char>) -> Seq<char>;

/// Whether the first number is strictly greater than the second.
pub uninterp spec fn num_gt(a: Seq<char>, b: Seq<char>) -> bool;

/// Whether the first number is strictly less than the second.
pub uninterp spec fn num_lt(a: Seq<char>, b: Seq<char>) -> bool;

/// The fixed point rendering of the number with the given count of
/// fractional digits.
pub uninterp spec fn num_round(s: Seq<char>, digits: int) -> Seq<char>;

/// Relies on serde_json number parsing: the text is numeric exactly when
/// it parses as a JSON number.
#[verifier::external_body]
pub(crate) fn exec_is_numeric(s: &str) -> (r: bool)
    ensures
        r == is_numeric(s@),
{
    matches!(serde_json::from_str::<serde_json::Value>(s), Ok(serde_json::Value::Number(_)))
}

/// Relies on serde_json number parsing, the machine's floating point
/// addition, and the standard decimal rendering of the result.
#[verifier::external_body]
pub(crate) fn exec_num_add(a: &str, b: &str) -> (r: Option<String>)
    ensures
        r is Some ==> is_numeric(a@),
        r is Some ==> is_numeric(b@),
        r is None ==> !is_numeric(a@) || !is_numeric(b@),
        (r matches Some(s) ==> s@ == num_add(a@, b@)),
{
    let x = serde_json::from_str::<serde_json::Value>(a).ok()?.as_f64()?;
    let y = serde_json::from_str::<serde_json::Value>(b).ok()?.as_f64()?;
    Some((x + y).to_string())
}

/// Relies on serde_json number parsing, the machine's floating point
/// subtraction, and the standard decimal rendering of the result.
#[verifier::external_body]
pub(crate) fn exec_num_sub(a: &str, b: &str) -> (r: Option<String>)
    ensures
        r is Some ==> is_numeric(a@),
        r is Some ==> is_numeric(b@),
        r is None ==> !is_numeric(a@) || !is_numeric(b@),
        (r matches Some(s) ==> s@ == num_sub(a@, b@)),
{
    let x = serde_json::from_str::<serde_json::Value>(a).ok()?.as_f64()?;
    let y = serde_json::from_str::<serde_json::Value>(b).ok()?.as_f64()?;
    Some((x - y).to_string())
}

/// Relies on serde_json number parsing, the machine's floating point
/// multiplication, and the standard decimal rendering of the result.
#[verifier::external_body]
pub(crate) fn exec_num_mul(a: &str, b: &str) -> (r: Option<String>)
    ensures
        r is Some ==> is_numeric(a@),
        r is Some ==> is_numeric(b@),
        r is None ==> !is_numeric(a@) || !is_numeric(b@),
        (r matches Some(s) ==> s@ == num_mul(a@, b@)),
{
    let x = serde_json::from_str::<serde_json::Value>(a).ok()?.as_f64()?;
    let y = serde_json::from_str::<serde_json::Value>(b).ok()?.as_f64()?;
    Some((x * y).to_string())
}

/// Relies on serde_json number parsing, the machine's floating point
/// division (division by zero yields an infinity or not-a-number, never a
/// failure), and the standard decimal rendering of the result.
#[verifier::external_body]
pub(crate) fn exec_num_div(a: &str, b: &str) -> (r: Option<String>)
    ensures
        r is Some ==> is_numeric(a@),
        r is Some ==> is_numeric(b@),
        r is None ==> !is_numeric(a@) || !is_numeric(b@),
        (r matches Some(s) ==> s@ == num_div(a@, b@)),
{
    let x = serde_json::from_str::<serde_json::Value>(a).ok()?.as_f64()?;
    let y = serde_json::from_str::<serde_json::Value>(b).ok()?.as_f64()?;
    Some((x / y).to_string())
}

/// Relies on serde_json number parsing, the machine's floating point
/// remainder, and the standard decimal rendering of the result.
#[verifier::external_body]
pub(crate) fn exec_num_rem(a: &str, b: &str) -> (r: Option<String>)
    ensures
        r is Some ==> is_numeric(a@),
        r is Some ==> is_numeric(b@),
        r is None ==> !is_numeric(a@) || !is_numeric(b@),
        (r matches Some(s) ==> s@ == num_rem(a@, b@)),
{
    let x = serde_json::from_str::<serde_json::Value>(a).ok()?.as_f64()?;
    let y = serde_json::from_str::<serde_json::Value>(b).ok()?.as_f64()?;
    Some((x % y).to_string())
}

/// Relies on serde_json number parsing and the machine's floating point
/// comparison.
#[verifier::external_body]
pub(crate) fn exec_num_gt(a: &str, b: &str) -> (r: Option<bool>)
    ensures
        r is Some ==> is_numeric(a@),
        r is Some ==> is_numeric(b@),
        r is None ==> !is_numeric(a@) || !is_numeric(b@),
        (r matches Some(g) ==> g == num_gt(a@, b@)),
{
    let x = serde_json::from_str::<serde_json::Value>(a).ok()?.as_f64()?;
    let y = serde_json::from_str::<serde_json::Value>(b).ok()?.as_f64()?;
    Some(x > y)
}

/// Relies on serde_json number parsing and the machine's floating point
/// comparison.
#[verifier::external_body]
pub(crate) fn exec_num_lt(a: &str, b: &str) -> (r: Option<bool>)
    ensures
        r is Some ==> is_numeric(a@),
        r is Some ==> is_numeric(b@),
        r is None ==> !is_numeric(a@) || !is_numeric(b@),
        (r matches Some(l) ==> l == num_lt(a@, b@)),
{
    let x = serde_json::from_str::<serde_json::Value>(a).ok()?.as_f64()?;
    let y = serde_json::from_str::<serde_json::Value>(b).ok()?.as_f64()?;
    Some(x < y)
}

/// Relies on serde_json number parsing and the standard fixed point
/// formatting, which pads or rounds to exactly the asked number of
/// fractional digits.
#[verifier::external_body]
pub(crate) fn exec_num_round(s: &str, digits: usize) -> (r: Option<String>)
    requires
        digits <= 1074,
    ensures
        r is Some <==> is_numeric(s@),
        (r matches Some(t) ==> t@ == num_round(s@, digits as int)),
{
    let x = serde_json::from_str::<serde_json::Value>(s).ok()?.as_f64()?;
    Some(format!("{:.1$}", x, digits))
}

} // verus!
