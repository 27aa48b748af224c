use vstd::prelude::*;
use crate::ast::Span;

verus! {

/// A dynamically typed scalar. Its canonical representation is the string
/// form; conversions to other types are attempted on demand and may fail.
/// A value may carry the source span it was produced at, for diagnostics.
#[derive(Debug)]
pub struct DynVal {
    pub text: String,
    pub span: Option<Span>,
}

/// The mathematical model of a `DynVal`: the character sequence of its
/// canonical string form, plus the diagnostic span.
pub struct ValV {
    pub text: Seq<char>,
    pub span: Option<Span>,
}

impl View for DynVal {
    type V = ValV;

    open spec fn view(&self) -> ValV {
        ValV { text: self.text@, span: self.span }
    }
}

impl Clone for DynVal {
    fn clone(&self) -> (r: Self)
        ensures
            r == *self,
    {
        DynVal { text: self.text.clone(), span: self.span }
    }
}

/// A failed conversion of a value to a given target type.
#[derive(Debug)]
pub struct ConversionError {
    pub value: DynVal,
    pub target_type: String,
}

/// The model of a `ConversionError`.
pub struct ConvV {
    pub value: ValV,
    pub target: Seq<char>,
}

impl View for ConversionError {
    type V = ConvV;

    open spec fn view(&self) -> ConvV {
        ConvV { value: self.value@, target: self.target_type@ }
    }
}

/// The canonical string form of a boolean.
pub open spec fn bool_text(b: bool) -> Seq<char> {
    if b {
        "true"@
    } else {
        "false"@
    }
}

/// Boolean coercion: exactly the canonical forms are accepted.
pub open spec fn spec_as_bool(v: ValV) -> Result<bool, ConvV> {
    if v.text == "true"@ {
        Ok(true)
    } else if v.text == "false"@ {
        Ok(false)
    } else {
        Err(ConvV { value: v, target: "bool"@ })
    }
}

pub open spec fn is_digit(c: char) -> bool {
    '0' <= c && c <= '9'
}

pub open spec fn digit_val(c: char) -> int {
    c as int - '0' as int
}

pub open spec fn all_digits(s: Seq<char>) -> bool {
    forall|i: int| 0 <= i < s.len() ==> is_digit(#[trigger] s[i])
}

/// The value of a digit string read in base ten.
pub open spec fn dec_val(s: Seq<char>) -> int
    decreases s.len(),
{
    if s.len() == 0 {
        0
    } else {
        dec_val(s.drop_last()) * 10 + digit_val(s.last())
    }
}

/// What parsing a 32-bit integer accepts: an optional sign followed by one
/// or more decimal digits, rejected when the value is out of range.
pub open spec fn spec_parse_i32(s: Seq<char>) -> Option<i32> {
    let body = if s.len() > 0 && (s[0] == '+' || s[0] == '-') {
        s.drop_first()
    } else {
        s
    };
    let negative = s.len() > 0 && s[0] == '-';
    if body.len() == 0 || !all_digits(body) {
        None
    } else {
        let v = if negative {
            -dec_val(body)
        } else {
            dec_val(body)
        };
        if i32::MIN <= v <= i32::MAX {
            Some(v as i32)
        } else {
            None
        }
    }
}

pub open spec fn digit_char(d: int) -> char {
    if d == 0 {
        '0'
    } else if d == 1 {
        '1'
    } else if d == 2 {
        '2'
    } else if d == 3 {
        '3'
    } else if d == 4 {
        '4'
    } else if d == 5 {
        '5'
    } else if d == 6 {
        '6'
    } else if d == 7 {
        '7'
    } else if d == 8 {
        '8'
    } else {
        '9'
    }
}

/// The decimal digits of a non-negative integer, no leading zeros.
pub open spec fn dec_nat(n: int) -> Seq<char>
    decreases n,
{
    if n < 10 {
        seq![digit_char(n)]
    } else {
        dec_nat(n / 10).push(digit_char(n % 10))
    }
}

/// The decimal rendering of an integer, a leading minus when negative.
pub open spec fn dec_of(n: int) -> Seq<char> {
    if n < 0 {
        seq!['-'] + dec_nat(-n)
    } else {
        dec_nat(n)
    }
}

/// Appends one decimal digit character.
fn push_digit(out: &mut String, d: u32)
    requires
        d <= 9,
    ensures
        final(out)@ == old(out)@ + seq![digit_char(d as int)],
{
    if d == 0 {
        out.append("0");
        proof {
            reveal_strlit("0");
            assert("0"@ =~= seq!['0']);
        }
    } else if d == 1 {
        out.append("1");
        proof {
            reveal_strlit("1");
            assert("1"@ =~= seq!['1']);
        }
    } else if d == 2 {
        out.append("2");
        proof {
            reveal_strlit("2");
            assert("2"@ =~= seq!['2']);
        }
    } else if d == 3 {
        out.append("3");
        proof {
            reveal_strlit("3");
            assert("3"@ =~= seq!['3']);
        }
    } else if d == 4 {
        out.append("4");
        proof {
            reveal_strlit("4");
            assert("4"@ =~= seq!['4']);
        }
    } else if d == 5 {
        out.append("5");
        proof {
            reveal_strlit("5");
            assert("5"@ =~= seq!['5']);
        }
    } else if d == 6 {
        out.append("6");
        proof {
            reveal_strlit("6");
            assert("6"@ =~= seq!['6']);
        }
    } else if d == 7 {
        out.append("7");
        proof {
            reveal_strlit("7");
            assert("7"@ =~= seq!['7']);
        }
    } else if d == 8 {
        out.append("8");
        proof {
            reveal_strlit("8");
            assert("8"@ =~= seq!['8']);
        }
    } else {
        out.append("9");
        proof {
            reveal_strlit("9");
            assert("9"@ =~= seq!['9']);
        }
    }
}

/// Appends the decimal digits of a non-negative number.
fn append_dec(out: &mut String, n: u32)
    ensures
        final(out)@ == old(out)@ + dec_nat(n as int),
    decreases n,
{
    if n >= 10 {
        append_dec(out, n / 10);
    }
    push_digit(out, n % 10);
    proof {
        if n >= 10 {
            assert(dec_nat(n as int) == dec_nat(n as int / 10).push(digit_char(n as int % 10)));
            assert(dec_nat(n as int / 10).push(digit_char(n as int % 10)) =~= dec_nat(
                n as int / 10,
            ) + seq![digit_char(n as int % 10)]);
        } else {
            assert(n as int % 10 == n as int);
        }
    }
}

/// The decimal rendering of a 32-bit integer, a leading minus when
/// negative.
pub fn i32_to_text(n: i32) -> (r: String)
    ensures
        r@ == dec_of(n as int),
{
    let mut out = String::new();
    if n < 0 {
        out.append("-");
        proof {
            reveal_strlit("-");
            assert("-"@ =~= seq!['-']);
        }
        let wide: i64 = n as i64;
        let m: u32 = (-wide) as u32;
        proof {
            assert(m as int == -(n as int));
        }
        append_dec(&mut out, m);
    } else {
        append_dec(&mut out, n as u32);
    }
    out
}

/// Integer coercion of a value.
pub open spec fn spec_as_i32(v: ValV) -> Result<i32, ConvV> {
    match spec_parse_i32(v.text) {
        Some(n) => Ok(n),
        None => Err(ConvV { value: v, target: "i32"@ }),
    }
}

/// Reads a 32-bit integer: an optional `+` or `-` sign, then one or more
/// decimal digits; anything else, or a value out of range, is refused.
fn parse_i32_exec(s: &str) -> (r: Option<i32>)
    ensures
        r == spec_parse_i32(s@),
{
    let n = s.unicode_len();
    if n == 0 {
        return None;
    }
    let first = s.get_char(0);
    let negative = first == '-';
    let has_sign = first == '-' || first == '+';
    let start: usize = if has_sign {
        1
    } else {
        0
    };
    let ghost body = if has_sign {
        s@.drop_first()
    } else {
        s@
    };
    proof {
        assert(body =~= s@.subrange(start as int, n as int));
    }
    if start == n {
        return None;
    }
    let mut i: usize = start;
    let mut acc: u64 = 0;
    while i < n
        invariant
            start <= i <= n,
            n == s@.len(),
            n > 0,
            start <= 1,
            has_sign == (s@[0] == '+' || s@[0] == '-'),
            negative == (s@[0] == '-'),
            start == (if has_sign {
                1int
            } else {
                0int
            }),
            body == (if has_sign {
                s@.drop_first()
            } else {
                s@
            }),
            body == s@.subrange(start as int, n as int),
            all_digits(s@.subrange(start as int, i as int)),
            acc <= 2147483649,
            acc <= 2147483648 ==> acc as int == dec_val(s@.subrange(start as int, i as int)),
            acc == 2147483649 ==> dec_val(s@.subrange(start as int, i as int)) > 2147483648,
        decreases n - i,
    {
        let c = s.get_char(i);
        let cv = c as u32;
        if cv < 48 || cv > 57 {
            proof {
                assert(c == s@[i as int]);
                assert(c as int == cv as int);
                assert(('0' as int) == 48);
                assert(('9' as int) == 57);
                assert(!is_digit(c));
                assert(body[i as int - start as int] == s@[i as int]);
                assert(!all_digits(body));
            }
            return None;
        }
        let d: u32 = cv - 48;
        let ghost prefix = s@.subrange(start as int, i as int);
        let ghost extended = s@.subrange(start as int, i as int + 1);
        proof {
            assert(extended.drop_last() =~= prefix);
            assert(extended.last() == s@[i as int]);
            assert(digit_val(s@[i as int]) == d as int);
            assert(dec_val(extended) == dec_val(prefix) * 10 + d as int);
        }
        if acc <= 2147483648 {
            let next: u64 = acc * 10 + (d as u64);
            acc = if next > 2147483648 {
                2147483649
            } else {
                next
            };
        } else {
            proof {
                assert(dec_val(prefix) > 2147483648);
                assert(dec_val(extended) > 2147483648);
            }
        }
        i = i + 1;
    }
    proof {
        assert(s@.subrange(start as int, n as int) == body);
        assert(all_digits(body));
    }
    if negative {
        if acc > 2147483648 {
            None
        } else {
            let wide: i64 = acc as i64;
            Some((-wide) as i32)
        }
    } else {
        if acc > 2147483647 {
            None
        } else {
            Some(acc as i32)
        }
    }
}

impl DynVal {
    /// Builds a value from its canonical string form, with no span.
    pub fn from_string(text: String) -> (r: DynVal)
        ensures
            r@ == (ValV { text: text@, span: None }),
    {
        DynVal { text, span: None }
    }

    /// Builds a boolean value in canonical string form.
    pub fn from_bool(b: bool) -> (r: DynVal)
        ensures
            r@ == (ValV { text: bool_text(b), span: None }),
    {
        if b {
            DynVal { text: "true".to_owned(), span: None }
        } else {
            DynVal { text: "false".to_owned(), span: None }
        }
    }

    /// Re-tags the value with the given span, keeping the string form.
    pub fn at(self, span: Span) -> (r: DynVal)
        ensures
            r@ == (ValV { text: self@.text, span: Some(span) }),
    {
        DynVal { text: self.text, span: Some(span) }
    }

    /// The canonical string form; this conversion cannot fail.
    pub fn as_string(&self) -> (r: String)
        ensures
            r@ == self@.text,
    {
        self.text.clone()
    }

    pub fn as_bool(&self) -> (r: Result<bool, ConversionError>)
        ensures
            (match r {
                Ok(b) => spec_as_bool(self@) == Ok::<bool, ConvV>(b),
                Err(e) => spec_as_bool(self@) == Err::<bool, ConvV>(e@),
            }),
    {
        if self.text == "true".to_owned() {
            Ok(true)
        } else if self.text == "false".to_owned() {
            Ok(false)
        } else {
            Err(ConversionError { value: self.clone(), target_type: "bool".to_owned() })
        }
    }

    pub fn as_i32(&self) -> (r: Result<i32, ConversionError>)
        ensures
            (match r {
                Ok(n) => spec_as_i32(self@) == Ok::<i32, ConvV>(n),
                Err(e) => spec_as_i32(self@) == Err::<i32, ConvV>(e@),
            }),
    {
        match parse_i32_exec(self.text.as_str()) {
            Some(n) => Ok(n),
            None => Err(ConversionError { value: self.clone(), target_type: "i32".to_owned() }),
        }
    }

    /// Structural equality of the canonical string forms; spans carry no
    /// semantic weight and are ignored.
    pub fn eq_val(&self, other: &DynVal) -> (r: bool)
        ensures
            r == (self@.text == other@.text),
    {
        self.text == other.text
    }
}

} // verus!
