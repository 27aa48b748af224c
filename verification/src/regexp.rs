use vstd::prelude::*;

verus! {

/// What compiling the text as a regular expression reports: no message
/// when the pattern is valid, otherwise the compiler's message.
pub uninterp spec fn regex_err(pat: Seq<char>) -> Option<Seq<char>>;

/// Whether the text compiles as a regular expression.
pub open spec fn regex_ok(pat: Seq<char>) -> bool {
    regex_err(pat) is None
}

/// Whether the compiled pattern matches anywhere in the text.
pub uninterp spec fn regex_match(pat: Seq<char>, text: Seq<char>) -> bool;

/// The text with every non-overlapping match of the pattern replaced by
/// the replacement, which is read for capture group references.
pub uninterp spec fn regex_replace(pat: Seq<char>, text: Seq<char>, repl: Seq<char>) -> Seq<char>;

/// Relies on regex::Regex::new and regex::Regex::is_match: compiling
/// fails exactly on a malformed pattern, and a compiled pattern reports
/// whether it matches anywhere in the haystack.
#[verifier::external_body]
pub(crate) fn exec_regex_is_match(pat: &str, text: &str) -> (r: Result<bool, String>)
    ensures
        r is Ok <==> regex_ok(pat@),
        (r matches Ok(b) ==> b == regex_match(pat@, text@)),
        (r matches Err(m) ==> regex_err(pat@) == Some(m@)),
{
    match regex::Regex::new(pat) {
        Ok(re) => Ok(re.is_match(text)),
        Err(e) => Err(e.to_string()),
    }
}

/// Relies on regex::Regex::new and regex::Regex::replace_all: compiling
/// fails exactly on a malformed pattern, and replacing rewrites every
/// non-overlapping match of the pattern with the replacement.
#[verifier::external_body]
pub(crate) fn exec_regex_replace(pat: &str, text: &str, repl: &str) -> (r: Result<String, String>)
    ensures
        r is Ok <==> regex_ok(pat@),
        (r matches Ok(s) ==> s@ == regex_replace(pat@, text@, repl@)),
        (r matches Err(m) ==> regex_err(pat@) == Some(m@)),
{
    match regex::Regex::new(pat) {
        Ok(re) => Ok(re.replace_all(text, repl).into_owned()),
        Err(e) => Err(e.to_string()),
    }
}

/// How one character of a replacement string is written so the engine
/// takes it literally: a dollar is doubled, since a dollar is the one
/// character the engine reads specially in a replacement; everything
/// else is kept as it stands.
pub open spec fn escape_one(c: char) -> Seq<char> {
    if c == '$' {
        seq!['$', '$']
    } else {
        seq![c]
    }
}

/// A replacement string rewritten so the engine inserts it literally
/// instead of reading capture group references.
pub open spec fn escape_repl(s: Seq<char>) -> Seq<char>
    decreases s.len(),
{
    if s.len() == 0 {
        Seq::empty()
    } else {
        escape_repl(s.drop_last()) + escape_one(s.last())
    }
}

/// Rewrites a replacement string character by character so the regex
/// engine treats it as literal text.
pub fn escape_replacement(s: &str) -> (r: String)
    ensures
        r@ == escape_repl(s@),
{
    let n = s.unicode_len();
    let mut out = String::new();
    let mut i: usize = 0;
    proof {
        assert(s@.take(0) =~= Seq::<char>::empty());
    }
    while i < n
        invariant
            i <= n,
            n == s@.len(),
            out@ == escape_repl(s@.take(i as int)),
        decreases n - i,
    {
        let c = s.get_char(i);
        if c == '$' {
            out.append("$$");
            proof {
                reveal_strlit("$$");
                assert("$$"@ =~= seq!['$', '$']);
            }
        } else {
            out.append(s.substring_char(i, i + 1));
            proof {
                assert(s@.subrange(i as int, i as int + 1) =~= seq![c]);
            }
        }
        proof {
            assert(s@.take(i as int + 1).drop_last() =~= s@.take(i as int));
            assert(s@.take(i as int + 1).last() == s@[i as int]);
        }
        i = i + 1;
    }
    proof {
        assert(s@.take(n as int) =~= s@);
    }
    out
}

} // verus!
