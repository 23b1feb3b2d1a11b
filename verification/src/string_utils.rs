//! Small string helpers, built on a few trusted declarations for the std
//! string operations that vstd leaves unspecified.

use vstd::prelude::*;
use vstd::string::StrSliceExecFns;

verus! {

/// Whether a character has the Unicode uppercase property: the result of
/// `char::is_uppercase`, which depends on the character alone.
pub uninterp spec fn is_uppercase_char(c: char) -> bool;

/// Relies on `char::is_uppercase`: true exactly for characters with the
/// Unicode uppercase property, a function of the character alone.
#[verifier::external_body]
fn char_is_uppercase(c: char) -> (r: bool)
    ensures
        r == is_uppercase_char(c),
{
    c.is_uppercase()
}

/// Relies on `String::push`: appends the given character to the end of
/// the string.
#[verifier::external_body]
fn push_char(s: &mut String, c: char)
    ensures
        final(s)@ == old(s)@.push(c),
{
    s.push(c);
}

/// Relies on `==` for `str` (`PartialEq::eq`): string slices are equal
/// exactly when their contents are equal.
#[verifier::external_body]
pub(crate) fn str_eq(a: &str, b: &str) -> (r: bool)
    ensures
        r == (a@ == b@),
{
    a == b
}

/// `s` with a space inserted before every uppercase character, except one
/// standing at the very start.
pub open spec fn spec_readable(s: Seq<char>) -> Seq<char>
    decreases s.len(),
{
    if s.len() == 0 {
        s
    } else if s.len() > 1 && is_uppercase_char(s.last()) {
        spec_readable(s.drop_last()).push(' ').push(s.last())
    } else {
        spec_readable(s.drop_last()).push(s.last())
    }
}

/// Insert a space before each uppercase letter that is not the first
/// character, turning `PascalCase` names into readable text.
pub fn pascal_case_to_readable(s: &str) -> (r: String)
    ensures
        r@ == spec_readable(s@),
{
    let n = s.unicode_len();
    let mut result = String::new();
    let mut i: usize = 0;
    while i < n
        invariant
            i <= n,
            n == s@.len(),
            result@ == spec_readable(s@.take(i as int)),
        decreases n - i,
    {
        let c = s.get_char(i);
        if i != 0 && char_is_uppercase(c) {
            push_char(&mut result, ' ');
        }
        push_char(&mut result, c);
        i = i + 1;
        proof {
            assert(s@.take(i as int).drop_last() =~= s@.take(i - 1));
            assert(s@.take(i as int).last() == s@[i - 1]);
        }
    }
    proof {
        assert(s@.take(n as int) =~= s@);
    }
    result
}

} // verus!
