//! Small text helpers shared by the transformers: string equality, the
//! identifier shape that generated name fragments must have, and name
//! concatenation.

use vstd::prelude::*;
use vstd::string::StringExecFns;

verus! {

/// Compares two string slices by their character sequences.
pub fn str_eq(a: &str, b: &str) -> (r: bool)
    ensures
        r == (a@ == b@),
{
    let sa: String = a.to_owned();
    let sb: String = b.to_owned();
    sa == sb
}

/// A character that may start an identifier: an ASCII letter or an
/// underscore.
pub open spec fn is_ident_start_char(c: char) -> bool {
    let n = c as u32;
    (97 <= n <= 122) || (65 <= n <= 90) || n == 95
}

/// A character that may continue an identifier: a start character or an
/// ASCII digit.
pub open spec fn is_ident_char(c: char) -> bool {
    is_ident_start_char(c) || (48 <= c as u32 <= 57)
}

/// The shape every generated name fragment must have: nonempty, a start
/// character first, continuation characters after.
pub open spec fn is_ident(s: Seq<char>) -> bool {
    &&& s.len() > 0
    &&& is_ident_start_char(s[0])
    &&& forall|i: int| 1 <= i < s.len() ==> is_ident_char(s[i])
}

/// Decides [`is_ident`] on a string slice.
pub fn is_ident_str(s: &str) -> (r: bool)
    ensures
        r == is_ident(s@),
{
    let n = s.unicode_len();
    if n == 0 {
        return false;
    }
    let c0 = s.get_char(0);
    let m: u32 = c0 as u32;
    if !((97 <= m && m <= 122) || (65 <= m && m <= 90) || m == 95) {
        return false;
    }
    let mut i: usize = 1;
    while i < n
        invariant
            1 <= i <= n,
            n == s@.len(),
            is_ident_start_char(s@[0]),
            forall|j: int| 1 <= j < i ==> is_ident_char(s@[j]),
        decreases n - i,
    {
        let c = s.get_char(i);
        let k: u32 = c as u32;
        if !((97 <= k && k <= 122) || (65 <= k && k <= 90) || k == 95 || (48 <= k && k <= 57)) {
            return false;
        }
        i += 1;
    }
    true
}

/// Joins a generated-name prefix to a field or method name.
pub fn concat_names(prefix: &str, name: &str) -> (r: String)
    ensures
        r@ == prefix@ + name@,
{
    let mut s: String = prefix.to_owned();
    s.append(name);
    s
}

} // verus!
