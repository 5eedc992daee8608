//! Small verified helpers shared across the library: copying optional
//! strings, membership in string lists, blank detection, and rendering the
//! small counts that remediation messages carry.

use vstd::prelude::*;
use vstd::string::StrSliceExecFns;

verus! {

/// Copies an optional string; the copy equals the original.
pub fn clone_opt_string(o: &Option<String>) -> (r: Option<String>)
    ensures
        r == *o,
{
    match o {
        Some(s) => Some(s.clone()),
        None => None,
    }
}

/// Copies a string list; the copy's view equals the original's.
pub fn clone_vec_string(v: &Vec<String>) -> (r: Vec<String>)
    ensures
        r@ == v@,
{
    let r = v.clone();
    proof {
        assert(r@ =~= v@);
    }
    r
}

/// Whether some entry of the list reads exactly as `x`.
pub open spec fn contains_str(l: Seq<String>, x: Seq<char>) -> bool {
    exists|i: int| 0 <= i < l.len() && l[i]@ == x
}

/// Linear search for a string among the entries of a list.
pub fn string_list_contains(l: &Vec<String>, x: &String) -> (r: bool)
    ensures
        r == contains_str(l@, x@),
{
    let mut i: usize = 0;
    while i < l.len()
        invariant
            0 <= i <= l@.len(),
            forall|k: int| 0 <= k < i ==> l@[k]@ != x@,
        decreases l@.len() - i,
    {
        if l[i] == *x {
            return true;
        }
        i = i + 1;
    }
    false
}


/// Whether some entry of the list of views reads exactly as `x`.
pub open spec fn contains_seq(l: Seq<Seq<char>>, x: Seq<char>) -> bool {
    exists|i: int| 0 <= i < l.len() && l[i] == x
}

/// Whether a string equals a literal.
pub fn string_is(s: &String, lit: &str) -> (r: bool)
    ensures
        r == (s@ == lit@),
{
    let other: String = lit.to_string();
    *s == other
}

/// Whether every character is a space, tab, newline or carriage return;
/// an empty string is blank.
pub open spec fn blank_chars(s: Seq<char>) -> bool {
    forall|i: int| 0 <= i < s.len() ==> (s[i] == ' ' || s[i] == '\t' || s[i] == '\n' || s[i] == '\r')
}

/// Whether the string holds no visible content.
pub fn is_blank(s: &str) -> (r: bool)
    ensures
        r == blank_chars(s@),
{
    let n = s.unicode_len();
    let mut i: usize = 0;
    while i < n
        invariant
            n == s@.len(),
            0 <= i <= n,
            forall|k: int|
                0 <= k < i ==> (s@[k] == ' ' || s@[k] == '\t' || s@[k] == '\n' || s@[k] == '\r'),
        decreases n - i,
    {
        let c = s.get_char(i);
        if !(c == ' ' || c == '\t' || c == '\n' || c == '\r') {
            return false;
        }
        i = i + 1;
    }
    true
}

/// The decimal rendering of a count no greater than sixteen.
pub open spec fn count_str(n: nat) -> Seq<char> {
    if n == 0 {
        "0"@
    } else if n == 1 {
        "1"@
    } else if n == 2 {
        "2"@
    } else if n == 3 {
        "3"@
    } else if n == 4 {
        "4"@
    } else if n == 5 {
        "5"@
    } else if n == 6 {
        "6"@
    } else if n == 7 {
        "7"@
    } else if n == 8 {
        "8"@
    } else if n == 9 {
        "9"@
    } else if n == 10 {
        "10"@
    } else if n == 11 {
        "11"@
    } else if n == 12 {
        "12"@
    } else if n == 13 {
        "13"@
    } else if n == 14 {
        "14"@
    } else if n == 15 {
        "15"@
    } else {
        "16"@
    }
}

/// Renders a count no greater than sixteen in decimal.
pub fn small_count_string(n: u64) -> (r: String)
    requires
        n <= 16,
    ensures
        r@ == count_str(n as nat),
{
    if n == 0 {
        "0".to_string()
    } else if n == 1 {
        "1".to_string()
    } else if n == 2 {
        "2".to_string()
    } else if n == 3 {
        "3".to_string()
    } else if n == 4 {
        "4".to_string()
    } else if n == 5 {
        "5".to_string()
    } else if n == 6 {
        "6".to_string()
    } else if n == 7 {
        "7".to_string()
    } else if n == 8 {
        "8".to_string()
    } else if n == 9 {
        "9".to_string()
    } else if n == 10 {
        "10".to_string()
    } else if n == 11 {
        "11".to_string()
    } else if n == 12 {
        "12".to_string()
    } else if n == 13 {
        "13".to_string()
    } else if n == 14 {
        "14".to_string()
    } else if n == 15 {
        "15".to_string()
    } else {
        "16".to_string()
    }
}

} // verus!
