//! Network address text: validation of dotted-quad IPv4 addresses.
//!
//! A valid address is four octet segments joined by dots, each segment a
//! canonical decimal between 0 and 255 with no leading zero. Canonical
//! segments are exactly the texts an address formatter produces, so a
//! validated text determines its address uniquely.

use vstd::prelude::*;
use vstd::string::StrSliceExecFns;

verus! {

/// Whether `c` is a decimal digit.
pub open spec fn is_digit(c: char) -> bool {
    48 <= c as u32 && c as u32 <= 57
}

/// The value of a decimal digit.
pub open spec fn digit_val(c: char) -> int {
    c as u32 - 48
}

/// Whether `s` is a canonical decimal octet: `0`..`255`, no leading zero.
pub open spec fn valid_octet(s: Seq<char>) -> bool {
    if s.len() == 1 {
        is_digit(s[0])
    } else if s.len() == 2 {
        is_digit(s[0]) && is_digit(s[1]) && digit_val(s[0]) >= 1
    } else if s.len() == 3 {
        &&& is_digit(s[0])
        &&& is_digit(s[1])
        &&& is_digit(s[2])
        &&& digit_val(s[0]) >= 1
        &&& 100 * digit_val(s[0]) + 10 * digit_val(s[1]) + digit_val(s[2]) <= 255
    } else {
        false
    }
}

/// The first index at or after `from` holding a dot, or the length of `s`
/// if there is none.
pub open spec fn find_dot(s: Seq<char>, from: int) -> int
    decreases s.len() - from when 0 <= from
{
    if from >= s.len() {
        s.len() as int
    } else if s[from] == '.' {
        from
    } else {
        find_dot(s, from + 1)
    }
}

/// Whether `s` is a valid dotted-quad IPv4 address: exactly three dots,
/// splitting it into four canonical octet segments.
pub open spec fn valid_ipv4(s: Seq<char>) -> bool {
    let i = find_dot(s, 0);
    let j = find_dot(s, i + 1);
    let k = find_dot(s, j + 1);
    &&& i < s.len()
    &&& j < s.len()
    &&& k < s.len()
    &&& find_dot(s, k + 1) == s.len()
    &&& valid_octet(s.subrange(0, i))
    &&& valid_octet(s.subrange(i + 1, j))
    &&& valid_octet(s.subrange(j + 1, k))
    &&& valid_octet(s.subrange(k + 1, s.len() as int))
}

/// Find the first dot at or after `from`, or return the length of `s`.
fn find_dot_from(s: &str, from: usize) -> (r: usize)
    requires
        from <= s@.len(),
    ensures
        r as int == find_dot(s@, from as int),
        from <= r <= s@.len(),
{
    let n = s.unicode_len();
    let mut i: usize = from;
    while i < n
        invariant
            from <= i <= n,
            n == s@.len(),
            find_dot(s@, from as int) == find_dot(s@, i as int),
        decreases n - i,
    {
        if s.get_char(i) == '.' {
            return i;
        }
        i += 1;
    }
    n
}

/// Check whether `s` is a canonical decimal octet.
fn is_valid_octet(s: &str) -> (r: bool)
    ensures
        r == valid_octet(s@),
{
    let n = s.unicode_len();
    if n == 1 {
        let u = s.get_char(0) as u32;
        48 <= u && u <= 57
    } else if n == 2 {
        let u0 = s.get_char(0) as u32;
        let u1 = s.get_char(1) as u32;
        49 <= u0 && u0 <= 57 && 48 <= u1 && u1 <= 57
    } else if n == 3 {
        let u0 = s.get_char(0) as u32;
        let u1 = s.get_char(1) as u32;
        let u2 = s.get_char(2) as u32;
        49 <= u0 && u0 <= 57 && 48 <= u1 && u1 <= 57 && 48 <= u2 && u2 <= 57 && 100 * (u0 - 48) + 10
            * (u1 - 48) + (u2 - 48) <= 255
    } else {
        false
    }
}

/// Check whether `s` is a valid dotted-quad IPv4 address.
pub fn is_valid_ipv4(s: &str) -> (r: bool)
    ensures
        r == valid_ipv4(s@),
{
    let n = s.unicode_len();
    let i = find_dot_from(s, 0);
    if i == n {
        return false;
    }
    let j = find_dot_from(s, i + 1);
    if j == n {
        return false;
    }
    let k = find_dot_from(s, j + 1);
    if k == n {
        return false;
    }
    if find_dot_from(s, k + 1) != n {
        return false;
    }
    is_valid_octet(s.substring_char(0, i)) && is_valid_octet(s.substring_char(i + 1, j))
        && is_valid_octet(s.substring_char(j + 1, k)) && is_valid_octet(
        s.substring_char(k + 1, n),
    )
}

} // verus!
