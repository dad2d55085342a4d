//! Case-insensitive substring matching over character sequences.
//!
//! Keyword search treats ASCII letters of either case as equal, the way the
//! backends' `LIKE` and case-insensitive regex filters do; all other
//! characters must match exactly.

use vstd::prelude::*;

verus! {

/// The code of a character with an upper-case ASCII letter folded to its
/// lower-case counterpart.
pub open spec fn folded_code(c: char) -> int {
    if 'A' as int <= c as int && c as int <= 'Z' as int {
        c as int + 32
    } else {
        c as int
    }
}

/// Two characters are equal ignoring ASCII case.
pub open spec fn eq_ci(a: char, b: char) -> bool {
    folded_code(a) == folded_code(b)
}

/// The needle matches the haystack at position `i`, ignoring ASCII case.
pub open spec fn matches_at(hay: Seq<char>, needle: Seq<char>, i: int) -> bool {
    &&& 0 <= i
    &&& i + needle.len() <= hay.len()
    &&& forall|j: int| 0 <= j < needle.len() ==> eq_ci(hay[i + j], needle[j])
}

/// The haystack contains the needle somewhere, ignoring ASCII case.
/// An empty needle is contained in every haystack.
pub open spec fn contains_ci(hay: Seq<char>, needle: Seq<char>) -> bool {
    exists|i: int| matches_at(hay, needle, i)
}

/// Whether two strings hold the same characters.
pub fn str_eq(a: &str, b: &str) -> (r: bool)
    ensures
        r == (a@ == b@),
{
    let n = a.unicode_len();
    let m = b.unicode_len();
    if n != m {
        return false;
    }
    let mut i: usize = 0;
    while i < n
        invariant
            0 <= i <= n,
            n == a@.len(),
            n == b@.len(),
            forall|k: int| 0 <= k < i ==> a@[k] == b@[k],
        decreases n - i,
    {
        if a.get_char(i) != b.get_char(i) {
            return false;
        }
        i += 1;
    }
    proof {
        assert(a@ =~= b@);
    }
    true
}

fn eq_ci_exec(a: char, b: char) -> (r: bool)
    ensures
        r == eq_ci(a, b),
{
    let x = a as u32;
    let y = b as u32;
    let xf = if 65 <= x && x <= 90 {
        x + 32
    } else {
        x
    };
    let yf = if 65 <= y && y <= 90 {
        y + 32
    } else {
        y
    };
    xf == yf
}

/// Whether `hay` contains `needle` as a substring, ignoring ASCII case.
pub fn contains_ci_exec(hay: &str, needle: &str) -> (r: bool)
    ensures
        r == contains_ci(hay@, needle@),
{
    let n = hay.unicode_len();
    let m = needle.unicode_len();
    if m > n {
        assert(!contains_ci(hay@, needle@));
        return false;
    }
    let mut i: usize = 0;
    loop
        invariant
            0 <= i <= n - m + 1,
            n == hay@.len(),
            m == needle@.len(),
            m <= n,
            forall|k: int| 0 <= k < i ==> !matches_at(hay@, needle@, k),
        decreases n - m + 1 - i,
    {
        if i > n - m {
            assert forall|k: int| !matches_at(hay@, needle@, k) by {
                if 0 <= k && k + needle@.len() <= hay@.len() {
                    assert(k < i);
                }
            }
            return false;
        }
        let mut j: usize = 0;
        let mut ok = true;
        while j < m
            invariant
                0 <= j <= m,
                i + m <= n,
                n == hay@.len(),
                m == needle@.len(),
                ok ==> forall|l: int| 0 <= l < j ==> eq_ci(hay@[i + l], needle@[l]),
                !ok ==> !matches_at(hay@, needle@, i as int),
            decreases m - j,
        {
            if eq_ci_exec(hay.get_char(i + j), needle.get_char(j)) {
                j += 1;
            } else {
                assert(!matches_at(hay@, needle@, i as int));
                ok = false;
                j = m;
            }
        }
        if ok {
            assert(matches_at(hay@, needle@, i as int));
            return true;
        }
        i += 1;
    }
}

} // verus!
