//! Whether the WebView2 runtime is present, from the version the registry reports for it.
//!
//! A present key is not a present runtime: an absent, empty or all-zero version all mean "not
//! installed". Anything else counts as installed, a value that does not parse as a version
//! included, because calling a present runtime missing stops an app that would have worked.

use vstd::prelude::*;

use crate::text::{trim, trimmed};

verus! {

/// Where the first `.` of `s` stands, or `s.len()` when there is none.
pub open spec fn dot_index(s: Seq<char>) -> int
    decreases s.len(),
{
    if s.len() == 0 {
        0
    } else if s[0] == '.' {
        0
    } else {
        1 + dot_index(s.drop_first())
    }
}

/// `part` parses as the `u32` zero: an optional `+`, then one or more `0`s.
pub open spec fn is_zero_part(part: Seq<char>) -> bool {
    ||| (part.len() >= 1 && forall|i: int| 0 <= i < part.len() ==> part[i] == '0')
    ||| (part.len() >= 2 && part[0] == '+' && forall|i: int| 1 <= i < part.len() ==> part[i] == '0')
}

/// Every `.`-separated part of `s` parses as zero.
pub open spec fn all_zero_parts(s: Seq<char>) -> bool
    decreases s.len(),
{
    let k = dot_index(s);
    if 0 <= k < s.len() {
        is_zero_part(s.take(k)) && all_zero_parts(s.skip(k + 1))
    } else {
        is_zero_part(s)
    }
}

/// One `pv` value describes a runtime rather than a placeholder: it is not blank, and not
/// zero in every component.
pub open spec fn spec_is_real_version(value: Seq<char>) -> bool {
    let t = trim(value);
    t.len() > 0 && !all_zero_parts(t)
}

/// The first dot of `s` is at `k` when none stands before it.
proof fn lemma_dot_index(s: Seq<char>, k: int)
    requires
        0 <= k <= s.len(),
        forall|i: int| 0 <= i < k ==> s[i] != '.',
        k == s.len() || s[k] == '.',
    ensures
        dot_index(s) == k,
    decreases k,
{
    if k > 0 {
        lemma_dot_index(s.drop_first(), k - 1);
    }
}

/// `dot_index` never runs past the end.
proof fn lemma_dot_index_bounds(s: Seq<char>)
    ensures
        0 <= dot_index(s) <= s.len(),
    decreases s.len(),
{
    if s.len() > 0 && s[0] != '.' {
        lemma_dot_index_bounds(s.drop_first());
    }
}

/// Whether `t[from..to]` parses as zero.
fn zero_part(t: &Vec<char>, from: usize, to: usize) -> (zero: bool)
    requires
        from <= to <= t@.len(),
    ensures
        zero == is_zero_part(t@.subrange(from as int, to as int)),
{
    let ghost part = t@.subrange(from as int, to as int);
    let mut start = from;
    if from < to && t[from] == '+' {
        start = from + 1;
        if start == to {
            assert(part.len() == 1);
            assert(!(forall|i: int| 0 <= i < part.len() ==> part[i] == '0')) by {
                assert(part[0] == '+');
            }
            return false;
        }
    }
    if start == to {
        assert(part.len() == 0);
        return false;
    }
    let mut i = start;
    while i < to
        invariant
            from <= start < to <= t@.len(),
            start <= i <= to,
            part == t@.subrange(from as int, to as int),
            (start == from && t@[from as int] != '+') || (start == from + 1 && t@[from as int] == '+'),
            forall|j: int| start <= j < i ==> t@[j] == '0',
        decreases to - i,
    {
        if t[i] != '0' {
            assert(part[i - from] != '0');
            assert(!is_zero_part(part)) by {
                assert(part[0] == t@[from as int]);
                if i == from {
                    assert(part[0] != '+');
                } else {
                    assert(i - from >= 1);
                }
            }
            return false;
        }
        i = i + 1;
    }
    if start == from {
        assert(forall|j: int| 0 <= j < part.len() ==> part[j] == '0') by {
            assert forall|j: int| 0 <= j < part.len() implies part[j] == '0' by {
                assert(part[j] == t@[from + j]);
            }
        }
    } else {
        assert(forall|j: int| 1 <= j < part.len() ==> part[j] == '0') by {
            assert forall|j: int| 1 <= j < part.len() implies part[j] == '0' by {
                assert(part[j] == t@[from + j]);
            }
        }
        assert(part[0] == '+');
    }
    true
}

/// Whether one `pv` value describes a runtime rather than a placeholder.
pub fn is_real_version(value: &str) -> (genuine: bool)
    ensures
        genuine == spec_is_real_version(value@),
{
    let t = trimmed(value);
    let n = t.len();
    if n == 0 {
        return false;
    }
    let mut i: usize = 0;
    let mut genuine = false;
    assert(t@.skip(0) =~= t@);
    loop
        invariant
            n == t@.len(),
            n > 0,
            i <= n,
            all_zero_parts(t@.skip(i as int)) == all_zero_parts(t@),
        ensures
            genuine == !all_zero_parts(t@),
        decreases n - i,
    {
        let ghost rest = t@.skip(i as int);
        let mut j = i;
        while j < n && t[j] != '.'
            invariant
                n == t@.len(),
                i <= j <= n,
                forall|m: int| i <= m < j ==> t@[m] != '.',
            decreases n - j,
        {
            j = j + 1;
        }
        proof {
            lemma_dot_index(rest, j - i);
            assert(rest.take(j - i) =~= t@.subrange(i as int, j as int));
        }
        if !zero_part(&t, i, j) {
            assert(!all_zero_parts(rest)) by {
                if j < n {
                } else {
                    assert(rest =~= t@.subrange(i as int, j as int));
                }
            }
            genuine = true;
            break;
        }
        if j == n {
            assert(rest =~= t@.subrange(i as int, j as int));
            genuine = false;
            break;
        }
        assert(rest.skip(j - i + 1) =~= t@.skip(j + 1));
        i = j + 1;
    }
    genuine
}

/// Whether either registration describes a runtime that is actually present.
pub fn installed(hklm: Option<&str>, hkcu: Option<&str>) -> (present: bool)
    ensures
        present == ((hklm matches Some(v) && spec_is_real_version(v@))
            || (hkcu matches Some(v) && spec_is_real_version(v@))),
{
    let machine = match hklm {
        Some(v) => is_real_version(v),
        None => false,
    };
    if machine {
        return true;
    }
    match hkcu {
        Some(v) => is_real_version(v),
        None => false,
    }
}

} // verus!
