//! The validity pattern for wall-socket port labels.
//!
//! A label is listed by the catalog when it matches the fixed pattern
//! `^[0-9]+.[EU0-9]+.[0-9]+-[0-9a-z/,]+?$` (where `.` stands for any single
//! character) or begins with `MT-`.

use crate::text::is_digit_char;
use vstd::prelude::*;

verus! {

/// A character allowed in the middle segment: a digit, `E` or `U`.
pub open spec fn is_mid_char(c: char) -> bool {
    is_digit_char(c) || c == 'E' || c == 'U'
}

/// A character allowed in the tail segment: a digit, a lowercase letter,
/// `/` or `,`.
pub open spec fn is_tail_char(c: char) -> bool {
    is_digit_char(c) || (97 <= c as u32 && c as u32 <= 122) || c == '/' || c == ','
}

/// The label decomposes as `n1` digits, one arbitrary character, `n2`
/// middle characters, one arbitrary character, `n3` digits, a hyphen, and a
/// nonempty tail reaching the end.
pub open spec fn segments_match(s: Seq<char>, n1: int, n2: int, n3: int) -> bool {
    &&& 1 <= n1
    &&& 1 <= n2
    &&& 1 <= n3
    &&& n1 + n2 + n3 + 3 < s.len()
    &&& forall|k: int| 0 <= k < n1 ==> is_digit_char(s[k])
    &&& forall|k: int| n1 + 1 <= k < n1 + 1 + n2 ==> is_mid_char(s[k])
    &&& forall|k: int| n1 + n2 + 2 <= k < n1 + n2 + 2 + n3 ==> is_digit_char(s[k])
    &&& s[n1 + n2 + n3 + 2] == '-'
    &&& forall|k: int| n1 + n2 + n3 + 3 <= k < s.len() ==> is_tail_char(s[k])
}

/// The label matches the wall-socket pattern for some choice of segment
/// lengths.
pub open spec fn matches_socket_pattern(s: Seq<char>) -> bool {
    exists|n1: int, n2: int, n3: int| segments_match(s, n1, n2, n3)
}

/// The label begins with `MT-`.
pub open spec fn has_mt_prefix(s: Seq<char>) -> bool {
    s.len() >= 3 && s[0] == 'M' && s[1] == 'T' && s[2] == '-'
}

/// A label the catalog lists: it matches the wall-socket pattern or carries
/// the `MT-` prefix.
pub open spec fn valid_label(s: Seq<char>) -> bool {
    matches_socket_pattern(s) || has_mt_prefix(s)
}

/// The head of a decomposition: `n1` digits, one arbitrary character and
/// `n2` middle characters, with room for the rest of the pattern.
pub open spec fn head_match(s: Seq<char>, n1: int, n2: int) -> bool {
    &&& 1 <= n1
    &&& 1 <= n2
    &&& n1 + n2 + 2 <= s.len()
    &&& forall|k: int| 0 <= k < n1 ==> is_digit_char(s[k])
    &&& forall|k: int| n1 + 1 <= k < n1 + 1 + n2 ==> is_mid_char(s[k])
}

/// The tail of a decomposition starting at `p`: `m` digits, a hyphen, and a
/// nonempty run of tail characters reaching the end.
pub open spec fn tail_segments(s: Seq<char>, p: int, m: int) -> bool {
    &&& 1 <= m
    &&& 0 <= p
    &&& p + m + 1 < s.len()
    &&& forall|k: int| p <= k < p + m ==> is_digit_char(s[k])
    &&& s[p + m] == '-'
    &&& forall|k: int| p + m + 1 <= k < s.len() ==> is_tail_char(s[k])
}

/// The tail of a decomposition starts at `p` for some digit-run length.
pub open spec fn tail_matches(s: Seq<char>, p: int) -> bool {
    exists|m: int| tail_segments(s, p, m)
}

/// A full decomposition is the same thing as a head at the start and a tail
/// right after it.
proof fn lemma_pattern_decomposition(s: Seq<char>)
    ensures
        matches_socket_pattern(s) <==> exists|n1: int, n2: int|
            head_match(s, n1, n2) && tail_matches(s, n1 + n2 + 2),
{
    if matches_socket_pattern(s) {
        let (n1, n2, n3) = choose|n1: int, n2: int, n3: int| segments_match(s, n1, n2, n3);
        assert(head_match(s, n1, n2));
        assert(tail_segments(s, n1 + n2 + 2, n3));
        assert(head_match(s, n1, n2) && tail_matches(s, n1 + n2 + 2));
    }
    if exists|n1: int, n2: int| head_match(s, n1, n2) && tail_matches(s, n1 + n2 + 2) {
        let (n1, n2) = choose|n1: int, n2: int|
            head_match(s, n1, n2) && tail_matches(s, n1 + n2 + 2);
        let p = n1 + n2 + 2;
        let m = choose|m: int| tail_segments(s, p, m);
        assert(segments_match(s, n1, n2, m));
    }
}

/// Runtime check for `is_digit_char`.
fn is_digit(c: char) -> (r: bool)
    ensures
        r == is_digit_char(c),
{
    let u = c as u32;
    48 <= u && u <= 57
}

/// Runtime check for `is_mid_char`.
fn is_mid(c: char) -> (r: bool)
    ensures
        r == is_mid_char(c),
{
    is_digit(c) || c == 'E' || c == 'U'
}

/// Runtime check for `is_tail_char`.
fn is_tail(c: char) -> (r: bool)
    ensures
        r == is_tail_char(c),
{
    let u = c as u32;
    is_digit(c) || (97 <= u && u <= 122) || c == '/' || c == ','
}

/// Length of the run of digits starting at `from`.
fn digit_run(s: &str, from: usize) -> (r: usize)
    requires
        from <= s@.len(),
    ensures
        from + r <= s@.len(),
        forall|k: int| from <= k < from + r ==> is_digit_char(s@[k]),
        from + r == s@.len() || !is_digit_char(s@[from + r]),
{
    let len = s.unicode_len();
    let mut i: usize = from;
    while i < len && is_digit(s.get_char(i))
        invariant
            from <= i <= len,
            len == s@.len(),
            forall|k: int| from <= k < i ==> is_digit_char(s@[k]),
        decreases len - i,
    {
        i = i + 1;
    }
    i - from
}

/// Length of the run of middle characters starting at `from`.
fn mid_run(s: &str, from: usize) -> (r: usize)
    requires
        from <= s@.len(),
    ensures
        from + r <= s@.len(),
        forall|k: int| from <= k < from + r ==> is_mid_char(s@[k]),
        from + r == s@.len() || !is_mid_char(s@[from + r]),
{
    let len = s.unicode_len();
    let mut i: usize = from;
    while i < len && is_mid(s.get_char(i))
        invariant
            from <= i <= len,
            len == s@.len(),
            forall|k: int| from <= k < i ==> is_mid_char(s@[k]),
        decreases len - i,
    {
        i = i + 1;
    }
    i - from
}

/// Length of the run of tail characters starting at `from`.
fn tail_run(s: &str, from: usize) -> (r: usize)
    requires
        from <= s@.len(),
    ensures
        from + r <= s@.len(),
        forall|k: int| from <= k < from + r ==> is_tail_char(s@[k]),
        from + r == s@.len() || !is_tail_char(s@[from + r]),
{
    let len = s.unicode_len();
    let mut i: usize = from;
    while i < len && is_tail(s.get_char(i))
        invariant
            from <= i <= len,
            len == s@.len(),
            forall|k: int| from <= k < i ==> is_tail_char(s@[k]),
        decreases len - i,
    {
        i = i + 1;
    }
    i - from
}

/// Any digit-run length that a tail decomposition uses is forced: it equals
/// the observed maximal run of digits.
proof fn lemma_tail_forces_run(s: Seq<char>, p: int, m: int, r: int)
    requires
        tail_segments(s, p, m),
        0 <= r,
        p + r <= s.len(),
        forall|k: int| p <= k < p + r ==> is_digit_char(s[k]),
        p + r == s.len() || !is_digit_char(s[p + r]),
    ensures
        m == r,
{
    if m < r {
        assert(is_digit_char(s[p + m]));
        assert(s[p + m] == '-');
        assert(!is_digit_char('-'));
    }
    if m > r {
        assert(is_digit_char(s[p + r]));
    }
}

/// Decides whether the tail of the pattern starts at `p`.
fn check_tail(s: &str, p: usize) -> (r: bool)
    requires
        p <= s@.len(),
    ensures
        r == tail_matches(s@, p as int),
{
    let len = s.unicode_len();
    let m = digit_run(s, p);
    if m >= 1 && p + m < len && s.get_char(p + m) == '-' && p + m + 1 < len {
        let t = tail_run(s, p + m + 1);
        if p + m + 1 + t == len {
            proof {
                assert(tail_segments(s@, p as int, m as int));
            }
            true
        } else {
            proof {
                assert forall|m2: int| !tail_segments(s@, p as int, m2) by {
                    if tail_segments(s@, p as int, m2) {
                        lemma_tail_forces_run(s@, p as int, m2, m as int);
                        assert(is_tail_char(s@[p + m + 1 + t]));
                    }
                }
            }
            false
        }
    } else {
        proof {
            assert forall|m2: int| !tail_segments(s@, p as int, m2) by {
                if tail_segments(s@, p as int, m2) {
                    lemma_tail_forces_run(s@, p as int, m2, m as int);
                }
            }
        }
        false
    }
}

/// Decides whether a label is valid for the catalog: it matches the
/// wall-socket pattern or begins with `MT-`.
pub fn is_valid_label(s: &str) -> (r: bool)
    ensures
        r == valid_label(s@),
{
    let len = s.unicode_len();
    if len >= 3 {
        if s.get_char(0) == 'M' && s.get_char(1) == 'T' && s.get_char(2) == '-' {
            return true;
        }
    }
    if len < 7 {
        proof {
            assert forall|a: int, b: int, c: int| !segments_match(s@, a, b, c) by {}
        }
        return false;
    }
    proof {
        lemma_pattern_decomposition(s@);
    }
    let d0 = digit_run(s, 0);
    let mut n1: usize = 1;
    while n1 <= d0 && n1 <= len - 6
        invariant
            7 <= len,
            1 <= n1 <= len - 5,
            len == s@.len(),
            d0 <= len,
            forall|k: int| 0 <= k < d0 ==> is_digit_char(s@[k]),
            d0 == len || !is_digit_char(s@[d0 as int]),
            forall|a: int, b: int|
                1 <= a < n1 ==> !(head_match(s@, a, b) && tail_matches(s@, a + b + 2)),
        decreases len - n1,
    {
        let w = mid_run(s, n1 + 1);
        let mut n2: usize = 1;
        while n2 <= w && n2 <= len - n1 - 5
            invariant
                7 <= len,
                1 <= n1 <= len - 6,
                1 <= n2 <= len - n1 - 4,
                len == s@.len(),
                forall|k: int| 0 <= k < n1 ==> is_digit_char(s@[k]),
                n1 + 1 + w <= len,
                forall|k: int| n1 + 1 <= k < n1 + 1 + w ==> is_mid_char(s@[k]),
                n1 + 1 + w == len || !is_mid_char(s@[n1 + 1 + w]),
                forall|b: int|
                    1 <= b < n2 ==> !(head_match(s@, n1 as int, b) && tail_matches(
                        s@,
                        n1 + b + 2,
                    )),
            decreases len - n2,
        {
            let p = n1 + n2 + 2;
            if check_tail(s, p) {
                proof {
                    let m = choose|m: int| tail_segments(s@, p as int, m);
                    assert(segments_match(s@, n1 as int, n2 as int, m));
                }
                return true;
            }
            n2 = n2 + 1;
        }
        proof {
            assert forall|b: int|
                !(head_match(s@, n1 as int, b) && tail_matches(s@, n1 + b + 2)) by {
                if head_match(s@, n1 as int, b) && tail_matches(s@, n1 + b + 2) {
                    let p = n1 + b + 2;
                    let m = choose|m: int| tail_segments(s@, p, m);
                    assert(b <= len - n1 - 5);
                    assert(b > w);
                    assert(n1 + 1 + b <= s@.len());
                    assert(n1 + 1 + w < s@.len());
                    assert(is_mid_char(s@[n1 + 1 + w]));
                }
            }
        }
        n1 = n1 + 1;
    }
    proof {
        assert forall|a: int, b: int|
            !(head_match(s@, a, b) && tail_matches(s@, a + b + 2)) by {
            if head_match(s@, a, b) && tail_matches(s@, a + b + 2) && a >= n1 {
                let p = a + b + 2;
                let m = choose|m: int| tail_segments(s@, p, m);
                assert(a <= len - 6);
                assert(a > d0);
                assert(d0 < s@.len());
                assert(is_digit_char(s@[d0 as int]));
            }
        }
    }
    false
}

} // verus!
