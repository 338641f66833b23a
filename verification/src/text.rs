//! Character classes, whitespace trimming and decimal rendering.

use vstd::prelude::*;

verus! {

/// A decimal digit `'0'..='9'`.
pub open spec fn is_digit_char(c: char) -> bool {
    48 <= c as u32 && c as u32 <= 57
}

/// A character with the Unicode `White_Space` property, the set that
/// surrounding-whitespace trimming removes.
pub open spec fn is_space_char(c: char) -> bool {
    let u = c as u32;
    (9 <= u && u <= 13) || u == 32 || u == 133 || u == 160 || u == 5760 || (8192 <= u && u
        <= 8202) || u == 8232 || u == 8233 || u == 8239 || u == 8287 || u == 12288
}

/// Runtime check for `is_space_char`.
pub fn is_space(c: char) -> (r: bool)
    ensures
        r == is_space_char(c),
{
    let u = c as u32;
    (9 <= u && u <= 13) || u == 32 || u == 133 || u == 160 || u == 5760 || (8192 <= u && u
        <= 8202) || u == 8232 || u == 8233 || u == 8239 || u == 8287 || u == 12288
}

/// The sequence with its leading whitespace removed.
pub open spec fn trim_front(s: Seq<char>) -> Seq<char>
    decreases s.len(),
{
    if s.len() > 0 && is_space_char(s[0]) {
        trim_front(s.drop_first())
    } else {
        s
    }
}

/// The sequence with its trailing whitespace removed.
pub open spec fn trim_back(s: Seq<char>) -> Seq<char>
    decreases s.len(),
{
    if s.len() > 0 && is_space_char(s[s.len() - 1]) {
        trim_back(s.drop_last())
    } else {
        s
    }
}

/// The sequence with both leading and trailing whitespace removed.
pub open spec fn trimmed(s: Seq<char>) -> Seq<char> {
    trim_back(trim_front(s))
}

/// When every character before `i` is whitespace and the one at `i` (if any)
/// is not, trimming the front keeps exactly the suffix from `i` on.
proof fn lemma_trim_front_subrange(s: Seq<char>, i: int)
    requires
        0 <= i <= s.len(),
        forall|k: int| 0 <= k < i ==> is_space_char(s[k]),
        i == s.len() || !is_space_char(s[i]),
    ensures
        trim_front(s) == s.subrange(i, s.len() as int),
    decreases i,
{
    if i == 0 {
        assert(s.subrange(0, s.len() as int) =~= s);
    } else {
        assert(is_space_char(s[0]));
        lemma_trim_front_subrange(s.drop_first(), i - 1);
        assert(s.drop_first().subrange(i - 1, s.drop_first().len() as int) =~= s.subrange(
            i,
            s.len() as int,
        ));
    }
}

/// When every character from `j` on is whitespace and the one just before `j`
/// (if any) is not, trimming the back keeps exactly the prefix up to `j`.
proof fn lemma_trim_back_subrange(s: Seq<char>, j: int)
    requires
        0 <= j <= s.len(),
        forall|k: int| j <= k < s.len() ==> is_space_char(s[k]),
        j == 0 || !is_space_char(s[j - 1]),
    ensures
        trim_back(s) == s.subrange(0, j),
    decreases s.len(),
{
    if j == s.len() {
        if s.len() > 0 && is_space_char(s[s.len() - 1]) {
            assert(false);
        }
        assert(s.subrange(0, s.len() as int) =~= s);
    } else {
        assert(is_space_char(s[s.len() - 1]));
        lemma_trim_back_subrange(s.drop_last(), j);
        assert(s.drop_last().subrange(0, j) =~= s.subrange(0, j));
    }
}

/// Returns the input with surrounding whitespace removed, as the resolver
/// normalizes an operator-entered label.
pub fn trim_label(s: &str) -> (r: String)
    ensures
        r@ == trimmed(s@),
{
    let len = s.unicode_len();
    let mut i: usize = 0;
    while i < len && is_space(s.get_char(i))
        invariant
            0 <= i <= len,
            len == s@.len(),
            forall|k: int| 0 <= k < i ==> is_space_char(s@[k]),
        decreases len - i,
    {
        i = i + 1;
    }
    let mut j: usize = len;
    while j > i && is_space(s.get_char(j - 1))
        invariant
            i <= j <= len,
            len == s@.len(),
            forall|k: int| j <= k < len ==> is_space_char(s@[k]),
        decreases j,
    {
        j = j - 1;
    }
    proof {
        lemma_trim_front_subrange(s@, i as int);
        let sub = s@.subrange(i as int, len as int);
        lemma_trim_back_subrange(sub, j - i);
        assert(sub.subrange(0, j - i) =~= s@.subrange(i as int, j as int));
    }
    let t = s.substring_char(i, j);
    String::from_str(t)
}

/// Returns the input with trailing whitespace removed, the normalization the
/// line-prompt front end applies before checking for an empty entry.
pub fn trim_trailing(s: &str) -> (r: String)
    ensures
        r@ == trim_back(s@),
{
    let len = s.unicode_len();
    let mut j: usize = len;
    while j > 0 && is_space(s.get_char(j - 1))
        invariant
            0 <= j <= len,
            len == s@.len(),
            forall|k: int| j <= k < len ==> is_space_char(s@[k]),
        decreases j,
    {
        j = j - 1;
    }
    proof {
        lemma_trim_back_subrange(s@, j as int);
    }
    let t = s.substring_char(0, j);
    String::from_str(t)
}

/// A sequence of whitespace trims to nothing from the front.
proof fn lemma_trim_front_all_space(s: Seq<char>)
    requires
        forall|k: int| 0 <= k < s.len() ==> is_space_char(s[k]),
    ensures
        trim_front(s) == Seq::<char>::empty(),
    decreases s.len(),
{
    if s.len() == 0 {
        assert(s =~= Seq::<char>::empty());
    } else {
        lemma_trim_front_all_space(s.drop_first());
    }
}

/// Conversely, a sequence that trims to nothing from the front was all
/// whitespace.
proof fn lemma_trim_front_empty_all_space(s: Seq<char>)
    requires
        trim_front(s) == Seq::<char>::empty(),
    ensures
        forall|k: int| 0 <= k < s.len() ==> is_space_char(s[k]),
    decreases s.len(),
{
    if s.len() > 0 && is_space_char(s[0]) {
        lemma_trim_front_empty_all_space(s.drop_first());
        assert forall|k: int| 0 <= k < s.len() implies is_space_char(s[k]) by {
            if k > 0 {
                assert(s.drop_first()[k - 1] == s[k]);
            }
        }
    }
}

/// Leading whitespace in front of any tail is discarded whole.
proof fn lemma_trim_front_skips(pre: Seq<char>, t: Seq<char>)
    requires
        forall|k: int| 0 <= k < pre.len() ==> is_space_char(pre[k]),
    ensures
        trim_front(pre + t) == trim_front(t),
    decreases pre.len(),
{
    if pre.len() == 0 {
        assert(pre + t =~= t);
    } else {
        assert((pre + t)[0] == pre[0]);
        assert((pre + t).drop_first() =~= pre.drop_first() + t);
        lemma_trim_front_skips(pre.drop_first(), t);
    }
}

/// Trailing whitespace after any head is discarded whole.
proof fn lemma_trim_back_skips(t: Seq<char>, suf: Seq<char>)
    requires
        forall|k: int| 0 <= k < suf.len() ==> is_space_char(suf[k]),
    ensures
        trim_back(t + suf) == trim_back(t),
    decreases suf.len(),
{
    if suf.len() == 0 {
        assert(t + suf =~= t);
    } else {
        assert((t + suf)[(t + suf).len() - 1] == suf[suf.len() - 1]);
        assert((t + suf).drop_last() =~= t + suf.drop_last());
        lemma_trim_back_skips(t, suf.drop_last());
    }
}

/// Trimming the front commutes with appending a suffix, as long as the head
/// does not trim away entirely.
proof fn lemma_trim_front_append(s: Seq<char>, suf: Seq<char>)
    requires
        trim_front(s).len() > 0,
    ensures
        trim_front(s + suf) == trim_front(s) + suf,
    decreases s.len(),
{
    if s.len() > 0 && is_space_char(s[0]) {
        assert((s + suf)[0] == s[0]);
        assert((s + suf).drop_first() =~= s.drop_first() + suf);
        lemma_trim_front_append(s.drop_first(), suf);
    } else {
        assert(s.len() > 0);
        assert((s + suf)[0] == s[0]);
    }
}

/// Surrounding whitespace never changes what a label trims to: padding a
/// label with leading and trailing whitespace leaves `trimmed` unchanged.
pub proof fn lemma_trim_ignores_padding(pre: Seq<char>, s: Seq<char>, suf: Seq<char>)
    requires
        forall|k: int| 0 <= k < pre.len() ==> is_space_char(pre[k]),
        forall|k: int| 0 <= k < suf.len() ==> is_space_char(suf[k]),
    ensures
        trimmed(pre + s + suf) == trimmed(s),
{
    assert(pre + s + suf =~= pre + (s + suf));
    lemma_trim_front_skips(pre, s + suf);
    if trim_front(s).len() > 0 {
        lemma_trim_front_append(s, suf);
        lemma_trim_back_skips(trim_front(s), suf);
    } else {
        assert(trim_front(s) =~= Seq::<char>::empty());
        lemma_trim_front_empty_all_space(s);
        lemma_trim_front_skips(s, suf);
        lemma_trim_front_all_space(suf);
    }
}

/// The decimal digit character for a value below ten.
pub open spec fn digit_char(d: int) -> char {
    if d == 0 {
        '0'
    } else if d == 1 {
        '1'
    } else if d == 2 {
        '2'
    } else if d == 3 {
        '3'
    } else if d == 4 {
        '4'
    } else if d == 5 {
        '5'
    } else if d == 6 {
        '6'
    } else if d == 7 {
        '7'
    } else if d == 8 {
        '8'
    } else {
        '9'
    }
}

/// The decimal rendering of a nonnegative value, most significant digit
/// first, with no leading zeros (a lone zero for zero).
pub open spec fn dec_str(n: nat) -> Seq<char>
    decreases n,
{
    if n < 10 {
        seq![digit_char(n as int)]
    } else {
        dec_str(n / 10) + seq![digit_char((n % 10) as int)]
    }
}

/// The decimal rendering of an integer, with a leading minus sign when it is
/// negative.
pub open spec fn int_str(n: int) -> Seq<char> {
    if n < 0 {
        seq!['-'] + dec_str((-n) as nat)
    } else {
        dec_str(n as nat)
    }
}

/// The one-character string for a decimal digit.
fn digit_str(d: u32) -> (r: &'static str)
    requires
        d < 10,
    ensures
        r@ == seq![digit_char(d as int)],
{
    if d == 0 {
        proof {
            reveal_strlit("0");
        }
        assert("0"@ =~= seq![digit_char(0)]);
        "0"
    } else if d == 1 {
        proof {
            reveal_strlit("1");
        }
        assert("1"@ =~= seq![digit_char(1)]);
        "1"
    } else if d == 2 {
        proof {
            reveal_strlit("2");
        }
        assert("2"@ =~= seq![digit_char(2)]);
        "2"
    } else if d == 3 {
        proof {
            reveal_strlit("3");
        }
        assert("3"@ =~= seq![digit_char(3)]);
        "3"
    } else if d == 4 {
        proof {
            reveal_strlit("4");
        }
        assert("4"@ =~= seq![digit_char(4)]);
        "4"
    } else if d == 5 {
        proof {
            reveal_strlit("5");
        }
        assert("5"@ =~= seq![digit_char(5)]);
        "5"
    } else if d == 6 {
        proof {
            reveal_strlit("6");
        }
        assert("6"@ =~= seq![digit_char(6)]);
        "6"
    } else if d == 7 {
        proof {
            reveal_strlit("7");
        }
        assert("7"@ =~= seq![digit_char(7)]);
        "7"
    } else if d == 8 {
        proof {
            reveal_strlit("8");
        }
        assert("8"@ =~= seq![digit_char(8)]);
        "8"
    } else {
        proof {
            reveal_strlit("9");
        }
        assert("9"@ =~= seq![digit_char(9)]);
        "9"
    }
}

/// Renders a nonnegative value in decimal.
fn u32_to_string(n: u32) -> (r: String)
    ensures
        r@ == dec_str(n as nat),
    decreases n,
{
    if n < 10 {
        let r = String::from_str(digit_str(n));
        proof {
            assert(r@ =~= dec_str(n as nat));
        }
        r
    } else {
        let mut r = u32_to_string(n / 10);
        r.append(digit_str(n % 10));
        proof {
            assert(r@ =~= dec_str(n as nat));
        }
        r
    }
}

/// Renders a device identifier in decimal, as front ends splice it into a
/// display URL.
pub fn i32_to_string(n: i32) -> (r: String)
    ensures
        r@ == int_str(n as int),
{
    if n < 0 {
        let magnitude: u32 = (-(n as i64)) as u32;
        let mut r = String::from_str("-");
        proof {
            reveal_strlit("-");
            assert("-"@ =~= seq!['-']);
        }
        r.append(u32_to_string(magnitude).as_str());
        proof {
            assert(r@ =~= int_str(n as int));
        }
        r
    } else {
        u32_to_string(n as u32)
    }
}

} // verus!
