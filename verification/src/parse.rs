//! Character-level helpers shared by the connection-string parsers and the
//! placeholder scanner: first-occurrence search, case-insensitive comparison,
//! and decimal digit runs.

use vstd::prelude::*;
use vstd::string::StrSliceExecFns;

verus! {

/// The ASCII code of a character with upper-case letters folded to lower case.
pub open spec fn lower_code(c: char) -> u32 {
    if 65 <= c as u32 && c as u32 <= 90 {
        (c as u32 + 32) as u32
    } else {
        c as u32
    }
}

/// Case-insensitive (ASCII) equality of two character sequences.
pub open spec fn eq_ignore_case(a: Seq<char>, b: Seq<char>) -> bool {
    a.len() == b.len() && forall|i: int| 0 <= i < a.len() ==> lower_code(a[i]) == lower_code(b[i])
}

/// The first position at or after `from` where `c` stands; `s.len()` if none.
pub open spec fn find_from(s: Seq<char>, c: char, from: int) -> int
    decreases s.len() - from,
{
    if from < 0 || from >= s.len() {
        s.len() as int
    } else if s[from] == c {
        from
    } else {
        find_from(s, c, from + 1)
    }
}

/// `find_from` names the first occurrence: it lies in `[from, s.len()]`,
/// points at `c` when it is short of the end, and nothing before it is `c`.
pub proof fn lemma_find_from(s: Seq<char>, c: char, from: int)
    requires
        0 <= from <= s.len(),
    ensures
        from <= find_from(s, c, from) <= s.len(),
        find_from(s, c, from) < s.len() ==> s[find_from(s, c, from)] == c,
        forall|k: int| from <= k < find_from(s, c, from) ==> s[k] != c,
    decreases s.len() - from,
{
    if from < s.len() && s[from] != c {
        lemma_find_from(s, c, from + 1);
    }
}

/// Any position with the first-occurrence properties is `find_from`.
pub proof fn lemma_find_from_unique(s: Seq<char>, c: char, from: int, r: int)
    requires
        0 <= from <= s.len(),
        from <= r <= s.len(),
        r < s.len() ==> s[r] == c,
        forall|k: int| from <= k < r ==> s[k] != c,
    ensures
        find_from(s, c, from) == r,
{
    lemma_find_from(s, c, from);
    let f = find_from(s, c, from);
    if f < r {
        assert(s[f] == c);
        assert(s[f] != c);
    }
    if r < f {
        assert(s[r] == c);
        assert(s[r] != c);
    }
}

/// Whether `c` is a decimal digit.
pub open spec fn is_digit(c: char) -> bool {
    48 <= c as u32 && c as u32 <= 57
}

/// The value of a digit, zero for anything else.
pub open spec fn digit_val(c: char) -> nat {
    if is_digit(c) {
        (c as u32 - 48) as nat
    } else {
        0
    }
}

/// Whether every character of `s` is a decimal digit.
pub open spec fn all_digits(s: Seq<char>) -> bool {
    forall|i: int| 0 <= i < s.len() ==> is_digit(s[i])
}

/// The number a digit sequence denotes, most significant digit first.
pub open spec fn dec_val(s: Seq<char>) -> nat
    decreases s.len(),
{
    if s.len() == 0 {
        0
    } else {
        dec_val(s.drop_last()) * 10 + digit_val(s.last())
    }
}

/// Finds the first `c` inside the window `[from, end)` of `s`, reporting
/// `end` when the window holds none.
pub fn find_char(s: &str, c: char, from: usize, end: usize) -> (r: usize)
    requires
        from <= end <= s@.len(),
    ensures
        from <= r <= end,
        r < end ==> s@[r as int] == c,
        forall|k: int| from <= k < r ==> s@[k] != c,
{
    let mut i: usize = from;
    while i < end
        invariant
            from <= i <= end <= s@.len(),
            forall|k: int| from <= k < i ==> s@[k] != c,
        decreases end - i,
    {
        if s.get_char(i) == c {
            return i;
        }
        i = i + 1;
    }
    i
}

/// Compares the window `[from, end)` of `s` with `key`, ignoring ASCII case.
pub fn window_matches_key(s: &str, from: usize, end: usize, key: &str) -> (r: bool)
    requires
        from <= end <= s@.len(),
    ensures
        r == eq_ignore_case(s@.subrange(from as int, end as int), key@),
{
    let key_len = key.unicode_len();
    if end - from != key_len {
        assert(!eq_ignore_case(s@.subrange(from as int, end as int), key@));
        return false;
    }
    let mut i: usize = 0;
    while i < key_len
        invariant
            0 <= i <= key_len,
            key_len == key@.len(),
            from + key_len == end,
            end <= s@.len(),
            forall|k: int|
                0 <= k < i ==> lower_code(s@.subrange(from as int, end as int)[k]) == lower_code(
                    key@[k],
                ),
        decreases key_len - i,
    {
        let a = s.get_char(from + i);
        let b = key.get_char(i);
        let ua = a as u32;
        let ub = b as u32;
        let la = if 65 <= ua && ua <= 90 {
            ua + 32
        } else {
            ua
        };
        let lb = if 65 <= ub && ub <= 90 {
            ub + 32
        } else {
            ub
        };
        if la != lb {
            assert(s@.subrange(from as int, end as int)[i as int] == a);
            assert(!eq_ignore_case(s@.subrange(from as int, end as int), key@));
            return false;
        }
        assert(lower_code(s@.subrange(from as int, end as int)[i as int])
            == lower_code(key@[i as int]));
        i = i + 1;
    }
    true
}

/// Compares the window `[from, end)` of `s` with `lit`, exactly.
pub fn window_equals(s: &str, from: usize, end: usize, lit: &str) -> (r: bool)
    requires
        from <= end <= s@.len(),
    ensures
        r == (s@.subrange(from as int, end as int) == lit@),
{
    let lit_len = lit.unicode_len();
    if end - from != lit_len {
        assert(s@.subrange(from as int, end as int).len() != lit@.len());
        return false;
    }
    let mut i: usize = 0;
    while i < lit_len
        invariant
            0 <= i <= lit_len,
            lit_len == lit@.len(),
            from + lit_len == end,
            end <= s@.len(),
            forall|k: int| 0 <= k < i ==> s@.subrange(from as int, end as int)[k] == lit@[k],
        decreases lit_len - i,
    {
        let a = s.get_char(from + i);
        let b = lit.get_char(i);
        if a != b {
            assert(s@.subrange(from as int, end as int)[i as int] == a);
            return false;
        }
        assert(s@.subrange(from as int, end as int)[i as int] == lit@[i as int]);
        i = i + 1;
    }
    assert(s@.subrange(from as int, end as int) =~= lit@);
    true
}

/// Reads the window `[from, end)` of `s` as a decimal port number.
///
/// Succeeds exactly when the window is a nonempty digit run whose value fits
/// a sixteen-bit port.
pub fn parse_port(s: &str, from: usize, end: usize) -> (r: Option<u16>)
    requires
        from <= end <= s@.len(),
    ensures
        ({
            let t = s@.subrange(from as int, end as int);
            if t.len() > 0 && all_digits(t) && dec_val(t) <= 65535 {
                r matches Some(p) && p as nat == dec_val(t)
            } else {
                r is None
            }
        }),
{
    let ghost t = s@.subrange(from as int, end as int);
    if from == end {
        return None;
    }
    let mut acc: u32 = 0;
    let mut i: usize = from;
    while i < end
        invariant
            from <= i <= end <= s@.len(),
            t == s@.subrange(from as int, end as int),
            forall|k: int| 0 <= k < i - from ==> is_digit(t[k]),
            acc <= 65536,
            acc <= 65535 ==> acc as nat == dec_val(t.take(i - from)),
            acc == 65536 ==> dec_val(t.take(i - from)) > 65535,
        decreases end - i,
    {
        let c = s.get_char(i);
        let u = c as u32;
        if !(48 <= u && u <= 57) {
            assert(t[i - from] == c);
            assert(!all_digits(t));
            return None;
        }
        let d = u - 48;
        let ghost pref = t.take(i - from);
        let ghost pref2 = t.take(i + 1 - from);
        proof {
            assert(t[i - from] == c);
            assert(pref2.drop_last() =~= pref);
            assert(pref2.last() == c);
            assert(dec_val(pref2) == dec_val(pref) * 10 + digit_val(c));
        }
        let next = acc * 10 + d;
        if next > 65535 {
            proof {
                if acc == 65536 {
                    assert(dec_val(pref) > 65535);
                    assert(dec_val(pref) * 10 + digit_val(c) > 65535);
                }
            }
            acc = 65536;
        } else {
            acc = next;
        }
        i = i + 1;
    }
    proof {
        assert(t.take(end - from) =~= t);
    }
    if acc > 65535 {
        return None;
    }
    Some(acc as u16)
}

} // verus!
