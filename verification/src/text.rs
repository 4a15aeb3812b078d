//! Verified character-level utilities on `&str`: trimming, prefix tests,
//! equality, searching, and decimal parsing, each against a spec function
//! over `Seq<char>`.

use vstd::prelude::*;
use vstd::string::*;

verus! {

/// The whitespace vocabulary this library trims: the Unicode White_Space
/// set, the same characters `str::trim` removes.
pub open spec fn is_whitespace_char(c: char) -> bool {
    let u = c as u32;
    u == 0x20 || (0x09 <= u <= 0x0D) || u == 0x85 || u == 0xA0 || u == 0x1680 || (0x2000 <= u
        <= 0x200A) || u == 0x2028 || u == 0x2029 || u == 0x202F || u == 0x205F || u == 0x3000
}

/// `s` with leading whitespace removed.
pub open spec fn spec_trim_start(s: Seq<char>) -> Seq<char>
    decreases s.len(),
{
    if s.len() == 0 {
        s
    } else if is_whitespace_char(s[0]) {
        spec_trim_start(s.drop_first())
    } else {
        s
    }
}

/// `s` with trailing whitespace removed.
pub open spec fn spec_trim_end(s: Seq<char>) -> Seq<char>
    decreases s.len(),
{
    if s.len() == 0 {
        s
    } else if is_whitespace_char(s.last()) {
        spec_trim_end(s.drop_last())
    } else {
        s
    }
}

/// `s` with leading and trailing whitespace removed.
pub open spec fn spec_trim(s: Seq<char>) -> Seq<char> {
    spec_trim_end(spec_trim_start(s))
}

proof fn lemma_trim_start_is_subrange(s: Seq<char>, k: int)
    requires
        0 <= k <= s.len(),
        forall|j: int| 0 <= j < k ==> is_whitespace_char(s[j]),
        k < s.len() ==> !is_whitespace_char(s[k]),
    ensures
        spec_trim_start(s) == s.subrange(k, s.len() as int),
    decreases k,
{
    if k == 0 {
        if s.len() == 0 {
            assert(s.subrange(0, 0) =~= s);
        } else {
            assert(s.subrange(0, s.len() as int) =~= s);
        }
    } else {
        assert(is_whitespace_char(s[0]));
        let t = s.drop_first();
        assert(forall|j: int| 0 <= j < k - 1 ==> is_whitespace_char(t[j]));
        lemma_trim_start_is_subrange(t, k - 1);
        assert(t.subrange(k - 1, t.len() as int) =~= s.subrange(k, s.len() as int));
    }
}

proof fn lemma_trim_end_is_subrange(s: Seq<char>, m: int)
    requires
        0 <= m <= s.len(),
        forall|j: int| m <= j < s.len() ==> is_whitespace_char(s[j]),
        m > 0 ==> !is_whitespace_char(s[m - 1]),
    ensures
        spec_trim_end(s) == s.subrange(0, m),
    decreases s.len(),
{
    if m == s.len() {
        if s.len() == 0 {
            assert(s.subrange(0, 0) =~= s);
        } else if is_whitespace_char(s.last()) {
            assert(false);
        } else {
            assert(s.subrange(0, s.len() as int) =~= s);
        }
    } else {
        assert(is_whitespace_char(s.last()));
        let t = s.drop_last();
        assert(forall|j: int| m <= j < t.len() ==> t[j] == s[j] && is_whitespace_char(t[j]));
        lemma_trim_end_is_subrange(t, m);
        assert(t.subrange(0, m) =~= s.subrange(0, m));
    }
}

/// Removes leading and trailing whitespace from `s`.
pub fn trim_str<'a>(s: &'a str) -> (r: &'a str)
    ensures
        r@ == spec_trim(s@),
{
    let n = s.unicode_len();
    let mut a: usize = 0;
    while a < n && is_space_char(s.get_char(a))
        invariant
            n == s@.len(),
            a <= n,
            forall|j: int| 0 <= j < a ==> is_whitespace_char(s@[j]),
        decreases n - a,
    {
        a += 1;
    }
    let mut b: usize = n;
    while b > a && is_space_char(s.get_char(b - 1))
        invariant
            n == s@.len(),
            a <= b <= n,
            forall|j: int| b <= j < n ==> is_whitespace_char(s@[j]),
        decreases b,
    {
        b -= 1;
    }
    proof {
        lemma_trim_start_is_subrange(s@, a as int);
        let t = s@.subrange(a as int, s@.len() as int);
        assert(forall|j: int| b - a <= j < t.len() ==> is_whitespace_char(t[j]));
        lemma_trim_end_is_subrange(t, b - a);
        assert(t.subrange(0, b - a) =~= s@.subrange(a as int, b as int));
    }
    s.substring_char(a, b)
}

/// Whether `c` is one of the whitespace characters this library trims.
pub fn is_space_char(c: char) -> (r: bool)
    ensures
        r == is_whitespace_char(c),
{
    let u = c as u32;
    u == 0x20 || (0x09 <= u && u <= 0x0D) || u == 0x85 || u == 0xA0 || u == 0x1680 || (0x2000 <= u
        && u <= 0x200A) || u == 0x2028 || u == 0x2029 || u == 0x202F || u == 0x205F || u == 0x3000
}

/// Whether every character of `s` is ASCII.
pub open spec fn all_ascii(s: Seq<char>) -> bool {
    forall|j: int| 0 <= j < s.len() ==> (#[trigger] s[j]) as u32 <= 0x7F
}

/// The first character of `s` outside ASCII, if any.
pub open spec fn spec_first_non_ascii(s: Seq<char>) -> Option<char>
    decreases s.len(),
{
    if s.len() == 0 {
        None
    } else if s[0] as u32 > 0x7F {
        Some(s[0])
    } else {
        spec_first_non_ascii(s.drop_first())
    }
}

proof fn lemma_first_non_ascii_at(s: Seq<char>, i: int)
    requires
        0 <= i < s.len(),
        s[i] as u32 > 0x7F,
        forall|j: int| 0 <= j < i ==> (#[trigger] s[j]) as u32 <= 0x7F,
    ensures
        spec_first_non_ascii(s) == Some(s[i]),
    decreases i,
{
    if i > 0 {
        let t = s.drop_first();
        assert(forall|j: int| 0 <= j < i - 1 ==> (#[trigger] t[j]) as u32 <= 0x7F);
        lemma_first_non_ascii_at(t, i - 1);
    }
}

proof fn lemma_first_non_ascii_none(s: Seq<char>)
    requires
        all_ascii(s),
    ensures
        spec_first_non_ascii(s) == None::<char>,
    decreases s.len(),
{
    if s.len() > 0 {
        let t = s.drop_first();
        assert(forall|j: int| 0 <= j < t.len() ==> (#[trigger] t[j]) as u32 <= 0x7F);
        lemma_first_non_ascii_none(t);
    }
}

/// Finds the first character of `s` outside ASCII, if any.
pub fn first_non_ascii(s: &str) -> (r: Option<char>)
    ensures
        r == spec_first_non_ascii(s@),
        r is None ==> all_ascii(s@),
{
    let n = s.unicode_len();
    let mut i: usize = 0;
    while i < n
        invariant
            n == s@.len(),
            i <= n,
            forall|j: int| 0 <= j < i ==> (#[trigger] s@[j]) as u32 <= 0x7F,
        decreases n - i,
    {
        let c = s.get_char(i);
        if c as u32 > 0x7F {
            proof {
                lemma_first_non_ascii_at(s@, i as int);
            }
            return Some(c);
        }
        i += 1;
    }
    proof {
        lemma_first_non_ascii_none(s@);
    }
    None
}

/// Trimming keeps every character of the text, so it keeps `all_ascii`.
pub proof fn lemma_trim_preserves_ascii(s: Seq<char>)
    requires
        all_ascii(s),
    ensures
        all_ascii(spec_trim(s)),
{
    lemma_trim_start_preserves_ascii(s);
    lemma_trim_end_preserves_ascii(spec_trim_start(s));
}

proof fn lemma_trim_start_preserves_ascii(s: Seq<char>)
    requires
        all_ascii(s),
    ensures
        all_ascii(spec_trim_start(s)),
    decreases s.len(),
{
    if s.len() > 0 && is_whitespace_char(s[0]) {
        let t = s.drop_first();
        assert(forall|j: int| 0 <= j < t.len() ==> (#[trigger] t[j]) as u32 <= 0x7F);
        lemma_trim_start_preserves_ascii(t);
    }
}

proof fn lemma_trim_end_preserves_ascii(s: Seq<char>)
    requires
        all_ascii(s),
    ensures
        all_ascii(spec_trim_end(s)),
    decreases s.len(),
{
    if s.len() > 0 && is_whitespace_char(s.last()) {
        let t = s.drop_last();
        assert(forall|j: int| 0 <= j < t.len() ==> (#[trigger] t[j]) as u32 <= 0x7F);
        lemma_trim_end_preserves_ascii(t);
    }
}

/// A trimmed text never ends in a whitespace character.
pub proof fn lemma_trim_last_not_space(s: Seq<char>)
    ensures
        spec_trim(s).len() > 0 ==> !is_whitespace_char(spec_trim(s).last()),
{
    lemma_trim_end_last_not_space(spec_trim_start(s));
}

proof fn lemma_trim_end_last_not_space(s: Seq<char>)
    ensures
        spec_trim_end(s).len() > 0 ==> !is_whitespace_char(spec_trim_end(s).last()),
    decreases s.len(),
{
    if s.len() > 0 && is_whitespace_char(s.last()) {
        lemma_trim_end_last_not_space(s.drop_last());
    }
}

/// Character-for-character string equality.
pub fn str_eq(a: &str, b: &str) -> (r: bool)
    ensures
        r == (a@ == b@),
{
    let na = a.unicode_len();
    let nb = b.unicode_len();
    if na != nb {
        return false;
    }
    let mut i: usize = 0;
    while i < na
        invariant
            na == a@.len(),
            nb == b@.len(),
            na == nb,
            i <= na,
            forall|j: int| 0 <= j < i ==> a@[j] == b@[j],
        decreases na - i,
    {
        if a.get_char(i) != b.get_char(i) {
            return false;
        }
        i += 1;
    }
    proof {
        assert(a@ =~= b@);
    }
    true
}

/// Whether `pre` is a prefix of `s`.
pub open spec fn spec_is_prefix(pre: Seq<char>, s: Seq<char>) -> bool {
    pre.len() <= s.len() && s.subrange(0, pre.len() as int) == pre
}

/// Tests whether `s` starts with `pre`.
pub fn str_starts_with(s: &str, pre: &str) -> (r: bool)
    ensures
        r == spec_is_prefix(pre@, s@),
{
    let n = s.unicode_len();
    let np = pre.unicode_len();
    if np > n {
        return false;
    }
    let mut i: usize = 0;
    while i < np
        invariant
            n == s@.len(),
            np == pre@.len(),
            np <= n,
            i <= np,
            forall|j: int| 0 <= j < i ==> s@[j] == pre@[j],
        decreases np - i,
    {
        if s.get_char(i) != pre.get_char(i) {
            proof {
                assert(s@.subrange(0, pre@.len() as int)[i as int] != pre@[i as int]);
            }
            return false;
        }
        i += 1;
    }
    proof {
        assert(s@.subrange(0, pre@.len() as int) =~= pre@);
    }
    true
}

/// The index of the first occurrence of `c` in `s`, if any.
pub open spec fn spec_find(s: Seq<char>, c: char) -> Option<int>
    decreases s.len(),
{
    if s.len() == 0 {
        None
    } else if s[0] == c {
        Some(0)
    } else {
        match spec_find(s.drop_first(), c) {
            Some(i) => Some(i + 1),
            None => None,
        }
    }
}

proof fn lemma_find_at(s: Seq<char>, c: char, i: int)
    requires
        0 <= i < s.len(),
        s[i] == c,
        forall|j: int| 0 <= j < i ==> s[j] != c,
    ensures
        spec_find(s, c) == Some(i),
    decreases i,
{
    if i == 0 {
    } else {
        let t = s.drop_first();
        assert(forall|j: int| 0 <= j < i - 1 ==> t[j] != c);
        lemma_find_at(t, c, i - 1);
    }
}

proof fn lemma_find_none(s: Seq<char>, c: char)
    requires
        forall|j: int| 0 <= j < s.len() ==> s[j] != c,
    ensures
        spec_find(s, c) == None::<int>,
    decreases s.len(),
{
    if s.len() > 0 {
        lemma_find_none(s.drop_first(), c);
    }
}

/// Finds the first occurrence of `c` in `s`.
pub fn find_char(s: &str, c: char) -> (r: Option<usize>)
    ensures
        spec_find(s@, c) == (match r {
            Some(i) => Some(i as int),
            None => None,
        }),
        r matches Some(i) ==> i < s@.len() && s@[i as int] == c,
{
    let n = s.unicode_len();
    let mut i: usize = 0;
    while i < n
        invariant
            n == s@.len(),
            i <= n,
            forall|j: int| 0 <= j < i ==> s@[j] != c,
        decreases n - i,
    {
        if s.get_char(i) == c {
            proof {
                lemma_find_at(s@, c, i as int);
            }
            return Some(i);
        }
        i += 1;
    }
    proof {
        lemma_find_none(s@, c);
    }
    None
}

/// Whether `c` is a decimal digit.
pub open spec fn is_digit(c: char) -> bool {
    48 <= c as u32 <= 57
}

/// The numeric value of a decimal digit.
pub open spec fn digit_val(c: char) -> int {
    c as u32 - 48
}

/// Whether `s` is a non-empty run of decimal digits.
pub open spec fn all_digits(s: Seq<char>) -> bool {
    forall|j: int| 0 <= j < s.len() ==> is_digit(s[j])
}

/// The value of a run of decimal digits, most significant first.
pub open spec fn spec_digits_val(s: Seq<char>) -> int
    decreases s.len(),
{
    if s.len() == 0 {
        0
    } else {
        spec_digits_val(s.drop_last()) * 10 + digit_val(s.last())
    }
}

/// Parsing `s` as a non-negative decimal integer: it succeeds exactly on a
/// non-empty digit run whose value fits in `usize`.
pub open spec fn spec_parse_usize(s: Seq<char>) -> Option<usize> {
    if s.len() == 0 || !all_digits(s) {
        None
    } else if spec_digits_val(s) > usize::MAX {
        None
    } else {
        Some(spec_digits_val(s) as usize)
    }
}

proof fn lemma_digits_val_nonneg(s: Seq<char>)
    requires
        all_digits(s),
    ensures
        spec_digits_val(s) >= 0,
    decreases s.len(),
{
    if s.len() > 0 {
        let t = s.drop_last();
        assert(forall|j: int| 0 <= j < t.len() ==> is_digit(t[j]));
        lemma_digits_val_nonneg(t);
    }
}

proof fn lemma_digits_val_prefix_le(s: Seq<char>, k: int)
    requires
        all_digits(s),
        0 <= k <= s.len(),
    ensures
        spec_digits_val(s.subrange(0, k)) <= spec_digits_val(s),
    decreases s.len(),
{
    if k == s.len() {
        assert(s.subrange(0, k) =~= s);
    } else {
        let t = s.drop_last();
        assert(forall|j: int| 0 <= j < t.len() ==> is_digit(t[j]));
        lemma_digits_val_prefix_le(t, k);
        assert(t.subrange(0, k) =~= s.subrange(0, k));
        lemma_digits_val_nonneg(t);
        assert(spec_digits_val(s) == spec_digits_val(t) * 10 + digit_val(s.last()));
        assert(spec_digits_val(t) * 10 >= spec_digits_val(t)) by (nonlinear_arith)
            requires
                spec_digits_val(t) >= 0,
        ;
    }
}

/// Parses `s` as a non-negative decimal integer: digits only, no sign, and
/// the value must fit in `usize`.
pub fn parse_usize_digits(s: &str) -> (r: Option<usize>)
    ensures
        r == spec_parse_usize(s@),
{
    let n = s.unicode_len();
    if n == 0 {
        return None;
    }
    let mut acc: usize = 0;
    let mut i: usize = 0;
    while i < n
        invariant
            n == s@.len(),
            0 < n,
            i <= n,
            forall|j: int| 0 <= j < i ==> is_digit(s@[j]),
            acc == spec_digits_val(s@.subrange(0, i as int)),
        decreases n - i,
    {
        let c = s.get_char(i);
        let u = c as u32;
        if u < 48 || u > 57 {
            return None;
        }
        let d = (u - 48) as usize;
        proof {
            assert(s@.subrange(0, i + 1 as int).drop_last() =~= s@.subrange(0, i as int));
            assert(s@.subrange(0, i + 1 as int).last() == s@[i as int]);
        }
        let next = match acc.checked_mul(10) {
            Some(x) => x.checked_add(d),
            None => None,
        };
        match next {
            Some(x) => {
                acc = x;
            },
            None => {
                proof {
                    if all_digits(s@) {
                        lemma_digits_val_prefix_le(s@, i + 1);
                        lemma_digits_val_nonneg(s@.subrange(0, i as int));
                    }
                }
                return None;
            },
        }
        i += 1;
    }
    proof {
        assert(s@.subrange(0, n as int) =~= s@);
    }
    Some(acc)
}

} // verus!
