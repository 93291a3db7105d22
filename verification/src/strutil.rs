//! Character and string helpers shared by the whole crate: ASCII case
//! folding, case-insensitive comparison, whitespace and dot trimming, and
//! suffix tests, each with an exact specification over `Seq<char>`.

use vstd::prelude::*;

verus! {

/// Relies on `String::push`: appends exactly one character at the end.
pub assume_specification[ String::push ](s: &mut String, c: char)
    ensures
        final(s)@ == old(s)@.push(c),
;

/// Case folding for one ASCII character, as an integer code: uppercase
/// letters map to their lowercase counterpart, everything else is itself.
pub open spec fn lower_code(c: char) -> int {
    if 65 <= c as int && c as int <= 90 {
        c as int + 32
    } else {
        c as int
    }
}

/// Case-insensitive equality of two character sequences (ASCII folding).
pub open spec fn eq_ci(a: Seq<char>, b: Seq<char>) -> bool {
    a.len() == b.len() && forall|i: int| 0 <= i < a.len() ==> lower_code(a[i]) == lower_code(b[i])
}

pub open spec fn is_space(c: char) -> bool {
    c == ' ' || c == '\t' || c == '\n' || c == '\r'
}

/// A control character in the sense of HTTP header fields.
pub open spec fn is_ctl(c: char) -> bool {
    (c as int) < 32 || c as int == 127
}

pub open spec fn is_alpha(c: char) -> bool {
    (65 <= c as int && c as int <= 90) || (97 <= c as int && c as int <= 122)
}

/// Case-insensitive equality of two characters.
pub fn char_eq_ci(a: char, b: char) -> (r: bool)
    ensures
        r == (lower_code(a) == lower_code(b)),
{
    let au = a as u32;
    let bu = b as u32;
    let la = if 65 <= au && au <= 90 { au + 32 } else { au };
    let lb = if 65 <= bu && bu <= 90 { bu + 32 } else { bu };
    la == lb
}

/// Case-insensitive string equality (ASCII folding).
pub fn str_eq_ci(a: &str, b: &str) -> (r: bool)
    ensures
        r == eq_ci(a@, b@),
{
    let alen = a.unicode_len();
    let blen = b.unicode_len();
    if alen != blen {
        return false;
    }
    let mut i: usize = 0;
    while i < alen
        invariant
            0 <= i <= alen,
            alen == a@.len(),
            alen == b@.len(),
            forall|j: int| 0 <= j < i ==> lower_code(a@[j]) == lower_code(b@[j]),
        decreases alen - i,
    {
        if !char_eq_ci(a.get_char(i), b.get_char(i)) {
            return false;
        }
        i = i + 1;
    }
    true
}

/// Exact string equality.
pub fn str_eq(a: &str, b: &str) -> (r: bool)
    ensures
        r == (a@ == b@),
{
    let alen = a.unicode_len();
    let blen = b.unicode_len();
    if alen != blen {
        assert(a@ != b@);
        return false;
    }
    let mut i: usize = 0;
    while i < alen
        invariant
            0 <= i <= alen,
            alen == a@.len(),
            alen == b@.len(),
            forall|j: int| 0 <= j < i ==> a@[j] == b@[j],
        decreases alen - i,
    {
        if a.get_char(i) != b.get_char(i) {
            assert(a@ != b@);
            return false;
        }
        i = i + 1;
    }
    assert(a@ =~= b@);
    true
}

/// Whether `s` ends with `suffix`, as plain sequence equality on the tail.
pub open spec fn ends_with(s: Seq<char>, suffix: Seq<char>) -> bool {
    s.len() >= suffix.len() && s.subrange(s.len() - suffix.len(), s.len() as int) == suffix
}

pub fn str_ends_with(s: &str, suffix: &str) -> (r: bool)
    ensures
        r == ends_with(s@, suffix@),
{
    let slen = s.unicode_len();
    let xlen = suffix.unicode_len();
    if slen < xlen {
        return false;
    }
    let start = slen - xlen;
    let mut i: usize = 0;
    while i < xlen
        invariant
            0 <= i <= xlen,
            slen == s@.len(),
            xlen == suffix@.len(),
            start == slen - xlen,
            forall|j: int| 0 <= j < i ==> s@[start + j] == suffix@[j],
        decreases xlen - i,
    {
        if s.get_char(start + i) != suffix.get_char(i) {
            assert(s@.subrange(start as int, slen as int)[i as int] != suffix@[i as int]);
            return false;
        }
        i = i + 1;
    }
    assert(s@.subrange(start as int, slen as int) =~= suffix@);
    true
}

/// Index of the first character at or after `i` that is not a space.
pub open spec fn skip_spaces(s: Seq<char>, i: int) -> int
    decreases s.len() - i when 0 <= i <= s.len()
{
    if i >= s.len() || !is_space(s[i]) {
        i
    } else {
        skip_spaces(s, i + 1)
    }
}

/// Index just past the last character before `i` that is not a space.
pub open spec fn rskip_spaces(s: Seq<char>, i: int) -> int
    decreases i when 0 <= i <= s.len()
{
    if i <= 0 || !is_space(s[i - 1]) {
        i
    } else {
        rskip_spaces(s, i - 1)
    }
}

/// `s` with leading and trailing whitespace removed.
pub open spec fn trim_spec(s: Seq<char>) -> Seq<char> {
    let a = skip_spaces(s, 0);
    let b = rskip_spaces(s, s.len() as int);
    if a <= b {
        s.subrange(a, b)
    } else {
        Seq::empty()
    }
}

proof fn lemma_skip_spaces_bounds(s: Seq<char>, i: int)
    requires
        0 <= i <= s.len(),
    ensures
        i <= skip_spaces(s, i) <= s.len(),
        forall|j: int| i <= j < skip_spaces(s, i) ==> is_space(s[j]),
    decreases s.len() - i,
{
    if i >= s.len() || !is_space(s[i]) {
    } else {
        lemma_skip_spaces_bounds(s, i + 1);
    }
}

proof fn lemma_rskip_spaces_bounds(s: Seq<char>, i: int)
    requires
        0 <= i <= s.len(),
    ensures
        0 <= rskip_spaces(s, i) <= i,
        forall|j: int| rskip_spaces(s, i) <= j < i ==> is_space(s[j]),
    decreases i,
{
    if i <= 0 || !is_space(s[i - 1]) {
    } else {
        lemma_rskip_spaces_bounds(s, i - 1);
    }
}

/// Copy of `s` with surrounding whitespace removed.
pub fn trim(s: &str) -> (r: String)
    ensures
        r@ == trim_spec(s@),
{
    let n = s.unicode_len();
    let mut a: usize = 0;
    while a < n && is_space_exec(s.get_char(a))
        invariant
            0 <= a <= n,
            n == s@.len(),
            skip_spaces(s@, 0) == skip_spaces(s@, a as int),
        decreases n - a,
    {
        a = a + 1;
    }
    assert(skip_spaces(s@, a as int) == a as int);
    let mut b: usize = n;
    while b > 0 && is_space_exec(s.get_char(b - 1))
        invariant
            0 <= b <= n,
            n == s@.len(),
            rskip_spaces(s@, n as int) == rskip_spaces(s@, b as int),
        decreases b,
    {
        b = b - 1;
    }
    assert(rskip_spaces(s@, b as int) == b as int);
    if a <= b {
        let t = s.substring_char(a, b);
        t.to_owned()
    } else {
        String::new()
    }
}

pub fn is_space_exec(c: char) -> (r: bool)
    ensures
        r == is_space(c),
{
    c == ' ' || c == '\t' || c == '\n' || c == '\r'
}

/// Index of the first character at or after `i` that is not a dot.
pub open spec fn skip_dots(s: Seq<char>, i: int) -> int
    decreases s.len() - i when 0 <= i <= s.len()
{
    if i >= s.len() || s[i] != '.' {
        i
    } else {
        skip_dots(s, i + 1)
    }
}

/// Index just past the last character before `i` that is not a dot.
pub open spec fn rskip_dots(s: Seq<char>, i: int) -> int
    decreases i when 0 <= i <= s.len()
{
    if i <= 0 || s[i - 1] != '.' {
        i
    } else {
        rskip_dots(s, i - 1)
    }
}

pub proof fn lemma_skip_dots_bounds(s: Seq<char>, i: int)
    requires
        0 <= i <= s.len(),
    ensures
        i <= skip_dots(s, i) <= s.len(),
        skip_dots(s, i) < s.len() ==> s[skip_dots(s, i)] != '.',
    decreases s.len() - i,
{
    if i >= s.len() || s[i] != '.' {
    } else {
        lemma_skip_dots_bounds(s, i + 1);
    }
}

pub proof fn lemma_rskip_dots_bounds(s: Seq<char>, i: int)
    requires
        0 <= i <= s.len(),
    ensures
        0 <= rskip_dots(s, i) <= i,
        rskip_dots(s, i) > 0 ==> s[rskip_dots(s, i) - 1] != '.',
    decreases i,
{
    if i <= 0 || s[i - 1] != '.' {
    } else {
        lemma_rskip_dots_bounds(s, i - 1);
    }
}

/// Copy of `s` without its leading dots.
pub fn trim_leading_dots(s: &str) -> (r: String)
    ensures
        r@ == s@.subrange(skip_dots(s@, 0), s@.len() as int),
{
    let n = s.unicode_len();
    let mut a: usize = 0;
    while a < n && s.get_char(a) == '.'
        invariant
            0 <= a <= n,
            n == s@.len(),
            skip_dots(s@, 0) == skip_dots(s@, a as int),
        decreases n - a,
    {
        a = a + 1;
    }
    assert(skip_dots(s@, a as int) == a as int);
    let t = s.substring_char(a, n);
    t.to_owned()
}

/// Copy of `s` without its trailing dots.
pub fn trim_trailing_dots(s: &str) -> (r: String)
    ensures
        r@ == s@.subrange(0, rskip_dots(s@, s@.len() as int)),
{
    let n = s.unicode_len();
    let mut b: usize = n;
    while b > 0 && s.get_char(b - 1) == '.'
        invariant
            0 <= b <= n,
            n == s@.len(),
            rskip_dots(s@, n as int) == rskip_dots(s@, b as int),
        decreases b,
    {
        b = b - 1;
    }
    assert(rskip_dots(s@, b as int) == b as int);
    let t = s.substring_char(0, b);
    t.to_owned()
}

} // verus!
