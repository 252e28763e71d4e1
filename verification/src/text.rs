//! Character-level text utilities: scanning runs of characters, finding
//! substrings, and reading unsigned decimal numbers.

use vstd::prelude::*;
use vstd::string::*;

verus! {

/// ASCII word characters: letters, decimal digits and the underscore.
pub open spec fn is_word_char(c: char) -> bool {
    ('a' <= c && c <= 'z') || ('A' <= c && c <= 'Z') || ('0' <= c && c <= '9') || c == '_'
}

/// ASCII decimal digits.
pub open spec fn is_digit_char(c: char) -> bool {
    '0' <= c && c <= '9'
}

pub fn word_char(c: char) -> (b: bool)
    ensures
        b == is_word_char(c),
{
    ('a' <= c && c <= 'z') || ('A' <= c && c <= 'Z') || ('0' <= c && c <= '9') || c == '_'
}

pub fn digit_char(c: char) -> (b: bool)
    ensures
        b == is_digit_char(c),
{
    '0' <= c && c <= '9'
}

/// The characters of `s`, in order, as a vector.
pub fn str_to_chars(s: &str) -> (r: Vec<char>)
    ensures
        r@ == s@,
{
    let n = s.unicode_len();
    let mut r: Vec<char> = Vec::new();
    let mut i: usize = 0;
    while i < n
        invariant
            i <= n,
            n == s@.len(),
            r@ == s@.subrange(0, i as int),
        decreases n - i,
    {
        r.push(s.get_char(i));
        i = i + 1;
        proof {
            assert(r@ =~= s@.subrange(0, i as int));
        }
    }
    proof {
        assert(r@ =~= s@);
    }
    r
}

pub fn chars_eq(a: &Vec<char>, b: &Vec<char>) -> (r: bool)
    ensures
        r == (a@ == b@),
{
    if a.len() != b.len() {
        return false;
    }
    let mut i: usize = 0;
    while i < a.len()
        invariant
            i <= a@.len(),
            a@.len() == b@.len(),
            forall|j: int| 0 <= j < i ==> a@[j] == b@[j],
        decreases a@.len() - i,
    {
        if a[i] != b[i] {
            return false;
        }
        i = i + 1;
    }
    proof {
        assert(a@ =~= b@);
    }
    true
}

/// The pattern `pat` occurs in `s` starting at position `i`.
pub open spec fn starts_with_at(s: Seq<char>, pat: Seq<char>, i: int) -> bool {
    0 <= i && i + pat.len() <= s.len() && s.subrange(i, i + pat.len()) == pat
}

pub fn match_at(v: &Vec<char>, pat: &Vec<char>, i: usize) -> (b: bool)
    requires
        i + pat@.len() <= v@.len(),
    ensures
        b == starts_with_at(v@, pat@, i as int),
{
    let n = v.len();
    let mut k: usize = 0;
    while k < pat.len()
        invariant
            k <= pat@.len(),
            i + pat@.len() <= v@.len(),
            n == v@.len(),
            forall|j: int| 0 <= j < k ==> v@[i + j] == pat@[j],
        decreases pat@.len() - k,
    {
        if v[i + k] != pat[k] {
            proof {
                assert(v@.subrange(i as int, i + pat@.len())[k as int] == v@[i + k]);
            }
            return false;
        }
        k = k + 1;
    }
    proof {
        assert(v@.subrange(i as int, i + pat@.len()) =~= pat@);
    }
    true
}

/// The first position at or after `from` where `pat` occurs in `s`.
pub open spec fn find_from(s: Seq<char>, pat: Seq<char>, from: int) -> Option<int>
    decreases s.len() - from,
{
    if from < 0 || from > s.len() {
        None
    } else if starts_with_at(s, pat, from) {
        Some(from)
    } else if from == s.len() {
        None
    } else {
        find_from(s, pat, from + 1)
    }
}

proof fn lemma_find_from_none_past_fit(s: Seq<char>, pat: Seq<char>, from: int)
    requires
        from + pat.len() > s.len(),
    ensures
        find_from(s, pat, from) is None,
    decreases s.len() - from,
{
    if 0 <= from <= s.len() && from < s.len() {
        lemma_find_from_none_past_fit(s, pat, from + 1);
    }
}

pub fn find_in(v: &Vec<char>, pat: &Vec<char>, from: usize) -> (r: Option<usize>)
    ensures
        match r {
            Some(i) => find_from(v@, pat@, from as int) == Some(i as int) && from <= i && i
                <= v@.len() && starts_with_at(v@, pat@, i as int),
            None => find_from(v@, pat@, from as int) is None,
        },
{
    if from > v.len() {
        return None;
    }
    if pat.len() == 0 {
        proof {
            assert(v@.subrange(from as int, from as int) =~= pat@);
        }
        return Some(from);
    }
    if pat.len() > v.len() {
        proof {
            lemma_find_from_none_past_fit(v@, pat@, from as int);
        }
        return None;
    }
    let mut i: usize = from;
    while i <= v.len() - pat.len()
        invariant
            from <= i <= v@.len(),
            pat@.len() >= 1,
            pat@.len() <= v@.len(),
            find_from(v@, pat@, from as int) == find_from(v@, pat@, i as int),
        decreases v@.len() - i,
    {
        if match_at(v, pat, i) {
            return Some(i);
        }
        i = i + 1;
    }
    proof {
        lemma_find_from_none_past_fit(v@, pat@, i as int);
    }
    None
}

/// Length of the run of word characters starting at position `i`.
pub open spec fn word_run_len(s: Seq<char>, i: int) -> int
    decreases s.len() - i,
{
    if i < 0 || i >= s.len() || !is_word_char(s[i]) {
        0
    } else {
        1 + word_run_len(s, i + 1)
    }
}

/// Length of the run of decimal digits starting at position `i`.
pub open spec fn digit_run_len(s: Seq<char>, i: int) -> int
    decreases s.len() - i,
{
    if i < 0 || i >= s.len() || !is_digit_char(s[i]) {
        0
    } else {
        1 + digit_run_len(s, i + 1)
    }
}

/// Length of the run of space characters starting at position `i`.
pub open spec fn space_run_len(s: Seq<char>, i: int) -> int
    decreases s.len() - i,
{
    if i < 0 || i >= s.len() || s[i] != ' ' {
        0
    } else {
        1 + space_run_len(s, i + 1)
    }
}

pub fn word_run_at(v: &Vec<char>, i: usize) -> (n: usize)
    requires
        i <= v@.len(),
    ensures
        n == word_run_len(v@, i as int),
        i + n <= v@.len(),
{
    let mut j: usize = i;
    while j < v.len() && word_char(v[j])
        invariant
            i <= j <= v@.len(),
            word_run_len(v@, i as int) == j - i + word_run_len(v@, j as int),
        decreases v@.len() - j,
    {
        j = j + 1;
    }
    j - i
}

pub fn digit_run_at(v: &Vec<char>, i: usize) -> (n: usize)
    requires
        i <= v@.len(),
    ensures
        n == digit_run_len(v@, i as int),
        i + n <= v@.len(),
{
    let mut j: usize = i;
    while j < v.len() && digit_char(v[j])
        invariant
            i <= j <= v@.len(),
            digit_run_len(v@, i as int) == j - i + digit_run_len(v@, j as int),
        decreases v@.len() - j,
    {
        j = j + 1;
    }
    j - i
}

pub fn space_run_at(v: &Vec<char>, i: usize) -> (n: usize)
    requires
        i <= v@.len(),
    ensures
        n == space_run_len(v@, i as int),
        i + n <= v@.len(),
{
    let mut j: usize = i;
    while j < v.len() && v[j] == ' '
        invariant
            i <= j <= v@.len(),
            space_run_len(v@, i as int) == j - i + space_run_len(v@, j as int),
        decreases v@.len() - j,
    {
        j = j + 1;
    }
    j - i
}

pub proof fn lemma_digit_run_chars(s: Seq<char>, i: int)
    ensures
        forall|j: int| i <= j < i + digit_run_len(s, i) ==> is_digit_char(#[trigger] s[j]),
    decreases s.len() - i,
{
    if !(i < 0 || i >= s.len() || !is_digit_char(s[i])) {
        lemma_digit_run_chars(s, i + 1);
    }
}

/// Numeric value of a digit character.
pub open spec fn digit_val(c: char) -> int {
    c as int - 48
}

/// Value of a string of decimal digits, most significant first.
pub open spec fn digits_val(s: Seq<char>) -> int
    decreases s.len(),
{
    if s.len() == 0 {
        0
    } else {
        digits_val(s.drop_last()) * 10 + digit_val(s.last())
    }
}

pub proof fn lemma_digits_val_nonneg(s: Seq<char>)
    requires
        forall|j: int| 0 <= j < s.len() ==> is_digit_char(#[trigger] s[j]),
    ensures
        digits_val(s) >= 0,
    decreases s.len(),
{
    if s.len() > 0 {
        lemma_digits_val_nonneg(s.drop_last());
    }
}

/// Reads the digit run `v[start .. start + len]` as a `u32`; `None` when the
/// value does not fit.
pub fn parse_digits(v: &Vec<char>, start: usize, len: usize) -> (r: Option<u32>)
    requires
        start + len <= v@.len(),
        forall|j: int| start <= j < start + len ==> is_digit_char(#[trigger] v@[j]),
    ensures
        match r {
            Some(x) => x == digits_val(v@.subrange(start as int, start + len)),
            None => digits_val(v@.subrange(start as int, start + len)) > u32::MAX,
        },
{
    let n = v.len();
    let mut acc: u64 = 0;
    let mut over: bool = false;
    let mut k: usize = 0;
    while k < len
        invariant
            k <= len,
            start + len <= v@.len(),
            n == v@.len(),
            forall|j: int| start <= j < start + len ==> is_digit_char(#[trigger] v@[j]),
            !over ==> acc == digits_val(v@.subrange(start as int, start + k)) && acc <= u32::MAX,
            over ==> digits_val(v@.subrange(start as int, start + k)) > u32::MAX,
        decreases len - k,
    {
        let c = v[start + k];
        let d: u64 = (c as u64) - 48;
        proof {
            let pre = v@.subrange(start as int, start + k);
            let post = v@.subrange(start as int, start + k + 1);
            assert(post.drop_last() =~= pre);
            assert(post.last() == v@[start + k]);
            lemma_digits_val_nonneg(pre);
        }
        if !over {
            let next: u64 = acc * 10 + d;
            if next > 0xFFFF_FFFF {
                over = true;
            } else {
                acc = next;
            }
        }
        k = k + 1;
    }
    if over {
        None
    } else {
        Some(acc as u32)
    }
}

} // verus!
