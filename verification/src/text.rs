//! Character-level helpers shared by the tokenizer, the signature miner and
//! the header generator: classification of characters, runs, searches and
//! conversions between `&str` and `Vec<char>`.
use vstd::prelude::*;

verus! {

/// ASCII whitespace. The declaration text this library processes is
/// machine-generated ASCII, so no other whitespace occurs.
pub open spec fn is_ws_char(c: char) -> bool {
    c == ' ' || c == '\t' || c == '\n' || c == '\r' || c == '\u{b}' || c == '\u{c}'
}

/// A character that may appear in an identifier: ASCII letters, digits, `_`.
pub open spec fn is_word_char(c: char) -> bool {
    (('a' as u32) <= (c as u32) && (c as u32) <= ('z' as u32))
        || (('A' as u32) <= (c as u32) && (c as u32) <= ('Z' as u32))
        || (('0' as u32) <= (c as u32) && (c as u32) <= ('9' as u32))
        || c == '_'
}

pub fn exec_is_ws(c: char) -> (b: bool)
    ensures
        b == is_ws_char(c),
{
    c == ' ' || c == '\t' || c == '\n' || c == '\r' || c == '\u{b}' || c == '\u{c}'
}

pub fn exec_is_word(c: char) -> (b: bool)
    ensures
        b == is_word_char(c),
{
    let u = c as u32;
    (97 <= u && u <= 122) || (65 <= u && u <= 90) || (48 <= u && u <= 57) || c == '_'
}

/// Length of the run of whitespace characters starting at `i`.
pub open spec fn ws_run_from(s: Seq<char>, i: int) -> int
    decreases s.len() - i,
{
    if 0 <= i < s.len() && is_ws_char(s[i]) {
        1 + ws_run_from(s, i + 1)
    } else {
        0
    }
}

/// Length of the run of non-whitespace characters starting at `i`.
pub open spec fn nonws_run_from(s: Seq<char>, i: int) -> int
    decreases s.len() - i,
{
    if 0 <= i < s.len() && !is_ws_char(s[i]) {
        1 + nonws_run_from(s, i + 1)
    } else {
        0
    }
}

/// An ASCII decimal digit.
pub open spec fn is_digit_char(c: char) -> bool {
    ('0' as u32) <= (c as u32) && (c as u32) <= ('9' as u32)
}

/// Length of the run of digit characters starting at `i`.
pub open spec fn digit_run_from(s: Seq<char>, i: int) -> int
    decreases s.len() - i,
{
    if 0 <= i < s.len() && is_digit_char(s[i]) {
        1 + digit_run_from(s, i + 1)
    } else {
        0
    }
}

/// Length of the run of word characters starting at `i`.
pub open spec fn word_run_from(s: Seq<char>, i: int) -> int
    decreases s.len() - i,
{
    if 0 <= i < s.len() && is_word_char(s[i]) {
        1 + word_run_from(s, i + 1)
    } else {
        0
    }
}

/// Length of the run of word characters that ends just before `end`.
pub open spec fn word_run_back(s: Seq<char>, end: int) -> int
    decreases end,
{
    if 0 < end <= s.len() && is_word_char(s[end - 1]) {
        1 + word_run_back(s, end - 1)
    } else {
        0
    }
}

/// Length of the run of whitespace characters that ends just before `end`.
pub open spec fn ws_run_back(s: Seq<char>, end: int) -> int
    decreases end,
{
    if 0 < end <= s.len() && is_ws_char(s[end - 1]) {
        1 + ws_run_back(s, end - 1)
    } else {
        0
    }
}

/// Index of the first occurrence of `c` at or after `i`.
pub open spec fn find_char_from(s: Seq<char>, i: int, c: char) -> Option<int>
    decreases s.len() - i,
{
    if !(0 <= i < s.len()) {
        None
    } else if s[i] == c {
        Some(i)
    } else {
        find_char_from(s, i + 1, c)
    }
}

/// Index of the first occurrence of the two-character pattern `ab` at or after `i`.
pub open spec fn find2_from(s: Seq<char>, i: int, a: char, b: char) -> Option<int>
    decreases s.len() - i,
{
    if !(0 <= i && i + 2 <= s.len()) {
        None
    } else if s[i] == a && s[i + 1] == b {
        Some(i)
    } else {
        find2_from(s, i + 1, a, b)
    }
}

/// Index of the last occurrence of `c` strictly before `end`.
pub open spec fn rfind_char(s: Seq<char>, end: int, c: char) -> Option<int>
    decreases end,
{
    if !(0 < end <= s.len()) {
        None
    } else if s[end - 1] == c {
        Some(end - 1)
    } else {
        rfind_char(s, end - 1, c)
    }
}

/// `p` occurs in `s` starting exactly at `i`.
pub open spec fn starts_with_at(s: Seq<char>, i: int, p: Seq<char>) -> bool {
    0 <= i && i + p.len() <= s.len() && (forall|j: int| 0 <= j < p.len() ==> s[i + j] == p[j])
}

/// `p` occurs somewhere in `s[from..to]`, entirely inside that range.
pub open spec fn contains_in(s: Seq<char>, from: int, to: int, p: Seq<char>) -> bool {
    exists|j: int| from <= j && j + p.len() <= to && starts_with_at(s, j, p)
}

pub fn exec_ws_run_from(s: &[char], i: usize) -> (n: usize)
    requires
        i <= s@.len(),
    ensures
        n == ws_run_from(s@, i as int),
        i + n <= s@.len(),
{
    let mut j: usize = i;
    while j < s.len() && exec_is_ws(s[j])
        invariant
            i <= j <= s@.len(),
            ws_run_from(s@, i as int) == j - i + ws_run_from(s@, j as int),
        decreases s@.len() - j,
    {
        j += 1;
    }
    j - i
}

pub fn exec_nonws_run_from(s: &[char], i: usize) -> (n: usize)
    requires
        i <= s@.len(),
    ensures
        n == nonws_run_from(s@, i as int),
        i + n <= s@.len(),
{
    let mut j: usize = i;
    while j < s.len() && !exec_is_ws(s[j])
        invariant
            i <= j <= s@.len(),
            nonws_run_from(s@, i as int) == j - i + nonws_run_from(s@, j as int),
        decreases s@.len() - j,
    {
        j += 1;
    }
    j - i
}

pub fn exec_word_run_from(s: &[char], i: usize) -> (n: usize)
    requires
        i <= s@.len(),
    ensures
        n == word_run_from(s@, i as int),
        i + n <= s@.len(),
{
    let mut j: usize = i;
    while j < s.len() && exec_is_word(s[j])
        invariant
            i <= j <= s@.len(),
            word_run_from(s@, i as int) == j - i + word_run_from(s@, j as int),
        decreases s@.len() - j,
    {
        j += 1;
    }
    j - i
}

pub fn exec_digit_run_from(s: &[char], i: usize) -> (n: usize)
    requires
        i <= s@.len(),
    ensures
        n == digit_run_from(s@, i as int),
        i + n <= s@.len(),
{
    let mut j: usize = i;
    while j < s.len() && exec_is_digit(s[j])
        invariant
            i <= j <= s@.len(),
            digit_run_from(s@, i as int) == j - i + digit_run_from(s@, j as int),
        decreases s@.len() - j,
    {
        j += 1;
    }
    j - i
}

pub fn exec_is_digit(c: char) -> (b: bool)
    ensures
        b == is_digit_char(c),
{
    let u = c as u32;
    48 <= u && u <= 57
}

pub fn exec_word_run_back(s: &[char], end: usize) -> (n: usize)
    requires
        end <= s@.len(),
    ensures
        n == word_run_back(s@, end as int),
        n <= end,
{
    let mut k: usize = end;
    while k > 0 && exec_is_word(s[k - 1])
        invariant
            k <= end <= s@.len(),
            word_run_back(s@, end as int) == end - k + word_run_back(s@, k as int),
        decreases k,
    {
        k -= 1;
    }
    end - k
}

pub fn exec_ws_run_back(s: &[char], end: usize) -> (n: usize)
    requires
        end <= s@.len(),
    ensures
        n == ws_run_back(s@, end as int),
        n <= end,
{
    let mut k: usize = end;
    while k > 0 && exec_is_ws(s[k - 1])
        invariant
            k <= end <= s@.len(),
            ws_run_back(s@, end as int) == end - k + ws_run_back(s@, k as int),
        decreases k,
    {
        k -= 1;
    }
    end - k
}

pub fn exec_find_char_from(s: &[char], i: usize, c: char) -> (r: Option<usize>)
    requires
        i <= s@.len(),
    ensures
        match r {
            Some(j) => find_char_from(s@, i as int, c) == Some(j as int) && i <= j < s@.len(),
            None => find_char_from(s@, i as int, c) is None,
        },
{
    let mut j: usize = i;
    while j < s.len()
        invariant
            i <= j <= s@.len(),
            find_char_from(s@, i as int, c) == find_char_from(s@, j as int, c),
        decreases s@.len() - j,
    {
        if s[j] == c {
            return Some(j);
        }
        j += 1;
    }
    None
}

pub fn exec_find2_from(s: &[char], i: usize, a: char, b: char) -> (r: Option<usize>)
    requires
        i <= s@.len(),
    ensures
        match r {
            Some(j) => find2_from(s@, i as int, a, b) == Some(j as int) && i <= j && j + 2
                <= s@.len(),
            None => find2_from(s@, i as int, a, b) is None,
        },
{
    if s.len() < 2 {
        return None;
    }
    let mut j: usize = i;
    while j < s.len() - 1
        invariant
            i <= j <= s@.len(),
            s@.len() >= 2,
            find2_from(s@, i as int, a, b) == find2_from(s@, j as int, a, b),
        decreases s@.len() - j,
    {
        if s[j] == a && s[j + 1] == b {
            return Some(j);
        }
        j += 1;
    }
    None
}

pub fn exec_rfind_char(s: &[char], end: usize, c: char) -> (r: Option<usize>)
    requires
        end <= s@.len(),
    ensures
        match r {
            Some(j) => rfind_char(s@, end as int, c) == Some(j as int) && j < end,
            None => rfind_char(s@, end as int, c) is None,
        },
{
    let mut k: usize = end;
    while k > 0
        invariant
            k <= end <= s@.len(),
            rfind_char(s@, end as int, c) == rfind_char(s@, k as int, c),
        decreases k,
    {
        if s[k - 1] == c {
            return Some(k - 1);
        }
        k -= 1;
    }
    None
}

pub fn exec_starts_with_at(s: &[char], i: usize, p: &[char]) -> (b: bool)
    requires
        i <= s@.len(),
    ensures
        b == starts_with_at(s@, i as int, p@),
{
    if s.len() - i < p.len() {
        return false;
    }
    let n: usize = s.len();
    let mut j: usize = 0;
    while j < p.len()
        invariant
            j <= p@.len(),
            i + p@.len() <= s@.len(),
            n == s@.len(),
            forall|k: int| 0 <= k < j ==> s@[i + k] == p@[k],
        decreases p@.len() - j,
    {
        let sij = s[i + j];
        if sij != p[j] {
            return false;
        }
        j += 1;
    }
    true
}

pub fn exec_contains_in(s: &[char], from: usize, to: usize, p: &[char]) -> (b: bool)
    requires
        from <= to <= s@.len(),
    ensures
        b == contains_in(s@, from as int, to as int, p@),
{
    if to - from < p.len() {
        assert(!contains_in(s@, from as int, to as int, p@));
        return false;
    }
    let last: usize = to - p.len();
    let mut j: usize = from;
    while j <= last
        invariant
            from <= j <= last + 1,
            last + p@.len() == to <= s@.len(),
            forall|k: int| from <= k < j ==> !starts_with_at(s@, k, p@),
        decreases last + 1 - j,
    {
        if exec_starts_with_at(s, j, p) {
            assert(contains_in(s@, from as int, to as int, p@));
            return true;
        }
        j += 1;
    }
    assert forall|k: int| from <= k && k + p@.len() <= to implies !starts_with_at(s@, k, p@) by {
        assert(k <= last);
    }
    false
}

pub fn exec_eq_chars(a: &[char], b: &[char]) -> (r: bool)
    ensures
        r == (a@ == b@),
{
    if a.len() != b.len() {
        return false;
    }
    let mut j: usize = 0;
    while j < a.len()
        invariant
            j <= a@.len(),
            a@.len() == b@.len(),
            forall|k: int| 0 <= k < j ==> a@[k] == b@[k],
        decreases a@.len() - j,
    {
        if a[j] != b[j] {
            assert(a@[j as int] != b@[j as int]);
            return false;
        }
        j += 1;
    }
    proof {
        assert(a@ =~= b@);
    }
    true
}

/// Copies the characters of `src` onto the end of `dst`.
pub fn push_chars(dst: &mut Vec<char>, src: &[char])
    ensures
        final(dst)@ == old(dst)@ + src@,
{
    let mut j: usize = 0;
    while j < src.len()
        invariant
            j <= src@.len(),
            dst@ == old(dst)@ + src@.subrange(0, j as int),
        decreases src@.len() - j,
    {
        dst.push(src[j]);
        j += 1;
        proof {
            assert(dst@ =~= old(dst)@ + src@.subrange(0, j as int));
        }
    }
    proof {
        assert(dst@ =~= old(dst)@ + src@);
    }
}

/// The mathematical value of a list of character vectors.
pub open spec fn chars_view(v: Seq<Vec<char>>) -> Seq<Seq<char>> {
    v.map_values(|x: Vec<char>| x@)
}

pub fn clone_chars(v: &[char]) -> (r: Vec<char>)
    ensures
        r@ == v@,
{
    let mut r: Vec<char> = Vec::new();
    push_chars(&mut r, v);
    r
}

pub fn str_to_chars(s: &str) -> (v: Vec<char>)
    ensures
        v@ == s@,
{
    let n = s.unicode_len();
    let mut v: Vec<char> = Vec::new();
    let mut i: usize = 0;
    while i < n
        invariant
            n == s@.len(),
            i <= n,
            v@ == s@.subrange(0, i as int),
        decreases n - i,
    {
        v.push(s.get_char(i));
        i += 1;
        proof {
            assert(v@ =~= s@.subrange(0, i as int));
        }
    }
    proof {
        assert(v@ =~= s@);
    }
    v
}

/// Relies on String::push: appends one character to the string.
#[verifier::external_body]
fn push_char(s: &mut String, c: char)
    ensures
        final(s)@ == old(s)@.push(c),
{
    s.push(c)
}

pub fn chars_to_string(v: &[char]) -> (s: String)
    ensures
        s@ == v@,
{
    let mut s = String::new();
    let mut i: usize = 0;
    while i < v.len()
        invariant
            i <= v@.len(),
            s@ == v@.subrange(0, i as int),
        decreases v@.len() - i,
    {
        push_char(&mut s, v[i]);
        i += 1;
        proof {
            assert(s@ =~= v@.subrange(0, i as int));
        }
    }
    proof {
        assert(s@ =~= v@);
    }
    s
}

pub proof fn lemma_starts_with_first(s: Seq<char>, p: Seq<char>)
    requires
        starts_with_at(s, 0, p),
        p.len() > 0,
    ensures
        s.len() >= p.len(),
        s[0] == p[0],
{
    assert(s[0int + 0int] == p[0int]);
}

/// Basic bounds of the run and search functions, available to all modules.
pub proof fn lemma_ws_run_bounds(s: Seq<char>, i: int)
    requires
        0 <= i <= s.len(),
    ensures
        0 <= ws_run_from(s, i),
        i + ws_run_from(s, i) <= s.len(),
    decreases s.len() - i,
{
    if 0 <= i < s.len() && is_ws_char(s[i]) {
        lemma_ws_run_bounds(s, i + 1);
    }
}

pub proof fn lemma_find_char_bounds(s: Seq<char>, i: int, c: char)
    requires
        0 <= i <= s.len(),
    ensures
        match find_char_from(s, i, c) {
            Some(j) => i <= j < s.len() && s[j] == c,
            None => true,
        },
    decreases s.len() - i,
{
    if 0 <= i < s.len() && s[i] != c {
        lemma_find_char_bounds(s, i + 1, c);
    }
}



/// Leftmost, non-overlapping replacement of `from` by `to`, scanning from
/// `i`: at a match the replacement is emitted and the scan continues just
/// past the matched text; otherwise one character is copied.
pub open spec fn replace_from(s: Seq<char>, from: Seq<char>, to: Seq<char>, i: int) -> Seq<char>
    decreases s.len() - i,
{
    if !(0 <= i < s.len()) {
        Seq::empty()
    } else if from.len() > 0 && starts_with_at(s, i, from) {
        to + replace_from(s, from, to, i + from.len())
    } else {
        seq![s[i]] + replace_from(s, from, to, i + 1)
    }
}

pub open spec fn replace_all_spec(s: Seq<char>, from: Seq<char>, to: Seq<char>) -> Seq<char> {
    replace_from(s, from, to, 0)
}

/// Replaces every occurrence of `from` in `s` by `to`, leftmost first and
/// without overlap.
pub fn replace_all(s: &[char], from: &[char], to: &[char]) -> (r: Vec<char>)
    ensures
        r@ == replace_all_spec(s@, from@, to@),
{
    let mut out: Vec<char> = Vec::new();
    let mut i: usize = 0;
    proof {
        assert(out@ + replace_from(s@, from@, to@, 0) =~= replace_from(s@, from@, to@, 0));
    }
    while i < s.len()
        invariant
            i <= s@.len(),
            replace_all_spec(s@, from@, to@) == out@ + replace_from(s@, from@, to@, i as int),
        decreases s@.len() - i,
    {
        let ghost pre = out@;
        if from.len() > 0 && exec_starts_with_at(s, i, from) {
            push_chars(&mut out, to);
            i += from.len();
            proof {
                assert(pre + (to@ + replace_from(s@, from@, to@, i as int)) =~= out@
                    + replace_from(s@, from@, to@, i as int));
            }
        } else {
            out.push(s[i]);
            i += 1;
            proof {
                assert(pre + (seq![s@[i - 1]] + replace_from(s@, from@, to@, i as int)) =~= out@
                    + replace_from(s@, from@, to@, i as int));
            }
        }
    }
    proof {
        assert(out@ + replace_from(s@, from@, to@, i as int) =~= out@);
    }
    out
}

} // verus!
