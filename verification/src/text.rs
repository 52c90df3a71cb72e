//! Verified helpers for searching character sequences and rendering decimal
//! numbers. All executable functions here are proved against the spec
//! functions that the rest of the crate's contracts are written in.

use vstd::prelude::*;

verus! {

/// `pat` occurs in `text` starting exactly at position `i`.
pub open spec fn match_at(text: Seq<char>, pat: Seq<char>, i: int) -> bool {
    &&& 0 <= i
    &&& i + pat.len() <= text.len()
    &&& text.subrange(i, i + pat.len() as int) == pat
}

/// `pat` occurs somewhere in `text`.
pub open spec fn contains_seq(text: Seq<char>, pat: Seq<char>) -> bool {
    exists|i: int| match_at(text, pat, i)
}

/// Position of the first occurrence of `pat` in `text` at or after `i`,
/// if there is one.
pub open spec fn find_from(text: Seq<char>, pat: Seq<char>, i: int) -> Option<int>
    decreases text.len() - i,
{
    if i < 0 || i + pat.len() > text.len() {
        None
    } else if match_at(text, pat, i) {
        Some(i)
    } else if i + pat.len() == text.len() {
        None
    } else {
        find_from(text, pat, i + 1)
    }
}

/// A `None` answer of `find_from` rules out a match at every later position.
pub proof fn lemma_find_from_none(text: Seq<char>, pat: Seq<char>, i: int)
    requires
        0 <= i,
        find_from(text, pat, i) is None,
    ensures
        forall|j: int| j >= i ==> !match_at(text, pat, j),
    decreases text.len() - i,
{
    if i + pat.len() > text.len() {
        assert forall|j: int| j >= i implies !match_at(text, pat, j) by {
            assert(j + pat.len() > text.len());
        }
    } else if i + pat.len() == text.len() {
        assert forall|j: int| j >= i implies !match_at(text, pat, j) by {
            if j > i {
                assert(j + pat.len() > text.len());
            }
        }
    } else {
        lemma_find_from_none(text, pat, i + 1);
        assert forall|j: int| j >= i implies !match_at(text, pat, j) by {
            if j > i {
                assert(!match_at(text, pat, j));
            }
        }
    }
}

/// A `Some(k)` answer of `find_from` is a match, and the first one at or
/// after `i`.
pub proof fn lemma_find_from_some(text: Seq<char>, pat: Seq<char>, i: int, k: int)
    requires
        0 <= i,
        find_from(text, pat, i) == Some(k),
    ensures
        i <= k,
        match_at(text, pat, k),
        forall|j: int| i <= j < k ==> !match_at(text, pat, j),
    decreases text.len() - i,
{
    if i + pat.len() > text.len() {
    } else if match_at(text, pat, i) {
    } else if i + pat.len() == text.len() {
    } else {
        lemma_find_from_some(text, pat, i + 1, k);
    }
}

/// Decides whether `pat` occurs in `text` starting at `i`.
fn match_at_exec(text: &str, pat: &str, i: usize) -> (r: bool)
    requires
        i + pat@.len() <= text@.len(),
        text@.len() <= usize::MAX,
    ensures
        r == match_at(text@, pat@, i as int),
{
    let m = pat.unicode_len();
    let mut j: usize = 0;
    while j < m
        invariant
            j <= m,
            m == pat@.len(),
            i + m <= text@.len() <= usize::MAX,
            forall|k: int| 0 <= k < j ==> text@[i + k] == pat@[k],
        decreases m - j,
    {
        if text.get_char(i + j) != pat.get_char(j) {
            proof {
                assert(text@.subrange(i as int, i + m as int)[j as int] == text@[i + j]);
            }
            return false;
        }
        j += 1;
    }
    proof {
        assert(text@.subrange(i as int, i + m as int) =~= pat@);
    }
    true
}

/// Position of the first occurrence of `pat` in `text`, if there is one.
pub fn find_substring(text: &str, pat: &str) -> (r: Option<usize>)
    ensures
        match r {
            Some(i) => find_from(text@, pat@, 0) == Some(i as int),
            None => find_from(text@, pat@, 0) is None,
        },
{
    let n = text.unicode_len();
    let m = pat.unicode_len();
    if m > n {
        return None;
    }
    let mut i: usize = 0;
    while i <= n - m
        invariant
            m <= n,
            n == text@.len(),
            m == pat@.len(),
            i <= n - m + 1,
            find_from(text@, pat@, 0) == find_from(text@, pat@, i as int),
        decreases n - m + 1 - i,
    {
        if match_at_exec(text, pat, i) {
            return Some(i);
        }
        proof {
            if m == 0 {
                assert(text@.subrange(i as int, i as int) =~= pat@);
            }
        }
        i += 1;
    }
    None
}

/// Decides whether `pat` occurs anywhere in `text`.
pub fn contains_substring(text: &str, pat: &str) -> (r: bool)
    ensures
        r == contains_seq(text@, pat@),
{
    let found = find_substring(text, pat);
    proof {
        match find_from(text@, pat@, 0) {
            Some(k) => {
                lemma_find_from_some(text@, pat@, 0, k);
            },
            None => {
                lemma_find_from_none(text@, pat@, 0);
            },
        }
    }
    found.is_some()
}

/// A decimal digit character.
pub open spec fn is_digit(c: char) -> bool {
    48 <= c as int <= 57
}

/// The character for one decimal digit.
pub open spec fn dec_digit(d: int) -> char {
    if d == 0 {
        '0'
    } else if d == 1 {
        '1'
    } else if d == 2 {
        '2'
    } else if d == 3 {
        '3'
    } else if d == 4 {
        '4'
    } else if d == 5 {
        '5'
    } else if d == 6 {
        '6'
    } else if d == 7 {
        '7'
    } else if d == 8 {
        '8'
    } else {
        '9'
    }
}

/// Decimal rendering of a non-negative integer, without leading zeros
/// (except for the number zero itself).
pub open spec fn dec_str(n: int) -> Seq<char>
    decreases n,
{
    if n < 10 {
        seq![dec_digit(n)]
    } else {
        dec_str(n / 10).push(dec_digit(n % 10))
    }
}

/// Appends the character of the digit `d` to `s`.
fn append_digit(s: &mut String, d: u32)
    requires
        d < 10,
    ensures
        final(s)@ == old(s)@ + seq![dec_digit(d as int)],
{
    proof {
        reveal_strlit("0");
        reveal_strlit("1");
        reveal_strlit("2");
        reveal_strlit("3");
        reveal_strlit("4");
        reveal_strlit("5");
        reveal_strlit("6");
        reveal_strlit("7");
        reveal_strlit("8");
        reveal_strlit("9");
    }
    if d == 0 {
        s.append("0");
        proof { assert(s@ =~= old(s)@ + seq![dec_digit(d as int)]); }
    } else if d == 1 {
        s.append("1");
        proof { assert(s@ =~= old(s)@ + seq![dec_digit(d as int)]); }
    } else if d == 2 {
        s.append("2");
        proof { assert(s@ =~= old(s)@ + seq![dec_digit(d as int)]); }
    } else if d == 3 {
        s.append("3");
        proof { assert(s@ =~= old(s)@ + seq![dec_digit(d as int)]); }
    } else if d == 4 {
        s.append("4");
        proof { assert(s@ =~= old(s)@ + seq![dec_digit(d as int)]); }
    } else if d == 5 {
        s.append("5");
        proof { assert(s@ =~= old(s)@ + seq![dec_digit(d as int)]); }
    } else if d == 6 {
        s.append("6");
        proof { assert(s@ =~= old(s)@ + seq![dec_digit(d as int)]); }
    } else if d == 7 {
        s.append("7");
        proof { assert(s@ =~= old(s)@ + seq![dec_digit(d as int)]); }
    } else if d == 8 {
        s.append("8");
        proof { assert(s@ =~= old(s)@ + seq![dec_digit(d as int)]); }
    } else {
        s.append("9");
        proof { assert(s@ =~= old(s)@ + seq![dec_digit(d as int)]); }
    }
}

/// Appends the decimal rendering of `n` to `s`.
pub fn append_decimal(s: &mut String, n: u32)
    ensures
        final(s)@ == old(s)@ + dec_str(n as int),
    decreases n,
{
    if n < 10 {
        append_digit(s, n);
    } else {
        append_decimal(s, n / 10);
        append_digit(s, n % 10);
        proof {
            assert(s@ =~= old(s)@ + dec_str(n as int));
        }
    }
}

} // verus!
