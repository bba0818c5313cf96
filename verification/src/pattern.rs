//! The issue-key grammar and a scanner that finds every key in a text.
//!
//! An issue key is one of the two project prefixes `SBINV` or `ITS`, a dash,
//! and one or more decimal digits. The scanner finds all non-overlapping
//! matches, leftmost first, and each match takes as many digits as it can.
//! Only the matched span is constrained: surrounding text in any script is
//! skipped over and cannot disturb a match.

use vstd::prelude::*;
use vstd::string::StrSliceExecFns;

verus! {

/// A decimal digit.
pub open spec fn is_digit(c: char) -> bool {
    '0' <= c && c <= '9'
}

/// The prefix `SBINV-` stands at position `i` of `t`.
pub open spec fn sbinv_at(t: Seq<char>, i: int) -> bool {
    &&& 0 <= i
    &&& i + 6 <= t.len()
    &&& t[i] == 'S'
    &&& t[i + 1] == 'B'
    &&& t[i + 2] == 'I'
    &&& t[i + 3] == 'N'
    &&& t[i + 4] == 'V'
    &&& t[i + 5] == '-'
}

/// The prefix `ITS-` stands at position `i` of `t`.
pub open spec fn its_at(t: Seq<char>, i: int) -> bool {
    &&& 0 <= i
    &&& i + 4 <= t.len()
    &&& t[i] == 'I'
    &&& t[i + 1] == 'T'
    &&& t[i + 2] == 'S'
    &&& t[i + 3] == '-'
}

/// Length of the key prefix (dash included) standing at position `i`, or 0.
/// The two prefixes start with different letters, so at most one fits.
pub open spec fn prefix_len_at(t: Seq<char>, i: int) -> int {
    if sbinv_at(t, i) {
        6
    } else if its_at(t, i) {
        4
    } else {
        0
    }
}

/// A key match starts at position `i`: a prefix followed by at least one digit.
pub open spec fn match_at(t: Seq<char>, i: int) -> bool {
    &&& prefix_len_at(t, i) > 0
    &&& i + prefix_len_at(t, i) < t.len()
    &&& is_digit(t[i + prefix_len_at(t, i)])
}

/// The first position at or after `j` that does not hold a digit.
pub open spec fn digits_end(t: Seq<char>, j: int) -> int
    decreases t.len() - j,
{
    if j < 0 || j >= t.len() || !is_digit(t[j]) {
        j
    } else {
        digits_end(t, j + 1)
    }
}

/// Where the match starting at `i` ends: after the prefix and every
/// following digit.
pub open spec fn match_end(t: Seq<char>, i: int) -> int {
    digits_end(t, i + prefix_len_at(t, i))
}

pub proof fn lemma_digits_end_bounds(t: Seq<char>, j: int)
    requires
        0 <= j <= t.len(),
    ensures
        j <= digits_end(t, j) <= t.len(),
        forall|m: int| j <= m < digits_end(t, j) ==> is_digit(#[trigger] t[m]),
        digits_end(t, j) == t.len() || !is_digit(t[digits_end(t, j)]),
    decreases t.len() - j,
{
    if j < t.len() && is_digit(t[j]) {
        lemma_digits_end_bounds(t, j + 1);
    }
}

/// A well-formed issue key on its own: one of the two prefixes, with the
/// rest all digits and at least one of them.
pub open spec fn is_issue_key(k: Seq<char>) -> bool {
    ||| {
        &&& sbinv_at(k, 0)
        &&& k.len() >= 7
        &&& forall|m: int| 6 <= m < k.len() ==> is_digit(#[trigger] k[m])
    }
    ||| {
        &&& its_at(k, 0)
        &&& k.len() >= 5
        &&& forall|m: int| 4 <= m < k.len() ==> is_digit(#[trigger] k[m])
    }
}

/// Every key the scanner reports is a well-formed issue key: whatever text
/// surrounds a match, only a prefix followed by digits is ever returned.
pub proof fn lemma_issue_keys_well_formed(t: Seq<char>, i: int)
    requires
        0 <= i <= t.len(),
    ensures
        forall|j: int|
            0 <= j < keys_from(t, i).len() ==> is_issue_key(#[trigger] keys_from(t, i)[j]),
    decreases t.len() - i,
{
    if i >= t.len() {
        assert(keys_from(t, i).len() == 0);
    } else if match_at(t, i) {
        let pl = prefix_len_at(t, i);
        let e = match_end(t, i);
        lemma_digits_end_bounds(t, i + pl);
        assert(is_digit(t[i + pl]));
        assert(digits_end(t, i + pl) == digits_end(t, i + pl + 1));
        lemma_digits_end_bounds(t, i + pl + 1);
        assert(e > i + pl);
        lemma_issue_keys_well_formed(t, e);
        let k = t.subrange(i, e);
        assert(is_issue_key(k)) by {
            assert(forall|m: int| 0 <= m < k.len() ==> #[trigger] k[m] == t[i + m]);
            assert(forall|m: int| pl <= m < k.len() ==> is_digit(#[trigger] k[m]));
        }
        assert(keys_from(t, i) == seq![k] + keys_from(t, e));
        assert forall|j: int| 0 <= j < keys_from(t, i).len() implies is_issue_key(
            #[trigger] keys_from(t, i)[j],
        ) by {
            if j == 0 {
                assert(keys_from(t, i)[0] == k);
            } else {
                assert(keys_from(t, i)[j] == keys_from(t, e)[j - 1]);
            }
        }
    } else {
        lemma_issue_keys_well_formed(t, i + 1);
        assert(keys_from(t, i) == keys_from(t, i + 1));
        assert forall|j: int| 0 <= j < keys_from(t, i).len() implies is_issue_key(
            #[trigger] keys_from(t, i)[j],
        ) by {
            assert(is_issue_key(keys_from(t, i + 1)[j]));
        }
    }
}

/// The issue keys found in `t` at or after position `i`: leftmost first,
/// non-overlapping, each extended over as many digits as possible.
pub open spec fn keys_from(t: Seq<char>, i: int) -> Seq<Seq<char>>
    decreases t.len() - i,
    when 0 <= i
{
    if i >= t.len() {
        Seq::empty()
    } else if match_at(t, i) {
        proof {
            lemma_digits_end_bounds(t, i + prefix_len_at(t, i));
        }
        seq![t.subrange(i, match_end(t, i))] + keys_from(t, match_end(t, i))
    } else {
        keys_from(t, i + 1)
    }
}

/// All issue keys of `t`.
pub open spec fn spec_issue_keys(t: Seq<char>) -> Seq<Seq<char>> {
    keys_from(t, 0)
}

/// Whether the character at position `j` of `text` is a decimal digit.
fn digit_at(text: &str, j: usize) -> (r: bool)
    requires
        j < text@.len(),
    ensures
        r == is_digit(text@[j as int]),
{
    let c = text.get_char(j);
    48 <= c as u32 && c as u32 <= 57
}

/// Length of the key prefix standing at position `i` of `text`, or 0.
fn prefix_len(text: &str, i: usize, n: usize) -> (r: usize)
    requires
        n == text@.len(),
        i < n,
    ensures
        r == prefix_len_at(text@, i as int),
{
    if n - i >= 6 && text.get_char(i) == 'S' && text.get_char(i + 1) == 'B' && text.get_char(
        i + 2,
    ) == 'I' && text.get_char(i + 3) == 'N' && text.get_char(i + 4) == 'V' && text.get_char(
        i + 5,
    ) == '-' {
        6
    } else if n - i >= 4 && text.get_char(i) == 'I' && text.get_char(i + 1) == 'T'
        && text.get_char(i + 2) == 'S' && text.get_char(i + 3) == '-' {
        4
    } else {
        0
    }
}

/// The first position at or after `start` in `text` that holds no digit.
fn scan_digits(text: &str, start: usize, n: usize) -> (e: usize)
    requires
        n == text@.len(),
        start <= n,
    ensures
        e == digits_end(text@, start as int),
        start <= e <= n,
{
    let mut j = start;
    while j < n && digit_at(text, j)
        invariant
            n == text@.len(),
            start <= j <= n,
            digits_end(text@, start as int) == digits_end(text@, j as int),
        decreases n - j,
    {
        j = j + 1;
    }
    j
}

/// Finds every issue key in `text`: all non-overlapping matches of the key
/// pattern, leftmost first, each with as many digits as possible.
pub fn find_issue_keys(text: &str) -> (r: Vec<String>)
    ensures
        r@.len() == spec_issue_keys(text@).len(),
        forall|j: int|
            0 <= j < r@.len() ==> #[trigger] r@[j]@ == spec_issue_keys(text@)[j],
{
    let ghost t = text@;
    let n = text.unicode_len();
    let mut keys: Vec<String> = Vec::new();
    let mut i: usize = 0;
    while i < n
        invariant
            t == text@,
            n == t.len(),
            i <= n,
            spec_issue_keys(t) == keys@.map_values(|s: String| s@) + keys_from(t, i as int),
        decreases n - i,
    {
        let pl = prefix_len(text, i, n);
        if pl > 0 && pl < n - i && digit_at(text, i + pl) {
            assert(match_at(t, i as int));
            let e = scan_digits(text, i + pl, n);
            assert(e == match_end(t, i as int));
            let key = text.substring_char(i, e).to_owned();
            let ghost old_keys = keys@;
            keys.push(key);
            proof {
                assert(keys@.map_values(|s: String| s@) =~= old_keys.map_values(
                    |s: String| s@,
                ).push(key@));
                assert(keys_from(t, i as int) =~= seq![t.subrange(i as int, e as int)]
                    + keys_from(t, e as int));
                assert(keys@.map_values(|s: String| s@) + keys_from(t, e as int)
                    =~= old_keys.map_values(|s: String| s@) + keys_from(t, i as int));
            }
            i = e;
        } else {
            assert(!match_at(t, i as int));
            assert(keys_from(t, i as int) == keys_from(t, i as int + 1));
            i = i + 1;
        }
    }
    assert(keys_from(t, i as int) =~= Seq::<Seq<char>>::empty());
    assert(keys@.map_values(|s: String| s@) + keys_from(t, i as int) =~= keys@.map_values(
        |s: String| s@,
    ));
    keys
}

} // verus!
