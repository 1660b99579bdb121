//! Searching and rewriting text, stated over sequences of characters.

use vstd::prelude::*;

verus! {

/// Whether `pattern` stands in `text` at position `at`.
pub open spec fn occurs_at(text: Seq<char>, pattern: Seq<char>, at: int) -> bool {
    &&& 0 <= at
    &&& at + pattern.len() <= text.len()
    &&& text.subrange(at, at + pattern.len()) == pattern
}

/// The least position at which `pattern` stands in `text`, if it stands anywhere.
pub open spec fn first_occurrence(text: Seq<char>, pattern: Seq<char>) -> Option<int>
    decreases text.len(),
{
    if occurs_at(text, pattern, 0) {
        Some(0int)
    } else if text.len() == 0 {
        None
    } else {
        match first_occurrence(text.skip(1), pattern) {
            Some(at) => Some(at + 1),
            None => None,
        }
    }
}

/// What stands in `text` before the first occurrence of `marker`: all of `text`
/// where `marker` does not occur.
pub open spec fn before_first(text: Seq<char>, marker: Seq<char>) -> Seq<char> {
    match first_occurrence(text, marker) {
        Some(at) => text.take(at),
        None => text,
    }
}

/// What stands in `text` after the first occurrence of `marker`, if there is one.
pub open spec fn after_first(text: Seq<char>, marker: Seq<char>) -> Option<Seq<char>> {
    match first_occurrence(text, marker) {
        Some(at) => Some(text.skip(at + marker.len())),
        None => None,
    }
}

/// `text` with every occurrence of `pattern` replaced by `with`. Occurrences are
/// taken from left to right and do not overlap: after one has been replaced, the
/// search goes on behind it. An empty `pattern` is not replaced: `text` stays
/// as it is.
pub open spec fn replaced(text: Seq<char>, pattern: Seq<char>, with: Seq<char>) -> Seq<char>
    decreases text.len(),
{
    if pattern.len() == 0 || text.len() < pattern.len() {
        text
    } else if occurs_at(text, pattern, 0) {
        with + replaced(text.skip(pattern.len() as int), pattern, with)
    } else {
        text.take(1) + replaced(text.skip(1), pattern, with)
    }
}

/// The decimal digit that stands for `d`, for `d` below ten.
pub open spec fn digit(d: nat) -> char {
    if d == 0 {
        '0'
    } else if d == 1 {
        '1'
    } else if d == 2 {
        '2'
    } else if d == 3 {
        '3'
    } else if d == 4 {
        '4'
    } else if d == 5 {
        '5'
    } else if d == 6 {
        '6'
    } else if d == 7 {
        '7'
    } else if d == 8 {
        '8'
    } else {
        '9'
    }
}

/// `n` written in decimal, without leading zeros.
pub open spec fn decimal(n: nat) -> Seq<char>
    decreases n,
{
    if n < 10 {
        seq![digit(n)]
    } else {
        decimal(n / 10).push(digit(n % 10))
    }
}

/// An occurrence in what is left of `text` after `from` characters is an
/// occurrence in `text`, `from` places further on.
pub proof fn lemma_occurs_at_skip(text: Seq<char>, pattern: Seq<char>, from: int, at: int)
    requires
        0 <= from <= text.len(),
        0 <= at,
    ensures
        occurs_at(text.skip(from), pattern, at) == occurs_at(text, pattern, from + at),
{
    if at + pattern.len() <= text.len() - from {
        assert(text.skip(from).subrange(at, at + pattern.len()) =~= text.subrange(
            from + at,
            from + at + pattern.len(),
        ));
    }
}

/// `first_occurrence` gives a position where the pattern stands, with none
/// before it, and it gives none only where the pattern stands nowhere.
pub proof fn lemma_first_occurrence(text: Seq<char>, pattern: Seq<char>)
    ensures
        match first_occurrence(text, pattern) {
            Some(at) => {
                &&& occurs_at(text, pattern, at)
                &&& forall|before: int| 0 <= before < at ==> !occurs_at(text, pattern, before)
            },
            None => forall|at: int| !occurs_at(text, pattern, at),
        },
    decreases text.len(),
{
    if occurs_at(text, pattern, 0) {
    } else if text.len() == 0 {
    } else {
        let rest = text.skip(1);
        lemma_first_occurrence(rest, pattern);
        match first_occurrence(rest, pattern) {
            Some(at) => {
                lemma_occurs_at_skip(text, pattern, 1, at);
                assert forall|before: int| 0 <= before < at + 1 implies !occurs_at(
                    text,
                    pattern,
                    before,
                ) by {
                    if before > 0 {
                        lemma_occurs_at_skip(text, pattern, 1, before - 1);
                    }
                }
            },
            None => {
                assert forall|at: int| !occurs_at(text, pattern, at) by {
                    if at > 0 {
                        lemma_occurs_at_skip(text, pattern, 1, at - 1);
                    }
                }
            },
        }
    }
}

/// The characters of `text`, in order.
pub fn chars_of(text: &str) -> (chars: Vec<char>)
    ensures
        chars@ == text@,
{
    let mut chars: Vec<char> = Vec::new();
    for c in it: text.chars()
        invariant
            it.seq() == text@,
            chars@ == it.seq().take(it.index()),
    {
        chars.push(c);
    }
    chars
}

/// Tells whether `pattern` stands in `text` at position `at`.
pub fn matches_at(text: &Vec<char>, pattern: &Vec<char>, at: usize) -> (found: bool)
    ensures
        found == occurs_at(text@, pattern@, at as int),
{
    if at > text.len() || pattern.len() > text.len() - at {
        return false;
    }
    let mut k: usize = 0;
    while k < pattern.len()
        invariant
            k <= pattern.len(),
            at + pattern.len() <= text.len(),
            forall|j: int| 0 <= j < k ==> text@[at + j] == pattern@[j],
        decreases pattern.len() - k,
    {
        if text[at + k] != pattern[k] {
            return false;
        }
        k += 1;
    }
    assert(text@.subrange(at as int, at + pattern.len()) =~= pattern@);
    true
}

/// Finds the first occurrence of `pattern` in `text`.
pub fn find(text: &Vec<char>, pattern: &Vec<char>) -> (found: Option<usize>)
    ensures
        match found {
            Some(at) => {
                &&& first_occurrence(text@, pattern@) == Some(at as int)
                &&& at + pattern.len() <= text.len()
            },
            None => first_occurrence(text@, pattern@) is None,
        },
{
    let mut i: usize = 0;
    assert(text@.skip(0) =~= text@);
    loop
        invariant
            i <= text.len(),
            match first_occurrence(text@.skip(i as int), pattern@) {
                Some(at) => first_occurrence(text@, pattern@) == Some(at + i),
                None => first_occurrence(text@, pattern@) is None,
            },
        decreases text.len() - i,
    {
        proof {
            lemma_occurs_at_skip(text@, pattern@, i as int, 0);
        }
        if matches_at(text, pattern, i) {
            return Some(i);
        }
        if i == text.len() {
            return None;
        }
        assert(text@.skip(i as int).skip(1) =~= text@.skip(i + 1));
        i += 1;
    }
}

/// Replaces every occurrence of `pattern` in `text` by `with`, from left to
/// right and without overlap. An empty `pattern` leaves `text` as it is.
pub fn replace_all(text: &str, pattern: &str, with: &str) -> (result: String)
    ensures
        result@ == replaced(text@, pattern@, with@),
{
    let chars = chars_of(text);
    let wanted = chars_of(pattern);
    let n = chars.len();
    let m = wanted.len();
    if m == 0 || n < m {
        return text.to_owned();
    }
    let mut result = String::new();
    let mut kept: usize = 0;
    let mut i: usize = 0;
    assert(text@.skip(0) =~= text@);
    while i <= n - m
        invariant
            chars@ == text@,
            wanted@ == pattern@,
            n == chars.len(),
            m == wanted.len(),
            0 < m <= n,
            kept <= i <= n,
            replaced(text@, pattern@, with@) == result@ + text@.subrange(kept as int, i as int)
                + replaced(text@.skip(i as int), pattern@, with@),
        decreases n - i,
    {
        let ghost rest = text@.skip(i as int);
        proof {
            lemma_occurs_at_skip(text@, pattern@, i as int, 0);
        }
        if matches_at(&chars, &wanted, i) {
            assert(rest.skip(m as int) =~= text@.skip(i + m));
            result.append(text.substring_char(kept, i));
            result.append(with);
            i += m;
            kept = i;
        } else {
            assert(rest.skip(1) =~= text@.skip(i + 1));
            i += 1;
        }
    }
    result.append(text.substring_char(kept, n));
    result
}

/// The part of `text` before the first occurrence of `marker`: all of `text`
/// where `marker` does not occur in it.
pub fn text_before(text: &str, marker: &str) -> (result: String)
    ensures
        result@ == before_first(text@, marker@),
{
    let chars = chars_of(text);
    let wanted = chars_of(marker);
    match find(&chars, &wanted) {
        Some(at) => text.substring_char(0, at).to_owned(),
        None => text.to_owned(),
    }
}

/// The part of `text` after the first occurrence of `marker`, if there is one.
pub fn text_after(text: &str, marker: &str) -> (result: Option<String>)
    ensures
        match after_first(text@, marker@) {
            Some(rest) => result matches Some(found) && found@ == rest,
            None => result is None,
        },
{
    let chars = chars_of(text);
    let wanted = chars_of(marker);
    match find(&chars, &wanted) {
        Some(at) => Some(text.substring_char(at + wanted.len(), chars.len()).to_owned()),
        None => None,
    }
}

/// Writes `n` in decimal.
pub fn decimal_text(n: usize) -> (result: String)
    ensures
        result@ == decimal(n as nat),
    decreases n,
{
    let digits = "0123456789";
    proof {
        reveal_strlit("0123456789");
    }
    let d = n % 10;
    let last = digits.substring_char(d, d + 1);
    if n < 10 {
        last.to_owned()
    } else {
        let mut result = decimal_text(n / 10);
        result.append(last);
        result
    }
}

} // verus!
