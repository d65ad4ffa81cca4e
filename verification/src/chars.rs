//! Spec-level helpers for scanning character sequences: first occurrence
//! of a character, and leading/trailing runs of whitespace.
use vstd::prelude::*;

verus! {

/// Index of the first occurrence of `c` in `s`, or `s.len()` if absent.
pub open spec fn find_char(s: Seq<char>, c: char) -> int
    decreases s.len(),
{
    if s.len() == 0 {
        0
    } else if s[0] == c {
        0
    } else {
        1 + find_char(s.subrange(1, s.len() as int), c)
    }
}

pub proof fn lemma_find_char(s: Seq<char>, c: char)
    ensures
        0 <= find_char(s, c) <= s.len(),
        find_char(s, c) < s.len() ==> s[find_char(s, c)] == c,
        forall|i: int| 0 <= i < find_char(s, c) ==> s[i] != c,
    decreases s.len(),
{
    if s.len() != 0 && s[0] != c {
        let rest = s.subrange(1, s.len() as int);
        lemma_find_char(rest, c);
        assert forall|i: int| 0 <= i < find_char(s, c) implies s[i] != c by {
            if i > 0 {
                assert(rest[i - 1] != c);
            }
        }
    }
}

/// `find_char` is pinned down by its characteristic properties.
pub proof fn lemma_find_char_is(s: Seq<char>, c: char, j: int)
    requires
        0 <= j <= s.len(),
        forall|i: int| 0 <= i < j ==> s[i] != c,
        j < s.len() ==> s[j] == c,
    ensures
        find_char(s, c) == j,
    decreases s.len(),
{
    if s.len() != 0 && s[0] != c {
        let rest = s.subrange(1, s.len() as int);
        assert forall|i: int| 0 <= i < j - 1 implies rest[i] != c by {
            assert(rest[i] == s[i + 1]);
        }
        lemma_find_char_is(rest, c, j - 1);
    }
}

/// The whitespace characters that are trimmed off an interval argument.
pub open spec fn is_space(c: char) -> bool {
    c == ' ' || c == '\t' || c == '\n' || c == '\r'
}

/// Length of the run of whitespace at the front of `s`.
pub open spec fn lead_spaces(s: Seq<char>) -> int
    decreases s.len(),
{
    if s.len() == 0 {
        0
    } else if !is_space(s[0]) {
        0
    } else {
        1 + lead_spaces(s.subrange(1, s.len() as int))
    }
}

/// Length of the run of whitespace at the back of `s`.
pub open spec fn trail_spaces(s: Seq<char>) -> int
    decreases s.len(),
{
    if s.len() == 0 {
        0
    } else if !is_space(s[s.len() - 1]) {
        0
    } else {
        1 + trail_spaces(s.subrange(0, s.len() - 1))
    }
}

pub proof fn lemma_lead_spaces(s: Seq<char>)
    ensures
        0 <= lead_spaces(s) <= s.len(),
        forall|i: int| 0 <= i < lead_spaces(s) ==> is_space(s[i]),
        lead_spaces(s) < s.len() ==> !is_space(s[lead_spaces(s)]),
    decreases s.len(),
{
    if s.len() != 0 && is_space(s[0]) {
        let rest = s.subrange(1, s.len() as int);
        lemma_lead_spaces(rest);
        assert forall|i: int| 0 <= i < lead_spaces(s) implies is_space(s[i]) by {
            if i > 0 {
                assert(is_space(rest[i - 1]));
            }
        }
    }
}

pub proof fn lemma_lead_spaces_is(s: Seq<char>, j: int)
    requires
        0 <= j <= s.len(),
        forall|i: int| 0 <= i < j ==> is_space(s[i]),
        j < s.len() ==> !is_space(s[j]),
    ensures
        lead_spaces(s) == j,
    decreases s.len(),
{
    if s.len() != 0 && is_space(s[0]) {
        let rest = s.subrange(1, s.len() as int);
        assert forall|i: int| 0 <= i < j - 1 implies is_space(rest[i]) by {
            assert(rest[i] == s[i + 1]);
        }
        lemma_lead_spaces_is(rest, j - 1);
    }
}

pub proof fn lemma_trail_spaces(s: Seq<char>)
    ensures
        0 <= trail_spaces(s) <= s.len(),
        forall|i: int| s.len() - trail_spaces(s) <= i < s.len() ==> is_space(s[i]),
        trail_spaces(s) < s.len() ==> !is_space(s[s.len() - trail_spaces(s) - 1]),
    decreases s.len(),
{
    if s.len() != 0 && is_space(s[s.len() - 1]) {
        let rest = s.subrange(0, s.len() - 1);
        lemma_trail_spaces(rest);
        assert forall|i: int| s.len() - trail_spaces(s) <= i < s.len() implies is_space(
            s[i],
        ) by {
            if i < s.len() - 1 {
                assert(is_space(rest[i]));
            }
        }
    }
}

pub proof fn lemma_trail_spaces_is(s: Seq<char>, j: int)
    requires
        0 <= j <= s.len(),
        forall|i: int| s.len() - j <= i < s.len() ==> is_space(s[i]),
        j < s.len() ==> !is_space(s[s.len() - j - 1]),
    ensures
        trail_spaces(s) == j,
    decreases s.len(),
{
    if s.len() != 0 && is_space(s[s.len() - 1]) {
        let rest = s.subrange(0, s.len() - 1);
        assert forall|i: int| rest.len() - (j - 1) <= i < rest.len() implies is_space(
            rest[i],
        ) by {
            assert(rest[i] == s[i]);
        }
        lemma_trail_spaces_is(rest, j - 1);
    }
}

/// `s` with leading and trailing whitespace removed.
pub open spec fn trimmed(s: Seq<char>) -> Seq<char> {
    if lead_spaces(s) == s.len() {
        Seq::empty()
    } else {
        s.subrange(lead_spaces(s), s.len() - trail_spaces(s))
    }
}

/// When some character is not whitespace, the leading and trailing runs
/// do not overlap.
pub proof fn lemma_trim_bounds(s: Seq<char>)
    requires
        lead_spaces(s) < s.len(),
    ensures
        lead_spaces(s) < s.len() - trail_spaces(s),
        !is_space(s[lead_spaces(s)]),
        !is_space(s[s.len() - trail_spaces(s) - 1]),
{
    lemma_lead_spaces(s);
    lemma_trail_spaces(s);
    if trail_spaces(s) == s.len() {
        assert(is_space(s[lead_spaces(s)]));
    }
    if lead_spaces(s) >= s.len() - trail_spaces(s) {
        assert(is_space(s[lead_spaces(s)]));
    }
}

} // verus!
