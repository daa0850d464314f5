//! Verified text helpers: equality, case-insensitive matching, and token
//! search over character sequences.
//!
//! Case-insensitivity here is ASCII-only: `'A'..='Z'` fold onto `'a'..='z'`
//! and every other character only matches itself.

use vstd::prelude::*;
use vstd::string::StrSliceExecFns;

verus! {

/// Whether `c` is an ASCII upper-case letter.
pub open spec fn spec_is_ascii_upper(c: char) -> bool {
    'A' <= c && c <= 'Z'
}

/// Whether `c` equals the ASCII lower-case letter `l`, folding case: `c` may
/// be `l` itself or its upper-case form.
pub open spec fn spec_matches_lower(c: char, l: char) -> bool {
    c == l || (spec_is_ascii_upper(c) && c as u32 == l as u32 - 32)
}

/// Whether the two characters are equal up to ASCII case.
pub open spec fn spec_eq_ci(a: char, b: char) -> bool {
    a == b || (spec_is_ascii_upper(a) && a as u32 + 32 == b as u32) || (spec_is_ascii_upper(b)
        && b as u32 + 32 == a as u32)
}

/// Whether `s` spells `token` (given in lower case) at position `i`, up to
/// ASCII case.
pub open spec fn spec_token_at(s: Seq<char>, token: Seq<char>, i: int) -> bool {
    &&& 0 <= i
    &&& i + token.len() <= s.len()
    &&& forall|j: int| 0 <= j < token.len() ==> spec_matches_lower(s[i + j], #[trigger] token[j])
}

/// Whether `s` contains `token` (given in lower case) anywhere, up to ASCII
/// case.
pub open spec fn spec_contains_token(s: Seq<char>, token: Seq<char>) -> bool {
    exists|i: int| spec_token_at(s, token, i)
}

/// Whether `s` starts with `token` (given in lower case), up to ASCII case.
pub open spec fn spec_starts_with_token(s: Seq<char>, token: Seq<char>) -> bool {
    spec_token_at(s, token, 0)
}

/// Whether two texts are equal up to ASCII case.
pub open spec fn spec_eq_ignore_ascii_case(a: Seq<char>, b: Seq<char>) -> bool {
    a.len() == b.len() && forall|i: int| 0 <= i < a.len() ==> spec_eq_ci(a[i], b[i])
}

/// Character-for-character equality of two text slices.
pub fn str_eq(a: &str, b: &str) -> (r: bool)
    ensures
        r == (a@ == b@),
{
    let a_len = a.unicode_len();
    let b_len = b.unicode_len();
    if a_len != b_len {
        assert(a@ != b@);
        return false;
    }
    let mut i: usize = 0;
    while i < a_len
        invariant
            i <= a_len,
            a_len == a@.len(),
            b_len == b@.len(),
            a_len == b_len,
            forall|j: int| 0 <= j < i ==> a@[j] == b@[j],
        decreases a_len - i,
    {
        if a.get_char(i) != b.get_char(i) {
            assert(a@[i as int] != b@[i as int]);
            return false;
        }
        i += 1;
    }
    proof {
        assert(a@ =~= b@);
    }
    true
}

/// Whether `c` equals the lower-case letter `l` up to ASCII case.
pub fn matches_lower(c: char, l: char) -> (r: bool)
    ensures
        r == spec_matches_lower(c, l),
{
    c == l || ('A' <= c && c <= 'Z' && c as u32 + 32 == l as u32)
}

/// Whether the two characters are equal up to ASCII case.
pub fn eq_ci(a: char, b: char) -> (r: bool)
    ensures
        r == spec_eq_ci(a, b),
{
    a == b || ('A' <= a && a <= 'Z' && a as u32 + 32 == b as u32) || ('A' <= b && b <= 'Z' && b
        as u32 + 32 == a as u32)
}

/// Whether `s` spells `token` (a lower-case literal) at position `i`, up to
/// ASCII case.
pub fn token_at(s: &Vec<char>, token: &str, i: usize) -> (r: bool)
    requires
        i <= s@.len(),
    ensures
        r == spec_token_at(s@, token@, i as int),
{
    let token_len = token.unicode_len();
    if s.len() - i < token_len {
        return false;
    }
    let mut j: usize = 0;
    while j < token_len
        invariant
            j <= token_len,
            token_len == token@.len(),
            i + token_len <= s@.len(),
            s@.len() <= usize::MAX,
            forall|k: int| 0 <= k < j ==> spec_matches_lower(s@[i + k], #[trigger] token@[k]),
        decreases token_len - j,
    {
        if !matches_lower(s[i + j], token.get_char(j)) {
            assert(!spec_matches_lower(s@[i + j], token@[j as int]));
            return false;
        }
        j += 1;
    }
    true
}

/// Whether `s` contains `token` (a lower-case literal) anywhere, up to ASCII
/// case.
pub fn contains_token(s: &Vec<char>, token: &str) -> (r: bool)
    requires
        token@.len() > 0,
    ensures
        r == spec_contains_token(s@, token@),
{
    let mut i: usize = 0;
    while i < s.len()
        invariant
            i <= s@.len(),
            forall|k: int| 0 <= k < i ==> !spec_token_at(s@, token@, k),
        decreases s@.len() - i,
    {
        if token_at(s, token, i) {
            return true;
        }
        i += 1;
    }
    assert forall|k: int| !#[trigger] spec_token_at(s@, token@, k) by {
        if 0 <= k && k + token@.len() <= s@.len() {
            assert(k < s@.len());
        }
    }
    false
}

/// Whether two text slices are equal up to ASCII case.
pub fn str_eq_ignore_ascii_case(a: &str, b: &str) -> (r: bool)
    ensures
        r == spec_eq_ignore_ascii_case(a@, b@),
{
    let a_len = a.unicode_len();
    let b_len = b.unicode_len();
    if a_len != b_len {
        return false;
    }
    let mut i: usize = 0;
    while i < a_len
        invariant
            i <= a_len,
            a_len == a@.len(),
            b_len == b@.len(),
            a_len == b_len,
            forall|j: int| 0 <= j < i ==> spec_eq_ci(a@[j], b@[j]),
        decreases a_len - i,
    {
        if !eq_ci(a.get_char(i), b.get_char(i)) {
            assert(!spec_eq_ci(a@[i as int], b@[i as int]));
            return false;
        }
        i += 1;
    }
    true
}

/// The characters of `s`, as a vector.
pub fn chars_of(s: &str) -> (r: Vec<char>)
    ensures
        r@ == s@,
{
    let len = s.unicode_len();
    let mut r: Vec<char> = Vec::new();
    let mut i: usize = 0;
    while i < len
        invariant
            i <= len,
            len == s@.len(),
            r@ == s@.take(i as int),
        decreases len - i,
    {
        let c = s.get_char(i);
        r.push(c);
        proof {
            assert(r@ =~= s@.take(i as int + 1));
        }
        i += 1;
    }
    proof {
        assert(s@.take(len as int) =~= s@);
    }
    r
}

/// The position of the first `'\n'` at or after `i`, or the text length if
/// the rest of the text holds none.
pub open spec fn spec_line_end(s: Seq<char>, i: int) -> int
    decreases s.len() - i,
{
    if i < 0 {
        0
    } else if i >= s.len() {
        s.len() as int
    } else if s[i] == '\n' {
        i
    } else {
        spec_line_end(s, i + 1)
    }
}

/// The first newline at or after a valid position lies between that position
/// and the end of the text, with no newline before it.
pub proof fn lemma_line_end_bounds(s: Seq<char>, i: int)
    requires
        0 <= i <= s.len(),
    ensures
        i <= spec_line_end(s, i) <= s.len(),
        forall|k: int| i <= k < spec_line_end(s, i) ==> s[k] != '\n',
        spec_line_end(s, i) < s.len() ==> s[spec_line_end(s, i)] == '\n',
    decreases s.len() - i,
{
    if i < s.len() && s[i] != '\n' {
        lemma_line_end_bounds(s, i + 1);
    }
}

/// The position of the first newline at or after `i`.
pub fn find_line_end(s: &Vec<char>, i: usize) -> (r: usize)
    requires
        i <= s@.len(),
    ensures
        r == spec_line_end(s@, i as int),
        i <= r <= s@.len(),
{
    let mut j = i;
    while j < s.len()
        invariant
            i <= j <= s@.len(),
            spec_line_end(s@, i as int) == spec_line_end(s@, j as int),
        decreases s@.len() - j,
    {
        if s[j] == '\n' {
            return j;
        }
        j += 1;
    }
    j
}

} // verus!
