//! Detection of markdown attachment patterns — `[...](...)` with an
//! optional leading `!` — inside commentary text.
//!
//! The pattern is matched the way a backtracking scanner finds it: at each
//! position, an optional `!` must be followed by `[`, the bracket part is
//! greedy (the rightmost `](` of the line for which a closing `)` still
//! follows is taken), the parenthesis part is lazy (the first `)` after it
//! ends the match), and no part of a match crosses a line break.  Matches do
//! not overlap; scanning resumes right after each match.

use vstd::prelude::*;
use vstd::string::StrSliceExecFns;

use crate::text::chars_of;
use crate::text::find_line_end;
use crate::text::lemma_line_end_bounds;
use crate::text::spec_line_end;

verus! {

/// The last `')'` in `[from, hi)`, or -1 if there is none.
pub open spec fn spec_last_close(s: Seq<char>, from: int, hi: int) -> int
    decreases hi - from,
{
    if hi <= from {
        -1
    } else if 0 <= hi - 1 < s.len() && s[hi - 1] == ')' {
        hi - 1
    } else {
        spec_last_close(s, from, hi - 1)
    }
}

/// The last position `j` in `[from, hi)` with `s[j] == ']'` and
/// `s[j + 1] == '('`, or -1 if there is none.
pub open spec fn spec_last_bracket_paren(s: Seq<char>, from: int, hi: int) -> int
    decreases hi - from,
{
    if hi <= from {
        -1
    } else if 0 <= hi - 1 && hi < s.len() && s[hi - 1] == ']' && s[hi] == '(' {
        hi - 1
    } else {
        spec_last_bracket_paren(s, from, hi - 1)
    }
}

/// The first `')'` in `[from, e)`, or -1 if there is none.
pub open spec fn spec_first_close(s: Seq<char>, from: int, e: int) -> int
    decreases e - from,
{
    if from >= e {
        -1
    } else if 0 <= from < s.len() && s[from] == ')' {
        from
    } else {
        spec_first_close(s, from + 1, e)
    }
}

/// The end of the attachment pattern whose `[` stands at `p`: within `[`'s
/// line, the bracket part runs to the rightmost `](` that a `)` still
/// follows, and the parenthesis part to the first `)` after it.  -1 when the
/// line completes no such pattern.
pub open spec fn spec_core_end(s: Seq<char>, p: int) -> int {
    let e = spec_line_end(s, p);
    let kk = spec_last_close(s, p + 1, e);
    if kk < 0 {
        -1
    } else {
        let j = spec_last_bracket_paren(s, p + 1, kk - 1);
        if j < 0 {
            -1
        } else {
            let k = spec_first_close(s, j + 2, e);
            if k < 0 {
                -1
            } else {
                k + 1
            }
        }
    }
}

/// The end of the attachment pattern starting exactly at `i` (an optional
/// `!` followed by a `[...](...)` group), or -1 when none starts there.
pub open spec fn spec_match_end(s: Seq<char>, i: int) -> int {
    if 0 <= i < s.len() && s[i] == '!' {
        if i + 1 < s.len() && s[i + 1] == '[' {
            spec_core_end(s, i + 1)
        } else {
            -1
        }
    } else if 0 <= i < s.len() && s[i] == '[' {
        spec_core_end(s, i)
    } else {
        -1
    }
}

/// The non-overlapping attachment matches of `s` at or after `i`, in text
/// order, as (start, end) position pairs.
pub open spec fn spec_matches_from(s: Seq<char>, i: int) -> Seq<(int, int)>
    decreases s.len() - i,
{
    if !(0 <= i < s.len()) {
        Seq::empty()
    } else {
        let e = spec_match_end(s, i);
        if i < e <= s.len() {
            seq![(i, e)] + spec_matches_from(s, e)
        } else {
            spec_matches_from(s, i + 1)
        }
    }
}

/// The attachment matches of `s`, as the matched texts in text order.
pub open spec fn spec_attachments(s: Seq<char>) -> Seq<Seq<char>> {
    spec_matches_from(s, 0).map_values(|p: (int, int)| s.subrange(p.0, p.1))
}

/// The last `')'` in `[from, hi)`.
fn last_close(s: &Vec<char>, from: usize, hi: usize) -> (r: Option<usize>)
    requires
        from <= hi <= s@.len(),
    ensures
        match r {
            Some(v) => spec_last_close(s@, from as int, hi as int) == v && from <= v < hi,
            None => spec_last_close(s@, from as int, hi as int) == -1,
        },
{
    let mut k = hi;
    while k > from
        invariant
            from <= k <= hi <= s@.len(),
            spec_last_close(s@, from as int, hi as int) == spec_last_close(
                s@,
                from as int,
                k as int,
            ),
        decreases k,
    {
        if s[k - 1] == ')' {
            return Some(k - 1);
        }
        k -= 1;
    }
    None
}

/// The last `](` pair starting in `[from, hi)`.
fn last_bracket_paren(s: &Vec<char>, from: usize, hi: usize) -> (r: Option<usize>)
    requires
        from <= hi <= s@.len(),
    ensures
        match r {
            Some(v) => spec_last_bracket_paren(s@, from as int, hi as int) == v && from <= v < hi
                && v + 1 < s@.len(),
            None => spec_last_bracket_paren(s@, from as int, hi as int) == -1,
        },
{
    let mut k = hi;
    while k > from
        invariant
            from <= k <= hi <= s@.len(),
            spec_last_bracket_paren(s@, from as int, hi as int) == spec_last_bracket_paren(
                s@,
                from as int,
                k as int,
            ),
        decreases k,
    {
        if s[k - 1] == ']' && k < s.len() && s[k] == '(' {
            return Some(k - 1);
        }
        k -= 1;
    }
    None
}

/// The first `')'` in `[from, e)`.
fn first_close(s: &Vec<char>, from: usize, e: usize) -> (r: Option<usize>)
    requires
        from <= e <= s@.len(),
    ensures
        match r {
            Some(v) => spec_first_close(s@, from as int, e as int) == v && from <= v < e,
            None => spec_first_close(s@, from as int, e as int) == -1,
        },
{
    let mut k = from;
    while k < e
        invariant
            from <= k <= e <= s@.len(),
            spec_first_close(s@, from as int, e as int) == spec_first_close(s@, k as int, e as int),
        decreases e - k,
    {
        if s[k] == ')' {
            return Some(k);
        }
        k += 1;
    }
    None
}

/// The end of the attachment pattern whose `[` stands at `p`.
fn core_end(s: &Vec<char>, p: usize) -> (r: Option<usize>)
    requires
        p < s.len(),
        s@[p as int] != '\n',
    ensures
        match r {
            Some(v) => spec_core_end(s@, p as int) == v && p < v <= s@.len(),
            None => spec_core_end(s@, p as int) == -1,
        },
{
    let e = find_line_end(s, p);
    proof {
        lemma_line_end_bounds(s@, p as int);
        assert(e != p);
    }
    let kk = match last_close(s, p + 1, e) {
        None => { return None },
        Some(v) => v,
    };
    let j = if kk < p + 2 {
        proof {
            assert(spec_last_bracket_paren(s@, p + 1, kk - 1) == -1);
        }
        return None;
    } else {
        match last_bracket_paren(s, p + 1, kk - 1) {
            None => { return None },
            Some(v) => v,
        }
    };
    let k = match first_close(s, j + 2, e) {
        None => { return None },
        Some(v) => v,
    };
    Some(k + 1)
}

/// The end of the attachment pattern starting exactly at `i`.
fn match_end(s: &Vec<char>, i: usize) -> (r: Option<usize>)
    requires
        i < s.len(),
    ensures
        match r {
            Some(v) => spec_match_end(s@, i as int) == v && i < v <= s@.len(),
            None => spec_match_end(s@, i as int) == -1,
        },
{
    let c = s[i];
    if c == '!' {
        if i + 1 < s.len() && s[i + 1] == '[' {
            core_end(s, i + 1)
        } else {
            None
        }
    } else if c == '[' {
        core_end(s, i)
    } else {
        None
    }
}

/// All attachment patterns of `text`, as the matched texts in text order.
pub fn find_attachments(text: &str) -> (r: Vec<String>)
    ensures
        r.deep_view() == spec_attachments(text@),
{
    let s = chars_of(text);
    let len = s.len();
    let mut out: Vec<String> = Vec::new();
    let mut i: usize = 0;
    while i < len
        invariant
            s@ == text@,
            len == s@.len(),
            i <= len,
            spec_attachments(text@) == out.deep_view() + spec_matches_from(s@, i as int).map_values(
                |p: (int, int)| s@.subrange(p.0, p.1),
            ),
        decreases len - i,
    {
        let ghost old_out = out.deep_view();
        match match_end(&s, i) {
            Some(e) => {
                let piece = text.substring_char(i, e).to_owned();
                let ghost piece_v = piece@;
                out.push(piece);
                proof {
                    assert(out.deep_view() =~= old_out.push(piece_v));
                    assert(spec_matches_from(s@, i as int) == seq![(i as int, e as int)]
                        + spec_matches_from(s@, e as int));
                    assert(spec_matches_from(s@, i as int).map_values(
                        |p: (int, int)| s@.subrange(p.0, p.1),
                    ) =~= seq![s@.subrange(i as int, e as int)] + spec_matches_from(
                        s@,
                        e as int,
                    ).map_values(|p: (int, int)| s@.subrange(p.0, p.1)));
                    assert(old_out + spec_matches_from(s@, i as int).map_values(
                        |p: (int, int)| s@.subrange(p.0, p.1),
                    ) =~= out.deep_view() + spec_matches_from(s@, e as int).map_values(
                        |p: (int, int)| s@.subrange(p.0, p.1),
                    ));
                }
                i = e;
            },
            None => {
                proof {
                    assert(spec_matches_from(s@, i as int) == spec_matches_from(s@, i as int + 1));
                }
                i += 1;
            },
        }
    }
    proof {
        assert(spec_matches_from(s@, i as int) =~= Seq::<(int, int)>::empty());
        assert(spec_matches_from(s@, i as int).map_values(|p: (int, int)| s@.subrange(p.0, p.1))
            =~= Seq::<Seq<char>>::empty());
        assert(out.deep_view() + Seq::<Seq<char>>::empty() =~= out.deep_view());
    }
    out
}

} // verus!
