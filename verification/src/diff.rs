//! The diff analyzer: parses a unified-diff text into per-file, per-hunk
//! line-change statistics.
//!
//! The grammar accepted here is the unified-diff format as emitted by the
//! remote hosting API: any number of file sections, each opened by a
//! `--- <source>` line immediately followed by a `+++ <target>` line, then
//! any number of hunks.  A hunk is a `@@ -a[,b] +c[,d] @@` header followed by
//! exactly `b` source lines and `d` target lines, where a line starting with
//! `' '` counts for both sides, `'-'` for the source, `'+'` for the target,
//! and `'\'` (the missing-newline marker) for neither.  Lines outside file
//! sections that open no section are ignored; a hunk header or target header
//! with no file section open, a malformed header, a malformed hunk-body
//! line, and a hunk cut short by the end of the input are all parse errors.
//!
//! The parse is specified by the spec-level state machine [`spec_run`], which
//! consumes the text one line per step; [`PatchSet::parse`] is proved to
//! return exactly what the state machine yields.

use vstd::prelude::*;
use vstd::string::StrSliceExecFns;

use crate::text::chars_of;
use crate::text::find_line_end;
use crate::text::lemma_line_end_bounds;
use crate::text::spec_line_end;
use crate::text::str_eq;

verus! {

/// Mathematical model of one hunk: header positions and lengths, plus the
/// counted added (`+`) and removed (`-`) lines.
pub struct SpecHunk {
    pub source_start: int,
    pub source_length: int,
    pub target_start: int,
    pub target_length: int,
    pub added: int,
    pub removed: int,
}

/// Mathematical model of one patched file: its two header names and its
/// hunks.
pub struct SpecFile {
    pub source: Seq<char>,
    pub target: Seq<char>,
    pub hunks: Seq<SpecHunk>,
}

/// A contiguous block of changes within one file of a unified diff.
#[derive(Debug, Clone, Copy, PartialEq, Eq, Structural)]
pub struct Hunk {
    pub source_start: usize,
    pub source_length: usize,
    pub target_start: usize,
    pub target_length: usize,
    pub added: usize,
    pub removed: usize,
}

impl View for Hunk {
    type V = SpecHunk;

    open spec fn view(&self) -> SpecHunk {
        SpecHunk {
            source_start: self.source_start as int,
            source_length: self.source_length as int,
            target_start: self.target_start as int,
            target_length: self.target_length as int,
            added: self.added as int,
            removed: self.removed as int,
        }
    }
}

/// `max(added - removed, 0)`: the net added lines of a hunk, never negative.
pub open spec fn spec_net_added(h: SpecHunk) -> int {
    if h.added >= h.removed {
        h.added - h.removed
    } else {
        0
    }
}

impl Hunk {
    /// The net amount of added lines of this hunk: additions minus removals,
    /// floored at zero.  The floor is deliberate: the score rewards net
    /// contribution instead of rewarding large diffs that mostly delete.
    pub fn net_added(&self) -> (r: usize)
        ensures
            r == spec_net_added(self@),
    {
        if self.added > self.removed {
            self.added - self.removed
        } else {
            0
        }
    }
}

/// One file of a parsed unified diff.
#[derive(Debug, Clone)]
pub struct PatchedFile {
    pub source_file: String,
    pub target_file: String,
    pub hunks: Vec<Hunk>,
}

impl View for PatchedFile {
    type V = SpecFile;

    open spec fn view(&self) -> SpecFile {
        SpecFile {
            source: self.source_file@,
            target: self.target_file@,
            hunks: self.hunks@.map_values(|h: Hunk| h@),
        }
    }
}

/// Whether the file was newly added: its source name is the null device.
pub open spec fn spec_is_added_file(f: SpecFile) -> bool {
    f.source == "/dev/null"@
}

/// Whether the file was removed: its target name is the null device.
pub open spec fn spec_is_removed_file(f: SpecFile) -> bool {
    f.target == "/dev/null"@
}

/// Whether the file was modified in place (neither added nor removed).
pub open spec fn spec_is_modified_file(f: SpecFile) -> bool {
    !spec_is_added_file(f) && !spec_is_removed_file(f)
}

impl PatchedFile {
    /// Whether the file was newly added by this diff.
    pub fn is_added_file(&self) -> (r: bool)
        ensures
            r == spec_is_added_file(self@),
    {
        str_eq(self.source_file.as_str(), "/dev/null")
    }

    /// Whether the file was removed by this diff.
    pub fn is_removed_file(&self) -> (r: bool)
        ensures
            r == spec_is_removed_file(self@),
    {
        str_eq(self.target_file.as_str(), "/dev/null")
    }

    /// Whether the file was modified in place by this diff.
    pub fn is_modified_file(&self) -> (r: bool)
        ensures
            r == spec_is_modified_file(self@),
    {
        !self.is_added_file() && !self.is_removed_file()
    }
}

/// A parsed unified diff: a sequence of patched files.
#[derive(Debug, Clone)]
pub struct PatchSet {
    pub files: Vec<PatchedFile>,
}

/// The views of a sequence of patched files.
pub open spec fn spec_files_view(v: Seq<PatchedFile>) -> Seq<SpecFile> {
    v.map_values(|f: PatchedFile| f@)
}

impl View for PatchSet {
    type V = Seq<SpecFile>;

    open spec fn view(&self) -> Seq<SpecFile> {
        spec_files_view(self.files@)
    }
}

// ---------------------------------------------------------------------------
// Line and token geometry
// ---------------------------------------------------------------------------
/// The position of the first `'\t'` in `[i, e)`, or `e` if there is none.
pub open spec fn spec_tab_end(s: Seq<char>, i: int, e: int) -> int
    decreases e - i,
{
    if i >= e {
        e
    } else if 0 <= i < s.len() && s[i] == '\t' {
        i
    } else {
        spec_tab_end(s, i + 1, e)
    }
}

/// The first tab in a range lies inside the range.
pub proof fn lemma_tab_end_bounds(s: Seq<char>, i: int, e: int)
    requires
        i <= e,
    ensures
        i <= spec_tab_end(s, i, e) <= e,
    decreases e - i,
{
    if i < e && !(0 <= i < s.len() && s[i] == '\t') {
        lemma_tab_end_bounds(s, i + 1, e);
    }
}

/// Whether the characters of `p` occur in `s` starting exactly at `i`.
pub open spec fn spec_prefix_at(s: Seq<char>, i: int, p: Seq<char>) -> bool {
    &&& 0 <= i
    &&& i + p.len() <= s.len()
    &&& s.subrange(i, i + p.len() as int) == p
}

/// The file name carried by a `--- ` or `+++ ` header line starting at `i`:
/// the text after the four-character marker, up to the first tab or the end
/// of the line.
pub open spec fn spec_header_name(s: Seq<char>, i: int) -> Seq<char> {
    let start = i + 4;
    let stop = spec_tab_end(s, start, spec_line_end(s, i));
    if stop < start {
        Seq::empty()
    } else {
        s.subrange(start, stop)
    }
}

// ---------------------------------------------------------------------------
// Numbers
// ---------------------------------------------------------------------------
/// Whether `c` is an ASCII decimal digit.
pub open spec fn spec_is_digit(c: char) -> bool {
    '0' <= c && c <= '9'
}

/// The position of the first non-digit at or after `i`, or the text length.
pub open spec fn spec_digits_end(s: Seq<char>, i: int) -> int
    decreases s.len() - i,
{
    if i < 0 {
        i
    } else if i >= s.len() || !spec_is_digit(s[i]) {
        i
    } else {
        spec_digits_end(s, i + 1)
    }
}

/// The digit run starting at a valid position ends inside the text and
/// consists of digits.
pub proof fn lemma_digits_end_bounds(s: Seq<char>, i: int)
    requires
        0 <= i <= s.len(),
    ensures
        i <= spec_digits_end(s, i) <= s.len(),
        forall|k: int| i <= k < spec_digits_end(s, i) ==> spec_is_digit(#[trigger] s[k]),
    decreases s.len() - i,
{
    if i < s.len() && spec_is_digit(s[i]) {
        lemma_digits_end_bounds(s, i + 1);
    }
}

/// The decimal value of the digits of `s` in `[i, j)`.
pub open spec fn spec_num_val(s: Seq<char>, i: int, j: int) -> int
    decreases j - i,
{
    if j <= i {
        0
    } else {
        spec_num_val(s, i, j - 1) * 10 + (s[j - 1] as u32 - 48)
    }
}

/// The decimal value of a digit run is non-negative.
pub proof fn lemma_num_val_nonneg(s: Seq<char>, i: int, j: int)
    requires
        forall|m: int| i <= m < j ==> spec_is_digit(#[trigger] s[m]),
    ensures
        spec_num_val(s, i, j) >= 0,
    decreases j - i,
{
    if j > i {
        lemma_num_val_nonneg(s, i, j - 1);
        assert(spec_is_digit(s[j - 1]));
        assert(spec_num_val(s, i, j - 1) * 10 >= 0) by (nonlinear_arith)
            requires
                spec_num_val(s, i, j - 1) >= 0,
        ;
    }
}

/// Over a digit run, the decimal value of a prefix never exceeds the value
/// of the whole run.
pub proof fn lemma_num_val_mono(s: Seq<char>, i: int, k: int, j: int)
    requires
        i <= k <= j,
        forall|m: int| i <= m < j ==> spec_is_digit(#[trigger] s[m]),
    ensures
        spec_num_val(s, i, k) <= spec_num_val(s, i, j),
    decreases j - k,
{
    if k == j {
    } else {
        lemma_num_val_mono(s, i, k, j - 1);
        lemma_num_val_nonneg(s, i, j - 1);
        assert(spec_is_digit(s[j - 1]));
        assert(spec_num_val(s, i, j - 1) * 10 >= spec_num_val(s, i, j - 1)) by (nonlinear_arith)
            requires
                spec_num_val(s, i, j - 1) >= 0,
        ;
    }
}

/// The decimal number starting at `i`: its value and the position after its
/// last digit.  `None` when no digit stands at `i` or the value does not fit
/// a machine word.
pub open spec fn spec_parse_num(s: Seq<char>, i: int) -> Option<(int, int)> {
    let j = spec_digits_end(s, i);
    if 0 <= i && j > i && spec_num_val(s, i, j) <= usize::MAX {
        Some((spec_num_val(s, i, j), j))
    } else {
        None
    }
}

// ---------------------------------------------------------------------------
// Hunk headers
// ---------------------------------------------------------------------------
/// The hunk described by a `@@ -a[,b] +c[,d] @@` header line starting at
/// `i`, with omitted lengths defaulting to 1 and counted lines at zero;
/// `None` when the line is not of that shape.
pub open spec fn spec_parse_header(s: Seq<char>, i: int) -> Option<SpecHunk> {
    match spec_parse_num(s, i + 4) {
        None => None,
        Some((a, p1)) => {
            let bp = if 0 <= p1 < s.len() && s[p1] == ',' {
                match spec_parse_num(s, p1 + 1) {
                    None => (-1, p1),
                    Some((b, p2)) => (b, p2),
                }
            } else {
                (1, p1)
            };
            if bp.0 < 0 {
                None
            } else if spec_prefix_at(s, bp.1, " +"@) {
                match spec_parse_num(s, bp.1 + 2) {
                    None => None,
                    Some((c, p3)) => {
                        let dp = if 0 <= p3 < s.len() && s[p3] == ',' {
                            match spec_parse_num(s, p3 + 1) {
                                None => (-1, p3),
                                Some((d, p4)) => (d, p4),
                            }
                        } else {
                            (1, p3)
                        };
                        if dp.0 < 0 {
                            None
                        } else if spec_prefix_at(s, dp.1, " @@"@) {
                            Some(
                                SpecHunk {
                                    source_start: a,
                                    source_length: bp.0,
                                    target_start: c,
                                    target_length: dp.0,
                                    added: 0,
                                    removed: 0,
                                },
                            )
                        } else {
                            None
                        }
                    },
                }
            } else {
                None
            }
        },
    }
}

// ---------------------------------------------------------------------------
// The parsing state machine
// ---------------------------------------------------------------------------
/// The state of the line-driven parse: between file sections, after a
/// `--- ` header, inside a file section, or inside a hunk body with the
/// source and target lines still owed.
pub enum ParseState {
    Top,
    WantTarget { source: Seq<char> },
    InFile { file: SpecFile },
    InHunk { file: SpecFile, hunk: SpecHunk, src_left: int, tgt_left: int },
}

/// A file with one more hunk.
pub open spec fn spec_file_push(f: SpecFile, h: SpecHunk) -> SpecFile {
    SpecFile { source: f.source, target: f.target, hunks: f.hunks.push(h) }
}

/// What a parse ending in state `st` yields: the files seen so far, closing
/// a still-open file section; a dangling `--- ` header or an unfinished hunk
/// is an error.
pub open spec fn spec_finish(st: ParseState, acc: Seq<SpecFile>) -> Option<Seq<SpecFile>> {
    match st {
        ParseState::Top => Some(acc),
        ParseState::WantTarget { source } => None,
        ParseState::InFile { file } => Some(acc.push(file)),
        ParseState::InHunk { file, hunk, src_left, tgt_left } => None,
    }
}

/// The state after consuming one owed hunk-body line: back in the file
/// section once nothing more is owed.
pub open spec fn spec_hunk_next(
    file: SpecFile,
    hunk: SpecHunk,
    src_left: int,
    tgt_left: int,
) -> ParseState {
    if src_left == 0 && tgt_left == 0 {
        ParseState::InFile { file: spec_file_push(file, hunk) }
    } else {
        ParseState::InHunk { file, hunk, src_left, tgt_left }
    }
}

/// One step of the state machine applied to the hunk-body line starting at
/// `i`: which side the line counts for, and the successor state; `None` for
/// an overshooting or unrecognized line.
pub open spec fn spec_hunk_step(
    s: Seq<char>,
    i: int,
    file: SpecFile,
    hunk: SpecHunk,
    src_left: int,
    tgt_left: int,
) -> Option<ParseState> {
    let c = s[i];
    if c == ' ' {
        if src_left > 0 && tgt_left > 0 {
            Some(spec_hunk_next(file, hunk, src_left - 1, tgt_left - 1))
        } else {
            None
        }
    } else if c == '-' {
        if src_left > 0 {
            Some(
                spec_hunk_next(
                    file,
                    SpecHunk { removed: hunk.removed + 1, ..hunk },
                    src_left - 1,
                    tgt_left,
                ),
            )
        } else {
            None
        }
    } else if c == '+' {
        if tgt_left > 0 {
            Some(
                spec_hunk_next(
                    file,
                    SpecHunk { added: hunk.added + 1, ..hunk },
                    src_left,
                    tgt_left - 1,
                ),
            )
        } else {
            None
        }
    } else if c == '\\' {
        Some(ParseState::InHunk { file, hunk, src_left, tgt_left })
    } else {
        None
    }
}

/// The line-driven parse: starting at position `i` in state `st` with the
/// files in `acc` already closed, the files the rest of the text yields, or
/// `None` if it is malformed.  Each step consumes exactly one line.
pub open spec fn spec_run(s: Seq<char>, i: int, st: ParseState, acc: Seq<SpecFile>) -> Option<
    Seq<SpecFile>,
>
    decreases s.len() + 1 - i,
{
    if i < 0 {
        None
    } else if i >= s.len() {
        spec_finish(st, acc)
    } else {
        let e = spec_line_end(s, i);
        let j = if i < e && e <= s.len() {
            e + 1
        } else {
            i + 1
        };
        match st {
            ParseState::Top => {
                if spec_prefix_at(s, i, "--- "@) {
                    spec_run(s, j, ParseState::WantTarget { source: spec_header_name(s, i) }, acc)
                } else if spec_prefix_at(s, i, "+++ "@) {
                    None
                } else if spec_prefix_at(s, i, "@@ -"@) {
                    None
                } else {
                    spec_run(s, j, ParseState::Top, acc)
                }
            },
            ParseState::WantTarget { source } => {
                if spec_prefix_at(s, i, "+++ "@) {
                    spec_run(
                        s,
                        j,
                        ParseState::InFile {
                            file: SpecFile {
                                source,
                                target: spec_header_name(s, i),
                                hunks: Seq::empty(),
                            },
                        },
                        acc,
                    )
                } else {
                    None
                }
            },
            ParseState::InFile { file } => {
                if spec_prefix_at(s, i, "@@ -"@) {
                    match spec_parse_header(s, i) {
                        None => None,
                        Some(h) => {
                            if h.source_length == 0 && h.target_length == 0 {
                                spec_run(
                                    s,
                                    j,
                                    ParseState::InFile { file: spec_file_push(file, h) },
                                    acc,
                                )
                            } else {
                                spec_run(
                                    s,
                                    j,
                                    ParseState::InHunk {
                                        file,
                                        hunk: h,
                                        src_left: h.source_length,
                                        tgt_left: h.target_length,
                                    },
                                    acc,
                                )
                            }
                        },
                    }
                } else if spec_prefix_at(s, i, "--- "@) {
                    spec_run(
                        s,
                        j,
                        ParseState::WantTarget { source: spec_header_name(s, i) },
                        acc.push(file),
                    )
                } else if spec_prefix_at(s, i, "+++ "@) {
                    None
                } else {
                    spec_run(s, j, ParseState::Top, acc.push(file))
                }
            },
            ParseState::InHunk { file, hunk, src_left, tgt_left } => {
                match spec_hunk_step(s, i, file, hunk, src_left, tgt_left) {
                    None => None,
                    Some(st2) => spec_run(s, j, st2, acc),
                }
            },
        }
    }
}

/// What parsing a whole diff text yields.
pub open spec fn spec_parse_diff(s: Seq<char>) -> Option<Seq<SpecFile>> {
    spec_run(s, 0, ParseState::Top, Seq::empty())
}

// ---------------------------------------------------------------------------
// Executable parser
// ---------------------------------------------------------------------------
/// The position of the first tab in `[i, e)`, or `e`.
fn find_tab_end(s: &Vec<char>, i: usize, e: usize) -> (r: usize)
    requires
        i <= e <= s@.len(),
    ensures
        r == spec_tab_end(s@, i as int, e as int),
        i <= r <= e,
{
    let mut j = i;
    while j < e
        invariant
            i <= j <= e <= s@.len(),
            spec_tab_end(s@, i as int, e as int) == spec_tab_end(s@, j as int, e as int),
        decreases e - j,
    {
        if s[j] == '\t' {
            return j;
        }
        j += 1;
    }
    j
}

/// Whether the characters of the literal `p` occur in `s` starting at `i`.
fn prefix_at(s: &Vec<char>, i: usize, p: &str) -> (r: bool)
    ensures
        r == spec_prefix_at(s@, i as int, p@),
{
    let p_len = p.unicode_len();
    if s.len() < i || s.len() - i < p_len {
        assert(!spec_prefix_at(s@, i as int, p@));
        return false;
    }
    let mut j: usize = 0;
    while j < p_len
        invariant
            j <= p_len,
            p_len == p@.len(),
            i + p_len <= s@.len(),
            s@.len() <= usize::MAX,
            forall|k: int| 0 <= k < j ==> s@[i + k] == p@[k],
        decreases p_len - j,
    {
        if s[i + j] != p.get_char(j) {
            assert(s@.subrange(i as int, i + p@.len()) != p@) by {
                assert(s@.subrange(i as int, i + p@.len())[j as int] != p@[j as int]);
            }
            return false;
        }
        j += 1;
    }
    assert(s@.subrange(i as int, i + p@.len()) =~= p@);
    true
}

/// The decimal number starting at `i`, and the position after it.
fn parse_num(s: &Vec<char>, i: usize) -> (r: Option<(usize, usize)>)
    requires
        i <= s@.len(),
    ensures
        match r {
            Some(v) => spec_parse_num(s@, i as int) == Some((v.0 as int, v.1 as int)),
            None => spec_parse_num(s@, i as int) is None,
        },
{
    proof {
        lemma_digits_end_bounds(s@, i as int);
    }
    let mut j = i;
    while j < s.len() && '0' <= s[j] && s[j] <= '9'
        invariant
            i <= j <= s@.len(),
            spec_digits_end(s@, i as int) == spec_digits_end(s@, j as int),
        decreases s@.len() - j,
    {
        j += 1;
    }
    assert(j == spec_digits_end(s@, i as int));
    if j == i {
        return None;
    }
    let mut val: u128 = 0;
    let mut k = i;
    while k < j
        invariant
            i <= k <= j <= s@.len(),
            j == spec_digits_end(s@, i as int),
            forall|m: int| i <= m < j ==> spec_is_digit(#[trigger] s@[m]),
            val == spec_num_val(s@, i as int, k as int),
            val <= usize::MAX,
        decreases j - k,
    {
        let c = s[k];
        assert(spec_is_digit(s@[k as int]));
        let d = (c as u32) - 48;
        let next: u128 = val * 10 + (d as u128);
        assert(next == spec_num_val(s@, i as int, k as int + 1));
        if next > usize::MAX as u128 {
            proof {
                lemma_num_val_mono(s@, i as int, k as int + 1, j as int);
            }
            return None;
        }
        val = next;
        k += 1;
    }
    Some((val as usize, j))
}

/// The hunk described by the header line starting at `i`, with counted lines
/// at zero.
fn parse_header(s: &Vec<char>, i: usize) -> (r: Option<Hunk>)
    requires
        i + 4 <= s.len(),
    ensures
        match r {
            Some(h) => spec_parse_header(s@, i as int) == Some(h@),
            None => spec_parse_header(s@, i as int) is None,
        },
{
    let (a, p1) = match parse_num(s, i + 4) {
        None => { return None },
        Some(v) => v,
    };
    let (b, p2) = if p1 < s.len() && s[p1] == ',' {
        match parse_num(s, p1 + 1) {
            None => { return None },
            Some(v) => v,
        }
    } else {
        (1, p1)
    };
    if !prefix_at(s, p2, " +") {
        return None;
    }
    proof {
        reveal_strlit(" +");
    }
    let (c, p3) = match parse_num(s, p2 + 2) {
        None => { return None },
        Some(v) => v,
    };
    let (d, p4) = if p3 < s.len() && s[p3] == ',' {
        match parse_num(s, p3 + 1) {
            None => { return None },
            Some(v) => v,
        }
    } else {
        (1, p3)
    };
    if !prefix_at(s, p4, " @@") {
        return None;
    }
    Some(
        Hunk {
            source_start: a,
            source_length: b,
            target_start: c,
            target_length: d,
            added: 0,
            removed: 0,
        },
    )
}

/// The executable parsing state, mirroring [`ParseState`].
enum Phase {
    Top,
    WantTarget { source: String },
    InFile { file: PatchedFile },
    InHunk { file: PatchedFile, hunk: Hunk, src_left: usize, tgt_left: usize },
}

impl View for Phase {
    type V = ParseState;

    closed spec fn view(&self) -> ParseState {
        match self {
            Phase::Top => ParseState::Top,
            Phase::WantTarget { source } => ParseState::WantTarget { source: source@ },
            Phase::InFile { file } => ParseState::InFile { file: file@ },
            Phase::InHunk { file, hunk, src_left, tgt_left } => ParseState::InHunk {
                file: file@,
                hunk: hunk@,
                src_left: *src_left as int,
                tgt_left: *tgt_left as int,
            },
        }
    }
}

/// Counter bounds carried by the executable state: what a hunk still owes
/// never exceeds what its header announced, so its counters cannot overflow.
spec fn phase_bounds(p: &Phase) -> bool {
    match p {
        Phase::InHunk { file, hunk, src_left, tgt_left } => {
            &&& hunk.removed + *src_left <= hunk.source_length
            &&& hunk.added + *tgt_left <= hunk.target_length
        },
        _ => true,
    }
}

/// The file name carried by a header line starting at `i`, as a fresh
/// string.
fn header_name(text: &str, s: &Vec<char>, i: usize, e: usize) -> (r: String)
    requires
        text@ == s@,
        i + 4 <= s.len(),
        e == spec_line_end(s@, i as int),
        i <= e <= s@.len(),
    ensures
        r@ == spec_header_name(s@, i as int),
{
    let start = i + 4;
    if start > e {
        proof {
            assert(spec_tab_end(s@, start as int, e as int) == e);
        }
        String::new()
    } else {
        let end = find_tab_end(s, start, e);
        text.substring_char(start, end).to_owned()
    }
}

/// The successor state after consuming one owed hunk-body line.
fn hunk_next(file: PatchedFile, hunk: Hunk, src_left: usize, tgt_left: usize) -> (r: Phase)
    ensures
        r@ == spec_hunk_next(file@, hunk@, src_left as int, tgt_left as int),
        (hunk.removed + src_left <= hunk.source_length && hunk.added + tgt_left
            <= hunk.target_length) ==> phase_bounds(&r),
{
    if src_left == 0 && tgt_left == 0 {
        let mut file2 = file;
        let ghost old_file = file2@;
        file2.hunks.push(hunk);
        proof {
            assert(file2@.hunks =~= old_file.hunks.push(hunk@));
        }
        Phase::InFile { file: file2 }
    } else {
        Phase::InHunk { file, hunk, src_left, tgt_left }
    }
}

impl PatchSet {
    /// Parses a unified-diff text into per-file, per-hunk statistics.
    /// Returns `None` exactly when the text is malformed under the grammar
    /// of [`spec_run`].
    pub fn parse(text: &str) -> (r: Option<PatchSet>)
        requires
            text@.len() < usize::MAX,
        ensures
            match r {
                Some(ps) => spec_parse_diff(text@) == Some(ps@),
                None => spec_parse_diff(text@) is None,
            },
    {
        let s = chars_of(text);
        let len = s.len();
        let mut i: usize = 0;
        let mut phase = Phase::Top;
        let mut files: Vec<PatchedFile> = Vec::new();
        proof {
            assert(spec_files_view(files@) =~= Seq::<SpecFile>::empty());
        }
        while i < len
            invariant
                s@ == text@,
                len == s@.len(),
                len < usize::MAX,
                i <= len + 1,
                phase_bounds(&phase),
                spec_parse_diff(text@) == spec_run(s@, i as int, phase@, spec_files_view(files@)),
            decreases len + 1 - i,
        {
            let e = find_line_end(&s, i);
            proof {
                lemma_line_end_bounds(s@, i as int);
            }
            let j = e + 1;
            let ghost old_state = phase@;
            let ghost old_files = spec_files_view(files@);
            match phase {
                Phase::Top => {
                    if prefix_at(&s, i, "--- ") {
                        proof {
                            reveal_strlit("--- ");
                        }
                        let name = header_name(text, &s, i, e);
                        phase = Phase::WantTarget { source: name };
                    } else if prefix_at(&s, i, "+++ ") {
                        return None;
                    } else if prefix_at(&s, i, "@@ -") {
                        return None;
                    } else {
                        phase = Phase::Top;
                    }
                },
                Phase::WantTarget { source } => {
                    let ghost src_v = source@;
                    if prefix_at(&s, i, "+++ ") {
                        proof {
                            reveal_strlit("+++ ");
                        }
                        let name = header_name(text, &s, i, e);
                        phase = Phase::InFile {
                            file: PatchedFile {
                                source_file: source,
                                target_file: name,
                                hunks: Vec::new(),
                            },
                        };
                        proof {
                            assert(phase@ == (ParseState::InFile {
                                file: SpecFile {
                                    source: src_v,
                                    target: spec_header_name(s@, i as int),
                                    hunks: Seq::empty(),
                                },
                            })) by {
                                assert(Seq::<Hunk>::empty().map_values(|h: Hunk| h@)
                                    =~= Seq::<SpecHunk>::empty());
                            }
                        }
                    } else {
                        return None;
                    }
                },
                Phase::InFile { file } => {
                    let ghost file_v = file@;
                    if prefix_at(&s, i, "@@ -") {
                        proof {
                            reveal_strlit("@@ -");
                        }
                        match parse_header(&s, i) {
                            None => { return None },
                            Some(h) => {
                                if h.source_length == 0 && h.target_length == 0 {
                                    let mut file2 = file;
                                    file2.hunks.push(h);
                                    proof {
                                        assert(file2@.hunks =~= file_v.hunks.push(h@));
                                    }
                                    phase = Phase::InFile { file: file2 };
                                } else {
                                    phase = Phase::InHunk {
                                        file,
                                        hunk: h,
                                        src_left: h.source_length,
                                        tgt_left: h.target_length,
                                    };
                                }
                            },
                        }
                    } else if prefix_at(&s, i, "--- ") {
                        proof {
                            reveal_strlit("--- ");
                        }
                        let name = header_name(text, &s, i, e);
                        files.push(file);
                        phase = Phase::WantTarget { source: name };
                        proof {
                            assert(spec_files_view(files@) =~= old_files.push(file_v));
                        }
                    } else if prefix_at(&s, i, "+++ ") {
                        return None;
                    } else {
                        files.push(file);
                        phase = Phase::Top;
                        proof {
                            assert(spec_files_view(files@) =~= old_files.push(file_v));
                        }
                    }
                },
                Phase::InHunk { file, hunk, src_left, tgt_left } => {
                    let ghost file_v = file@;
                    let ghost hunk_v = hunk@;
                    let c = s[i];
                    if c == ' ' {
                        if src_left > 0 && tgt_left > 0 {
                            phase = hunk_next(file, hunk, src_left - 1, tgt_left - 1);
                        } else {
                            return None;
                        }
                    } else if c == '-' {
                        if src_left > 0 {
                            let hunk2 = Hunk { removed: hunk.removed + 1, ..hunk };
                            phase = hunk_next(file, hunk2, src_left - 1, tgt_left);
                        } else {
                            return None;
                        }
                    } else if c == '+' {
                        if tgt_left > 0 {
                            let hunk2 = Hunk { added: hunk.added + 1, ..hunk };
                            phase = hunk_next(file, hunk2, src_left, tgt_left - 1);
                        } else {
                            return None;
                        }
                    } else if c == '\\' {
                        phase = Phase::InHunk { file, hunk, src_left, tgt_left };
                    } else {
                        return None;
                    }
                },
            }
            i = j;
        }
        match phase {
            Phase::Top => Some(PatchSet { files }),
            Phase::InFile { file } => {
                let ghost old_files = spec_files_view(files@);
                let ghost file_v = file@;
                files.push(file);
                proof {
                    assert(spec_files_view(files@) =~= old_files.push(file_v));
                }
                Some(PatchSet { files })
            },
            Phase::WantTarget { .. } => None,
            Phase::InHunk { .. } => None,
        }
    }
}

/// Law: for every hunk, the net added lines equal the difference of added
/// and removed lines floored at zero, and are never negative.
pub proof fn lemma_net_added_law(h: SpecHunk)
    requires
        h.added >= 0,
        h.removed >= 0,
    ensures
        spec_net_added(h) >= 0,
        spec_net_added(h) == if h.added - h.removed >= 0 {
            h.added - h.removed
        } else {
            0
        },
{
}

} // verus!
