//! Repository-level aggregation: combining the per-PR metrics of many pull
//! requests into one repository score.
//!
//! Every metric kind except the flow ratio is a mean over the included PRs —
//! rounded up for the integer-valued kinds, kept as an exact fraction for
//! the ratio-valued kinds.  The flow ratio buckets PRs by creation day and
//! close day and averages, over the days that saw both kinds of activity,
//! the per-day created-to-closed quotients (each truncated to millionths);
//! days with activity on only one side are deliberately excluded rather
//! than treated as divisions by zero.  Failed retrievals are skipped: only
//! complete bundles contribute.

use vstd::prelude::*;

use crate::pull_request_data::PullRequestData;
use crate::pull_request_data::PullRequestDataResult;
use crate::pull_request_data::spec_ts_in_range;
use crate::score::Ratio;
use crate::score::Score;
use crate::score::ScoreType;
use crate::scorable::Scorable;
use crate::seqs::lemma_count_bounds;
use crate::seqs::lemma_dedup_len;
use crate::seqs::lemma_dedup_contains;
use crate::seqs::lemma_take_all;
use crate::seqs::lemma_take_succ;
use crate::seqs::spec_count;
use crate::seqs::spec_dedup;

verus! {

/// The retrieval outcomes of a whole repository sample, in listing order.
pub type RepositoryData = Vec<PullRequestDataResult>;

/// The scale at which per-day flow quotients are carried: millionths.
pub const FLOW_SCALE: u64 = 1_000_000;

// ---------------------------------------------------------------------------
// Day bucketing
// ---------------------------------------------------------------------------
/// The calendar day (days since the Unix epoch, rounded toward minus
/// infinity) a timestamp falls on.
pub open spec fn spec_day_of(t: i64) -> i64 {
    ((t as int) / 86400) as i64
}

/// Offset added to timestamps before dividing, a whole number of days that
/// makes every supported timestamp non-negative.
const DAY_OFFSET: i64 = 4_000_000_060_800;

/// `DAY_OFFSET` in days.
const DAY_OFFSET_DAYS: i64 = 46_296_297;

/// The calendar day a timestamp falls on.
pub fn day_of(t: i64) -> (r: i64)
    requires
        spec_ts_in_range(t as int),
    ensures
        r == spec_day_of(t),
        r as int == (t as int) / 86400,
{
    proof {
        vstd::arithmetic::div_mod::lemma_fundamental_div_mod(t as int, 86400);
        let q0 = (t as int) / 86400;
        let r0 = (t as int) % 86400;
        assert(t as int + DAY_OFFSET as int == (q0 + DAY_OFFSET_DAYS as int) * 86400 + r0)
            by (nonlinear_arith)
            requires
                t as int == 86400 * q0 + r0,
                DAY_OFFSET as int == DAY_OFFSET_DAYS as int * 86400,
        ;
        vstd::arithmetic::div_mod::lemma_fundamental_div_mod_converse(
            t as int + DAY_OFFSET as int,
            86400,
            q0 + DAY_OFFSET_DAYS as int,
            r0,
        );
    }
    let shifted = t + DAY_OFFSET;
    let q = (shifted as u64) / 86400;
    (q as i64) - DAY_OFFSET_DAYS
}

// ---------------------------------------------------------------------------
// Day counting
// ---------------------------------------------------------------------------
/// How often `x` occurs in `days`.
fn count_in(days: &Vec<i64>, x: i64) -> (r: u64)
    ensures
        r == spec_count(days@, x),
{
    let n = days.len();
    let mut acc: u64 = 0;
    let mut i: usize = 0;
    while i < n
        invariant
            i <= n,
            n == days@.len(),
            acc == spec_count(days@.take(i as int), x),
            acc <= i,
        decreases n - i,
    {
        proof {
            lemma_take_succ(days@, i as int);
            assert(spec_count(days@.take(i as int + 1), x) == spec_count(days@.take(i as int), x)
                + if days@[i as int] == x {
                1int
            } else {
                0int
            });
        }
        if days[i] == x {
            acc += 1;
        }
        i += 1;
    }
    proof {
        lemma_take_all(days@);
    }
    acc
}

/// The distinct days of `days` in first-appearance order, each with its
/// occurrence count.
fn count_by_day(days: &Vec<i64>) -> (r: Vec<(i64, u64)>)
    ensures
        r@.map_values(|p: (i64, u64)| p.0) == spec_dedup(days@),
        forall|j: int|
            0 <= j < r@.len() ==> (#[trigger] r@[j]).1 == spec_count(days@, r@[j].0) && r@[j].1 > 0,
{
    let n = days.len();
    let mut out: Vec<(i64, u64)> = Vec::new();
    let mut i: usize = 0;
    proof {
        assert(out@.map_values(|p: (i64, u64)| p.0) =~= spec_dedup(days@.take(0)));
    }
    while i < n
        invariant
            i <= n,
            n == days@.len(),
            out@.map_values(|p: (i64, u64)| p.0) == spec_dedup(days@.take(i as int)),
            forall|j: int|
                0 <= j < out@.len() ==> (#[trigger] out@[j]).1 == spec_count(days@, out@[j].0)
                    && out@[j].1 > 0,
        decreases n - i,
    {
        let d = days[i];
        let mut seen = false;
        let mut j: usize = 0;
        while j < i
            invariant
                j <= i <= n,
                n == days@.len(),
                d == days@[i as int],
                seen == days@.take(i as int).contains(d) || !seen,
                !seen ==> forall|k: int| 0 <= k < j ==> days@[k] != d,
                seen ==> days@.take(i as int).contains(d),
            decreases i - j,
        {
            if days[j] == d {
                proof {
                    assert(days@.take(i as int)[j as int] == d);
                }
                seen = true;
            }
            j += 1;
        }
        proof {
            if !seen {
                assert(!days@.take(i as int).contains(d)) by {
                    if days@.take(i as int).contains(d) {
                        let k = choose|k: int|
                            0 <= k < days@.take(i as int).len() && days@.take(i as int)[k] == d;
                        assert(days@[k] == d);
                    }
                }
            }
            lemma_take_succ(days@, i as int);
        }
        if !seen {
            let c = count_in(days, d);
            proof {
                lemma_count_bounds(days@, d);
                assert(days@.contains(d)) by {
                    assert(days@[i as int] == d);
                }
            }
            let ghost old_keys = out@.map_values(|p: (i64, u64)| p.0);
            out.push((d, c));
            proof {
                assert(out@.map_values(|p: (i64, u64)| p.0) =~= old_keys.push(d));
                assert(spec_dedup(days@.take(i as int + 1)) == old_keys.push(d));
            }
        } else {
            proof {
                assert(spec_dedup(days@.take(i as int + 1)) == spec_dedup(days@.take(i as int)));
            }
        }
        i += 1;
    }
    proof {
        lemma_take_all(days@);
    }
    out
}

/// The count stored beside `day`, if any.
fn find_count(counts: &Vec<(i64, u64)>, day: i64) -> (r: Option<u64>)
    ensures
        match r {
            Some(c) => exists|j: int| 0 <= j < counts@.len() && #[trigger] counts@[j] == (day, c),
            None => forall|j: int| 0 <= j < counts@.len() ==> (#[trigger] counts@[j]).0 != day,
        },
{
    let n = counts.len();
    let mut i: usize = 0;
    while i < n
        invariant
            i <= n,
            n == counts@.len(),
            forall|j: int| 0 <= j < i ==> (#[trigger] counts@[j]).0 != day,
        decreases n - i,
    {
        let (k, c) = counts[i];
        if k == day {
            proof {
                assert(counts@[i as int] == (day, c));
            }
            return Some(c);
        }
        i += 1;
    }
    None
}

// ---------------------------------------------------------------------------
// Flow ratio
// ---------------------------------------------------------------------------
/// The sum of the per-day flow quotients (created over closed, in
/// millionths, truncated) over the distinct creation days that saw at least
/// one closure.
pub open spec fn spec_flow_sum(cdays: Seq<i64>, created: Seq<i64>, closed: Seq<i64>) -> int
    decreases cdays.len(),
{
    if cdays.len() == 0 {
        0
    } else {
        spec_flow_sum(cdays.drop_last(), created, closed) + if spec_count(closed, cdays.last())
            > 0 {
            FLOW_SCALE as int * spec_count(created, cdays.last()) / spec_count(
                closed,
                cdays.last(),
            )
        } else {
            0
        }
    }
}

/// How many distinct creation days saw at least one closure.
pub open spec fn spec_flow_matched(cdays: Seq<i64>, closed: Seq<i64>) -> int
    decreases cdays.len(),
{
    if cdays.len() == 0 {
        0
    } else {
        spec_flow_matched(cdays.drop_last(), closed) + if spec_count(closed, cdays.last()) > 0 {
            1int
        } else {
            0int
        }
    }
}

/// The repository flow ratio over creation and close days: the mean of the
/// per-day created-to-closed quotients across the days present on both
/// sides, or the undefined sentinel when no day matches.
pub open spec fn spec_flow_ratio_days(created: Seq<i64>, closed: Seq<i64>) -> Option<Ratio> {
    let cdays = spec_dedup(created);
    let m = spec_flow_matched(cdays, closed);
    if m == 0 {
        None
    } else {
        Some(
            Ratio {
                num: spec_flow_sum(cdays, created, closed) as u128,
                den: (FLOW_SCALE as int * m) as u128,
            },
        )
    }
}

/// Computes the flow ratio from the creation days and close days of the
/// included PRs.
fn flow_ratio(created: &Vec<i64>, closed: &Vec<i64>) -> (r: Option<Ratio>)
    requires
        created@.len() <= 100,
        closed@.len() <= 100,
    ensures
        r == spec_flow_ratio_days(created@, closed@),
{
    let counts_c = count_by_day(created);
    let counts_z = count_by_day(closed);
    let ghost cdays = spec_dedup(created@);
    proof {
        assert(counts_c@.map_values(|p: (i64, u64)| p.0).len() == cdays.len());
        lemma_dedup_len(created@);
    }
    let n = counts_c.len();
    let mut sum: u64 = 0;
    let mut matched: u64 = 0;
    let mut i: usize = 0;
    while i < n
        invariant
            i <= n,
            n == counts_c@.len(),
            n == cdays.len(),
            n <= 100,
            created@.len() <= 100,
            closed@.len() <= 100,
            cdays == spec_dedup(created@),
            counts_c@.map_values(|p: (i64, u64)| p.0) == cdays,
            forall|j: int|
                0 <= j < counts_c@.len() ==> (#[trigger] counts_c@[j]).1 == spec_count(
                    created@,
                    counts_c@[j].0,
                ) && counts_c@[j].1 > 0,
            counts_z@.map_values(|p: (i64, u64)| p.0) == spec_dedup(closed@),
            forall|j: int|
                0 <= j < counts_z@.len() ==> (#[trigger] counts_z@[j]).1 == spec_count(
                    closed@,
                    counts_z@[j].0,
                ) && counts_z@[j].1 > 0,
            sum == spec_flow_sum(cdays.take(i as int), created@, closed@),
            sum <= i * (FLOW_SCALE as int * 100),
            matched == spec_flow_matched(cdays.take(i as int), closed@),
            matched <= i,
        decreases n - i,
    {
        let (day, c) = counts_c[i];
        proof {
            assert(counts_c@.map_values(|p: (i64, u64)| p.0)[i as int] == day);
            assert(cdays[i as int] == day);
            lemma_take_succ(cdays, i as int);
            assert(spec_flow_sum(cdays.take(i as int + 1), created@, closed@) == spec_flow_sum(
                cdays.take(i as int),
                created@,
                closed@,
            ) + if spec_count(closed@, day) > 0 {
                FLOW_SCALE as int * spec_count(created@, day) / spec_count(closed@, day)
            } else {
                0
            });
            assert(spec_flow_matched(cdays.take(i as int + 1), closed@) == spec_flow_matched(
                cdays.take(i as int),
                closed@,
            ) + if spec_count(closed@, day) > 0 {
                1int
            } else {
                0int
            });
            lemma_count_bounds(created@, day);
        }
        match find_count(&counts_z, day) {
            Some(z) => {
                proof {
                    let j = choose|j: int|
                        0 <= j < counts_z@.len() && #[trigger] counts_z@[j] == (day, z);
                    assert(counts_z@[j].1 == spec_count(closed@, counts_z@[j].0));
                    assert(z == spec_count(closed@, day));
                    assert(z > 0);
                    assert(c == spec_count(created@, day));
                    assert(c <= 100);
                    vstd::arithmetic::div_mod::lemma_div_nonincreasing(
                        FLOW_SCALE as int * c as int,
                        z as int,
                    );
                    assert(FLOW_SCALE as int * c as int <= FLOW_SCALE as int * 100)
                        by (nonlinear_arith)
                        requires
                            c as int <= 100,
                    ;
                    assert((i + 1) * (FLOW_SCALE as int * 100) == i * (FLOW_SCALE as int * 100) + (
                    FLOW_SCALE as int * 100)) by (nonlinear_arith);
                    assert((i + 1) as int * (FLOW_SCALE as int * 100) <= 100 * (FLOW_SCALE as int
                        * 100)) by (nonlinear_arith)
                        requires
                            i as int + 1 <= 100,
                    ;
                }
                let term = FLOW_SCALE * c / z;
                sum = sum + term;
                matched = matched + 1;
            },
            None => {
                proof {
                    if spec_count(closed@, day) > 0 {
                        lemma_count_bounds(closed@, day);
                        lemma_dedup_contains(closed@);
                        assert(spec_dedup(closed@).contains(day));
                        let j = choose|j: int|
                            0 <= j < spec_dedup(closed@).len() && spec_dedup(closed@)[j] == day;
                        assert(counts_z@.map_values(|p: (i64, u64)| p.0)[j] == day);
                        assert((counts_z@[j]).0 == day);
                    }
                    assert((i + 1) * (FLOW_SCALE as int * 100) >= i * (FLOW_SCALE as int * 100))
                        by (nonlinear_arith);
                }
            },
        }
        i += 1;
    }
    proof {
        lemma_take_all(cdays);
    }
    if matched == 0 {
        None
    } else {
        Some(Ratio { num: sum as u128, den: (FLOW_SCALE as u128) * (matched as u128) })
    }
}

// ---------------------------------------------------------------------------
// Included bundles
// ---------------------------------------------------------------------------
/// The complete bundles among a sequence of retrieval outcomes, in order;
/// failures contribute nothing.
pub open spec fn spec_ok_bundles(s: Seq<PullRequestDataResult>) -> Seq<PullRequestData>
    decreases s.len(),
{
    if s.len() == 0 {
        Seq::empty()
    } else {
        spec_ok_bundles(s.drop_last()) + match s.last() {
            Ok(p) => seq![p],
            Err(_) => Seq::empty(),
        }
    }
}

/// The included bundles of a prefix are a prefix of the included bundles.
pub proof fn lemma_ok_bundles_prefix(s: Seq<PullRequestDataResult>, i: int)
    requires
        0 <= i <= s.len(),
    ensures
        spec_ok_bundles(s.take(i)).len() <= spec_ok_bundles(s).len(),
        forall|j: int|
            0 <= j < spec_ok_bundles(s.take(i)).len() ==> spec_ok_bundles(s.take(i))[j]
                == spec_ok_bundles(s)[j],
    decreases s.len() - i,
{
    if i == s.len() {
        lemma_take_all(s);
    } else {
        lemma_ok_bundles_prefix(s, i + 1);
        lemma_take_succ(s, i);
        assert(spec_ok_bundles(s.take(i + 1)) == spec_ok_bundles(s.take(i)) + match s[i] {
            Ok(p) => seq![p],
            Err(_) => Seq::<PullRequestData>::empty(),
        });
    }
}

// ---------------------------------------------------------------------------
// Metric sums over the included bundles
// ---------------------------------------------------------------------------
/// Sum of per-PR participant counts.
pub open spec fn spec_sum_participants(prs: Seq<PullRequestData>) -> int
    decreases prs.len(),
{
    if prs.len() == 0 {
        0
    } else {
        spec_sum_participants(prs.drop_last()) + prs.last().spec_participants().len()
    }
}

/// Sum of per-PR review-author counts.
pub open spec fn spec_sum_reviewers(prs: Seq<PullRequestData>) -> int
    decreases prs.len(),
{
    if prs.len() == 0 {
        0
    } else {
        spec_sum_reviewers(prs.drop_last()) + prs.last().spec_reviewers().len()
    }
}

/// Sum of per-PR attachment counts.
pub open spec fn spec_sum_attachments(prs: Seq<PullRequestData>) -> int
    decreases prs.len(),
{
    if prs.len() == 0 {
        0
    } else {
        spec_sum_attachments(prs.drop_last()) + prs.last().spec_attachments_all().len()
    }
}

/// Sum of per-PR discussion sizes (all commentary characters).
pub open spec fn spec_sum_discussion(prs: Seq<PullRequestData>) -> int
    decreases prs.len(),
{
    if prs.len() == 0 {
        0
    } else {
        spec_sum_discussion(prs.drop_last()) + prs.last().spec_all_chars()
    }
}

/// Sum of per-PR lead times in days.
pub open spec fn spec_sum_lead(prs: Seq<PullRequestData>) -> int
    decreases prs.len(),
{
    if prs.len() == 0 {
        0
    } else {
        spec_sum_lead(prs.drop_last()) + prs.last().spec_lead_time()
    }
}

/// Sum of per-PR sizes (total changed lines).
pub open spec fn spec_sum_size(prs: Seq<PullRequestData>) -> int
    decreases prs.len(),
{
    if prs.len() == 0 {
        0
    } else {
        spec_sum_size(prs.drop_last()) + prs.last().spec_changes_total()
    }
}

/// Sum of per-PR times to merge in days.
pub open spec fn spec_sum_ttm(prs: Seq<PullRequestData>) -> int
    decreases prs.len(),
{
    if prs.len() == 0 {
        0
    } else {
        spec_sum_ttm(prs.drop_last()) + prs.last().spec_time_to_merge()
    }
}

/// Sum of per-PR net non-test lines.
pub open spec fn spec_sum_loc(prs: Seq<PullRequestData>) -> int
    decreases prs.len(),
{
    if prs.len() == 0 {
        0
    } else {
        spec_sum_loc(prs.drop_last()) + prs.last().spec_net_non_test()
    }
}

/// Sum of per-PR net test lines.
pub open spec fn spec_sum_test_loc(prs: Seq<PullRequestData>) -> int
    decreases prs.len(),
{
    if prs.len() == 0 {
        0
    } else {
        spec_sum_test_loc(prs.drop_last()) + prs.last().spec_net_test()
    }
}

/// Sum of the defined per-PR commentary-ratio numerators (in hundredths).
pub open spec fn spec_sum_cr_num(prs: Seq<PullRequestData>) -> int
    decreases prs.len(),
{
    if prs.len() == 0 {
        0
    } else {
        spec_sum_cr_num(prs.drop_last()) + match prs.last().spec_commentary_ratio() {
            Some(r) => r.num as int,
            None => 0,
        }
    }
}

/// Whether any included PR has an undefined commentary ratio (a zero-change
/// PR); the repository mean is then undefined too.
pub open spec fn spec_any_cr_undef(prs: Seq<PullRequestData>) -> bool
    decreases prs.len(),
{
    if prs.len() == 0 {
        false
    } else {
        spec_any_cr_undef(prs.drop_last()) || prs.last().spec_commentary_ratio() is None
    }
}

/// Sum of the per-PR test-to-code-ratio numerators (in hundredths).
pub open spec fn spec_sum_tr_num(prs: Seq<PullRequestData>) -> int
    decreases prs.len(),
{
    if prs.len() == 0 {
        0
    } else {
        spec_sum_tr_num(prs.drop_last()) + prs.last().spec_test_ratio().num as int
    }
}

/// The creation days of the included bundles, in order.
pub open spec fn spec_created_days(prs: Seq<PullRequestData>) -> Seq<i64> {
    prs.map_values(|p: PullRequestData| spec_day_of(p.created_at))
}

/// The close days of the included bundles, in order.
pub open spec fn spec_closed_days(prs: Seq<PullRequestData>) -> Seq<i64> {
    prs.map_values(|p: PullRequestData| spec_day_of(p.closed_at))
}

// ---------------------------------------------------------------------------
// Averaging
// ---------------------------------------------------------------------------
/// Ceiling division, used when averaging integer-valued metrics.
pub fn div_ceil_u128(a: u128, b: u128) -> (r: u128)
    requires
        b > 0,
    ensures
        r == (a + b - 1) as int / b as int,
{
    let q = a / b;
    let m = a % b;
    proof {
        vstd::arithmetic::div_mod::lemma_fundamental_div_mod(a as int, b as int);
        assert(a as int == b as int * q as int + m as int);
        if m == 0 {
            assert(a as int + b as int - 1 == q as int * b as int + (b as int - 1))
                by (nonlinear_arith)
                requires
                    a as int == b as int * q as int + m as int,
                    m == 0,
            ;
            vstd::arithmetic::div_mod::lemma_fundamental_div_mod_converse(
                a as int + b as int - 1,
                b as int,
                q as int,
                b as int - 1,
            );
        } else {
            assert(a as int + b as int - 1 == (q as int + 1) * b as int + (m as int - 1))
                by (nonlinear_arith)
                requires
                    a as int == b as int * q as int + m as int,
            ;
            vstd::arithmetic::div_mod::lemma_fundamental_div_mod_converse(
                a as int + b as int - 1,
                b as int,
                q as int + 1,
                m as int - 1,
            );
            assert(b as int * q as int >= 2 * q as int) by (nonlinear_arith)
                requires
                    b as int >= 2,
                    q as int >= 0,
            ;
        }
    }
    if m == 0 {
        q
    } else {
        q + 1
    }
}

/// A sum of `k` terms bounded by `m` grows to at most `k + 1` such terms.
proof fn lemma_sum_step(s: int, t: int, k: int, m: int)
    requires
        0 <= s,
        s <= k * m,
        0 <= t <= m,
        0 <= k,
    ensures
        s + t <= (k + 1) * m,
{
    assert((k + 1) * m == k * m + m) by (nonlinear_arith);
}

/// At most one hundred bounded terms stay under one hundred times the
/// bound.
proof fn lemma_scaled_bound(k: int, m: int)
    requires
        0 <= k <= 100,
        0 <= m,
    ensures
        k * m <= 100 * m,
{
    assert(k * m <= 100 * m) by (nonlinear_arith)
        requires
            0 <= k <= 100,
            0 <= m,
    ;
}

/// The ceiling of a mean of terms bounded by `m` is itself bounded by `m`.
proof fn lemma_div_ceil_le(sum: int, n: int, m: int)
    requires
        0 <= sum,
        sum <= n * m,
        1 <= n,
        0 <= m,
    ensures
        0 <= (sum + n - 1) / n <= m,
{
    assert(n * m + (n - 1) == m * n + (n - 1)) by (nonlinear_arith);
    vstd::arithmetic::div_mod::lemma_fundamental_div_mod_converse(n * m + n - 1, n, m, n - 1);
    vstd::arithmetic::div_mod::lemma_div_is_ordered(sum + n - 1, n * m + n - 1, n);
    vstd::arithmetic::div_mod::lemma_div_pos_is_pos(sum + n - 1, n);
}

/// The floor of a mean of terms bounded by `m` is itself bounded by `m`.
proof fn lemma_div_le(sum: int, n: int, m: int)
    requires
        0 <= sum,
        sum <= n * m,
        1 <= n,
        0 <= m,
    ensures
        0 <= sum / n <= m,
{
    assert(n * m == m * n + 0) by (nonlinear_arith);
    vstd::arithmetic::div_mod::lemma_fundamental_div_mod_converse(n * m, n, m, 0);
    vstd::arithmetic::div_mod::lemma_div_is_ordered(sum, n * m, n);
    vstd::arithmetic::div_mod::lemma_div_pos_is_pos(sum, n);
}

impl Scorable for RepositoryData {
    /// Scoring is defined when at least one and at most one hundred
    /// complete, well-formed bundles are included; the sample size is
    /// bounded by the sampling rules, and enforcing it is the caller's
    /// responsibility.
    open spec fn score_wf(&self) -> bool {
        let oks = spec_ok_bundles(self@);
        &&& 1 <= oks.len() <= 100
        &&& forall|i: int| 0 <= i < oks.len() ==> (#[trigger] oks[i]).bundle_wf()
    }

    /// A repository score carries no PR number.
    open spec fn spec_pr_number(&self) -> Option<u64> {
        None
    }

    /// The repository metric values, in kind order: the mean of every
    /// per-PR metric — rounded up for integer-valued kinds, an exact
    /// fraction for ratio-valued kinds — plus the flow ratio, which only
    /// exists at repository level.
    open spec fn spec_scores(&self) -> Seq<ScoreType> {
        let oks = spec_ok_bundles(self@);
        let n = oks.len() as int;
        seq![
            ScoreType::AmountOfParticipants(((spec_sum_participants(oks) + n - 1) / n) as u64),
            ScoreType::AmountOfReviewers(((spec_sum_reviewers(oks) + n - 1) / n) as u64),
            ScoreType::Attachments(((spec_sum_attachments(oks) + n - 1) / n) as u64),
            ScoreType::AuthorCommentaryToChangesRatio(
                if spec_any_cr_undef(oks) {
                    None
                } else {
                    Some(
                        Ratio { num: spec_sum_cr_num(oks) as u128, den: (100 * n) as u128 },
                    )
                },
            ),
            ScoreType::PullRequestsDiscussionSize(
                ((spec_sum_discussion(oks) + n - 1) / n) as usize,
            ),
            ScoreType::PullRequestFlowRatio(
                spec_flow_ratio_days(spec_created_days(oks), spec_closed_days(oks)),
            ),
            ScoreType::PullRequestLeadTime(((spec_sum_lead(oks) + n - 1) / n) as u64),
            ScoreType::PullRequestSize(((spec_sum_size(oks) + n - 1) / n) as usize),
            ScoreType::TestToCodeRatio {
                loc: (spec_sum_loc(oks) / n) as usize,
                test_loc: (spec_sum_test_loc(oks) / n) as usize,
                ratio: Ratio { num: spec_sum_tr_num(oks) as u128, den: (100 * n) as u128 },
            },
            ScoreType::TimeToMerge(((spec_sum_ttm(oks) + n - 1) / n) as u64),
        ]
    }

    /// Derives the repository's score from the successful retrievals;
    /// failed ones are skipped.
    fn get_score(&self) -> (r: Score)
        ensures
            r.pr_number == self.spec_pr_number(),
            r.score@ == self.spec_scores(),
    {
        let ghost oks = spec_ok_bundles(self@);
        let total = self.len();
        let mut sum_part: u128 = 0;
        let mut sum_rev: u128 = 0;
        let mut sum_att: u128 = 0;
        let mut sum_disc: u128 = 0;
        let mut sum_lead: u128 = 0;
        let mut sum_size: u128 = 0;
        let mut sum_ttm: u128 = 0;
        let mut sum_loc: u128 = 0;
        let mut sum_tloc: u128 = 0;
        let mut sum_cr: u128 = 0;
        let mut sum_tr: u128 = 0;
        let mut any_undef: bool = false;
        let mut days_c: Vec<i64> = Vec::new();
        let mut days_z: Vec<i64> = Vec::new();
        let mut k: usize = 0;
        let mut i: usize = 0;
        proof {
            assert(spec_ok_bundles(self@.take(0)) =~= Seq::<PullRequestData>::empty());
            assert(days_c@ =~= spec_created_days(oks.take(0)));
            assert(days_z@ =~= spec_closed_days(oks.take(0)));
        }
        while i < total
            invariant
                i <= total,
                total == self@.len(),
                oks == spec_ok_bundles(self@),
                1 <= oks.len() <= 100,
                forall|j: int| 0 <= j < oks.len() ==> (#[trigger] oks[j]).bundle_wf(),
                k == spec_ok_bundles(self@.take(i as int)).len(),
                k <= oks.len(),
                spec_ok_bundles(self@.take(i as int)) == oks.take(k as int),
                sum_part == spec_sum_participants(oks.take(k as int)),
                sum_part <= k * (usize::MAX as int),
                sum_rev == spec_sum_reviewers(oks.take(k as int)),
                sum_rev <= k * (usize::MAX as int),
                sum_att == spec_sum_attachments(oks.take(k as int)),
                sum_att <= k * (usize::MAX as int),
                sum_disc == spec_sum_discussion(oks.take(k as int)),
                sum_disc <= k * (usize::MAX as int),
                sum_lead == spec_sum_lead(oks.take(k as int)),
                sum_lead <= k * (u64::MAX as int),
                sum_size == spec_sum_size(oks.take(k as int)),
                sum_size <= k * (usize::MAX as int),
                sum_ttm == spec_sum_ttm(oks.take(k as int)),
                sum_ttm <= k * (u64::MAX as int),
                sum_loc == spec_sum_loc(oks.take(k as int)),
                sum_loc <= k * (usize::MAX as int),
                sum_tloc == spec_sum_test_loc(oks.take(k as int)),
                sum_tloc <= k * (usize::MAX as int),
                sum_cr == spec_sum_cr_num(oks.take(k as int)),
                sum_cr <= k * (100 * (usize::MAX as int)),
                sum_tr == spec_sum_tr_num(oks.take(k as int)),
                sum_tr <= k * (100 * (usize::MAX as int)),
                any_undef == spec_any_cr_undef(oks.take(k as int)),
                days_c@ == spec_created_days(oks.take(k as int)),
                days_z@ == spec_closed_days(oks.take(k as int)),
            decreases total - i,
        {
            proof {
                lemma_take_succ(self@, i as int);
                assert(spec_ok_bundles(self@.take(i as int + 1)) == spec_ok_bundles(
                    self@.take(i as int),
                ) + match self@[i as int] {
                    Ok(p) => seq![p],
                    Err(_) => Seq::<PullRequestData>::empty(),
                });
                lemma_ok_bundles_prefix(self@, i as int + 1);
            }
            match &self[i] {
                Ok(p) => {
                    proof {
                        assert(spec_ok_bundles(self@.take(i as int + 1)) =~= oks.take(
                            k as int,
                        ).push(*p));
                        assert(oks.take(k as int).push(*p).len() == k + 1);
                        assert(spec_ok_bundles(self@.take(i as int + 1))[k as int] == *p);
                        assert(oks[k as int] == *p);
                        assert(p.bundle_wf());
                        p.lemma_author_chars_le_all();
                        crate::pull_request_data::lemma_net_le_changes(p.patch_set.files@, true);
                        crate::pull_request_data::lemma_net_le_changes(p.patch_set.files@, false);
                        lemma_take_succ(oks, k as int);
                    }
                    let parts = p.get_non_authoring_participants().len();
                    let revs = p.get_non_authoring_reviewers().len();
                    let atts = p.get_attachments_markdown().len();
                    let author_chars = p.get_amount_of_author_commentary();
                    let all_chars = p.get_amount_of_commentary();
                    let changes = p.get_amount_of_changes();
                    let net_test = p.get_amount_of_net_added_test_lines();
                    let net_non_test = p.get_amount_of_net_added_non_test_lines();
                    let lead = p.lead_time();
                    let ttm = p.time_to_merge();
                    proof {
                        assert(parts == p.spec_participants().len());
                        assert(revs == p.spec_reviewers().len());
                        assert(atts == p.spec_attachments_all().len());
                        lemma_sum_step(
                            sum_part as int,
                            parts as int,
                            k as int,
                            usize::MAX as int,
                        );
                        lemma_sum_step(sum_rev as int, revs as int, k as int, usize::MAX as int);
                        lemma_sum_step(sum_att as int, atts as int, k as int, usize::MAX as int);
                        lemma_sum_step(
                            sum_disc as int,
                            all_chars as int,
                            k as int,
                            usize::MAX as int,
                        );
                        lemma_sum_step(sum_lead as int, lead as int, k as int, u64::MAX as int);
                        lemma_sum_step(
                            sum_size as int,
                            changes as int,
                            k as int,
                            usize::MAX as int,
                        );
                        lemma_sum_step(sum_ttm as int, ttm as int, k as int, u64::MAX as int);
                        lemma_sum_step(
                            sum_loc as int,
                            net_non_test as int,
                            k as int,
                            usize::MAX as int,
                        );
                        lemma_sum_step(
                            sum_tloc as int,
                            net_test as int,
                            k as int,
                            usize::MAX as int,
                        );
                        lemma_scaled_bound(k as int + 1, usize::MAX as int);
                        lemma_scaled_bound(k as int + 1, u64::MAX as int);
                        lemma_scaled_bound(k as int + 1, 100 * (usize::MAX as int));
                    }
                    sum_part = sum_part + (parts as u128);
                    sum_rev = sum_rev + (revs as u128);
                    sum_att = sum_att + (atts as u128);
                    sum_disc = sum_disc + (all_chars as u128);
                    sum_lead = sum_lead + (lead as u128);
                    sum_size = sum_size + (changes as u128);
                    sum_ttm = sum_ttm + (ttm as u128);
                    sum_loc = sum_loc + (net_non_test as u128);
                    sum_tloc = sum_tloc + (net_test as u128);
                    if changes == 0 {
                        any_undef = true;
                        proof {
                            lemma_sum_step(
                                sum_cr as int,
                                0,
                                k as int,
                                100 * (usize::MAX as int),
                            );
                        }
                    } else {
                        let cr_term: u128 = 100u128 * (author_chars as u128) / (changes as u128);
                        proof {
                            vstd::arithmetic::div_mod::lemma_div_nonincreasing(
                                100 * (author_chars as int),
                                changes as int,
                            );
                            assert(100 * (author_chars as int) <= 100 * (usize::MAX as int))
                                by (nonlinear_arith)
                                requires
                                    author_chars as int <= usize::MAX as int,
                            ;
                            lemma_sum_step(
                                sum_cr as int,
                                cr_term as int,
                                k as int,
                                100 * (usize::MAX as int),
                            );
                        }
                        sum_cr = sum_cr + cr_term;
                    }
                    if net_non_test == 0 {
                        proof {
                            lemma_sum_step(
                                sum_tr as int,
                                0,
                                k as int,
                                100 * (usize::MAX as int),
                            );
                        }
                    } else {
                        let tr_term: u128 = 100u128 * (net_test as u128) / (net_non_test as u128);
                        proof {
                            vstd::arithmetic::div_mod::lemma_div_nonincreasing(
                                100 * (net_test as int),
                                net_non_test as int,
                            );
                            assert(100 * (net_test as int) <= 100 * (usize::MAX as int))
                                by (nonlinear_arith)
                                requires
                                    net_test as int <= usize::MAX as int,
                            ;
                            lemma_sum_step(
                                sum_tr as int,
                                tr_term as int,
                                k as int,
                                100 * (usize::MAX as int),
                            );
                        }
                        sum_tr = sum_tr + tr_term;
                    }
                    let ghost old_days_c = days_c@;
                    let ghost old_days_z = days_z@;
                    days_c.push(day_of(p.created_at));
                    days_z.push(day_of(p.closed_at));
                    k = k + 1;
                    proof {
                        assert(days_c@ =~= spec_created_days(oks.take(k as int)));
                        assert(days_z@ =~= spec_closed_days(oks.take(k as int)));
                        assert(spec_sum_participants(oks.take(k as int)) == spec_sum_participants(
                            oks.take(k as int - 1),
                        ) + oks[k as int - 1].spec_participants().len());
                    }
                },
                Err(_) => {
                    proof {
                        assert(spec_ok_bundles(self@.take(i as int + 1)) =~= oks.take(k as int));
                    }
                },
            }
            i += 1;
        }
        proof {
            lemma_take_all(self@);
            assert(oks.take(k as int) =~= oks);
        }
        let n: u128 = k as u128;
        proof {
            lemma_div_ceil_le(sum_part as int, n as int, usize::MAX as int);
            lemma_div_ceil_le(sum_rev as int, n as int, usize::MAX as int);
            lemma_div_ceil_le(sum_att as int, n as int, usize::MAX as int);
            lemma_div_ceil_le(sum_disc as int, n as int, usize::MAX as int);
            lemma_div_ceil_le(sum_lead as int, n as int, u64::MAX as int);
            lemma_div_ceil_le(sum_size as int, n as int, usize::MAX as int);
            lemma_div_ceil_le(sum_ttm as int, n as int, u64::MAX as int);
            lemma_div_le(sum_loc as int, n as int, usize::MAX as int);
            lemma_div_le(sum_tloc as int, n as int, usize::MAX as int);
        }
        let part_avg = div_ceil_u128(sum_part, n) as u64;
        let rev_avg = div_ceil_u128(sum_rev, n) as u64;
        let att_avg = div_ceil_u128(sum_att, n) as u64;
        let disc_avg = div_ceil_u128(sum_disc, n) as usize;
        let lead_avg = div_ceil_u128(sum_lead, n) as u64;
        let size_avg = div_ceil_u128(sum_size, n) as usize;
        let ttm_avg = div_ceil_u128(sum_ttm, n) as u64;
        let loc_avg = (sum_loc / n) as usize;
        let tloc_avg = (sum_tloc / n) as usize;
        let cr = if any_undef {
            None
        } else {
            Some(Ratio { num: sum_cr, den: 100u128 * n })
        };
        let tr = Ratio { num: sum_tr, den: 100u128 * n };
        let flow = flow_ratio(&days_c, &days_z);
        let scorables: Vec<ScoreType> = vec![
            ScoreType::AmountOfParticipants(part_avg),
            ScoreType::AmountOfReviewers(rev_avg),
            ScoreType::Attachments(att_avg),
            ScoreType::AuthorCommentaryToChangesRatio(cr),
            ScoreType::PullRequestsDiscussionSize(disc_avg),
            ScoreType::PullRequestFlowRatio(flow),
            ScoreType::PullRequestLeadTime(lead_avg),
            ScoreType::PullRequestSize(size_avg),
            ScoreType::TestToCodeRatio { loc: loc_avg, test_loc: tloc_avg, ratio: tr },
            ScoreType::TimeToMerge(ttm_avg),
        ];
        proof {
            assert(scorables@ =~= self.spec_scores());
        }
        Score::new(None, scorables)
    }
}

} // verus!
