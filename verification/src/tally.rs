//! Counting and summing over status sequences: the ghost bookkeeping behind
//! the aggregate counters of the status store.

use vstd::prelude::*;

use crate::status::DownloadStatus;

verus! {

/// The variant of a status, without its payload.
#[derive(Clone, Copy, Debug, PartialEq, Eq, Structural)]
pub enum StatusKind {
    Pending,
    Downloading,
    Complete,
    Skipped,
    Cancelled,
    Failed,
}

/// The kind (variant) of a status.
pub open spec fn kind_of(st: DownloadStatus) -> StatusKind {
    match st {
        DownloadStatus::Pending => StatusKind::Pending,
        DownloadStatus::Downloading(_, _) => StatusKind::Downloading,
        DownloadStatus::Complete => StatusKind::Complete,
        DownloadStatus::Skipped => StatusKind::Skipped,
        DownloadStatus::Cancelled => StatusKind::Cancelled,
        DownloadStatus::Failed(_) => StatusKind::Failed,
    }
}

/// Runtime evaluation of `kind_of`.
pub fn kind_tag(st: &DownloadStatus) -> (k: StatusKind)
    ensures
        k == kind_of(*st),
{
    match st {
        DownloadStatus::Pending => StatusKind::Pending,
        DownloadStatus::Downloading(_, _) => StatusKind::Downloading,
        DownloadStatus::Complete => StatusKind::Complete,
        DownloadStatus::Skipped => StatusKind::Skipped,
        DownloadStatus::Cancelled => StatusKind::Cancelled,
        DownloadStatus::Failed(_) => StatusKind::Failed,
    }
}

/// How many statuses in `s` have kind `k`.
pub open spec fn count_kind(s: Seq<DownloadStatus>, k: StatusKind) -> int
    decreases s.len(),
{
    if s.len() == 0 {
        0
    } else {
        count_kind(s.drop_last(), k) + if kind_of(s.last()) == k {
            1int
        } else {
            0int
        }
    }
}

/// Sum of all expected sizes.
pub open spec fn sum_sizes(sizes: Seq<u64>) -> int
    decreases sizes.len(),
{
    if sizes.len() == 0 {
        0
    } else {
        sum_sizes(sizes.drop_last()) + sizes.last() as int
    }
}

/// Sum of the expected sizes of the tasks whose status attributes bytes
/// (`Complete` or `Skipped`). Both sequences run in parallel, index by index.
pub open spec fn sum_done(sizes: Seq<u64>, sts: Seq<DownloadStatus>) -> int
    decreases sizes.len(),
{
    if sizes.len() == 0 || sts.len() == 0 {
        0
    } else {
        sum_done(sizes.drop_last(), sts.drop_last()) + if sts.last().counts_bytes() {
            sizes.last() as int
        } else {
            0int
        }
    }
}

pub proof fn lemma_count_kind_bounds(s: Seq<DownloadStatus>, k: StatusKind)
    ensures
        0 <= count_kind(s, k) <= s.len(),
    decreases s.len(),
{
    if s.len() > 0 {
        lemma_count_kind_bounds(s.drop_last(), k);
    }
}

pub proof fn lemma_count_kind_update(
    s: Seq<DownloadStatus>,
    k: StatusKind,
    i: int,
    v: DownloadStatus,
)
    requires
        0 <= i < s.len(),
    ensures
        count_kind(s.update(i, v), k) == count_kind(s, k) - (if kind_of(s[i]) == k {
            1int
        } else {
            0int
        }) + (if kind_of(v) == k {
            1int
        } else {
            0int
        }),
    decreases s.len(),
{
    let t = s.update(i, v);
    if i == s.len() - 1 {
        assert(t.drop_last() =~= s.drop_last());
        assert(t.last() == v);
    } else {
        assert(t.drop_last() =~= s.drop_last().update(i, v));
        assert(t.last() == s.last());
        lemma_count_kind_update(s.drop_last(), k, i, v);
    }
}

/// In a sequence whose statuses all have kind `k0`, the count of `k0` is the
/// length and every other count is zero.
pub proof fn lemma_count_kind_uniform(s: Seq<DownloadStatus>, k0: StatusKind, k: StatusKind)
    requires
        forall|i: int| 0 <= i < s.len() ==> kind_of(s[i]) == k0,
    ensures
        count_kind(s, k) == if k == k0 {
            s.len() as int
        } else {
            0int
        },
    decreases s.len(),
{
    if s.len() > 0 {
        assert(kind_of(s.last()) == k0);
        lemma_count_kind_uniform(s.drop_last(), k0, k);
    }
}

/// Every status has exactly one kind, so the six counts partition the length.
pub proof fn lemma_count_kind_partition(s: Seq<DownloadStatus>)
    ensures
        count_kind(s, StatusKind::Pending) + count_kind(s, StatusKind::Downloading) + count_kind(
            s,
            StatusKind::Complete,
        ) + count_kind(s, StatusKind::Skipped) + count_kind(s, StatusKind::Cancelled) + count_kind(
            s,
            StatusKind::Failed,
        ) == s.len(),
    decreases s.len(),
{
    if s.len() > 0 {
        lemma_count_kind_partition(s.drop_last());
    }
}

/// A position holding kind `k` contributes at least one to the count.
pub proof fn lemma_count_kind_at_least_one(s: Seq<DownloadStatus>, k: StatusKind, i: int)
    requires
        0 <= i < s.len(),
        kind_of(s[i]) == k,
    ensures
        count_kind(s, k) >= 1,
    decreases s.len(),
{
    if i == s.len() - 1 {
        lemma_count_kind_bounds(s.drop_last(), k);
    } else {
        lemma_count_kind_at_least_one(s.drop_last(), k, i);
    }
}

/// A sequence with no status of kind `k` counts zero for `k`.
pub proof fn lemma_count_kind_none(s: Seq<DownloadStatus>, k: StatusKind)
    requires
        forall|i: int| 0 <= i < s.len() ==> kind_of(s[i]) != k,
    ensures
        count_kind(s, k) == 0,
    decreases s.len(),
{
    if s.len() > 0 {
        assert(kind_of(s.last()) != k);
        lemma_count_kind_none(s.drop_last(), k);
    }
}

/// If no status attributes bytes, the attributed sum is zero.
pub proof fn lemma_sum_done_none(sizes: Seq<u64>, sts: Seq<DownloadStatus>)
    requires
        sizes.len() == sts.len(),
        forall|i: int| 0 <= i < sts.len() ==> !sts[i].counts_bytes(),
    ensures
        sum_done(sizes, sts) == 0,
    decreases sizes.len(),
{
    if sizes.len() > 0 {
        assert(!sts.last().counts_bytes());
        lemma_sum_done_none(sizes.drop_last(), sts.drop_last());
    }
}

/// Prefix sums never exceed the sum of the whole sequence.
pub proof fn lemma_sum_sizes_prefix_le(sizes: Seq<u64>, n: int)
    requires
        0 <= n <= sizes.len(),
    ensures
        sum_sizes(sizes.take(n)) <= sum_sizes(sizes),
    decreases sizes.len() - n,
{
    if n == sizes.len() {
        assert(sizes.take(n) =~= sizes);
    } else {
        assert(sizes.take(n + 1).drop_last() =~= sizes.take(n));
        assert(sizes.take(n + 1).last() == sizes[n]);
        lemma_sum_sizes_prefix_le(sizes, n + 1);
    }
}

pub proof fn lemma_sum_sizes_nonneg(sizes: Seq<u64>)
    ensures
        0 <= sum_sizes(sizes),
    decreases sizes.len(),
{
    if sizes.len() > 0 {
        lemma_sum_sizes_nonneg(sizes.drop_last());
    }
}

/// Replacing one status changes the attributed sum by exactly the delta of
/// that one position.
pub proof fn lemma_sum_done_update(
    sizes: Seq<u64>,
    sts: Seq<DownloadStatus>,
    i: int,
    v: DownloadStatus,
)
    requires
        sizes.len() == sts.len(),
        0 <= i < sts.len(),
    ensures
        sum_done(sizes, sts.update(i, v)) == sum_done(sizes, sts) - (if sts[i].counts_bytes() {
            sizes[i] as int
        } else {
            0int
        }) + (if v.counts_bytes() {
            sizes[i] as int
        } else {
            0int
        }),
    decreases sts.len(),
{
    let t = sts.update(i, v);
    if i == sts.len() - 1 {
        assert(t.drop_last() =~= sts.drop_last());
        assert(sizes.drop_last() =~= sizes.drop_last());
        assert(t.last() == v);
    } else {
        assert(t.drop_last() =~= sts.drop_last().update(i, v));
        assert(t.last() == sts.last());
        lemma_sum_done_update(sizes.drop_last(), sts.drop_last(), i, v);
    }
}

/// The attributed sum never exceeds the total of all expected sizes.
pub proof fn lemma_sum_done_le_total(sizes: Seq<u64>, sts: Seq<DownloadStatus>)
    requires
        sizes.len() == sts.len(),
    ensures
        0 <= sum_done(sizes, sts) <= sum_sizes(sizes),
    decreases sizes.len(),
{
    if sizes.len() > 0 {
        lemma_sum_done_le_total(sizes.drop_last(), sts.drop_last());
    }
}

} // verus!
