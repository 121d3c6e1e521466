//! The status store: statuses of the tasks of one batch, keyed by task id and
//! kept in submission order, with aggregate counters that are proved to agree
//! with the statuses at all times.

use vstd::prelude::*;

use crate::status::{can_transition, transition_allowed, DownloadStatus};
use crate::tally::{
    count_kind, kind_of, kind_tag, lemma_count_kind_at_least_one, lemma_count_kind_bounds,
    lemma_count_kind_none, lemma_count_kind_partition, lemma_count_kind_uniform,
    lemma_count_kind_update, lemma_sum_done_le_total, lemma_sum_done_none, lemma_sum_done_update,
    lemma_sum_sizes_nonneg, lemma_sum_sizes_prefix_le, sum_done, sum_sizes, StatusKind,
};
use crate::task::{ids_of, ids_unique, sizes_of, TaskDescriptor};

verus! {

/// A consistent copy of the store, taken under the lock, for rendering.
/// `order` and `statuses` run in parallel: `statuses[i]` belongs to the task
/// with id `order[i]`.
pub struct DownloadSnapshot {
    pub order: Vec<usize>,
    pub statuses: Vec<DownloadStatus>,
    pub total_queued: usize,
    pub active_count: usize,
    pub completed_count: usize,
    pub failed_count: usize,
    pub skipped_count: usize,
    pub cancelled_count: usize,
    pub pending_count: usize,
    pub total_bytes: u64,
    pub downloaded_bytes: u64,
}

/// State tracking for one batch of downloads.
///
/// Internally the statuses sit in a vector parallel to the submission order;
/// `set_status` is the only mutation within a batch and it refuses every
/// transition out of a terminal status.
pub struct DownloadState {
    order: Vec<usize>,
    sizes: Vec<u64>,
    statuses: Vec<DownloadStatus>,
    active_count: usize,
    total_queued: usize,
    completed_count: usize,
    failed_count: usize,
    skipped_count: usize,
    cancelled_count: usize,
    total_bytes: u64,
    downloaded_bytes: u64,
}

impl DownloadState {
    /// Task ids, in submission order.
    pub closed spec fn order_seq(self) -> Seq<usize> {
        self.order@
    }

    /// Expected byte counts, position by position with `order_seq`.
    pub closed spec fn sizes_seq(self) -> Seq<u64> {
        self.sizes@
    }

    /// Statuses, position by position with `order_seq`.
    pub closed spec fn statuses_seq(self) -> Seq<DownloadStatus> {
        self.statuses@
    }

    pub open spec fn queued(self) -> int {
        self.statuses_seq().len() as int
    }

    pub open spec fn active(self) -> int {
        count_kind(self.statuses_seq(), StatusKind::Downloading)
    }

    pub open spec fn completed(self) -> int {
        count_kind(self.statuses_seq(), StatusKind::Complete)
    }

    pub open spec fn failed(self) -> int {
        count_kind(self.statuses_seq(), StatusKind::Failed)
    }

    pub open spec fn skipped(self) -> int {
        count_kind(self.statuses_seq(), StatusKind::Skipped)
    }

    pub open spec fn cancelled(self) -> int {
        count_kind(self.statuses_seq(), StatusKind::Cancelled)
    }

    pub open spec fn pending(self) -> int {
        count_kind(self.statuses_seq(), StatusKind::Pending)
    }

    /// Sum of all expected sizes of the batch.
    pub open spec fn bytes_total(self) -> int {
        sum_sizes(self.sizes_seq())
    }

    /// Bytes attributed to `Complete` and `Skipped` tasks.
    pub open spec fn bytes_done(self) -> int {
        sum_done(self.sizes_seq(), self.statuses_seq())
    }

    pub open spec fn has_id(self, id: usize) -> bool {
        exists|i: int| 0 <= i < self.order_seq().len() && self.order_seq()[i] == id
    }

    /// The position of `id` in the submission order (ids are unique, so the
    /// position is determined).
    pub open spec fn idx_of(self, id: usize) -> int {
        choose|i: int| 0 <= i < self.order_seq().len() && self.order_seq()[i] == id
    }

    /// The current status of the task with this id.
    pub open spec fn status_of(self, id: usize) -> DownloadStatus {
        self.statuses_seq()[self.idx_of(id)]
    }

    /// Well-formedness: the three vectors run in parallel, ids are unique, and
    /// every counter equals the count it stands for.
    pub closed spec fn wf(self) -> bool {
        &&& self.order@.len() == self.statuses@.len()
        &&& self.sizes@.len() == self.statuses@.len()
        &&& self.total_queued as int == self.statuses@.len() as int
        &&& forall|i: int, j: int|
            0 <= i < self.order@.len() && 0 <= j < self.order@.len() && i != j
                ==> self.order@[i] != self.order@[j]
        &&& self.active_count as int == count_kind(self.statuses@, StatusKind::Downloading)
        &&& self.completed_count as int == count_kind(self.statuses@, StatusKind::Complete)
        &&& self.failed_count as int == count_kind(self.statuses@, StatusKind::Failed)
        &&& self.skipped_count as int == count_kind(self.statuses@, StatusKind::Skipped)
        &&& self.cancelled_count as int == count_kind(self.statuses@, StatusKind::Cancelled)
        &&& self.total_bytes as int == sum_sizes(self.sizes@)
        &&& self.downloaded_bytes as int == sum_done(self.sizes@, self.statuses@)
    }

    /// Shape facts of a well-formed store, for callers that cannot see `wf`.
    pub proof fn lemma_shape(&self)
        requires
            self.wf(),
        ensures
            self.order_seq().len() == self.statuses_seq().len(),
            self.sizes_seq().len() == self.statuses_seq().len(),
            forall|i: int, j: int|
                0 <= i < self.order_seq().len() && 0 <= j < self.order_seq().len() && i != j
                    ==> self.order_seq()[i] != self.order_seq()[j],
    {
    }

    /// Aggregate consistency: the six state counts partition the batch, and
    /// the attributed bytes never exceed the total of the expected sizes.
    pub proof fn lemma_aggregate_consistency(&self)
        requires
            self.wf(),
        ensures
            self.completed() + self.failed() + self.skipped() + self.cancelled() + self.active()
                + self.pending() == self.queued(),
            0 <= self.bytes_done() <= self.bytes_total(),
    {
        lemma_count_kind_partition(self.statuses_seq());
        lemma_sum_done_le_total(self.sizes_seq(), self.statuses_seq());
    }

    /// Settlement: once the counters show no `Pending` and no `Downloading`
    /// task, every task of the batch is in a terminal status.
    pub proof fn lemma_all_settled(&self)
        requires
            self.wf(),
            self.pending() == 0,
            self.active() == 0,
        ensures
            forall|i: int|
                0 <= i < self.statuses_seq().len() ==> (#[trigger] self.statuses_seq()[i]).is_terminal(),
    {
        let sts = self.statuses_seq();
        assert forall|i: int| 0 <= i < sts.len() implies (#[trigger] sts[i]).is_terminal() by {
            if sts[i] is Pending {
                lemma_count_kind_at_least_one(sts, StatusKind::Pending, i);
            } else if sts[i] is Downloading {
                lemma_count_kind_at_least_one(sts, StatusKind::Downloading, i);
            }
        }
    }

    fn empty() -> (s: DownloadState)
        ensures
            s.wf(),
            s.order_seq() == Seq::<usize>::empty(),
            s.sizes_seq() == Seq::<u64>::empty(),
            s.statuses_seq() == Seq::<DownloadStatus>::empty(),
    {
        let s = DownloadState {
            order: Vec::new(),
            sizes: Vec::new(),
            statuses: Vec::new(),
            active_count: 0,
            total_queued: 0,
            completed_count: 0,
            failed_count: 0,
            skipped_count: 0,
            cancelled_count: 0,
            total_bytes: 0,
            downloaded_bytes: 0,
        };
        proof {
            assert(s.order@ =~= Seq::<usize>::empty());
            assert(s.sizes@ =~= Seq::<u64>::empty());
            assert(s.statuses@ =~= Seq::<DownloadStatus>::empty());
        }
        s
    }

    /// Remove every entry; the store is as freshly constructed.
    pub fn clear(&mut self)
        ensures
            final(self).wf(),
            final(self).queued() == 0,
            final(self).order_seq() == Seq::<usize>::empty(),
    {
        *self = DownloadState::empty();
    }

    /// Set up the store for a new batch: every task `Pending`, the order and
    /// the expected sizes taken from the descriptors, all counters reset.
    pub fn init(&mut self, tasks: &Vec<TaskDescriptor>)
        requires
            ids_unique(tasks@),
            sum_sizes(sizes_of(tasks@)) <= u64::MAX,
        ensures
            final(self).wf(),
            final(self).order_seq() == ids_of(tasks@),
            final(self).sizes_seq() == sizes_of(tasks@),
            final(self).statuses_seq() == Seq::new(
                tasks@.len(),
                |i: int| DownloadStatus::Pending,
            ),
            final(self).queued() == tasks@.len(),
            final(self).active() == 0,
            final(self).completed() == 0,
            final(self).failed() == 0,
            final(self).skipped() == 0,
            final(self).cancelled() == 0,
            final(self).pending() == tasks@.len(),
            final(self).bytes_total() == sum_sizes(sizes_of(tasks@)),
            final(self).bytes_done() == 0,
    {
        let ghost all_ids = ids_of(tasks@);
        let ghost all_sizes = sizes_of(tasks@);
        let n = tasks.len();
        let mut order: Vec<usize> = Vec::new();
        let mut sizes: Vec<u64> = Vec::new();
        let mut statuses: Vec<DownloadStatus> = Vec::new();
        let mut total: u64 = 0;
        let mut i: usize = 0;
        while i < n
            invariant
                i <= n,
                n == tasks@.len(),
                all_ids == ids_of(tasks@),
                all_sizes == sizes_of(tasks@),
                sum_sizes(all_sizes) <= u64::MAX,
                order@ == all_ids.take(i as int),
                sizes@ == all_sizes.take(i as int),
                statuses@ == Seq::new(i as nat, |j: int| DownloadStatus::Pending),
                total as int == sum_sizes(all_sizes.take(i as int)),
            decreases n - i,
        {
            let t = &tasks[i];
            proof {
                assert(all_ids.take(i + 1).drop_last() =~= all_ids.take(i as int));
                assert(all_sizes.take(i + 1).drop_last() =~= all_sizes.take(i as int));
                assert(order@.push(t.id) =~= all_ids.take(i + 1));
                assert(sizes@.push(t.expected_size) =~= all_sizes.take(i + 1));
                assert(statuses@.push(DownloadStatus::Pending) =~= Seq::new(
                    (i + 1) as nat,
                    |j: int| DownloadStatus::Pending,
                ));
                lemma_sum_sizes_prefix_le(all_sizes, i + 1);
                assert(sum_sizes(all_sizes.take(i + 1)) == sum_sizes(all_sizes.take(i as int))
                    + t.expected_size as int);
                lemma_sum_sizes_nonneg(all_sizes.take(i as int));
            }
            order.push(t.id);
            sizes.push(t.expected_size);
            statuses.push(DownloadStatus::Pending);
            total = total + t.expected_size;
            i = i + 1;
        }
        proof {
            assert(all_ids.take(n as int) =~= all_ids);
            assert(all_sizes.take(n as int) =~= all_sizes);
        }
        let result = DownloadState {
            order,
            sizes,
            statuses,
            active_count: 0,
            total_queued: n,
            completed_count: 0,
            failed_count: 0,
            skipped_count: 0,
            cancelled_count: 0,
            total_bytes: total,
            downloaded_bytes: 0,
        };
        proof {
            let sts = result.statuses@;
            assert(forall|j: int| 0 <= j < sts.len() ==> kind_of(sts[j]) == StatusKind::Pending);
            lemma_count_kind_uniform(sts, StatusKind::Pending, StatusKind::Pending);
            lemma_count_kind_uniform(sts, StatusKind::Pending, StatusKind::Downloading);
            lemma_count_kind_uniform(sts, StatusKind::Pending, StatusKind::Complete);
            lemma_count_kind_uniform(sts, StatusKind::Pending, StatusKind::Failed);
            lemma_count_kind_uniform(sts, StatusKind::Pending, StatusKind::Skipped);
            lemma_count_kind_uniform(sts, StatusKind::Pending, StatusKind::Cancelled);
            assert(forall|j: int| 0 <= j < sts.len() ==> !(#[trigger] sts[j]).counts_bytes());
            lemma_sum_done_none(result.sizes@, sts);
            assert(ids_unique(tasks@));
            assert(forall|x: int, y: int|
                0 <= x < result.order@.len() && 0 <= y < result.order@.len() && x != y
                    ==> result.order@[x] != result.order@[y]) by {
                assert(forall|x: int| 0 <= x < result.order@.len()
                    ==> result.order@[x] == tasks@[x].id);
            }
        }
        *self = result;
    }

    /// The position of `id` in the submission order, if the id is known.
    pub fn find_index(&self, id: usize) -> (r: Option<usize>)
        requires
            self.wf(),
        ensures
            match r {
                Some(i) => self.has_id(id) && self.idx_of(id) == i as int && (i as int)
                    < self.queued(),
                None => !self.has_id(id),
            },
    {
        let n = self.order.len();
        let mut i: usize = 0;
        while i < n
            invariant
                self.wf(),
                i <= n,
                n == self.order@.len(),
                forall|j: int| 0 <= j < i ==> self.order@[j] != id,
            decreases n - i,
        {
            if self.order[i] == id {
                proof {
                    assert(0 <= (i as int) && (i as int) < self.order_seq().len()
                        && self.order_seq()[i as int] == id);
                    assert(self.has_id(id));
                    let w = self.idx_of(id);
                    assert(0 <= w < self.order_seq().len() && self.order_seq()[w] == id);
                    assert(w == i as int) by {
                        if w != i as int {
                            assert(self.order@[w] != self.order@[i as int]);
                        }
                    }
                }
                return Some(i);
            }
            i = i + 1;
        }
        None
    }

    /// Read the current status of a task.
    pub fn status_ref(&self, id: usize) -> (r: Option<&DownloadStatus>)
        requires
            self.wf(),
        ensures
            match r {
                Some(st) => self.has_id(id) && *st == self.status_of(id),
                None => !self.has_id(id),
            },
    {
        match self.find_index(id) {
            Some(i) => Some(&self.statuses[i]),
            None => None,
        }
    }

    /// Read the status at a position of the submission order.
    pub fn status_at(&self, i: usize) -> (r: &DownloadStatus)
        requires
            self.wf(),
            i < self.queued(),
        ensures
            *r == self.statuses_seq()[i as int],
    {
        &self.statuses[i]
    }

    /// Replace the status of one task, keeping every counter consistent.
    ///
    /// The replacement is applied only when the id is known and the transition
    /// is legal (`can_transition`); in particular a terminal status is never
    /// changed. Returns whether the replacement was applied.
    pub fn set_status(&mut self, id: usize, status: DownloadStatus) -> (applied: bool)
        requires
            old(self).wf(),
        ensures
            final(self).wf(),
            final(self).order_seq() == old(self).order_seq(),
            final(self).sizes_seq() == old(self).sizes_seq(),
            applied == (old(self).has_id(id) && can_transition(old(self).status_of(id), status)),
            applied ==> final(self).statuses_seq() == old(self).statuses_seq().update(
                old(self).idx_of(id),
                status,
            ),
            !applied ==> final(self).statuses_seq() == old(self).statuses_seq(),
    {
        let found = self.find_index(id);
        match found {
            None => false,
            Some(i) => {
                let allowed = transition_allowed(&self.statuses[i], &status);
                if !allowed {
                    false
                } else {
                    let ghost s_old = self.statuses@;
                    let ghost status_spec = status;
                    let old_kind = kind_tag(&self.statuses[i]);
                    let new_kind = kind_tag(&status);
                    let size_i = self.sizes[i];
                    let adds_bytes = match new_kind {
                        StatusKind::Complete => true,
                        StatusKind::Skipped => true,
                        _ => false,
                    };
                    proof {
                        lemma_count_kind_at_least_one(s_old, kind_of(s_old[i as int]), i as int);
                    }
                    match old_kind {
                        StatusKind::Pending => {},
                        StatusKind::Downloading => {
                            self.active_count = self.active_count - 1;
                        },
                        _ => {
                            proof {
                                assert(false);
                            }
                        },
                    }
                    self.statuses.set(i, status);
                    proof {
                        let s_new = self.statuses@;
                        assert(s_new == s_old.update(i as int, status_spec));
                        lemma_count_kind_update(s_old, StatusKind::Pending, i as int, status_spec);
                        lemma_count_kind_update(
                            s_old,
                            StatusKind::Downloading,
                            i as int,
                            status_spec,
                        );
                        lemma_count_kind_update(s_old, StatusKind::Complete, i as int, status_spec);
                        lemma_count_kind_update(s_old, StatusKind::Failed, i as int, status_spec);
                        lemma_count_kind_update(s_old, StatusKind::Skipped, i as int, status_spec);
                        lemma_count_kind_update(
                            s_old,
                            StatusKind::Cancelled,
                            i as int,
                            status_spec,
                        );
                        lemma_count_kind_bounds(s_new, StatusKind::Downloading);
                        lemma_count_kind_bounds(s_new, StatusKind::Complete);
                        lemma_count_kind_bounds(s_new, StatusKind::Failed);
                        lemma_count_kind_bounds(s_new, StatusKind::Skipped);
                        lemma_count_kind_bounds(s_new, StatusKind::Cancelled);
                        lemma_sum_done_update(self.sizes@, s_old, i as int, status_spec);
                        lemma_sum_done_le_total(self.sizes@, s_new);
                        lemma_sum_sizes_nonneg(self.sizes@);
                    }
                    match new_kind {
                        StatusKind::Pending => {
                            proof {
                                assert(false);
                            }
                        },
                        StatusKind::Downloading => {
                            self.active_count = self.active_count + 1;
                        },
                        StatusKind::Complete => {
                            self.completed_count = self.completed_count + 1;
                        },
                        StatusKind::Skipped => {
                            self.skipped_count = self.skipped_count + 1;
                        },
                        StatusKind::Cancelled => {
                            self.cancelled_count = self.cancelled_count + 1;
                        },
                        StatusKind::Failed => {
                            self.failed_count = self.failed_count + 1;
                        },
                    }
                    if adds_bytes {
                        self.downloaded_bytes = self.downloaded_bytes + size_i;
                    }
                    true
                }
            },
        }
    }

    /// Reset every `Failed` task to `Pending` for a retry sub-batch; every
    /// other task keeps its status. Returns how many tasks were reset.
    pub fn retry_reset(&mut self) -> (n: usize)
        requires
            old(self).wf(),
        ensures
            final(self).wf(),
            final(self).order_seq() == old(self).order_seq(),
            final(self).sizes_seq() == old(self).sizes_seq(),
            final(self).statuses_seq().len() == old(self).statuses_seq().len(),
            forall|i: int|
                0 <= i < old(self).statuses_seq().len() ==> final(self).statuses_seq()[i] == (
                if old(self).statuses_seq()[i] is Failed {
                    DownloadStatus::Pending
                } else {
                    old(self).statuses_seq()[i]
                }),
            n as int == old(self).failed(),
            final(self).failed() == 0,
            final(self).active() == old(self).active(),
            final(self).completed() == old(self).completed(),
            final(self).skipped() == old(self).skipped(),
            final(self).cancelled() == old(self).cancelled(),
            final(self).bytes_done() == old(self).bytes_done(),
    {
        let ghost s_orig = self.statuses@;
        let len = self.statuses.len();
        let mut n: usize = 0;
        let mut i: usize = 0;
        while i < len
            invariant
                self.wf(),
                i <= len,
                n <= i,
                len == self.statuses@.len(),
                s_orig.len() == len,
                self.active_count == old(self).active_count,
                self.completed_count == old(self).completed_count,
                self.skipped_count == old(self).skipped_count,
                self.cancelled_count == old(self).cancelled_count,
                self.order_seq() == old(self).order_seq(),
                self.sizes_seq() == old(self).sizes_seq(),
                s_orig == old(self).statuses_seq(),
                forall|j: int|
                    0 <= j < i ==> self.statuses@[j] == (if s_orig[j] is Failed {
                        DownloadStatus::Pending
                    } else {
                        s_orig[j]
                    }),
                forall|j: int| i <= j < len ==> self.statuses@[j] == s_orig[j],
                n as int + count_kind(self.statuses@, StatusKind::Failed) == count_kind(
                    s_orig,
                    StatusKind::Failed,
                ),
                sum_done(self.sizes@, self.statuses@) == sum_done(self.sizes@, s_orig),
            decreases len - i,
        {
            let is_failed = match &self.statuses[i] {
                DownloadStatus::Failed(_) => true,
                _ => false,
            };
            if is_failed {
                let ghost s_before = self.statuses@;
                proof {
                    lemma_count_kind_at_least_one(s_before, StatusKind::Failed, i as int);
                    lemma_count_kind_update(
                        s_before,
                        StatusKind::Pending,
                        i as int,
                        DownloadStatus::Pending,
                    );
                    lemma_count_kind_update(
                        s_before,
                        StatusKind::Downloading,
                        i as int,
                        DownloadStatus::Pending,
                    );
                    lemma_count_kind_update(
                        s_before,
                        StatusKind::Complete,
                        i as int,
                        DownloadStatus::Pending,
                    );
                    lemma_count_kind_update(
                        s_before,
                        StatusKind::Failed,
                        i as int,
                        DownloadStatus::Pending,
                    );
                    lemma_count_kind_update(
                        s_before,
                        StatusKind::Skipped,
                        i as int,
                        DownloadStatus::Pending,
                    );
                    lemma_count_kind_update(
                        s_before,
                        StatusKind::Cancelled,
                        i as int,
                        DownloadStatus::Pending,
                    );
                    lemma_count_kind_bounds(s_before, StatusKind::Pending);
                    lemma_sum_done_update(self.sizes@, s_before, i as int, DownloadStatus::Pending);
                }
                self.statuses.set(i, DownloadStatus::Pending);
                self.failed_count = self.failed_count - 1;
                n = n + 1;
            }
            i = i + 1;
        }
        proof {
            assert(forall|j: int|
                0 <= j < self.statuses@.len() ==> kind_of(#[trigger] self.statuses@[j])
                    != StatusKind::Failed);
            lemma_count_kind_none(self.statuses@, StatusKind::Failed);
        }
        n
    }

    pub fn total_queued(&self) -> (r: usize)
        requires
            self.wf(),
        ensures
            r as int == self.queued(),
    {
        self.total_queued
    }

    pub fn active_count(&self) -> (r: usize)
        requires
            self.wf(),
        ensures
            r as int == self.active(),
    {
        self.active_count
    }

    pub fn completed_count(&self) -> (r: usize)
        requires
            self.wf(),
        ensures
            r as int == self.completed(),
    {
        self.completed_count
    }

    pub fn failed_count(&self) -> (r: usize)
        requires
            self.wf(),
        ensures
            r as int == self.failed(),
    {
        self.failed_count
    }

    pub fn skipped_count(&self) -> (r: usize)
        requires
            self.wf(),
        ensures
            r as int == self.skipped(),
    {
        self.skipped_count
    }

    pub fn cancelled_count(&self) -> (r: usize)
        requires
            self.wf(),
        ensures
            r as int == self.cancelled(),
    {
        self.cancelled_count
    }

    pub fn pending_count(&self) -> (r: usize)
        requires
            self.wf(),
        ensures
            r as int == self.pending(),
    {
        proof {
            lemma_count_kind_partition(self.statuses@);
            lemma_count_kind_bounds(self.statuses@, StatusKind::Pending);
        }
        self.total_queued - self.active_count - self.completed_count - self.failed_count
            - self.skipped_count - self.cancelled_count
    }

    pub fn total_bytes(&self) -> (r: u64)
        requires
            self.wf(),
        ensures
            r as int == self.bytes_total(),
    {
        self.total_bytes
    }

    pub fn downloaded_bytes(&self) -> (r: u64)
        requires
            self.wf(),
        ensures
            r as int == self.bytes_done(),
    {
        self.downloaded_bytes
    }

    /// A consistent copy of order, statuses and counters.
    pub fn snapshot(&self) -> (snap: DownloadSnapshot)
        requires
            self.wf(),
        ensures
            snap.order@ == self.order_seq(),
            snap.statuses@ == self.statuses_seq(),
            snap.total_queued as int == self.queued(),
            snap.active_count as int == self.active(),
            snap.completed_count as int == self.completed(),
            snap.failed_count as int == self.failed(),
            snap.skipped_count as int == self.skipped(),
            snap.cancelled_count as int == self.cancelled(),
            snap.pending_count as int == self.pending(),
            snap.total_bytes as int == self.bytes_total(),
            snap.downloaded_bytes as int == self.bytes_done(),
    {
        let len = self.statuses.len();
        let mut order: Vec<usize> = Vec::new();
        let mut statuses: Vec<DownloadStatus> = Vec::new();
        let mut i: usize = 0;
        while i < len
            invariant
                self.wf(),
                i <= len,
                len == self.statuses@.len(),
                order@ == self.order@.take(i as int),
                statuses@ == self.statuses@.take(i as int),
            decreases len - i,
        {
            proof {
                assert(self.order@.take(i + 1) =~= self.order@.take(i as int).push(
                    self.order@[i as int],
                ));
                assert(self.statuses@.take(i + 1) =~= self.statuses@.take(i as int).push(
                    self.statuses@[i as int],
                ));
            }
            order.push(self.order[i]);
            let st = (&self.statuses[i]).duplicate();
            statuses.push(st);
            i = i + 1;
        }
        proof {
            assert(self.order@.take(len as int) =~= self.order@);
            assert(self.statuses@.take(len as int) =~= self.statuses@);
        }
        let pending_count = self.pending_count();
        DownloadSnapshot {
            order,
            statuses,
            total_queued: self.total_queued,
            active_count: self.active_count,
            completed_count: self.completed_count,
            failed_count: self.failed_count,
            skipped_count: self.skipped_count,
            cancelled_count: self.cancelled_count,
            pending_count,
            total_bytes: self.total_bytes,
            downloaded_bytes: self.downloaded_bytes,
        }
    }
}

impl Default for DownloadState {
    /// An empty store: no batch submitted yet.
    fn default() -> (s: DownloadState)
        ensures
            s.wf(),
            s.queued() == 0,
            s.order_seq() == Seq::<usize>::empty(),
    {
        DownloadState::empty()
    }
}

} // verus!
