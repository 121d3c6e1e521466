//! The dispatcher: owns the task list, the status store, the batch's
//! cancellation flag and the concurrency bound of one download pool.
//!
//! The dispatcher is the single writer of the store. Workers report their
//! observations (cancellation seen, destination already present, bytes
//! received, outcome of the transfer and of the disk write) through the event
//! methods below, and every method keeps the store consistent and the number
//! of tasks in `Downloading` under the pool's limit.

use vstd::prelude::*;

use crate::status::DownloadStatus;
use crate::store::{DownloadSnapshot, DownloadState};
use crate::tally::{
    count_kind, lemma_count_kind_at_least_one, lemma_count_kind_update, StatusKind,
};
use crate::task::{ids_of, ids_unique, sizes_of, TaskDescriptor};

verus! {

/// Concurrency bound of the primary download pool.
pub const DOWNLOAD_CONCURRENCY: usize = 4;

/// Concurrency bound of the thumbnail prefetch pool.
pub const PREFETCH_CONCURRENCY: usize = 8;

/// What a worker is to do with its task, decided at the start of the task.
#[derive(Clone, Copy, Debug, PartialEq, Eq, Structural)]
pub enum StartDecision {
    /// A transfer slot was taken and the task is now `Downloading`: issue the
    /// HTTP GET.
    StartFetch,
    /// The destination already exists and the task asked to skip: no network
    /// activity, the task is `Skipped`.
    MarkedSkipped,
    /// Cancellation was already raised: the task is `Cancelled`.
    MarkedCancelled,
    /// Every transfer slot is taken; nothing changed. Ask again once a slot
    /// is free.
    NoSlot,
    /// The id is unknown or the task is not `Pending`; nothing changed.
    NotPending,
}

/// A batch is accepted when it is non-empty, its ids are unique and the sum
/// of its expected sizes is representable.
pub open spec fn batch_ok(tasks: Seq<TaskDescriptor>) -> bool {
    &&& tasks.len() > 0
    &&& ids_unique(tasks)
    &&& sum_sizes_of(tasks) <= u64::MAX
}

/// Sum of the expected sizes of a task sequence.
pub open spec fn sum_sizes_of(tasks: Seq<TaskDescriptor>) -> int {
    crate::tally::sum_sizes(sizes_of(tasks))
}

/// The tasks whose status is `Failed`, in submission order, each with
/// `skip_if_exists` disabled: the sub-batch that a retry re-submits.
pub open spec fn failed_subbatch(
    tasks: Seq<TaskDescriptor>,
    sts: Seq<DownloadStatus>,
) -> Seq<TaskDescriptor>
    decreases tasks.len(),
{
    if tasks.len() == 0 || sts.len() == 0 {
        Seq::empty()
    } else {
        let rest = failed_subbatch(tasks.drop_last(), sts.drop_last());
        if sts.last() is Failed {
            rest.push(retried_task(tasks.last()))
        } else {
            rest
        }
    }
}

/// A task as a retry re-submits it: unchanged but for `skip_if_exists`.
pub open spec fn retried_task(t: TaskDescriptor) -> TaskDescriptor {
    TaskDescriptor {
        id: t.id,
        url: t.url,
        destination: t.destination,
        expected_size: t.expected_size,
        skip_if_exists: false,
    }
}

/// Whether no two tasks of the batch share an id.
fn ids_all_unique(tasks: &Vec<TaskDescriptor>) -> (r: bool)
    ensures
        r == ids_unique(tasks@),
{
    let n = tasks.len();
    let mut i: usize = 1;
    while i < n
        invariant
            1 <= i,
            i <= n || n == 0,
            n == tasks@.len(),
            forall|x: int, y: int| 0 <= x < y < i && y < n ==> tasks@[x].id != tasks@[y].id,
        decreases n - i,
    {
        let mut j: usize = 0;
        while j < i
            invariant
                j <= i < n,
                n == tasks@.len(),
                forall|y: int| 0 <= y < j ==> tasks@[y].id != tasks@[i as int].id,
            decreases i - j,
        {
            if tasks[j].id == tasks[i].id {
                proof {
                    assert(!ids_unique(tasks@));
                }
                return false;
            }
            j = j + 1;
        }
        i = i + 1;
    }
    proof {
        assert(forall|x: int, y: int|
            0 <= x < tasks@.len() && 0 <= y < tasks@.len() && x != y ==> tasks@[x].id
                != tasks@[y].id) by {
            assert(forall|x: int, y: int|
                0 <= x < y < tasks@.len() ==> tasks@[x].id != tasks@[y].id);
        }
    }
    true
}

/// The sum of the expected sizes, or `None` when it does not fit in a `u64`.
fn checked_total(tasks: &Vec<TaskDescriptor>) -> (r: Option<u64>)
    ensures
        match r {
            Some(t) => t as int == sum_sizes_of(tasks@),
            None => sum_sizes_of(tasks@) > u64::MAX,
        },
{
    let ghost szs = sizes_of(tasks@);
    let n = tasks.len();
    let mut total: u64 = 0;
    let mut k: usize = 0;
    while k < n
        invariant
            k <= n,
            n == tasks@.len(),
            szs == sizes_of(tasks@),
            total as int == crate::tally::sum_sizes(szs.take(k as int)),
        decreases n - k,
    {
        proof {
            assert(szs.take(k + 1).drop_last() =~= szs.take(k as int));
            assert(szs.take(k + 1).last() == szs[k as int]);
        }
        let next = total.checked_add(tasks[k].expected_size);
        match next {
            Some(t) => {
                total = t;
            },
            None => {
                proof {
                    crate::tally::lemma_sum_sizes_prefix_le(szs, k + 1);
                }
                return None;
            },
        }
        k = k + 1;
    }
    proof {
        assert(szs.take(n as int) =~= szs);
    }
    Some(total)
}

/// The batch download dispatcher of one pool.
pub struct Downloader {
    tasks: Vec<TaskDescriptor>,
    state: DownloadState,
    limit: usize,
    cancel_raised: bool,
}

impl Downloader {
    /// The tasks of the current batch, in submission order.
    pub closed spec fn tasks_seq(self) -> Seq<TaskDescriptor> {
        self.tasks@
    }

    /// The status store of the current batch.
    pub closed spec fn store(self) -> DownloadState {
        self.state
    }

    /// The concurrency bound of this pool.
    pub closed spec fn limit_spec(self) -> int {
        self.limit as int
    }

    /// Whether this batch's cancellation signal has been raised.
    pub closed spec fn cancel_flag(self) -> bool {
        self.cancel_raised
    }

    pub closed spec fn wf(self) -> bool {
        &&& self.state.wf()
        &&& self.limit >= 1
        &&& self.state.active() <= self.limit as int
        &&& self.state.order_seq() == ids_of(self.tasks@)
        &&& self.state.sizes_seq() == sizes_of(self.tasks@)
        &&& ids_unique(self.tasks@)
    }

    /// Bounded concurrency: in a well-formed dispatcher the number of tasks
    /// in `Downloading` never exceeds the pool's limit. Also exposes the
    /// store's own well-formedness and its alignment with the task list.
    pub proof fn lemma_bounded_concurrency(&self)
        requires
            self.wf(),
        ensures
            self.store().active() <= self.limit_spec(),
            self.limit_spec() >= 1,
            self.store().wf(),
            self.store().order_seq() == ids_of(self.tasks_seq()),
            self.store().sizes_seq() == sizes_of(self.tasks_seq()),
            ids_unique(self.tasks_seq()),
    {
    }

    /// A dispatcher with no batch submitted, bounding transfers to `limit`.
    pub fn new(limit: usize) -> (d: Downloader)
        requires
            limit >= 1,
        ensures
            d.wf(),
            d.limit_spec() == limit,
            !d.cancel_flag(),
            d.tasks_seq().len() == 0,
            d.store().queued() == 0,
    {
        let state = DownloadState::default();
        let d = Downloader { tasks: Vec::new(), state, limit, cancel_raised: false };
        proof {
            d.state.lemma_shape();
            assert(d.state.statuses_seq() =~= Seq::<DownloadStatus>::empty());
            assert(d.state.sizes_seq() =~= Seq::<u64>::empty());
            assert(d.state.order_seq() =~= ids_of(d.tasks@));
            assert(d.state.sizes_seq() =~= sizes_of(d.tasks@));
        }
        d
    }

    /// Submit a batch: accepted exactly when `batch_ok` holds of it, and then
    /// every task starts `Pending` under a fresh (lowered) cancellation
    /// signal. A rejected batch changes nothing.
    pub fn submit(&mut self, tasks: Vec<TaskDescriptor>) -> (accepted: bool)
        requires
            old(self).wf(),
        ensures
            final(self).wf(),
            final(self).limit_spec() == old(self).limit_spec(),
            accepted == batch_ok(tasks@),
            accepted ==> {
                &&& final(self).tasks_seq() == tasks@
                &&& final(self).store().statuses_seq() == Seq::new(
                    tasks@.len(),
                    |i: int| DownloadStatus::Pending,
                )
                &&& final(self).store().order_seq() == ids_of(tasks@)
                &&& final(self).store().bytes_done() == 0
                &&& final(self).store().bytes_total() == sum_sizes_of(tasks@)
                &&& !final(self).cancel_flag()
            },
            !accepted ==> *final(self) == *old(self),
    {
        let n = tasks.len();
        if n == 0 {
            proof {
                assert(!batch_ok(tasks@));
            }
            return false;
        }
        if !ids_all_unique(&tasks) {
            return false;
        }
        let total = checked_total(&tasks);
        if total.is_none() {
            return false;
        }
        proof {
            assert(batch_ok(tasks@));
        }
        self.state.init(&tasks);
        self.tasks = tasks;
        self.cancel_raised = false;
        proof {
            crate::tally::lemma_count_kind_uniform(
                self.state.statuses_seq(),
                StatusKind::Pending,
                StatusKind::Downloading,
            );
        }
        true
    }

    /// Raise the batch's cancellation signal. Idempotent; nothing else
    /// changes, and the signal stays raised for the rest of the batch.
    pub fn cancel(&mut self)
        requires
            old(self).wf(),
        ensures
            final(self).wf(),
            final(self).cancel_flag(),
            final(self).store() == old(self).store(),
            final(self).tasks_seq() == old(self).tasks_seq(),
            final(self).limit_spec() == old(self).limit_spec(),
    {
        self.cancel_raised = true;
    }

    /// Whether the batch's cancellation signal is raised.
    pub fn is_cancelled(&self) -> (r: bool)
        ensures
            r == self.cancel_flag(),
    {
        self.cancel_raised
    }

    /// A worker starts its task. `dest_exists` is the worker's observation of
    /// whether the destination file is already present.
    ///
    /// In order: a raised cancellation signal moves the `Pending` task to
    /// `Cancelled`; otherwise an existing destination with `skip_if_exists`
    /// moves it to `Skipped` with no network activity; otherwise, if a
    /// transfer slot is free, the task moves to `Downloading(0, 0)` and the
    /// caller is to issue the HTTP GET.
    pub fn begin_task(&mut self, id: usize, dest_exists: bool) -> (d: StartDecision)
        requires
            old(self).wf(),
        ensures
            final(self).wf(),
            final(self).tasks_seq() == old(self).tasks_seq(),
            final(self).limit_spec() == old(self).limit_spec(),
            final(self).cancel_flag() == old(self).cancel_flag(),
            final(self).store().order_seq() == old(self).store().order_seq(),
            final(self).store().sizes_seq() == old(self).store().sizes_seq(),
            ({
                let st = old(self).store();
                let sts = st.statuses_seq();
                let s2 = final(self).store().statuses_seq();
                if !st.has_id(id) || !(st.status_of(id) is Pending) {
                    d == StartDecision::NotPending && s2 == sts
                } else {
                    let i = st.idx_of(id);
                    if old(self).cancel_flag() {
                        d == StartDecision::MarkedCancelled && s2 == sts.update(
                            i,
                            DownloadStatus::Cancelled,
                        )
                    } else if old(self).tasks_seq()[i].skip_if_exists && dest_exists {
                        d == StartDecision::MarkedSkipped && s2 == sts.update(
                            i,
                            DownloadStatus::Skipped,
                        )
                    } else if st.active() < old(self).limit_spec() {
                        d == StartDecision::StartFetch && s2 == sts.update(
                            i,
                            DownloadStatus::Downloading(0, 0),
                        )
                    } else {
                        d == StartDecision::NoSlot && s2 == sts
                    }
                }
            }),
    {
        proof {
            self.state.lemma_shape();
        }
        let found = self.state.find_index(id);
        match found {
            None => StartDecision::NotPending,
            Some(i) => {
                let ghost sts = self.state.statuses_seq();
                let is_pending = match self.state.status_at(i) {
                    DownloadStatus::Pending => true,
                    _ => false,
                };
                if !is_pending {
                    StartDecision::NotPending
                } else if self.cancel_raised {
                    self.state.set_status(id, DownloadStatus::Cancelled);
                    proof {
                        lemma_count_kind_update(
                            sts,
                            StatusKind::Downloading,
                            i as int,
                            DownloadStatus::Cancelled,
                        );
                    }
                    StartDecision::MarkedCancelled
                } else {
                    let skip = self.tasks[i].skip_if_exists;
                    if skip && dest_exists {
                        self.state.set_status(id, DownloadStatus::Skipped);
                        proof {
                            lemma_count_kind_update(
                                sts,
                                StatusKind::Downloading,
                                i as int,
                                DownloadStatus::Skipped,
                            );
                        }
                        StartDecision::MarkedSkipped
                    } else if self.state.active_count() < self.limit {
                        self.state.set_status(id, DownloadStatus::Downloading(0, 0));
                        proof {
                            lemma_count_kind_update(
                                sts,
                                StatusKind::Downloading,
                                i as int,
                                DownloadStatus::Downloading(0, 0),
                            );
                        }
                        StartDecision::StartFetch
                    } else {
                        StartDecision::NoSlot
                    }
                }
            },
        }
    }

    /// A worker reports transfer progress: the task's `Downloading` entry is
    /// replaced by `Downloading(bytes_so_far, total_bytes)`. Applied only
    /// while the task is `Downloading`.
    pub fn record_progress(&mut self, id: usize, bytes_so_far: u64, total_bytes: u64) -> (updated:
        bool)
        requires
            old(self).wf(),
        ensures
            final(self).wf(),
            final(self).tasks_seq() == old(self).tasks_seq(),
            final(self).limit_spec() == old(self).limit_spec(),
            final(self).cancel_flag() == old(self).cancel_flag(),
            updated == (old(self).store().has_id(id) && old(self).store().status_of(
                id,
            ) is Downloading),
            updated ==> final(self).store().statuses_seq() == old(self).store().statuses_seq()
                .update(
                old(self).store().idx_of(id),
                DownloadStatus::Downloading(bytes_so_far, total_bytes),
            ),
            !updated ==> final(self).store().statuses_seq() == old(self).store().statuses_seq(),
            final(self).store().order_seq() == old(self).store().order_seq(),
            final(self).store().sizes_seq() == old(self).store().sizes_seq(),
    {
        proof {
            self.state.lemma_shape();
        }
        let found = self.state.find_index(id);
        match found {
            None => false,
            Some(i) => {
                let ghost sts = self.state.statuses_seq();
                let is_downloading = match self.state.status_at(i) {
                    DownloadStatus::Downloading(_, _) => true,
                    _ => false,
                };
                if !is_downloading {
                    false
                } else {
                    self.state.set_status(
                        id,
                        DownloadStatus::Downloading(bytes_so_far, total_bytes),
                    );
                    proof {
                        lemma_count_kind_update(
                            sts,
                            StatusKind::Downloading,
                            i as int,
                            DownloadStatus::Downloading(bytes_so_far, total_bytes),
                        );
                    }
                    true
                }
            },
        }
    }

    /// A worker observed the cancellation signal during its transfer: the
    /// `Downloading` task becomes `Cancelled` and its slot is released.
    pub fn finish_cancelled(&mut self, id: usize) -> (updated: bool)
        requires
            old(self).wf(),
        ensures
            final(self).wf(),
            final(self).tasks_seq() == old(self).tasks_seq(),
            final(self).limit_spec() == old(self).limit_spec(),
            final(self).cancel_flag() == old(self).cancel_flag(),
            updated == (old(self).store().has_id(id) && old(self).store().status_of(
                id,
            ) is Downloading),
            updated ==> final(self).store().statuses_seq() == old(self).store().statuses_seq()
                .update(old(self).store().idx_of(id), DownloadStatus::Cancelled),
            !updated ==> final(self).store().statuses_seq() == old(self).store().statuses_seq(),
            final(self).store().order_seq() == old(self).store().order_seq(),
            final(self).store().sizes_seq() == old(self).store().sizes_seq(),
    {
        self.finish_as(id, DownloadStatus::Cancelled)
    }

    /// A worker's transfer failed (connection error, stream error, or a
    /// non-2xx response whose reason the caller formatted): the `Downloading`
    /// task becomes `Failed(reason)` and its slot is released.
    pub fn finish_failure(&mut self, id: usize, reason: String) -> (updated: bool)
        requires
            old(self).wf(),
        ensures
            final(self).wf(),
            final(self).tasks_seq() == old(self).tasks_seq(),
            final(self).limit_spec() == old(self).limit_spec(),
            final(self).cancel_flag() == old(self).cancel_flag(),
            updated == (old(self).store().has_id(id) && old(self).store().status_of(
                id,
            ) is Downloading),
            updated ==> final(self).store().statuses_seq() == old(self).store().statuses_seq()
                .update(old(self).store().idx_of(id), DownloadStatus::Failed(reason)),
            !updated ==> final(self).store().statuses_seq() == old(self).store().statuses_seq(),
            final(self).store().order_seq() == old(self).store().order_seq(),
            final(self).store().sizes_seq() == old(self).store().sizes_seq(),
    {
        self.finish_as(id, DownloadStatus::Failed(reason))
    }

    /// A worker received a non-2xx response: the `Downloading` task becomes
    /// `Failed` with reason `HTTP <code>`, and its slot is released.
    pub fn finish_http_error(&mut self, id: usize, code: u16) -> (updated: bool)
        requires
            old(self).wf(),
        ensures
            final(self).wf(),
            final(self).tasks_seq() == old(self).tasks_seq(),
            final(self).limit_spec() == old(self).limit_spec(),
            final(self).cancel_flag() == old(self).cancel_flag(),
            updated == (old(self).store().has_id(id) && old(self).store().status_of(
                id,
            ) is Downloading),
            updated ==> ({
                let i = old(self).store().idx_of(id);
                let s2 = final(self).store().statuses_seq();
                &&& s2 == old(self).store().statuses_seq().update(i, s2[i])
                &&& s2[i] matches DownloadStatus::Failed(m) && m@ == crate::text::http_reason_chars(
                    code as int,
                )
            }),
            !updated ==> final(self).store().statuses_seq() == old(self).store().statuses_seq(),
            final(self).store().order_seq() == old(self).store().order_seq(),
            final(self).store().sizes_seq() == old(self).store().sizes_seq(),
    {
        let reason = crate::text::http_status_reason(code);
        let ghost reason_spec = reason;
        let updated = self.finish_as(id, DownloadStatus::Failed(reason));
        proof {
            if updated {
                let st = old(self).store();
                let i = st.idx_of(id);
                assert(0 <= i < st.order_seq().len() && st.order_seq()[i] == id);
                st.lemma_shape();
                let s2 = self.store().statuses_seq();
                assert(s2[i] == DownloadStatus::Failed(reason_spec));
                assert(s2 == st.statuses_seq().update(i, s2[i]));
            }
        }
        updated
    }

    /// A worker finished its transfer and wrote the buffer to disk; `ok` is
    /// the outcome of the write. The task becomes `Complete`, attributing its
    /// expected size to `downloaded_bytes`, or `Failed("Write failed")`.
    pub fn finish_write_result(&mut self, id: usize, ok: bool) -> (updated: bool)
        requires
            old(self).wf(),
        ensures
            final(self).wf(),
            final(self).tasks_seq() == old(self).tasks_seq(),
            final(self).limit_spec() == old(self).limit_spec(),
            final(self).cancel_flag() == old(self).cancel_flag(),
            updated == (old(self).store().has_id(id) && old(self).store().status_of(
                id,
            ) is Downloading),
            updated && ok ==> final(self).store().statuses_seq() == old(
                self,
            ).store().statuses_seq().update(
                old(self).store().idx_of(id),
                DownloadStatus::Complete,
            ),
            updated && !ok ==> ({
                let i = old(self).store().idx_of(id);
                let s2 = final(self).store().statuses_seq();
                &&& s2 == old(self).store().statuses_seq().update(i, s2[i])
                &&& s2[i] matches DownloadStatus::Failed(m) && m@ == "Write failed"@
            }),
            !updated ==> final(self).store().statuses_seq() == old(self).store().statuses_seq(),
            final(self).store().order_seq() == old(self).store().order_seq(),
            final(self).store().sizes_seq() == old(self).store().sizes_seq(),
    {
        if ok {
            self.finish_as(id, DownloadStatus::Complete)
        } else {
            let reason: String = "Write failed".to_owned();
            let ghost reason_spec = reason;
            let updated = self.finish_as(id, DownloadStatus::Failed(reason));
            proof {
                if updated {
                    let st = old(self).store();
                    let i = st.idx_of(id);
                    assert(0 <= i < st.order_seq().len() && st.order_seq()[i] == id);
                    st.lemma_shape();
                    let s2 = self.store().statuses_seq();
                    assert(s2[i] == DownloadStatus::Failed(reason_spec));
                    assert(s2 == st.statuses_seq().update(i, s2[i]));
                }
            }
            updated
        }
    }

    /// Common path of the terminal worker events: applied only while the
    /// task is `Downloading`.
    fn finish_as(&mut self, id: usize, status: DownloadStatus) -> (updated: bool)
        requires
            old(self).wf(),
            status is Complete || status is Failed || status is Cancelled,
        ensures
            final(self).wf(),
            final(self).tasks_seq() == old(self).tasks_seq(),
            final(self).limit_spec() == old(self).limit_spec(),
            final(self).cancel_flag() == old(self).cancel_flag(),
            updated == (old(self).store().has_id(id) && old(self).store().status_of(
                id,
            ) is Downloading),
            updated ==> final(self).store().statuses_seq() == old(self).store().statuses_seq()
                .update(old(self).store().idx_of(id), status),
            !updated ==> final(self).store().statuses_seq() == old(self).store().statuses_seq(),
            final(self).store().order_seq() == old(self).store().order_seq(),
            final(self).store().sizes_seq() == old(self).store().sizes_seq(),
    {
        proof {
            self.state.lemma_shape();
        }
        let found = self.state.find_index(id);
        match found {
            None => false,
            Some(i) => {
                let ghost sts = self.state.statuses_seq();
                let ghost status_spec = status;
                let is_downloading = match self.state.status_at(i) {
                    DownloadStatus::Downloading(_, _) => true,
                    _ => false,
                };
                if !is_downloading {
                    false
                } else {
                    self.state.set_status(id, status);
                    proof {
                        lemma_count_kind_update(sts, StatusKind::Downloading, i as int, status_spec);
                    }
                    true
                }
            },
        }
    }

    /// Re-submit exactly the `Failed` tasks: their statuses return to
    /// `Pending`, their descriptors lose `skip_if_exists` (a retry re-fetches
    /// even if a prior artifact exists), the retry sub-batch gets a fresh
    /// (lowered) cancellation signal, and the returned sub-batch lists those
    /// tasks in submission order. With no failed task this is a no-op: nothing
    /// changes — in particular a raised cancellation signal stays raised for
    /// the rest of the batch — and the list comes back empty.
    pub fn retry_failed(&mut self) -> (retry: Vec<TaskDescriptor>)
        requires
            old(self).wf(),
        ensures
            final(self).wf(),
            final(self).limit_spec() == old(self).limit_spec(),
            final(self).cancel_flag() == (old(self).store().failed() == 0 && old(
                self,
            ).cancel_flag()),
            old(self).store().failed() == 0 ==> *final(self) == *old(self),
            final(self).store().order_seq() == old(self).store().order_seq(),
            final(self).store().sizes_seq() == old(self).store().sizes_seq(),
            final(self).store().statuses_seq().len() == old(self).store().statuses_seq().len(),
            forall|i: int|
                0 <= i < old(self).store().statuses_seq().len()
                    ==> final(self).store().statuses_seq()[i] == (if old(
                    self,
                ).store().statuses_seq()[i] is Failed {
                    DownloadStatus::Pending
                } else {
                    old(self).store().statuses_seq()[i]
                }),
            final(self).store().failed() == 0,
            final(self).store().bytes_done() == old(self).store().bytes_done(),
            final(self).tasks_seq().len() == old(self).tasks_seq().len(),
            forall|i: int|
                0 <= i < old(self).tasks_seq().len() ==> final(self).tasks_seq()[i] == (if old(
                    self,
                ).store().statuses_seq()[i] is Failed {
                    retried_task(old(self).tasks_seq()[i])
                } else {
                    old(self).tasks_seq()[i]
                }),
            retry@ == failed_subbatch(old(self).tasks_seq(), old(self).store().statuses_seq()),
            retry@.len() as int == old(self).store().failed(),
    {
        proof {
            self.state.lemma_shape();
        }
        let ghost t_orig = self.tasks@;
        let ghost s_orig = self.state.statuses_seq();
        if self.state.failed_count() == 0 {
            proof {
                assert forall|j: int| 0 <= j < s_orig.len() implies !(#[trigger] s_orig[j] is Failed) by {
                    if s_orig[j] is Failed {
                        lemma_count_kind_at_least_one(s_orig, StatusKind::Failed, j);
                    }
                }
                lemma_failed_subbatch_len(t_orig, s_orig);
                assert(failed_subbatch(t_orig, s_orig) =~= Seq::<TaskDescriptor>::empty());
            }
            return Vec::new();
        }
        let len = self.tasks.len();
        let mut retry: Vec<TaskDescriptor> = Vec::new();
        let mut i: usize = 0;
        while i < len
            invariant
                i <= len,
                len == t_orig.len(),
                len == s_orig.len(),
                self.tasks@.len() == len,
                self.state == old(self).state,
                s_orig == self.state.statuses_seq(),
                t_orig == old(self).tasks_seq(),
                self.limit == old(self).limit,
                self.cancel_raised == old(self).cancel_raised,
                old(self).wf(),
                forall|j: int|
                    0 <= j < i ==> self.tasks@[j] == (if s_orig[j] is Failed {
                        retried_task(t_orig[j])
                    } else {
                        t_orig[j]
                    }),
                forall|j: int| i <= j < len ==> self.tasks@[j] == t_orig[j],
                retry@ == failed_subbatch(t_orig.take(i as int), s_orig.take(i as int)),
            decreases len - i,
        {
            proof {
                assert(t_orig.take(i + 1).drop_last() =~= t_orig.take(i as int));
                assert(s_orig.take(i + 1).drop_last() =~= s_orig.take(i as int));
                assert(t_orig.take(i + 1).last() == t_orig[i as int]);
                assert(s_orig.take(i + 1).last() == s_orig[i as int]);
            }
            let is_failed = match self.state.status_at(i) {
                DownloadStatus::Failed(_) => true,
                _ => false,
            };
            if is_failed {
                let t = &self.tasks[i];
                let nt = TaskDescriptor {
                    id: t.id,
                    url: t.url.clone(),
                    destination: t.destination.clone(),
                    expected_size: t.expected_size,
                    skip_if_exists: false,
                };
                retry.push(nt.duplicate());
                self.tasks.set(i, nt);
            }
            i = i + 1;
        }
        proof {
            assert(t_orig.take(len as int) =~= t_orig);
            assert(s_orig.take(len as int) =~= s_orig);
        }
        self.state.retry_reset();
        self.cancel_raised = false;
        proof {
            // the task list still aligns with the store: ids and sizes are untouched
            assert(ids_of(self.tasks@) =~= ids_of(t_orig));
            assert(sizes_of(self.tasks@) =~= sizes_of(t_orig));
            assert(ids_unique(self.tasks@)) by {
                assert(forall|x: int, y: int|
                    0 <= x < self.tasks@.len() && 0 <= y < self.tasks@.len() && x != y
                        ==> self.tasks@[x].id != self.tasks@[y].id) by {
                    assert(forall|x: int| 0 <= x < self.tasks@.len()
                        ==> self.tasks@[x].id == t_orig[x].id);
                }
            }
            lemma_failed_subbatch_len(t_orig, s_orig);
        }
        retry
    }

    /// A consistent copy of the store for rendering.
    pub fn snapshot(&self) -> (snap: DownloadSnapshot)
        requires
            self.wf(),
        ensures
            snap.order@ == self.store().order_seq(),
            snap.statuses@ == self.store().statuses_seq(),
            snap.total_queued as int == self.store().queued(),
            snap.active_count as int == self.store().active(),
            snap.completed_count as int == self.store().completed(),
            snap.failed_count as int == self.store().failed(),
            snap.skipped_count as int == self.store().skipped(),
            snap.cancelled_count as int == self.store().cancelled(),
            snap.pending_count as int == self.store().pending(),
            snap.total_bytes as int == self.store().bytes_total(),
            snap.downloaded_bytes as int == self.store().bytes_done(),
    {
        self.state.snapshot()
    }

    /// Dismiss the batch: the store is emptied and the task list dropped.
    pub fn clear(&mut self)
        requires
            old(self).wf(),
        ensures
            final(self).wf(),
            final(self).limit_spec() == old(self).limit_spec(),
            final(self).tasks_seq().len() == 0,
            final(self).store().queued() == 0,
    {
        self.tasks = Vec::new();
        self.state.clear();
        self.cancel_raised = false;
        proof {
            self.state.lemma_shape();
            assert(self.state.statuses_seq() =~= Seq::<DownloadStatus>::empty());
            assert(self.state.order_seq() =~= ids_of(self.tasks@));
            assert(self.state.sizes_seq() =~= sizes_of(self.tasks@));
        }
    }
}

/// The retry sub-batch holds exactly as many tasks as there are `Failed`
/// statuses.
pub proof fn lemma_failed_subbatch_len(tasks: Seq<TaskDescriptor>, sts: Seq<DownloadStatus>)
    requires
        tasks.len() == sts.len(),
    ensures
        failed_subbatch(tasks, sts).len() as int == count_kind(sts, StatusKind::Failed),
    decreases tasks.len(),
{
    if tasks.len() > 0 {
        lemma_failed_subbatch_len(tasks.drop_last(), sts.drop_last());
    }
}

} // verus!
