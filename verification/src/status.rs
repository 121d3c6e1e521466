//! Per-task download status and the legal transitions between statuses.

use vstd::prelude::*;

verus! {

/// Status of one download task.
///
/// `Downloading(bytes_so_far, total_bytes)` carries the transfer progress;
/// `total_bytes` is 0 when the server did not report a length.
/// `Failed` carries a human-readable reason.
#[derive(Clone, Debug, PartialEq)]
pub enum DownloadStatus {
    Pending,
    Downloading(u64, u64),
    Complete,
    Skipped,
    Cancelled,
    Failed(String),
}

impl DownloadStatus {
    /// A terminal status never changes again within a batch.
    pub open spec fn is_terminal(self) -> bool {
        match self {
            DownloadStatus::Complete => true,
            DownloadStatus::Skipped => true,
            DownloadStatus::Cancelled => true,
            DownloadStatus::Failed(_) => true,
            _ => false,
        }
    }

    /// Statuses whose expected bytes count towards `downloaded_bytes`.
    pub open spec fn counts_bytes(self) -> bool {
        self is Complete || self is Skipped
    }

    /// Returns a value equal to `self` (a clone whose result is known to Verus).
    pub fn duplicate(&self) -> (r: DownloadStatus)
        ensures
            r == *self,
    {
        match self {
            DownloadStatus::Pending => DownloadStatus::Pending,
            DownloadStatus::Downloading(got, total) => DownloadStatus::Downloading(*got, *total),
            DownloadStatus::Complete => DownloadStatus::Complete,
            DownloadStatus::Skipped => DownloadStatus::Skipped,
            DownloadStatus::Cancelled => DownloadStatus::Cancelled,
            DownloadStatus::Failed(reason) => DownloadStatus::Failed(reason.clone()),
        }
    }
}

/// The legal status transitions of one task within a batch:
/// `Pending -> {Downloading | Cancelled | Skipped}`,
/// `Downloading -> {Downloading | Complete | Failed | Cancelled}`,
/// and nothing leaves a terminal status.
pub open spec fn can_transition(cur: DownloadStatus, next: DownloadStatus) -> bool {
    match cur {
        DownloadStatus::Pending => match next {
            DownloadStatus::Downloading(_, _) => true,
            DownloadStatus::Cancelled => true,
            DownloadStatus::Skipped => true,
            _ => false,
        },
        DownloadStatus::Downloading(_, _) => match next {
            DownloadStatus::Downloading(_, _) => true,
            DownloadStatus::Complete => true,
            DownloadStatus::Failed(_) => true,
            DownloadStatus::Cancelled => true,
            _ => false,
        },
        _ => false,
    }
}

/// Runtime check of `can_transition`.
pub fn transition_allowed(cur: &DownloadStatus, next: &DownloadStatus) -> (r: bool)
    ensures
        r == can_transition(*cur, *next),
{
    match cur {
        DownloadStatus::Pending => match next {
            DownloadStatus::Downloading(_, _) => true,
            DownloadStatus::Cancelled => true,
            DownloadStatus::Skipped => true,
            _ => false,
        },
        DownloadStatus::Downloading(_, _) => match next {
            DownloadStatus::Downloading(_, _) => true,
            DownloadStatus::Complete => true,
            DownloadStatus::Failed(_) => true,
            DownloadStatus::Cancelled => true,
            _ => false,
        },
        _ => false,
    }
}

/// Terminal finality: no transition, to any status at all, leaves a terminal
/// status. Once a task is `Complete`, `Skipped`, `Cancelled` or `Failed`, its
/// status is fixed for the rest of the batch.
pub proof fn lemma_terminal_is_final(cur: DownloadStatus, next: DownloadStatus)
    ensures
        cur.is_terminal() ==> !can_transition(cur, next),
{
}

/// `Complete` and `Failed` are reachable only from `Downloading`: a task that
/// never started a transfer can end `Cancelled` or `Skipped`, but never
/// `Complete` or `Failed`.
pub proof fn lemma_only_transfers_complete(cur: DownloadStatus, next: DownloadStatus)
    ensures
        can_transition(cur, next) && (next is Complete || next is Failed)
            ==> cur is Downloading,
{
}

} // verus!
