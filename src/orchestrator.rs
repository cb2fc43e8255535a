//! The run over the folder queue, one folder at a time, as a state machine:
//! the caller does the work each step asks for and reports back.

use vstd::prelude::*;
use crate::queue::{FolderFailure, FolderInfo, FolderStatus};

verus! {

/// What the run reports, in order, to its one listener.
#[derive(Clone, Debug)]
pub enum ProgressUpdate {
    FolderStarted { folder_index: usize, folder_name: String },
    FileProgress {
        folder_index: usize,
        files_done: usize,
        files_total: usize,
        current_file: String,
        elapsed_ms: u64,
    },
    FolderCompleted { folder_index: usize },
    FolderError { folder_index: usize, error: FolderFailure },
    AllComplete,
    Cancelled,
}

/// Drives the queue: `Pending -> Processing -> Complete | Error` for each
/// folder in turn, ending with `AllComplete` or `Cancelled`.
pub struct Orchestrator {
    folders: Vec<FolderInfo>,
    next: usize,
    active: bool,
    finished: bool,
}

impl Orchestrator {
    pub closed spec fn statuses(&self) -> Seq<FolderStatus> {
        self.folders@.map_values(|f: FolderInfo| f.status)
    }

    pub closed spec fn progress(&self) -> Seq<usize> {
        self.folders@.map_values(|f: FolderInfo| f.files_done)
    }

    pub closed spec fn names(&self) -> Seq<String> {
        self.folders@.map_values(|f: FolderInfo| f.name)
    }

    /// The index of the folder being processed, or of the next one to start.
    pub closed spec fn position(&self) -> int {
        self.next as int
    }

    /// A folder has been started and not yet ended.
    pub closed spec fn is_active(&self) -> bool {
        self.active
    }

    /// `AllComplete` or `Cancelled` has been reported.
    pub closed spec fn is_finished(&self) -> bool {
        self.finished
    }

    pub open spec fn wf(&self) -> bool {
        let s = self.statuses();
        let n = self.position();
        &&& 0 <= n <= s.len()
        &&& self.is_active() ==> n < s.len() && !self.is_finished()
        &&& forall|i: int| 0 <= i < n ==> (#[trigger] s[i] == FolderStatus::Complete || s[i] == FolderStatus::Error)
        &&& forall|i: int| n < i < s.len() ==> #[trigger] s[i] == FolderStatus::Pending
        &&& n < s.len() ==> (if self.is_active() { s[n] == FolderStatus::Processing } else { s[n] == FolderStatus::Pending })
    }

    /// A run over `folders`, every one of them made `Pending`.
    pub fn new(folders: Vec<FolderInfo>) -> (r: Orchestrator)
        ensures
            r.wf(),
            r.statuses() == Seq::new(folders@.len(), |i: int| FolderStatus::Pending),
            r.names() == folders@.map_values(|f: FolderInfo| f.name),
            r.position() == 0,
            !r.is_active(),
            !r.is_finished(),
    {
        let ghost old_folders = folders;
        let mut folders = folders;
        let n = folders.len();
        let mut i: usize = 0;
        while i < n
            invariant
                n == folders@.len(),
                i <= n,
                forall|k: int| 0 <= k < i ==> (#[trigger] folders@[k]).status == FolderStatus::Pending,
                forall|k: int| 0 <= k < n ==> (#[trigger] folders@[k]).name == old_folders@[k].name,
            decreases n - i,
        {
            folders[i].status = FolderStatus::Pending;
            i = i + 1;
        }
        let r = Orchestrator { folders, next: 0, active: false, finished: false };
        assert(r.statuses() =~= Seq::new(n as nat, |i: int| FolderStatus::Pending));
        assert(r.names() =~= old_folders@.map_values(|f: FolderInfo| f.name));
        r
    }

    /// The folders with their current status.
    pub fn folders(&self) -> (r: &Vec<FolderInfo>)
        ensures
            r@.map_values(|f: FolderInfo| f.status) == self.statuses(),
            r@.map_values(|f: FolderInfo| f.name) == self.names(),
            r@.map_values(|f: FolderInfo| f.files_done) == self.progress(),
    {
        &self.folders
    }

    /// Records that `files_done` frames of the folder being processed are
    /// written; no status changes.
    pub fn record_progress(&mut self, files_done: usize)
        requires
            old(self).wf(),
            old(self).is_active(),
        ensures
            final(self).wf(),
            final(self).names() == old(self).names(),
            final(self).statuses() == old(self).statuses(),
            final(self).position() == old(self).position(),
            final(self).is_active(),
            !final(self).is_finished(),
            final(self).progress()[final(self).position()] == files_done,
    {
        let i = self.next;
        self.folders[i].files_done = files_done;
        assert(self.statuses() =~= old(self).statuses());
        assert(self.names() =~= old(self).names());
    }

    /// Decides the next step with the stop flag as it reads now. Once the run
    /// is finished there is nothing more to report. Past the last folder the
    /// run ends with `AllComplete`; else a raised flag ends it with
    /// `Cancelled`, leaving every status as it was; else the next folder
    /// becomes `Processing` and `FolderStarted` is reported.
    pub fn begin_next(&mut self, stop: bool) -> (r: Option<ProgressUpdate>)
        requires
            old(self).wf(),
            !old(self).is_active(),
        ensures
            final(self).wf(),
            final(self).names() == old(self).names(),
            old(self).is_finished() ==> r is None && final(self).statuses() == old(self).statuses()
                && final(self).is_finished() && !final(self).is_active(),
            !old(self).is_finished() && old(self).position() == old(self).statuses().len() ==> (
                r matches Some(ProgressUpdate::AllComplete)
                && final(self).is_finished() && !final(self).is_active()
                && final(self).statuses() == old(self).statuses()),
            !old(self).is_finished() && old(self).position() < old(self).statuses().len() && stop ==> (
                r matches Some(ProgressUpdate::Cancelled)
                && final(self).is_finished() && !final(self).is_active()
                && final(self).statuses() == old(self).statuses()),
            !old(self).is_finished() && old(self).position() < old(self).statuses().len() && !stop ==> (
                r matches Some(ProgressUpdate::FolderStarted { folder_index, folder_name })
                && folder_index == old(self).position()
                && folder_name == old(self).names()[old(self).position()]
                && final(self).is_active() && !final(self).is_finished()
                && final(self).position() == old(self).position()
                && final(self).statuses() == old(self).statuses().update(old(self).position(), FolderStatus::Processing)),
    {
        if self.finished {
            return None;
        }
        if self.next == self.folders.len() {
            self.finished = true;
            return Some(ProgressUpdate::AllComplete);
        }
        if stop {
            self.finished = true;
            return Some(ProgressUpdate::Cancelled);
        }
        let i = self.next;
        let ghost before = self.statuses();
        self.folders[i].status = FolderStatus::Processing;
        let name = self.folders[i].name.clone();
        self.active = true;
        assert(self.statuses() =~= before.update(i as int, FolderStatus::Processing));
        assert(self.names() =~= old(self).names());
        Some(ProgressUpdate::FolderStarted { folder_index: i, folder_name: name })
    }

    fn end_folder(&mut self, status: FolderStatus, failure: Option<FolderFailure>)
        requires
            old(self).wf(),
            old(self).is_active(),
            status == FolderStatus::Complete || status == FolderStatus::Error,
        ensures
            final(self).wf(),
            final(self).names() == old(self).names(),
            !final(self).is_active(),
            !final(self).is_finished(),
            final(self).position() == old(self).position() + 1,
            final(self).statuses() == old(self).statuses().update(old(self).position(), status),
    {
        let i = self.next;
        let n = self.folders.len();
        let ghost before = self.statuses();
        self.folders[i].status = status;
        self.folders[i].failure = failure;
        self.active = false;
        assert(i < n);
        self.next = i + 1;
        assert(self.statuses() =~= before.update(i as int, status));
        assert(self.names() =~= old(self).names());
    }

    /// The folder being processed could not be set up (no images, frames that
    /// do not load, no output directory): it becomes `Error` and
    /// `FolderError` is reported; no frame of it is composited.
    pub fn fail_folder(&mut self, failure: FolderFailure) -> (r: ProgressUpdate)
        requires
            old(self).wf(),
            old(self).is_active(),
        ensures
            final(self).wf(),
            final(self).names() == old(self).names(),
            !final(self).is_active(),
            !final(self).is_finished(),
            final(self).position() == old(self).position() + 1,
            final(self).statuses() == old(self).statuses().update(old(self).position(), FolderStatus::Error),
            r matches ProgressUpdate::FolderError { folder_index, error }
                && folder_index == old(self).position() && error == failure,
    {
        let i = self.next;
        self.end_folder(FolderStatus::Error, Some(failure));
        ProgressUpdate::FolderError { folder_index: i, error: failure }
    }

    /// Every frame task of the folder being processed has ended, `failed` of
    /// them without output. With none failed the folder becomes `Complete` and
    /// `FolderCompleted` is reported; else it becomes `Error` and one
    /// `FolderError` gives the count.
    pub fn finish_folder(&mut self, failed: usize) -> (r: ProgressUpdate)
        requires
            old(self).wf(),
            old(self).is_active(),
        ensures
            final(self).wf(),
            final(self).names() == old(self).names(),
            !final(self).is_active(),
            !final(self).is_finished(),
            final(self).position() == old(self).position() + 1,
            failed == 0 ==> final(self).statuses() == old(self).statuses().update(old(self).position(), FolderStatus::Complete)
                && r == (ProgressUpdate::FolderCompleted { folder_index: old(self).position() as usize }),
            failed > 0 ==> final(self).statuses() == old(self).statuses().update(old(self).position(), FolderStatus::Error)
                && (r matches ProgressUpdate::FolderError { folder_index, error }
                && folder_index == old(self).position()
                && error == (FolderFailure::FramesFailed { count: failed })),
    {
        let i = self.next;
        if failed == 0 {
            self.end_folder(FolderStatus::Complete, None);
            ProgressUpdate::FolderCompleted { folder_index: i }
        } else {
            let failure = FolderFailure::FramesFailed { count: failed };
            self.end_folder(FolderStatus::Error, Some(failure));
            ProgressUpdate::FolderError { folder_index: i, error: failure }
        }
    }
}

} // verus!
