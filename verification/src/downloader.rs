//! Download jobs: the status record, its invariants, the job table with its
//! control operations, and the per-file worker steps.
//!
//! A worker task outside this crate drives a job through
//! `Starting -> Downloading <-> Paused -> Extracting -> Completed`, with
//! `Failed` and `Cancelled` reachable from any non-terminal state.  All
//! decisions and all mutations of the status record happen here; the outside
//! task only performs the network and filesystem actions these functions ask
//! for.  Timestamps are unix seconds, handed in by the caller.

use vstd::prelude::*;
use crate::text::str_eq;

verus! {

/// Upper bound on the unix-second timestamps this library accepts; keeps all
/// time arithmetic inside `i64`.
pub const MAX_UNIX_SECONDS: i64 = 4_000_000_000_000;

#[derive(Clone, Copy, Debug, PartialEq, Eq, Structural)]
pub enum DownloadState {
    Starting,
    Downloading,
    Paused,
    Extracting,
    Completed,
    Failed,
    Cancelled,
}

/// Completed, Failed and Cancelled are terminal: no operation moves a job out
/// of them.
pub open spec fn is_terminal(s: DownloadState) -> bool {
    s == DownloadState::Completed || s == DownloadState::Failed || s == DownloadState::Cancelled
}

#[derive(Debug, Clone)]
pub struct DownloadConfig {
    pub base_url: String,
    pub destination_folder: String,
    pub auto_extract: bool,
    pub create_subfolder: Option<String>,
    /// List of files to download (for multi-file downloads).
    pub files: Vec<String>,
    pub custom_headers: Option<Vec<(String, String)>>,
}

#[derive(Debug, Clone)]
pub struct DownloadStatus {
    pub id: String,
    pub status: DownloadState,
    pub source_url: String,
    pub destination: String,
    pub files: Vec<String>,
    pub total_files: usize,
    pub files_completed: usize,
    pub current_file: String,
    pub progress: u8,
    /// Bytes received for the file in flight.
    pub downloaded_bytes: u64,
    /// Size of the file in flight, 0 while unknown.
    pub total_bytes: u64,
    /// Instantaneous transfer speed, in whole bytes per second.
    pub speed: u64,
    /// Unix seconds at which the job was created.
    pub start_time: i64,
    /// Wall-clock seconds since `start_time`, minus time spent paused.
    pub elapsed_time: i64,
    pub total_paused_time: i64,
    pub pause_start_time: Option<i64>,
    pub error: Option<String>,
    pub message: Option<String>,
}

/// The invariants of one job record.  Every table operation preserves this.
pub open spec fn status_wf(s: DownloadStatus) -> bool {
    &&& s.total_files == s.files.len()
    &&& 1 <= s.total_files
    &&& s.files_completed <= s.total_files
    &&& s.progress <= 100
    &&& (s.total_bytes > 0 ==> s.downloaded_bytes <= s.total_bytes)
    &&& (s.status == DownloadState::Completed <==> s.files_completed == s.total_files)
    &&& 0 <= s.start_time <= MAX_UNIX_SECONDS
    &&& 0 <= s.total_paused_time <= MAX_UNIX_SECONDS
    &&& (s.status == DownloadState::Paused ==> s.pause_start_time is Some)
    &&& match s.pause_start_time {
        Some(t) => 0 <= t <= MAX_UNIX_SECONDS,
        None => true,
    }
}

/// In-memory registry of download jobs, guarded by one lock outside this
/// crate.  Entries are keyed by their unique `id` field.
#[derive(Debug)]
pub struct DownloadManager {
    pub downloads: Vec<DownloadStatus>,
    pub download_history: Vec<DownloadStatus>,
}

pub open spec fn ids_unique(t: Seq<DownloadStatus>) -> bool {
    forall|i: int, j: int| 0 <= i < j < t.len() ==> t[i].id@ != t[j].id@
}

/// The entries that survive a history clear: everything not yet terminal.
pub open spec fn live_jobs(t: Seq<DownloadStatus>) -> Seq<DownloadStatus> {
    t.filter(|s: DownloadStatus| !is_terminal(s.status))
}

pub open spec fn manager_wf(m: DownloadManager) -> bool {
    &&& ids_unique(m.downloads@)
    &&& forall|i: int| 0 <= i < m.downloads@.len() ==> status_wf(#[trigger] m.downloads@[i])
}

/// There is an entry with this id in the table.
pub open spec fn has_id(t: Seq<DownloadStatus>, id: Seq<char>) -> bool {
    exists|i: int| 0 <= i < t.len() && (#[trigger] t[i].id)@ == id
}

impl DownloadManager {
    pub fn new() -> (r: DownloadManager)
        ensures
            r.downloads@.len() == 0,
            r.download_history@.len() == 0,
            manager_wf(r),
    {
        DownloadManager { downloads: Vec::new(), download_history: Vec::new() }
    }

    /// Index of the entry with the given id, if any.
    pub fn find(&self, id: &str) -> (r: Option<usize>)
        ensures
            match r {
                Some(i) => i < self.downloads@.len() && self.downloads@[i as int].id@ == id@,
                None => !has_id(self.downloads@, id@),
            },
    {
        let mut i: usize = 0;
        while i < self.downloads.len()
            invariant
                i <= self.downloads@.len(),
                forall|j: int| 0 <= j < i ==> (#[trigger] self.downloads@[j].id)@ != id@,
            decreases self.downloads@.len() - i,
        {
            if str_eq(self.downloads[i].id.as_str(), id) {
                return Some(i);
            }
            i = i + 1;
        }
        None
    }

    /// Registers a new job.  The id must not already be present.
    pub fn add_download(&mut self, status: DownloadStatus)
        requires
            status_wf(status),
            manager_wf(*old(self)),
            !has_id(old(self).downloads@, status.id@),
        ensures
            final(self).downloads@ == old(self).downloads@.push(status),
            final(self).download_history@ == old(self).download_history@,
            manager_wf(*final(self)),
    {
        self.downloads.push(status);
    }

    pub fn get_status(&self, id: &str) -> (r: Option<&DownloadStatus>)
        ensures
            match r {
                Some(s) => exists|i: int|
                    0 <= i < self.downloads@.len() && self.downloads@[i] == *s && s.id@ == id@,
                None => !has_id(self.downloads@, id@),
            },
    {
        match self.find(id) {
            Some(i) => {
                let s = &self.downloads[i];
                proof {
                    assert(0 <= i < self.downloads@.len() && self.downloads@[i as int] == *s
                        && s.id@ == id@);
                }
                Some(s)
            },
            None => None,
        }
    }

    /// Pausing records the pause start; only a job that is currently
    /// downloading can be paused.
    pub fn pause_download(&mut self, id: &str, now: i64) -> (r: Result<(), String>)
        requires
            manager_wf(*old(self)),
            0 <= now <= MAX_UNIX_SECONDS,
        ensures
            manager_wf(*final(self)),
            final(self).download_history@ == old(self).download_history@,
            match r {
                Ok(()) => exists|i: int|
                    {
                        &&& 0 <= i < old(self).downloads@.len()
                        &&& (#[trigger] old(self).downloads@[i]).id@ == id@
                        &&& old(self).downloads@[i].status == DownloadState::Downloading
                        &&& final(self).downloads@ == old(self).downloads@.update(
                            i,
                            spec_paused(old(self).downloads@[i], now),
                        )
                    },
                Err(m) => {
                    &&& final(self).downloads@ == old(self).downloads@
                    &&& if has_id(old(self).downloads@, id@) {
                        m@ == "Download is not in a state that can be paused"@
                            && forall|i: int|
                            0 <= i < old(self).downloads@.len() && (#[trigger] old(
                                self,
                            ).downloads@[i]).id@ == id@
                                ==> old(self).downloads@[i].status != DownloadState::Downloading
                    } else {
                        m@ == "Download not found"@
                    }
                },
            },
    {
        match self.find(id) {
            Some(i) => {
                if matches!(self.downloads[i].status, DownloadState::Downloading) {
                    let s = &mut self.downloads[i];
                    s.status = DownloadState::Paused;
                    s.pause_start_time = Some(now);
                    proof {
                        assert(self.downloads@ =~= old(self).downloads@.update(
                            i as int,
                            spec_paused(old(self).downloads@[i as int], now),
                        ));
                    }
                    Ok(())
                } else {
                    proof {
                        lemma_unique_id_index(old(self).downloads@, id@, i as int);
                    }
                    Err("Download is not in a state that can be paused".to_owned())
                }
            },
            None => Err("Download not found".to_owned()),
        }
    }

    /// Resuming adds the elapsed pause duration into `total_paused_time`;
    /// only a paused job can be resumed.
    pub fn resume_download(&mut self, id: &str, now: i64) -> (r: Result<(), String>)
        requires
            manager_wf(*old(self)),
            0 <= now <= MAX_UNIX_SECONDS,
        ensures
            manager_wf(*final(self)),
            final(self).download_history@ == old(self).download_history@,
            match r {
                Ok(()) => exists|i: int|
                    {
                        &&& 0 <= i < old(self).downloads@.len()
                        &&& (#[trigger] old(self).downloads@[i]).id@ == id@
                        &&& old(self).downloads@[i].status == DownloadState::Paused
                        &&& final(self).downloads@ == old(self).downloads@.update(
                            i,
                            spec_resumed(old(self).downloads@[i], now),
                        )
                    },
                Err(m) => {
                    &&& final(self).downloads@ == old(self).downloads@
                    &&& if has_id(old(self).downloads@, id@) {
                        m@ == "Download is not paused"@ && forall|i: int|
                            0 <= i < old(self).downloads@.len() && (#[trigger] old(
                                self,
                            ).downloads@[i]).id@ == id@
                                ==> old(self).downloads@[i].status != DownloadState::Paused
                    } else {
                        m@ == "Download not found"@
                    }
                },
            },
    {
        match self.find(id) {
            Some(i) => {
                if matches!(self.downloads[i].status, DownloadState::Paused) {
                    let added: i64 = match self.downloads[i].pause_start_time {
                        Some(ps) => {
                            if now >= ps {
                                now - ps
                            } else {
                                0
                            }
                        },
                        None => 0,
                    };
                    let prior: i64 = self.downloads[i].total_paused_time;
                    let capped: i64 = if prior + added <= MAX_UNIX_SECONDS {
                        prior + added
                    } else {
                        MAX_UNIX_SECONDS
                    };
                    let s = &mut self.downloads[i];
                    s.total_paused_time = capped;
                    s.pause_start_time = None;
                    s.status = DownloadState::Downloading;
                    proof {
                        assert(self.downloads@ =~= old(self).downloads@.update(
                            i as int,
                            spec_resumed(old(self).downloads@[i as int], now),
                        ));
                    }
                    Ok(())
                } else {
                    proof {
                        lemma_unique_id_index(old(self).downloads@, id@, i as int);
                    }
                    Err("Download is not paused".to_owned())
                }
            },
            None => Err("Download not found".to_owned()),
        }
    }

    /// Cancelling moves a non-terminal job to Cancelled.  A terminal job is
    /// never moved again: that is reported as a state conflict.
    pub fn cancel_download(&mut self, id: &str) -> (r: Result<(), String>)
        requires
            manager_wf(*old(self)),
        ensures
            manager_wf(*final(self)),
            final(self).download_history@ == old(self).download_history@,
            match r {
                Ok(()) => exists|i: int|
                    {
                        &&& 0 <= i < old(self).downloads@.len()
                        &&& (#[trigger] old(self).downloads@[i]).id@ == id@
                        &&& !is_terminal(old(self).downloads@[i].status)
                        &&& final(self).downloads@ == old(self).downloads@.update(
                            i,
                            spec_cancelled(old(self).downloads@[i]),
                        )
                    },
                Err(m) => {
                    &&& final(self).downloads@ == old(self).downloads@
                    &&& if has_id(old(self).downloads@, id@) {
                        m@ == "Download is already finished"@ && forall|i: int|
                            0 <= i < old(self).downloads@.len() && (#[trigger] old(
                                self,
                            ).downloads@[i]).id@ == id@
                                ==> is_terminal(old(self).downloads@[i].status)
                    } else {
                        m@ == "Download not found"@
                    }
                },
            },
    {
        match self.find(id) {
            Some(i) => {
                let terminal = matches!(
                    self.downloads[i].status,
                    DownloadState::Completed | DownloadState::Failed | DownloadState::Cancelled
                );
                if !terminal {
                    let s = &mut self.downloads[i];
                    s.status = DownloadState::Cancelled;
                    proof {
                        assert(self.downloads@ =~= old(self).downloads@.update(
                            i as int,
                            spec_cancelled(old(self).downloads@[i as int]),
                        ));
                    }
                    Ok(())
                } else {
                    proof {
                        lemma_unique_id_index(old(self).downloads@, id@, i as int);
                    }
                    Err("Download is already finished".to_owned())
                }
            },
            None => Err("Download not found".to_owned()),
        }
    }

    /// Drops all terminal entries and clears the history.
    pub fn clear_download_history(&mut self)
        requires
            manager_wf(*old(self)),
        ensures
            manager_wf(*final(self)),
            final(self).downloads@ == live_jobs(old(self).downloads@),
            final(self).download_history@.len() == 0,
    {
        let mut i: usize = self.downloads.len();
        while i > 0
            invariant
                i <= old(self).downloads@.len(),
                self.downloads@ == old(self).downloads@.take(i as int) + live_jobs(
                    old(self).downloads@.skip(i as int),
                ),
            decreases i,
        {
            i = i - 1;
            let terminal = matches!(
                self.downloads[i].status,
                DownloadState::Completed | DownloadState::Failed | DownloadState::Cancelled
            );
            proof {
                lemma_live_jobs_cons(old(self).downloads@, i as int);
                assert(self.downloads@[i as int] == old(self).downloads@[i as int]) by {
                    assert(old(self).downloads@.take(i + 1int)[i as int] == old(
                        self,
                    ).downloads@[i as int]);
                }
            }
            if terminal {
                self.downloads.remove(i);
                proof {
                    assert(self.downloads@ =~= old(self).downloads@.take(i as int) + live_jobs(
                        old(self).downloads@.skip(i as int),
                    ));
                }
            } else {
                proof {
                    assert(self.downloads@ =~= old(self).downloads@.take(i as int) + live_jobs(
                        old(self).downloads@.skip(i as int),
                    ));
                }
            }
        }
        self.download_history = Vec::new();
        proof {
            assert(old(self).downloads@.skip(0int) =~= old(self).downloads@);
            lemma_filter_preserves_wf(old(self).downloads@);
        }
    }
}

/// The record after a pause at time `now`.
pub open spec fn spec_paused(s: DownloadStatus, now: i64) -> DownloadStatus {
    DownloadStatus { status: DownloadState::Paused, pause_start_time: Some(now), ..s }
}

/// The pause duration credited on a resume at time `now`: never negative,
/// and the accumulated total is capped so time arithmetic stays in range.
pub open spec fn spec_pause_credit(s: DownloadStatus, now: i64) -> i64 {
    let added: i64 = match s.pause_start_time {
        Some(ps) => if now >= ps { (now - ps) as i64 } else { 0 },
        None => 0,
    };
    if s.total_paused_time + added <= MAX_UNIX_SECONDS {
        (s.total_paused_time + added) as i64
    } else {
        MAX_UNIX_SECONDS
    }
}

/// The record after a resume at time `now`.
pub open spec fn spec_resumed(s: DownloadStatus, now: i64) -> DownloadStatus {
    DownloadStatus {
        status: DownloadState::Downloading,
        total_paused_time: spec_pause_credit(s, now),
        pause_start_time: None,
        ..s
    }
}

/// The record after a cancellation.
pub open spec fn spec_cancelled(s: DownloadStatus) -> DownloadStatus {
    DownloadStatus { status: DownloadState::Cancelled, ..s }
}

impl DownloadStatus {
    /// Field-for-field copy (`clone` on a struct of this shape carries no
    /// specification, so the copy is spelled out).
    pub fn clone_status(&self) -> (r: DownloadStatus)
        ensures
            r.id == self.id,
            r.status == self.status,
            r.source_url == self.source_url,
            r.destination == self.destination,
            r.files@ == self.files@,
            r.total_files == self.total_files,
            r.files_completed == self.files_completed,
            r.current_file == self.current_file,
            r.progress == self.progress,
            r.downloaded_bytes == self.downloaded_bytes,
            r.total_bytes == self.total_bytes,
            r.speed == self.speed,
            r.start_time == self.start_time,
            r.elapsed_time == self.elapsed_time,
            r.total_paused_time == self.total_paused_time,
            r.pause_start_time == self.pause_start_time,
            r.error == self.error,
            r.message == self.message,
    {
        DownloadStatus {
            id: clone_string(&self.id),
            status: self.status,
            source_url: clone_string(&self.source_url),
            destination: clone_string(&self.destination),
            files: clone_string_vec(&self.files),
            total_files: self.total_files,
            files_completed: self.files_completed,
            current_file: clone_string(&self.current_file),
            progress: self.progress,
            downloaded_bytes: self.downloaded_bytes,
            total_bytes: self.total_bytes,
            speed: self.speed,
            start_time: self.start_time,
            elapsed_time: self.elapsed_time,
            total_paused_time: self.total_paused_time,
            pause_start_time: self.pause_start_time,
            error: clone_opt_string(&self.error),
            message: clone_opt_string(&self.message),
        }
    }
}

fn clone_string(s: &String) -> (r: String)
    ensures
        r == *s,
{
    s.clone()
}

fn clone_opt_string(s: &Option<String>) -> (r: Option<String>)
    ensures
        r == *s,
{
    match s {
        Some(x) => Some(x.clone()),
        None => None,
    }
}

fn clone_string_vec(v: &Vec<String>) -> (r: Vec<String>)
    ensures
        r@ == v@,
{
    let mut r: Vec<String> = Vec::new();
    let mut i: usize = 0;
    while i < v.len()
        invariant
            i <= v@.len(),
            r@ == v@.take(i as int),
        decreases v@.len() - i,
    {
        r.push(v[i].clone());
        proof {
            assert(r@ =~= v@.take(i + 1int));
        }
        i = i + 1;
    }
    proof {
        assert(r@ =~= v@);
    }
    r
}

/// In a table with unique ids, the entry `find` returned is the only one
/// carrying that id.
proof fn lemma_unique_id_index(t: Seq<DownloadStatus>, id: Seq<char>, i: int)
    requires
        ids_unique(t),
        0 <= i < t.len(),
        t[i].id@ == id,
    ensures
        forall|j: int| 0 <= j < t.len() && (#[trigger] t[j].id)@ == id ==> j == i,
{
}

proof fn lemma_filter_preserves_wf(t: Seq<DownloadStatus>)
    requires
        ids_unique(t),
        forall|i: int| 0 <= i < t.len() ==> status_wf(#[trigger] t[i]),
    ensures
        ids_unique(live_jobs(t)),
        forall|i: int| 0 <= i < live_jobs(t).len() ==> status_wf(#[trigger] live_jobs(t)[i]),
    decreases t.len(),
{
    reveal(Seq::filter);
    if t.len() > 0 {
        let prefix = t.drop_last();
        lemma_filter_preserves_wf(prefix);
        let f = |s: DownloadStatus| !is_terminal(s.status);
        let filtered = live_jobs(t);
        let pf = live_jobs(prefix);
        if f(t.last()) {
            assert(filtered =~= pf.push(t.last()));
            assert forall|i: int, j: int| 0 <= i < j < filtered.len() implies filtered[i].id@
                != filtered[j].id@ by {
                if j < pf.len() {
                } else {
                    lemma_filter_membership(prefix, f, i);
                }
            }
        } else {
            assert(filtered =~= pf);
        }
    }
}

/// Filtering a non-empty tail: the head is kept exactly when it is live.
proof fn lemma_live_jobs_cons(t: Seq<DownloadStatus>, i: int)
    requires
        0 <= i < t.len(),
    ensures
        live_jobs(t.skip(i)) == if !is_terminal(t[i].status) {
            seq![t[i]] + live_jobs(t.skip(i + 1))
        } else {
            live_jobs(t.skip(i + 1))
        },
{
    let f = |s: DownloadStatus| !is_terminal(s.status);
    let head = seq![t[i]];
    assert(t.skip(i) =~= head + t.skip(i + 1));
    Seq::filter_distributes_over_add(head, t.skip(i + 1), f);
    reveal_with_fuel(Seq::filter, 2);
    assert(head.drop_last() =~= Seq::<DownloadStatus>::empty());
    if f(t[i]) {
        assert(head.filter(f) =~= head);
    } else {
        assert(head.filter(f) =~= Seq::<DownloadStatus>::empty());
    }
}

/// Every element of a filtered sequence occurs in the sequence it was
/// filtered from.
proof fn lemma_filter_membership(t: Seq<DownloadStatus>, f: spec_fn(DownloadStatus) -> bool, i: int)
    requires
        0 <= i < t.filter(f).len(),
    ensures
        exists|k: int| 0 <= k < t.len() && t[k] == t.filter(f)[i],
    decreases t.len(),
{
    reveal(Seq::filter);
    if t.len() > 0 {
        let prefix = t.drop_last();
        if i < prefix.filter(f).len() {
            lemma_filter_membership(prefix, f, i);
            let k = choose|k: int| 0 <= k < prefix.len() && prefix[k] == prefix.filter(f)[i];
            assert(t[k] == t.filter(f)[i]);
        } else {
            assert(t.filter(f)[i] == t.last());
            assert(t[t.len() - 1] == t.filter(f)[i]);
        }
    }
}


/// One decision of the pause poll loop: go on with the transfer, or sleep
/// and ask again.
#[derive(Clone, Copy, Debug, PartialEq, Eq, Structural)]
pub enum PauseDecision {
    Proceed,
    Wait,
}

/// The record once file `idx` becomes the file in flight.
pub open spec fn spec_file_started(s: DownloadStatus, idx: int) -> DownloadStatus {
    DownloadStatus { current_file: s.files@[idx], status: DownloadState::Downloading, ..s }
}

/// The record once the size of the file in flight is known; the byte counter
/// starts over for the new file.
pub open spec fn spec_total_known(s: DownloadStatus, total: u64) -> DownloadStatus {
    DownloadStatus { total_bytes: total, downloaded_bytes: 0, ..s }
}

/// The byte counter after a chunk of `len` bytes: capped at `total_bytes`
/// once that is known, saturating otherwise.
pub open spec fn spec_new_downloaded(s: DownloadStatus, len: u64) -> u64 {
    if s.total_bytes > 0 {
        if s.downloaded_bytes + len <= s.total_bytes {
            (s.downloaded_bytes + len) as u64
        } else {
            s.total_bytes
        }
    } else {
        if s.downloaded_bytes + len <= u64::MAX {
            (s.downloaded_bytes + len) as u64
        } else {
            u64::MAX
        }
    }
}

/// Whole bytes per second, given seconds elapsed since the file started.
pub open spec fn spec_speed(d: u64, file_elapsed_secs: i64) -> u64 {
    if file_elapsed_secs > 0 {
        (d as int / file_elapsed_secs as int) as u64
    } else {
        0
    }
}

/// Wall-clock seconds since the job started, excluding time spent paused.
pub open spec fn spec_elapsed(s: DownloadStatus, now: i64) -> int {
    (now - s.start_time) - s.total_paused_time
}

/// Overall percentage: `fc` whole files of `tf` are done, and the file in
/// flight is `fp` percent received.
pub open spec fn spec_progress_pct(fc: int, fp: int, tf: int) -> int {
    (fc * 100 + fp) / tf
}

/// The record after a chunk of `len` bytes arrives at `now`, with the file
/// in flight `file_elapsed_secs` old.
pub open spec fn spec_chunked(s: DownloadStatus, len: u64, file_elapsed_secs: i64, now: i64)
    -> DownloadStatus {
    let nd = spec_new_downloaded(s, len);
    DownloadStatus {
        downloaded_bytes: nd,
        speed: spec_speed(nd, file_elapsed_secs),
        elapsed_time: spec_elapsed(s, now) as i64,
        progress: if s.total_bytes > 0 {
            spec_progress_pct(
                s.files_completed as int,
                nd as int * 100 / s.total_bytes as int,
                s.total_files as int,
            ) as u8
        } else {
            s.progress
        },
        ..s
    }
}

/// The record after the job fails with `e`.
pub open spec fn spec_failed(s: DownloadStatus, e: String) -> DownloadStatus {
    DownloadStatus { status: DownloadState::Failed, error: Some(e), ..s }
}

/// All entries but `i` kept as they were.
pub open spec fn only_entry_changed(
    pre: Seq<DownloadStatus>,
    post: Seq<DownloadStatus>,
    i: int,
) -> bool {
    post.len() == pre.len() && forall|j: int| 0 <= j < pre.len() && j != i ==> post[j] == pre[j]
}

/// Fields of the status record that no worker step after file start touches.
pub open spec fn core_fields_unchanged(a: DownloadStatus, b: DownloadStatus) -> bool {
    &&& b.id == a.id
    &&& b.source_url == a.source_url
    &&& b.destination == a.destination
    &&& b.files == a.files
    &&& b.total_files == a.total_files
    &&& b.start_time == a.start_time
    &&& b.total_paused_time == a.total_paused_time
    &&& b.pause_start_time == a.pause_start_time
}

impl DownloadManager {
    /// Has this job been cancelled?  Polled by the worker at file boundaries
    /// and between chunks.
    pub fn check_cancellation_status(&self, id: &str) -> (r: Result<bool, String>)
        ensures
            match r {
                Ok(b) => exists|i: int|
                    {
                        &&& 0 <= i < self.downloads@.len()
                        &&& (#[trigger] self.downloads@[i]).id@ == id@
                        &&& b == (self.downloads@[i].status == DownloadState::Cancelled)
                    },
                Err(m) => !has_id(self.downloads@, id@) && m@ == "Download not found"@,
            },
    {
        match self.find(id) {
            Some(i) => Ok(matches!(self.downloads[i].status, DownloadState::Cancelled)),
            None => Err("Download not found".to_owned()),
        }
    }

    /// One round of the pause poll loop: the worker sleeps on `Wait` and asks
    /// again, proceeds on `Proceed`, and stops on an error.
    pub fn poll_pause_state(&self, id: &str) -> (r: Result<PauseDecision, String>)
        ensures
            match r {
                Ok(d) => exists|i: int|
                    {
                        &&& 0 <= i < self.downloads@.len()
                        &&& (#[trigger] self.downloads@[i]).id@ == id@
                        &&& self.downloads@[i].status != DownloadState::Cancelled
                        &&& d == (if self.downloads@[i].status == DownloadState::Paused {
                            PauseDecision::Wait
                        } else {
                            PauseDecision::Proceed
                        })
                    },
                Err(m) => if has_id(self.downloads@, id@) {
                    m@ == "Download cancelled by user"@ && exists|i: int|
                        {
                            &&& 0 <= i < self.downloads@.len()
                            &&& (#[trigger] self.downloads@[i]).id@ == id@
                            &&& self.downloads@[i].status == DownloadState::Cancelled
                        }
                } else {
                    m@ == "Download not found"@
                },
            },
    {
        match self.find(id) {
            Some(i) => {
                if matches!(self.downloads[i].status, DownloadState::Cancelled) {
                    Err("Download cancelled by user".to_owned())
                } else if matches!(self.downloads[i].status, DownloadState::Paused) {
                    Ok(PauseDecision::Wait)
                } else {
                    Ok(PauseDecision::Proceed)
                }
            },
            None => Err("Download not found".to_owned()),
        }
    }

    /// File `file_index` becomes the file in flight.  A job already in a
    /// terminal state is left untouched.
    pub fn mark_file_started(&mut self, i: usize, file_index: usize)
        requires
            manager_wf(*old(self)),
            i < old(self).downloads@.len(),
            file_index < old(self).downloads@[i as int].total_files,
            old(self).downloads@[i as int].files_completed == file_index,
        ensures
            manager_wf(*final(self)),
            final(self).download_history@ == old(self).download_history@,
            final(self).downloads@ == if is_terminal(old(self).downloads@[i as int].status) {
                old(self).downloads@
            } else {
                old(self).downloads@.update(
                    i as int,
                    spec_file_started(old(self).downloads@[i as int], file_index as int),
                )
            },
    {
        let terminal = matches!(
            self.downloads[i].status,
            DownloadState::Completed | DownloadState::Failed | DownloadState::Cancelled
        );
        if !terminal {
            let file = self.downloads[i].files[file_index].clone();
            let s = &mut self.downloads[i];
            s.current_file = file;
            s.status = DownloadState::Downloading;
            proof {
                assert(self.downloads@ =~= old(self).downloads@.update(
                    i as int,
                    spec_file_started(old(self).downloads@[i as int], file_index as int),
                ));
            }
        }
    }

    /// Records the size the server reported for the file in flight (0 when
    /// unknown); the byte counter starts over.
    pub fn record_total_bytes(&mut self, i: usize, total: u64)
        requires
            manager_wf(*old(self)),
            i < old(self).downloads@.len(),
        ensures
            manager_wf(*final(self)),
            final(self).download_history@ == old(self).download_history@,
            final(self).downloads@ == if is_terminal(old(self).downloads@[i as int].status) {
                old(self).downloads@
            } else {
                old(self).downloads@.update(
                    i as int,
                    spec_total_known(old(self).downloads@[i as int], total),
                )
            },
    {
        let terminal = matches!(
            self.downloads[i].status,
            DownloadState::Completed | DownloadState::Failed | DownloadState::Cancelled
        );
        if !terminal {
            let s = &mut self.downloads[i];
            s.total_bytes = total;
            s.downloaded_bytes = 0;
            proof {
                assert(self.downloads@ =~= old(self).downloads@.update(
                    i as int,
                    spec_total_known(old(self).downloads@[i as int], total),
                ));
            }
        }
    }

    /// Bookkeeping after one chunk of the body: byte counter (never past
    /// `total_bytes` once that is known), speed, elapsed time excluding
    /// pauses, and overall progress.
    pub fn record_chunk(&mut self, i: usize, chunk_len: u64, file_elapsed_secs: i64, now: i64)
        requires
            manager_wf(*old(self)),
            i < old(self).downloads@.len(),
            0 <= now <= MAX_UNIX_SECONDS,
            file_elapsed_secs >= 0,
        ensures
            manager_wf(*final(self)),
            final(self).download_history@ == old(self).download_history@,
            final(self).downloads@ == if is_terminal(old(self).downloads@[i as int].status) {
                old(self).downloads@
            } else {
                old(self).downloads@.update(
                    i as int,
                    spec_chunked(old(self).downloads@[i as int], chunk_len, file_elapsed_secs, now),
                )
            },
    {
        let terminal = matches!(
            self.downloads[i].status,
            DownloadState::Completed | DownloadState::Failed | DownloadState::Cancelled
        );
        if !terminal {
            let total: u64 = self.downloads[i].total_bytes;
            let d: u64 = self.downloads[i].downloaded_bytes;
            let nd: u64 = if total > 0 {
                if d <= u64::MAX - chunk_len && d + chunk_len <= total {
                    d + chunk_len
                } else {
                    total
                }
            } else {
                if d <= u64::MAX - chunk_len {
                    d + chunk_len
                } else {
                    u64::MAX
                }
            };
            let speed: u64 = if file_elapsed_secs > 0 {
                nd / (file_elapsed_secs as u64)
            } else {
                0
            };
            let start: i64 = self.downloads[i].start_time;
            let paused: i64 = self.downloads[i].total_paused_time;
            let elapsed: i64 = (now - start) - paused;
            let fc: usize = self.downloads[i].files_completed;
            let tf: usize = self.downloads[i].total_files;
            let progress: u8 = if total > 0 {
                let fp: u64 = ((nd as u128 * 100) / (total as u128)) as u64;
                proof {
                    lemma_file_pct_bounded(nd as int, total as int);
                    lemma_overall_pct_bounded(fc as int, fp as int, tf as int);
                }
                (((fc as u128) * 100 + fp as u128) / (tf as u128)) as u8
            } else {
                self.downloads[i].progress
            };
            let s = &mut self.downloads[i];
            s.downloaded_bytes = nd;
            s.speed = speed;
            s.elapsed_time = elapsed;
            s.progress = progress;
            proof {
                assert(self.downloads@ =~= old(self).downloads@.update(
                    i as int,
                    spec_chunked(old(self).downloads@[i as int], chunk_len, file_elapsed_secs, now),
                ));
            }
        }
    }

    /// File `file_index` is done (downloaded, or already present at the
    /// destination).  Finishing the last file completes the job.
    pub fn mark_file_done(&mut self, i: usize, file_index: usize)
        requires
            manager_wf(*old(self)),
            i < old(self).downloads@.len(),
            file_index < old(self).downloads@[i as int].total_files,
            old(self).downloads@[i as int].files_completed == file_index,
        ensures
            manager_wf(*final(self)),
            final(self).download_history@ == old(self).download_history@,
            only_entry_changed(old(self).downloads@, final(self).downloads@, i as int),
            is_terminal(old(self).downloads@[i as int].status) ==> final(self).downloads@ == old(
                self,
            ).downloads@,
            !is_terminal(old(self).downloads@[i as int].status) ==> {
                let pre = old(self).downloads@[i as int];
                let post = final(self).downloads@[i as int];
                &&& core_fields_unchanged(pre, post)
                &&& post.files_completed == file_index + 1
                &&& post.progress == spec_progress_pct(file_index + 1, 0, pre.total_files as int)
                &&& post.downloaded_bytes == pre.downloaded_bytes
                &&& post.total_bytes == pre.total_bytes
                &&& post.speed == pre.speed
                &&& post.elapsed_time == pre.elapsed_time
                &&& post.current_file == pre.current_file
                &&& post.error == pre.error
                &&& if file_index + 1 == pre.total_files {
                    &&& post.status == DownloadState::Completed
                    &&& (post.message matches Some(m) && m@ == "Download completed from "@
                        + pre.source_url@)
                } else {
                    &&& post.status == pre.status
                    &&& post.message == pre.message
                }
            },
    {
        let terminal = matches!(
            self.downloads[i].status,
            DownloadState::Completed | DownloadState::Failed | DownloadState::Cancelled
        );
        if !terminal {
            let tf: usize = self.downloads[i].total_files;
            proof {
                lemma_done_pct(file_index + 1, tf as int);
            }
            let progress: u8 = ((((file_index as u128) + 1) * 100) / (tf as u128)) as u8;
            if file_index + 1 == tf {
                let done_msg = {
                    let mut m = "Download completed from ".to_owned();
                    m.append(self.downloads[i].source_url.as_str());
                    m
                };
                let s = &mut self.downloads[i];
                s.files_completed = file_index + 1;
                s.progress = progress;
                s.status = DownloadState::Completed;
                s.message = Some(done_msg);
            } else {
                let s = &mut self.downloads[i];
                s.files_completed = file_index + 1;
                s.progress = progress;
            }
        }
    }

    /// The file in flight turned out to be an archive: extraction starts.
    pub fn begin_extraction(&mut self, i: usize)
        requires
            manager_wf(*old(self)),
            i < old(self).downloads@.len(),
        ensures
            manager_wf(*final(self)),
            final(self).download_history@ == old(self).download_history@,
            only_entry_changed(old(self).downloads@, final(self).downloads@, i as int),
            is_terminal(old(self).downloads@[i as int].status) ==> final(self).downloads@ == old(
                self,
            ).downloads@,
            !is_terminal(old(self).downloads@[i as int].status) ==> {
                let pre = old(self).downloads@[i as int];
                let post = final(self).downloads@[i as int];
                &&& post == (DownloadStatus {
                    status: DownloadState::Extracting,
                    message: post.message,
                    ..pre
                })
                &&& (post.message matches Some(m) && m@ == "Extracting downloaded file..."@)
            },
    {
        let terminal = matches!(
            self.downloads[i].status,
            DownloadState::Completed | DownloadState::Failed | DownloadState::Cancelled
        );
        if !terminal {
            let s = &mut self.downloads[i];
            s.status = DownloadState::Extracting;
            s.message = Some("Extracting downloaded file...".to_owned());
        }
    }

    /// Extraction failed after the file itself arrived: the failure is
    /// reported as a message, and the job is not failed.
    pub fn record_extraction_failure(&mut self, i: usize, err: &str)
        requires
            manager_wf(*old(self)),
            i < old(self).downloads@.len(),
        ensures
            manager_wf(*final(self)),
            final(self).download_history@ == old(self).download_history@,
            only_entry_changed(old(self).downloads@, final(self).downloads@, i as int),
            ({
                let pre = old(self).downloads@[i as int];
                let post = final(self).downloads@[i as int];
                &&& post == (DownloadStatus { message: post.message, ..pre })
                &&& (post.message matches Some(m) && m@ == "Downloaded but extraction failed: "@
                    + err@)
            }),
    {
        let mut m = "Downloaded but extraction failed: ".to_owned();
        m.append(err);
        let s = &mut self.downloads[i];
        s.message = Some(m);
    }

    /// Records a worker failure in the job's own entry.  A job already in a
    /// terminal state keeps its state: in particular a cancelled job is
    /// never re-marked as failed.
    pub fn fail_download(&mut self, id: &str, error: String) -> (found: bool)
        requires
            manager_wf(*old(self)),
        ensures
            manager_wf(*final(self)),
            final(self).download_history@ == old(self).download_history@,
            found == has_id(old(self).downloads@, id@),
            !found ==> final(self).downloads@ == old(self).downloads@,
            found ==> exists|i: int|
                {
                    &&& 0 <= i < old(self).downloads@.len()
                    &&& (#[trigger] old(self).downloads@[i]).id@ == id@
                    &&& final(self).downloads@ == if is_terminal(old(self).downloads@[i].status) {
                        old(self).downloads@
                    } else {
                        old(self).downloads@.update(i, spec_failed(old(self).downloads@[i], error))
                    }
                },
    {
        match self.find(id) {
            Some(i) => {
                let terminal = matches!(
                    self.downloads[i].status,
                    DownloadState::Completed | DownloadState::Failed | DownloadState::Cancelled
                );
                if !terminal {
                    let s = &mut self.downloads[i];
                    s.status = DownloadState::Failed;
                    s.error = Some(error);
                    proof {
                        assert(self.downloads@ =~= old(self).downloads@.update(
                            i as int,
                            spec_failed(old(self).downloads@[i as int], error),
                        ));
                    }
                }
                true
            },
            None => false,
        }
    }
}

/// Publish a progress event only every 500 ms, or when the percentage moved.
pub fn should_emit_progress(ms_since_last_emit: u64, current: u8, last: u8) -> (r: bool)
    ensures
        r == (ms_since_last_emit >= 500 || current != last),
{
    ms_since_last_emit >= 500 || current != last
}

/// A percentage of a file stays a percentage.
proof fn lemma_file_pct_bounded(nd: int, total: int)
    requires
        0 < total,
        0 <= nd <= total,
    ensures
        0 <= nd * 100 / total <= 100,
{
    vstd::arithmetic::div_mod::lemma_div_is_ordered(nd * 100, total * 100, total);
    vstd::arithmetic::div_mod::lemma_div_by_multiple(100, total);
    vstd::arithmetic::div_mod::lemma_div_pos_is_pos(nd * 100, total);
    assert(nd * 100 <= total * 100) by (nonlinear_arith)
        requires 0 <= nd <= total;
}

/// Combining a finished-file count below the total with a file percentage
/// stays within 100.
proof fn lemma_overall_pct_bounded(fc: int, fp: int, tf: int)
    requires
        0 <= fc < tf,
        0 <= fp <= 100,
    ensures
        0 <= spec_progress_pct(fc, fp, tf) <= 100,
{
    assert(fc * 100 + fp <= tf * 100) by (nonlinear_arith)
        requires 0 <= fc < tf && 0 <= fp <= 100;
    vstd::arithmetic::div_mod::lemma_div_is_ordered(fc * 100 + fp, tf * 100, tf);
    vstd::arithmetic::div_mod::lemma_div_by_multiple(100, tf);
    vstd::arithmetic::div_mod::lemma_div_pos_is_pos(fc * 100 + fp, tf);
}

/// The percentage after `done` of `tf` files, with none in flight.
proof fn lemma_done_pct(done: int, tf: int)
    requires
        0 < done <= tf,
    ensures
        0 <= spec_progress_pct(done, 0, tf) <= 100,
        done == tf ==> spec_progress_pct(done, 0, tf) == 100,
{
    assert(done * 100 <= tf * 100) by (nonlinear_arith)
        requires 0 < done <= tf;
    vstd::arithmetic::div_mod::lemma_div_is_ordered(done * 100, tf * 100, tf);
    vstd::arithmetic::div_mod::lemma_div_by_multiple(100, tf);
    vstd::arithmetic::div_mod::lemma_div_pos_is_pos(done * 100, tf);
    if done == tf {
        vstd::arithmetic::div_mod::lemma_div_by_multiple(done, tf);
    }
}

/// Once `total_bytes` is known, `downloaded_bytes` never exceeds it: it is
/// within bounds in every well-formed record, and recording a chunk keeps it
/// there whatever the chunk length.
pub proof fn lemma_downloaded_bytes_bounded(
    s: DownloadStatus,
    len: u64,
    file_elapsed_secs: i64,
    now: i64,
)
    requires
        status_wf(s),
        s.total_bytes > 0,
    ensures
        s.downloaded_bytes <= s.total_bytes,
        spec_chunked(s, len, file_elapsed_secs, now).downloaded_bytes <= s.total_bytes,
        spec_chunked(s, len, file_elapsed_secs, now).total_bytes == s.total_bytes,
{
}

/// Pausing at `t1` and resuming at `t2` never decreases the paused-time
/// account, credits exactly the pause duration while the account stays in
/// range, and preserves the transfer offset: the job resumes from the same
/// byte, not from zero.
pub proof fn lemma_pause_resume_accounting(s: DownloadStatus, t1: i64, t2: i64)
    requires
        status_wf(s),
        0 <= t1 <= t2 <= MAX_UNIX_SECONDS,
    ensures
        spec_resumed(spec_paused(s, t1), t2).total_paused_time >= s.total_paused_time,
        s.total_paused_time + (t2 - t1) <= MAX_UNIX_SECONDS ==> spec_resumed(
            spec_paused(s, t1),
            t2,
        ).total_paused_time == s.total_paused_time + (t2 - t1),
        spec_resumed(spec_paused(s, t1), t2).downloaded_bytes == s.downloaded_bytes,
        spec_resumed(spec_paused(s, t1), t2).files_completed == s.files_completed,
        spec_resumed(spec_paused(s, t1), t2).status == DownloadState::Downloading,
{
}

/// After a chunk is recorded at `now`, the elapsed figure is wall time since
/// the start minus the paused account: paused time is excluded.
pub proof fn lemma_elapsed_excludes_pauses(
    s: DownloadStatus,
    len: u64,
    file_elapsed_secs: i64,
    now: i64,
)
    requires
        status_wf(s),
        0 <= now <= MAX_UNIX_SECONDS,
    ensures
        spec_chunked(s, len, file_elapsed_secs, now).elapsed_time == (now - s.start_time)
            - s.total_paused_time,
{
}

/// A job is Completed exactly when every one of its files is done.
pub proof fn lemma_completed_iff_all_files(s: DownloadStatus)
    requires
        status_wf(s),
    ensures
        s.status == DownloadState::Completed <==> s.files_completed == s.total_files,
{
}

/// `files_completed` never decreases: the control operations and the
/// transfer bookkeeping leave it unchanged (finishing a file, which sets it
/// to one more than it was, is stated on `mark_file_done` itself), and a
/// terminal job is never touched again.
pub proof fn lemma_files_completed_monotone(s: DownloadStatus, now: i64, len: u64, fes: i64)
    ensures
        spec_paused(s, now).files_completed == s.files_completed,
        spec_resumed(s, now).files_completed == s.files_completed,
        spec_cancelled(s).files_completed == s.files_completed,
        spec_failed(s, s.error->Some_0).files_completed == s.files_completed,
        spec_total_known(s, len).files_completed == s.files_completed,
        spec_chunked(s, len, fes, now).files_completed == s.files_completed,
        spec_file_started(s, s.files_completed as int).files_completed == s.files_completed,
{
}


/// A character the filesystem may reject, replaced by an underscore in
/// generated ids.
pub open spec fn sanitize_char(c: char) -> char {
    if c == '/' || c == '\\' || c == ':' || c == '*' || c == '?' || c == '"' || c == '<' || c == '>'
        || c == '|' {
        '_'
    } else {
        c
    }
}

pub open spec fn sanitize_seq(s: Seq<char>) -> Seq<char> {
    s.map_values(|c: char| sanitize_char(c))
}

/// Replaces filesystem-hostile characters with underscores.
pub fn sanitize_filename(filename: &str) -> (r: String)
    ensures
        r@ == sanitize_seq(filename@),
{
    let n: usize = filename.unicode_len();
    let mut r = String::new();
    let mut i: usize = 0;
    while i < n
        invariant
            n == filename@.len(),
            i <= n,
            r@ == sanitize_seq(filename@).subrange(0, i as int),
        decreases n - i,
    {
        let c = filename.get_char(i);
        let sc: char = if c == '/' || c == '\\' || c == ':' || c == '*' || c == '?' || c == '"'
            || c == '<' || c == '>' || c == '|' {
            '_'
        } else {
            c
        };
        proof {
            assert(sc == sanitize_char(filename@[i as int]));
        }
        crate::text::push_char(&mut r, sc);
        i = i + 1;
        proof {
            assert(r@ =~= sanitize_seq(filename@).subrange(0, i as int));
        }
    }
    proof {
        assert(r@ =~= sanitize_seq(filename@));
    }
    r
}

/// The last path segment of an absolute URL, as a function of the URL text
/// alone: `None` when the text does not parse as an absolute URL,
/// `Some(None)` when the URL has no path segments (a cannot-be-a-base URL),
/// `Some(Some(seg))` otherwise, `seg` possibly empty.
pub uninterp spec fn url_last_segment_of(s: Seq<char>) -> Option<Option<Seq<char>>>;

pub open spec fn opt_str_view(o: Option<String>) -> Option<Seq<char>> {
    match o {
        Some(s) => Some(s@),
        None => None,
    }
}

/// Relies on `url::Url::parse`, `url::Url::path_segments` and the last
/// element of that segment iterator: all three are functions of the URL
/// text alone, and `parse` errs exactly on text that is not an absolute
/// URL.
#[verifier::external_body]
fn url_last_path_segment(url: &str) -> (r: Result<Option<String>, String>)
    ensures
        match r {
            Ok(seg) => url_last_segment_of(url@) == Some(opt_str_view(seg)),
            Err(_) => url_last_segment_of(url@) is None,
        },
{
    match url::Url::parse(url) {
        Ok(parsed) => match parsed.path_segments() {
            Some(segments) => Ok(segments.last().map(|s| s.to_string())),
            None => Ok(None),
        },
        Err(e) => Err(e.to_string()),
    }
}

/// The file name a URL points at, after the empty-segment fallback.
pub open spec fn spec_url_filename(inner: Option<Seq<char>>) -> Seq<char> {
    match inner {
        Some(seg) => if seg.len() > 0 {
            seg
        } else {
            "download"@
        },
        None => "download"@,
    }
}

/// The name of the file a direct download URL points at: its last path
/// segment, or `download` when the URL has none.
pub fn extract_filename_from_url(url: &str) -> (r: Result<String, String>)
    ensures
        match r {
            Ok(f) => url_last_segment_of(url@) matches Some(inner) && f@ == spec_url_filename(
                inner,
            ),
            Err(_) => url_last_segment_of(url@) is None,
        },
{
    match url_last_path_segment(url) {
        Ok(seg) => match seg {
            Some(name) => {
                if name.as_str().unicode_len() > 0 {
                    Ok(name)
                } else {
                    Ok("download".to_owned())
                }
            },
            None => Ok("download".to_owned()),
        },
        Err(e) => Err(e),
    }
}

/// The file name a job id is derived from: the first listed file, or the
/// name the source URL points at.
pub open spec fn spec_id_filename(config: DownloadConfig) -> Seq<char> {
    if config.files@.len() > 0 {
        config.files@[0]@
    } else {
        match url_last_segment_of(config.base_url@) {
            Some(inner) => spec_url_filename(inner),
            None => "download"@,
        }
    }
}

/// A fresh job id: a fixed prefix, the current time in milliseconds, and a
/// sanitized file name.
pub fn generate_download_id(config: &DownloadConfig, now_millis: i64) -> (r: String)
    requires
        0 <= now_millis,
    ensures
        r@ == "download_"@ + crate::text::dec_digits(now_millis as nat) + "_"@ + sanitize_seq(
            spec_id_filename(*config),
        ),
{
    let filename: String = if config.files.len() > 0 {
        config.files[0].clone()
    } else {
        match extract_filename_from_url(config.base_url.as_str()) {
            Ok(f) => f,
            Err(_) => "download".to_owned(),
        }
    };
    let millis = crate::text::u64_to_dec_string(now_millis as u64);
    let sanitized = sanitize_filename(filename.as_str());
    let mut r = "download_".to_owned();
    r.append(millis.as_str());
    r.append("_");
    r.append(sanitized.as_str());
    proof {
        assert(r@ =~= "download_"@ + crate::text::dec_digits(now_millis as nat) + "_"@
            + sanitize_seq(spec_id_filename(*config)));
    }
    r
}

/// The URL one file of a job is fetched from: the source URL itself for a
/// single direct download, otherwise base and file path joined on one slash.
pub fn build_download_url(base_url: &str, file_path: &str, single_direct: bool) -> (r: String)
    ensures
        single_direct ==> r@ == base_url@,
        !single_direct ==> r@ == crate::text::trim_trailing(base_url@, '/') + "/"@
            + crate::text::trim_leading(file_path@, '/'),
{
    if single_direct {
        base_url.to_owned()
    } else {
        let mut r = crate::text::trim_trailing_char(base_url, '/').to_owned();
        r.append("/");
        r.append(crate::text::trim_leading_char(file_path, '/'));
        proof {
            assert(r@ =~= crate::text::trim_trailing(base_url@, '/') + "/"@
                + crate::text::trim_leading(file_path@, '/'));
        }
        r
    }
}

/// Where a finished file lands.
pub fn final_file_path(destination: &str, file_name: &str) -> (r: String)
    ensures
        r@ == destination@ + "/"@ + file_name@,
{
    let mut r = destination.to_owned();
    r.append("/");
    r.append(file_name);
    proof {
        assert(r@ =~= destination@ + "/"@ + file_name@);
    }
    r
}

/// Where the bytes of an unfinished file accumulate: the final name plus the
/// reserved suffix.
pub fn temp_file_path(destination: &str, file_name: &str) -> (r: String)
    ensures
        r@ == destination@ + "/"@ + file_name@ + crate::spec_partial_suffix(),
{
    let mut r = destination.to_owned();
    r.append("/");
    r.append(file_name);
    r.append(".download");
    proof {
        reveal_strlit(".download");
        assert(r@ =~= destination@ + "/"@ + file_name@ + crate::spec_partial_suffix());
    }
    r
}

/// Whether a finished file should be unpacked: extraction was requested and
/// the file is a recognised archive.
pub fn wants_extraction(config: &DownloadConfig, file_name: &str) -> (r: bool)
    ensures
        r == (config.auto_extract && crate::text::is_suffix(
            crate::text::lower_seq(file_name@),
            ".zip"@,
        )),
{
    if !config.auto_extract {
        return false;
    }
    let lower = crate::text::lower_str(file_name);
    crate::text::ends_with_str(lower.as_str(), ".zip")
}

/// The record a start request registers before its worker task runs.
pub fn init_download_status(
    id: String,
    config: &DownloadConfig,
    final_destination: String,
    files: Vec<String>,
    now: i64,
) -> (r: DownloadStatus)
    requires
        files@.len() >= 1,
        0 <= now <= MAX_UNIX_SECONDS,
    ensures
        status_wf(r),
        r.id == id,
        r.status == DownloadState::Starting,
        r.source_url@ == config.base_url@,
        r.destination == final_destination,
        r.files@ == files@,
        r.total_files == files@.len(),
        r.files_completed == 0,
        r.current_file@ == Seq::<char>::empty(),
        r.progress == 0,
        r.downloaded_bytes == 0,
        r.total_bytes == 0,
        r.speed == 0,
        r.start_time == now,
        r.elapsed_time == 0,
        r.total_paused_time == 0,
        r.pause_start_time is None,
        r.error is None,
        (r.message matches Some(m) && m@ == "Starting download from "@ + config.base_url@),
{
    let total_files: usize = files.len();
    let mut msg = "Starting download from ".to_owned();
    msg.append(config.base_url.as_str());
    DownloadStatus {
        id,
        status: DownloadState::Starting,
        source_url: config.base_url.clone(),
        destination: final_destination,
        files,
        total_files,
        files_completed: 0,
        current_file: String::new(),
        progress: 0,
        downloaded_bytes: 0,
        total_bytes: 0,
        speed: 0,
        start_time: now,
        elapsed_time: 0,
        total_paused_time: 0,
        pause_start_time: None,
        error: None,
        message: Some(msg),
    }
}

} // verus!
