//! The single-transfer engine: progress accounting, the events a transfer
//! emits, and the state machine that a driver steps through one network
//! chunk at a time.
//!
//! The machine owns every decision of a transfer — what to emit, when to
//! create or delete the destination file, and which terminal outcome the
//! transfer reaches — while the driver performs the actual network and disk
//! effects and reports their results back as steps.
use vstd::prelude::*;
use vstd::string::StringExecFns;
use vstd::arithmetic::div_mod::lemma_div_is_ordered;

verus! {

/// Identifying user-agent header sent with every download request.
pub const USER_AGENT: &'static str = "Mozilla/5.0 (Windows NT 10.0; Win64; x64) AppleWebKit/537.36 (KHTML, like Gecko) Chrome/91.0.4472.124 Safari/537.36";

/// Emit a progress event only after at least this many new bytes (1 MiB).
pub const PROGRESS_UPDATE_THRESHOLD: u64 = 1048576;

/// Percentage of `downloaded` out of `total`, clamped to 100; `0` when the
/// total size is unknown or zero.
pub open spec fn percent_spec(downloaded: u64, total: Option<u64>) -> int {
    match total {
        Some(t) => if t > 0 {
            if downloaded as int * 100 / t as int > 100 {
                100
            } else {
                downloaded as int * 100 / t as int
            }
        } else {
            0
        },
        None => 0,
    }
}

/// The clamped percentage never exceeds 100 and never goes below 0.
pub proof fn lemma_percent_bounds(downloaded: u64, total: Option<u64>)
    ensures
        0 <= percent_spec(downloaded, total) <= 100,
{
    match total {
        Some(t) => {
            if t > 0 {
                lemma_div_is_ordered(0, downloaded as int * 100, t as int);
            }
        },
        None => {},
    }
}

/// The clamped percentage grows with the number of downloaded bytes.
pub proof fn lemma_percent_monotone(d1: u64, d2: u64, total: Option<u64>)
    requires
        d1 <= d2,
    ensures
        percent_spec(d1, total) <= percent_spec(d2, total),
{
    match total {
        Some(t) => {
            if t > 0 {
                lemma_div_is_ordered(d1 as int * 100, d2 as int * 100, t as int);
            }
        },
        None => {},
    }
}

/// Once the known total is reached, the clamped percentage is exactly 100.
pub proof fn lemma_percent_full(d: u64, t: u64)
    requires
        t > 0,
        d >= t,
    ensures
        percent_spec(d, Some(t)) == 100,
{
    lemma_div_is_ordered(t as int * 100, d as int * 100, t as int);
    assert(t as int * 100 / t as int == 100) by (nonlinear_arith)
        requires
            t > 0,
    ;
    lemma_percent_bounds(d, Some(t));
}

/// Progress percentage reported for a transfer that has moved `downloaded`
/// bytes out of an optional known `total`.
pub fn calculate_progress(downloaded: u64, total: Option<u64>) -> (r: u32)
    ensures
        r == percent_spec(downloaded, total),
{
    match total {
        Some(t) => {
            if t > 0 {
                let wide: u128 = (downloaded as u128) * 100 / (t as u128);
                if wide > 100 {
                    100
                } else {
                    wide as u32
                }
            } else {
                0
            }
        },
        None => 0,
    }
}

/// The externally observable condition of a transfer.
#[derive(Clone, Debug)]
pub enum DownloadStatus {
    Downloading,
    Completed,
    Failed(String),
    Cancelled,
}

/// One notification handed to the observer.  `Status` events report a change
/// of condition; `Progress` events report byte progress at a bounded rate.
#[derive(Clone, Debug)]
pub enum TransferEvent {
    Status { status: DownloadStatus, progress: u32, file_path: Option<String> },
    Progress { progress: u32 },
}

/// The terminal result of one transfer, produced exactly once.
#[derive(Clone, Debug)]
pub enum TransferOutcome {
    Completed(String),
    Failed(String),
    Cancelled,
}

impl TransferOutcome {
    pub open spec fn is_completed(&self) -> bool {
        self matches TransferOutcome::Completed(_)
    }
}

pub open spec fn ev_is_progress(e: TransferEvent) -> bool {
    e matches TransferEvent::Progress { .. }
}

pub open spec fn ev_progress_val(e: TransferEvent) -> int {
    match e {
        TransferEvent::Status { progress, .. } => progress as int,
        TransferEvent::Progress { progress } => progress as int,
    }
}

/// A status event that ends the transfer: completed, failed or cancelled.
pub open spec fn ev_is_terminal(e: TransferEvent) -> bool {
    match e {
        TransferEvent::Status { status, .. } => !(status matches DownloadStatus::Downloading),
        TransferEvent::Progress { .. } => false,
    }
}

/// Shape a status notification: a completed status always reports 100, a
/// cancelled status always reports 0, the others keep the given progress.
pub fn status_event(status: DownloadStatus, progress: u32) -> (e: TransferEvent)
    ensures
        e == (match status {
            DownloadStatus::Downloading => TransferEvent::Status {
                status: DownloadStatus::Downloading,
                progress: progress,
                file_path: None::<String>,
            },
            DownloadStatus::Completed => TransferEvent::Status {
                status: DownloadStatus::Completed,
                progress: 100u32,
                file_path: None::<String>,
            },
            DownloadStatus::Failed(msg) => TransferEvent::Status {
                status: DownloadStatus::Failed(msg),
                progress: progress,
                file_path: None::<String>,
            },
            DownloadStatus::Cancelled => TransferEvent::Status {
                status: DownloadStatus::Cancelled,
                progress: 0u32,
                file_path: None::<String>,
            },
        }),
{
    match status {
        DownloadStatus::Downloading => TransferEvent::Status {
            status: DownloadStatus::Downloading,
            progress,
            file_path: None,
        },
        DownloadStatus::Completed => TransferEvent::Status {
            status: DownloadStatus::Completed,
            progress: 100,
            file_path: None,
        },
        DownloadStatus::Failed(msg) => TransferEvent::Status {
            status: DownloadStatus::Failed(msg),
            progress,
            file_path: None,
        },
        DownloadStatus::Cancelled => TransferEvent::Status {
            status: DownloadStatus::Cancelled,
            progress: 0,
            file_path: None,
        },
    }
}

/// How far a transfer has come.
#[derive(Clone, Copy, Debug, PartialEq, Eq, Structural)]
pub enum TransferPhase {
    /// Created; nothing emitted, no I/O begun.
    Ready,
    /// The initial downloading status has been emitted; awaiting the response.
    Requesting,
    /// The response headers arrived; the destination file is being created.
    Creating,
    /// The destination file exists and body chunks are being written.
    Streaming,
    /// A terminal outcome has been produced.
    Finished,
}

/// The verified state machine for one transfer.
///
/// A driver constructs it after the request has passed validation, then calls
/// one step method per external effect it performed.  The machine records
/// every event in order in `events`; the driver forwards each appended event
/// to its observer and performs the file actions the steps dictate
/// (`file_on_disk` mirrors whether a — possibly partial — destination file
/// currently exists).
#[derive(Debug)]
pub struct TransferMachine {
    /// Unique key of the transfer: its source URL string.
    pub identity: String,
    /// Absolute destination path of the file being written.
    pub file_path: String,
    /// Content length announced by the response, if any.
    pub total: Option<u64>,
    /// Bytes downloaded and written so far.
    pub downloaded: u64,
    /// Value of `downloaded` when the last progress event was emitted.
    pub last_update: u64,
    /// Whether a (possibly partial) destination file exists on disk.
    pub file_on_disk: bool,
    pub phase: TransferPhase,
    /// The terminal outcome; set exactly when `phase` is `Finished`.
    pub outcome: Option<TransferOutcome>,
    /// Every event emitted so far, oldest first.
    pub events: Vec<TransferEvent>,
}

impl TransferMachine {
    /// Well-formedness: ties the phase, the outcome, the file state and the
    /// event log together.  Every step preserves it.
    pub open spec fn wf(&self) -> bool {
        &&& self.last_update <= self.downloaded
        // the outcome exists exactly at the end, and matches the last event
        &&& (self.phase is Finished <==> self.outcome is Some)
        // a terminal status event occurs only as the final event of a
        // finished transfer: exactly one per terminal outcome, always last
        &&& (forall|i: int|
            0 <= i < self.events@.len() && ev_is_terminal(self.events@[i]) ==> self.phase
                is Finished && i == self.events@.len() - 1)
        &&& (self.phase is Finished ==> self.events@.len() > 0 && ev_is_terminal(
            self.events@.last(),
        ))
        // no partial file remains unless the outcome is completed
        &&& (self.phase is Finished ==> (self.file_on_disk <==> self.outcome->0.is_completed()))
        // the outcome agrees with the final event
        &&& (self.phase is Finished ==> match self.outcome->0 {
            TransferOutcome::Completed(p) => self.events@.last() == (TransferEvent::Status {
                status: DownloadStatus::Completed,
                progress: 100u32,
                file_path: Some(p),
            }) && p == self.file_path,
            TransferOutcome::Failed(r) => self.events@.last() matches TransferEvent::Status {
                status: DownloadStatus::Failed(m),
                ..
            } && m == r,
            TransferOutcome::Cancelled => self.events@.last() == (TransferEvent::Status {
                status: DownloadStatus::Cancelled,
                progress: 0u32,
                file_path: None::<String>,
            }),
        })
        // the total becomes known only once a response has arrived
        &&& (self.phase is Ready || self.phase is Requesting ==> self.total is None)
        // before the file is created nothing has been downloaded
        &&& (self.phase is Ready || self.phase is Requesting || self.phase is Creating
            ==> !self.file_on_disk && self.downloaded == 0 && (forall|i: int|
            0 <= i < self.events@.len() ==> !ev_is_progress(#[trigger] self.events@[i])))
        // while streaming, the partial file exists
        &&& (self.phase is Streaming ==> self.file_on_disk)
        // every event's progress value lies within 0..=100
        &&& (forall|i: int|
            0 <= i < self.events@.len() ==> 0 <= ev_progress_val(#[trigger] self.events@[i])
                <= 100)
        // progress events are non-decreasing and lag the byte counter
        &&& (forall|i: int, j: int|
            0 <= i < j < self.events@.len() && ev_is_progress(self.events@[i]) && ev_is_progress(
                self.events@[j],
            ) ==> ev_progress_val(self.events@[i]) <= ev_progress_val(self.events@[j]))
        &&& (forall|i: int|
            0 <= i < self.events@.len() && ev_is_progress(self.events@[i]) ==> ev_progress_val(
                self.events@[i],
            ) <= percent_spec(self.last_update, self.total))
        // once the known total has been reached, the latest progress event
        // reported exactly 100
        &&& ((self.phase is Streaming || self.phase is Finished) && self.total is Some
            && self.total->0 > 0 && self.downloaded >= self.total->0 ==> exists|i: int|
            0 <= i < self.events@.len() && ev_is_progress(self.events@[i]) && (forall|j: int|
                i < j < self.events@.len() ==> !ev_is_progress(self.events@[j]))
                && ev_progress_val(self.events@[i]) == 100)
    }

    /// Helper for the terminal steps: pushing a terminal, non-progress event
    /// onto a well-formed unfinished machine yields a well-formed finished
    /// machine.
    proof fn lemma_wf_after_terminal_push(pre: Self, post: Self, e: TransferEvent)
        requires
            pre.wf(),
            !(pre.phase is Finished),
            !ev_is_progress(e),
            ev_is_terminal(e),
            0 <= ev_progress_val(e) <= 100,
            post.events@ == pre.events@.push(e),
            post.identity == pre.identity,
            post.file_path == pre.file_path,
            post.last_update == pre.last_update,
            post.total == pre.total,
            post.downloaded == pre.downloaded,
            post.phase is Finished,
            post.outcome is Some,
            post.file_on_disk <==> post.outcome->0.is_completed(),
            match post.outcome->0 {
                TransferOutcome::Completed(p) => e == (TransferEvent::Status {
                    status: DownloadStatus::Completed,
                    progress: 100u32,
                    file_path: Some(p),
                }) && p == post.file_path,
                TransferOutcome::Failed(r) => e matches TransferEvent::Status {
                    status: DownloadStatus::Failed(m),
                    ..
                } && m == r,
                TransferOutcome::Cancelled => e == (TransferEvent::Status {
                    status: DownloadStatus::Cancelled,
                    progress: 0u32,
                    file_path: None::<String>,
                }),
            },
        ensures
            post.wf(),
    {
        let pes = pre.events@;
        let qes = post.events@;
        assert(qes.len() == pes.len() + 1);
        assert(qes.last() == e);
        assert forall|i: int| 0 <= i < qes.len() - 1 implies qes[i] == pes[i] by {}
        assert forall|i: int|
            0 <= i < qes.len() && ev_is_terminal(qes[i]) implies post.phase is Finished && i
            == qes.len() - 1 by {
            if i < pes.len() {
                assert(qes[i] == pes[i]);
            }
        }
        assert forall|i: int| 0 <= i < qes.len() implies 0 <= ev_progress_val(#[trigger] qes[i])
            <= 100 by {
            if i < pes.len() {
                assert(qes[i] == pes[i]);
            }
        }
        assert forall|i: int, j: int|
            0 <= i < j < qes.len() && ev_is_progress(qes[i]) && ev_is_progress(
                qes[j],
            ) implies ev_progress_val(qes[i]) <= ev_progress_val(qes[j]) by {
            assert(qes[i] == pes[i]);
            if j < pes.len() {
                assert(qes[j] == pes[j]);
            }
        }
        assert forall|i: int|
            0 <= i < qes.len() && ev_is_progress(qes[i]) implies ev_progress_val(qes[i])
            <= percent_spec(post.last_update, post.total) by {
            if i < pes.len() {
                assert(qes[i] == pes[i]);
            }
        }
        if pre.phase is Ready || pre.phase is Requesting || pre.phase is Creating {
            assert(post.downloaded == 0);
        } else {
            assert(pre.phase is Streaming);
            if post.total is Some && post.total->0 > 0 && post.downloaded >= post.total->0 {
                let wi = choose|i: int|
                    0 <= i < pes.len() && ev_is_progress(pes[i]) && (forall|j: int|
                        i < j < pes.len() ==> !ev_is_progress(pes[j])) && ev_progress_val(pes[i])
                        == 100;
                assert(0 <= wi < qes.len() && ev_is_progress(qes[wi]) && ev_progress_val(qes[wi])
                    == 100);
                assert forall|j: int| wi < j < qes.len() implies !ev_is_progress(qes[j]) by {
                    if j < pes.len() {
                        assert(qes[j] == pes[j]);
                    }
                }
            }
        }
    }

    /// A fresh machine for one validated request: nothing emitted yet.
    pub fn new(identity: String, file_path: String) -> (m: Self)
        ensures
            m.wf(),
            m.identity == identity,
            m.file_path == file_path,
            m.total is None,
            m.downloaded == 0,
            m.last_update == 0,
            !m.file_on_disk,
            m.phase is Ready,
            m.outcome is None,
            m.events@ =~= Seq::<TransferEvent>::empty(),
    {
        TransferMachine {
            identity,
            file_path,
            total: None,
            downloaded: 0,
            last_update: 0,
            file_on_disk: false,
            phase: TransferPhase::Ready,
            outcome: None,
            events: Vec::new(),
        }
    }

    /// The destination directory exists and the file name is fixed: announce
    /// the transfer with a `downloading, 0%` status.
    pub fn start(&mut self)
        requires
            old(self).wf(),
            old(self).phase is Ready,
        ensures
            final(self).wf(),
            final(self).phase is Requesting,
            final(self).events@ =~= old(self).events@.push(
                TransferEvent::Status {
                    status: DownloadStatus::Downloading,
                    progress: 0u32,
                    file_path: None::<String>,
                },
            ),
            *final(self) == (TransferMachine {
                phase: TransferPhase::Requesting,
                events: final(self).events,
                ..*old(self)
            }),
    {
        let e = status_event(DownloadStatus::Downloading, 0);
        self.events.push(e);
        self.phase = TransferPhase::Requesting;
    }

    /// End the transfer as failed with the given full reason text, emitting
    /// the failed status that carries the current percentage.
    fn fail(&mut self, reason: String)
        requires
            old(self).wf(),
            !(old(self).phase is Finished),
        ensures
            final(self).wf(),
            final(self).phase is Finished,
            final(self).outcome == Some(TransferOutcome::Failed(reason)),
            !final(self).file_on_disk,
            final(self).events@ =~= old(self).events@.push(
                TransferEvent::Status {
                    status: DownloadStatus::Failed(reason),
                    progress: percent_spec(old(self).downloaded, old(self).total) as u32,
                    file_path: None::<String>,
                },
            ),
            *final(self) == (TransferMachine {
                phase: TransferPhase::Finished,
                outcome: final(self).outcome,
                file_on_disk: false,
                events: final(self).events,
                ..*old(self)
            }),
    {
        let progress = calculate_progress(self.downloaded, self.total);
        proof {
            lemma_percent_bounds(self.downloaded, self.total);
        }
        let e = status_event(DownloadStatus::Failed(reason.clone()), progress);
        self.events.push(e);
        self.file_on_disk = false;
        self.phase = TransferPhase::Finished;
        self.outcome = Some(TransferOutcome::Failed(reason));
        proof {
            Self::lemma_wf_after_terminal_push(
                *old(self),
                *self,
                TransferEvent::Status {
                    status: DownloadStatus::Failed(self.outcome->0->Failed_0),
                    progress: percent_spec(old(self).downloaded, old(self).total) as u32,
                    file_path: None::<String>,
                },
            );
        }
    }

    /// The destination directory could not be created.
    /// Reason: `Failed to create download directory: <detail>`.
    pub fn on_dir_error(&mut self, detail: String)
        requires
            old(self).wf(),
            old(self).phase is Ready,
        ensures
            final(self).wf(),
            final(self).phase is Finished,
            final(self).outcome matches Some(TransferOutcome::Failed(r)) && r@
                == "Failed to create download directory: "@ + detail@,
            !final(self).file_on_disk,
            final(self).events@ == old(self).events@.push(final(self).events@.last()),
            final(self).events@.last() == (TransferEvent::Status {
                status: DownloadStatus::Failed(final(self).outcome->0->Failed_0),
                progress: 0u32,
                file_path: None::<String>,
            }),
            *final(self) == (TransferMachine {
                phase: TransferPhase::Finished,
                outcome: final(self).outcome,
                file_on_disk: false,
                events: final(self).events,
                ..*old(self)
            }),
    {
        let mut reason = String::from_str("Failed to create download directory: ");
        reason.append(detail.as_str());
        self.fail(reason);
    }

    /// The request could not be sent or failed on the wire before a response
    /// arrived.  Reason: `Download failed: <detail>`.
    pub fn on_send_error(&mut self, detail: String)
        requires
            old(self).wf(),
            old(self).phase is Requesting,
        ensures
            final(self).wf(),
            final(self).phase is Finished,
            final(self).outcome matches Some(TransferOutcome::Failed(r)) && r@
                == "Download failed: "@ + detail@,
            !final(self).file_on_disk,
            final(self).events@ == old(self).events@.push(final(self).events@.last()),
            final(self).events@.last() == (TransferEvent::Status {
                status: DownloadStatus::Failed(final(self).outcome->0->Failed_0),
                progress: 0u32,
                file_path: None::<String>,
            }),
            *final(self) == (TransferMachine {
                phase: TransferPhase::Finished,
                outcome: final(self).outcome,
                file_on_disk: false,
                events: final(self).events,
                ..*old(self)
            }),
    {
        let mut reason = String::from_str("Download failed: ");
        reason.append(detail.as_str());
        self.fail(reason);
    }

    /// The response arrived.  A success status proceeds to file creation and
    /// records the announced content length; any other status ends the
    /// transfer with reason `Download failed with status: <status_detail>`.
    pub fn on_response(&mut self, ok: bool, status_detail: String, content_length: Option<u64>)
        requires
            old(self).wf(),
            old(self).phase is Requesting,
        ensures
            final(self).wf(),
            ok ==> {
                &&& final(self).phase is Creating
                &&& final(self).total == content_length
                &&& final(self).events == old(self).events
                &&& *final(self) == (TransferMachine {
                    phase: TransferPhase::Creating,
                    total: content_length,
                    ..*old(self)
                })
            },
            !ok ==> {
                &&& final(self).phase is Finished
                &&& final(self).outcome matches Some(TransferOutcome::Failed(r)) && r@
                    == "Download failed with status: "@ + status_detail@
                &&& !final(self).file_on_disk
                &&& final(self).events@ == old(self).events@.push(final(self).events@.last())
                &&& final(self).events@.last() == (TransferEvent::Status {
                    status: DownloadStatus::Failed(final(self).outcome->0->Failed_0),
                    progress: 0u32,
                    file_path: None::<String>,
                })
                &&& *final(self) == (TransferMachine {
                    phase: TransferPhase::Finished,
                    outcome: final(self).outcome,
                    file_on_disk: false,
                    events: final(self).events,
                    total: final(self).total,
                    ..*old(self)
                })
            },
    {
        if ok {
            self.total = content_length;
            self.phase = TransferPhase::Creating;
        } else {
            let mut reason = String::from_str("Download failed with status: ");
            reason.append(status_detail.as_str());
            self.fail(reason);
        }
    }

    /// The destination file was created; body chunks may now arrive.
    pub fn on_file_created(&mut self)
        requires
            old(self).wf(),
            old(self).phase is Creating,
        ensures
            final(self).wf(),
            final(self).phase is Streaming,
            final(self).file_on_disk,
            final(self).events == old(self).events,
            *final(self) == (TransferMachine {
                phase: TransferPhase::Streaming,
                file_on_disk: true,
                ..*old(self)
            }),
    {
        self.file_on_disk = true;
        self.phase = TransferPhase::Streaming;
    }

    /// The destination file could not be created.
    /// Reason: `Failed to create file: <detail>`.
    pub fn on_file_error(&mut self, detail: String)
        requires
            old(self).wf(),
            old(self).phase is Creating,
        ensures
            final(self).wf(),
            final(self).phase is Finished,
            final(self).outcome matches Some(TransferOutcome::Failed(r)) && r@
                == "Failed to create file: "@ + detail@,
            !final(self).file_on_disk,
            final(self).events@ == old(self).events@.push(final(self).events@.last()),
            final(self).events@.last() == (TransferEvent::Status {
                status: DownloadStatus::Failed(final(self).outcome->0->Failed_0),
                progress: 0u32,
                file_path: None::<String>,
            }),
            *final(self) == (TransferMachine {
                phase: TransferPhase::Finished,
                outcome: final(self).outcome,
                file_on_disk: false,
                events: final(self).events,
                ..*old(self)
            }),
    {
        let mut reason = String::from_str("Failed to create file: ");
        reason.append(detail.as_str());
        self.fail(reason);
    }

    /// A cancellation signal was observed at a check point.  Ends the
    /// transfer as `Cancelled`; the partial file, if any, is removed.
    /// Returns whether a file existed that the driver must delete.
    pub fn on_cancel(&mut self) -> (had_file: bool)
        requires
            old(self).wf(),
            !(old(self).phase is Finished),
        ensures
            final(self).wf(),
            had_file == old(self).file_on_disk,
            final(self).phase is Finished,
            final(self).outcome == Some(TransferOutcome::Cancelled),
            !final(self).file_on_disk,
            final(self).events@ =~= old(self).events@.push(
                TransferEvent::Status {
                    status: DownloadStatus::Cancelled,
                    progress: 0u32,
                    file_path: None::<String>,
                },
            ),
            *final(self) == (TransferMachine {
                phase: TransferPhase::Finished,
                outcome: Some(TransferOutcome::Cancelled),
                file_on_disk: false,
                events: final(self).events,
                ..*old(self)
            }),
    {
        let had_file = self.file_on_disk;
        let e = status_event(DownloadStatus::Cancelled, 0);
        self.events.push(e);
        self.file_on_disk = false;
        self.phase = TransferPhase::Finished;
        self.outcome = Some(TransferOutcome::Cancelled);
        proof {
            Self::lemma_wf_after_terminal_push(
                *old(self),
                *self,
                TransferEvent::Status {
                    status: DownloadStatus::Cancelled,
                    progress: 0u32,
                    file_path: None::<String>,
                },
            );
        }
        had_file
    }

    /// Whether a chunk arriving now, bringing the counter to `d`, triggers a
    /// progress emission: a full threshold has passed since the last one, or
    /// the known total has been reached.
    pub open spec fn emits_at(d: u64, last_update: u64, total: Option<u64>) -> bool {
        d - last_update >= PROGRESS_UPDATE_THRESHOLD || (total is Some && d >= total->0)
    }

    /// One body chunk of `n` bytes arrived and was written to the file.
    /// Emits a rate-limited progress event and returns its value, if any.
    pub fn on_chunk(&mut self, n: u64) -> (emitted: Option<u32>)
        requires
            old(self).wf(),
            old(self).phase is Streaming,
            old(self).downloaded + n <= u64::MAX,
        ensures
            final(self).wf(),
            final(self).phase is Streaming,
            final(self).downloaded == old(self).downloaded + n,
            final(self).total == old(self).total,
            final(self).file_on_disk,
            Self::emits_at((old(self).downloaded + n) as u64, old(self).last_update, old(self).total)
                ==> {
                &&& emitted == Some(
                    percent_spec((old(self).downloaded + n) as u64, old(self).total) as u32,
                )
                &&& final(self).last_update == final(self).downloaded
                &&& final(self).events@ =~= old(self).events@.push(
                    TransferEvent::Progress { progress: emitted->0 },
                )
            },
            !Self::emits_at((old(self).downloaded + n) as u64, old(self).last_update, old(self).total)
                ==> {
                &&& emitted is None
                &&& final(self).last_update == old(self).last_update
                &&& final(self).events == old(self).events
            },
            *final(self) == (TransferMachine {
                downloaded: final(self).downloaded,
                last_update: final(self).last_update,
                events: final(self).events,
                ..*old(self)
            }),
    {
        self.downloaded = self.downloaded + n;
        let reached_total = match self.total {
            Some(t) => self.downloaded >= t,
            None => false,
        };
        if self.downloaded - self.last_update >= PROGRESS_UPDATE_THRESHOLD || reached_total {
            let progress = calculate_progress(self.downloaded, self.total);
            proof {
                lemma_percent_bounds(self.downloaded, self.total);
                lemma_percent_monotone(self.last_update, self.downloaded, self.total);
                if self.total is Some && self.total->0 > 0 && self.downloaded >= self.total->0 {
                    lemma_percent_full(self.downloaded, self.total->0);
                }
            }
            self.events.push(TransferEvent::Progress { progress });
            self.last_update = self.downloaded;
            Some(progress)
        } else {
            proof {
                lemma_percent_monotone(old(self).downloaded, self.downloaded, self.total);
            }
            None
        }
    }

    /// Receiving the next chunk failed on the wire.
    /// Reason: `Error while downloading: <detail>`; the partial file is
    /// removed.
    pub fn on_chunk_error(&mut self, detail: String)
        requires
            old(self).wf(),
            old(self).phase is Streaming,
        ensures
            final(self).wf(),
            final(self).phase is Finished,
            final(self).outcome matches Some(TransferOutcome::Failed(r)) && r@
                == "Error while downloading: "@ + detail@,
            !final(self).file_on_disk,
            final(self).events@ == old(self).events@.push(final(self).events@.last()),
            final(self).events@.last() == (TransferEvent::Status {
                status: DownloadStatus::Failed(final(self).outcome->0->Failed_0),
                progress: percent_spec(old(self).downloaded, old(self).total) as u32,
                file_path: None::<String>,
            }),
            *final(self) == (TransferMachine {
                phase: TransferPhase::Finished,
                outcome: final(self).outcome,
                file_on_disk: false,
                events: final(self).events,
                ..*old(self)
            }),
    {
        let mut reason = String::from_str("Error while downloading: ");
        reason.append(detail.as_str());
        self.fail(reason);
    }

    /// Writing the chunk to the destination file failed.
    /// Reason: `Error while writing to file: <detail>`; the partial file is
    /// removed.
    pub fn on_write_error(&mut self, detail: String)
        requires
            old(self).wf(),
            old(self).phase is Streaming,
        ensures
            final(self).wf(),
            final(self).phase is Finished,
            final(self).outcome matches Some(TransferOutcome::Failed(r)) && r@
                == "Error while writing to file: "@ + detail@,
            !final(self).file_on_disk,
            final(self).events@ == old(self).events@.push(final(self).events@.last()),
            final(self).events@.last() == (TransferEvent::Status {
                status: DownloadStatus::Failed(final(self).outcome->0->Failed_0),
                progress: percent_spec(old(self).downloaded, old(self).total) as u32,
                file_path: None::<String>,
            }),
            *final(self) == (TransferMachine {
                phase: TransferPhase::Finished,
                outcome: final(self).outcome,
                file_on_disk: false,
                events: final(self).events,
                ..*old(self)
            }),
    {
        let mut reason = String::from_str("Error while writing to file: ");
        reason.append(detail.as_str());
        self.fail(reason);
    }

    /// The body stream is exhausted: the transfer completed.  Emits the
    /// completed status carrying the final file path; the file remains.
    pub fn on_stream_end(&mut self)
        requires
            old(self).wf(),
            old(self).phase is Streaming,
        ensures
            final(self).wf(),
            final(self).phase is Finished,
            final(self).outcome == Some(TransferOutcome::Completed(old(self).file_path)),
            final(self).file_on_disk,
            final(self).events@ =~= old(self).events@.push(
                TransferEvent::Status {
                    status: DownloadStatus::Completed,
                    progress: 100u32,
                    file_path: Some(old(self).file_path),
                },
            ),
            *final(self) == (TransferMachine {
                phase: TransferPhase::Finished,
                outcome: Some(TransferOutcome::Completed(old(self).file_path)),
                events: final(self).events,
                ..*old(self)
            }),
    {
        let path = self.file_path.clone();
        self.events.push(
            TransferEvent::Status {
                status: DownloadStatus::Completed,
                progress: 100,
                file_path: Some(path.clone()),
            },
        );
        self.phase = TransferPhase::Finished;
        self.outcome = Some(TransferOutcome::Completed(path));
        proof {
            Self::lemma_wf_after_terminal_push(
                *old(self),
                *self,
                TransferEvent::Status {
                    status: DownloadStatus::Completed,
                    progress: 100u32,
                    file_path: Some(old(self).file_path),
                },
            );
        }
    }
}

/// Law: a single transfer ends in exactly one terminal outcome, and no
/// partial file remains on disk unless that outcome is `Completed`.
pub proof fn lemma_terminal_cleanup(m: &TransferMachine)
    requires
        m.wf(),
        m.phase is Finished,
    ensures
        m.outcome is Some,
        m.file_on_disk <==> m.outcome->0.is_completed(),
{
}

/// Law: progress events of one transfer are emitted in non-decreasing order.
pub proof fn lemma_progress_monotone(m: &TransferMachine, i: int, j: int)
    requires
        m.wf(),
        0 <= i < j < m.events@.len(),
        ev_is_progress(m.events@[i]),
        ev_is_progress(m.events@[j]),
    ensures
        ev_progress_val(m.events@[i]) <= ev_progress_val(m.events@[j]),
{
}

/// Law: once a transfer with a known, positive total has downloaded it all,
/// the latest progress event reported exactly 100.
pub proof fn lemma_final_progress_is_full(m: &TransferMachine)
    requires
        m.wf(),
        m.phase is Streaming || m.phase is Finished,
        m.total is Some,
        m.total->0 > 0,
        m.downloaded >= m.total->0,
    ensures
        exists|i: int|
            0 <= i < m.events@.len() && ev_is_progress(m.events@[i]) && (forall|j: int|
                i < j < m.events@.len() ==> !ev_is_progress(m.events@[j])) && ev_progress_val(
                m.events@[i],
            ) == 100,
{
}

/// Law: the terminal status event of a transfer is the last event observed
/// for it, and there is exactly one.
pub proof fn lemma_terminal_event_is_last(m: &TransferMachine, i: int)
    requires
        m.wf(),
        0 <= i < m.events@.len(),
        ev_is_terminal(m.events@[i]),
    ensures
        m.phase is Finished,
        i == m.events@.len() - 1,
{
}

} // verus!

use crate::models::TextbookDownloadInfo;
use crate::registry::{CancellationHandle, CancellationRegistry};
use crate::strutil::{last_index_spec, last_index_of};
use crate::locator::{url_parse_ok, url_path_of, parse_url_path};

verus! {

/// The last path segment of `path`: everything after the final `/`, or the
/// whole path when it has none.
pub open spec fn last_segment_spec(path: Seq<char>) -> Seq<char> {
    match last_index_spec(path, '/') {
        None => path,
        Some(i) => path.skip(i + 1),
    }
}

/// The destination file extension derived from a URL path: a dot followed by
/// the portion of the last path segment after its final dot; empty when the
/// segment has no dot or nothing follows it.
pub open spec fn extension_spec(path: Seq<char>) -> Seq<char> {
    let seg = last_segment_spec(path);
    match last_index_spec(seg, '.') {
        None => Seq::empty(),
        Some(j) => if j + 1 == seg.len() {
            Seq::empty()
        } else {
            seq!['.'] + seg.skip(j + 1)
        },
    }
}

/// Derive the destination file extension from the path portion of the
/// source URL.
pub fn extract_file_extension(path: &str) -> (r: String)
    ensures
        r@ == extension_spec(path@),
{
    let n = path.unicode_len();
    let seg_start: usize = match last_index_of(path, '/') {
        Some(i) => {
            proof {
                crate::strutil::lemma_last_index_spec(path@, '/');
            }
            i + 1
        },
        None => 0,
    };
    let seg = path.substring_char(seg_start, n);
    proof {
        if seg_start == 0 {
            assert(seg@ =~= path@);
        } else {
            assert(seg@ =~= path@.skip(seg_start as int));
        }
        assert(seg@ == last_segment_spec(path@));
    }
    let m = seg.unicode_len();
    match last_index_of(seg, '.') {
        None => String::new(),
        Some(j) => {
            proof {
                crate::strutil::lemma_last_index_spec(seg@, '.');
            }
            if j + 1 == m {
                String::new()
            } else {
                let mut r = String::from_str(".");
                r.append(seg.substring_char(j + 1, m));
                proof {
                    reveal_strlit(".");
                    assert("."@ =~= seq!['.']);
                    assert(seg@.subrange(j + 1, m as int) =~= seg@.skip(j + 1));
                }
                r
            }
        },
    }
}

/// `base` with each component appended behind a `/`, in order.
pub open spec fn joined_path(base: Seq<char>, comps: Seq<Seq<char>>) -> Seq<char>
    decreases comps.len(),
{
    if comps.len() == 0 {
        base
    } else {
        joined_path(base + seq!['/'] + comps[0], comps.drop_first())
    }
}

/// The directory a request's file is saved in: the base download directory,
/// extended by the request's grouping components.
pub open spec fn dest_dir_spec(info: TextbookDownloadInfo, base: Seq<char>) -> Seq<char> {
    joined_path(base, info.path_components_spec())
}

/// The absolute destination file path of a request: its directory, a `/`,
/// the title, and the extension derived from the source URL's path.
pub open spec fn dest_file_spec(info: TextbookDownloadInfo, base: Seq<char>) -> Seq<char> {
    dest_dir_spec(info, base) + seq!['/'] + info.title@ + extension_spec(url_path_of(info.url@))
}

/// The directory this request's file is saved in: the base directory,
/// extended — when grouping is on — by one nested subdirectory per present,
/// non-empty label, in catalog order.
pub fn build_save_path(textbook_info: &TextbookDownloadInfo, download_path: &str) -> (r: String)
    ensures
        r@ == dest_dir_spec(*textbook_info, download_path@),
{
    let comps = textbook_info.get_path_components();
    let mut r = download_path.to_owned();
    proof {
        assert(textbook_info.path_components_spec().skip(0) =~= textbook_info.path_components_spec());
    }
    let n = comps.len();
    let mut i: usize = 0;
    while i < n
        invariant
            n == comps@.len(),
            i <= n,
            crate::strutil::seq_views(comps@) == textbook_info.path_components_spec(),
            joined_path(download_path@, textbook_info.path_components_spec()) == joined_path(
                r@,
                textbook_info.path_components_spec().skip(i as int),
            ),
        decreases n - i,
    {
        r.append("/");
        r.append(comps[i].as_str());
        proof {
            reveal_strlit("/");
            assert("/"@ =~= seq!['/']);
            let all = textbook_info.path_components_spec();
            assert(all[i as int] == comps@[i as int]@);
            assert(all.skip(i as int).drop_first() =~= all.skip(i + 1));
            assert(all.skip(i as int)[0] == all[i as int]);
        }
        i = i + 1;
    }
    proof {
        assert(textbook_info.path_components_spec().skip(n as int).len() == 0);
    }
    r
}

/// The value of the authorization header sent when a token is supplied.
pub fn bearer_value(token: &str) -> (r: String)
    ensures
        r@ == "Bearer "@ + token@,
{
    let mut s = String::from_str("Bearer ");
    s.append(token);
    s
}

/// An error reported to the caller before any transfer work starts.
#[derive(Clone, Debug)]
pub enum TransferError {
    /// A precondition failed: an empty destination, an empty batch, or a
    /// concurrency limit of zero.
    Precondition(String),
    /// The source URL does not parse as an absolute URL.
    InvalidLocator(String),
}

impl TransferError {
    /// The carried message.
    pub fn message(&self) -> (r: String)
        ensures
            r@ == (match self {
                TransferError::Precondition(m) => m@,
                TransferError::InvalidLocator(m) => m@,
            }),
    {
        match self {
            TransferError::Precondition(m) => m.clone(),
            TransferError::InvalidLocator(m) => m.clone(),
        }
    }
}

/// One observed incident while streaming the response body, in order.
#[derive(Clone, Debug)]
pub enum StreamStep {
    /// A chunk of this many bytes arrived and was written.
    Chunk(u64),
    /// Receiving the next chunk failed with this detail.
    ChunkError(String),
    /// Writing the chunk failed with this detail.
    WriteError(String),
    /// The external caller cancelled this transfer by identity.
    Cancel,
}

/// Everything the outside world contributes to one transfer, as a driver
/// observes it: how setup went, what the response said, and the body
/// incidents in order.
#[derive(Clone, Debug)]
pub struct TransferScript {
    /// The external caller cancels right after the transfer registers.
    pub cancel_before_start: bool,
    /// Creating the destination directory fails with this detail.
    pub dir_error: Option<String>,
    /// Sending the request fails with this detail.
    pub send_error: Option<String>,
    /// Whether the response status is a success.
    pub response_ok: bool,
    /// The response status rendered as text (used when not a success).
    pub status_detail: String,
    /// The announced content length, if any.
    pub content_length: Option<u64>,
    /// Creating the destination file fails with this detail.
    pub create_error: Option<String>,
    /// The body incidents, in order.
    pub steps: Vec<StreamStep>,
}

/// The mathematical shadow of a terminal outcome.
pub enum OutcomeModel {
    Completed(Seq<char>),
    Failed(Seq<char>),
    Cancelled,
}

/// A terminal outcome, abstracted to its text content.
pub open spec fn outcome_model(o: TransferOutcome) -> OutcomeModel {
    match o {
        TransferOutcome::Completed(p) => OutcomeModel::Completed(p@),
        TransferOutcome::Failed(r) => OutcomeModel::Failed(r@),
        TransferOutcome::Cancelled => OutcomeModel::Cancelled,
    }
}

/// Total bytes of the chunk steps in `steps`.
pub open spec fn chunks_total(steps: Seq<StreamStep>) -> int
    decreases steps.len(),
{
    if steps.len() == 0 {
        0
    } else {
        (match steps[0] {
            StreamStep::Chunk(n) => n as int,
            _ => 0int,
        }) + chunks_total(steps.drop_first())
    }
}

/// The outcome the remaining `steps` produce, given whether a cancellation
/// signal is already pending: a pending signal is observed at the next
/// chunk-processing check point; a signal sent after the last body incident
/// is never observed, so the stream completes.
pub open spec fn steps_outcome_from(steps: Seq<StreamStep>, cancelled: bool, fp: Seq<char>) -> OutcomeModel
    decreases steps.len(),
{
    if steps.len() == 0 {
        OutcomeModel::Completed(fp)
    } else if cancelled && !(steps[0] is Cancel) {
        OutcomeModel::Cancelled
    } else {
        match steps[0] {
            StreamStep::Cancel => steps_outcome_from(steps.drop_first(), true, fp),
            StreamStep::Chunk(_) => steps_outcome_from(steps.drop_first(), false, fp),
            StreamStep::ChunkError(d) => OutcomeModel::Failed("Error while downloading: "@ + d@),
            StreamStep::WriteError(d) => OutcomeModel::Failed("Error while writing to file: "@ + d@),
        }
    }
}

/// The terminal outcome a whole script produces for a transfer whose
/// destination file is `fp`.
pub open spec fn script_outcome_spec(script: TransferScript, fp: Seq<char>) -> OutcomeModel {
    if script.cancel_before_start {
        OutcomeModel::Cancelled
    } else if script.dir_error is Some {
        OutcomeModel::Failed("Failed to create download directory: "@ + script.dir_error->0@)
    } else if script.send_error is Some {
        OutcomeModel::Failed("Download failed: "@ + script.send_error->0@)
    } else if !script.response_ok {
        OutcomeModel::Failed("Download failed with status: "@ + script.status_detail@)
    } else if script.create_error is Some {
        OutcomeModel::Failed("Failed to create file: "@ + script.create_error->0@)
    } else {
        steps_outcome_from(script.steps@, false, fp)
    }
}

} // verus!

verus! {

/// The mathematical shadow of one emitted event.
pub enum EventModel {
    Downloading { progress: int },
    Completed { progress: int, file_path: Seq<char> },
    Failed { progress: int, reason: Seq<char> },
    Cancelled,
    Progress { progress: int },
}

/// An event, abstracted to its text content.
pub open spec fn ev_model(e: TransferEvent) -> EventModel {
    match e {
        TransferEvent::Status { status, progress, file_path } => match status {
            DownloadStatus::Downloading => EventModel::Downloading { progress: progress as int },
            DownloadStatus::Completed => EventModel::Completed {
                progress: progress as int,
                file_path: match file_path {
                    Some(p) => p@,
                    None => Seq::empty(),
                },
            },
            DownloadStatus::Failed(r) => EventModel::Failed {
                progress: progress as int,
                reason: r@,
            },
            DownloadStatus::Cancelled => EventModel::Cancelled,
        },
        TransferEvent::Progress { progress } => EventModel::Progress {
            progress: progress as int,
        },
    }
}

/// A whole event log, abstracted to its text content.
pub open spec fn events_model(es: Seq<TransferEvent>) -> Seq<EventModel> {
    es.map_values(|e: TransferEvent| ev_model(e))
}

/// The events the remaining body incidents produce, given a pending
/// cancellation flag and the current byte counters.
pub open spec fn stream_events_spec(
    steps: Seq<StreamStep>,
    cancelled: bool,
    d: int,
    lu: int,
    total: Option<u64>,
    fp: Seq<char>,
) -> Seq<EventModel>
    decreases steps.len(),
{
    if steps.len() == 0 {
        seq![EventModel::Completed { progress: 100, file_path: fp }]
    } else if cancelled && !(steps[0] is Cancel) {
        seq![EventModel::Cancelled]
    } else {
        match steps[0] {
            StreamStep::Cancel => stream_events_spec(steps.drop_first(), true, d, lu, total, fp),
            StreamStep::Chunk(n) => {
                let d2 = d + n;
                if d2 - lu >= PROGRESS_UPDATE_THRESHOLD || (total is Some && d2 >= total->0) {
                    seq![
                        EventModel::Progress { progress: percent_int(d2, total) },
                    ] + stream_events_spec(steps.drop_first(), false, d2, d2, total, fp)
                } else {
                    stream_events_spec(steps.drop_first(), false, d2, lu, total, fp)
                }
            },
            StreamStep::ChunkError(e) => seq![
                EventModel::Failed {
                    progress: percent_int(d, total),
                    reason: "Error while downloading: "@ + e@,
                },
            ],
            StreamStep::WriteError(e) => seq![
                EventModel::Failed {
                    progress: percent_int(d, total),
                    reason: "Error while writing to file: "@ + e@,
                },
            ],
        }
    }
}

/// `percent_spec`, stated over a mathematical byte counter.
pub open spec fn percent_int(d: int, total: Option<u64>) -> int {
    match total {
        Some(t) => if t > 0 {
            if d * 100 / t as int > 100 {
                100
            } else {
                d * 100 / t as int
            }
        } else {
            0
        },
        None => 0,
    }
}

/// Every event one whole transfer emits, in order, as `script` scripts it.
pub open spec fn script_events_spec(script: TransferScript, fp: Seq<char>) -> Seq<EventModel> {
    if script.cancel_before_start {
        seq![EventModel::Cancelled]
    } else if script.dir_error is Some {
        seq![
            EventModel::Failed {
                progress: 0,
                reason: "Failed to create download directory: "@ + script.dir_error->0@,
            },
        ]
    } else {
        seq![EventModel::Downloading { progress: 0 }] + (if script.send_error is Some {
            seq![
                EventModel::Failed {
                    progress: 0,
                    reason: "Download failed: "@ + script.send_error->0@,
                },
            ]
        } else if !script.response_ok {
            seq![
                EventModel::Failed {
                    progress: 0,
                    reason: "Download failed with status: "@ + script.status_detail@,
                },
            ]
        } else if script.create_error is Some {
            seq![
                EventModel::Failed {
                    progress: 0,
                    reason: "Failed to create file: "@ + script.create_error->0@,
                },
            ]
        } else {
            stream_events_spec(script.steps@, false, 0, 0, script.content_length, fp)
        })
    }
}

/// `chunks_total` never goes negative.
pub proof fn lemma_chunks_total_nonneg(steps: Seq<StreamStep>)
    ensures
        chunks_total(steps) >= 0,
    decreases steps.len(),
{
    if steps.len() > 0 {
        lemma_chunks_total_nonneg(steps.drop_first());
    }
}

/// Peeling one step off the front of a suffix.
pub proof fn lemma_chunks_total_skip(steps: Seq<StreamStep>, i: int)
    requires
        0 <= i < steps.len(),
    ensures
        chunks_total(steps.skip(i)) == (match steps[i] {
            StreamStep::Chunk(n) => n as int,
            _ => 0int,
        }) + chunks_total(steps.skip(i + 1)),
{
    assert(steps.skip(i)[0] == steps[i]);
    assert(steps.skip(i).drop_first() =~= steps.skip(i + 1));
}

/// Taking event shadows commutes with appending an event.
proof fn lemma_events_model_push(es: Seq<TransferEvent>, e: TransferEvent)
    ensures
        events_model(es.push(e)) =~= events_model(es).push(ev_model(e)),
{
}

/// Law: a cancellation signal delivered between two body incidents is
/// observed at the next chunk-processing check point, and the transfer then
/// ends `Cancelled` — its latency is bounded by one chunk cycle.
pub proof fn lemma_cancel_observed(steps: Seq<StreamStep>, fp: Seq<char>, k: int)
    requires
        0 <= k < steps.len() - 1,
        steps[k] is Cancel,
        !(steps[k + 1] is Cancel),
        forall|j: int| 0 <= j < k ==> steps[j] is Chunk,
    ensures
        steps_outcome_from(steps, false, fp) is Cancelled,
    decreases k,
{
    reveal_with_fuel(steps_outcome_from, 3);
    if k == 0 {
        assert(steps.drop_first().len() > 0);
        assert(steps.drop_first()[0] == steps[1]);
    } else {
        assert(steps.drop_first()[k - 1] == steps[k]);
        assert(steps.drop_first()[k] == steps[k + 1]);
        assert forall|j: int| 0 <= j < k - 1 implies steps.drop_first()[j] is Chunk by {
            assert(steps.drop_first()[j] == steps[j + 1]);
        }
        lemma_cancel_observed(steps.drop_first(), fp, k - 1);
    }
}

/// Run one whole transfer against the effects recorded in `script`: register
/// a fresh cancellation handle, validate, stream, and — on every exit path —
/// revoke the registry entry.
///
/// The outcome is pinned exactly by `script_outcome_spec`; the machine's
/// well-formedness carries the cleanup and event-ordering guarantees.
pub fn run_transfer(
    info: &TextbookDownloadInfo,
    download_path: &str,
    registry: &mut CancellationRegistry,
    script: &TransferScript,
) -> (r: Result<TransferMachine, TransferError>)
    requires
        old(registry).wf(),
        chunks_total(script.steps@) <= u64::MAX,
    ensures
        final(registry).wf(),
        !final(registry).active_for(info.url@),
        forall|id: Seq<char>|
            id != info.url@ ==> #[trigger] final(registry).has_entry(id) == old(
                registry,
            ).has_entry(id) && final(registry).active_for(id) == old(registry).active_for(id)
                && final(registry).cancelled_for(id) == old(registry).cancelled_for(id),
        r is Err <==> !script.cancel_before_start && (download_path@.len() == 0 || !url_parse_ok(
            info.url@,
        )),
        !script.cancel_before_start && download_path@.len() == 0 ==> (r matches Err(
            TransferError::Precondition(m),
        ) && m@ == "Download path is not provided."@),
        !script.cancel_before_start && download_path@.len() > 0 && !url_parse_ok(info.url@) ==> (
        r matches Err(TransferError::InvalidLocator(m)) && m@ == "Invalid URL"@),
        r matches Ok(m) ==> {
            &&& m.wf()
            &&& m.phase is Finished
            &&& m.identity@ == info.url@
            &&& outcome_model(m.outcome->0) == script_outcome_spec(
                *script,
                dest_file_spec(*info, download_path@),
            )
            &&& events_model(m.events@) == script_events_spec(
                *script,
                dest_file_spec(*info, download_path@),
            )
            &&& (m.file_on_disk <==> m.outcome->0.is_completed())
            &&& (!script.cancel_before_start ==> m.file_path@ == dest_file_spec(
                *info,
                download_path@,
            ))
        },
{
    let identity = info.url.clone();
    registry.register(identity.clone(), CancellationHandle::new());
    proof {
        assert(identity@ == info.url@);
    }
    let ghost reg_registered = *registry;
    if script.cancel_before_start {
        let _ = registry.cancel(&identity);
    }
    // check point before any work: a signal that already landed aborts the
    // transfer before the request starts
    if registry.is_cancelled(&identity) {
        let mut m = TransferMachine::new(identity.clone(), String::new());
        let _ = m.on_cancel();
        registry.revoke(&identity);
        proof {
            assert(events_model(m.events@) =~= seq![EventModel::Cancelled]);
        }
        return Ok(m);
    }
    if download_path.is_empty() {
        registry.revoke(&identity);
        return Err(TransferError::Precondition(String::from_str("Download path is not provided.")));
    }
    let url_path = match parse_url_path(info.url.as_str()) {
        Some(p) => p,
        None => {
            registry.revoke(&identity);
            return Err(TransferError::InvalidLocator(String::from_str("Invalid URL")));
        },
    };
    let file_extension = extract_file_extension(url_path.as_str());
    let dir = build_save_path(info, download_path);
    let mut file_path = dir.clone();
    file_path.append("/");
    file_path.append(info.title.as_str());
    file_path.append(file_extension.as_str());
    proof {
        reveal_strlit("/");
        assert("/"@ =~= seq!['/']);
        assert(file_path@ =~= dest_file_spec(*info, download_path@));
    }
    let mut m = TransferMachine::new(identity.clone(), file_path);

    if let Some(d) = &script.dir_error {
        m.on_dir_error(d.clone());
        registry.revoke(&identity);
        proof {
            assert(events_model(m.events@) =~= script_events_spec(
                *script,
                dest_file_spec(*info, download_path@),
            ));
        }
        proof {
            assert forall|id: Seq<char>|
                id != info.url@ implies #[trigger] registry.has_entry(id) == old(
                registry,
            ).has_entry(id) && registry.active_for(id) == old(registry).active_for(id)
                && registry.cancelled_for(id) == old(registry).cancelled_for(id) by {
                let _t1 = reg_registered.has_entry(id);
                let _t2 = reg_registered.active_for(id);
                let _t3 = reg_registered.cancelled_for(id);
            }
        }
        return Ok(m);
    }
    m.start();
    if let Some(d) = &script.send_error {
        m.on_send_error(d.clone());
        registry.revoke(&identity);
        proof {
            assert(events_model(m.events@) =~= script_events_spec(
                *script,
                dest_file_spec(*info, download_path@),
            ));
        }
        proof {
            assert forall|id: Seq<char>|
                id != info.url@ implies #[trigger] registry.has_entry(id) == old(
                registry,
            ).has_entry(id) && registry.active_for(id) == old(registry).active_for(id)
                && registry.cancelled_for(id) == old(registry).cancelled_for(id) by {
                let _t1 = reg_registered.has_entry(id);
                let _t2 = reg_registered.active_for(id);
                let _t3 = reg_registered.cancelled_for(id);
            }
        }
        return Ok(m);
    }
    m.on_response(script.response_ok, script.status_detail.clone(), script.content_length);
    if !script.response_ok {
        registry.revoke(&identity);
        proof {
            assert(events_model(m.events@) =~= script_events_spec(
                *script,
                dest_file_spec(*info, download_path@),
            ));
        }
        proof {
            assert forall|id: Seq<char>|
                id != info.url@ implies #[trigger] registry.has_entry(id) == old(
                registry,
            ).has_entry(id) && registry.active_for(id) == old(registry).active_for(id)
                && registry.cancelled_for(id) == old(registry).cancelled_for(id) by {
                let _t1 = reg_registered.has_entry(id);
                let _t2 = reg_registered.active_for(id);
                let _t3 = reg_registered.cancelled_for(id);
            }
        }
        return Ok(m);
    }
    if let Some(d) = &script.create_error {
        m.on_file_error(d.clone());
        registry.revoke(&identity);
        proof {
            assert(events_model(m.events@) =~= script_events_spec(
                *script,
                dest_file_spec(*info, download_path@),
            ));
        }
        proof {
            assert forall|id: Seq<char>|
                id != info.url@ implies #[trigger] registry.has_entry(id) == old(
                registry,
            ).has_entry(id) && registry.active_for(id) == old(registry).active_for(id)
                && registry.cancelled_for(id) == old(registry).cancelled_for(id) by {
                let _t1 = reg_registered.has_entry(id);
                let _t2 = reg_registered.active_for(id);
                let _t3 = reg_registered.cancelled_for(id);
            }
        }
        return Ok(m);
    }
    m.on_file_created();

    let ghost all = script.steps@;
    let ghost fp = dest_file_spec(*info, download_path@);
    let n = script.steps.len();
    let mut i: usize = 0;
    proof {
        assert(all.skip(0) =~= all);
        assert(events_model(m.events@) =~= seq![EventModel::Downloading { progress: 0 }]);
        assert(script_events_spec(*script, fp) =~= events_model(m.events@) + stream_events_spec(
            all,
            false,
            0,
            0,
            script.content_length,
            fp,
        ));
    }
    while i < n
        invariant
            n == all.len(),
            i <= n,
            all == script.steps@,
            fp == dest_file_spec(*info, download_path@),
            !script.cancel_before_start,
            script.dir_error is None,
            script.send_error is None,
            script.response_ok,
            script.create_error is None,
            download_path@.len() > 0,
            url_parse_ok(info.url@),
            chunks_total(all) <= u64::MAX,
            m.wf(),
            m.phase is Streaming,
            identity@ == info.url@,
            m.identity@ == info.url@,
            m.file_path@ == fp,
            m.downloaded + chunks_total(all.skip(i as int)) <= chunks_total(all),
            m.total == script.content_length,
            script_events_spec(*script, fp) == events_model(m.events@) + stream_events_spec(
                all.skip(i as int),
                registry.cancelled_for(info.url@),
                m.downloaded as int,
                m.last_update as int,
                m.total,
                fp,
            ),
            registry.wf(),
            registry.active_for(info.url@) || registry.cancelled_for(info.url@),
            steps_outcome_from(all, false, fp) == steps_outcome_from(
                all.skip(i as int),
                registry.cancelled_for(info.url@),
                fp,
            ),
            forall|id: Seq<char>|
                id != info.url@ ==> #[trigger] registry.has_entry(id) == old(registry).has_entry(
                    id,
                ) && registry.active_for(id) == old(registry).active_for(id)
                    && registry.cancelled_for(id) == old(registry).cancelled_for(id),
        decreases n - i,
    {
        proof {
            lemma_chunks_total_skip(all, i as int);
            lemma_chunks_total_nonneg(all.skip(i + 1));
            assert(all.skip(i as int)[0] == all[i as int]);
            assert(all.skip(i as int).drop_first() =~= all.skip(i + 1));
        }
        match &script.steps[i] {
            StreamStep::Cancel => {
                let _ = registry.cancel(&identity);
            },
            StreamStep::Chunk(c) => {
                if registry.is_cancelled(&identity) {
                    let ghost pre_events = m.events@;
                    let _ = m.on_cancel();
                    registry.revoke(&identity);
                    proof {
                        lemma_events_model_push(
                            pre_events,
                            TransferEvent::Status {
                                status: DownloadStatus::Cancelled,
                                progress: 0u32,
                                file_path: None::<String>,
                            },
                        );
                        assert(events_model(m.events@) =~= script_events_spec(*script, fp));
                    }
                    return Ok(m);
                }
                let ghost pre_events = m.events@;
                let ghost pre_d = m.downloaded;
                let emitted = m.on_chunk(*c);
                proof {
                    assert(steps_outcome_from(all.skip(i as int), false, fp)
                        == steps_outcome_from(all.skip(i + 1), false, fp));
                    if emitted is Some {
                        lemma_events_model_push(
                            pre_events,
                            TransferEvent::Progress { progress: emitted->0 },
                        );
                    }
                }
            },
            StreamStep::ChunkError(d) => {
                if registry.is_cancelled(&identity) {
                    let ghost pre_events = m.events@;
                    let _ = m.on_cancel();
                    registry.revoke(&identity);
                    proof {
                        lemma_events_model_push(
                            pre_events,
                            TransferEvent::Status {
                                status: DownloadStatus::Cancelled,
                                progress: 0u32,
                                file_path: None::<String>,
                            },
                        );
                        assert(events_model(m.events@) =~= script_events_spec(*script, fp));
                    }
                    return Ok(m);
                }
                let ghost pre_events = m.events@;
                m.on_chunk_error(d.clone());
                registry.revoke(&identity);
                proof {
                    lemma_events_model_push(pre_events, m.events@.last());
                    assert(events_model(m.events@) =~= script_events_spec(*script, fp));
                }
                return Ok(m);
            },
            StreamStep::WriteError(d) => {
                if registry.is_cancelled(&identity) {
                    let ghost pre_events = m.events@;
                    let _ = m.on_cancel();
                    registry.revoke(&identity);
                    proof {
                        lemma_events_model_push(
                            pre_events,
                            TransferEvent::Status {
                                status: DownloadStatus::Cancelled,
                                progress: 0u32,
                                file_path: None::<String>,
                            },
                        );
                        assert(events_model(m.events@) =~= script_events_spec(*script, fp));
                    }
                    return Ok(m);
                }
                let ghost pre_events = m.events@;
                m.on_write_error(d.clone());
                let ghost reg_pre = *registry;
                registry.revoke(&identity);
                proof {
                    lemma_events_model_push(pre_events, m.events@.last());
                    assert(events_model(m.events@) =~= script_events_spec(*script, fp));
                    assert forall|id: Seq<char>|
                        id != info.url@ implies #[trigger] registry.has_entry(id) == old(
                        registry,
                    ).has_entry(id) && registry.active_for(id) == old(registry).active_for(id)
                        && registry.cancelled_for(id) == old(registry).cancelled_for(id) by {
                        let _t1 = reg_pre.has_entry(id);
                        let _t2 = reg_pre.active_for(id);
                        let _t3 = reg_pre.cancelled_for(id);
                    }
                }
                return Ok(m);
            },
        }
        i = i + 1;
    }
    proof {
        assert(all.skip(n as int).len() == 0);
    }
    let ghost pre_events = m.events@;
    m.on_stream_end();
    registry.revoke(&identity);
    proof {
        lemma_events_model_push(
            pre_events,
            TransferEvent::Status {
                status: DownloadStatus::Completed,
                progress: 100u32,
                file_path: Some(m.file_path),
            },
        );
        assert(events_model(m.events@) =~= script_events_spec(*script, fp));
    }
    Ok(m)
}

} // verus!
