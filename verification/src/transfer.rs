//! The download of one file, as a machine that is told what happened and says what to do next.
//!
//! The machine never touches the network or the disk. It asks for one thing at a time through an
//! [`Action`], is told the outcome through an [`Event`], and keeps the row of its file in the
//! [`DownloadTask`] up to date. Transient failures are tried again a bounded number of times, and
//! every attempt goes on from what is on disk.

use vstd::prelude::*;
use crate::download::{
    all_settled, rows, DownloadTask, FileState, FileStatus, FileView, TaskView,
};
use crate::engine::{said, MsgView, UiMsg};
use crate::hf_api::{is_success, read_token, reported, stored_token};
use crate::i18n::{t, LangRegistry, LangView};
use crate::text::{
    cat, cat3, decimal, decimal_of, opt_clone, opt_text, str_eq, trim, trim_end_matches, trimmed,
    without_trailing,
};

verus! {

// ---------------------------------------------------------------------------------------------
// Vocabulary
// ---------------------------------------------------------------------------------------------

/// How often a file is tried: once, and up to three times more.
pub const MAX_ATTEMPTS: u32 = 4;

/// Progress is reported at least once in so many chunks.
pub const REPORT_EVERY: u32 = 50;

/// What a transfer waits for.
#[derive(Debug, Clone, Copy, PartialEq, Eq, Structural)]
pub enum Phase {
    /// The size of the file on disk.
    Probing,
    /// The reply to the request.
    Asking,
    /// The file to be opened for writing.
    Opening,
    /// The next chunk of the body.
    Reading,
    /// A chunk to be written.
    Writing,
    /// The file to be flushed.
    Flushing,
    /// The end of a pause before the next attempt.
    Waiting,
    /// Nothing more.
    Over,
}

/// What happened.
pub enum Event {
    /// The file on disk has `size` bytes, none if it is not there. `token_file` is what the file
    /// of the access token holds, if it can be read.
    Probed { size: u64, token_file: Option<String> },
    /// The request could not be sent.
    RequestFailed { message: String },
    /// The server replied; `length` is the announced length of the body.
    Replied { code: u16, wording: String, length: Option<u64> },
    /// The file is open.
    Opened,
    /// The file could not be opened.
    OpenFailed { message: String },
    /// A chunk of `len` bytes came, more than none.
    Chunk { len: u64 },
    /// An empty chunk came; `stalled` if nothing else has come for too long.
    EmptyChunk { stalled: bool },
    /// The body broke off.
    Interrupted { message: String },
    /// The body ended.
    Ended,
    /// The chunk is written. Where the time for a measurement had come, `sample` is the speed
    /// that is to be shown from now on.
    Written { sample: Option<u64> },
    /// The chunk could not be written.
    WriteFailed { message: String },
    /// The file is flushed.
    Flushed,
    /// The pause is over.
    Woke,
}

/// What is to be done next.
pub enum Action {
    /// Look how large the file on disk is, and read the file of the access token.
    Probe,
    /// Send a request, with a `Range` header and a bearer token where they are given, and only
    /// there.
    Fetch { url: String, range: Option<String>, bearer: Option<String> },
    /// Open the file to write at its end.
    Append,
    /// Open the file empty.
    Create,
    /// Wait for the next chunk.
    Read,
    /// Write the chunk that came.
    Write,
    /// Flush the file.
    Flush,
    /// Wait for `secs` seconds.
    Sleep { secs: u64 },
    /// Nothing: the transfer is over.
    Stop,
}

/// What an action says.
pub enum ActionView {
    Probe,
    /// The address, the range and the token.
    Fetch(Seq<char>, Option<Seq<char>>, Option<Seq<char>>),
    Append,
    Create,
    Read,
    Write,
    Flush,
    Sleep(u64),
    Stop,
}

impl View for Action {
    type V = ActionView;

    open spec fn view(&self) -> ActionView {
        match *self {
            Action::Probe => ActionView::Probe,
            Action::Fetch { url, range, bearer } => ActionView::Fetch(
                url@,
                opt_text(range),
                opt_text(bearer),
            ),
            Action::Append => ActionView::Append,
            Action::Create => ActionView::Create,
            Action::Read => ActionView::Read,
            Action::Write => ActionView::Write,
            Action::Flush => ActionView::Flush,
            Action::Sleep { secs } => ActionView::Sleep(secs),
            Action::Stop => ActionView::Stop,
        }
    }
}

/// What a step gives: messages for the user interface, and what to do next.
pub struct Step {
    pub messages: Vec<UiMsg>,
    pub action: Action,
}

/// The download of one file.
pub struct Transfer {
    task_id: String,
    path: String,
    lang: String,
    repo_id: String,
    repo_type: String,
    revision: String,
    endpoint: String,
    known_total: u64,
    phase: Phase,
    attempt: u32,
    existing: u64,
    resuming: bool,
    file_total: u64,
    downloaded: u64,
    pending: u64,
    chunks: u32,
    measured: u64,
    fatal: Option<String>,
}

/// Where a transfer stands.
#[verifier::ext_equal]
pub struct TransferView {
    /// The task that it belongs to, its file, and the language of its messages.
    pub task_id: Seq<char>,
    pub path: Seq<char>,
    pub lang: Seq<char>,
    /// Where the file comes from.
    pub repo_id: Seq<char>,
    pub repo_type: Seq<char>,
    pub revision: Seq<char>,
    pub endpoint: Seq<char>,
    /// The size of the file as listed, zero if unknown.
    pub known_total: u64,
    pub phase: Phase,
    /// How many attempts failed.
    pub attempt: u32,
    /// How much was on disk when this attempt began.
    pub existing: u64,
    /// Whether this attempt goes on from there.
    pub resuming: bool,
    /// The size of the whole file, zero if unknown.
    pub file_total: u64,
    /// How much of the file is on disk.
    pub downloaded: u64,
    /// The size of the chunk that is being written.
    pub pending: u64,
    /// How many chunks came since the last regular report.
    pub chunks: u32,
    /// How much was on disk at the last measurement.
    pub measured: u64,
    /// Why the body broke off, if it did.
    pub fatal: Option<Seq<char>>,
}

impl View for Transfer {
    type V = TransferView;

    closed spec fn view(&self) -> TransferView {
        TransferView {
            task_id: self.task_id@,
            path: self.path@,
            lang: self.lang@,
            repo_id: self.repo_id@,
            repo_type: self.repo_type@,
            revision: self.revision@,
            endpoint: self.endpoint@,
            known_total: self.known_total,
            phase: self.phase,
            attempt: self.attempt,
            existing: self.existing,
            resuming: self.resuming,
            file_total: self.file_total,
            downloaded: self.downloaded,
            pending: self.pending,
            chunks: self.chunks,
            measured: self.measured,
            fatal: opt_text(self.fatal),
        }
    }
}

/// The base of download addresses: the mirror without trailing slashes, or the official site if
/// the mirror is blank.
pub open spec fn file_base(endpoint: Seq<char>) -> Seq<char> {
    if trimmed(endpoint).len() == 0 {
        "https://huggingface.co"@
    } else {
        without_trailing(endpoint, '/')
    }
}

/// What precedes the repository id in a download address.
pub open spec fn file_kind(repo_type: Seq<char>) -> Seq<char> {
    if repo_type == "dataset"@ {
        "datasets/"@
    } else if repo_type == "space"@ {
        "spaces/"@
    } else {
        Seq::empty()
    }
}

/// Where a file is downloaded from.
pub open spec fn file_address(
    repo_id: Seq<char>,
    repo_type: Seq<char>,
    revision: Seq<char>,
    endpoint: Seq<char>,
    path: Seq<char>,
) -> Seq<char> {
    file_base(endpoint) + "/"@ + file_kind(repo_type) + repo_id + "/resolve/"@ + revision + "/"@
        + path
}

/// The value of a `Range` header that asks for everything from byte `from` on.
pub open spec fn range_from(from: u64) -> Seq<char> {
    "bytes="@ + decimal(from as nat) + "-"@
}

/// How many seconds to wait before retry number `attempt`.
pub open spec fn backoff_secs(attempt: u32) -> u64 {
    if attempt <= 1 {
        1
    } else if attempt == 2 {
        2
    } else if attempt == 3 {
        5
    } else {
        10
    }
}

/// Whether a refusal may pass: a time-out, too many requests, or a fault of the server.
pub open spec fn is_transient(code: u16) -> bool {
    code == 408 || code == 429 || code >= 500
}

// ---------------------------------------------------------------------------------------------
// The machine
// ---------------------------------------------------------------------------------------------

/// Everything that a step determines.
pub struct Outcome {
    pub transfer: TransferView,
    pub task: TaskView,
    pub messages: Seq<MsgView>,
    pub action: ActionView,
}

impl TaskView {
    /// The task with `f` in place of what it knows of `path`, if it knows it.
    pub open spec fn edited(self, path: Seq<char>, f: FileView) -> TaskView {
        if self.files.dom().contains(path) {
            self.with_file(path, f)
        } else {
            self
        }
    }

    /// A report on `path`, if the task knows it.
    pub open spec fn report(self, path: Seq<char>) -> Seq<MsgView> {
        if self.files.dom().contains(path) {
            seq![MsgView::File(self.files[path])]
        } else {
            Seq::empty()
        }
    }

    pub open spec fn with_status(self, path: Seq<char>, status: FileStatus) -> TaskView {
        self.edited(path, FileView { status, ..self.files[path] })
    }

    pub open spec fn with_failure(self, path: Seq<char>, message: Seq<char>) -> TaskView {
        self.edited(
            path,
            FileView { status: FileStatus::Failed, error: Some(message), ..self.files[path] },
        )
    }

    pub open spec fn with_size(self, path: Seq<char>, downloaded: u64) -> TaskView {
        self.edited(path, FileView { downloaded, ..self.files[path] })
    }

    pub open spec fn with_progress(
        self,
        path: Seq<char>,
        downloaded: u64,
        sample: Option<u64>,
    ) -> TaskView {
        self.edited(
            path,
            FileView {
                downloaded,
                speed: match sample {
                    Some(s) => s,
                    None => self.files[path].speed,
                },
                ..self.files[path]
            },
        )
    }

    /// The file was complete before anything was fetched.
    pub open spec fn with_existing(self, path: Seq<char>, size: u64) -> TaskView {
        self.edited(
            path,
            FileView {
                status: FileStatus::Exists,
                downloaded: size,
                total: if self.files[path].total > 0 {
                    self.files[path].total
                } else {
                    size
                },
                ..self.files[path]
            },
        )
    }

    /// The file is complete.
    pub open spec fn with_done(self, path: Seq<char>, downloaded: u64, total: u64) -> TaskView {
        self.edited(
            path,
            FileView {
                status: FileStatus::Done,
                downloaded,
                total: if total > 0 {
                    total
                } else {
                    downloaded
                },
                speed: 0,
                ..self.files[path]
            },
        )
    }

    /// Whether `path` was cancelled, alone or with its task.
    pub open spec fn gives_up(self, path: Seq<char>) -> bool {
        self.cancelled || (self.files.dom().contains(path) && self.files[path].status
            == FileStatus::Cancelled)
    }
}

impl Outcome {
    /// The same, with `messages` before its own.
    pub open spec fn after(self, messages: Seq<MsgView>) -> Outcome {
        Outcome { messages: messages + self.messages, ..self }
    }
}

impl TransferView {
    pub open spec fn to(self, phase: Phase) -> TransferView {
        TransferView { phase, ..self }
    }

    /// The transfer asks for `action` and waits in `phase`.
    pub open spec fn asks(self, task: TaskView, phase: Phase, action: ActionView) -> Outcome {
        Outcome { transfer: self.to(phase), task, messages: Seq::empty(), action }
    }

    /// The transfer ends with a last report.
    pub open spec fn ends(self, task: TaskView) -> Outcome {
        Outcome {
            transfer: self.to(Phase::Over),
            task,
            messages: task.report(self.path),
            action: ActionView::Stop,
        }
    }

    /// The transfer ends because it was cancelled.
    pub open spec fn cancels(self, task: TaskView) -> Outcome {
        self.ends(task.with_status(self.path, FileStatus::Cancelled))
    }

    /// The transfer ends with a failure.
    pub open spec fn fails(self, task: TaskView, message: Seq<char>) -> Outcome {
        self.ends(task.with_failure(self.path, message))
    }

    /// The transfer ends normally; if that was the last file, the task is done.
    pub open spec fn finishes(self, task: TaskView) -> Outcome {
        Outcome {
            messages: task.report(self.path) + if all_settled(task.files) {
                seq![MsgView::Done(self.task_id)]
            } else {
                Seq::empty()
            },
            ..self.ends(task)
        }
    }

    /// Whether another attempt is allowed.
    pub open spec fn may_retry(self, task: TaskView) -> bool {
        self.attempt + 1 < MAX_ATTEMPTS && !task.cancelled
    }

    /// A pause before the next attempt, or a failure if there is none.
    pub open spec fn retries(self, task: TaskView, message: Seq<char>) -> Outcome {
        if self.may_retry(task) {
            TransferView { attempt: (self.attempt + 1) as u32, ..self }.asks(
                task,
                Phase::Waiting,
                ActionView::Sleep(backoff_secs((self.attempt + 1) as u32)),
            )
        } else {
            self.fails(task, message)
        }
    }

    /// The beginning of an attempt.
    pub open spec fn attempts(self, task: TaskView) -> Outcome {
        if task.cancelled {
            self.cancels(task)
        } else {
            self.asks(task, Phase::Probing, ActionView::Probe)
        }
    }

    /// The request for the next chunk.
    pub open spec fn reads(self, task: TaskView) -> Outcome {
        if task.gives_up(self.path) {
            self.cancels(task)
        } else {
            self.asks(task, Phase::Reading, ActionView::Read)
        }
    }

    /// The end of the body.
    pub open spec fn flushes(self, task: TaskView, fatal: Option<Seq<char>>) -> Outcome {
        TransferView { fatal, ..self }.asks(task, Phase::Flushing, ActionView::Flush)
    }

    /// A file of `size` bytes is on disk, and the file of the access token holds `token_file`. What
    /// is missing is asked for, with the stored token if there is one.
    pub open spec fn probed(
        self,
        task: TaskView,
        size: u64,
        token_file: Option<Seq<char>>,
    ) -> Outcome {
        let t = TransferView { existing: size, ..self };
        if self.known_total > 0 && size >= self.known_total {
            t.finishes(task.with_existing(self.path, size))
        } else {
            t.asks(
                task,
                Phase::Asking,
                ActionView::Fetch(
                    file_address(
                        self.repo_id,
                        self.repo_type,
                        self.revision,
                        self.endpoint,
                        self.path,
                    ),
                    if size > 0 {
                        Some(range_from(size))
                    } else {
                        None
                    },
                    stored_token(token_file),
                ),
            )
        }
    }

    /// The size of the whole file according to a reply: what is there and what is announced for a
    /// partial reply, what is announced otherwise, and the listed size where no length is announced
    /// or a whole file is announced as empty.
    pub open spec fn total_after(self, code: u16, length: Option<u64>) -> int {
        match length {
            Some(n) if code == 206 => self.existing + n,
            Some(n) if n > 0 => n as int,
            _ => self.known_total as int,
        }
    }

    /// The server replied. A partial reply to a request for the rest is appended; any other
    /// successful reply starts the file afresh.
    pub open spec fn replied(
        self,
        task: TaskView,
        code: u16,
        wording: Seq<char>,
        length: Option<u64>,
    ) -> Outcome {
        if !is_success(code) {
            if is_transient(code) {
                self.retries(task, "HTTP "@ + wording)
            } else {
                self.fails(task, "HTTP "@ + wording)
            }
        } else {
            let resuming = self.existing > 0 && code == 206;
            let from = if resuming {
                self.existing
            } else {
                0
            };
            TransferView {
                resuming,
                file_total: self.total_after(code, length) as u64,
                downloaded: from,
                pending: 0,
                chunks: 0,
                measured: from,
                ..self
            }.asks(
                task,
                Phase::Opening,
                if resuming {
                    ActionView::Append
                } else {
                    ActionView::Create
                },
            )
        }
    }

    /// A chunk was written.
    pub open spec fn wrote(self, task: TaskView, sample: Option<u64>) -> Outcome {
        let downloaded = (self.downloaded + self.pending) as u64;
        let t = TransferView { downloaded, pending: 0, ..self };
        if self.file_total > 0 && downloaded >= self.file_total {
            t.flushes(task, None)
        } else {
            let chunks = ((self.chunks + 1) % (REPORT_EVERY as int)) as u32;
            let t = TransferView {
                chunks,
                measured: if sample is Some && task.files.dom().contains(self.path) {
                    downloaded
                } else {
                    self.measured
                },
                ..t
            };
            if sample is Some || chunks == 0 {
                let task = task.with_progress(self.path, downloaded, sample);
                t.reads(task).after(task.report(self.path))
            } else {
                t.reads(task)
            }
        }
    }

    /// The file was flushed after the body ended or broke off.
    pub open spec fn flushed(self, task: TaskView) -> Outcome {
        match self.fatal {
            Some(message) => {
                let task = task.with_size(self.path, self.downloaded);
                self.retries(task, message).after(task.report(self.path))
            },
            None => self.finishes(
                if task.cancelled {
                    task.with_status(self.path, FileStatus::Cancelled)
                } else {
                    task.with_done(self.path, self.downloaded, self.file_total)
                },
            ),
        }
    }

    /// Whether the transfer waits for such an event, and its numbers fit.
    pub open spec fn awaits(self, event: Event) -> bool {
        match event {
            Event::Probed { .. } => self.phase == Phase::Probing,
            Event::RequestFailed { .. } => self.phase == Phase::Asking,
            Event::Replied { code, length, .. } => self.phase == Phase::Asking && (is_success(code)
                ==> self.total_after(code, length) <= u64::MAX),
            Event::Opened | Event::OpenFailed { .. } => self.phase == Phase::Opening,
            Event::Chunk { len } => self.phase == Phase::Reading && 0 < len && self.downloaded + len
                <= u64::MAX,
            Event::EmptyChunk { .. } | Event::Interrupted { .. } | Event::Ended => self.phase
                == Phase::Reading,
            Event::Written { .. } | Event::WriteFailed { .. } => self.phase == Phase::Writing,
            Event::Flushed => self.phase == Phase::Flushing,
            Event::Woke => self.phase == Phase::Waiting,
        }
    }

    /// What an event leads to.
    pub open spec fn next(self, task: TaskView, event: Event, reg: LangView) -> Outcome {
        match event {
            Event::Probed { size, token_file } => self.probed(task, size, opt_text(token_file)),
            Event::RequestFailed { message } => self.retries(
                task,
                reported(reg.translated("err_request"@, self.lang), message@),
            ),
            Event::Replied { code, wording, length } => self.replied(task, code, wording@, length),
            Event::Opened => self.reads(task),
            Event::OpenFailed { message } => self.fails(
                task,
                reported(
                    reg.translated(
                        if self.resuming {
                            "err_open_file"@
                        } else {
                            "err_create_file"@
                        },
                        self.lang,
                    ),
                    message@,
                ),
            ),
            Event::Chunk { len } => TransferView { pending: len, ..self }.asks(
                task,
                Phase::Writing,
                ActionView::Write,
            ),
            Event::EmptyChunk { stalled } => if stalled {
                self.flushes(task, Some(reg.translated("err_timeout"@, self.lang)))
            } else {
                self.reads(task)
            },
            Event::Interrupted { message } => self.flushes(
                task,
                Some(
                    reported(reg.translated("err_download_interrupted"@, self.lang), message@),
                ),
            ),
            Event::Ended => self.flushes(task, None),
            Event::Written { sample } => self.wrote(task, sample),
            Event::WriteFailed { message } => self.flushes(
                task,
                Some(reported(reg.translated("err_write"@, self.lang), message@)),
            ),
            Event::Flushed => self.flushed(task),
            Event::Woke => self.attempts(task),
        }
    }

    /// A transfer that has not begun.
    pub open spec fn initial(
        task: TaskView,
        task_id: Seq<char>,
        path: Seq<char>,
        lang: Seq<char>,
    ) -> TransferView {
        TransferView {
            task_id,
            path,
            lang,
            repo_id: task.repo_id,
            repo_type: task.repo_type,
            revision: task.revision,
            endpoint: task.endpoint,
            known_total: if task.files.dom().contains(path) {
                task.files[path].total
            } else {
                0
            },
            phase: Phase::Waiting,
            attempt: 0,
            existing: 0,
            resuming: false,
            file_total: 0,
            downloaded: 0,
            pending: 0,
            chunks: 0,
            measured: 0,
            fatal: None,
        }
    }

    /// A transfer that is given up before it begins, because its file was cancelled while it waited.
    pub open spec fn declined(
        task: TaskView,
        task_id: Seq<char>,
        path: Seq<char>,
        lang: Seq<char>,
    ) -> Outcome {
        TransferView::initial(task, task_id, path, lang).cancels(task)
    }

    /// How a transfer begins.
    pub open spec fn begun(
        task: TaskView,
        task_id: Seq<char>,
        path: Seq<char>,
        lang: Seq<char>,
    ) -> Outcome {
        let running = task.with_status(path, FileStatus::Downloading);
        TransferView::initial(task, task_id, path, lang).attempts(running).after(
            running.report(path),
        )
    }
}

// ---------------------------------------------------------------------------------------------
// Running the machine
// ---------------------------------------------------------------------------------------------

/// Whether a step did what `o` says.
pub open spec fn happened(o: Outcome, t: Transfer, task: DownloadTask, step: Step) -> bool {
    &&& t@ == o.transfer
    &&& task@ == o.task
    &&& said(step.messages@) == o.messages
    &&& step.action@ == o.action
}

/// Puts `f` in place of what the task knows of `path`, if it knows it.
fn edit(task: &mut DownloadTask, path: &str, f: FileState)
    ensures
        final(task)@ == old(task)@.edited(path@, f@),
{
    match task.files.find(path) {
        Some(i) => {
            let row = task.files.at_mut(i);
            *row = f;
            assert(rows(task.files@) =~= rows(old(task).files@).insert(path@, f@));
        },
        None => {},
    }
}

/// What the task knows of `path`.
fn row_of(task: &DownloadTask, path: &str) -> (r: Option<FileState>)
    ensures
        match r {
            Some(f) => task@.files.dom().contains(path@) && f@ == task@.files[path@],
            None => !task@.files.dom().contains(path@),
        },
{
    match task.files.get(path) {
        Some(f) => {
            assert(task@.files[path@] == f@);
            Some(f.clone())
        },
        None => None,
    }
}

/// Sets the status of `path`, if the task knows it.
pub(crate) fn set_status(task: &mut DownloadTask, path: &str, status: FileStatus)
    ensures
        final(task)@ == old(task)@.with_status(path@, status),
{
    let f = match row_of(task, path) {
        Some(f) => f,
        None => {
            return;
        },
    };
    let g = FileState { status, ..f };
    edit(task, path, g);
}

fn set_failure(task: &mut DownloadTask, path: &str, message: String)
    ensures
        final(task)@ == old(task)@.with_failure(path@, message@),
{
    let f = match row_of(task, path) {
        Some(f) => f,
        None => {
            return;
        },
    };
    let g = FileState { status: FileStatus::Failed, error: Some(message), ..f };
    edit(task, path, g);
}

fn set_size(task: &mut DownloadTask, path: &str, downloaded: u64)
    ensures
        final(task)@ == old(task)@.with_size(path@, downloaded),
{
    let f = match row_of(task, path) {
        Some(f) => f,
        None => {
            return;
        },
    };
    let g = FileState { downloaded, ..f };
    edit(task, path, g);
}

fn set_progress(task: &mut DownloadTask, path: &str, downloaded: u64, sample: Option<u64>)
    ensures
        final(task)@ == old(task)@.with_progress(path@, downloaded, sample),
{
    let f = match row_of(task, path) {
        Some(f) => f,
        None => {
            return;
        },
    };
    let speed: u64 = match sample {
        Some(s) => s,
        None => f.speed,
    };
    let g = FileState { downloaded, speed, ..f };
    edit(task, path, g);
}

fn set_existing(task: &mut DownloadTask, path: &str, size: u64)
    ensures
        final(task)@ == old(task)@.with_existing(path@, size),
{
    let f = match row_of(task, path) {
        Some(f) => f,
        None => {
            return;
        },
    };
    let total: u64 = if f.total > 0 {
        f.total
    } else {
        size
    };
    let g = FileState { status: FileStatus::Exists, downloaded: size, total, ..f };
    edit(task, path, g);
}

fn set_done(task: &mut DownloadTask, path: &str, downloaded: u64, file_total: u64)
    ensures
        final(task)@ == old(task)@.with_done(path@, downloaded, file_total),
{
    let f = match row_of(task, path) {
        Some(f) => f,
        None => {
            return;
        },
    };
    let total: u64 = if file_total > 0 {
        file_total
    } else {
        downloaded
    };
    let g = FileState { status: FileStatus::Done, downloaded, total, speed: 0, ..f };
    edit(task, path, g);
}

/// A report on `path`, if the task knows it.
fn report_file(task: &DownloadTask, path: &str) -> (r: Vec<UiMsg>)
    ensures
        said(r@) == task@.report(path@),
{
    let mut r: Vec<UiMsg> = Vec::new();
    match row_of(task, path) {
        Some(f) => r.push(UiMsg::File(f)),
        None => {},
    }
    assert(said(r@) =~= task@.report(path@));
    r
}

/// How many seconds to wait before retry number `attempt`.
pub fn backoff(attempt: u32) -> (secs: u64)
    ensures
        secs == backoff_secs(attempt),
{
    if attempt <= 1 {
        1
    } else if attempt == 2 {
        2
    } else if attempt == 3 {
        5
    } else {
        10
    }
}

/// Whether a body has stalled: nothing but empty chunks came for more than a minute. A millisecond
/// that has begun counts in `idle_millis`.
pub fn has_stalled(idle_millis: u64) -> (r: bool)
    ensures
        r == (idle_millis > 60_000),
{
    idle_millis > 60_000
}

/// Where a file is downloaded from.
pub fn file_url(repo_id: &str, repo_type: &str, revision: &str, endpoint: &str, path: &str) -> (r:
    String)
    ensures
        r@ == file_address(repo_id@, repo_type@, revision@, endpoint@, path@),
{
    let blank = trim(endpoint);
    let mut url = if blank.as_str().is_empty() {
        "https://huggingface.co".to_owned()
    } else {
        trim_end_matches(endpoint, '/')
    };
    url.append("/");
    let ghost base = url@;
    if str_eq(repo_type, "dataset") {
        url.append("datasets/");
    } else if str_eq(repo_type, "space") {
        url.append("spaces/");
    }
    assert(url@ == base + file_kind(repo_type@));
    url.append(repo_id);
    url.append("/resolve/");
    url.append(revision);
    url.append("/");
    url.append(path);
    url
}

fn report_text(key: &str, detail: &str, lang: &str, reg: &LangRegistry) -> (r: String)
    ensures
        r@ == reported(reg@.translated(key@, lang@), detail@),
{
    let what = t(key, lang, reg);
    cat3(what.as_str(), ": ", detail)
}

impl Transfer {
    #[verifier::type_invariant]
    spec fn inv(self) -> bool {
        &&& self.attempt < MAX_ATTEMPTS
        &&& self.chunks < REPORT_EVERY
        &&& self.phase == Phase::Writing ==> self.downloaded + self.pending <= u64::MAX
    }

    /// The path of the file within its repository.
    pub fn path(&self) -> (r: &str)
        ensures
            r@ == self@.path,
    {
        self.path.as_str()
    }

    /// What the transfer waits for.
    pub fn phase(&self) -> (r: Phase)
        ensures
            r == self@.phase,
    {
        self.phase
    }

    /// How much will be on disk once the chunk at hand is written, and how much was there at the
    /// last measurement of the speed.
    pub fn progress(&self) -> (r: (u64, u64))
        requires
            self@.phase == Phase::Writing,
        ensures
            r.0 == self@.downloaded + self@.pending,
            r.1 == self@.measured,
    {
        proof {
            use_type_invariant(self);
        }
        (self.downloaded + self.pending, self.measured)
    }

    /// Whether the transfer waits for such an event, and its numbers fit.
    pub fn accepts(&self, event: &Event) -> (r: bool)
        ensures
            r == self@.awaits(*event),
    {
        match event {
            Event::Probed { .. } => self.phase == Phase::Probing,
            Event::RequestFailed { .. } => self.phase == Phase::Asking,
            Event::Replied { code, length, .. } => {
                if self.phase != Phase::Asking {
                    return false;
                }
                match length {
                    Some(n) => *code != 206 || *n <= u64::MAX - self.existing,
                    None => true,
                }
            },
            Event::Opened | Event::OpenFailed { .. } => self.phase == Phase::Opening,
            Event::Chunk { len } => self.phase == Phase::Reading && 0 < *len && *len <= u64::MAX
                - self.downloaded,
            Event::EmptyChunk { .. } | Event::Interrupted { .. } | Event::Ended => self.phase
                == Phase::Reading,
            Event::Written { .. } | Event::WriteFailed { .. } => self.phase == Phase::Writing,
            Event::Flushed => self.phase == Phase::Flushing,
            Event::Woke => self.phase == Phase::Waiting,
        }
    }

    fn ask(&mut self, phase: Phase, action: Action) -> (step: Step)
        requires
            phase != Phase::Writing,
        ensures
            final(self)@ == old(self)@.to(phase),
            said(step.messages@) == Seq::<MsgView>::empty(),
            step.action == action,
    {
        proof {
            use_type_invariant(&*self);
        }
        self.phase = phase;
        let step = Step { messages: Vec::new(), action };
        assert(said(step.messages@) =~= Seq::<MsgView>::empty());
        step
    }

    fn end(&mut self, task: &DownloadTask) -> (step: Step)
        ensures
            happened(old(self)@.ends(task@), *final(self), *task, step),
    {
        proof {
            use_type_invariant(&*self);
        }
        let messages = report_file(task, self.path.as_str());
        self.phase = Phase::Over;
        Step { messages, action: Action::Stop }
    }

    fn cancel(&mut self, task: &mut DownloadTask) -> (step: Step)
        ensures
            happened(old(self)@.cancels(old(task)@), *final(self), *final(task), step),
    {
        set_status(task, self.path.as_str(), FileStatus::Cancelled);
        self.end(task)
    }

    fn fail(&mut self, task: &mut DownloadTask, message: String) -> (step: Step)
        ensures
            happened(old(self)@.fails(old(task)@, message@), *final(self), *final(task), step),
    {
        set_failure(task, self.path.as_str(), message);
        self.end(task)
    }

    fn finish(&mut self, task: &DownloadTask) -> (step: Step)
        ensures
            happened(old(self)@.finishes(task@), *final(self), *task, step),
    {
        let mut step = self.end(task);
        let ghost before = said(step.messages@);
        if task.is_done() {
            let done = UiMsg::Done { task_id: self.task_id.clone() };
            step.messages.push(done);
            assert(said(step.messages@) =~= before + seq![MsgView::Done(old(self)@.task_id)]);
        } else {
            assert(before =~= before + Seq::<MsgView>::empty());
        }
        step
    }

    fn retry(&mut self, task: &mut DownloadTask, message: String) -> (step: Step)
        ensures
            happened(old(self)@.retries(old(task)@, message@), *final(self), *final(task), step),
    {
        proof {
            use_type_invariant(&*self);
        }
        if self.attempt + 1 < MAX_ATTEMPTS && !task.cancelled {
            self.phase = Phase::Waiting;
            self.attempt = self.attempt + 1;
            let secs: u64 = backoff(self.attempt);
            self.ask(Phase::Waiting, Action::Sleep { secs })
        } else {
            self.fail(task, message)
        }
    }

    fn start_attempt(&mut self, task: &mut DownloadTask) -> (step: Step)
        ensures
            happened(old(self)@.attempts(old(task)@), *final(self), *final(task), step),
    {
        if task.cancelled {
            self.cancel(task)
        } else {
            self.ask(Phase::Probing, Action::Probe)
        }
    }

    fn read(&mut self, task: &mut DownloadTask) -> (step: Step)
        ensures
            happened(old(self)@.reads(old(task)@), *final(self), *final(task), step),
    {
        let gone = task.cancelled || match task.files.get(self.path.as_str()) {
            Some(f) => {
                assert(task@.files[self@.path] == f@);
                f.status == FileStatus::Cancelled
            },
            None => false,
        };
        if gone {
            self.cancel(task)
        } else {
            self.ask(Phase::Reading, Action::Read)
        }
    }

    fn flush(&mut self, fatal: Option<String>) -> (step: Step)
        ensures
            final(self)@ == (TransferView { fatal: opt_text(fatal), ..old(self)@ }).to(
                Phase::Flushing,
            ),
            said(step.messages@) == Seq::<MsgView>::empty(),
            step.action == Action::Flush,
    {
        proof {
            use_type_invariant(&*self);
        }
        self.fatal = fatal;
        self.ask(Phase::Flushing, Action::Flush)
    }

    fn on_probed(
        &mut self,
        task: &mut DownloadTask,
        size: u64,
        token_file: &Option<String>,
    ) -> (step: Step)
        requires
            old(self)@.phase != Phase::Writing,
        ensures
            happened(
                old(self)@.probed(old(task)@, size, opt_text(*token_file)),
                *final(self),
                *final(task),
                step,
            ),
    {
        proof {
            use_type_invariant(&*self);
        }
        self.existing = size;
        if self.known_total > 0 && size >= self.known_total {
            set_existing(task, self.path.as_str(), size);
            self.finish(task)
        } else {
            let url = file_url(
                self.repo_id.as_str(),
                self.repo_type.as_str(),
                self.revision.as_str(),
                self.endpoint.as_str(),
                self.path.as_str(),
            );
            let range = if size > 0 {
                let n = decimal_of(size);
                Some(cat3("bytes=", n.as_str(), "-"))
            } else {
                None
            };
            let bearer = read_token(token_file);
            self.ask(Phase::Asking, Action::Fetch { url, range, bearer })
        }
    }

    fn on_replied(
        &mut self,
        task: &mut DownloadTask,
        code: u16,
        wording: &str,
        length: Option<u64>,
    ) -> (step: Step)
        requires
            old(self)@.phase == Phase::Asking,
            is_success(code) ==> old(self)@.total_after(code, length) <= u64::MAX,
        ensures
            happened(
                old(self)@.replied(old(task)@, code, wording@, length),
                *final(self),
                *final(task),
                step,
            ),
    {
        proof {
            use_type_invariant(&*self);
        }
        if code < 200 || code > 299 {
            let message = cat("HTTP ", wording);
            if code == 408 || code == 429 || code >= 500 {
                self.retry(task, message)
            } else {
                self.fail(task, message)
            }
        } else {
            let total: u64 = match length {
                Some(n) => if code == 206 {
                    self.existing + n
                } else if n > 0 {
                    n
                } else {
                    self.known_total
                },
                None => self.known_total,
            };
            let resuming = self.existing > 0 && code == 206;
            let from: u64 = if resuming {
                self.existing
            } else {
                0
            };
            self.resuming = resuming;
            self.file_total = total;
            self.downloaded = from;
            self.pending = 0;
            self.chunks = 0;
            self.measured = from;
            if resuming {
                self.ask(Phase::Opening, Action::Append)
            } else {
                self.ask(Phase::Opening, Action::Create)
            }
        }
    }

    fn on_written(&mut self, task: &mut DownloadTask, sample: Option<u64>) -> (step: Step)
        requires
            old(self)@.phase == Phase::Writing,
        ensures
            happened(old(self)@.wrote(old(task)@, sample), *final(self), *final(task), step),
    {
        proof {
            use_type_invariant(&*self);
        }
        let downloaded: u64 = self.downloaded + self.pending;
        self.pending = 0;
        self.downloaded = downloaded;
        if self.file_total > 0 && downloaded >= self.file_total {
            return self.flush(None);
        }
        self.chunks = (self.chunks + 1) % REPORT_EVERY;
        if sample.is_some() && task.files.contains(self.path.as_str()) {
            self.measured = downloaded;
        }
        if sample.is_some() || self.chunks == 0 {
            set_progress(task, self.path.as_str(), downloaded, sample);
            let mut messages = report_file(task, self.path.as_str());
            let mut step = self.read(task);
            let ghost first = messages@;
            let ghost second = step.messages@;
            messages.append(&mut step.messages);
            assert(said(messages@) =~= said(first) + said(second));
            Step { messages, action: step.action }
        } else {
            self.read(task)
        }
    }

    fn on_flushed(&mut self, task: &mut DownloadTask) -> (step: Step)
        ensures
            happened(old(self)@.flushed(old(task)@), *final(self), *final(task), step),
    {
        let fatal = opt_clone(&self.fatal);
        match fatal {
            Some(message) => {
                set_size(task, self.path.as_str(), self.downloaded);
                let mut messages = report_file(task, self.path.as_str());
                let mut step = self.retry(task, message);
                let ghost first = messages@;
                let ghost second = step.messages@;
                messages.append(&mut step.messages);
                assert(said(messages@) =~= said(first) + said(second));
                Step { messages, action: step.action }
            },
            None => {
                if task.cancelled {
                    set_status(task, self.path.as_str(), FileStatus::Cancelled);
                } else {
                    set_done(task, self.path.as_str(), self.downloaded, self.file_total);
                }
                self.finish(task)
            },
        }
    }

    /// A transfer that has not begun.
    fn prepare(task: &DownloadTask, task_id: &str, path: &str, lang: &str) -> (r: Transfer)
        ensures
            r@ == TransferView::initial(task@, task_id@, path@, lang@),
    {
        let known_total: u64 = match task.files.get(path) {
            Some(f) => {
                assert(task@.files[path@] == f@);
                f.total
            },
            None => 0,
        };
        Transfer {
            task_id: task_id.to_owned(),
            path: path.to_owned(),
            lang: lang.to_owned(),
            repo_id: task.repo_id.clone(),
            repo_type: task.repo_type.clone(),
            revision: task.revision.clone(),
            endpoint: task.endpoint.clone(),
            known_total,
            phase: Phase::Waiting,
            attempt: 0,
            existing: 0,
            resuming: false,
            file_total: 0,
            downloaded: 0,
            pending: 0,
            chunks: 0,
            measured: 0,
            fatal: None,
        }
    }

    /// Begins the download of `path`.
    pub fn begin(task: &mut DownloadTask, task_id: &str, path: &str, lang: &str) -> (r: (
        Transfer,
        Step,
    ))
        ensures
            happened(
                TransferView::begun(old(task)@, task_id@, path@, lang@),
                r.0,
                *final(task),
                r.1,
            ),
    {
        let mut transfer = Transfer::prepare(task, task_id, path, lang);
        set_status(task, path, FileStatus::Downloading);
        let mut messages = report_file(task, path);
        let mut step = transfer.start_attempt(task);
        let ghost first = messages@;
        let ghost second = step.messages@;
        messages.append(&mut step.messages);
        assert(said(messages@) =~= said(first) + said(second));
        (transfer, Step { messages, action: step.action })
    }

    /// Gives up the download of `path` before it begins.
    pub fn decline(task: &mut DownloadTask, task_id: &str, path: &str, lang: &str) -> (r: (
        Transfer,
        Step,
    ))
        ensures
            happened(
                TransferView::declined(old(task)@, task_id@, path@, lang@),
                r.0,
                *final(task),
                r.1,
            ),
    {
        let mut transfer = Transfer::prepare(task, task_id, path, lang);
        let step = transfer.cancel(task);
        (transfer, step)
    }

    /// Takes note of what happened and says what to do next.
    pub fn advance(&mut self, task: &mut DownloadTask, event: Event, reg: &LangRegistry) -> (step:
        Step)
        requires
            old(self)@.awaits(event),
        ensures
            happened(
                old(self)@.next(old(task)@, event, reg@),
                *final(self),
                *final(task),
                step,
            ),
    {
        proof {
            use_type_invariant(&*self);
        }
        match event {
            Event::Probed { size, token_file } => self.on_probed(task, size, &token_file),
            Event::RequestFailed { message } => {
                let m = report_text("err_request", message.as_str(), self.lang.as_str(), reg);
                self.retry(task, m)
            },
            Event::Replied { code, wording, length } => self.on_replied(
                task,
                code,
                wording.as_str(),
                length,
            ),
            Event::Opened => self.read(task),
            Event::OpenFailed { message } => {
                let key = if self.resuming {
                    "err_open_file"
                } else {
                    "err_create_file"
                };
                let m = report_text(key, message.as_str(), self.lang.as_str(), reg);
                self.fail(task, m)
            },
            Event::Chunk { len } => {
                self.pending = len;
                self.phase = Phase::Writing;
                let step = Step { messages: Vec::new(), action: Action::Write };
                assert(said(step.messages@) =~= Seq::<MsgView>::empty());
                step
            },
            Event::EmptyChunk { stalled } => if stalled {
                let m = t("err_timeout", self.lang.as_str(), reg);
                self.flush(Some(m))
            } else {
                self.read(task)
            },
            Event::Interrupted { message } => {
                let m = report_text(
                    "err_download_interrupted",
                    message.as_str(),
                    self.lang.as_str(),
                    reg,
                );
                self.flush(Some(m))
            },
            Event::Ended => self.flush(None),
            Event::Written { sample } => self.on_written(task, sample),
            Event::WriteFailed { message } => {
                let m = report_text("err_write", message.as_str(), self.lang.as_str(), reg);
                self.flush(Some(m))
            },
            Event::Flushed => self.on_flushed(task),
            Event::Woke => self.start_attempt(task),
        }
    }
}

} // verus!
