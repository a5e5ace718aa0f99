//! What each event leads to, by what the user sees of it.

use vstd::prelude::*;
use crate::download::{all_settled, FileStatus, FileView, TaskView};
use crate::engine::MsgView;
use crate::i18n::LangView;
use crate::transfer::{backoff_secs, ActionView, Event, Phase, TransferView};

verus! {

/// The seconds that a transfer pauses after its first, second, ... failed attempt.
pub open spec fn pause_after(failed: int) -> u64 {
    if failed == 1 {
        1
    } else if failed == 2 {
        2
    } else {
        5
    }
}

/// Whether a step goes on with another attempt: it pauses and leaves the row alone.
pub open spec fn tries_again(
    t: TransferView,
    task: TaskView,
    event: Event,
    reg: LangView,
) -> bool {
    let o = t.next(task, event, reg);
    &&& o.action == ActionView::Sleep(pause_after(t.attempt + 1))
    &&& o.transfer.phase == Phase::Waiting
    &&& o.transfer.attempt == t.attempt + 1
    &&& o.task.files.dom().contains(t.path) == task.files.dom().contains(t.path)
    &&& task.files.dom().contains(t.path) ==> o.task.files[t.path].status
        == task.files[t.path].status && o.task.files[t.path].error == task.files[t.path].error
}

/// Whether a step ends the transfer with the given message in the row.
pub open spec fn ends_failed(
    t: TransferView,
    task: TaskView,
    event: Event,
    reg: LangView,
    message: Seq<char>,
) -> bool {
    let o = t.next(task, event, reg);
    &&& o.action is Stop
    &&& o.transfer.phase == Phase::Over
    &&& task.files.dom().contains(t.path) ==> o.task.files[t.path].status == FileStatus::Failed
        && o.task.files[t.path].error == Some(message)
}

/// Pauses grow from one second to two, five and ten, and never shrink.
pub proof fn law_pauses_grow(a: u32, b: u32)
    requires
        a <= b,
    ensures
        backoff_secs(a) <= backoff_secs(b),
        1 <= backoff_secs(a) <= 10,
        a == 1 || a == 2 || a == 3 ==> backoff_secs(a) == pause_after(a as int),
        a > 3 ==> backoff_secs(a) == 10,
{
}

/// A refusal is final, with the server's wording in the row, unless the server was too slow, too
/// busy or at fault; then another attempt is made if one is left and nobody cancelled the task.
pub proof fn law_refusal(
    t: TransferView,
    task: TaskView,
    code: u16,
    wording: String,
    length: Option<u64>,
    reg: LangView,
)
    requires
        t.attempt < 4,
        code < 200 || code >= 300,
    ensures
        ({
            let event = Event::Replied { code, wording, length };
            let may_pass = code == 408 || code == 429 || code >= 500;
            if may_pass && t.attempt < 3 && !task.cancelled {
                tries_again(t, task, event, reg)
            } else {
                ends_failed(t, task, event, reg, "HTTP "@ + wording@)
            }
        }),
{
}

/// A request that does not get through is tried again if an attempt is left and nobody cancelled the
/// task; the last one ends the transfer with the reason in the row.
pub proof fn law_lost_request(t: TransferView, task: TaskView, message: String, reg: LangView)
    requires
        t.attempt < 4,
    ensures
        ({
            let event = Event::RequestFailed { message };
            if t.attempt < 3 && !task.cancelled {
                tries_again(t, task, event, reg)
            } else {
                ends_failed(
                    t,
                    task,
                    event,
                    reg,
                    reg.translated("err_request"@, t.lang) + ": "@ + message@,
                )
            }
        }),
{
}

/// A reply that reports success is written: behind what is there if that was asked for and the reply
/// is a partial one, and into an empty file otherwise. The size of the file is what was there and
/// what is announced, or what is announced alone; where nothing is announced it is the listed one.
pub proof fn law_reply_is_written_where_it_belongs(
    t: TransferView,
    probing: TaskView,
    size: u64,
    token_file: Option<String>,
    task: TaskView,
    code: u16,
    wording: String,
    length: Option<u64>,
    reg: LangView,
)
    requires
        t.known_total == 0 || size < t.known_total,
        200 <= code < 300,
        length is Some && code == 206 ==> size + length->0 <= u64::MAX,
    ensures
        ({
            let asking = t.next(probing, Event::Probed { size, token_file }, reg);
            let o = asking.transfer.next(task, Event::Replied { code, wording, length }, reg);
            let resumes = size > 0 && code == 206;
            &&& asking.action is Fetch
            &&& asking.task == probing
            &&& o.action == if resumes {
                ActionView::Append
            } else {
                ActionView::Create
            }
            &&& o.task == task
            &&& o.messages.len() == 0
            &&& o.transfer.downloaded == if resumes {
                size
            } else {
                0
            }
            &&& o.transfer.measured == o.transfer.downloaded
            &&& o.transfer.chunks == 0
            &&& o.transfer.file_total == match length {
                Some(n) if code == 206 => size + n,
                Some(n) if n > 0 => n as int,
                _ => t.known_total as int,
            }
        }),
{
}

/// A file that cannot be opened fails at once. The message tells whether it was to be gone on with
/// or to be begun.
pub proof fn law_file_cannot_be_opened(
    t: TransferView,
    task: TaskView,
    code: u16,
    wording: String,
    length: Option<u64>,
    later: TaskView,
    message: String,
    reg: LangView,
)
    requires
        200 <= code < 300,
    ensures
        ({
            let o = t.next(task, Event::Replied { code, wording, length }, reg);
            &&& o.action is Append || o.action is Create
            &&& o.action is Append ==> ends_failed(
                o.transfer,
                later,
                Event::OpenFailed { message },
                reg,
                reg.translated("err_open_file"@, t.lang) + ": "@ + message@,
            )
            &&& o.action is Create ==> ends_failed(
                o.transfer,
                later,
                Event::OpenFailed { message },
                reg,
                reg.translated("err_create_file"@, t.lang) + ": "@ + message@,
            )
        }),
{
}

/// What a body that came to an untimely end is called in the language of the transfer, if `event`
/// is such an end.
pub open spec fn untimely(t: TransferView, event: Event, reg: LangView) -> Option<Seq<char>> {
    match event {
        Event::EmptyChunk { stalled } => if stalled {
            Some(reg.translated("err_timeout"@, t.lang))
        } else {
            None
        },
        Event::Interrupted { message } => Some(
            reg.translated("err_download_interrupted"@, t.lang) + ": "@ + message@,
        ),
        Event::WriteFailed { message } => Some(
            reg.translated("err_write"@, t.lang) + ": "@ + message@,
        ),
        _ => None,
    }
}

/// When a body stalls, breaks off or cannot be written, what came is flushed, and the row tells how
/// much that is. Then another attempt is made if one is left and nobody cancelled the task; the last
/// one ends with the reason in the row.
pub proof fn law_untimely_end(
    t: TransferView,
    task: TaskView,
    event: Event,
    later: TaskView,
    reg: LangView,
)
    requires
        t.attempt < 4,
        untimely(t, event, reg) is Some,
    ensures
        ({
            let o = t.next(task, event, reg);
            let p = o.transfer.next(later, Event::Flushed, reg);
            &&& o.action is Flush
            &&& o.task == task
            &&& o.messages.len() == 0
            &&& if t.attempt < 3 && !later.cancelled {
                tries_again(o.transfer, later, Event::Flushed, reg)
            } else {
                ends_failed(o.transfer, later, Event::Flushed, reg, untimely(t, event, reg)->0)
            }
            &&& later.files.dom().contains(t.path) ==> p.task.files[t.path].downloaded
                == t.downloaded
        }),
{
}

/// A body that ended, or that is complete as far as its size is known, is flushed, and then the file
/// is done: all of it is there, at no speed. If the task was cancelled meanwhile the file is
/// cancelled.
pub proof fn law_timely_end(t: TransferView, task: TaskView, later: TaskView, reg: LangView)
    requires
        later.files.dom().contains(t.path),
    ensures
        ({
            let o = t.next(task, Event::Ended, reg);
            let p = o.transfer.next(later, Event::Flushed, reg);
            let row = p.task.files[t.path];
            &&& o.action is Flush
            &&& p.action is Stop
            &&& later.cancelled ==> row == (FileView {
                status: FileStatus::Cancelled,
                ..later.files[t.path]
            })
            &&& !later.cancelled ==> {
                &&& row.status == FileStatus::Done
                &&& row.downloaded == t.downloaded
                &&& row.total == if t.file_total > 0 {
                    t.file_total
                } else {
                    t.downloaded
                }
                &&& row.speed == 0
                &&& row.path == later.files[t.path].path
                &&& row.error == later.files[t.path].error
            }
        }),
{
}

/// A file that is there as large as it is listed is not fetched. Its row says that it was there, and
/// how large it is.
pub proof fn law_file_that_is_there(
    t: TransferView,
    task: TaskView,
    size: u64,
    token_file: Option<String>,
    reg: LangView,
)
    requires
        0 < t.known_total <= size,
        task.files.dom().contains(t.path),
    ensures
        ({
            let o = t.next(task, Event::Probed { size, token_file }, reg);
            let row = o.task.files[t.path];
            &&& o.action is Stop
            &&& row.status == FileStatus::Exists
            &&& row.downloaded == size
            &&& row.total == if task.files[t.path].total > 0 {
                task.files[t.path].total
            } else {
                size
            }
            &&& row.speed == task.files[t.path].speed
            &&& row.error == task.files[t.path].error
        }),
{
}

/// A chunk that is written counts. If it completes the file, the file is flushed. Otherwise, where
/// the speed was measured, the row shows it with what is there by now; and at every fiftieth chunk
/// the row shows what is there. Then the next chunk is asked for, unless the file or its task was
/// cancelled.
pub proof fn law_chunk_is_written(
    t: TransferView,
    task: TaskView,
    sample: Option<u64>,
    reg: LangView,
)
    requires
        t.downloaded + t.pending <= u64::MAX,
        t.chunks < 50,
        task.files.dom().contains(t.path),
    ensures
        ({
            let o = t.next(task, Event::Written { sample }, reg);
            let there = t.downloaded + t.pending;
            let row = o.task.files[t.path];
            let old_row = task.files[t.path];
            let stops = task.cancelled || old_row.status == FileStatus::Cancelled;
            &&& o.transfer.downloaded == there
            &&& t.file_total > 0 && there >= t.file_total ==> o.action is Flush && o.task == task
                && o.transfer.fatal is None
            &&& !(t.file_total > 0 && there >= t.file_total) ==> {
                &&& o.transfer.chunks == if t.chunks == 49 {
                    0
                } else {
                    t.chunks + 1
                }
                &&& o.action == if stops {
                    ActionView::Stop
                } else {
                    ActionView::Read
                }
                &&& stops ==> row.status == FileStatus::Cancelled
                &&& !stops ==> row.status == old_row.status
                &&& row.downloaded == if sample is Some || t.chunks == 49 {
                    there
                } else {
                    old_row.downloaded as int
                }
                &&& row.speed == match sample {
                    Some(speed) => speed,
                    None => old_row.speed,
                }
                &&& sample is Some ==> o.transfer.measured == there
                &&& sample is None ==> o.transfer.measured == t.measured
                &&& row.total == old_row.total
                &&& row.error == old_row.error
                &&& row.path == old_row.path
            }
        }),
{
}

/// An open file is read into at once, and an empty chunk that is no stall is passed over, unless
/// the file or its task was cancelled: then the transfer stops and the row says so.
pub proof fn law_reading_goes_on(t: TransferView, task: TaskView, event: Event, reg: LangView)
    requires
        event is Opened || (event matches Event::EmptyChunk { stalled } && !stalled),
        task.files.dom().contains(t.path),
    ensures
        ({
            let o = t.next(task, event, reg);
            if task.cancelled || task.files[t.path].status == FileStatus::Cancelled {
                &&& o.action is Stop
                &&& o.task.files[t.path] == (FileView {
                    status: FileStatus::Cancelled,
                    ..task.files[t.path]
                })
            } else {
                &&& o.action is Read
                &&& o.task == task
                &&& o.messages.len() == 0
            }
        }),
{
}

/// After a pause the disk is looked at again, unless the task was cancelled: then the transfer stops
/// and the row says so.
pub proof fn law_waking(t: TransferView, task: TaskView, reg: LangView)
    ensures
        ({
            let o = t.next(task, Event::Woke, reg);
            if task.cancelled {
                &&& o.action is Stop
                &&& task.files.dom().contains(t.path) ==> o.task.files[t.path].status
                    == FileStatus::Cancelled
            } else {
                &&& o.action is Probe
                &&& o.task == task
                &&& o.transfer.attempt == t.attempt
            }
        }),
{
}

/// Whether the last report among `messages` shows `row`.
pub open spec fn shows(messages: Seq<MsgView>, row: FileView) -> bool {
    exists|i: int|
        {
            &&& 0 <= i < messages.len()
            &&& #[trigger] messages[i] == MsgView::File(row)
            &&& forall|j: int| i < j < messages.len() ==> !(#[trigger] messages[j] is File)
        }
}

/// Whatever a step changes in the row of its file, the last report shows the row as it is then. So
/// whoever keeps the last report has the row.
#[verifier::rlimit(30)]
#[verifier::spinoff_prover]
pub proof fn law_changes_are_reported(t: TransferView, task: TaskView, event: Event, reg: LangView)
    requires
        task.files.dom().contains(t.path),
        t.next(task, event, reg).task.files[t.path] != task.files[t.path],
    ensures
        shows(
            t.next(task, event, reg).messages,
            t.next(task, event, reg).task.files[t.path],
        ),
{
    let o = t.next(task, event, reg);
    let n = o.messages.len() as int;
    let row = MsgView::File(o.task.files[t.path]);
    if n > 0 && o.messages[n - 1] == row {
        assert(shows(o.messages, o.task.files[t.path]));
    } else if n > 1 && o.messages[n - 2] == row && !(o.messages[n - 1] is File) {
        assert(shows(o.messages, o.task.files[t.path]));
    }
}

/// A step reports nothing but rows of its own file and the end of its own task.
pub proof fn law_reports_are_of_the_own_file(
    t: TransferView,
    task: TaskView,
    event: Event,
    reg: LangView,
    i: int,
)
    requires
        task.files.dom().contains(t.path) ==> task.files[t.path].path == t.path,
        0 <= i < t.next(task, event, reg).messages.len(),
    ensures
        match t.next(task, event, reg).messages[i] {
            MsgView::File(row) => row.path == t.path && task.files.dom().contains(t.path),
            MsgView::Done(id) => id == t.task_id,
            _ => false,
        },
{
}

/// When the last file of a task is done, or is found to be there, the end of the task is reported
/// last of all.
pub proof fn law_end_of_the_task_is_reported(
    t: TransferView,
    task: TaskView,
    event: Event,
    reg: LangView,
)
    requires
        task.files.dom().contains(t.path),
        !task.files[t.path].status.settled(),
        ({
            let o = t.next(task, event, reg);
            &&& o.task.files[t.path].status == FileStatus::Done || o.task.files[t.path].status
                == FileStatus::Exists
            &&& all_settled(o.task.files)
        }),
    ensures
        t.next(task, event, reg).messages.len() > 0,
        t.next(task, event, reg).messages.last() == MsgView::Done(t.task_id),
{
}

} // verus!
