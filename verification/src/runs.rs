//! What holds of every run of a transfer, whatever happens in it.

use vstd::prelude::*;
use crate::download::{all_settled, FileStatus, TaskView};
use crate::engine::MsgView;
use crate::hf_api::{is_success, stored_token};
use crate::i18n::LangView;
use crate::text::opt_text;
use crate::transfer::{
    backoff_secs, file_address, is_transient, range_from, ActionView, Event, Phase,
    TransferView, MAX_ATTEMPTS,
};

verus! {

/// One step of a run: what happened, and the task as it stood at that moment. Other transfers and
/// the user may change the task between two steps.
pub struct Happening {
    pub task: TaskView,
    pub event: Event,
}

/// Where the transfer `t` stands after `s`.
pub open spec fn run(t: TransferView, s: Seq<Happening>, reg: LangView) -> TransferView
    decreases s.len(),
{
    if s.len() == 0 {
        t
    } else {
        run(t, s.drop_last(), reg).next(s.last().task, s.last().event, reg).transfer
    }
}

/// Whether `s` can happen to `t`: each event is one that the transfer waits for at that point.
pub open spec fn possible(t: TransferView, s: Seq<Happening>, reg: LangView) -> bool
    decreases s.len(),
{
    s.len() == 0 || (possible(t, s.drop_last(), reg) && run(t, s.drop_last(), reg).awaits(
        s.last().event,
    ))
}

/// What the transfer `t` asks for in the course of `s`, in order.
pub open spec fn asked(t: TransferView, s: Seq<Happening>, reg: LangView) -> Seq<ActionView>
    decreases s.len(),
{
    if s.len() == 0 {
        Seq::empty()
    } else {
        asked(t, s.drop_last(), reg).push(
            run(t, s.drop_last(), reg).next(s.last().task, s.last().event, reg).action,
        )
    }
}

// ---------------------------------------------------------------------------------------------
// Attempts
// ---------------------------------------------------------------------------------------------

/// The lengths of the pauses among `actions`, in order.
pub open spec fn pauses(actions: Seq<ActionView>) -> Seq<u64>
    decreases actions.len(),
{
    if actions.len() == 0 {
        Seq::empty()
    } else {
        match actions.last() {
            ActionView::Sleep(secs) => pauses(actions.drop_last()).push(secs),
            _ => pauses(actions.drop_last()),
        }
    }
}

/// How many requests are among `actions`.
pub open spec fn requests(actions: Seq<ActionView>) -> nat
    decreases actions.len(),
{
    if actions.len() == 0 {
        0
    } else {
        requests(actions.drop_last()) + if actions.last() is Fetch {
            1nat
        } else {
            0nat
        }
    }
}

/// The attempts of a transfer that failed so far, by the pauses after them.
spec fn counted(t: TransferView, actions: Seq<ActionView>) -> bool {
    &&& t.attempt < MAX_ATTEMPTS
    &&& pauses(actions).len() == t.attempt
    &&& forall|i: int|
        0 <= i < t.attempt ==> #[trigger] pauses(actions)[i] == backoff_secs((i + 1) as u32)
    &&& requests(actions) <= t.attempt + 1
    &&& t.phase == Phase::Waiting || t.phase == Phase::Probing ==> requests(actions) <= t.attempt
}

/// How a step from `t` to `u` counts: only a pause leads to a new attempt, and only a new attempt
/// makes a request.
spec fn counts(t: TransferView, u: TransferView, action: ActionView) -> bool {
    match action {
        ActionView::Sleep(secs) => u.attempt == t.attempt + 1 && secs == backoff_secs(u.attempt)
            && u.phase == Phase::Waiting,
        ActionView::Probe => u.attempt == t.attempt && t.phase == Phase::Waiting,
        ActionView::Fetch(..) => u.attempt == t.attempt && t.phase == Phase::Probing && u.phase
            == Phase::Asking,
        _ => u.attempt == t.attempt && u.phase != Phase::Waiting && u.phase != Phase::Probing,
    }
}

proof fn lemma_step_counts(t: TransferView, task: TaskView, event: Event, reg: LangView)
    requires
        t.awaits(event),
        t.attempt < MAX_ATTEMPTS,
    ensures
        ({
            let o = t.next(task, event, reg);
            &&& o.transfer.attempt < MAX_ATTEMPTS
            &&& counts(t, o.transfer, o.action)
        }),
{
}

proof fn lemma_tally(t: TransferView, u: TransferView, actions: Seq<ActionView>, action: ActionView)
    requires
        counted(t, actions),
        u.attempt < MAX_ATTEMPTS,
        counts(t, u, action),
    ensures
        counted(u, actions.push(action)),
{
    let now = actions.push(action);
    assert(now.drop_last() =~= actions);
    assert(now.last() == action);
}

proof fn lemma_counted(t: TransferView, s: Seq<Happening>, reg: LangView)
    requires
        t.attempt == 0,
        t.phase == Phase::Probing,
        possible(t, s, reg),
    ensures
        counted(run(t, s, reg), asked(t, s, reg)),
    decreases s.len(),
{
    if s.len() > 0 {
        lemma_counted(t, s.drop_last(), reg);
        let before = asked(t, s.drop_last(), reg);
        let now = asked(t, s, reg);
        let u = run(t, s.drop_last(), reg);
        assert(now.drop_last() == before);
        lemma_step_counts(u, s.last().task, s.last().event, reg);
        lemma_tally(
            u,
            u.next(s.last().task, s.last().event, reg).transfer,
            before,
            u.next(s.last().task, s.last().event, reg).action,
        );
    }
}

/// A file is requested at most four times: once, and up to three times more. Before the retries
/// the transfer pauses for 1, 2 and 5 seconds, in this order, and never otherwise.
pub proof fn law_retries_are_bounded(
    task: TaskView,
    task_id: Seq<char>,
    path: Seq<char>,
    lang: Seq<char>,
    s: Seq<Happening>,
    reg: LangView,
)
    requires
        possible(TransferView::begun(task, task_id, path, lang).transfer, s, reg),
    ensures
        ({
            let actions = asked(TransferView::begun(task, task_id, path, lang).transfer, s, reg);
            &&& requests(actions) <= 4
            &&& pauses(actions).len() <= 3
            &&& pauses(actions) == seq![1u64, 2, 5].take(pauses(actions).len() as int)
        }),
{
    let t = TransferView::begun(task, task_id, path, lang).transfer;
    if task.cancelled {
        law_over_is_over(t, s, reg);
    } else {
        lemma_counted(t, s, reg);
    }
    let p = pauses(asked(t, s, reg));
    assert(p =~= seq![1u64, 2, 5].take(p.len() as int));
}

/// Whether an event is a passing failure: the request could not be sent, the server asked to come
/// back later or was at fault, or the body came to an untimely end.
pub open spec fn passing(t: TransferView, event: Event) -> bool {
    match event {
        Event::RequestFailed { .. } => true,
        Event::Replied { code, .. } => !is_success(code) && is_transient(code),
        Event::Flushed => t.fatal is Some,
        _ => false,
    }
}

/// A passing failure is followed by a pause and a new attempt as long as an attempt is left and
/// nobody cancels the task, whatever else happens to the task meanwhile. The new attempt looks at
/// the disk again and, unless everything is there, asks for what is missing.
pub proof fn law_retry_resumes(
    t: TransferView,
    failing: TaskView,
    event: Event,
    waking: TaskView,
    probing: TaskView,
    size: u64,
    token_file: Option<String>,
    reg: LangView,
)
    requires
        t.awaits(event),
        passing(t, event),
        t.attempt < 3,
        !failing.cancelled,
        !waking.cancelled,
        t.known_total == 0 || size < t.known_total,
    ensures
        ({
            let failed = t.next(failing, event, reg);
            let woken = failed.transfer.next(waking, Event::Woke, reg);
            let probe = Event::Probed { size, token_file };
            let probed = woken.transfer.next(probing, probe, reg);
            &&& failed.action == ActionView::Sleep(backoff_secs((t.attempt + 1) as u32))
            &&& failed.transfer.awaits(Event::Woke)
            &&& woken.action == ActionView::Probe
            &&& woken.transfer.awaits(probe)
            &&& probed.action == ActionView::Fetch(
                file_address(t.repo_id, t.repo_type, t.revision, t.endpoint, t.path),
                if size > 0 {
                    Some(range_from(size))
                } else {
                    None
                },
                stored_token(opt_text(token_file)),
            )
        }),
{
}

/// Every request, the first one and every retry, is for the file of the transfer, from the byte on
/// that the disk lacks, and goes with the stored token if and only if there is one.
pub proof fn law_requests_are_as_stored(
    t: TransferView,
    task: TaskView,
    event: Event,
    reg: LangView,
)
    requires
        t.awaits(event),
        t.next(task, event, reg).action is Fetch,
    ensures
        event matches Event::Probed { size, token_file } && t.next(task, event, reg).action
            == ActionView::Fetch(
            file_address(t.repo_id, t.repo_type, t.revision, t.endpoint, t.path),
            if size > 0 {
                Some(range_from(size))
            } else {
                None
            },
            stored_token(opt_text(token_file)),
        ),
{
}

// ---------------------------------------------------------------------------------------------
// The task
// ---------------------------------------------------------------------------------------------

/// A step changes nothing of the task but the row of its own file, and a row that was not there
/// does not come.
pub proof fn law_only_own_row_changes(
    t: TransferView,
    task: TaskView,
    event: Event,
    reg: LangView,
    other: Seq<char>,
)
    requires
        other != t.path,
    ensures
        ({
            let after = t.next(task, event, reg).task;
            &&& after.files.dom() == task.files.dom()
            &&& task.files.dom().contains(other) ==> after.files[other] == task.files[other]
            &&& after == (TaskView { files: after.files, ..task })
        }),
{
    let after = t.next(task, event, reg).task;
    assert(after.files.dom() =~= task.files.dom());
}

/// What a transfer fetches, and from where, stays the same from its beginning to its end.
pub proof fn law_source_is_fixed(t: TransferView, s: Seq<Happening>, reg: LangView)
    ensures
        ({
            let after = run(t, s, reg);
            &&& after.path == t.path
            &&& after.repo_id == t.repo_id
            &&& after.repo_type == t.repo_type
            &&& after.revision == t.revision
            &&& after.endpoint == t.endpoint
            &&& after.known_total == t.known_total
        }),
    decreases s.len(),
{
    if s.len() > 0 {
        law_source_is_fixed(t, s.drop_last(), reg);
    }
}

/// A transfer that stops leaves its row settled, and one that goes on leaves the status alone.
pub proof fn law_stopping_settles(t: TransferView, task: TaskView, event: Event, reg: LangView)
    requires
        t.awaits(event),
        task.files.dom().contains(t.path),
    ensures
        ({
            let o = t.next(task, event, reg);
            &&& (o.action is Stop) == (o.transfer.phase == Phase::Over)
            &&& o.action is Stop ==> o.task.files[t.path].status.settled()
            &&& !(o.action is Stop) ==> o.task.files[t.path].status == task.files[t.path].status
        }),
{
}

/// Once a transfer is over nothing more happens to it.
pub proof fn law_over_is_over(t: TransferView, s: Seq<Happening>, reg: LangView)
    requires
        t.phase == Phase::Over,
        possible(t, s, reg),
    ensures
        s.len() == 0,
    decreases s.len(),
{
    if s.len() > 0 {
        law_over_is_over(t, s.drop_last(), reg);
    }
}

/// The user interface is told that a task is done only when every file of it is settled, and only
/// by a transfer that stops.
pub proof fn law_done_means_settled(
    t: TransferView,
    task: TaskView,
    event: Event,
    reg: LangView,
    id: Seq<char>,
)
    requires
        t.next(task, event, reg).messages.contains(MsgView::Done(id)),
    ensures
        id == t.task_id,
        all_settled(t.next(task, event, reg).task.files),
        t.next(task, event, reg).action is Stop,
{
    let o = t.next(task, event, reg);
    let i = choose|i: int| 0 <= i < o.messages.len() && o.messages[i] == MsgView::Done(id);
    assert(o.messages[i] == MsgView::Done(id));
}

/// A transfer that stops reports the row of its file as it leaves it.
pub proof fn law_stopping_is_reported(
    t: TransferView,
    task: TaskView,
    event: Event,
    reg: LangView,
)
    requires
        task.files.dom().contains(t.path),
        t.next(task, event, reg).action is Stop,
    ensures
        t.next(task, event, reg).messages.contains(
            MsgView::File(t.next(task, event, reg).task.files[t.path]),
        ),
{
    let o = t.next(task, event, reg);
    let row = MsgView::File(o.task.files[t.path]);
    if o.messages.last() == row {
        assert(o.messages[o.messages.len() - 1] == row);
    } else {
        assert(o.messages[0] == row);
    }
}

// ---------------------------------------------------------------------------------------------
// Cancellation
// ---------------------------------------------------------------------------------------------

/// Whether the task is cancelled at every step of `s`.
pub open spec fn cancelled_throughout(s: Seq<Happening>) -> bool {
    forall|i: int| 0 <= i < s.len() ==> (#[trigger] s[i]).task.cancelled
}

/// How many steps a cancelled transfer has left at most.
spec fn left(phase: Phase) -> nat {
    match phase {
        Phase::Over => 0,
        Phase::Waiting | Phase::Opening | Phase::Flushing => 1,
        Phase::Asking | Phase::Writing => 2,
        Phase::Probing | Phase::Reading => 3,
    }
}

proof fn lemma_cancelled_step(t: TransferView, task: TaskView, event: Event, reg: LangView)
    requires
        t.awaits(event),
        task.cancelled,
    ensures
        left(t.next(task, event, reg).transfer.phase) < left(t.phase),
{
}

proof fn lemma_cancelled_run(t: TransferView, s: Seq<Happening>, reg: LangView)
    requires
        possible(t, s, reg),
        cancelled_throughout(s),
    ensures
        s.len() + left(run(t, s, reg).phase) <= left(t.phase),
    decreases s.len(),
{
    if s.len() > 0 {
        assert(cancelled_throughout(s.drop_last())) by {
            assert forall|i: int| 0 <= i < s.drop_last().len() implies (
            #[trigger] s.drop_last()[i]).task.cancelled by {
                assert(s[i].task.cancelled);
            }
        }
        lemma_cancelled_run(t, s.drop_last(), reg);
        assert(s[s.len() - 1].task.cancelled);
        lemma_cancelled_step(
            run(t, s.drop_last(), reg),
            s.last().task,
            s.last().event,
            reg,
        );
    }
}

/// A cancelled transfer stops within three steps.
pub proof fn law_cancelled_transfer_stops(t: TransferView, s: Seq<Happening>, reg: LangView)
    requires
        possible(t, s, reg),
        cancelled_throughout(s),
    ensures
        s.len() <= 3,
        s.len() == 3 ==> run(t, s, reg).phase == Phase::Over,
{
    lemma_cancelled_run(t, s, reg);
}

/// A cancelled transfer starts no new attempt, waits for no chunk, and does not call its file
/// done.
pub proof fn law_cancelled_transfer_gives_up(
    t: TransferView,
    task: TaskView,
    event: Event,
    reg: LangView,
)
    requires
        task.cancelled,
    ensures
        ({
            let o = t.next(task, event, reg);
            &&& !(o.action is Sleep)
            &&& !(o.action is Probe)
            &&& !(o.action is Read)
            &&& task.files.dom().contains(t.path) && task.files[t.path].status != FileStatus::Done
                ==> o.task.files[t.path].status != FileStatus::Done
        }),
{
}

/// A file that is cancelled by itself stops at the next chunk, unless that completes it, though
/// its task goes on.
pub proof fn law_single_file_stops(
    t: TransferView,
    task: TaskView,
    sample: Option<u64>,
    reg: LangView,
)
    requires
        t.phase == Phase::Writing,
        task.files.dom().contains(t.path),
        task.files[t.path].status == FileStatus::Cancelled,
        t.file_total == 0 || t.downloaded + t.pending < t.file_total,
        t.downloaded + t.pending <= u64::MAX,
    ensures
        ({
            let o = t.next(task, Event::Written { sample }, reg);
            &&& o.action is Stop
            &&& o.task.files[t.path].status == FileStatus::Cancelled
        }),
{
}

// ---------------------------------------------------------------------------------------------
// What is on disk
// ---------------------------------------------------------------------------------------------

/// Whether an event tells the truth about a file `blob` on the server and the bytes `disk` on the
/// disk. A partial reply carries what follows the bytes that were there, any other successful
/// reply the whole file; a length, where one is announced, is that of the body; a body that ends
/// was complete. That a partial reply carries just those bytes follows from what was asked for: see
/// [`crate::wire`], where the server knows nothing but the request.
pub open spec fn truthful(t: TransferView, blob: Seq<u8>, disk: Seq<u8>, event: Event) -> bool {
    match event {
        Event::Probed { size, .. } => size == disk.len(),
        Event::Replied { code, length, .. } => is_success(code) ==> {
            &&& code == 206 ==> t.existing <= blob.len()
            &&& length matches Some(n) ==> n == if code == 206 {
                blob.len() - t.existing
            } else {
                blob.len() as int
            }
        },
        Event::Chunk { len } => t.downloaded + len <= blob.len(),
        Event::Ended => t.downloaded == blob.len(),
        _ => true,
    }
}

/// The bytes on disk after an event. Of a chunk that could not be written, `kept` bytes may have
/// got there.
pub open spec fn disk_after(
    t: TransferView,
    blob: Seq<u8>,
    disk: Seq<u8>,
    event: Event,
    kept: nat,
) -> Seq<u8> {
    match event {
        Event::Opened => if t.resuming {
            disk
        } else {
            Seq::empty()
        },
        Event::Written { .. } => disk + blob.subrange(
            t.downloaded as int,
            t.downloaded + t.pending,
        ),
        Event::WriteFailed { .. } => disk + blob.subrange(
            t.downloaded as int,
            t.downloaded + kept,
        ),
        _ => disk,
    }
}

/// Whether the transfer's numbers fit the bytes on disk, which are the beginning of the file.
pub open spec fn in_step(t: TransferView, blob: Seq<u8>, disk: Seq<u8>) -> bool {
    &&& disk.len() <= blob.len()
    &&& disk == blob.take(disk.len() as int)
    &&& t.known_total == 0 || t.known_total == blob.len()
    &&& match t.phase {
        Phase::Probing | Phase::Waiting | Phase::Over => true,
        Phase::Asking => t.existing == disk.len(),
        Phase::Opening => {
            &&& t.downloaded == if t.resuming {
                disk.len()
            } else {
                0
            }
            &&& t.file_total == 0 || t.file_total == blob.len()
        },
        Phase::Reading => {
            &&& t.downloaded == disk.len()
            &&& t.file_total == 0 || t.file_total == blob.len()
        },
        Phase::Writing => {
            &&& t.downloaded == disk.len()
            &&& t.downloaded + t.pending <= blob.len()
            &&& t.file_total == 0 || t.file_total == blob.len()
        },
        Phase::Flushing => {
            &&& t.fatal is None ==> disk == blob && t.downloaded == blob.len()
            &&& t.file_total == 0 || t.file_total == blob.len()
        },
    }
}

/// However a download is interrupted, resumed or started afresh, the bytes on disk are always the
/// beginning of the file on the server.
#[verifier::rlimit(30)]
#[verifier::spinoff_prover]
pub proof fn law_disk_is_a_beginning(
    t: TransferView,
    task: TaskView,
    event: Event,
    reg: LangView,
    blob: Seq<u8>,
    disk: Seq<u8>,
    kept: nat,
)
    requires
        in_step(t, blob, disk),
        t.awaits(event),
        truthful(t, blob, disk, event),
        kept <= t.pending,
        blob.len() <= u64::MAX,
    ensures
        in_step(
            t.next(task, event, reg).transfer,
            blob,
            disk_after(t, blob, disk, event, kept),
        ),
{
    let after = disk_after(t, blob, disk, event, kept);
    assert(after =~= blob.take(after.len() as int));
    if after.len() == blob.len() {
        assert(after =~= blob);
    }
}

/// A file that a transfer calls done, or finds complete, is on disk byte for byte as it is on the
/// server, and its row gives its true size.
pub proof fn law_finished_file_is_whole(
    t: TransferView,
    task: TaskView,
    event: Event,
    reg: LangView,
    blob: Seq<u8>,
    disk: Seq<u8>,
)
    requires
        in_step(t, blob, disk),
        t.awaits(event),
        truthful(t, blob, disk, event),
        task.files.dom().contains(t.path),
        task.files[t.path].status == FileStatus::Downloading,
        t.next(task, event, reg).task.files[t.path].status == FileStatus::Done || t.next(
            task,
            event,
            reg,
        ).task.files[t.path].status == FileStatus::Exists,
    ensures
        disk == blob,
        t.next(task, event, reg).task.files[t.path].downloaded == blob.len(),
        t.next(task, event, reg).task.files[t.path].status == FileStatus::Done ==> t.next(
            task,
            event,
            reg,
        ).task.files[t.path].total == blob.len(),
{
    assert(blob.take(blob.len() as int) =~= blob);
}

/// A step of a run with the disk it is made on: what happened, the task at that moment, and how
/// much of a chunk got to the disk where it could not be written.
pub struct Scene {
    pub task: TaskView,
    pub event: Event,
    pub kept: nat,
}

/// A transfer and the bytes on disk.
pub struct Place {
    pub transfer: TransferView,
    pub disk: Seq<u8>,
}

/// Where the transfer and the disk stand after `s`.
pub open spec fn played(p: Place, blob: Seq<u8>, s: Seq<Scene>, reg: LangView) -> Place
    decreases s.len(),
{
    if s.len() == 0 {
        p
    } else {
        let q = played(p, blob, s.drop_last(), reg);
        let last = s.last();
        Place {
            transfer: q.transfer.next(last.task, last.event, reg).transfer,
            disk: disk_after(q.transfer, blob, q.disk, last.event, last.kept),
        }
    }
}

/// Whether `s` can happen: each event is waited for at its point and tells the truth.
pub open spec fn playable(p: Place, blob: Seq<u8>, s: Seq<Scene>, reg: LangView) -> bool
    decreases s.len(),
{
    s.len() == 0 || {
        let q = played(p, blob, s.drop_last(), reg);
        &&& playable(p, blob, s.drop_last(), reg)
        &&& q.transfer.awaits(s.last().event)
        &&& truthful(q.transfer, blob, q.disk, s.last().event)
        &&& s.last().kept <= q.transfer.pending
    }
}

/// A download that begins with some beginning of the file on disk, be it nothing, a part or all of
/// it, keeps the disk a beginning of the file throughout.
pub proof fn law_every_run_keeps_the_disk(
    task: TaskView,
    task_id: Seq<char>,
    path: Seq<char>,
    lang: Seq<char>,
    blob: Seq<u8>,
    disk: Seq<u8>,
    s: Seq<Scene>,
    reg: LangView,
)
    requires
        blob.len() <= u64::MAX,
        disk.len() <= blob.len(),
        disk == blob.take(disk.len() as int),
        task.files.dom().contains(path) ==> task.files[path].total == 0 || task.files[path].total
            == blob.len(),
        playable(
            Place { transfer: TransferView::begun(task, task_id, path, lang).transfer, disk },
            blob,
            s,
            reg,
        ),
    ensures
        ({
            let p = played(
                Place { transfer: TransferView::begun(task, task_id, path, lang).transfer, disk },
                blob,
                s,
                reg,
            );
            in_step(p.transfer, blob, p.disk)
        }),
    decreases s.len(),
{
    let p = Place { transfer: TransferView::begun(task, task_id, path, lang).transfer, disk };
    if s.len() > 0 {
        law_every_run_keeps_the_disk(
            task,
            task_id,
            path,
            lang,
            blob,
            disk,
            s.drop_last(),
            reg,
        );
        let q = played(p, blob, s.drop_last(), reg);
        law_disk_is_a_beginning(
            q.transfer,
            s.last().task,
            s.last().event,
            reg,
            blob,
            q.disk,
            s.last().kept,
        );
    }
}

// ---------------------------------------------------------------------------------------------
// Success
// ---------------------------------------------------------------------------------------------

/// A chunk: its size, the speed that is measured after it if the time for that has come, and the
/// task at that moment.
pub struct Piece {
    pub len: u64,
    pub sample: Option<u64>,
    pub task: TaskView,
}

/// The size of all `chunks` together.
pub open spec fn sum(chunks: Seq<Piece>) -> nat
    decreases chunks.len(),
{
    if chunks.len() == 0 {
        0
    } else {
        sum(chunks.drop_last()) + chunks.last().len as nat
    }
}

/// Whether a task goes on with `path`: nobody cancelled it, and the file is being fetched. Whatever
/// else the task holds, such as other files that are fetched at the same time, does not matter.
pub open spec fn at_work(task: TaskView, path: Seq<char>) -> bool {
    !task.cancelled && task.files.dom().contains(path) && task.files[path].status
        == FileStatus::Downloading
}

/// Where the transfer `t` stands when `chunks` came and were written, one after the other.
pub open spec fn fed(t: TransferView, chunks: Seq<Piece>, reg: LangView) -> TransferView
    decreases chunks.len(),
{
    if chunks.len() == 0 {
        t
    } else {
        let c = chunks.last();
        fed(t, chunks.drop_last(), reg).next(
            c.task,
            Event::Chunk { len: c.len },
            reg,
        ).transfer.next(c.task, Event::Written { sample: c.sample }, reg).transfer
    }
}

/// Whether the transfer `t` waits for each of `chunks` when it comes.
pub open spec fn waits_for(t: TransferView, chunks: Seq<Piece>, reg: LangView) -> bool
    decreases chunks.len(),
{
    chunks.len() == 0 || (waits_for(t, chunks.drop_last(), reg) && fed(
        t,
        chunks.drop_last(),
        reg,
    ).awaits(Event::Chunk { len: chunks.last().len }))
}

/// An attempt in which nothing goes wrong. Of the `len` bytes of the file, `have` are on disk. The
/// server sends the rest (`partial`) or, though it may have been asked for the rest, the whole
/// file, with or without announcing the length, in chunks of whatever sizes, and all is written.
/// The task may change between any two steps; `tasks` are those of the steps other than chunks.
pub struct Attempt {
    pub have: u64,
    pub len: u64,
    pub token_file: Option<String>,
    pub partial: bool,
    pub announced: bool,
    pub wording: String,
    pub chunks: Seq<Piece>,
    pub tasks: (TaskView, TaskView, TaskView, TaskView, TaskView),
}

impl Attempt {
    /// Whether this can happen to the file `path`, whose listed size is `known`, zero if unknown.
    /// A file that is all there is not fetched.
    pub open spec fn fits(self, path: Seq<char>, known: u64) -> bool {
        &&& known == 0 || known == self.len
        &&& self.have < self.len || (self.have == 0 && self.len == 0)
        &&& self.partial ==> self.have > 0
        &&& sum(self.chunks) == if self.partial {
            self.len - self.have
        } else {
            self.len as int
        }
        &&& forall|i: int|
            0 <= i < self.chunks.len() ==> (#[trigger] self.chunks[i]).len > 0 && at_work(
                self.chunks[i].task,
                path,
            )
        &&& at_work(self.tasks.0, path)
        &&& at_work(self.tasks.1, path)
        &&& at_work(self.tasks.2, path)
        &&& at_work(self.tasks.3, path)
        &&& at_work(self.tasks.4, path)
    }

    /// What the server replies.
    pub open spec fn reply(self) -> Event {
        Event::Replied {
            code: if self.partial {
                206
            } else {
                200
            },
            wording: self.wording,
            length: if !self.announced {
                None
            } else if self.partial {
                Some((self.len - self.have) as u64)
            } else {
                Some(self.len)
            },
        }
    }

    /// Where the transfer `t` stands when the body begins.
    pub open spec fn opened(self, t: TransferView, reg: LangView) -> TransferView {
        let probe = Event::Probed { size: self.have, token_file: self.token_file };
        t.next(self.tasks.0, probe, reg).transfer.next(
            self.tasks.1,
            self.reply(),
            reg,
        ).transfer.next(self.tasks.2, Event::Opened, reg).transfer
    }

    /// Where it stands when the body is over. A transfer that knows the size of the file stops
    /// reading when it has all; one that does not waits for the end of the body.
    pub open spec fn read(self, t: TransferView, reg: LangView) -> TransferView {
        let fed = fed(self.opened(t, reg), self.chunks, reg);
        if fed.awaits(Event::Ended) {
            fed.next(self.tasks.3, Event::Ended, reg).transfer
        } else {
            fed
        }
    }

    /// Whether the transfer `t` waits for every step of this at its point, stops after the last,
    /// and leaves the file done, with its true size.
    pub open spec fn succeeds(self, t: TransferView, reg: LangView) -> bool {
        let probe = Event::Probed { size: self.have, token_file: self.token_file };
        let probed = t.next(self.tasks.0, probe, reg).transfer;
        let replied = probed.next(self.tasks.1, self.reply(), reg).transfer;
        let end = self.read(t, reg).next(self.tasks.4, Event::Flushed, reg);
        &&& t.awaits(probe)
        &&& probed.awaits(self.reply())
        &&& replied.awaits(Event::Opened)
        &&& waits_for(self.opened(t, reg), self.chunks, reg)
        &&& self.read(t, reg).awaits(Event::Flushed)
        &&& end.action is Stop
        &&& end.task.files[t.path].status == FileStatus::Done
        &&& end.task.files[t.path].downloaded == self.len
        &&& end.task.files[t.path].total == self.len
    }
}

/// Whether a transfer that has `done` of `len` bytes goes on reading, or flushes if it knows that
/// it has all.
spec fn keeps_reading(t: TransferView, path: Seq<char>, done: int, len: u64) -> bool {
    &&& t.path == path
    &&& t.file_total == 0 || t.file_total == len
    &&& t.downloaded == done
    &&& if t.file_total == 0 || done < len {
        t.phase == Phase::Reading
    } else {
        t.phase == Phase::Flushing && t.fatal is None
    }
}

proof fn lemma_chunk_read(
    t: TransferView,
    path: Seq<char>,
    done: int,
    len: u64,
    c: Piece,
    reg: LangView,
)
    requires
        keeps_reading(t, path, done, len),
        c.len > 0,
        done + c.len <= len,
        at_work(c.task, path),
    ensures
        t.awaits(Event::Chunk { len: c.len }),
        keeps_reading(
            t.next(c.task, Event::Chunk { len: c.len }, reg).transfer.next(
                c.task,
                Event::Written { sample: c.sample },
                reg,
            ).transfer,
            path,
            done + c.len,
            len,
        ),
{
}

#[verifier::rlimit(30)]
#[verifier::spinoff_prover]
proof fn lemma_fed(
    t: TransferView,
    path: Seq<char>,
    done: int,
    len: u64,
    chunks: Seq<Piece>,
    reg: LangView,
)
    requires
        keeps_reading(t, path, done, len),
        forall|i: int|
            0 <= i < chunks.len() ==> (#[trigger] chunks[i]).len > 0 && at_work(
                chunks[i].task,
                path,
            ),
        done + sum(chunks) <= len,
    ensures
        waits_for(t, chunks, reg),
        keeps_reading(fed(t, chunks, reg), path, done + sum(chunks), len),
    decreases chunks.len(),
{
    if chunks.len() > 0 {
        let less = chunks.drop_last();
        assert(chunks[chunks.len() - 1].len > 0);
        assert forall|i: int| 0 <= i < less.len() implies (#[trigger] less[i]).len > 0 && at_work(
            less[i].task,
            path,
        ) by {
            assert(chunks[i].len > 0);
        }
        lemma_fed(t, path, done, len, less, reg);
        lemma_chunk_read(fed(t, less, reg), path, done + sum(less), len, chunks.last(), reg);
    }
}

proof fn lemma_asked(t: TransferView, attempt: Attempt, reg: LangView) -> (probed: TransferView)
    requires
        t.phase == Phase::Probing,
        attempt.fits(t.path, t.known_total),
    ensures
        ({
            let probe = Event::Probed { size: attempt.have, token_file: attempt.token_file };
            &&& t.awaits(probe)
            &&& probed == t.next(attempt.tasks.0, probe, reg).transfer
            &&& probed == (TransferView { existing: attempt.have, phase: Phase::Asking, ..t })
        }),
{
    let probe = Event::Probed { size: attempt.have, token_file: attempt.token_file };
    t.next(attempt.tasks.0, probe, reg).transfer
}

proof fn lemma_opened(t: TransferView, attempt: Attempt, from: int, reg: LangView)
    requires
        t.phase == Phase::Asking,
        t.existing == attempt.have,
        attempt.fits(t.path, t.known_total),
        from == if attempt.partial {
            attempt.have as int
        } else {
            0
        },
    ensures
        ({
            let replied = t.next(attempt.tasks.1, attempt.reply(), reg).transfer;
            &&& t.awaits(attempt.reply())
            &&& replied.awaits(Event::Opened)
            &&& keeps_reading(
                replied.next(attempt.tasks.2, Event::Opened, reg).transfer,
                t.path,
                from,
                attempt.len,
            )
        }),
{
}

proof fn lemma_ended(t: TransferView, task: TaskView, len: u64, reg: LangView)
    requires
        keeps_reading(t, t.path, len as int, len),
    ensures
        ({
            let u = if t.awaits(Event::Ended) {
                t.next(task, Event::Ended, reg).transfer
            } else {
                t
            };
            &&& u.phase == Phase::Flushing
            &&& u.fatal is None
            &&& u.path == t.path
            &&& u.downloaded == len
            &&& u.file_total == 0 || u.file_total == len
        }),
{
}

proof fn lemma_flushed(t: TransferView, task: TaskView, len: u64, reg: LangView)
    requires
        t.phase == Phase::Flushing,
        t.fatal is None,
        t.downloaded == len,
        t.file_total == 0 || t.file_total == len,
        at_work(task, t.path),
    ensures
        ({
            let end = t.next(task, Event::Flushed, reg);
            &&& t.awaits(Event::Flushed)
            &&& end.action is Stop
            &&& end.task.files[t.path].status == FileStatus::Done
            &&& end.task.files[t.path].downloaded == len
            &&& end.task.files[t.path].total == len
        }),
{
}

/// An attempt in which nothing goes wrong makes the file done, be it the first one or a later one,
/// and whatever happens to other files of the task meanwhile.
#[verifier::rlimit(30)]
#[verifier::spinoff_prover]
pub proof fn law_attempt_succeeds(t: TransferView, attempt: Attempt, reg: LangView)
    requires
        t.phase == Phase::Probing,
        attempt.fits(t.path, t.known_total),
    ensures
        attempt.succeeds(t, reg),
{
    let from = if attempt.partial {
        attempt.have as int
    } else {
        0
    };
    let probed = lemma_asked(t, attempt, reg);
    lemma_opened(probed, attempt, from, reg);
    let opened = attempt.opened(t, reg);
    assert(keeps_reading(opened, t.path, from, attempt.len));
    lemma_fed(opened, t.path, from, attempt.len, attempt.chunks, reg);
    lemma_ended(fed(opened, attempt.chunks, reg), attempt.tasks.3, attempt.len, reg);
    lemma_flushed(attempt.read(t, reg), attempt.tasks.4, attempt.len, reg);
}

/// A download whose first attempt goes well succeeds.
pub proof fn law_clean_download_succeeds(
    task: TaskView,
    task_id: Seq<char>,
    path: Seq<char>,
    lang: Seq<char>,
    attempt: Attempt,
    reg: LangView,
)
    requires
        !task.cancelled,
        attempt.fits(path, TransferView::initial(task, task_id, path, lang).known_total),
    ensures
        attempt.succeeds(TransferView::begun(task, task_id, path, lang).transfer, reg),
{
    law_attempt_succeeds(TransferView::begun(task, task_id, path, lang).transfer, attempt, reg);
}

/// A failed attempt: what happened in it, the passing failure that it ended with, and the task when
/// the pause after that was over.
pub struct Setback {
    pub before: Seq<Happening>,
    pub failure: Happening,
    pub waking: TaskView,
}

impl Setback {
    /// Whether this can happen to `t`. The task is not cancelled when the attempt fails, nor when
    /// the pause is over.
    pub open spec fn possible(self, t: TransferView, reg: LangView) -> bool {
        let u = run(t, self.before, reg);
        &&& possible(t, self.before, reg)
        &&& pauses(asked(t, self.before, reg)).len() == 0
        &&& u.awaits(self.failure.event)
        &&& passing(u, self.failure.event)
        &&& !self.failure.task.cancelled
        &&& !self.waking.cancelled
    }

    /// Where `t` stands after this.
    pub open spec fn after(self, t: TransferView, reg: LangView) -> TransferView {
        run(t, self.before, reg).next(
            self.failure.task,
            self.failure.event,
            reg,
        ).transfer.next(self.waking, Event::Woke, reg).transfer
    }
}

/// Where `t` stands after `setbacks`.
pub open spec fn set_back(t: TransferView, setbacks: Seq<Setback>, reg: LangView) -> TransferView
    decreases setbacks.len(),
{
    if setbacks.len() == 0 {
        t
    } else {
        setbacks.last().after(set_back(t, setbacks.drop_last(), reg), reg)
    }
}

/// Whether `setbacks` can happen to `t`, one after the other.
pub open spec fn may_set_back(t: TransferView, setbacks: Seq<Setback>, reg: LangView) -> bool
    decreases setbacks.len(),
{
    setbacks.len() == 0 || (may_set_back(t, setbacks.drop_last(), reg)
        && setbacks.last().possible(set_back(t, setbacks.drop_last(), reg), reg))
}

proof fn lemma_attempt_kept(t: TransferView, s: Seq<Happening>, reg: LangView)
    requires
        possible(t, s, reg),
        t.attempt < MAX_ATTEMPTS,
        pauses(asked(t, s, reg)).len() == 0,
    ensures
        run(t, s, reg).attempt == t.attempt,
    decreases s.len(),
{
    if s.len() > 0 {
        let before = asked(t, s.drop_last(), reg);
        assert(asked(t, s, reg).drop_last() =~= before);
        lemma_attempt_kept(t, s.drop_last(), reg);
        lemma_step_counts(run(t, s.drop_last(), reg), s.last().task, s.last().event, reg);
    }
}

#[verifier::rlimit(30)]
#[verifier::spinoff_prover]
proof fn lemma_setback(t: TransferView, f: Setback, reg: LangView)
    requires
        f.possible(t, reg),
        t.attempt < 3,
    ensures
        f.after(t, reg).phase == Phase::Probing,
        f.after(t, reg).attempt == t.attempt + 1,
        f.after(t, reg).path == t.path,
        f.after(t, reg).known_total == t.known_total,
{
    let u = run(t, f.before, reg);
    lemma_attempt_kept(t, f.before, reg);
    law_source_is_fixed(t, f.before, reg);
    let failed = u.next(f.failure.task, f.failure.event, reg);
    assert(failed.transfer.phase == Phase::Waiting);
}

proof fn lemma_set_back(t: TransferView, setbacks: Seq<Setback>, reg: LangView)
    requires
        t.phase == Phase::Probing,
        t.attempt == 0,
        setbacks.len() <= 3,
        may_set_back(t, setbacks, reg),
    ensures
        set_back(t, setbacks, reg).phase == Phase::Probing,
        set_back(t, setbacks, reg).attempt == setbacks.len(),
        set_back(t, setbacks, reg).path == t.path,
        set_back(t, setbacks, reg).known_total == t.known_total,
    decreases setbacks.len(),
{
    if setbacks.len() > 0 {
        lemma_set_back(t, setbacks.drop_last(), reg);
        lemma_setback(set_back(t, setbacks.drop_last(), reg), setbacks.last(), reg);
    }
}

/// A download succeeds though up to three attempts failed in passing, at whatever point, if the
/// next one goes well.
pub proof fn law_download_succeeds_after_setbacks(
    task: TaskView,
    task_id: Seq<char>,
    path: Seq<char>,
    lang: Seq<char>,
    setbacks: Seq<Setback>,
    attempt: Attempt,
    reg: LangView,
)
    requires
        !task.cancelled,
        setbacks.len() <= 3,
        may_set_back(TransferView::begun(task, task_id, path, lang).transfer, setbacks, reg),
        attempt.fits(path, TransferView::initial(task, task_id, path, lang).known_total),
    ensures
        attempt.succeeds(
            set_back(TransferView::begun(task, task_id, path, lang).transfer, setbacks, reg),
            reg,
        ),
{
    let t = TransferView::begun(task, task_id, path, lang).transfer;
    lemma_set_back(t, setbacks, reg);
    law_attempt_succeeds(set_back(t, setbacks, reg), attempt, reg);
}

/// A file that is all there, by its listed size, is not fetched: an attempt that finds it stops.
pub proof fn law_complete_file_is_found(
    t: TransferView,
    task: TaskView,
    size: u64,
    token_file: Option<String>,
    reg: LangView,
)
    requires
        t.phase == Phase::Probing,
        task.files.dom().contains(t.path),
        0 < t.known_total <= size,
    ensures
        ({
            let o = t.next(task, Event::Probed { size, token_file }, reg);
            &&& t.awaits(Event::Probed { size, token_file })
            &&& o.action is Stop
            &&& o.task.files[t.path].status == FileStatus::Exists
            &&& o.task.files[t.path].downloaded == size
        }),
{
}

} // verus!
