//! Transfers between a server that keeps a file and a disk that it comes to.
//!
//! The server and the disk know nothing of a transfer but what it asks for. What a reply carries
//! follows from the request, and what gets to the disk from what the server sent.

use vstd::prelude::*;
use crate::addresses::{first_byte, law_range_reads_back};
use crate::download::{FileStatus, TaskView};
use crate::hf_api::is_success;
use crate::i18n::LangView;
use crate::runs::{disk_after, in_step, law_disk_is_a_beginning, truthful, Scene};
use crate::transfer::{range_from, ActionView, Event, Phase, TransferView};

verus! {

/// The server and the disk.
pub struct World {
    /// The bytes of the file on disk.
    pub disk: Seq<u8>,
    /// What the transfer asked for last.
    pub asked: ActionView,
    /// Which byte of the file the server sends next.
    pub position: nat,
    /// The chunk that came last.
    pub chunk: Seq<u8>,
}

/// Whether an event is an answer to what was asked for.
pub open spec fn answers(asked: ActionView, event: Event) -> bool {
    match asked {
        ActionView::Probe => event is Probed,
        ActionView::Fetch(..) => event is RequestFailed || event is Replied,
        ActionView::Append | ActionView::Create => event is Opened || event is OpenFailed,
        ActionView::Read => event is Chunk || event is EmptyChunk || event is Interrupted || event
            is Ended,
        ActionView::Write => event is Written || event is WriteFailed,
        ActionView::Flush => event is Flushed,
        ActionView::Sleep(_) => event is Woke,
        ActionView::Stop => false,
    }
}

/// The byte of the file with which the body of a successful reply begins: the one that was asked
/// for in a partial reply, the first one in any other. A partial reply is one to a request for a
/// part.
pub open spec fn body_begins(asked: ActionView, code: u16) -> Option<nat> {
    if code != 206 {
        Some(0)
    } else {
        match asked {
            ActionView::Fetch(_, Some(range), _) => first_byte(range),
            _ => None,
        }
    }
}

impl World {
    /// Whether `event` can happen where the server keeps `blob`. What is measured on disk is what
    /// is there; a reply carries a part of the file that there is, and announces its length if any;
    /// chunks are taken from the body; the body ends where the file ends.
    pub open spec fn allows(self, blob: Seq<u8>, event: Event, kept: nat) -> bool {
        &&& answers(self.asked, event)
        &&& match event {
            Event::Probed { size, .. } => size == self.disk.len(),
            Event::Replied { code, length, .. } => is_success(code) ==> {
                &&& body_begins(self.asked, code) matches Some(from)
                &&& from <= blob.len()
                &&& length matches Some(n) ==> n == blob.len() - from
            },
            Event::Chunk { len } => 0 < len && self.position + len <= blob.len(),
            Event::Ended => self.position == blob.len(),
            Event::WriteFailed { .. } => kept <= self.chunk.len(),
            _ => true,
        }
    }

    /// What `event` makes of the server and the disk; the transfer then asks for `asked`. Of a
    /// chunk that could not be written, `kept` bytes got to the disk.
    pub open spec fn after(
        self,
        blob: Seq<u8>,
        event: Event,
        kept: nat,
        asked: ActionView,
    ) -> World {
        let w = World { asked, ..self };
        match event {
            Event::Replied { code, .. } => World {
                position: if is_success(code) && body_begins(self.asked, code) is Some {
                    body_begins(self.asked, code)->0
                } else {
                    0
                },
                ..w
            },
            Event::Opened => World {
                disk: if self.asked is Create {
                    Seq::empty()
                } else {
                    self.disk
                },
                ..w
            },
            Event::Chunk { len } => World {
                chunk: blob.subrange(self.position as int, self.position + len),
                position: self.position + len as nat,
                ..w
            },
            Event::Written { .. } => World { disk: self.disk + self.chunk, ..w },
            Event::WriteFailed { .. } => World { disk: self.disk + self.chunk.take(kept as int), ..w },
            _ => w,
        }
    }
}

/// A transfer and the world that it runs in.
pub struct Scenery {
    pub transfer: TransferView,
    pub world: World,
}

/// Where the transfer of `path` and its world stand after `s`. At the beginning `disk` is on disk.
pub open spec fn unfolded(
    task: TaskView,
    task_id: Seq<char>,
    path: Seq<char>,
    lang: Seq<char>,
    blob: Seq<u8>,
    disk: Seq<u8>,
    s: Seq<Scene>,
    reg: LangView,
) -> Scenery
    decreases s.len(),
{
    if s.len() == 0 {
        let o = TransferView::begun(task, task_id, path, lang);
        Scenery {
            transfer: o.transfer,
            world: World { disk, asked: o.action, position: 0, chunk: Seq::empty() },
        }
    } else {
        let before = unfolded(task, task_id, path, lang, blob, disk, s.drop_last(), reg);
        let last = s.last();
        let o = before.transfer.next(last.task, last.event, reg);
        Scenery {
            transfer: o.transfer,
            world: before.world.after(blob, last.event, last.kept, o.action),
        }
    }
}

/// Whether `s` can happen: the world allows each event at its point.
pub open spec fn can_unfold(
    task: TaskView,
    task_id: Seq<char>,
    path: Seq<char>,
    lang: Seq<char>,
    blob: Seq<u8>,
    disk: Seq<u8>,
    s: Seq<Scene>,
    reg: LangView,
) -> bool
    decreases s.len(),
{
    s.len() == 0 || {
        &&& can_unfold(task, task_id, path, lang, blob, disk, s.drop_last(), reg)
        &&& unfolded(task, task_id, path, lang, blob, disk, s.drop_last(), reg).world.allows(
            blob,
            s.last().event,
            s.last().kept,
        )
    }
}

/// Whether bytes are the beginning of a file, be it nothing, a part or all of it.
pub open spec fn begins(disk: Seq<u8>, blob: Seq<u8>) -> bool {
    disk.len() <= blob.len() && disk == blob.take(disk.len() as int)
}

/// How the numbers of a transfer fit the world.
spec fn fits(t: TransferView, w: World, blob: Seq<u8>) -> bool {
    &&& in_step(t, blob, w.disk)
    &&& match t.phase {
        Phase::Probing => w.asked is Probe,
        Phase::Asking => w.asked matches ActionView::Fetch(_, range, _) && range == if t.existing
            > 0 {
            Some(range_from(t.existing))
        } else {
            None
        },
        Phase::Opening => w.asked == (if t.resuming {
            ActionView::Append
        } else {
            ActionView::Create
        }) && w.position == t.downloaded,
        Phase::Reading => w.asked is Read && w.position == t.downloaded,
        Phase::Writing => {
            &&& w.asked is Write
            &&& w.position == t.downloaded + t.pending
            &&& w.chunk == blob.subrange(t.downloaded as int, t.downloaded + t.pending)
        },
        Phase::Flushing => w.asked is Flush && t.downloaded <= w.disk.len(),
        Phase::Waiting => w.asked is Sleep,
        Phase::Over => w.asked is Stop,
    }
}

proof fn lemma_allowed_is_awaited(t: TransferView, w: World, blob: Seq<u8>, event: Event, kept: nat)
    requires
        fits(t, w, blob),
        w.allows(blob, event, kept),
        blob.len() <= u64::MAX,
    ensures
        t.awaits(event),
        truthful(t, blob, w.disk, event),
        event is WriteFailed ==> kept <= t.pending,
{
    if t.phase == Phase::Asking {
        law_range_reads_back(t.existing);
    }
}

proof fn lemma_same_disk(
    t: TransferView,
    w: World,
    blob: Seq<u8>,
    event: Event,
    kept: nat,
    asked: ActionView,
)
    requires
        fits(t, w, blob),
        w.allows(blob, event, kept),
        blob.len() <= u64::MAX,
    ensures
        w.after(blob, event, kept, asked).disk == disk_after(t, blob, w.disk, event, kept),
{
    if event is WriteFailed {
        assert(w.chunk.take(kept as int) =~= blob.subrange(
            t.downloaded as int,
            t.downloaded + kept,
        ));
    }
}

#[verifier::rlimit(30)]
#[verifier::spinoff_prover]
proof fn lemma_still_fits(
    t: TransferView,
    w: World,
    blob: Seq<u8>,
    task: TaskView,
    event: Event,
    kept: nat,
    reg: LangView,
)
    requires
        fits(t, w, blob),
        w.allows(blob, event, kept),
        blob.len() <= u64::MAX,
    ensures
        ({
            let o = t.next(task, event, reg);
            fits(o.transfer, w.after(blob, event, kept, o.action), blob)
        }),
{
    lemma_allowed_is_awaited(t, w, blob, event, kept);
    let o = t.next(task, event, reg);
    lemma_same_disk(t, w, blob, event, kept, o.action);
    let k = if event is WriteFailed {
        kept
    } else {
        0
    };
    law_disk_is_a_beginning(t, task, event, reg, blob, w.disk, k);
    if t.phase == Phase::Asking {
        law_range_reads_back(t.existing);
    }
}

proof fn lemma_fits(
    task: TaskView,
    task_id: Seq<char>,
    path: Seq<char>,
    lang: Seq<char>,
    blob: Seq<u8>,
    disk: Seq<u8>,
    s: Seq<Scene>,
    reg: LangView,
)
    requires
        blob.len() <= u64::MAX,
        begins(disk, blob),
        task.files.dom().contains(path) ==> task.files[path].total == 0 || task.files[path].total
            == blob.len(),
        can_unfold(task, task_id, path, lang, blob, disk, s, reg),
    ensures
        ({
            let now = unfolded(task, task_id, path, lang, blob, disk, s, reg);
            &&& fits(now.transfer, now.world, blob)
            &&& now.transfer.path == path
        }),
    decreases s.len(),
{
    if s.len() > 0 {
        lemma_fits(task, task_id, path, lang, blob, disk, s.drop_last(), reg);
        let before = unfolded(task, task_id, path, lang, blob, disk, s.drop_last(), reg);
        lemma_still_fits(
            before.transfer,
            before.world,
            blob,
            s.last().task,
            s.last().event,
            s.last().kept,
            reg,
        );
    }
}

/// However a download is interrupted, resumed or started afresh, and whatever else happens to its
/// task, the bytes on disk are always a beginning of the file that the server keeps. Each reply is
/// written where it belongs: the bytes that a partial reply brings are those behind the ones that
/// are there, because those were asked for.
pub proof fn law_disk_stays_a_beginning(
    task: TaskView,
    task_id: Seq<char>,
    path: Seq<char>,
    lang: Seq<char>,
    blob: Seq<u8>,
    disk: Seq<u8>,
    s: Seq<Scene>,
    reg: LangView,
)
    requires
        blob.len() <= u64::MAX,
        begins(disk, blob),
        task.files.dom().contains(path) ==> task.files[path].total == 0 || task.files[path].total
            == blob.len(),
        can_unfold(task, task_id, path, lang, blob, disk, s, reg),
    ensures
        begins(unfolded(task, task_id, path, lang, blob, disk, s, reg).world.disk, blob),
{
    lemma_fits(task, task_id, path, lang, blob, disk, s, reg);
}

/// A transfer waits for every answer to what it asked for, as long as it is not over.
pub proof fn law_every_answer_is_waited_for(
    task: TaskView,
    task_id: Seq<char>,
    path: Seq<char>,
    lang: Seq<char>,
    blob: Seq<u8>,
    disk: Seq<u8>,
    s: Seq<Scene>,
    reg: LangView,
    event: Event,
    kept: nat,
)
    requires
        blob.len() <= u64::MAX,
        begins(disk, blob),
        task.files.dom().contains(path) ==> task.files[path].total == 0 || task.files[path].total
            == blob.len(),
        can_unfold(task, task_id, path, lang, blob, disk, s, reg),
        unfolded(task, task_id, path, lang, blob, disk, s, reg).world.allows(blob, event, kept),
    ensures
        unfolded(task, task_id, path, lang, blob, disk, s, reg).transfer.awaits(event),
{
    lemma_fits(task, task_id, path, lang, blob, disk, s, reg);
    let now = unfolded(task, task_id, path, lang, blob, disk, s, reg);
    lemma_allowed_is_awaited(now.transfer, now.world, blob, event, kept);
}

/// A transfer waits for nothing but answers to what it asked for.
pub proof fn law_only_answers_are_waited_for(
    task: TaskView,
    task_id: Seq<char>,
    path: Seq<char>,
    lang: Seq<char>,
    blob: Seq<u8>,
    disk: Seq<u8>,
    s: Seq<Scene>,
    reg: LangView,
    event: Event,
)
    requires
        blob.len() <= u64::MAX,
        begins(disk, blob),
        task.files.dom().contains(path) ==> task.files[path].total == 0 || task.files[path].total
            == blob.len(),
        can_unfold(task, task_id, path, lang, blob, disk, s, reg),
        unfolded(task, task_id, path, lang, blob, disk, s, reg).transfer.awaits(event),
    ensures
        answers(unfolded(task, task_id, path, lang, blob, disk, s, reg).world.asked, event),
{
    lemma_fits(task, task_id, path, lang, blob, disk, s, reg);
}

/// A partial reply begins exactly where the disk ends, and is appended; before any other reply the
/// file is emptied.
pub proof fn law_partial_reply_begins_where_the_disk_ends(
    task: TaskView,
    task_id: Seq<char>,
    path: Seq<char>,
    lang: Seq<char>,
    blob: Seq<u8>,
    disk: Seq<u8>,
    s: Seq<Scene>,
    reg: LangView,
    now: TaskView,
    code: u16,
    wording: String,
    length: Option<u64>,
)
    requires
        blob.len() <= u64::MAX,
        begins(disk, blob),
        task.files.dom().contains(path) ==> task.files[path].total == 0 || task.files[path].total
            == blob.len(),
        can_unfold(task, task_id, path, lang, blob, disk, s, reg),
        is_success(code),
        unfolded(task, task_id, path, lang, blob, disk, s, reg).world.allows(
            blob,
            (Event::Replied { code, wording, length }),
            0,
        ),
    ensures
        ({
            let before = unfolded(task, task_id, path, lang, blob, disk, s, reg);
            let event = Event::Replied { code, wording, length };
            let o = before.transfer.next(now, event, reg);
            &&& code == 206 ==> body_begins(before.world.asked, code) == Some(
                before.world.disk.len(),
            ) && o.action == ActionView::Append
            &&& code != 206 ==> o.action == ActionView::Create
        }),
{
    lemma_fits(task, task_id, path, lang, blob, disk, s, reg);
    let before = unfolded(task, task_id, path, lang, blob, disk, s, reg);
    law_range_reads_back(before.transfer.existing);
}

#[verifier::spinoff_prover]
proof fn lemma_done_is_whole(
    t: TransferView,
    w: World,
    blob: Seq<u8>,
    task: TaskView,
    event: Event,
    kept: nat,
    reg: LangView,
)
    requires
        fits(t, w, blob),
        t.awaits(event),
        truthful(t, blob, w.disk, event),
        task.files.dom().contains(t.path),
        task.files[t.path].total == 0 || task.files[t.path].total == blob.len(),
        task.files[t.path].status == FileStatus::Downloading,
    ensures
        ({
            let o = t.next(task, event, reg);
            let row = o.task.files[t.path];
            row.status == FileStatus::Done || row.status == FileStatus::Exists ==> {
                &&& w.after(blob, event, kept, o.action).disk == blob
                &&& row.downloaded == blob.len()
                &&& row.total == blob.len()
            }
        }),
{
    assert(blob.take(blob.len() as int) =~= blob);
}

/// When a step first calls a file done, or finds it complete, every byte of it is on disk as the
/// server keeps it, and the row tells its true size.
pub proof fn law_called_done_is_whole(
    task: TaskView,
    task_id: Seq<char>,
    path: Seq<char>,
    lang: Seq<char>,
    blob: Seq<u8>,
    disk: Seq<u8>,
    s: Seq<Scene>,
    reg: LangView,
)
    requires
        blob.len() <= u64::MAX,
        begins(disk, blob),
        task.files.dom().contains(path) ==> task.files[path].total == 0 || task.files[path].total
            == blob.len(),
        s.len() > 0,
        can_unfold(task, task_id, path, lang, blob, disk, s, reg),
        s.last().task.files.dom().contains(path),
        s.last().task.files[path].total == 0 || s.last().task.files[path].total == blob.len(),
        s.last().task.files[path].status == FileStatus::Downloading,
    ensures
        ({
            let before = unfolded(task, task_id, path, lang, blob, disk, s.drop_last(), reg);
            let after = unfolded(task, task_id, path, lang, blob, disk, s, reg);
            let row = before.transfer.next(s.last().task, s.last().event, reg).task.files[path];
            row.status == FileStatus::Done || row.status == FileStatus::Exists ==> {
                &&& after.world.disk == blob
                &&& row.downloaded == blob.len()
                &&& row.total == blob.len()
            }
        }),
{
    lemma_fits(task, task_id, path, lang, blob, disk, s.drop_last(), reg);
    let before = unfolded(task, task_id, path, lang, blob, disk, s.drop_last(), reg);
    lemma_allowed_is_awaited(
        before.transfer,
        before.world,
        blob,
        s.last().event,
        s.last().kept,
    );
    lemma_done_is_whole(
        before.transfer,
        before.world,
        blob,
        s.last().task,
        s.last().event,
        s.last().kept,
        reg,
    );
}

/// The row of a file never tells of more than is on disk; after a chunk was written, it tells of
/// exactly what is there if it tells anything new.
pub proof fn law_row_tells_what_is_there(
    task: TaskView,
    task_id: Seq<char>,
    path: Seq<char>,
    lang: Seq<char>,
    blob: Seq<u8>,
    disk: Seq<u8>,
    s: Seq<Scene>,
    reg: LangView,
)
    requires
        blob.len() <= u64::MAX,
        begins(disk, blob),
        task.files.dom().contains(path) ==> task.files[path].total == 0 || task.files[path].total
            == blob.len(),
        s.len() > 0,
        can_unfold(task, task_id, path, lang, blob, disk, s, reg),
        s.last().task.files.dom().contains(path),
    ensures
        ({
            let before = unfolded(task, task_id, path, lang, blob, disk, s.drop_last(), reg);
            let there = unfolded(task, task_id, path, lang, blob, disk, s, reg).world.disk.len();
            let told = before.transfer.next(s.last().task, s.last().event, reg).task.files[path];
            told.downloaded != s.last().task.files[path].downloaded ==> {
                &&& told.downloaded <= there
                &&& s.last().event is Written ==> told.downloaded == there
            }
        }),
{
    lemma_fits(task, task_id, path, lang, blob, disk, s.drop_last(), reg);
    lemma_fits(task, task_id, path, lang, blob, disk, s, reg);
    let before = unfolded(task, task_id, path, lang, blob, disk, s.drop_last(), reg);
    lemma_allowed_is_awaited(
        before.transfer,
        before.world,
        blob,
        s.last().event,
        s.last().kept,
    );
}

} // verus!
