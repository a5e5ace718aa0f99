//! The download engine: the registry of tasks with what the user can ask of it.

use vstd::prelude::*;
use crate::download::{
    law_start_takes_up, sized, start_downloads, started, taken_up, waiting, DownloadTask, FileState,
    FileStatus, FileView, ManagerView, TaskManager, TaskView,
};
use crate::hf_api::{
    entries, stored_token, EntryView, FileEntry, RepoInfo, RepoView, TokenStatus, TokenView,
};
use crate::i18n::{LangRegistry, LangView};
use crate::runs::{
    law_download_succeeds_after_setbacks, may_set_back, set_back, Attempt, Setback,
};
use crate::text::{opt_text, texts};
use crate::transfer::{
    file_address, range_from, set_status, ActionView, Event, Outcome, Phase, Step, Transfer,
    TransferView,
};

verus! {

// ---------------------------------------------------------------------------------------------
// Messages
// ---------------------------------------------------------------------------------------------

/// What workers tell the user interface.
pub enum UiMsg {
    /// A file moved on.
    File(FileState),
    /// A whole task finished.
    Done { task_id: String },
    /// The files of a repository were listed.
    RepoListed { info: RepoInfo, entries: Vec<FileEntry> },
    /// A request failed.
    ApiError(String),
    /// The token was checked.
    TokenChecked(TokenStatus),
}

/// What a message says.
pub enum MsgView {
    File(FileView),
    Done(Seq<char>),
    RepoListed(RepoView, Seq<EntryView>),
    ApiError(Seq<char>),
    TokenChecked(TokenView),
}

impl View for UiMsg {
    type V = MsgView;

    open spec fn view(&self) -> MsgView {
        match *self {
            UiMsg::File(f) => MsgView::File(f@),
            UiMsg::Done { task_id } => MsgView::Done(task_id@),
            UiMsg::RepoListed { info, entries: e } => MsgView::RepoListed(info@, entries(e@)),
            UiMsg::ApiError(e) => MsgView::ApiError(e@),
            UiMsg::TokenChecked(s) => MsgView::TokenChecked(s@),
        }
    }
}

/// What a list of messages says.
pub open spec fn said(v: Seq<UiMsg>) -> Seq<MsgView> {
    Seq::new(v.len(), |i: int| v[i]@)
}

// ---------------------------------------------------------------------------------------------
// The engine
// ---------------------------------------------------------------------------------------------

/// All downloads of this run. Whoever runs a transfer keeps its [`Transfer`] and the handle of its
/// task, and comes back with every event.
pub struct DownloadEngine {
    manager: TaskManager,
}

impl View for DownloadEngine {
    type V = ManagerView;

    closed spec fn view(&self) -> ManagerView {
        self.manager@
    }
}

impl ManagerView {
    /// The registry without tasks.
    pub open spec fn nothing() -> ManagerView {
        ManagerView { ids: Seq::empty(), tasks: Map::empty() }
    }

    /// The registry with `t` in place of the task of `id`, if there is one.
    pub open spec fn changed(self, id: Seq<char>, t: TaskView) -> ManagerView {
        if self.tasks.dom().contains(id) {
            self.with_task(id, t)
        } else {
            self
        }
    }

    /// The registry after the task `id` was cancelled.
    pub open spec fn cancelled(self, id: Seq<char>) -> ManagerView {
        self.changed(id, TaskView { cancelled: true, ..self.tasks[id] })
    }

    /// The task `id` as a retry in the given place finds it: no longer cancelled.
    pub open spec fn relocated(
        self,
        id: Seq<char>,
        endpoint: Seq<char>,
        target_dir: Seq<char>,
    ) -> TaskView {
        TaskView { cancelled: false, endpoint, target_dir, ..self.tasks[id] }
    }

    /// What a retry of `path` starts: this one file, with the size that is known of it.
    pub open spec fn retry_list(self, id: Seq<char>, path: Seq<char>) -> Seq<(Seq<char>, u64)> {
        seq![
            (
                path,
                if self.tasks[id].files.dom().contains(path) {
                    self.tasks[id].files[path].total
                } else {
                    0
                },
            ),
        ]
    }
}

/// What a start or a retry gives: the handle of the task, and the files to be fetched now.
pub struct Job {
    pub task: usize,
    pub paths: Vec<String>,
}

/// What happens when the turn of `path` comes: its transfer begins, or is given up if the file was
/// cancelled while it waited.
pub open spec fn admitted(
    task: TaskView,
    task_id: Seq<char>,
    path: Seq<char>,
    lang: Seq<char>,
) -> Outcome {
    if task.files.dom().contains(path) && task.files[path].status == FileStatus::Cancelled {
        TransferView::declined(task, task_id, path, lang)
    } else {
        TransferView::begun(task, task_id, path, lang)
    }
}

/// Whether the engine went from `before` to `after` by a step that did what `o` says to the task
/// behind `h`.
pub open spec fn stepped(
    o: Outcome,
    before: ManagerView,
    after: ManagerView,
    h: usize,
    transfer: Transfer,
    step: Step,
) -> bool {
    &&& transfer@ == o.transfer
    &&& after == before.with_task(before.ids[h as int], o.task)
    &&& said(step.messages@) == o.messages
    &&& step.action@ == o.action
}

impl DownloadEngine {
    /// An engine without tasks.
    pub fn new() -> (r: Self)
        ensures
            r@ == ManagerView::nothing(),
    {
        DownloadEngine { manager: TaskManager::new() }
    }

    /// Whether `h` is the handle of a task.
    pub fn has(&self, h: usize) -> (r: bool)
        ensures
            r == self@.has_handle(h as int),
    {
        self.manager.has(h)
    }

    /// The task behind a handle.
    pub fn task(&self, h: usize) -> (r: &DownloadTask)
        requires
            self@.has_handle(h as int),
        ensures
            r@ == self@.at(h as int),
    {
        self.manager.task(h)
    }

    /// The task behind a handle, to be changed in place.
    pub fn task_mut(&mut self, h: usize) -> (r: &mut DownloadTask)
        requires
            old(self)@.has_handle(h as int),
        ensures
            r@ == old(self)@.at(h as int),
            final(self)@ == old(self)@.with_task(old(self)@.ids[h as int], final(r)@),
    {
        self.manager.task_mut(h)
    }

    /// Registers the files of a task, with its newest settings, and says which of them are to be
    /// fetched now.
    pub fn start(
        &mut self,
        task_id: &str,
        repo_id: &str,
        repo_type: &str,
        revision: &str,
        target_dir: &str,
        endpoint: &str,
        file_paths: &Vec<(String, u64)>,
    ) -> (r: Job)
        ensures
            ({
                let t = old(self)@.registered(
                    task_id@,
                    repo_id@,
                    repo_type@,
                    revision@,
                    target_dir@,
                    endpoint@,
                );
                &&& final(self)@ == old(self)@.with_task(task_id@, started(t, sized(file_paths@)))
                &&& texts(r.paths@) == taken_up(t, sized(file_paths@))
            }),
            final(self)@.has_handle(r.task as int),
            final(self)@.ids[r.task as int] == task_id@,
    {
        let task: usize = self.manager.get_or_create(
            task_id,
            repo_id,
            repo_type,
            revision,
            target_dir,
            endpoint,
        );
        let t = self.manager.task_mut(task);
        let paths = start_downloads(t, file_paths);
        Job { task, paths }
    }

    /// Cancels a task. Its transfers stop at their next checkpoint.
    pub fn cancel(&mut self, task_id: &str)
        ensures
            final(self)@ == old(self)@.cancelled(task_id@),
    {
        match self.manager.find(task_id) {
            Some(h) => {
                let t = self.manager.task_mut(h);
                t.cancelled = true;
            },
            None => {},
        }
    }

    /// Stops all files of a task. They can be retried, and a new start goes on with them.
    pub fn pause_all(&mut self, task_id: &str)
        ensures
            final(self)@ == old(self)@.cancelled(task_id@),
    {
        self.cancel(task_id);
    }

    /// Stops one file of a task, whether it is being fetched or waits for its turn; the others go
    /// on.
    pub fn pause_file(&mut self, task_id: &str, file_path: &str)
        ensures
            final(self)@ == old(self)@.changed(
                task_id@,
                old(self)@.tasks[task_id@].with_status(file_path@, FileStatus::Cancelled),
            ),
    {
        match self.manager.find(task_id) {
            Some(h) => {
                let t = self.manager.task_mut(h);
                set_status(t, file_path, FileStatus::Cancelled);
            },
            None => {},
        }
    }

    /// Takes up one file again, from the given place. Nothing happens if there is no such task.
    pub fn retry(&mut self, task_id: &str, file_path: &str, endpoint: &str, target_dir: &str) -> (r:
        Option<Job>)
        ensures
            r is Some == old(self)@.tasks.dom().contains(task_id@),
            r is None ==> final(self)@ == old(self)@,
            r matches Some(job) ==> {
                let t = old(self)@.relocated(task_id@, endpoint@, target_dir@);
                let files = old(self)@.retry_list(task_id@, file_path@);
                &&& final(self)@ == old(self)@.with_task(task_id@, started(t, files))
                &&& texts(job.paths@) == taken_up(t, files)
                &&& final(self)@.has_handle(job.task as int)
                &&& final(self)@.ids[job.task as int] == task_id@
            },
    {
        match self.manager.find(task_id) {
            Some(h) => {
                let t = self.manager.task_mut(h);
                t.cancelled = false;
                t.endpoint = endpoint.to_owned();
                t.target_dir = target_dir.to_owned();
                let size: u64 = match t.files.get(file_path) {
                    Some(f) => {
                        assert(t@.files[file_path@] == f@);
                        f.total
                    },
                    None => 0,
                };
                let mut files: Vec<(String, u64)> = Vec::new();
                files.push((file_path.to_owned(), size));
                assert(sized(files@) =~= old(self)@.retry_list(task_id@, file_path@));
                let paths = start_downloads(t, &files);
                Some(Job { task: h, paths })
            },
            None => None,
        }
    }

    /// Begins the transfer of a file of the task behind `h`, unless the file was cancelled while it
    /// waited.
    pub fn begin(&mut self, h: usize, task_id: &str, path: &str, lang: &str) -> (r: (
        Transfer,
        Step,
    ))
        requires
            old(self)@.has_handle(h as int),
        ensures
            stepped(
                admitted(old(self)@.at(h as int), task_id@, path@, lang@),
                old(self)@,
                final(self)@,
                h,
                r.0,
                r.1,
            ),
    {
        let task = self.manager.task_mut(h);
        let paused = match task.files.get(path) {
            Some(f) => {
                assert(task@.files[path@] == f@);
                f.status == FileStatus::Cancelled
            },
            None => false,
        };
        if paused {
            Transfer::decline(task, task_id, path, lang)
        } else {
            Transfer::begin(task, task_id, path, lang)
        }
    }

    /// Tells a transfer of the task behind `h` what happened.
    pub fn advance(&mut self, h: usize, transfer: &mut Transfer, event: Event, reg: &LangRegistry)
        -> (step: Step)
        requires
            old(self)@.has_handle(h as int),
            old(transfer)@.awaits(event),
        ensures
            stepped(
                old(transfer)@.next(old(self)@.at(h as int), event, reg@),
                old(self)@,
                final(self)@,
                h,
                *final(transfer),
                step,
            ),
    {
        let task = self.manager.task_mut(h);
        transfer.advance(task, event, reg)
    }
}

// ---------------------------------------------------------------------------------------------
// Laws
// ---------------------------------------------------------------------------------------------

/// A start after a cancellation goes on: the task is no longer cancelled, it has the new settings,
/// and every listed file that was cancelled or failed is taken up and waits.
pub proof fn law_start_after_cancel_goes_on(
    m: ManagerView,
    id: Seq<char>,
    repo_id: Seq<char>,
    repo_type: Seq<char>,
    revision: Seq<char>,
    target_dir: Seq<char>,
    endpoint: Seq<char>,
    files: Seq<(Seq<char>, u64)>,
    i: int,
)
    requires
        m.tasks.dom().contains(id),
        0 <= i < files.len(),
        m.tasks[id].files.dom().contains(files[i].0),
        m.tasks[id].files[files[i].0].status.stopped(),
    ensures
        ({
            let t = m.cancelled(id).registered(
                id,
                repo_id,
                repo_type,
                revision,
                target_dir,
                endpoint,
            );
            let after = started(t, files);
            &&& !after.cancelled
            &&& after.endpoint == endpoint
            &&& after.target_dir == target_dir
            &&& taken_up(t, files).contains(files[i].0)
            &&& after.files[files[i].0].status == FileStatus::Pending
        }),
{
    let t = m.cancelled(id).registered(id, repo_id, repo_type, revision, target_dir, endpoint);
    assert(files[i].0 == files[i].0);
    law_start_takes_up(t, files, files[i].0);
}

/// A retry of a file that was cancelled or failed takes up that file and no other, though the whole
/// task was cancelled before. It takes over the endpoint and the directory, keeps the known size,
/// and forgets the error.
pub proof fn law_retry_takes_up(
    m: ManagerView,
    id: Seq<char>,
    path: Seq<char>,
    endpoint: Seq<char>,
    target_dir: Seq<char>,
)
    requires
        m.tasks.dom().contains(id),
        m.tasks[id].files.dom().contains(path),
        m.tasks[id].files[path].status.stopped(),
    ensures
        ({
            let c = m.cancelled(id);
            let t = c.relocated(id, endpoint, target_dir);
            let files = c.retry_list(id, path);
            let after = started(t, files);
            &&& taken_up(t, files) == seq![path]
            &&& !after.cancelled
            &&& after.endpoint == endpoint
            &&& after.target_dir == target_dir
            &&& after.files == m.tasks[id].files.insert(
                path,
                waiting(path, m.tasks[id].files[path].total),
            )
        }),
{
    let c = m.cancelled(id);
    let t = c.relocated(id, endpoint, target_dir);
    let files = c.retry_list(id, path);
    assert(files.drop_last() =~= Seq::<(Seq<char>, u64)>::empty());
    assert(taken_up(t, files.drop_last()) =~= Seq::<Seq<char>>::empty());
    assert(taken_up(t, files) =~= seq![path]);
}

/// A retry of a file that is there, on its way or waiting fetches nothing.
pub proof fn law_retry_leaves_running(
    m: ManagerView,
    id: Seq<char>,
    path: Seq<char>,
    endpoint: Seq<char>,
    target_dir: Seq<char>,
)
    requires
        m.tasks.dom().contains(id),
        m.tasks[id].files.dom().contains(path),
        !m.tasks[id].files[path].status.stopped(),
    ensures
        ({
            let t = m.relocated(id, endpoint, target_dir);
            let files = m.retry_list(id, path);
            &&& taken_up(t, files).len() == 0
            &&& started(t, files) == t
        }),
{
    let t = m.relocated(id, endpoint, target_dir);
    let files = m.retry_list(id, path);
    assert(files.drop_last() =~= Seq::<(Seq<char>, u64)>::empty());
    assert(taken_up(t, files.drop_last()).len() == 0);
}

/// A file that is retried after a change of the mirror is asked of the new mirror, from the first
/// missing byte on, unless everything is there.
pub proof fn law_retry_asks_new_mirror(
    m: ManagerView,
    id: Seq<char>,
    path: Seq<char>,
    endpoint: Seq<char>,
    target_dir: Seq<char>,
    lang: Seq<char>,
    size: u64,
    token_file: Option<String>,
    reg: LangView,
)
    requires
        m.tasks.dom().contains(id),
        m.tasks[id].files.dom().contains(path),
        m.tasks[id].files[path].status.stopped(),
        m.tasks[id].files[path].total == 0 || size < m.tasks[id].files[path].total,
    ensures
        ({
            let c = m.cancelled(id);
            let task = started(c.relocated(id, endpoint, target_dir), c.retry_list(id, path));
            let begun = admitted(task, id, path, lang);
            let event = Event::Probed { size, token_file };
            let probed = begun.transfer.next(begun.task, event, reg);
            &&& begun.action == ActionView::Probe
            &&& begun.task.files[path].status == FileStatus::Downloading
            &&& begun.transfer.awaits(event)
            &&& probed.action == ActionView::Fetch(
                file_address(
                    m.tasks[id].repo_id,
                    m.tasks[id].repo_type,
                    m.tasks[id].revision,
                    endpoint,
                    path,
                ),
                if size > 0 {
                    Some(range_from(size))
                } else {
                    None
                },
                stored_token(opt_text(token_file)),
            )
        }),
{
    law_retry_takes_up(m, id, path, endpoint, target_dir);
}

/// A file that is retried after a cancellation, on whatever mirror, is done if an attempt at it
/// goes well, also after up to three that failed in passing.
pub proof fn law_retried_download_succeeds(
    m: ManagerView,
    id: Seq<char>,
    path: Seq<char>,
    endpoint: Seq<char>,
    target_dir: Seq<char>,
    lang: Seq<char>,
    setbacks: Seq<Setback>,
    attempt: Attempt,
    reg: LangView,
)
    requires
        m.tasks.dom().contains(id),
        m.tasks[id].files.dom().contains(path),
        m.tasks[id].files[path].status.stopped(),
        setbacks.len() <= 3,
        ({
            let c = m.cancelled(id);
            let task = started(c.relocated(id, endpoint, target_dir), c.retry_list(id, path));
            may_set_back(admitted(task, id, path, lang).transfer, setbacks, reg)
        }),
        attempt.fits(path, m.tasks[id].files[path].total),
    ensures
        ({
            let c = m.cancelled(id);
            let task = started(c.relocated(id, endpoint, target_dir), c.retry_list(id, path));
            attempt.succeeds(set_back(admitted(task, id, path, lang).transfer, setbacks, reg), reg)
        }),
{
    let c = m.cancelled(id);
    let task = started(c.relocated(id, endpoint, target_dir), c.retry_list(id, path));
    law_retry_takes_up(m, id, path, endpoint, target_dir);
    law_download_succeeds_after_setbacks(task, id, path, lang, setbacks, attempt, reg);
}

/// A file that is paused while it waits is not fetched when its turn comes: its transfer stops at
/// once, and the file stays cancelled, until it is retried or started again.
pub proof fn law_paused_waiting_file_is_not_fetched(
    m: ManagerView,
    id: Seq<char>,
    path: Seq<char>,
    lang: Seq<char>,
)
    requires
        m.tasks.dom().contains(id),
        m.tasks[id].files.dom().contains(path),
    ensures
        ({
            let paused = m.changed(id, m.tasks[id].with_status(path, FileStatus::Cancelled));
            let o = admitted(paused.tasks[id], id, path, lang);
            &&& o.action is Stop
            &&& o.transfer.phase == Phase::Over
            &&& o.task.files[path].status == FileStatus::Cancelled
            &&& paused.tasks[id].takes_up(path)
        }),
{
}

} // verus!
