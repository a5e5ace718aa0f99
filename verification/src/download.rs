//! Download tasks: which files of a repository are to be fetched, and how far each one is.

use vstd::prelude::*;
use crate::path::{join_path, path_join};
use crate::table::Table;
use crate::text::{opt_clone, opt_text, texts};

verus! {

// ---------------------------------------------------------------------------------------------
// Files
// ---------------------------------------------------------------------------------------------

/// How many files of one call of [`start_downloads`] are fetched at the same time.
pub const MAX_CONCURRENT: usize = 3;

/// Where a file stands.
#[derive(Debug, Clone, Copy, PartialEq, Eq, Structural)]
pub enum FileStatus {
    Pending,
    Downloading,
    Done,
    Exists,
    Failed,
    Cancelled,
}

impl FileStatus {
    /// The lower-case name of the status.
    pub open spec fn name(self) -> Seq<char> {
        match self {
            FileStatus::Pending => "pending"@,
            FileStatus::Downloading => "downloading"@,
            FileStatus::Done => "done"@,
            FileStatus::Exists => "exists"@,
            FileStatus::Failed => "failed"@,
            FileStatus::Cancelled => "cancelled"@,
        }
    }

    /// The lower-case name of the status.
    pub fn text(&self) -> (r: String)
        ensures
            r@ == self.name(),
    {
        let s = match self {
            FileStatus::Pending => "pending",
            FileStatus::Downloading => "downloading",
            FileStatus::Done => "done",
            FileStatus::Exists => "exists",
            FileStatus::Failed => "failed",
            FileStatus::Cancelled => "cancelled",
        };
        s.to_owned()
    }

    /// Whether nothing more will happen to a file by itself.
    pub open spec fn settled(self) -> bool {
        self != FileStatus::Pending && self != FileStatus::Downloading
    }

    /// Whether a file stopped short and may be started again.
    pub open spec fn stopped(self) -> bool {
        self == FileStatus::Failed || self == FileStatus::Cancelled
    }
}

/// A file of a task.
#[derive(Debug)]
pub struct FileState {
    pub path: String,
    pub status: FileStatus,
    pub downloaded: u64,
    pub total: u64,
    /// Bytes per second, as the bit pattern of a double-precision number; zero stands for zero.
    pub speed: u64,
    pub error: Option<String>,
}

/// The characters and numbers behind a [`FileState`].
#[verifier::ext_equal]
pub struct FileView {
    pub path: Seq<char>,
    pub status: FileStatus,
    pub downloaded: u64,
    pub total: u64,
    pub speed: u64,
    pub error: Option<Seq<char>>,
}

impl View for FileState {
    type V = FileView;

    open spec fn view(&self) -> FileView {
        FileView {
            path: self.path@,
            status: self.status,
            downloaded: self.downloaded,
            total: self.total,
            speed: self.speed,
            error: opt_text(self.error),
        }
    }
}

impl Clone for FileState {
    fn clone(&self) -> (r: Self)
        ensures
            r@ == self@,
    {
        FileState {
            path: self.path.clone(),
            status: self.status,
            downloaded: self.downloaded,
            total: self.total,
            speed: self.speed,
            error: opt_clone(&self.error),
        }
    }
}

/// A file that waits for its turn.
pub open spec fn waiting(path: Seq<char>, size: u64) -> FileView {
    FileView {
        path,
        status: FileStatus::Pending,
        downloaded: 0,
        total: size,
        speed: 0,
        error: None,
    }
}

impl FileState {
    /// A file that waits for its turn.
    pub fn pending(path: &str, size: u64) -> (r: FileState)
        ensures
            r@ == waiting(path@, size),
    {
        FileState {
            path: path.to_owned(),
            status: FileStatus::Pending,
            downloaded: 0,
            total: size,
            speed: 0,
            error: None,
        }
    }
}

/// The files of a table.
pub open spec fn rows(m: Map<Seq<char>, FileState>) -> Map<Seq<char>, FileView> {
    m.map_values(|f: FileState| f@)
}

/// Whether every file is settled.
pub open spec fn all_settled(files: Map<Seq<char>, FileView>) -> bool {
    forall|p: Seq<char>| #[trigger] files.dom().contains(p) ==> files[p].status.settled()
}

// ---------------------------------------------------------------------------------------------
// Tasks
// ---------------------------------------------------------------------------------------------

/// The download of files of one repository.
pub struct DownloadTask {
    pub repo_id: String,
    pub repo_type: String,
    pub revision: String,
    pub target_dir: String,
    pub endpoint: String,
    pub files: Table<FileState>,
    pub cancelled: bool,
}

/// What a task is about.
#[verifier::ext_equal]
pub struct TaskView {
    pub repo_id: Seq<char>,
    pub repo_type: Seq<char>,
    pub revision: Seq<char>,
    pub target_dir: Seq<char>,
    pub endpoint: Seq<char>,
    pub files: Map<Seq<char>, FileView>,
    pub cancelled: bool,
}

impl View for DownloadTask {
    type V = TaskView;

    open spec fn view(&self) -> TaskView {
        TaskView {
            repo_id: self.repo_id@,
            repo_type: self.repo_type@,
            revision: self.revision@,
            target_dir: self.target_dir@,
            endpoint: self.endpoint@,
            files: rows(self.files@),
            cancelled: self.cancelled,
        }
    }
}

impl TaskView {
    /// A task without files that nobody cancelled.
    pub open spec fn fresh(
        repo_id: Seq<char>,
        repo_type: Seq<char>,
        revision: Seq<char>,
        target_dir: Seq<char>,
        endpoint: Seq<char>,
    ) -> TaskView {
        TaskView {
            repo_id,
            repo_type,
            revision,
            target_dir,
            endpoint,
            files: Map::empty(),
            cancelled: false,
        }
    }

    /// The task with the settings of a new start; a cancellation is forgotten, the files stay.
    pub open spec fn renewed(
        self,
        repo_type: Seq<char>,
        revision: Seq<char>,
        target_dir: Seq<char>,
        endpoint: Seq<char>,
    ) -> TaskView {
        TaskView { repo_type, revision, target_dir, endpoint, cancelled: false, ..self }
    }

    /// The task with `f` in place of what it knew of that file.
    pub open spec fn with_file(self, path: Seq<char>, f: FileView) -> TaskView {
        TaskView { files: self.files.insert(path, f), ..self }
    }

    /// Whether a start takes up `path`: the task does not know it, or it stopped short.
    pub open spec fn takes_up(self, path: Seq<char>) -> bool {
        !self.files.dom().contains(path) || self.files[path].status.stopped()
    }
}

impl DownloadTask {
    /// A task without files.
    pub fn new(
        repo_id: String,
        repo_type: String,
        revision: String,
        target_dir: String,
        endpoint: String,
    ) -> (r: Self)
        ensures
            r@ == TaskView::fresh(repo_id@, repo_type@, revision@, target_dir@, endpoint@),
    {
        let r = DownloadTask {
            repo_id,
            repo_type,
            revision,
            target_dir,
            endpoint,
            files: Table::new(),
            cancelled: false,
        };
        assert(r@.files =~= Map::<Seq<char>, FileView>::empty());
        r
    }

    /// Whether no file is waiting or being fetched.
    pub fn is_done(&self) -> (r: bool)
        ensures
            r == all_settled(self@.files),
    {
        let mut i: usize = 0;
        while i < self.files.len()
            invariant
                i <= self.files.keys().len(),
                forall|j: int|
                    0 <= j < i ==> self@.files[#[trigger] self.files.keys()[j]].status.settled(),
            decreases self.files.keys().len() - i,
        {
            let f = self.files.val_at(i);
            assert(self@.files[self.files.keys()[i as int]] == f@);
            match f.status {
                FileStatus::Pending | FileStatus::Downloading => {
                    assert(self@.files.dom().contains(self.files.keys()[i as int]));
                    return false;
                },
                _ => {},
            }
            i += 1;
        }
        proof {
            self.files.lemma_keys();
            assert forall|p: Seq<char>| #[trigger]
                self@.files.dom().contains(p) implies self@.files[p].status.settled() by {
                assert(self.files@.dom().contains(p));
                let j = choose|j: int|
                    0 <= j < self.files.keys().len() && self.files.keys()[j] == p;
                assert(self@.files[self.files.keys()[j]].status.settled());
            }
        }
        true
    }

    /// Puts `f` in place of what the task knew of its file.
    pub fn put(&mut self, f: FileState)
        ensures
            final(self)@ == old(self)@.with_file(f@.path, f@),
    {
        let path = f.path.clone();
        self.files.set(path, f);
        assert(rows(self.files@) =~= rows(old(self).files@).insert(f@.path, f@));
    }

    /// Takes over the settings of a new start.
    fn renew(&mut self, repo_type: &str, revision: &str, target_dir: &str, endpoint: &str)
        ensures
            final(self)@ == old(self)@.renewed(repo_type@, revision@, target_dir@, endpoint@),
    {
        self.endpoint = endpoint.to_owned();
        self.target_dir = target_dir.to_owned();
        self.repo_type = repo_type.to_owned();
        self.revision = revision.to_owned();
        self.cancelled = false;
    }
}

/// Where a file of a task is put on disk: below the directory of the task, under its own path.
pub fn local_path(task: &DownloadTask, path: &str, sep: char) -> (r: String)
    ensures
        r@ == path_join(task@.target_dir, path@, sep),
{
    join_path(task.target_dir.as_str(), path, sep)
}

// ---------------------------------------------------------------------------------------------
// Starting files
// ---------------------------------------------------------------------------------------------

/// The characters and numbers behind a list of files with sizes.
pub open spec fn sized(v: Seq<(String, u64)>) -> Seq<(Seq<char>, u64)> {
    Seq::new(v.len(), |i: int| (v[i].0@, v[i].1))
}

/// The task after a start of `files`. Each file in turn that the task takes up waits anew.
pub open spec fn started(task: TaskView, files: Seq<(Seq<char>, u64)>) -> TaskView
    decreases files.len(),
{
    if files.len() == 0 {
        task
    } else {
        let before = started(task, files.drop_last());
        let (path, size) = files.last();
        if before.takes_up(path) {
            before.with_file(path, waiting(path, size))
        } else {
            before
        }
    }
}

/// The files that a start of `files` takes up, in order.
pub open spec fn taken_up(task: TaskView, files: Seq<(Seq<char>, u64)>) -> Seq<Seq<char>>
    decreases files.len(),
{
    if files.len() == 0 {
        Seq::empty()
    } else {
        let before = taken_up(task, files.drop_last());
        let path = files.last().0;
        if started(task, files.drop_last()).takes_up(path) {
            before.push(path)
        } else {
            before
        }
    }
}

/// Registers a file for download. Returns whether it is to be fetched now: it is unless it is
/// there already, on its way, or waiting.
pub fn register_file(task: &mut DownloadTask, path: &str, size: u64) -> (r: bool)
    ensures
        r == old(task)@.takes_up(path@),
        final(task)@ == if r {
            old(task)@.with_file(path@, waiting(path@, size))
        } else {
            old(task)@
        },
{
    let fresh = match task.files.get(path) {
        Some(f) => {
            assert(task@.files[path@] == f@);
            match f.status {
                FileStatus::Failed | FileStatus::Cancelled => true,
                _ => false,
            }
        },
        None => true,
    };
    if fresh {
        task.put(FileState::pending(path, size));
    }
    fresh
}

/// Registers `files` for download, in order. Returns the paths that are to be fetched now.
pub fn start_downloads(task: &mut DownloadTask, files: &Vec<(String, u64)>) -> (r: Vec<String>)
    ensures
        final(task)@ == started(old(task)@, sized(files@)),
        texts(r@) == taken_up(old(task)@, sized(files@)),
{
    let mut r: Vec<String> = Vec::new();
    let ghost all = sized(files@);
    let mut i: usize = 0;
    assert(texts(r@) == taken_up(task@, all.take(0)));
    while i < files.len()
        invariant
            i <= files@.len(),
            all == sized(files@),
            task@ == started(old(task)@, all.take(i as int)),
            texts(r@) == taken_up(old(task)@, all.take(i as int)),
        decreases files@.len() - i,
    {
        let path = files[i].0.clone();
        let size: u64 = files[i].1;
        proof {
            assert(all.take(i + 1).drop_last() == all.take(i as int));
            assert(all.take(i + 1).last() == (path@, size));
        }
        if register_file(task, path.as_str(), size) {
            let ghost before = texts(r@);
            r.push(path);
            assert(texts(r@) == before.push(path@));
        }
        i += 1;
    }
    assert(all.take(all.len() as int) == all);
    r
}

// ---------------------------------------------------------------------------------------------
// The registry of tasks
// ---------------------------------------------------------------------------------------------

/// All tasks of this run, each under its id. A task is never taken out, so its place is a handle
/// that stays good.
pub struct TaskManager {
    tasks: Table<DownloadTask>,
}

/// The ids in the order in which their tasks came, and the task of each.
#[verifier::ext_equal]
pub struct ManagerView {
    pub ids: Seq<Seq<char>>,
    pub tasks: Map<Seq<char>, TaskView>,
}

/// The tasks of a table.
pub open spec fn task_views(m: Map<Seq<char>, DownloadTask>) -> Map<Seq<char>, TaskView> {
    m.map_values(|t: DownloadTask| t@)
}

impl View for TaskManager {
    type V = ManagerView;

    closed spec fn view(&self) -> ManagerView {
        ManagerView {
            ids: self.tasks.keys(),
            tasks: task_views(self.tasks@),
        }
    }
}

impl ManagerView {
    /// Whether `h` is a handle.
    pub open spec fn has_handle(self, h: int) -> bool {
        0 <= h < self.ids.len() && self.tasks.dom().contains(self.ids[h])
    }

    /// The task behind a handle.
    pub open spec fn at(self, h: int) -> TaskView {
        self.tasks[self.ids[h]]
    }

    /// The task `id` with the given settings: the one that is there, or a new one.
    pub open spec fn registered(
        self,
        id: Seq<char>,
        repo_id: Seq<char>,
        repo_type: Seq<char>,
        revision: Seq<char>,
        target_dir: Seq<char>,
        endpoint: Seq<char>,
    ) -> TaskView {
        if self.tasks.dom().contains(id) {
            self.tasks[id].renewed(repo_type, revision, target_dir, endpoint)
        } else {
            TaskView::fresh(repo_id, repo_type, revision, target_dir, endpoint)
        }
    }

    /// The registry with `t` as the task of `id`.
    pub open spec fn with_task(self, id: Seq<char>, t: TaskView) -> ManagerView {
        ManagerView {
            ids: if self.tasks.dom().contains(id) {
                self.ids
            } else {
                self.ids.push(id)
            },
            tasks: self.tasks.insert(id, t),
        }
    }
}

impl TaskManager {
    /// A registry without tasks.
    pub fn new() -> (r: Self)
        ensures
            r@.ids == Seq::<Seq<char>>::empty(),
            r@.tasks == Map::<Seq<char>, TaskView>::empty(),
    {
        let r = TaskManager { tasks: Table::new() };
        assert(r@.tasks =~= Map::<Seq<char>, TaskView>::empty());
        r
    }

    /// The handle of a task.
    pub fn find(&self, task_id: &str) -> (r: Option<usize>)
        ensures
            match r {
                Some(h) => self@.has_handle(h as int) && self@.ids[h as int] == task_id@,
                None => !self@.tasks.dom().contains(task_id@),
            },
    {
        self.tasks.find(task_id)
    }

    /// Whether `h` is a handle.
    pub fn has(&self, h: usize) -> (r: bool)
        ensures
            r == self@.has_handle(h as int),
    {
        if h < self.tasks.len() {
            let id = self.tasks.key_at(h);
            true
        } else {
            false
        }
    }

    /// The task behind a handle.
    pub fn task(&self, h: usize) -> (r: &DownloadTask)
        requires
            self@.has_handle(h as int),
        ensures
            r@ == self@.at(h as int),
    {
        self.tasks.val_at(h)
    }

    /// The task behind a handle, to be changed in place.
    pub fn task_mut(&mut self, h: usize) -> (r: &mut DownloadTask)
        requires
            old(self)@.has_handle(h as int),
        ensures
            r@ == old(self)@.at(h as int),
            final(self)@ == old(self)@.with_task(old(self)@.ids[h as int], final(r)@),
    {
        proof {
            let m = self.tasks@;
            let k = self.tasks.keys()[h as int];
            assert forall|t: DownloadTask| task_views(#[trigger] m.insert(k, t)) == task_views(
                m,
            ).insert(k, t@) by {
                assert(task_views(m.insert(k, t)) =~= task_views(m).insert(k, t@));
            }
        }
        self.tasks.at_mut(h)
    }

    /// The task `task_id`, made if there is none yet. One that is there gets the given settings,
    /// and a cancellation of it is forgotten, so that a restart goes on.
    pub fn get_or_create(
        &mut self,
        task_id: &str,
        repo_id: &str,
        repo_type: &str,
        revision: &str,
        target_dir: &str,
        endpoint: &str,
    ) -> (h: usize)
        ensures
            final(self)@ == old(self)@.with_task(
                task_id@,
                old(self)@.registered(
                    task_id@,
                    repo_id@,
                    repo_type@,
                    revision@,
                    target_dir@,
                    endpoint@,
                ),
            ),
            final(self)@.has_handle(h as int),
            final(self)@.ids[h as int] == task_id@,
    {
        match self.find(task_id) {
            Some(h) => {
                let task = self.task_mut(h);
                task.renew(repo_type, revision, target_dir, endpoint);
                h
            },
            None => {
                let task = DownloadTask::new(
                    repo_id.to_owned(),
                    repo_type.to_owned(),
                    revision.to_owned(),
                    target_dir.to_owned(),
                    endpoint.to_owned(),
                );
                let h: usize = self.tasks.len();
                self.tasks.set(task_id.to_owned(), task);
                assert(self@.tasks =~= old(self)@.tasks.insert(task_id@, task@));
                h
            },
        }
    }
}

// ---------------------------------------------------------------------------------------------
// Laws
// ---------------------------------------------------------------------------------------------

/// Whether `path` is among `files`.
pub open spec fn lists(files: Seq<(Seq<char>, u64)>, path: Seq<char>) -> bool {
    exists|i: int| 0 <= i < files.len() && (#[trigger] files[i]).0 == path
}

proof fn lemma_lists_last(files: Seq<(Seq<char>, u64)>, path: Seq<char>)
    requires
        files.len() > 0,
    ensures
        lists(files, path) == (lists(files.drop_last(), path) || files.last().0 == path),
{
    if lists(files.drop_last(), path) {
        let i = choose|i: int|
            0 <= i < files.drop_last().len() && (#[trigger] files.drop_last()[i]).0 == path;
        assert(files[i].0 == path);
    }
    if files.last().0 == path {
        assert(files[files.len() - 1].0 == path);
    }
    if lists(files, path) {
        let i = choose|i: int| 0 <= i < files.len() && (#[trigger] files[i]).0 == path;
        if i < files.len() - 1 {
            assert(files.drop_last()[i].0 == path);
        }
    }
}

/// A start takes up exactly the listed files that the task did not know or that stopped short.
/// They wait anew, with nothing fetched and no error; the rows of all other files, and the
/// settings of the task, stay as they were.
pub proof fn law_start_takes_up(task: TaskView, files: Seq<(Seq<char>, u64)>, path: Seq<char>)
    ensures
        ({
            let after = started(task, files);
            let taken = lists(files, path) && task.takes_up(path);
            &&& taken_up(task, files).contains(path) == taken
            &&& taken ==> after.files.dom().contains(path) && exists|size: u64|
                files.contains((path, size)) && after.files[path] == #[trigger] waiting(path, size)
            &&& !taken ==> after.files.dom().contains(path) == task.files.dom().contains(path)
                && after.files[path] == task.files[path]
            &&& after == (TaskView { files: after.files, ..task })
        }),
    decreases files.len(),
{
    if files.len() > 0 {
        let less = files.drop_last();
        let (last, size) = files.last();
        law_start_takes_up(task, less, path);
        law_start_takes_up(task, less, last);
        lemma_lists_last(files, path);
        lemma_lists_last(files, last);
        let before = started(task, less);
        let taken = taken_up(task, less);
        assert forall|f: (Seq<char>, u64)| less.contains(f) implies files.contains(f) by {
            let i = choose|i: int| 0 <= i < less.len() && less[i] == f;
            assert(files[i] == f);
        }
        if before.takes_up(last) {
            let now = taken.push(last);
            assert(now.contains(path) == (taken.contains(path) || path == last)) by {
                assert(now[taken.len() as int] == last);
                if taken.contains(path) {
                    let i = choose|i: int| 0 <= i < taken.len() && taken[i] == path;
                    assert(now[i] == path);
                }
            }
            if path == last {
                assert(files[files.len() - 1] == (path, size));
                assert(started(task, files).files[path] == waiting(path, size));
            }
        }
    }
}

/// No file is fetched twice by one start.
pub proof fn law_start_fetches_once(task: TaskView, files: Seq<(Seq<char>, u64)>)
    ensures
        taken_up(task, files).no_duplicates(),
    decreases files.len(),
{
    if files.len() > 0 {
        law_start_fetches_once(task, files.drop_last());
        law_start_takes_up(task, files.drop_last(), files.last().0);
    }
}

/// A second start right after a first one fetches nothing: what is waiting is left alone.
pub proof fn law_second_start_is_idle(task: TaskView, files: Seq<(Seq<char>, u64)>)
    ensures
        taken_up(started(task, files), files).len() == 0,
        started(started(task, files), files) == started(task, files),
{
    let once = started(task, files);
    let again = started(once, files);
    assert forall|path: Seq<char>| !#[trigger] taken_up(once, files).contains(path) by {
        law_start_takes_up(task, files, path);
        law_start_takes_up(once, files, path);
    }
    if taken_up(once, files).len() > 0 {
        assert(taken_up(once, files).contains(taken_up(once, files)[0]));
    }
    assert forall|path: Seq<char>|
        #![trigger again.files.dom().contains(path)]
        #![trigger once.files.dom().contains(path)]
        #![trigger again.files[path]]
        again.files.dom().contains(path) == once.files.dom().contains(path) && again.files[path]
            == once.files[path] by {
        law_start_takes_up(once, files, path);
    }
    law_start_takes_up(once, files, Seq::empty());
    assert(again.files =~= once.files);
}

/// A task that is started again keeps what it knows of its files, takes over the new settings, and
/// is no longer cancelled.
pub proof fn law_restart_applies_settings(
    m: ManagerView,
    id: Seq<char>,
    repo_id: Seq<char>,
    repo_type: Seq<char>,
    revision: Seq<char>,
    target_dir: Seq<char>,
    endpoint: Seq<char>,
)
    ensures
        ({
            let t = m.registered(id, repo_id, repo_type, revision, target_dir, endpoint);
            &&& !t.cancelled
            &&& t.repo_type == repo_type
            &&& t.revision == revision
            &&& t.target_dir == target_dir
            &&& t.endpoint == endpoint
            &&& m.tasks.dom().contains(id) ==> t.files == m.tasks[id].files && t.repo_id
                == m.tasks[id].repo_id
            &&& !m.tasks.dom().contains(id) ==> t.files == Map::<Seq<char>, FileView>::empty()
                && t.repo_id == repo_id
        }),
{
}

/// A change of one task leaves the handles of all tasks good, and the other tasks alone.
pub proof fn law_handles_stay(m: ManagerView, id: Seq<char>, t: TaskView, h: int)
    requires
        m.has_handle(h),
    ensures
        m.with_task(id, t).has_handle(h),
        m.with_task(id, t).ids[h] == m.ids[h],
        m.with_task(id, t).at(h) == if m.ids[h] == id {
            t
        } else {
            m.at(h)
        },
{
}

} // verus!
