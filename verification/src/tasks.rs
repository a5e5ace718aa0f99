//! What holds of every task, by the rows of its files.

use vstd::prelude::*;
use crate::download::{
    all_settled, lists, started, taken_up, FileStatus, FileView, ManagerView, TaskView,
};
use crate::engine::{admitted, MsgView};
use crate::transfer::ActionView;

verus! {

// ---------------------------------------------------------------------------------------------
// Starting
// ---------------------------------------------------------------------------------------------

/// A file is settled when it is done, was there, failed or was cancelled, and only then; it stopped
/// short when it failed or was cancelled, and only then. A task is settled when all its files are.
pub proof fn law_settled_is_over(status: FileStatus, files: Map<Seq<char>, FileView>)
    ensures
        status.settled() == (status == FileStatus::Done || status == FileStatus::Exists || status
            == FileStatus::Failed || status == FileStatus::Cancelled),
        status.stopped() == (status == FileStatus::Failed || status == FileStatus::Cancelled),
        !all_settled(files) == exists|p: Seq<char>|
            #[trigger] files.dom().contains(p) && (files[p].status == FileStatus::Pending
                || files[p].status == FileStatus::Downloading),
{
}

/// Whether a start fetches `path`: it is new to the task, or it failed or was cancelled before.
pub open spec fn is_due(task: TaskView, path: Seq<char>) -> bool {
    ||| !task.files.dom().contains(path)
    ||| task.files[path].status == FileStatus::Failed
    ||| task.files[path].status == FileStatus::Cancelled
}

/// Whether `path` is listed in the place `i` of `files` and not before it.
pub open spec fn first_listed(files: Seq<(Seq<char>, u64)>, path: Seq<char>, i: int) -> bool {
    &&& 0 <= i < files.len()
    &&& files[i].0 == path
    &&& forall|j: int| 0 <= j < i ==> (#[trigger] files[j]).0 != path
}

/// Whether `at` are the places of the files that a start is to fetch: each where it is listed first,
/// in the order of the list.
pub open spec fn are_due(at: Seq<int>, task: TaskView, files: Seq<(Seq<char>, u64)>) -> bool {
    &&& forall|j: int, k: int| 0 <= j < k < at.len() ==> #[trigger] at[j] < #[trigger] at[k]
    &&& forall|k: int| 0 <= k < at.len() ==> 0 <= #[trigger] at[k] < files.len()
    &&& forall|i: int|
        0 <= i < files.len() ==> (at.contains(i) == (is_due(task, (#[trigger] files[i]).0)
            && first_listed(files, files[i].0, i)))
}

spec fn due_places(task: TaskView, files: Seq<(Seq<char>, u64)>) -> Seq<int>
    decreases files.len(),
{
    if files.len() == 0 {
        Seq::empty()
    } else {
        let before = due_places(task, files.drop_last());
        if is_due(task, files.last().0) && first_listed(files, files.last().0, files.len() - 1) {
            before.push(files.len() - 1)
        } else {
            before
        }
    }
}

proof fn lemma_first_listed(files: Seq<(Seq<char>, u64)>, path: Seq<char>, i: int)
    requires
        0 <= i < files.len() - 1,
    ensures
        first_listed(files, path, i) == first_listed(files.drop_last(), path, i),
{
    let less = files.drop_last();
    if first_listed(files, path, i) {
        assert forall|j: int| 0 <= j < i implies (#[trigger] less[j]).0 != path by {
            assert(less[j] == files[j]);
        }
    }
    if first_listed(less, path, i) {
        assert forall|j: int| 0 <= j < i implies (#[trigger] files[j]).0 != path by {
            assert(less[j] == files[j]);
        }
    }
}

proof fn lemma_row_after_start(task: TaskView, files: Seq<(Seq<char>, u64)>, path: Seq<char>)
    ensures
        ({
            let after = started(task, files);
            let fetched = is_due(task, path) && lists(files, path);
            &&& after == (TaskView { files: after.files, ..task })
            &&& !fetched ==> after.files.dom().contains(path) == task.files.dom().contains(path)
                && after.files[path] == task.files[path]
            &&& fetched ==> {
                &&& after.files.dom().contains(path)
                &&& after.files[path].path == path
                &&& after.files[path].status == FileStatus::Pending
                &&& after.files[path].downloaded == 0
                &&& after.files[path].speed == 0
                &&& after.files[path].error is None
                &&& exists|i: int| #[trigger]
                    first_listed(files, path, i) && after.files[path].total == files[i].1
            }
        }),
    decreases files.len(),
{
    if files.len() > 0 {
        let less = files.drop_last();
        let (last, size) = files.last();
        lemma_row_after_start(task, less, path);
        lemma_row_after_start(task, less, last);
        if lists(less, path) {
            let i = choose|i: int| 0 <= i < less.len() && (#[trigger] less[i]).0 == path;
            assert(files[i].0 == path);
            if is_due(task, path) {
                let k = choose|k: int| #[trigger]
                    first_listed(less, path, k) && started(task, less).files[path].total
                        == less[k].1;
                lemma_first_listed(files, path, k);
                assert(first_listed(files, path, k));
            }
        } else {
            if last == path {
                assert(files[files.len() - 1].0 == path);
                assert forall|j: int| 0 <= j < files.len() - 1 implies (#[trigger] files[j]).0
                    != path by {
                    assert(less[j] == files[j]);
                    if less[j].0 == path {
                        assert(lists(less, path));
                    }
                }
                assert(first_listed(files, path, files.len() - 1));
            } else if lists(files, path) {
                let i = choose|i: int| 0 <= i < files.len() && (#[trigger] files[i]).0 == path;
                assert(less[i].0 == path);
            }
        }
    } else {
        assert(!lists(files, path));
    }
}

/// A start makes every listed file that is new to the task, failed or was cancelled wait from the
/// beginning, with the size that it is first listed with. It leaves the rows of all other files and
/// the settings of the task alone.
pub proof fn law_start_makes_due_files_wait(
    task: TaskView,
    files: Seq<(Seq<char>, u64)>,
    path: Seq<char>,
)
    ensures
        ({
            let after = started(task, files);
            let fetched = is_due(task, path) && lists(files, path);
            &&& after.repo_id == task.repo_id && after.repo_type == task.repo_type
            &&& after.revision == task.revision && after.target_dir == task.target_dir
            &&& after.endpoint == task.endpoint && after.cancelled == task.cancelled
            &&& !fetched ==> after.files.dom().contains(path) == task.files.dom().contains(path)
                && after.files[path] == task.files[path]
            &&& fetched ==> {
                &&& after.files.dom().contains(path)
                &&& after.files[path].path == path
                &&& after.files[path].status == FileStatus::Pending
                &&& after.files[path].downloaded == 0
                &&& after.files[path].speed == 0
                &&& after.files[path].error is None
                &&& exists|i: int| #[trigger]
                    first_listed(files, path, i) && after.files[path].total == files[i].1
            }
        }),
{
    lemma_row_after_start(task, files, path);
}

proof fn lemma_due_places(task: TaskView, files: Seq<(Seq<char>, u64)>)
    ensures
        are_due(due_places(task, files), task, files),
        due_places(task, files).len() == taken_up(task, files).len(),
        forall|k: int|
            0 <= k < due_places(task, files).len() ==> #[trigger] taken_up(task, files)[k]
                == files[due_places(task, files)[k]].0,
    decreases files.len(),
{
    if files.len() > 0 {
        let less = files.drop_last();
        let last = files.last().0;
        let n = files.len() - 1;
        lemma_due_places(task, less);
        lemma_row_after_start(task, less, last);
        let before = due_places(task, less);
        let at = due_places(task, files);
        let paths = taken_up(task, files);
        assert(first_listed(files, last, n) == !lists(less, last)) by {
            if first_listed(files, last, n) && lists(less, last) {
                let i = choose|i: int| 0 <= i < less.len() && (#[trigger] less[i]).0 == last;
                assert(files[i].0 == last);
            }
            if !lists(less, last) {
                assert forall|j: int| 0 <= j < n implies (#[trigger] files[j]).0 != last by {
                    if files[j].0 == last {
                        assert(less[j].0 == last);
                    }
                }
            }
        }
        assert(started(task, less).takes_up(last) == (is_due(task, last) && first_listed(
            files,
            last,
            n,
        )));
        assert forall|i: int| 0 <= i < files.len() implies at.contains(i) == (is_due(
            task,
            (#[trigger] files[i]).0,
        ) && first_listed(files, files[i].0, i)) by {
            if i < n {
                assert(files[i] == less[i]);
                lemma_first_listed(files, files[i].0, i);
                if before.contains(i) {
                    let k = choose|k: int| 0 <= k < before.len() && before[k] == i;
                    assert(at[k] == i);
                }
                if at.contains(i) {
                    let k = choose|k: int| 0 <= k < at.len() && at[k] == i;
                    if k < before.len() {
                        assert(before[k] == i);
                    }
                }
            } else {
                if is_due(task, last) && first_listed(files, last, n) {
                    assert(at[before.len() as int] == i);
                }
                if at.contains(i) {
                    let k = choose|k: int| 0 <= k < at.len() && at[k] == i;
                    if k < before.len() {
                        assert(before[k] < less.len());
                    }
                }
            }
        }
        assert forall|k: int| 0 <= k < at.len() implies #[trigger] paths[k] == files[at[k]].0 by {
            if k < before.len() {
                assert(paths[k] == taken_up(task, less)[k]);
                assert(at[k] == before[k]);
                assert(files[at[k]] == less[before[k]]);
            }
        }
    }
}

/// What a start fetches are the listed files that are new to the task, failed or were cancelled,
/// each once, in the order in which they are first listed.
pub proof fn law_due_files_are_fetched_in_order(task: TaskView, files: Seq<(Seq<char>, u64)>)
    ensures
        exists|at: Seq<int>|
            {
                &&& #[trigger] are_due(at, task, files)
                &&& at.len() == taken_up(task, files).len()
                &&& forall|k: int|
                    0 <= k < at.len() ==> #[trigger] taken_up(task, files)[k] == files[at[k]].0
            },
{
    lemma_due_places(task, files);
}

/// A task that was unknown begins with the given settings and without files; nobody has cancelled
/// it. Its handle is the next one.
pub proof fn law_new_task_is_as_ordered(
    m: ManagerView,
    id: Seq<char>,
    repo_id: Seq<char>,
    repo_type: Seq<char>,
    revision: Seq<char>,
    target_dir: Seq<char>,
    endpoint: Seq<char>,
)
    requires
        !m.tasks.dom().contains(id),
    ensures
        ({
            let t = m.registered(id, repo_id, repo_type, revision, target_dir, endpoint);
            let after = m.with_task(id, t);
            &&& t.repo_id == repo_id
            &&& t.repo_type == repo_type
            &&& t.revision == revision
            &&& t.target_dir == target_dir
            &&& t.endpoint == endpoint
            &&& !t.cancelled
            &&& t.files.dom().is_empty()
            &&& after.ids.len() == m.ids.len() + 1
            &&& after.has_handle(m.ids.len() as int)
            &&& after.ids[m.ids.len() as int] == id
            &&& after.at(m.ids.len() as int) == t
        }),
{
    let t = m.registered(id, repo_id, repo_type, revision, target_dir, endpoint);
    assert(t.files.dom() =~= Set::<Seq<char>>::empty());
}

// ---------------------------------------------------------------------------------------------
// Stopping
// ---------------------------------------------------------------------------------------------

/// A cancellation marks its task and does nothing else: the rows of its files, its settings, the
/// other tasks and all handles stay. Of an unknown task it does nothing at all.
pub proof fn law_cancel_marks_the_task(m: ManagerView, id: Seq<char>, other: Seq<char>)
    ensures
        ({
            let after = m.cancelled(id);
            &&& after.ids == m.ids
            &&& after.tasks.dom() == m.tasks.dom()
            &&& other != id && m.tasks.dom().contains(other) ==> after.tasks[other]
                == m.tasks[other]
            &&& !m.tasks.dom().contains(id) ==> after == m
            &&& m.tasks.dom().contains(id) ==> {
                &&& after.tasks[id].cancelled
                &&& after.tasks[id].files == m.tasks[id].files
                &&& after.tasks[id].repo_id == m.tasks[id].repo_id
                &&& after.tasks[id].repo_type == m.tasks[id].repo_type
                &&& after.tasks[id].revision == m.tasks[id].revision
                &&& after.tasks[id].target_dir == m.tasks[id].target_dir
                &&& after.tasks[id].endpoint == m.tasks[id].endpoint
            }
        }),
{
    assert(m.cancelled(id).tasks.dom() =~= m.tasks.dom());
}

/// A change of a task is a change of that task alone, and of an unknown task none at all.
pub proof fn law_change_is_of_one_task(
    m: ManagerView,
    id: Seq<char>,
    t: TaskView,
    other: Seq<char>,
)
    ensures
        ({
            let after = m.changed(id, t);
            &&& after.ids == m.ids
            &&& after.tasks.dom() == m.tasks.dom()
            &&& m.tasks.dom().contains(id) ==> after.tasks[id] == t
            &&& !m.tasks.dom().contains(id) ==> after == m
            &&& other != id ==> after.tasks[other] == m.tasks[other]
        }),
{
    assert(m.changed(id, t).tasks.dom() =~= m.tasks.dom());
}

/// A pause of one file marks the row of that file as cancelled, if the task knows it, and does
/// nothing else.
pub proof fn law_pause_marks_the_file(task: TaskView, path: Seq<char>, other: Seq<char>)
    ensures
        ({
            let after = task.with_status(path, FileStatus::Cancelled);
            &&& after == (TaskView { files: after.files, ..task })
            &&& after.files.dom() == task.files.dom()
            &&& other != path ==> after.files[other] == task.files[other]
            &&& task.files.dom().contains(path) ==> {
                &&& after.files[path].status == FileStatus::Cancelled
                &&& after.files[path].path == task.files[path].path
                &&& after.files[path].downloaded == task.files[path].downloaded
                &&& after.files[path].total == task.files[path].total
                &&& after.files[path].speed == task.files[path].speed
                &&& after.files[path].error == task.files[path].error
            }
        }),
{
    assert(task.with_status(path, FileStatus::Cancelled).files.dom() =~= task.files.dom());
}

/// A retry keeps the repository, its kind, its revision and the rows of all other files. A file
/// that the task does not know is fetched without a known size.
pub proof fn law_retry_keeps_the_repository(
    m: ManagerView,
    id: Seq<char>,
    path: Seq<char>,
    endpoint: Seq<char>,
    target_dir: Seq<char>,
    other: Seq<char>,
)
    requires
        m.tasks.dom().contains(id),
        other != path,
    ensures
        ({
            let t = m.relocated(id, endpoint, target_dir);
            let files = m.retry_list(id, path);
            let after = started(t, files);
            &&& after.repo_id == m.tasks[id].repo_id
            &&& after.repo_type == m.tasks[id].repo_type
            &&& after.revision == m.tasks[id].revision
            &&& after.endpoint == endpoint
            &&& after.target_dir == target_dir
            &&& !after.cancelled
            &&& after.files.dom().contains(other) == m.tasks[id].files.dom().contains(other)
            &&& m.tasks[id].files.dom().contains(other) ==> after.files[other]
                == m.tasks[id].files[other]
            &&& after.files.dom().contains(path)
            &&& !m.tasks[id].files.dom().contains(path) ==> after.files[path].status
                == FileStatus::Pending && after.files[path].total == 0
            &&& is_due(m.tasks[id], path) && m.tasks[id].files.dom().contains(path)
                ==> after.files[path].total == m.tasks[id].files[path].total
        }),
{
    let t = m.relocated(id, endpoint, target_dir);
    let files = m.retry_list(id, path);
    lemma_row_after_start(t, files, path);
    lemma_row_after_start(t, files, other);
    assert(files[0].0 == path);
    assert(lists(files, path));
    if lists(files, other) {
        let i = choose|i: int| 0 <= i < files.len() && (#[trigger] files[i]).0 == other;
        assert(i == 0);
    }
}

// ---------------------------------------------------------------------------------------------
// The turn of a file
// ---------------------------------------------------------------------------------------------

/// When the turn of a file comes its row says so and is reported, and the disk is looked at. In a
/// cancelled task, and for a file that was paused meanwhile, the transfer stops at once instead, and
/// the file is cancelled. Nothing else of the row or the task changes.
pub proof fn law_turn_of_a_file(
    task: TaskView,
    id: Seq<char>,
    path: Seq<char>,
    lang: Seq<char>,
    other: Seq<char>,
)
    requires
        task.files.dom().contains(path),
    ensures
        ({
            let o = admitted(task, id, path, lang);
            let goes = !task.cancelled && task.files[path].status != FileStatus::Cancelled;
            &&& o.action == if goes {
                ActionView::Probe
            } else {
                ActionView::Stop
            }
            &&& o.task.files[path].status == if goes {
                FileStatus::Downloading
            } else {
                FileStatus::Cancelled
            }
            &&& o.task.files[path].path == task.files[path].path
            &&& o.task.files[path].downloaded == task.files[path].downloaded
            &&& o.task.files[path].total == task.files[path].total
            &&& o.task.files[path].speed == task.files[path].speed
            &&& o.task.files[path].error == task.files[path].error
            &&& o.task.files.dom() == task.files.dom()
            &&& other != path ==> o.task.files[other] == task.files[other]
            &&& o.task == (TaskView { files: o.task.files, ..task })
            &&& o.messages.len() > 0
            &&& o.messages.last() == MsgView::File(o.task.files[path])
            &&& o.transfer.task_id == id
            &&& o.transfer.path == path
            &&& o.transfer.lang == lang
            &&& o.transfer.known_total == task.files[path].total
            &&& o.transfer.attempt == 0
        }),
{
    assert(admitted(task, id, path, lang).task.files.dom() =~= task.files.dom());
}

} // verus!
