//! What holds of every click and every message, whatever the window shows.

use vstd::prelude::*;
use crate::addresses::{is_blank, law_blank_is_trimmed_away};
use crate::config::ConfigView;
use crate::download::{FileStatus, FileView};
use crate::engine::MsgView;
use crate::hf_api::{target_dir, EntryView, FileEntry, RepoInfo, RepoView, TokenView};
use crate::i18n::LangView;
use crate::platform::lang_of_locale;
use crate::session::SessionView;
use crate::text::{
    all_digits, decimal, law_decimal_reads_back, law_trim_settles, number, trimmed,
};
use crate::ui::{lookup_said, ticked, waiting_rows, AppView, StatusView};

verus! {

// ---------------------------------------------------------------------------------------------
// Starting a download
// ---------------------------------------------------------------------------------------------

/// What a start launches is of the open repository: its id, its kind and its revision, from the
/// mirror of the settings into the directory of the repository. It is launched if and only if a
/// repository is open and something is ticked.
pub proof fn law_launch_is_of_the_open_repository(app: AppView, sep: char)
    ensures
        app.launch(sep) is Some == (app.repo_info is Some && exists|p: Seq<char>|
            app.selected.contains(p)),
        app.launch(sep) matches Some(l) ==> {
            &&& l.task_id == "task-"@ + app.repo_info->0.repo_id
            &&& l.repo_id == app.repo_info->0.repo_id
            &&& l.repo_type == app.repo_info->0.repo_type
            &&& l.revision == app.repo_info->0.revision
            &&& l.endpoint == trimmed(app.config.endpoint)
            &&& l.target_dir == target_dir(l.repo_id, trimmed(app.config.download_dir), sep)
            &&& l.target_dir == app.save_place(sep)
        },
{
    if exists|p: Seq<char>| app.selected.contains(p) {
        let p = choose|p: Seq<char>| app.selected.contains(p);
        assert(!app.selected.is_empty()) by {
            if app.selected.is_empty() {
                assert(app.selected =~= Set::<Seq<char>>::empty());
            }
        }
    } else {
        assert(app.selected =~= Set::<Seq<char>>::empty());
    }
}

/// The click that launches a download also writes the record of it: of the same repository, in the
/// same revision, with the same files, from the same mirror, into the same directory. The record is
/// that of this process, and carries the time and all that is known of the repository.
pub proof fn law_record_is_of_the_launch(app: AppView, pid: u32, now: u64, sep: char)
    requires
        app.launch(sep) is Some,
    ensures
        ({
            let l = app.launch(sep)->0;
            let after = app.after_start(pid, now, sep);
            &&& after.active_task_id == Some(l.task_id)
            &&& after.current_session matches Some(s)
            &&& s.repo_id == l.repo_id
            &&& s.repo_type == l.repo_type
            &&& s.revision == l.revision
            &&& s.subpath == app.repo_info->0.subpath
            &&& s.endpoint == l.endpoint
            &&& s.download_dir == trimmed(app.config.download_dir)
            &&& s.target_dir == l.target_dir
            &&& s.files == l.files
            &&& s.pid == pid
            &&& s.updated_at == now
            &&& exists|digits: Seq<char>|
                {
                    &&& all_digits(digits)
                    &&& number(digits) == pid
                    &&& s.session_id == "session-"@ + #[trigger] digits.skip(0)
                }
        }),
{
    law_decimal_reads_back(pid as nat);
    let digits = decimal(pid as nat);
    assert(digits.skip(0) =~= digits);
}

/// Nothing but the record, the rows, the running task and the status line changes when a download
/// is started, and nothing but the status line when none can be: it asks for a repository, or for
/// a file to be ticked.
pub proof fn law_start_keeps_the_rest(app: AppView, pid: u32, now: u64, sep: char)
    ensures
        ({
            let after = app.after_start(pid, now, sep);
            &&& after == (AppView {
                current_session: after.current_session,
                file_states: after.file_states,
                active_task_id: after.active_task_id,
                status: after.status,
                ..app
            })
            &&& app.launch(sep) is None ==> after == (AppView { status: after.status, ..app })
            &&& app.repo_info is None ==> after.status == StatusView::Tr("no_repo"@)
            &&& app.repo_info is Some && app.launch(sep) is None ==> after.status
                == StatusView::Tr("no_select"@)
            &&& app.launch(sep) is Some ==> after.status == StatusView::Tr("starting"@)
        }),
{
}

/// Whether `at` are the places of the ticked files in the list, from first to last.
pub open spec fn are_ticks(at: Seq<int>, all: Seq<EntryView>, selected: Set<Seq<char>>) -> bool {
    &&& forall|k: int| 0 <= k < at.len() ==> 0 <= #[trigger] at[k] < all.len()
    &&& forall|j: int, k: int| 0 <= j < k < at.len() ==> #[trigger] at[j] < #[trigger] at[k]
    &&& forall|i: int|
        0 <= i < all.len() ==> (selected.contains((#[trigger] all[i]).path) == at.contains(i))
}

spec fn tick_places(all: Seq<EntryView>, selected: Set<Seq<char>>) -> Seq<int>
    decreases all.len(),
{
    if all.len() == 0 {
        Seq::empty()
    } else if selected.contains(all.last().path) {
        tick_places(all.drop_last(), selected).push(all.len() - 1)
    } else {
        tick_places(all.drop_last(), selected)
    }
}

proof fn lemma_tick_places(all: Seq<EntryView>, selected: Set<Seq<char>>)
    ensures
        are_ticks(tick_places(all, selected), all, selected),
        tick_places(all, selected).len() == ticked(all, selected).len(),
        forall|k: int|
            0 <= k < tick_places(all, selected).len() ==> {
                let e = all[tick_places(all, selected)[k]];
                #[trigger] ticked(all, selected)[k] == (e.path, e.size)
            },
    decreases all.len(),
{
    if all.len() > 0 {
        let less = all.drop_last();
        lemma_tick_places(less, selected);
        let before = tick_places(less, selected);
        let at = tick_places(all, selected);
        let files = ticked(all, selected);
        assert forall|i: int| 0 <= i < all.len() implies selected.contains(
            (#[trigger] all[i]).path,
        ) == at.contains(i) by {
            if i < less.len() {
                assert(all[i] == less[i]);
                if before.contains(i) {
                    let k = choose|k: int| 0 <= k < before.len() && before[k] == i;
                    assert(at[k] == i);
                }
                if at.contains(i) {
                    let k = choose|k: int| 0 <= k < at.len() && at[k] == i;
                    if k < before.len() {
                        assert(before[k] == i);
                    }
                }
            } else {
                if selected.contains(all.last().path) {
                    assert(at[before.len() as int] == i);
                }
                if at.contains(i) {
                    let k = choose|k: int| 0 <= k < at.len() && at[k] == i;
                    if k < before.len() {
                        assert(before[k] < less.len());
                    }
                }
            }
        }
        assert forall|k: int| 0 <= k < at.len() implies #[trigger] files[k] == (
            all[at[k]].path,
            all[at[k]].size,
        ) by {
            if k < before.len() {
                assert(files[k] == ticked(less, selected)[k]);
                assert(at[k] == before[k]);
                assert(all[at[k]] == less[before[k]]);
            }
        }
    }
}

/// What is launched are the ticked files of the list, each once, in the order of the list, with
/// their sizes.
pub proof fn law_ticked_files_are_launched_in_order(app: AppView, sep: char)
    requires
        app.launch(sep) is Some,
    ensures
        exists|at: Seq<int>|
            {
                &&& #[trigger] are_ticks(at, app.file_entries, app.selected)
                &&& at.len() == app.launch(sep)->0.files.len()
                &&& forall|k: int|
                    0 <= k < at.len() ==> {
                        let e = app.file_entries[at[k]];
                        #[trigger] app.launch(sep)->0.files[k] == (e.path, e.size)
                    }
            },
{
    lemma_tick_places(app.file_entries, app.selected);
}

/// Whether `path` is listed in the place `i` of `files` and not behind it.
pub open spec fn last_listed(files: Seq<(Seq<char>, u64)>, path: Seq<char>, i: int) -> bool {
    &&& 0 <= i < files.len()
    &&& files[i].0 == path
    &&& forall|j: int| i < j < files.len() ==> (#[trigger] files[j]).0 != path
}

proof fn lemma_rows(files: Seq<(Seq<char>, u64)>, path: Seq<char>)
    ensures
        waiting_rows(files).dom().contains(path) == exists|i: int|
            0 <= i < files.len() && (#[trigger] files[i]).0 == path,
        waiting_rows(files).dom().contains(path) ==> {
            let row = waiting_rows(files)[path];
            &&& row.path == path
            &&& row.status == FileStatus::Pending
            &&& row.downloaded == 0
            &&& row.speed == 0
            &&& row.error is None
            &&& exists|i: int| #[trigger] last_listed(files, path, i) && row.total == files[i].1
        },
    decreases files.len(),
{
    if files.len() > 0 {
        let less = files.drop_last();
        lemma_rows(less, path);
        if files.last().0 == path {
            assert(files[files.len() - 1].0 == path);
            assert(last_listed(files, path, files.len() - 1));
        } else {
            if waiting_rows(less).dom().contains(path) {
                let row = waiting_rows(less)[path];
                let i = choose|i: int| #[trigger]
                    last_listed(less, path, i) && row.total == less[i].1;
                assert(files[i] == less[i]);
                assert forall|j: int| i < j < files.len() implies (#[trigger] files[j]).0
                    != path by {
                    if j < less.len() {
                        assert(files[j] == less[j]);
                    }
                }
                assert(last_listed(files, path, i));
            }
            if exists|i: int| 0 <= i < files.len() && (#[trigger] files[i]).0 == path {
                let i = choose|i: int| 0 <= i < files.len() && (#[trigger] files[i]).0 == path;
                assert(less[i].0 == path);
            }
        }
    }
}

/// Right after a start the rows are those of the launched files and no others. In each a file
/// waits, with its listed size; where a path is listed twice, the later size counts.
pub proof fn law_rows_are_of_the_launched_files(
    app: AppView,
    pid: u32,
    now: u64,
    sep: char,
    path: Seq<char>,
)
    requires
        app.launch(sep) is Some,
    ensures
        ({
            let files = app.launch(sep)->0.files;
            let rows = app.after_start(pid, now, sep).file_states;
            let row = rows[path];
            &&& rows.dom().contains(path) == exists|i: int|
                0 <= i < files.len() && (#[trigger] files[i]).0 == path
            &&& rows.dom().contains(path) ==> {
                &&& row.path == path
                &&& row.status == FileStatus::Pending
                &&& row.downloaded == 0
                &&& row.speed == 0
                &&& row.error is None
                &&& exists|i: int| #[trigger] last_listed(files, path, i) && row.total == files[i].1
            }
        }),
{
    let files = app.launch(sep)->0.files;
    let rows = app.after_start(pid, now, sep).file_states;
    lemma_rows(files, path);
    assert(rows == waiting_rows(files));
    if rows.dom().contains(path) {
        let i = choose|i: int| #[trigger]
            last_listed(files, path, i) && rows[path].total == files[i].1;
        assert(last_listed(files, path, i));
    }
}

// ---------------------------------------------------------------------------------------------
// Recovery
// ---------------------------------------------------------------------------------------------

/// A window into which a record is restored shows the repository of the record, its files all
/// ticked and waiting, and has its directory and mirror in the settings. What the record does not
/// speak of stays as it was.
pub proof fn law_restored_window_shows_the_record(app: AppView, s: SessionView, path: Seq<char>)
    ensures
        ({
            let r = app.restored(s);
            &&& r.repo_info matches Some(info)
            &&& info.repo_id == s.repo_id
            &&& info.repo_type == s.repo_type
            &&& info.revision == s.revision
            &&& info.subpath == s.subpath
            &&& r.file_entries.len() == s.files.len()
            &&& forall|i: int|
                0 <= i < s.files.len() ==> (#[trigger] r.file_entries[i]).path == s.files[i].0
                    && r.file_entries[i].size == s.files[i].1
            &&& r.selected.contains(path) == exists|i: int|
                0 <= i < s.files.len() && (#[trigger] s.files[i]).0 == path
            &&& r.file_states.dom().contains(path) == r.selected.contains(path)
            &&& r.file_states.dom().contains(path) ==> r.file_states[path].status
                == FileStatus::Pending && r.file_states[path].path == path
            &&& r.active_task_id == Some("task-"@ + s.repo_id)
            &&& r.config.download_dir == s.download_dir
            &&& r.config.endpoint == s.endpoint
            &&& r.config.download_dir_set == app.config.download_dir_set
            &&& r.config.hf_logged_in == app.config.hf_logged_in
            &&& r.config.language == app.config.language
            &&& r.status == StatusView::Tr("recovered"@)
            &&& r == (AppView {
                config: r.config,
                repo_info: r.repo_info,
                file_entries: r.file_entries,
                selected: r.selected,
                file_states: r.file_states,
                active_task_id: r.active_task_id,
                status: r.status,
                ..app
            })
        }),
{
    lemma_rows(s.files, path);
}

// ---------------------------------------------------------------------------------------------
// Messages
// ---------------------------------------------------------------------------------------------

/// A report on a file is shown in the row of that file, and touches nothing else.
pub proof fn law_report_is_shown(app: AppView, f: FileView, other: Seq<char>, reg: LangView)
    ensures
        ({
            let after = app.received(MsgView::File(f), reg);
            &&& after == (AppView { file_states: after.file_states, ..app })
            &&& after.file_states.dom().contains(f.path)
            &&& after.file_states[f.path] == f
            &&& other != f.path ==> after.file_states.dom().contains(other)
                == app.file_states.dom().contains(other)
            &&& other != f.path && app.file_states.dom().contains(other)
                ==> after.file_states[other] == app.file_states[other]
        }),
{
}

/// The end of the running task is said in the status line, and its record is dropped; the rows stay
/// to be looked at.
pub proof fn law_end_drops_the_record(app: AppView, id: Seq<char>, reg: LangView)
    requires
        app.active_task_id == Some(id),
    ensures
        ({
            let after = app.received(MsgView::Done(id), reg);
            &&& app.ends_with(MsgView::Done(id))
            &&& after.current_session is None
            &&& after.status == StatusView::Tr("done"@)
            &&& after == (AppView {
                current_session: after.current_session,
                status: after.status,
                ..app
            })
        }),
{
}

/// A list of files that comes is shown with its repository, and the window is no longer busy. The
/// status line counts the files. The settings, the input and the record of a running download stay.
pub proof fn law_list_is_shown(
    app: AppView,
    info: RepoView,
    list: Seq<EntryView>,
    reg: LangView,
)
    requires
        list.len() <= usize::MAX,
    ensures
        ({
            let after = app.received(MsgView::RepoListed(info, list), reg);
            &&& after.repo_info == Some(info)
            &&& after.file_entries == list
            &&& !after.busy
            &&& after.status matches StatusView::TrCount(key, n, unit)
            &&& key == "listed"@ && n == list.len() && unit == "files"@
            &&& after.config == app.config && after.lang == app.lang
            &&& after.repo_input == app.repo_input
            &&& after.current_session == app.current_session
            &&& after.token_status == app.token_status && after.token_input == app.token_input
            &&& after.recovery_sessions == app.recovery_sessions
            &&& after.show_settings == app.show_settings && after.show_about == app.show_about
            &&& after.show_token_dialog == app.show_token_dialog
            &&& after.show_recovery == app.show_recovery
        }),
{
}

/// An error is said in the status line behind the word for it, and the window is no longer busy.
pub proof fn law_error_is_said(app: AppView, e: Seq<char>, reg: LangView)
    ensures
        ({
            let after = app.received(MsgView::ApiError(e), reg);
            &&& after.status_line(reg) == reg.translated("error"@, app.lang) + ": "@ + e
            &&& !after.busy
            &&& after == (AppView { status: after.status, busy: false, ..app })
        }),
{
}

/// What a check of the token found is shown, and the settings remember whether it was accepted.
pub proof fn law_token_is_remembered(app: AppView, s: TokenView, reg: LangView)
    ensures
        ({
            let after = app.received(MsgView::TokenChecked(s), reg);
            &&& after.token_status == Some(s)
            &&& after.config.hf_logged_in == Some(s.status == "logged_in"@)
            &&& after.config == (ConfigView {
                hf_logged_in: after.config.hf_logged_in,
                ..app.config
            })
            &&& after == (AppView {
                token_status: after.token_status,
                config: after.config,
                ..app
            })
        }),
{
}

/// Messages are taken in one after the other: those that come in two batches do what they do in
/// one.
pub proof fn law_messages_are_taken_in_order(
    app: AppView,
    one: Seq<MsgView>,
    other: Seq<MsgView>,
    msg: MsgView,
    reg: LangView,
)
    ensures
        app.drained(Seq::empty(), reg) == app,
        app.drained(seq![msg], reg) == app.received(msg, reg),
        app.drained(one + other, reg) == app.drained(one, reg).drained(other, reg),
        app.ends_among(one + other, reg) == (app.ends_among(one, reg) || app.drained(
            one,
            reg,
        ).ends_among(other, reg)),
        app.ends_among(seq![msg], reg) == app.ends_with(msg),
        !app.ends_among(Seq::empty(), reg),
    decreases other.len(),
{
    assert(seq![msg].drop_last() =~= Seq::<MsgView>::empty());
    assert(app.drained(seq![msg].drop_last(), reg) == app);
    assert(!app.ends_among(seq![msg].drop_last(), reg));
    if other.len() == 0 {
        assert(one + other =~= one);
    } else {
        law_messages_are_taken_in_order(app, one, other.drop_last(), msg, reg);
        assert((one + other).drop_last() =~= one + other.drop_last());
        assert((one + other).last() == other.last());
    }
}

// ---------------------------------------------------------------------------------------------
// Status line and settings
// ---------------------------------------------------------------------------------------------

/// The status line says a key in the language of the window, a count behind its text and before
/// its unit, and a text as it is.
pub proof fn law_status_line_says(
    app: AppView,
    key: Seq<char>,
    n: usize,
    unit: Seq<char>,
    reg: LangView,
)
    ensures
        (AppView { status: StatusView::Empty, ..app }).status_line(reg).len() == 0,
        (AppView { status: StatusView::Text(key), ..app }).status_line(reg) == key,
        (AppView { status: StatusView::Tr(key), ..app }).status_line(reg) == reg.translated(
            key,
            app.lang,
        ),
        exists|digits: Seq<char>|
            {
                &&& all_digits(digits)
                &&& number(digits) == n
                &&& (AppView { status: StatusView::TrCount(key, n, unit), ..app }).status_line(reg)
                    == reg.translated(key, app.lang) + ": "@ + #[trigger] digits.skip(0) + " "@
                    + reg.translated(unit, app.lang)
            },
{
    law_decimal_reads_back(n as nat);
    let digits = decimal(n as nat);
    assert(digits.skip(0) =~= digits);
}

/// A window opens empty and idle, in the language of the settings or, where they name none, in the
/// one for the locale.
pub proof fn law_window_opens_empty(config: ConfigView, locale: Option<Seq<char>>)
    ensures
        ({
            let w = AppView::opened(config, locale);
            &&& w.config == config
            &&& config.language matches Some(code) ==> w.lang == code
            &&& config.language is None ==> w.lang == lang_of_locale(locale)
            &&& w.repo_input.len() == 0 && w.token_input.len() == 0
            &&& w.repo_info is None && w.active_task_id is None && w.token_status is None
            &&& w.current_session is None
            &&& w.file_entries.len() == 0 && w.recovery_sessions.len() == 0
            &&& w.selected.is_empty()
            &&& w.file_states.dom().is_empty()
            &&& w.status is Empty
            &&& !w.busy && !w.show_settings && !w.show_token_dialog && !w.show_about
                && !w.show_recovery
        }),
{
    assert(AppView::opened(config, locale).file_states.dom() =~= Set::<Seq<char>>::empty());
}

/// Saved settings are those that were typed, without white space around the directory and the
/// mirror. A directory counts as chosen if it did before, or if it is neither blank nor the default
/// one. Saving twice is saving once.
pub proof fn law_settings_are_saved_as_typed(app: AppView, default_dir: Seq<char>)
    ensures
        ({
            let after = app.after_save(default_dir);
            &&& after.config.download_dir == trimmed(app.config.download_dir)
            &&& after.config.endpoint == trimmed(app.config.endpoint)
            &&& after.config.download_dir_set == (app.config.download_dir_set || trimmed(
                app.config.download_dir,
            ).len() > 0 && trimmed(app.config.download_dir) != default_dir)
            &&& after.config.language == app.config.language
            &&& after.config.hf_logged_in == app.config.hf_logged_in
            &&& !after.show_settings
            &&& after == (AppView { config: after.config, show_settings: false, ..app })
            &&& after.after_save(default_dir) == after
        }),
{
    law_trim_settles(app.config.download_dir);
    law_trim_settles(app.config.endpoint);
}

// ---------------------------------------------------------------------------------------------
// Requests
// ---------------------------------------------------------------------------------------------

/// A click on "list files" looks up what was typed, without the white space around it, on the
/// mirror of the settings, and the window is busy. Blank input is not looked up, and the status
/// line says so. The input is left without the white space, and nothing else changes.
pub proof fn law_input_is_looked_up(app: AppView)
    ensures
        app.lookup() is Some == !is_blank(app.repo_input),
        app.lookup() matches Some((input, endpoint)) ==> {
            &&& input == trimmed(app.repo_input)
            &&& endpoint == trimmed(app.config.endpoint)
            &&& app.after_lookup().busy
            &&& app.after_lookup().status == StatusView::Tr("listing"@)
        },
        app.lookup() is None ==> app.after_lookup().status == StatusView::Tr("err_empty"@)
            && app.after_lookup().busy == app.busy,
        app.after_lookup() == (AppView {
            repo_input: trimmed(app.repo_input),
            busy: app.after_lookup().busy,
            status: app.after_lookup().status,
            ..app
        }),
{
    law_blank_is_trimmed_away(app.repo_input);
}

/// A click on "login" has the typed token checked, without the white space around it, on the mirror
/// of the settings; the dialog closes and forgets the token. A blank token changes nothing.
pub proof fn law_typed_token_is_checked(app: AppView)
    ensures
        app.login_asked() is Some == !is_blank(app.token_input),
        app.login_asked() matches Some((token, endpoint)) ==> {
            &&& token == trimmed(app.token_input)
            &&& endpoint == trimmed(app.config.endpoint)
            &&& app.after_login().token_input.len() == 0
            &&& !app.after_login().show_token_dialog
        },
        app.login_asked() is None ==> app.after_login() == app,
        app.after_login() == (AppView {
            token_input: app.after_login().token_input,
            show_token_dialog: app.after_login().show_token_dialog,
            ..app
        }),
{
    law_blank_is_trimmed_away(app.token_input);
}

/// A retry asks for the very file, in the running task, from the mirror of the settings, into the
/// directory that files go to. So it goes on where a launch began. Without a running task there is
/// none.
pub proof fn law_retry_is_of_the_running_task(
    app: AppView,
    path: Seq<char>,
    pid: u32,
    now: u64,
    sep: char,
)
    ensures
        app.retry_asked(path, sep) is Some == app.active_task_id is Some,
        app.retry_asked(path, sep) matches Some(q) ==> {
            &&& app.active_task_id == Some(q.task_id)
            &&& q.path == path
            &&& q.endpoint == trimmed(app.config.endpoint)
            &&& q.target_dir == app.save_place(sep)
        },
        app.launch(sep) matches Some(l) ==> {
            let q = app.after_start(pid, now, sep).retry_asked(path, sep);
            &&& q is Some
            &&& q->0.task_id == l.task_id
            &&& q->0.endpoint == l.endpoint
            &&& q->0.target_dir == l.target_dir
        },
{
}

/// A lookup that went well says the repository and its files. One that did not says what went
/// wrong: with the address, or, if that could be read, with the list.
pub proof fn law_lookup_says_what_came_of_it(
    info: Result<RepoInfo, String>,
    list: Result<Vec<FileEntry>, String>,
)
    ensures
        match lookup_said(info, list) {
            MsgView::RepoListed(i, files) => info is Ok && list is Ok && i == info->Ok_0@
                && files.len() == list->Ok_0@.len() && forall|k: int|
                0 <= k < files.len() ==> (#[trigger] files[k]).path == list->Ok_0@[k].path@
                    && files[k].size == list->Ok_0@[k].size,
            MsgView::ApiError(e) => {
                &&& info is Err ==> e == info->Err_0@
                &&& info is Ok ==> list is Err && e == list->Err_0@
            },
            _ => false,
        },
{
}

/// Files go below the directory for downloads: to that of the open repository, or into the
/// directory itself where none is open. White space around the directory does not count.
pub proof fn law_files_go_to_the_open_repository(app: AppView, sep: char)
    ensures
        app.repo_info is None ==> app.save_place(sep) == trimmed(app.config.download_dir),
        app.repo_info matches Some(info) ==> app.save_place(sep) == target_dir(
            info.repo_id,
            trimmed(app.config.download_dir),
            sep,
        ),
{
}

} // verus!
