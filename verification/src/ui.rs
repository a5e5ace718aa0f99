//! The state behind the window, and what each click and each message does to it.
//!
//! Nothing here draws, waits or writes. What is to be done outside is handed back as a value.

use vstd::prelude::*;
use crate::config::{AppConfig, ConfigView};
use crate::download::{rows, sized, waiting, FileState, FileStatus, FileView};
use crate::engine::{said, MsgView, UiMsg};
use crate::hf_api::{
    entries, reported, target_dir, target_dir_with, EntryView, FileEntry, RepoInfo, RepoView,
    TokenStatus, TokenView,
};
use crate::i18n::{t, LangRegistry, LangView};
use crate::platform::{detect_system_lang, lang_of_locale};
use crate::session::{
    id_of, records, session_files, session_id_of, Session, SessionFileEntry, SessionView,
};
use crate::table::Table;
use crate::text::{
    cat, cat3, decimal, decimal_of, law_trim_settles, opt_text, str_eq, trim, trimmed,
};

verus! {

// ---------------------------------------------------------------------------------------------
// State
// ---------------------------------------------------------------------------------------------

/// The status line. It is kept as keys, so that it follows a change of the language.
pub enum StatusMsg {
    Empty,
    Text(String),
    /// A translated text.
    Tr(&'static str),
    /// A translated text, a number, and a translated unit.
    TrCount(&'static str, usize, &'static str),
}

/// What a status line says.
pub enum StatusView {
    Empty,
    Text(Seq<char>),
    Tr(Seq<char>),
    TrCount(Seq<char>, usize, Seq<char>),
}

impl View for StatusMsg {
    type V = StatusView;

    open spec fn view(&self) -> StatusView {
        match *self {
            StatusMsg::Empty => StatusView::Empty,
            StatusMsg::Text(s) => StatusView::Text(s@),
            StatusMsg::Tr(k) => StatusView::Tr(k@),
            StatusMsg::TrCount(k, n, u) => StatusView::TrCount(k@, n, u@),
        }
    }
}

/// Everything that the window shows.
pub struct App {
    pub config: AppConfig,
    pub lang: String,
    pub repo_input: String,
    pub repo_info: Option<RepoInfo>,
    pub file_entries: Vec<FileEntry>,
    /// The ticked files.
    pub selected: Table<()>,
    pub file_states: Table<FileState>,
    pub active_task_id: Option<String>,
    pub status: StatusMsg,
    pub token_status: Option<TokenStatus>,
    pub token_input: String,
    pub show_settings: bool,
    pub show_token_dialog: bool,
    pub show_about: bool,
    pub busy: bool,
    /// The record of the download that is running.
    pub current_session: Option<Session>,
    /// Records of earlier runs to choose from.
    pub recovery_sessions: Vec<Session>,
    pub show_recovery: bool,
}

/// What the window shows.
#[verifier::ext_equal]
pub struct AppView {
    pub config: ConfigView,
    pub lang: Seq<char>,
    pub repo_input: Seq<char>,
    pub repo_info: Option<RepoView>,
    pub file_entries: Seq<EntryView>,
    pub selected: Set<Seq<char>>,
    pub file_states: Map<Seq<char>, FileView>,
    pub active_task_id: Option<Seq<char>>,
    pub status: StatusView,
    pub token_status: Option<TokenView>,
    pub token_input: Seq<char>,
    pub show_settings: bool,
    pub show_token_dialog: bool,
    pub show_about: bool,
    pub busy: bool,
    pub current_session: Option<SessionView>,
    pub recovery_sessions: Seq<SessionView>,
    pub show_recovery: bool,
}

/// The repository, if one is open.
pub open spec fn opt_repo(o: Option<RepoInfo>) -> Option<RepoView> {
    match o {
        Some(i) => Some(i@),
        None => None,
    }
}

/// The state of the token, if it is known.
pub open spec fn opt_token(o: Option<TokenStatus>) -> Option<TokenView> {
    match o {
        Some(s) => Some(s@),
        None => None,
    }
}

/// The record, if there is one.
pub open spec fn opt_record(o: Option<Session>) -> Option<SessionView> {
    match o {
        Some(s) => Some(s@),
        None => None,
    }
}

impl View for App {
    type V = AppView;

    open spec fn view(&self) -> AppView {
        AppView {
            config: self.config@,
            lang: self.lang@,
            repo_input: self.repo_input@,
            repo_info: opt_repo(self.repo_info),
            file_entries: entries(self.file_entries@),
            selected: self.selected@.dom(),
            file_states: rows(self.file_states@),
            active_task_id: opt_text(self.active_task_id),
            status: self.status@,
            token_status: opt_token(self.token_status),
            token_input: self.token_input@,
            show_settings: self.show_settings,
            show_token_dialog: self.show_token_dialog,
            show_about: self.show_about,
            busy: self.busy,
            current_session: opt_record(self.current_session),
            recovery_sessions: records(self.recovery_sessions@),
            show_recovery: self.show_recovery,
        }
    }
}

impl AppView {
    /// A window that was just opened. It speaks the language that the user chose, else that of the
    /// system.
    pub open spec fn opened(config: ConfigView, locale: Option<Seq<char>>) -> AppView {
        AppView {
            config,
            lang: match config.language {
                Some(code) => code,
                None => lang_of_locale(locale),
            },
            repo_input: Seq::empty(),
            repo_info: None,
            file_entries: Seq::empty(),
            selected: Set::empty(),
            file_states: Map::empty(),
            active_task_id: None,
            status: StatusView::Empty,
            token_status: None,
            token_input: Seq::empty(),
            show_settings: false,
            show_token_dialog: false,
            show_about: false,
            busy: false,
            current_session: None,
            recovery_sessions: Seq::empty(),
            show_recovery: false,
        }
    }

    /// What `key` reads in the language of the window.
    pub open spec fn tr(self, key: Seq<char>, reg: LangView) -> Seq<char> {
        reg.translated(key, self.lang)
    }
}

impl App {
    /// Opens the window.
    pub fn new(config: AppConfig, locale: &Option<String>) -> (r: App)
        ensures
            r@ == AppView::opened(config@, opt_text(*locale)),
    {
        let lang = match &config.language {
            Some(code) => code.clone(),
            None => detect_system_lang(locale),
        };
        let r = App {
            config,
            lang,
            repo_input: String::new(),
            repo_info: None,
            file_entries: Vec::new(),
            selected: Table::new(),
            file_states: Table::new(),
            active_task_id: None,
            status: StatusMsg::Empty,
            token_status: None,
            token_input: String::new(),
            show_settings: false,
            show_token_dialog: false,
            show_about: false,
            busy: false,
            current_session: None,
            recovery_sessions: Vec::new(),
            show_recovery: false,
        };
        assert(r@ =~= AppView::opened(config@, opt_text(*locale)));
        r
    }

    /// What `key` reads in the language of the window.
    pub fn t(&self, key: &str, reg: &LangRegistry) -> (r: String)
        ensures
            r@ == self@.tr(key@, reg@),
    {
        t(key, self.lang.as_str(), reg)
    }

    /// The mirror that requests go to.
    pub fn endpoint(&self) -> (r: String)
        ensures
            r@ == trimmed(self@.config.endpoint),
    {
        trim(self.config.endpoint.as_str())
    }
}

// ---------------------------------------------------------------------------------------------
// The status line
// ---------------------------------------------------------------------------------------------

impl AppView {
    /// The status line in the language of the window.
    pub open spec fn status_line(self, reg: LangView) -> Seq<char> {
        match self.status {
            StatusView::Empty => Seq::empty(),
            StatusView::Text(s) => s,
            StatusView::Tr(k) => self.tr(k, reg),
            StatusView::TrCount(k, n, u) => self.tr(k, reg) + ": "@ + decimal(n as nat) + " "@
                + self.tr(u, reg),
        }
    }
}

impl App {
    /// The status line in the language of the window.
    pub fn status_text(&self, reg: &LangRegistry) -> (r: String)
        ensures
            r@ == self@.status_line(reg@),
    {
        match &self.status {
            StatusMsg::Empty => {
                let r = String::new();
                assert(r@ =~= Seq::<char>::empty());
                r
            },
            StatusMsg::Text(s) => s.clone(),
            StatusMsg::Tr(k) => self.t(*k, reg),
            StatusMsg::TrCount(k, n, u) => {
                let what = self.t(*k, reg);
                let number = decimal_of(*n as u64);
                let unit = self.t(*u, reg);
                let mut r = cat3(what.as_str(), ": ", number.as_str());
                r.append(" ");
                r.append(unit.as_str());
                r
            },
        }
    }
}

// ---------------------------------------------------------------------------------------------
// Starting a download
// ---------------------------------------------------------------------------------------------

/// What the engine is to start.
pub struct Launch {
    pub task_id: String,
    pub repo_id: String,
    pub repo_type: String,
    pub revision: String,
    pub target_dir: String,
    pub endpoint: String,
    pub files: Vec<(String, u64)>,
}

/// The characters and numbers behind a [`Launch`].
#[verifier::ext_equal]
pub struct LaunchView {
    pub task_id: Seq<char>,
    pub repo_id: Seq<char>,
    pub repo_type: Seq<char>,
    pub revision: Seq<char>,
    pub target_dir: Seq<char>,
    pub endpoint: Seq<char>,
    pub files: Seq<(Seq<char>, u64)>,
}

impl View for Launch {
    type V = LaunchView;

    open spec fn view(&self) -> LaunchView {
        LaunchView {
            task_id: self.task_id@,
            repo_id: self.repo_id@,
            repo_type: self.repo_type@,
            revision: self.revision@,
            target_dir: self.target_dir@,
            endpoint: self.endpoint@,
            files: sized(self.files@),
        }
    }
}

/// What is launched, if anything is.
pub open spec fn opt_launch(o: Option<Launch>) -> Option<LaunchView> {
    match o {
        Some(l) => Some(l@),
        None => None,
    }
}

/// The id of the task of a repository.
pub open spec fn task_id_of(repo_id: Seq<char>) -> Seq<char> {
    "task-"@ + repo_id
}

/// The files of `all` that are ticked, in order.
pub open spec fn ticked(all: Seq<EntryView>, selected: Set<Seq<char>>) -> Seq<(Seq<char>, u64)>
    decreases all.len(),
{
    if all.len() == 0 {
        Seq::empty()
    } else {
        let before = ticked(all.drop_last(), selected);
        if selected.contains(all.last().path) {
            before.push((all.last().path, all.last().size))
        } else {
            before
        }
    }
}

/// A waiting row for each of `files`.
pub open spec fn waiting_rows(files: Seq<(Seq<char>, u64)>) -> Map<Seq<char>, FileView>
    decreases files.len(),
{
    if files.len() == 0 {
        Map::empty()
    } else {
        waiting_rows(files.drop_last()).insert(
            files.last().0,
            waiting(files.last().0, files.last().1),
        )
    }
}

impl AppView {
    /// The files that are ticked, in order.
    pub open spec fn chosen(self) -> Seq<(Seq<char>, u64)> {
        ticked(self.file_entries, self.selected)
    }

    /// Where the files of a repository go.
    pub open spec fn place_for(self, repo_id: Seq<char>, sep: char) -> Seq<char> {
        target_dir(repo_id, trimmed(self.config.download_dir), sep)
    }

    /// Where files go: to the directory of the open repository, else to the one for downloads.
    pub open spec fn save_place(self, sep: char) -> Seq<char> {
        match self.repo_info {
            Some(info) => self.place_for(info.repo_id, sep),
            None => trimmed(self.config.download_dir),
        }
    }

    /// What a click on "start" launches: nothing without a repository or without a ticked file.
    pub open spec fn launch(self, sep: char) -> Option<LaunchView> {
        match self.repo_info {
            Some(info) if !self.selected.is_empty() => Some(
                LaunchView {
                    task_id: task_id_of(info.repo_id),
                    repo_id: info.repo_id,
                    repo_type: info.repo_type,
                    revision: info.revision,
                    target_dir: self.place_for(info.repo_id, sep),
                    endpoint: trimmed(self.config.endpoint),
                    files: self.chosen(),
                },
            ),
            _ => None,
        }
    }

    /// The record of a download of `info` by process `pid` at time `now`.
    pub open spec fn record(self, info: RepoView, pid: u32, now: u64, sep: char) -> SessionView {
        SessionView {
            session_id: id_of(pid),
            pid,
            repo_id: info.repo_id,
            repo_type: info.repo_type,
            revision: info.revision,
            subpath: info.subpath,
            endpoint: trimmed(self.config.endpoint),
            download_dir: trimmed(self.config.download_dir),
            target_dir: self.place_for(info.repo_id, sep),
            files: self.chosen(),
            updated_at: now,
        }
    }

    /// The window after a click on "start": the download is recorded, and its files are shown as
    /// waiting. Where nothing can be started, the status line says why.
    pub open spec fn after_start(self, pid: u32, now: u64, sep: char) -> AppView {
        match self.repo_info {
            None => AppView { status: StatusView::Tr("no_repo"@), ..self },
            Some(info) => if self.selected.is_empty() {
                AppView { status: StatusView::Tr("no_select"@), ..self }
            } else {
                AppView {
                    current_session: Some(self.record(info, pid, now, sep)),
                    file_states: waiting_rows(self.chosen()),
                    active_task_id: Some(task_id_of(info.repo_id)),
                    status: StatusView::Tr("starting"@),
                    ..self
                }
            },
        }
    }
}

fn recorded_files(files: &Vec<(String, u64)>) -> (r: Vec<SessionFileEntry>)
    ensures
        session_files(r@) == sized(files@),
{
    let mut r: Vec<SessionFileEntry> = Vec::new();
    let mut i: usize = 0;
    while i < files.len()
        invariant
            i <= files@.len(),
            r@.len() == i,
            forall|j: int| 0 <= j < i ==> (#[trigger] r@[j])@ == (files@[j].0@, files@[j].1),
        decreases files@.len() - i,
    {
        r.push(SessionFileEntry { path: files[i].0.clone(), size: files[i].1 });
        i += 1;
    }
    assert(session_files(r@) =~= sized(files@));
    r
}

fn show_waiting(table: &mut Table<FileState>, files: &Vec<(String, u64)>)
    ensures
        rows(final(table)@) == waiting_rows(sized(files@)),
{
    table.clear();
    assert(rows(table@) =~= Map::<Seq<char>, FileView>::empty());
    let ghost all = sized(files@);
    let mut i: usize = 0;
    while i < files.len()
        invariant
            i <= files@.len(),
            all == sized(files@),
            rows(table@) == waiting_rows(all.take(i as int)),
        decreases files@.len() - i,
    {
        proof {
            assert(all.take(i + 1).drop_last() == all.take(i as int));
            assert(all.take(i + 1).last() == (files@[i as int].0@, files@[i as int].1));
        }
        let ghost before = table@;
        let row = FileState::pending(files[i].0.as_str(), files[i].1);
        table.set(files[i].0.clone(), row);
        assert(rows(table@) =~= rows(before).insert(row@.path, row@));
        i += 1;
    }
    assert(all.take(all.len() as int) == all);
}

impl App {
    fn is_selected_empty(&self) -> (r: bool)
        ensures
            r == self@.selected.is_empty(),
    {
        proof {
            self.selected.lemma_keys();
        }
        if self.selected.len() == 0 {
            assert(self@.selected =~= Set::<Seq<char>>::empty());
            true
        } else {
            let k = self.selected.key_at(0);
            assert(self@.selected.contains(k@));
            false
        }
    }

    /// Where files go.
    pub fn save_dir(&self, sep: char) -> (r: String)
        ensures
            r@ == self@.save_place(sep),
    {
        let dir = trim(self.config.download_dir.as_str());
        match &self.repo_info {
            Some(info) => target_dir_with(info.repo_id.as_str(), dir.as_str(), sep),
            None => dir,
        }
    }

    /// The files that are ticked, in order.
    pub fn chosen(&self) -> (r: Vec<(String, u64)>)
        ensures
            sized(r@) == self@.chosen(),
    {
        let mut r: Vec<(String, u64)> = Vec::new();
        let ghost all = entries(self.file_entries@);
        let mut i: usize = 0;
        assert(sized(r@) =~= ticked(all.take(0), self@.selected));
        while i < self.file_entries.len()
            invariant
                i <= self.file_entries@.len(),
                all == entries(self.file_entries@),
                sized(r@) == ticked(all.take(i as int), self@.selected),
            decreases self.file_entries@.len() - i,
        {
            let e = &self.file_entries[i];
            proof {
                assert(all.take(i + 1).drop_last() == all.take(i as int));
                assert(all.take(i + 1).last() == e@);
            }
            if self.selected.contains(e.path.as_str()) {
                let ghost before = sized(r@);
                r.push((e.path.clone(), e.size));
                assert(sized(r@) =~= before.push((e@.path, e@.size)));
            }
            i += 1;
        }
        assert(all.take(all.len() as int) == all);
        r
    }

    /// Starts the download of the ticked files. The record to be written is `current_session`;
    /// `pid` is the number of this process and `now` the time.
    pub fn start_download(&mut self, pid: u32, now: u64, sep: char) -> (r: Option<Launch>)
        ensures
            opt_launch(r) == old(self)@.launch(sep),
            final(self)@ == old(self)@.after_start(pid, now, sep),
    {
        let info = match &self.repo_info {
            Some(i) => i.clone(),
            None => {
                self.status = StatusMsg::Tr("no_repo");
                return None;
            },
        };
        if self.is_selected_empty() {
            self.status = StatusMsg::Tr("no_select");
            return None;
        }
        let download_dir = trim(self.config.download_dir.as_str());
        let target_dir = target_dir_with(info.repo_id.as_str(), download_dir.as_str(), sep);
        let task_id = cat("task-", info.repo_id.as_str());
        let files = self.chosen();
        let endpoint = self.endpoint();
        let session = Session {
            session_id: session_id_of(pid),
            pid,
            repo_id: info.repo_id.clone(),
            repo_type: info.repo_type.clone(),
            revision: info.revision.clone(),
            subpath: info.subpath.clone(),
            endpoint: endpoint.clone(),
            download_dir,
            target_dir: target_dir.clone(),
            files: recorded_files(&files),
            updated_at: now,
        };
        self.current_session = Some(session);
        show_waiting(&mut self.file_states, &files);
        self.active_task_id = Some(task_id.clone());
        self.status = StatusMsg::Tr("starting");
        Some(
            Launch {
                task_id,
                repo_id: info.repo_id,
                repo_type: info.repo_type,
                revision: info.revision,
                target_dir,
                endpoint,
                files,
            },
        )
    }
}

// ---------------------------------------------------------------------------------------------
// Recovery
// ---------------------------------------------------------------------------------------------

/// The paths of `files`.
pub open spec fn paths_of(files: Seq<(Seq<char>, u64)>) -> Set<Seq<char>> {
    Set::new(|p: Seq<char>| exists|i: int| 0 <= i < files.len() && (#[trigger] files[i]).0 == p)
}

/// The entries of `files`.
pub open spec fn entries_of(files: Seq<(Seq<char>, u64)>) -> Seq<EntryView> {
    Seq::new(files.len(), |i: int| EntryView { path: files[i].0, size: files[i].1 })
}

impl AppView {
    /// The window with the download that `s` records: its repository, with its files all ticked
    /// and waiting.
    pub open spec fn restored(self, s: SessionView) -> AppView {
        AppView {
            config: ConfigView {
                download_dir: s.download_dir,
                endpoint: s.endpoint,
                ..self.config
            },
            repo_info: Some(
                RepoView {
                    repo_id: s.repo_id,
                    repo_type: s.repo_type,
                    revision: s.revision,
                    subpath: s.subpath,
                },
            ),
            file_entries: entries_of(s.files),
            selected: paths_of(s.files),
            file_states: waiting_rows(s.files),
            active_task_id: Some(task_id_of(s.repo_id)),
            status: StatusView::Tr("recovered"@),
            ..self
        }
    }

    /// The same, after the start of the download if that is wanted.
    pub open spec fn resumed(
        self,
        s: SessionView,
        auto_start: bool,
        pid: u32,
        now: u64,
        sep: char,
    ) -> AppView {
        if auto_start {
            self.restored(s).after_start(pid, now, sep)
        } else {
            self.restored(s)
        }
    }
}

/// What a restored download asks for: the record of process `taken_over` is to be deleted, and the
/// download is to be launched if it goes on at once.
pub struct Resumption {
    pub taken_over: u32,
    pub launch: Option<Launch>,
}

fn recovered_files(files: &Vec<SessionFileEntry>) -> (r: (Vec<FileEntry>, Vec<(String, u64)>))
    ensures
        entries(r.0@) == entries_of(session_files(files@)),
        sized(r.1@) == session_files(files@),
{
    let mut listed: Vec<FileEntry> = Vec::new();
    let mut pairs: Vec<(String, u64)> = Vec::new();
    let mut i: usize = 0;
    while i < files.len()
        invariant
            i <= files@.len(),
            listed@.len() == i,
            pairs@.len() == i,
            forall|j: int|
                0 <= j < i ==> (#[trigger] listed@[j])@ == (EntryView {
                    path: files@[j].path@,
                    size: files@[j].size,
                }),
            forall|j: int|
                0 <= j < i ==> (#[trigger] pairs@[j]).0@ == files@[j].path@ && pairs@[j].1
                    == files@[j].size,
        decreases files@.len() - i,
    {
        listed.push(FileEntry { path: files[i].path.clone(), size: files[i].size });
        pairs.push((files[i].path.clone(), files[i].size));
        i += 1;
    }
    assert(entries(listed@) =~= entries_of(session_files(files@)));
    assert(sized(pairs@) =~= session_files(files@));
    (listed, pairs)
}

fn tick_all(table: &mut Table<()>, files: &Vec<(String, u64)>)
    ensures
        final(table)@.dom() == paths_of(sized(files@)),
{
    table.clear();
    let ghost all = sized(files@);
    let mut i: usize = 0;
    assert(table@.dom() =~= paths_of(all.take(0)));
    while i < files.len()
        invariant
            i <= files@.len(),
            all == sized(files@),
            table@.dom() == paths_of(all.take(i as int)),
        decreases files@.len() - i,
    {
        let ghost before = table@.dom();
        table.set(files[i].0.clone(), ());
        proof {
            let p = files@[i as int].0@;
            let less = all.take(i as int);
            let more = all.take(i + 1);
            assert forall|q: Seq<char>| paths_of(more).contains(q) <==> paths_of(less).contains(q)
                || q == p by {
                if paths_of(less).contains(q) {
                    let j = choose|j: int| 0 <= j < less.len() && (#[trigger] less[j]).0 == q;
                    assert(more[j].0 == q);
                }
                if q == p {
                    assert(more[i as int].0 == q);
                }
                if paths_of(more).contains(q) && q != p {
                    let j = choose|j: int| 0 <= j < more.len() && (#[trigger] more[j]).0 == q;
                    assert(less[j].0 == q);
                }
            }
            assert(table@.dom() =~= paths_of(more));
        }
        i += 1;
    }
    assert(all.take(all.len() as int) == all);
}

impl App {
    /// Takes over the download that `s` records, and starts it if wanted.
    pub fn restore_session(
        &mut self,
        s: &Session,
        auto_start: bool,
        pid: u32,
        now: u64,
        sep: char,
    ) -> (r: Resumption)
        ensures
            final(self)@ == old(self)@.resumed(s@, auto_start, pid, now, sep),
            r.taken_over == s@.pid,
            opt_launch(r.launch) == if auto_start {
                old(self)@.restored(s@).launch(sep)
            } else {
                None
            },
    {
        self.config.download_dir = s.download_dir.clone();
        self.config.endpoint = s.endpoint.clone();
        self.repo_info = Some(
            RepoInfo {
                repo_id: s.repo_id.clone(),
                repo_type: s.repo_type.clone(),
                revision: s.revision.clone(),
                subpath: s.subpath.clone(),
            },
        );
        let (listed, pairs) = recovered_files(&s.files);
        self.file_entries = listed;
        tick_all(&mut self.selected, &pairs);
        show_waiting(&mut self.file_states, &pairs);
        self.active_task_id = Some(cat("task-", s.repo_id.as_str()));
        self.status = StatusMsg::Tr("recovered");
        assert(self@ =~= old(self)@.restored(s@));
        let launch = if auto_start {
            self.start_download(pid, now, sep)
        } else {
            None
        };
        Resumption { taken_over: s.pid, launch }
    }

    /// Looks at the records that earlier runs left. A single one is taken up at once; among
    /// several the user chooses.
    pub fn init_recovery(&mut self, sessions: Vec<Session>, pid: u32, now: u64, sep: char) -> (r:
        Option<Resumption>)
        ensures
            sessions@.len() == 0 ==> final(self)@ == old(self)@ && r is None,
            sessions@.len() == 1 ==> {
                let s = sessions@[0]@;
                &&& final(self)@ == old(self)@.resumed(s, true, pid, now, sep)
                &&& r matches Some(x) && x.taken_over == s.pid && opt_launch(x.launch) == old(
                    self,
                )@.restored(s).launch(sep)
            },
            sessions@.len() > 1 ==> r is None && final(self)@ == (AppView {
                recovery_sessions: records(sessions@),
                show_recovery: true,
                ..old(self)@
            }),
    {
        if sessions.len() == 0 {
            None
        } else if sessions.len() == 1 {
            Some(self.restore_session(&sessions[0], true, pid, now, sep))
        } else {
            self.recovery_sessions = sessions;
            self.show_recovery = true;
            None
        }
    }

    /// Takes up the `i`-th of the records to choose from, and closes the choice.
    pub fn resume(&mut self, i: usize, pid: u32, now: u64, sep: char) -> (r: Resumption)
        requires
            i < old(self)@.recovery_sessions.len(),
        ensures
            ({
                let s = old(self)@.recovery_sessions[i as int];
                &&& final(self)@ == (AppView {
                    recovery_sessions: Seq::empty(),
                    show_recovery: false,
                    ..old(self)@.resumed(s, true, pid, now, sep)
                })
                &&& r.taken_over == s.pid
                &&& opt_launch(r.launch) == old(self)@.restored(s).launch(sep)
            }),
    {
        let s = self.recovery_sessions[i].clone();
        let r = self.restore_session(&s, true, pid, now, sep);
        self.dismiss_recovery();
        r
    }

    /// Closes the choice of records.
    pub fn dismiss_recovery(&mut self)
        ensures
            final(self)@ == (AppView {
                recovery_sessions: Seq::empty(),
                show_recovery: false,
                ..old(self)@
            }),
    {
        self.show_recovery = false;
        self.recovery_sessions = Vec::new();
        assert(self@.recovery_sessions =~= Seq::<SessionView>::empty());
    }
}

// ---------------------------------------------------------------------------------------------
// Messages
// ---------------------------------------------------------------------------------------------

/// What is to be done after messages: delete the record of this process, save the settings.
#[derive(Debug, Clone, Copy, PartialEq, Eq, Structural)]
pub struct Aftermath {
    pub delete_session: bool,
    pub save_config: bool,
}

impl AppView {
    /// Whether a message ends the download that is running.
    pub open spec fn ends_with(self, msg: MsgView) -> bool {
        match msg {
            MsgView::Done(id) => self.active_task_id == Some(id),
            _ => false,
        }
    }

    /// The window after a message.
    pub open spec fn received(self, msg: MsgView, reg: LangView) -> AppView {
        match msg {
            MsgView::File(f) => AppView {
                file_states: self.file_states.insert(f.path, f),
                ..self
            },
            MsgView::Done(id) => if self.ends_with(msg) {
                AppView { current_session: None, status: StatusView::Tr("done"@), ..self }
            } else {
                self
            },
            MsgView::RepoListed(info, list) => AppView {
                repo_info: Some(info),
                file_entries: list,
                selected: Set::empty(),
                file_states: Map::empty(),
                active_task_id: None,
                busy: false,
                status: StatusView::TrCount("listed"@, list.len() as usize, "files"@),
                ..self
            },
            MsgView::ApiError(e) => AppView {
                status: StatusView::Text(reported(self.tr("error"@, reg), e)),
                busy: false,
                ..self
            },
            MsgView::TokenChecked(s) => AppView {
                token_status: Some(s),
                config: ConfigView {
                    hf_logged_in: Some(s.status == "logged_in"@),
                    ..self.config
                },
                ..self
            },
        }
    }

    /// The window after all of `msgs`, in order.
    pub open spec fn drained(self, msgs: Seq<MsgView>, reg: LangView) -> AppView
        decreases msgs.len(),
    {
        if msgs.len() == 0 {
            self
        } else {
            self.drained(msgs.drop_last(), reg).received(msgs.last(), reg)
        }
    }

    /// Whether one of `msgs` ends the download that is running when it comes.
    pub open spec fn ends_among(self, msgs: Seq<MsgView>, reg: LangView) -> bool
        decreases msgs.len(),
    {
        msgs.len() > 0 && (self.ends_among(msgs.drop_last(), reg) || self.drained(
            msgs.drop_last(),
            reg,
        ).ends_with(msgs.last()))
    }
}

/// Whether one of `msgs` tells the state of the token.
pub open spec fn checks_among(msgs: Seq<MsgView>) -> bool {
    exists|i: int| 0 <= i < msgs.len() && #[trigger] msgs[i] is TokenChecked
}

impl App {
    /// Takes in one message.
    fn receive(&mut self, msg: UiMsg, reg: &LangRegistry) -> (r: Aftermath)
        ensures
            final(self)@ == old(self)@.received(msg@, reg@),
            r.delete_session == old(self)@.ends_with(msg@),
            r.save_config == (msg@ is TokenChecked),
    {
        match msg {
            UiMsg::File(f) => {
                let path = f.path.clone();
                self.file_states.set(path, f);
                assert(self@.file_states =~= old(self)@.file_states.insert(f@.path, f@));
                Aftermath { delete_session: false, save_config: false }
            },
            UiMsg::Done { task_id } => {
                let ends = match &self.active_task_id {
                    Some(id) => str_eq(id.as_str(), task_id.as_str()),
                    None => false,
                };
                if ends {
                    self.current_session = None;
                    self.status = StatusMsg::Tr("done");
                }
                Aftermath { delete_session: ends, save_config: false }
            },
            UiMsg::RepoListed { info, entries: list } => {
                let n: usize = list.len();
                self.repo_info = Some(info);
                self.file_entries = list;
                self.selected.clear();
                self.file_states.clear();
                self.active_task_id = None;
                self.busy = false;
                self.status = StatusMsg::TrCount("listed", n, "files");
                assert(self@ =~= old(self)@.received(msg@, reg@));
                Aftermath { delete_session: false, save_config: false }
            },
            UiMsg::ApiError(e) => {
                let what = self.t("error", reg);
                self.status = StatusMsg::Text(cat3(what.as_str(), ": ", e.as_str()));
                self.busy = false;
                Aftermath { delete_session: false, save_config: false }
            },
            UiMsg::TokenChecked(s) => {
                self.config.hf_logged_in = Some(str_eq(s.status.as_str(), "logged_in"));
                self.token_status = Some(s);
                Aftermath { delete_session: false, save_config: true }
            },
        }
    }

    /// Takes in all messages, in order.
    pub fn drain(&mut self, msgs: Vec<UiMsg>, reg: &LangRegistry) -> (r: Aftermath)
        ensures
            final(self)@ == old(self)@.drained(said(msgs@), reg@),
            r.delete_session == old(self)@.ends_among(said(msgs@), reg@),
            r.save_config == checks_among(said(msgs@)),
    {
        let ghost all = said(msgs@);
        let mut r = Aftermath { delete_session: false, save_config: false };
        for msg in it: msgs
            invariant
                it.seq() == msgs@,
                all == said(msgs@),
                self@ == old(self)@.drained(all.take(it.index()), reg@),
                r.delete_session == old(self)@.ends_among(all.take(it.index()), reg@),
                r.save_config == checks_among(all.take(it.index())),
        {
            let ghost i = it.index();
            let now = self.receive(msg, reg);
            r = Aftermath {
                delete_session: r.delete_session || now.delete_session,
                save_config: r.save_config || now.save_config,
            };
            proof {
                let less = all.take(i);
                let more = all.take(i + 1);
                assert(more.drop_last() =~= less);
                assert(more.last() == msg@);
                if checks_among(less) {
                    let j = choose|j: int|
                        0 <= j < less.len() && #[trigger] less[j] is TokenChecked;
                    assert(more[j] is TokenChecked);
                }
                if msg@ is TokenChecked {
                    assert(more[i] is TokenChecked);
                }
                if checks_among(more) && !(msg@ is TokenChecked) {
                    let j = choose|j: int|
                        0 <= j < more.len() && #[trigger] more[j] is TokenChecked;
                    assert(less[j] is TokenChecked);
                }
            }
        }
        assert(all.take(all.len() as int) == all);
        r
    }
}

/// What is said of a lookup: the repository with its files, or the first thing that went wrong.
pub open spec fn lookup_said(
    info: Result<RepoInfo, String>,
    list: Result<Vec<FileEntry>, String>,
) -> MsgView {
    if info is Err {
        MsgView::ApiError(info->Err_0@)
    } else if list is Err {
        MsgView::ApiError(list->Err_0@)
    } else {
        MsgView::RepoListed(info->Ok_0@, entries(list->Ok_0@))
    }
}

/// What a worker says when it has looked up a repository.
pub fn listing_message(info: Result<RepoInfo, String>, list: Result<Vec<FileEntry>, String>) -> (r:
    UiMsg)
    ensures
        r@ == lookup_said(info, list),
        r@ == match (info, list) {
            (Err(e), _) => MsgView::ApiError(e@),
            (Ok(_), Err(e)) => MsgView::ApiError(e@),
            (Ok(i), Ok(v)) => MsgView::RepoListed(i@, entries(v@)),
        },
{
    match info {
        Err(e) => UiMsg::ApiError(e),
        Ok(info) => match list {
            Err(e) => UiMsg::ApiError(e),
            Ok(entries) => UiMsg::RepoListed { info, entries },
        },
    }
}

// ---------------------------------------------------------------------------------------------
// Requests
// ---------------------------------------------------------------------------------------------

/// A repository to be looked up.
pub struct Lookup {
    pub input: String,
    pub endpoint: String,
}

/// A token to be checked and kept.
pub struct LoginRequest {
    pub token: String,
    pub endpoint: String,
}

/// A file to be taken up again.
pub struct RetryRequest {
    pub task_id: String,
    pub path: String,
    pub endpoint: String,
    pub target_dir: String,
}

/// What a retry asks for.
#[verifier::ext_equal]
pub struct RetryView {
    pub task_id: Seq<char>,
    pub path: Seq<char>,
    pub endpoint: Seq<char>,
    pub target_dir: Seq<char>,
}

impl View for RetryRequest {
    type V = RetryView;

    open spec fn view(&self) -> RetryView {
        RetryView {
            task_id: self.task_id@,
            path: self.path@,
            endpoint: self.endpoint@,
            target_dir: self.target_dir@,
        }
    }
}

/// What a retry asks for, if there is one.
pub open spec fn opt_retry(o: Option<RetryRequest>) -> Option<RetryView> {
    match o {
        Some(q) => Some(q@),
        None => None,
    }
}

/// The input and the mirror of a lookup, if there is one.
pub open spec fn opt_lookup(o: Option<Lookup>) -> Option<(Seq<char>, Seq<char>)> {
    match o {
        Some(l) => Some((l.input@, l.endpoint@)),
        None => None,
    }
}

/// The token and the mirror of a login, if there is one.
pub open spec fn opt_login(o: Option<LoginRequest>) -> Option<(Seq<char>, Seq<char>)> {
    match o {
        Some(l) => Some((l.token@, l.endpoint@)),
        None => None,
    }
}

impl AppView {
    /// What a click on "list files" looks up, and where.
    pub open spec fn lookup(self) -> Option<(Seq<char>, Seq<char>)> {
        let input = trimmed(self.repo_input);
        if input.len() == 0 {
            None
        } else {
            Some((input, trimmed(self.config.endpoint)))
        }
    }

    /// The window after a click on "list files".
    pub open spec fn after_lookup(self) -> AppView {
        let input = trimmed(self.repo_input);
        if input.len() == 0 {
            AppView { repo_input: input, status: StatusView::Tr("err_empty"@), ..self }
        } else {
            AppView {
                repo_input: input,
                busy: true,
                status: StatusView::Tr("listing"@),
                ..self
            }
        }
    }

    /// What a click on "retry" beside the file `path` asks for.
    pub open spec fn retry_asked(self, path: Seq<char>, sep: char) -> Option<RetryView> {
        match self.active_task_id {
            Some(id) => Some(
                RetryView {
                    task_id: id,
                    path,
                    endpoint: trimmed(self.config.endpoint),
                    target_dir: self.save_place(sep),
                },
            ),
            None => None,
        }
    }

    /// The token that a click on "login" has checked, and where.
    pub open spec fn login_asked(self) -> Option<(Seq<char>, Seq<char>)> {
        let token = trimmed(self.token_input);
        if token.len() == 0 {
            None
        } else {
            Some((token, trimmed(self.config.endpoint)))
        }
    }

    /// The window after a click on "login".
    pub open spec fn after_login(self) -> AppView {
        if trimmed(self.token_input).len() == 0 {
            self
        } else {
            AppView { token_input: Seq::empty(), show_token_dialog: false, ..self }
        }
    }
}

impl App {
    /// A click on "list files". Blank input is refused.
    pub fn list_files(&mut self) -> (r: Option<Lookup>)
        ensures
            opt_lookup(r) == old(self)@.lookup(),
            final(self)@ == old(self)@.after_lookup(),
            ({
                let input = trimmed(old(self)@.repo_input);
                if input.len() == 0 {
                    &&& r is None
                    &&& final(self)@ == (AppView {
                        repo_input: input,
                        status: StatusView::Tr("err_empty"@),
                        ..old(self)@
                    })
                } else {
                    &&& r matches Some(l) && l.input@ == input && l.endpoint@ == trimmed(
                        old(self)@.config.endpoint,
                    )
                    &&& final(self)@ == (AppView {
                        repo_input: input,
                        busy: true,
                        status: StatusView::Tr("listing"@),
                        ..old(self)@
                    })
                }
            }),
    {
        let input = trim(self.repo_input.as_str());
        self.repo_input = input.clone();
        if input.as_str().is_empty() {
            self.status = StatusMsg::Tr("err_empty");
            return None;
        }
        self.busy = true;
        self.status = StatusMsg::Tr("listing");
        let endpoint = self.endpoint();
        Some(Lookup { input, endpoint })
    }

    /// A click on "login" in the token dialog. A blank token changes nothing.
    pub fn login(&mut self) -> (r: Option<LoginRequest>)
        ensures
            opt_login(r) == old(self)@.login_asked(),
            final(self)@ == old(self)@.after_login(),
            ({
                let token = trimmed(old(self)@.token_input);
                if token.len() == 0 {
                    &&& r is None
                    &&& final(self)@ == old(self)@
                } else {
                    &&& r matches Some(l) && l.token@ == token && l.endpoint@ == trimmed(
                        old(self)@.config.endpoint,
                    )
                    &&& final(self)@ == (AppView {
                        token_input: Seq::empty(),
                        show_token_dialog: false,
                        ..old(self)@
                    })
                }
            }),
    {
        let token = trim(self.token_input.as_str());
        if token.as_str().is_empty() {
            return None;
        }
        let endpoint = self.endpoint();
        self.token_input = String::new();
        self.show_token_dialog = false;
        assert(self@.token_input =~= Seq::<char>::empty());
        Some(LoginRequest { token, endpoint })
    }

    /// A click on "retry" beside a file.
    pub fn retry(&self, path: &str, sep: char) -> (r: Option<RetryRequest>)
        ensures
            opt_retry(r) == self@.retry_asked(path@, sep),
            match self@.active_task_id {
                Some(id) => r matches Some(q) && q.task_id@ == id && q.path@ == path@
                    && q.endpoint@ == trimmed(self@.config.endpoint) && q.target_dir@
                    == self@.save_place(sep),
                None => r is None,
            },
    {
        match &self.active_task_id {
            Some(id) => {
                let endpoint = self.endpoint();
                let target_dir = self.save_dir(sep);
                Some(
                    RetryRequest {
                        task_id: id.clone(),
                        path: path.to_owned(),
                        endpoint,
                        target_dir,
                    },
                )
            },
            None => None,
        }
    }
}

// ---------------------------------------------------------------------------------------------
// Selection and settings
// ---------------------------------------------------------------------------------------------

impl AppView {
    /// The window after a click on "save" in the settings, where `default_dir` is where downloads
    /// go by default.
    pub open spec fn after_save(self, default_dir: Seq<char>) -> AppView {
        let dir = trimmed(self.config.download_dir);
        AppView {
            config: ConfigView {
                download_dir: dir,
                endpoint: trimmed(self.config.endpoint),
                download_dir_set: self.config.download_dir_set || (dir.len() > 0 && dir
                    != default_dir),
                ..self.config
            },
            show_settings: false,
            ..self
        }
    }
}

/// The paths of a list of files.
pub open spec fn entry_paths(all: Seq<EntryView>) -> Set<Seq<char>> {
    Set::new(|p: Seq<char>| exists|i: int| 0 <= i < all.len() && (#[trigger] all[i]).path == p)
}

impl App {
    /// Ticks every file of the list. What was ticked stays ticked.
    pub fn select_all(&mut self)
        ensures
            final(self)@ == (AppView {
                selected: old(self)@.selected.union(entry_paths(old(self)@.file_entries)),
                ..old(self)@
            }),
    {
        let ghost all = self@.file_entries;
        let ghost start = self@.selected;
        let mut i: usize = 0;
        assert(self@.selected =~= start.union(entry_paths(all.take(0))));
        while i < self.file_entries.len()
            invariant
                i <= self.file_entries@.len(),
                all == entries(self.file_entries@),
                self@ == (AppView {
                    selected: start.union(entry_paths(all.take(i as int))),
                    ..old(self)@
                }),
            decreases self.file_entries@.len() - i,
        {
            let path = self.file_entries[i].path.clone();
            self.selected.set(path, ());
            proof {
                let p = all[i as int].path;
                let less = all.take(i as int);
                let more = all.take(i + 1);
                assert forall|q: Seq<char>| entry_paths(more).contains(q) <==> entry_paths(
                    less,
                ).contains(q) || q == p by {
                    if entry_paths(less).contains(q) {
                        let j = choose|j: int|
                            0 <= j < less.len() && (#[trigger] less[j]).path == q;
                        assert(more[j].path == q);
                    }
                    if q == p {
                        assert(more[i as int].path == q);
                    }
                    if entry_paths(more).contains(q) && q != p {
                        let j = choose|j: int|
                            0 <= j < more.len() && (#[trigger] more[j]).path == q;
                        assert(less[j].path == q);
                    }
                }
                assert(self@.selected =~= start.union(entry_paths(more)));
            }
            i += 1;
        }
        assert(all.take(all.len() as int) == all);
    }

    /// Ticks no file.
    pub fn select_none(&mut self)
        ensures
            final(self)@ == (AppView { selected: Set::empty(), ..old(self)@ }),
    {
        self.selected.clear();
        assert(self@.selected =~= Set::<Seq<char>>::empty());
    }

    /// Whether a file is ticked.
    pub fn is_selected(&self, path: &str) -> (r: bool)
        ensures
            r == self@.selected.contains(path@),
    {
        self.selected.contains(path)
    }

    /// Ticks a file, or takes the tick away.
    pub fn set_selected(&mut self, path: &str, on: bool)
        ensures
            final(self)@ == (AppView {
                selected: if on {
                    old(self)@.selected.insert(path@)
                } else {
                    old(self)@.selected.remove(path@)
                },
                ..old(self)@
            }),
    {
        if on {
            self.selected.set(path.to_owned(), ());
            assert(self@.selected =~= old(self)@.selected.insert(path@));
        } else {
            self.selected.remove(path);
            assert(self@.selected =~= old(self)@.selected.remove(path@));
        }
    }

    /// A click on "save" in the settings, which are to be saved then. A directory that is not the
    /// default one, and not blank, counts as chosen.
    pub fn save_settings(&mut self, default_dir: &str)
        ensures
            final(self)@ == old(self)@.after_save(default_dir@),
    {
        let dir = trim(self.config.download_dir.as_str());
        if !dir.as_str().is_empty() && !str_eq(dir.as_str(), default_dir) {
            self.config.download_dir_set = true;
        }
        self.config.download_dir = dir;
        self.config.endpoint = trim(self.config.endpoint.as_str());
        self.show_settings = false;
    }

    /// The user picked a directory for downloads.
    pub fn choose_folder(&mut self, dir: String)
        ensures
            final(self)@ == (AppView {
                config: ConfigView {
                    download_dir: dir@,
                    download_dir_set: true,
                    ..old(self)@.config
                },
                ..old(self)@
            }),
    {
        self.config.download_dir = dir;
        self.config.download_dir_set = true;
    }

    /// The user picked a language; the settings are to be saved then.
    pub fn choose_language(&mut self, code: String)
        ensures
            final(self)@ == (AppView {
                lang: code@,
                config: ConfigView { language: Some(code@), ..old(self)@.config },
                ..old(self)@
            }),
    {
        self.lang = code.clone();
        self.config.language = Some(code);
    }
}

// ---------------------------------------------------------------------------------------------
// Laws
// ---------------------------------------------------------------------------------------------

proof fn lemma_all_ticked(files: Seq<(Seq<char>, u64)>, selected: Set<Seq<char>>)
    requires
        forall|i: int| 0 <= i < files.len() ==> selected.contains((#[trigger] files[i]).0),
    ensures
        ticked(entries_of(files), selected) == files,
    decreases files.len(),
{
    let all = entries_of(files);
    if files.len() > 0 {
        let less = files.drop_last();
        assert(all.drop_last() =~= entries_of(less));
        assert forall|i: int| 0 <= i < less.len() implies selected.contains(
            (#[trigger] less[i]).0,
        ) by {
            assert(less[i] == files[i]);
        }
        lemma_all_ticked(less, selected);
        assert(files[files.len() - 1] == files.last());
        assert(selected.contains(files.last().0));
        assert(less.push(files.last()) =~= files);
    } else {
        assert(ticked(all, selected) =~= files);
    }
}

/// A download that was started and recorded is launched again, after a restart, exactly as it was:
/// the same task, files, directory and mirror. Left out are starts in which no ticked file was on
/// the list, and nothing was fetched.
pub proof fn law_record_resumes_download(
    app: AppView,
    later: AppView,
    pid: u32,
    now: u64,
    sep: char,
)
    requires
        app.repo_info is Some,
        app.chosen().len() > 0,
    ensures
        ({
            let s = app.after_start(pid, now, sep).current_session;
            &&& app.launch(sep) is Some
            &&& s is Some
            &&& later.restored(s->0).launch(sep) == app.launch(sep)
        }),
{
    let files = app.chosen();
    let info = app.repo_info->0;
    let s = app.record(info, pid, now, sep);
    let r = later.restored(s);
    lemma_chosen_is_selected(app.file_entries, app.selected, 0);
    assert(app.selected.contains(files[0].0));
    assert(paths_of(files).contains(files[0].0));
    assert forall|i: int| 0 <= i < files.len() implies paths_of(files).contains(
        (#[trigger] files[i]).0,
    ) by {}
    lemma_all_ticked(files, paths_of(files));
    law_trim_settles(app.config.endpoint);
    law_trim_settles(app.config.download_dir);
    assert(r.chosen() == files);
}

/// A record that names files is launched as it stands: its repository in its kind and revision, its
/// files with their sizes, from its mirror, into the directory of the repository below its
/// directory for downloads. Taken up, it becomes the record of the new process.
pub proof fn law_record_is_launched(
    app: AppView,
    s: SessionView,
    pid: u32,
    now: u64,
    sep: char,
)
    requires
        s.files.len() > 0,
    ensures
        ({
            let l = app.restored(s).launch(sep);
            let after = app.resumed(s, true, pid, now, sep);
            &&& l is Some
            &&& l->0.task_id == "task-"@ + s.repo_id
            &&& l->0.repo_id == s.repo_id
            &&& l->0.repo_type == s.repo_type
            &&& l->0.revision == s.revision
            &&& l->0.files == s.files
            &&& l->0.endpoint == trimmed(s.endpoint)
            &&& l->0.target_dir == target_dir(s.repo_id, trimmed(s.download_dir), sep)
            &&& after.current_session is Some
            &&& after.current_session->0.pid == pid
            &&& after.current_session->0.updated_at == now
            &&& after.current_session->0.repo_id == s.repo_id
            &&& after.current_session->0.repo_type == s.repo_type
            &&& after.current_session->0.revision == s.revision
            &&& after.current_session->0.subpath == s.subpath
            &&& after.current_session->0.files == s.files
            &&& app.resumed(s, false, pid, now, sep) == app.restored(s)
        }),
{
    let r = app.restored(s);
    assert(s.files[0].0 == s.files[0].0);
    assert(r.selected.contains(s.files[0].0));
    assert forall|i: int| 0 <= i < s.files.len() implies r.selected.contains(
        (#[trigger] s.files[i]).0,
    ) by {}
    lemma_all_ticked(s.files, r.selected);
    assert(r.chosen() == s.files);
}

/// "Select all" ticks every listed path and no other.
pub proof fn law_every_listed_path_is_ticked(all: Seq<EntryView>, path: Seq<char>)
    ensures
        entry_paths(all).contains(path) <==> exists|i: int|
            0 <= i < all.len() && (#[trigger] all[i]).path == path,
{
}

proof fn lemma_chosen_is_selected(all: Seq<EntryView>, selected: Set<Seq<char>>, i: int)
    requires
        0 <= i < ticked(all, selected).len(),
    ensures
        selected.contains(ticked(all, selected)[i].0),
    decreases all.len(),
{
    if all.len() > 0 {
        let before = ticked(all.drop_last(), selected);
        if i < before.len() {
            lemma_chosen_is_selected(all.drop_last(), selected, i);
        }
    }
}

proof fn lemma_waiting_row(files: Seq<(Seq<char>, u64)>, i: int)
    requires
        0 <= i < files.len(),
    ensures
        waiting_rows(files).dom().contains(files[i].0),
        waiting_rows(files)[files[i].0].path == files[i].0,
        waiting_rows(files)[files[i].0].status == FileStatus::Pending,
        waiting_rows(files)[files[i].0].downloaded == 0,
    decreases files.len(),
{
    if i < files.len() - 1 {
        assert(files.drop_last()[i] == files[i]);
        lemma_waiting_row(files.drop_last(), i);
    }
}

/// Right after a start every chosen file has a row, in which it waits.
pub proof fn law_start_shows_every_file(app: AppView, pid: u32, now: u64, sep: char, i: int)
    requires
        app.repo_info is Some,
        !app.selected.is_empty(),
        0 <= i < app.chosen().len(),
    ensures
        ({
            let rows = app.after_start(pid, now, sep).file_states;
            let path = app.chosen()[i].0;
            &&& rows.dom().contains(path)
            &&& rows[path].path == path
            &&& rows[path].status == FileStatus::Pending
            &&& rows[path].downloaded == 0
        }),
{
    lemma_waiting_row(app.chosen(), i);
}

/// What is started was ticked, and what is ticked and listed is started.
pub proof fn law_start_takes_the_ticked(app: AppView, path: Seq<char>, size: u64)
    ensures
        app.chosen().contains((path, size)) <==> app.selected.contains(path)
            && app.file_entries.contains((EntryView { path, size })),
{
    lemma_ticked(app.file_entries, app.selected, path, size);
}

proof fn lemma_ticked(
    all: Seq<EntryView>,
    selected: Set<Seq<char>>,
    path: Seq<char>,
    size: u64,
)
    ensures
        ticked(all, selected).contains((path, size)) <==> selected.contains(path) && all.contains(
            (EntryView { path, size }),
        ),
    decreases all.len(),
{
    if all.len() > 0 {
        let less = all.drop_last();
        let last = all.last();
        let e = EntryView { path, size };
        lemma_ticked(less, selected, path, size);
        assert(all.contains(e) <==> less.contains(e) || last == e) by {
            if less.contains(e) {
                let i = choose|i: int| 0 <= i < less.len() && less[i] == e;
                assert(all[i] == e);
            }
            if last == e {
                assert(all[all.len() - 1] == e);
            }
            if all.contains(e) && last != e {
                let i = choose|i: int| 0 <= i < all.len() && all[i] == e;
                assert(less[i] == e);
            }
        }
        let before = ticked(less, selected);
        if selected.contains(last.path) {
            let now = before.push((last.path, last.size));
            assert(now.contains((path, size)) <==> before.contains((path, size)) || last == e) by {
                if before.contains((path, size)) {
                    let i = choose|i: int| 0 <= i < before.len() && before[i] == (path, size);
                    assert(now[i] == (path, size));
                }
                if last == e {
                    assert(now[before.len() as int] == (path, size));
                }
                if now.contains((path, size)) && last != e {
                    let i = choose|i: int| 0 <= i < now.len() && now[i] == (path, size);
                    assert(before[i] == (path, size));
                }
            }
        }
    }
}

/// A directory that was typed in the settings and saved, unless it is blank, is the one that the
/// next run has, and so is the endpoint. That is so though the next run may have another default
/// directory, if the saved one is not the default of this run.
pub proof fn law_saved_directory_is_kept(app: AppView, default_dir: Seq<char>, later: Seq<char>)
    requires
        trimmed(app.config.download_dir).len() > 0,
    ensures
        ({
            let saved = app.after_save(default_dir).config;
            &&& saved.loaded(default_dir).download_dir == trimmed(app.config.download_dir)
            &&& saved.loaded(default_dir).endpoint == trimmed(app.config.endpoint)
            &&& trimmed(app.config.download_dir) != default_dir ==> saved.loaded(later) == saved
        }),
{
}

/// A fresh list of files comes with nothing ticked and without rows of an earlier download.
pub proof fn law_fresh_list_is_clean(
    app: AppView,
    info: RepoView,
    list: Seq<EntryView>,
    reg: LangView,
)
    ensures
        ({
            let after = app.received(MsgView::RepoListed(info, list), reg);
            &&& after.selected.is_empty()
            &&& after.file_states == Map::<Seq<char>, FileView>::empty()
            &&& after.active_task_id is None
            &&& after.file_entries == list
            &&& after.launch('/') is None
        }),
{
}

/// The end of some other task does not touch the record of the download that is running.
pub proof fn law_other_tasks_do_not_end_this(app: AppView, id: Seq<char>, reg: LangView)
    requires
        app.active_task_id != Some(id),
    ensures
        app.received(MsgView::Done(id), reg) == app,
        !app.ends_with(MsgView::Done(id)),
{
}

/// The status line speaks the language of the window, also after a change of it.
pub proof fn law_status_follows_language(
    app: AppView,
    code: Seq<char>,
    key: Seq<char>,
    reg: LangView,
)
    requires
        app.status == StatusView::Tr(key),
    ensures
        (AppView { lang: code, ..app }).status_line(reg) == reg.translated(key, code),
{
}

} // verus!
