//! What the window shows of its state: texts, colours and buttons.

use vstd::prelude::*;
use crate::download::{all_settled, FileState, FileStatus, FileView, TaskView};
use crate::format::{eta_text, fmt_eta, fmt_size, fmt_speed, size_text, speed_text};
use crate::hf_api::reported;
use crate::i18n::{available, listing, pair_texts, LangRegistry, LangView};
use crate::session::Session;
use crate::text::{cat3, decimal, decimal_of, opt_text, str_eq};
use crate::ui::{App, AppView};

verus! {

/// The colour of a text.
#[derive(Debug, Clone, Copy, PartialEq, Eq, Structural)]
pub enum Tone {
    Gray,
    Blue,
    Green,
    Red,
    Yellow,
}

/// The button beside a file.
#[derive(Debug, Clone, Copy, PartialEq, Eq, Structural)]
pub enum RowButton {
    Cancel,
    Retry,
    Nothing,
}

/// The colour of a status.
pub open spec fn tone_of(status: FileStatus) -> Tone {
    match status {
        FileStatus::Pending => Tone::Gray,
        FileStatus::Downloading => Tone::Blue,
        FileStatus::Done => Tone::Green,
        FileStatus::Exists => Tone::Green,
        FileStatus::Failed => Tone::Red,
        FileStatus::Cancelled => Tone::Yellow,
    }
}

/// A file that is on its way can be cancelled, one that stopped short can be retried.
pub open spec fn button_of(status: FileStatus) -> RowButton {
    if !status.settled() {
        RowButton::Cancel
    } else if status.stopped() {
        RowButton::Retry
    } else {
        RowButton::Nothing
    }
}

/// The button beside a file.
pub fn row_button(status: FileStatus) -> (r: RowButton)
    ensures
        r == button_of(status),
{
    match status {
        FileStatus::Downloading | FileStatus::Pending => RowButton::Cancel,
        FileStatus::Failed | FileStatus::Cancelled => RowButton::Retry,
        FileStatus::Done | FileStatus::Exists => RowButton::Nothing,
    }
}

/// Whether a file is being fetched.
pub open spec fn any_running(files: Map<Seq<char>, FileView>) -> bool {
    exists|p: Seq<char>| #[trigger]
        files.dom().contains(p) && files[p].status == FileStatus::Downloading
}

/// Whether every file is there.
pub open spec fn all_there(files: Map<Seq<char>, FileView>) -> bool {
    forall|p: Seq<char>| #[trigger]
        files.dom().contains(p) ==> files[p].status == FileStatus::Done || files[p].status
            == FileStatus::Exists
}

/// The speeds of the files that are being fetched, in order.
pub open spec fn running_speeds(
    keys: Seq<Seq<char>>,
    files: Map<Seq<char>, FileView>,
) -> Seq<u64>
    decreases keys.len(),
{
    if keys.len() == 0 {
        Seq::empty()
    } else {
        let before = running_speeds(keys.drop_last(), files);
        let f = files[keys.last()];
        if f.status == FileStatus::Downloading {
            before.push(f.speed)
        } else {
            before
        }
    }
}

impl AppView {
    /// What is shown of the token.
    pub open spec fn badge(self, reg: LangView) -> (Seq<char>, Tone) {
        match self.token_status {
            None => (self.tr("status_checking"@, reg), Tone::Gray),
            Some(s) => if s.status == "logged_in"@ {
                (self.tr("status_logged_in"@, reg), Tone::Green)
            } else if s.status == "invalid"@ {
                (
                    reported(
                        self.tr("status_invalid"@, reg),
                        match s.error {
                            Some(e) => e,
                            None => Seq::empty(),
                        },
                    ),
                    Tone::Red,
                )
            } else {
                (self.tr("status_missing"@, reg), Tone::Yellow)
            },
        }
    }

    /// The line beside "pause all": the speed of all files together while some are being fetched,
    /// and a word when all are there.
    pub open spec fn summary(self, total_speed: Option<u64>, reg: LangView) -> Option<Seq<char>> {
        if self.file_states.dom().is_empty() {
            None
        } else if any_running(self.file_states) {
            Some(reported(self.tr("total_speed"@, reg), speed_text(total_speed)))
        } else if all_there(self.file_states) {
            Some(self.tr("all_done"@, reg))
        } else {
            None
        }
    }

    /// How the language of the window calls itself; its code if it is not among the languages.
    pub open spec fn own_language(self, reg: LangView) -> Seq<char> {
        if reg.codes.contains(self.lang) {
            reg.own_name(self.lang)
        } else {
            self.lang
        }
    }

    /// The line that describes a record of `count` files that was written at `time`.
    pub open spec fn record_line(self, count: nat, time: nat, reg: LangView) -> Seq<char> {
        reported(self.tr("files"@, reg), decimal(count)) + " · "@ + reported(
            self.tr("saved_at"@, reg),
            decimal(time),
        )
    }

    /// The time left for a file, while it is being fetched at some speed and something is missing.
    pub open spec fn time_left(
        self,
        f: FileView,
        moving: bool,
        secs: Option<u64>,
        reg: LangView,
    ) -> Seq<char> {
        if f.status == FileStatus::Downloading && moving && f.total > f.downloaded {
            self.tr("eta"@, reg) + " "@ + eta_text((f.total - f.downloaded) as u64, secs)
        } else {
            Seq::empty()
        }
    }
}

impl App {
    /// How the status of a file is shown.
    pub fn status_pair(&self, status: FileStatus, reg: &LangRegistry) -> (r: (String, Tone))
        ensures
            r.0@ == self@.tr(status.name(), reg@),
            r.1 == tone_of(status),
    {
        match status {
            FileStatus::Pending => (self.t("pending", reg), Tone::Gray),
            FileStatus::Downloading => (self.t("downloading", reg), Tone::Blue),
            FileStatus::Done => (self.t("done", reg), Tone::Green),
            FileStatus::Exists => (self.t("exists", reg), Tone::Green),
            FileStatus::Failed => (self.t("failed", reg), Tone::Red),
            FileStatus::Cancelled => (self.t("cancelled", reg), Tone::Yellow),
        }
    }

    /// What is shown of the token.
    pub fn token_badge(&self, reg: &LangRegistry) -> (r: (String, Tone))
        ensures
            (r.0@, r.1) == self@.badge(reg@),
    {
        match &self.token_status {
            None => (self.t("status_checking", reg), Tone::Gray),
            Some(s) => if str_eq(s.status.as_str(), "logged_in") {
                (self.t("status_logged_in", reg), Tone::Green)
            } else if str_eq(s.status.as_str(), "invalid") {
                let what = self.t("status_invalid", reg);
                let why = match &s.error {
                    Some(e) => e.clone(),
                    None => {
                        let none = String::new();
                        assert(none@ =~= Seq::<char>::empty());
                        none
                    },
                };
                (cat3(what.as_str(), ": ", why.as_str()), Tone::Red)
            } else {
                (self.t("status_missing", reg), Tone::Yellow)
            },
        }
    }

    /// How the language of the window calls itself; its code if it is not among the languages.
    pub fn language_name(&self, reg: &LangRegistry) -> (r: String)
        ensures
            r@ == self@.own_language(reg@),
            r@ == if reg@.codes.contains(self@.lang) {
                reg@.own_name(self@.lang)
            } else {
                self@.lang
            },
    {
        let langs = available(reg);
        let mut i: usize = 0;
        while i < langs.len()
            invariant
                i <= langs@.len(),
                pair_texts(langs@) == listing(reg@),
                forall|j: int| 0 <= j < i ==> #[trigger] reg@.codes[j] != self.lang@,
            decreases langs@.len() - i,
        {
            assert(pair_texts(langs@).len() == listing(reg@).len());
            assert((langs@[i as int].0@, langs@[i as int].1@) == listing(reg@)[i as int]) by {
                assert(pair_texts(langs@)[i as int] == listing(reg@)[i as int]);
            }
            if str_eq(langs[i].0.as_str(), self.lang.as_str()) {
                return langs[i].1.clone();
            }
            i += 1;
        }
        assert(pair_texts(langs@).len() == listing(reg@).len());
        self.lang.clone()
    }

    /// Whether a file is being fetched, so that the window has to be drawn again soon.
    pub fn is_active(&self) -> (r: bool)
        ensures
            r == any_running(self@.file_states),
    {
        let mut i: usize = 0;
        while i < self.file_states.len()
            invariant
                i <= self.file_states.keys().len(),
                forall|j: int|
                    0 <= j < i ==> self@.file_states[#[trigger] self.file_states.keys()[j]].status
                        != FileStatus::Downloading,
            decreases self.file_states.keys().len() - i,
        {
            let f = self.file_states.val_at(i);
            assert(self@.file_states[self.file_states.keys()[i as int]] == f@);
            if f.status == FileStatus::Downloading {
                assert(self@.file_states.dom().contains(self.file_states.keys()[i as int]));
                return true;
            }
            i += 1;
        }
        proof {
            self.file_states.lemma_keys();
            assert forall|p: Seq<char>| #[trigger] self@.file_states.dom().contains(
                p,
            ) implies self@.file_states[p].status != FileStatus::Downloading by {
                assert(self.file_states@.dom().contains(p));
                let j = choose|j: int|
                    0 <= j < self.file_states.keys().len() && self.file_states.keys()[j] == p;
                assert(self@.file_states[self.file_states.keys()[j]].status
                    != FileStatus::Downloading);
            }
        }
        false
    }

    fn is_complete(&self) -> (r: bool)
        ensures
            r == all_there(self@.file_states),
    {
        let mut i: usize = 0;
        while i < self.file_states.len()
            invariant
                i <= self.file_states.keys().len(),
                forall|j: int|
                    0 <= j < i ==> {
                        let s = self@.file_states[#[trigger] self.file_states.keys()[j]].status;
                        s == FileStatus::Done || s == FileStatus::Exists
                    },
            decreases self.file_states.keys().len() - i,
        {
            let f = self.file_states.val_at(i);
            assert(self@.file_states[self.file_states.keys()[i as int]] == f@);
            match f.status {
                FileStatus::Done | FileStatus::Exists => {},
                _ => {
                    assert(self@.file_states.dom().contains(self.file_states.keys()[i as int]));
                    return false;
                },
            }
            i += 1;
        }
        proof {
            self.file_states.lemma_keys();
            assert forall|p: Seq<char>| #[trigger] self@.file_states.dom().contains(p) implies {
                ||| self@.file_states[p].status == FileStatus::Done
                ||| self@.file_states[p].status == FileStatus::Exists
            } by {
                assert(self.file_states@.dom().contains(p));
                let j = choose|j: int|
                    0 <= j < self.file_states.keys().len() && self.file_states.keys()[j] == p;
                let s = self@.file_states[self.file_states.keys()[j]].status;
                assert(s == FileStatus::Done || s == FileStatus::Exists);
            }
        }
        true
    }

    /// The speeds of the files that are being fetched, in the order of the rows.
    pub fn active_speeds(&self) -> (r: Vec<u64>)
        ensures
            r@ == running_speeds(self.file_states.keys(), self@.file_states),
    {
        let ghost keys = self.file_states.keys();
        let mut r: Vec<u64> = Vec::new();
        let mut i: usize = 0;
        assert(r@ =~= running_speeds(keys.take(0), self@.file_states));
        while i < self.file_states.len()
            invariant
                i <= keys.len(),
                keys == self.file_states.keys(),
                r@ == running_speeds(keys.take(i as int), self@.file_states),
            decreases keys.len() - i,
        {
            let f = self.file_states.val_at(i);
            proof {
                assert(self@.file_states[keys[i as int]] == f@);
                assert(keys.take(i + 1).drop_last() == keys.take(i as int));
                assert(keys.take(i + 1).last() == keys[i as int]);
            }
            if f.status == FileStatus::Downloading {
                r.push(f.speed);
            }
            i += 1;
        }
        assert(keys.take(keys.len() as int) == keys);
        r
    }

    /// The line beside "pause all". `total_speed` is the sum of the speeds of the files that are
    /// being fetched, if it is positive.
    pub fn download_summary(&self, total_speed: Option<u64>, reg: &LangRegistry) -> (r: Option<
        String,
    >)
        ensures
            opt_text(r) == self@.summary(total_speed, reg@),
    {
        proof {
            self.file_states.lemma_keys();
        }
        if self.file_states.len() == 0 {
            assert(self@.file_states.dom() =~= Set::<Seq<char>>::empty());
            return None;
        }
        let k = self.file_states.key_at(0);
        assert(self@.file_states.dom().contains(k@));
        if self.is_active() {
            let what = self.t("total_speed", reg);
            let speed = fmt_speed(total_speed);
            Some(cat3(what.as_str(), ": ", speed.as_str()))
        } else if self.is_complete() {
            Some(self.t("all_done", reg))
        } else {
            None
        }
    }

    /// How the size of a file is shown.
    pub fn size_line(&self, size: u64, reg: &LangRegistry) -> (r: String)
        ensures
            r@ == reported(self@.tr("size"@, reg@), size_text(size)),
    {
        let what = self.t("size", reg);
        let text = fmt_size(size);
        cat3(what.as_str(), ": ", text.as_str())
    }

    /// The time left for a file. `moving` says whether its speed is positive, and `secs` how many
    /// seconds the rest takes at that speed.
    pub fn eta_line(&self, f: &FileState, moving: bool, secs: Option<u64>, reg: &LangRegistry) -> (r:
        String)
        ensures
            r@ == self@.time_left(f@, moving, secs, reg@),
    {
        if f.status == FileStatus::Downloading && moving && f.total > f.downloaded {
            let what = self.t("eta", reg);
            let left = fmt_eta(f.total - f.downloaded, secs);
            cat3(what.as_str(), " ", left.as_str())
        } else {
            let r = String::new();
            assert(r@ =~= Seq::<char>::empty());
            r
        }
    }

    /// A line with a translated name and a value, as in the window about the program.
    pub fn about_line(&self, key: &str, value: &str, reg: &LangRegistry) -> (r: String)
        ensures
            r@ == reported(self@.tr(key@, reg@), value@),
    {
        let what = self.t(key, reg);
        cat3(what.as_str(), ": ", value)
    }

    /// The line that describes a record to choose from.
    pub fn session_line(&self, s: &Session, reg: &LangRegistry) -> (r: String)
        ensures
            r@ == self@.record_line(s@.files.len(), s@.updated_at as nat, reg@),
            r@ == reported(self@.tr("files"@, reg@), decimal(s@.files.len())) + " · "@ + reported(
                self@.tr("saved_at"@, reg@),
                decimal(s@.updated_at as nat),
            ),
    {
        let files = self.t("files", reg);
        let count = decimal_of(s.files.len() as u64);
        let saved = self.t("saved_at", reg);
        let time = decimal_of(s.updated_at);
        let mut r = cat3(files.as_str(), ": ", count.as_str());
        let tail = cat3(saved.as_str(), ": ", time.as_str());
        r.append(" · ");
        r.append(tail.as_str());
        r
    }
}

// ---------------------------------------------------------------------------------------------
// Laws
// ---------------------------------------------------------------------------------------------

/// The line beside "pause all" is there if and only if some file is being fetched, or there are
/// files and all of them are there.
pub proof fn law_summary_is_shown(app: AppView, total_speed: Option<u64>, reg: LangView)
    ensures
        app.summary(total_speed, reg) is Some <==> any_running(app.file_states) || (
        !app.file_states.dom().is_empty() && all_there(app.file_states)),
{
    if any_running(app.file_states) {
        let p = choose|p: Seq<char>| #[trigger]
            app.file_states.dom().contains(p) && app.file_states[p].status
                == FileStatus::Downloading;
        assert(app.file_states.dom().contains(p));
    }
}

/// A file shows the button "retry" if and only if a start of it would take it up again.
pub proof fn law_retry_button_is_effective(task: TaskView, path: Seq<char>)
    requires
        task.files.dom().contains(path),
    ensures
        button_of(task.files[path].status) == RowButton::Retry <==> task.takes_up(path),
        button_of(task.files[path].status) == RowButton::Cancel <==> !all_settled(
            task.files.restrict(set![path]),
        ),
{
    let one = task.files.restrict(set![path]);
    assert(one.dom().contains(path));
    assert(one[path] == task.files[path]);
}

} // verus!
