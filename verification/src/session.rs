//! Records of downloads in progress, from which they are taken up after a restart.
//!
//! Each running instance keeps one record in a file of its own, named after its process, so that
//! two instances never write to the same file.

use vstd::prelude::*;
use crate::path::{
    is_plain, join_path, known_separator, law_plain_name_is_appended, lead, main_separator,
    path_join,
};
use crate::text::{
    cat, cat3, decimal, decimal_of, ends_with, law_decimal_digits, law_decimal_unique, opt_text,
    starts_with, str_eq, texts, words, words_of,
};

verus! {

// ---------------------------------------------------------------------------------------------
// Records
// ---------------------------------------------------------------------------------------------

/// A selected file.
#[derive(Debug)]
pub struct SessionFileEntry {
    pub path: String,
    pub size: u64,
}

impl View for SessionFileEntry {
    type V = (Seq<char>, u64);

    open spec fn view(&self) -> (Seq<char>, u64) {
        (self.path@, self.size)
    }
}

impl Clone for SessionFileEntry {
    fn clone(&self) -> (r: Self)
        ensures
            r@ == self@,
    {
        SessionFileEntry { path: self.path.clone(), size: self.size }
    }
}

/// The files of a record.
pub open spec fn session_files(v: Seq<SessionFileEntry>) -> Seq<(Seq<char>, u64)> {
    Seq::new(v.len(), |i: int| v[i]@)
}

/// The record of a download.
#[derive(Debug)]
pub struct Session {
    pub session_id: String,
    pub pid: u32,
    pub repo_id: String,
    pub repo_type: String,
    pub revision: String,
    pub subpath: String,
    pub endpoint: String,
    pub download_dir: String,
    pub target_dir: String,
    pub files: Vec<SessionFileEntry>,
    pub updated_at: u64,
}

/// What a record says.
#[verifier::ext_equal]
pub struct SessionView {
    pub session_id: Seq<char>,
    pub pid: u32,
    pub repo_id: Seq<char>,
    pub repo_type: Seq<char>,
    pub revision: Seq<char>,
    pub subpath: Seq<char>,
    pub endpoint: Seq<char>,
    pub download_dir: Seq<char>,
    pub target_dir: Seq<char>,
    pub files: Seq<(Seq<char>, u64)>,
    pub updated_at: u64,
}

impl View for Session {
    type V = SessionView;

    open spec fn view(&self) -> SessionView {
        SessionView {
            session_id: self.session_id@,
            pid: self.pid,
            repo_id: self.repo_id@,
            repo_type: self.repo_type@,
            revision: self.revision@,
            subpath: self.subpath@,
            endpoint: self.endpoint@,
            download_dir: self.download_dir@,
            target_dir: self.target_dir@,
            files: session_files(self.files@),
            updated_at: self.updated_at,
        }
    }
}

impl Clone for Session {
    fn clone(&self) -> (r: Self)
        ensures
            r@ == self@,
    {
        let mut files: Vec<SessionFileEntry> = Vec::new();
        let mut i: usize = 0;
        while i < self.files.len()
            invariant
                i <= self.files@.len(),
                files@.len() == i,
                forall|j: int| 0 <= j < i ==> (#[trigger] files@[j])@ == self.files@[j]@,
            decreases self.files@.len() - i,
        {
            files.push(self.files[i].clone());
            i += 1;
        }
        assert(session_files(files@) =~= session_files(self.files@));
        Session {
            session_id: self.session_id.clone(),
            pid: self.pid,
            repo_id: self.repo_id.clone(),
            repo_type: self.repo_type.clone(),
            revision: self.revision.clone(),
            subpath: self.subpath.clone(),
            endpoint: self.endpoint.clone(),
            download_dir: self.download_dir.clone(),
            target_dir: self.target_dir.clone(),
            files,
            updated_at: self.updated_at,
        }
    }
}

/// What a list of records says.
pub open spec fn records(v: Seq<Session>) -> Seq<SessionView> {
    Seq::new(v.len(), |i: int| v[i]@)
}

// ---------------------------------------------------------------------------------------------
// Files
// ---------------------------------------------------------------------------------------------

/// The directory of the records: `sessions` beside the executable.
pub open spec fn sessions_place(exe_dir: Option<Seq<char>>, sep: char) -> Seq<char> {
    match exe_dir {
        Some(dir) => path_join(dir, "sessions"@, sep),
        None => "sessions"@,
    }
}

/// The directory of the records: `sessions` beside the executable, or in the working directory if
/// nobody knows where the executable is.
pub fn sessions_dir(exe_dir: &Option<String>, sep: char) -> (r: String)
    ensures
        r@ == sessions_place(opt_text(*exe_dir), sep),
{
    match exe_dir {
        Some(dir) => join_path(dir.as_str(), "sessions", sep),
        None => "sessions".to_owned(),
    }
}

/// The id of the record of a process.
pub open spec fn id_of(pid: u32) -> Seq<char> {
    "session-"@ + decimal(pid as nat)
}

/// The id of the record of a process.
pub fn session_id_of(pid: u32) -> (r: String)
    ensures
        r@ == id_of(pid),
{
    let n = decimal_of(pid as u64);
    cat("session-", n.as_str())
}

/// The name of the file that holds the record of a process.
pub open spec fn file_of(pid: u32) -> Seq<char> {
    "session-"@ + decimal(pid as nat) + ".json"@
}

/// The file that holds the record of a process, on a platform with the given separator.
pub fn path_for_pid_with(pid: u32, exe_dir: &Option<String>, sep: char) -> (r: String)
    ensures
        r@ == path_join(
            sessions_place(opt_text(*exe_dir), sep),
            file_of(pid),
            sep,
        ),
{
    let dir = sessions_dir(exe_dir, sep);
    let n = decimal_of(pid as u64);
    let name = cat3("session-", n.as_str(), ".json");
    join_path(dir.as_str(), name.as_str(), sep)
}

/// The file that holds the record of a process.
pub fn path_for_pid(pid: u32, exe_dir: &Option<String>) -> (r: String)
    ensures
        exists|sep: char| #[trigger]
            known_separator(sep) && r@ == path_join(
                sessions_place(opt_text(*exe_dir), sep),
                file_of(pid),
                sep,
            ),
{
    let sep = main_separator();
    path_for_pid_with(pid, exe_dir, sep)
}

/// Whether a file of the directory of the records holds a record, by its name.
pub open spec fn names_record(name: Seq<char>) -> bool {
    "session-"@.is_prefix_of(name) && ".json"@.is_suffix_of(name)
}

/// Whether a file of the directory of the records holds a record, by its name.
pub fn is_session_file(name: &str) -> (r: bool)
    ensures
        r == names_record(name@),
{
    starts_with(name, "session-") && ends_with(name, ".json")
}

// ---------------------------------------------------------------------------------------------
// Recovery
// ---------------------------------------------------------------------------------------------

/// Whether a process is running: this one is, and of another the process list tells. `listing` is
/// what that prints for the process, with the number of the process as a word of its own where
/// there is such a process.
pub open spec fn alive(pid: u32, own: u32, listing: Option<Seq<char>>) -> bool {
    pid == own || (listing matches Some(out) && words(out).contains(decimal(pid as nat)))
}

fn has_word(text: &str, word: &str) -> (r: bool)
    ensures
        r == words(text@).contains(word@),
{
    let parts = words_of(text);
    let mut i: usize = 0;
    while i < parts.len()
        invariant
            i <= parts@.len(),
            texts(parts@) == words(text@),
            forall|j: int| 0 <= j < i ==> #[trigger] words(text@)[j] != word@,
        decreases parts@.len() - i,
    {
        assert(words(text@)[i as int] == parts@[i as int]@);
        if str_eq(parts[i].as_str(), word) {
            return true;
        }
        i += 1;
    }
    false
}

/// Whether a process is running.
pub fn process_alive(pid: u32, own: u32, listing: &Option<String>) -> (r: bool)
    ensures
        r == alive(pid, own, opt_text(*listing)),
{
    if pid == own {
        return true;
    }
    match listing {
        Some(out) => {
            let number = decimal_of(pid as u64);
            has_word(out.as_str(), number.as_str())
        },
        None => false,
    }
}

/// What was found in the directory of the records: a file name, the record in the file if it could
/// be read, and whether its process is running.
pub struct Found {
    pub name: String,
    pub session: Option<Session>,
    pub alive: bool,
}

/// Whether a find can be taken up: a record that could be read, of a process that is gone.
pub open spec fn recoverable(f: Found) -> bool {
    names_record(f.name@) && f.session is Some && !f.alive
}

/// The records among `found` that can be taken up, in order.
pub open spec fn recoverable_records(found: Seq<Found>) -> Seq<SessionView>
    decreases found.len(),
{
    if found.len() == 0 {
        Seq::empty()
    } else if recoverable(found.last()) {
        recoverable_records(found.drop_last()).push(found.last().session->0@)
    } else {
        recoverable_records(found.drop_last())
    }
}

/// The records that can be taken up. Those of running processes are left out, so that nobody is
/// asked to resume what another instance is downloading.
pub fn list_recoverable_sessions(found: &Vec<Found>) -> (out: Vec<Session>)
    ensures
        records(out@) == recoverable_records(found@),
{
    let mut out: Vec<Session> = Vec::new();
    let mut i: usize = 0;
    assert(records(out@) =~= recoverable_records(found@.take(0)));
    while i < found.len()
        invariant
            i <= found@.len(),
            records(out@) == recoverable_records(found@.take(i as int)),
        decreases found@.len() - i,
    {
        proof {
            assert(found@.take(i + 1).drop_last() == found@.take(i as int));
            assert(found@.take(i + 1).last() == found@[i as int]);
        }
        if is_session_file(found[i].name.as_str()) && !found[i].alive {
            match &found[i].session {
                Some(s) => {
                    let ghost before = records(out@);
                    out.push(s.clone());
                    assert(records(out@) =~= before.push(s@));
                },
                None => {},
            }
        }
        i += 1;
    }
    assert(found@.take(found@.len() as int) == found@);
    out
}

// ---------------------------------------------------------------------------------------------
// Laws
// ---------------------------------------------------------------------------------------------

/// The file of a record is known by its name when the directory is searched.
pub proof fn law_own_file_is_found(pid: u32)
    ensures
        names_record(file_of(pid)),
{
    let name = file_of(pid);
    assert("session-"@ =~= name.take("session-"@.len() as int));
    assert(".json"@ =~= name.skip(name.len() - ".json"@.len()));
}

/// Two processes never write to the same file.
pub proof fn law_records_do_not_clash(a: u32, b: u32, exe_dir: Option<Seq<char>>, sep: char)
    requires
        known_separator(sep),
        a != b,
    ensures
        path_join(sessions_place(exe_dir, sep), file_of(a), sep) != path_join(
            sessions_place(exe_dir, sep),
            file_of(b),
            sep,
        ),
{
    let dir = sessions_place(exe_dir, sep);
    lemma_file_is_plain(a);
    lemma_file_is_plain(b);
    law_plain_name_is_appended(dir, file_of(a), sep);
    law_plain_name_is_appended(dir, file_of(b), sep);
    let pa = path_join(dir, file_of(a), sep);
    let pb = path_join(dir, file_of(b), sep);
    if pa == pb {
        let before = lead(dir, sep).len() as int;
        assert(pa.skip(before) =~= file_of(a));
        assert(pb.skip(before) =~= file_of(b));
        let cut = "session-"@.len() as int;
        let end = file_of(a).len() - ".json"@.len();
        assert(file_of(a).subrange(cut, end) =~= decimal(a as nat));
        assert(file_of(b).subrange(cut, end) =~= decimal(b as nat));
        law_decimal_unique(a as nat, b as nat);
    }
}

proof fn lemma_file_is_plain(pid: u32)
    ensures
        is_plain(file_of(pid)),
{
    reveal_strlit("session-");
    reveal_strlit(".json");
    law_decimal_digits(pid as nat);
    let name = file_of(pid);
    let digits = decimal(pid as nat);
    assert(name[0] == 's' && name[1] == 'e');
    assert forall|i: int| 0 <= i < name.len() implies #[trigger] name[i] != '/' && name[i]
        != '\\' by {
        if i < 8 {
            assert(name[i] == "session-"@[i]);
        } else if i < 8 + digits.len() {
            assert(name[i] == digits[i - 8]);
        } else {
            assert(name[i] == ".json"@[i - 8 - digits.len()]);
        }
    }
    assert(name != seq!['.'] && name != seq!['.', '.']);
}

/// A record is offered if and only if it could be read and its process is gone.
pub proof fn law_offered_iff_recoverable(found: Seq<Found>, s: SessionView)
    ensures
        recoverable_records(found).contains(s) <==> exists|i: int|
            0 <= i < found.len() && recoverable(#[trigger] found[i]) && found[i].session->0@ == s,
    decreases found.len(),
{
    if found.len() > 0 {
        let less = found.drop_last();
        let before = recoverable_records(less);
        law_offered_iff_recoverable(less, s);
        assert(found[found.len() - 1] == found.last());
        assert forall|i: int| 0 <= i < less.len() implies #[trigger] less[i] == found[i] by {}
        if before.contains(s) {
            let i = choose|i: int|
                0 <= i < less.len() && recoverable(#[trigger] less[i]) && less[i].session->0@ == s;
            assert(recoverable(found[i]) && found[i].session->0@ == s);
        }
        if recoverable(found.last()) {
            let now = before.push(found.last().session->0@);
            assert(now[before.len() as int] == found.last().session->0@);
            if before.contains(s) {
                let i = choose|i: int| 0 <= i < before.len() && before[i] == s;
                assert(now[i] == s);
            }
            if now.contains(s) && !before.contains(s) {
                let i = choose|i: int| 0 <= i < now.len() && now[i] == s;
                if i < before.len() {
                    assert(before[i] == s);
                }
                assert(recoverable(found[found.len() - 1]));
            }
        }
        if exists|i: int|
            0 <= i < found.len() && recoverable(#[trigger] found[i]) && found[i].session->0@ == s {
            let i = choose|i: int|
                0 <= i < found.len() && recoverable(#[trigger] found[i]) && found[i].session->0@
                    == s;
            if i < less.len() {
                assert(recoverable(less[i]) && less[i].session->0@ == s);
            }
        }
    }
}

} // verus!
