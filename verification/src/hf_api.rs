//! Addresses of repositories, and the dialogue with the Hugging Face API.

use vstd::prelude::*;
use crate::i18n::{t, LangRegistry, LangView};
use crate::path::{join_path, known_separator, main_separator, path_join};
use crate::text::{
    cat, cat3, chars_of, join, joined, law_pieces_clean, law_pieces_of_joined, opt_clone, opt_text,
    pieces, pieces_of, replace_char, replaced, starts_with, str_eq, string_of, texts, trim,
    trim_end_matches, trimmed, without_trailing,
};

verus! {

// ---------------------------------------------------------------------------------------------
// Data
// ---------------------------------------------------------------------------------------------

/// A repository, or a directory of one, at some revision.
#[derive(Debug)]
pub struct RepoInfo {
    pub repo_id: String,
    pub repo_type: String,
    pub revision: String,
    pub subpath: String,
}

/// The characters behind a [`RepoInfo`].
#[verifier::ext_equal]
pub struct RepoView {
    pub repo_id: Seq<char>,
    pub repo_type: Seq<char>,
    pub revision: Seq<char>,
    pub subpath: Seq<char>,
}

impl View for RepoInfo {
    type V = RepoView;

    open spec fn view(&self) -> RepoView {
        RepoView {
            repo_id: self.repo_id@,
            repo_type: self.repo_type@,
            revision: self.revision@,
            subpath: self.subpath@,
        }
    }
}

impl Clone for RepoInfo {
    fn clone(&self) -> (r: Self)
        ensures
            r@ == self@,
    {
        RepoInfo {
            repo_id: self.repo_id.clone(),
            repo_type: self.repo_type.clone(),
            revision: self.revision.clone(),
            subpath: self.subpath.clone(),
        }
    }
}

/// A file of a repository.
#[derive(Debug)]
pub struct FileEntry {
    pub path: String,
    pub size: u64,
}

/// A path with a size.
#[verifier::ext_equal]
pub struct EntryView {
    pub path: Seq<char>,
    pub size: u64,
}

impl View for FileEntry {
    type V = EntryView;

    open spec fn view(&self) -> EntryView {
        EntryView { path: self.path@, size: self.size }
    }
}

impl Clone for FileEntry {
    fn clone(&self) -> (r: Self)
        ensures
            r@ == self@,
    {
        FileEntry { path: self.path.clone(), size: self.size }
    }
}

/// The views of a list of files.
pub open spec fn entries(v: Seq<FileEntry>) -> Seq<EntryView> {
    Seq::new(v.len(), |i: int| v[i]@)
}

/// What is known of the access token: `logged_in`, `invalid` or `missing`.
#[derive(Debug)]
pub struct TokenStatus {
    pub status: String,
    pub error: Option<String>,
}

/// The characters behind a [`TokenStatus`].
#[verifier::ext_equal]
pub struct TokenView {
    pub status: Seq<char>,
    pub error: Option<Seq<char>>,
}

impl View for TokenStatus {
    type V = TokenView;

    open spec fn view(&self) -> TokenView {
        TokenView { status: self.status@, error: opt_text(self.error) }
    }
}

impl Clone for TokenStatus {
    fn clone(&self) -> (r: Self)
        ensures
            r@ == self@,
    {
        TokenStatus { status: self.status.clone(), error: opt_clone(&self.error) }
    }
}

// ---------------------------------------------------------------------------------------------
// Addresses written as owner/repo
// ---------------------------------------------------------------------------------------------

/// `part` behind `mark`, or nothing.
pub open spec fn marked(mark: char, part: Option<Seq<char>>) -> Seq<char> {
    match part {
        Some(p) => seq![mark] + p,
        None => Seq::empty(),
    }
}

/// Whether `s` reads `owner/repo[@rev][/sub]`. Neither name is empty or holds `/` or `@`, a
/// revision is not empty and holds no `/`, and a sub-path holds no line feed.
pub open spec fn bare_form(
    s: Seq<char>,
    owner: Seq<char>,
    repo: Seq<char>,
    rev: Option<Seq<char>>,
    sub: Option<Seq<char>>,
) -> bool {
    &&& owner.len() > 0 && !owner.contains('/') && !owner.contains('@')
    &&& repo.len() > 0 && !repo.contains('/') && !repo.contains('@')
    &&& rev matches Some(v) ==> v.len() > 0 && !v.contains('/')
    &&& sub matches Some(p) ==> !p.contains('\n')
    &&& s == owner + seq!['/'] + repo + marked('@', rev) + marked('/', sub)
}

/// The model repository that the parts of an address name; the revision is `main` if none is
/// given.
pub open spec fn bare_info(
    owner: Seq<char>,
    repo: Seq<char>,
    rev: Option<Seq<char>>,
    sub: Option<Seq<char>>,
) -> RepoView {
    RepoView {
        repo_id: owner + seq!['/'] + repo,
        repo_type: "model"@,
        revision: match rev {
            Some(v) => v,
            None => "main"@,
        },
        subpath: match sub {
            Some(p) => p,
            None => Seq::empty(),
        },
    }
}

/// Whether `s` is an address of that form for `info`.
pub open spec fn bare_repo(s: Seq<char>, info: RepoView) -> bool {
    exists|owner: Seq<char>, repo: Seq<char>, rev: Option<Seq<char>>, sub: Option<Seq<char>>| #[trigger]
        bare_form(s, owner, repo, rev, sub) && info == bare_info(owner, repo, rev, sub)
}

/// The first `/` of `s` at or after `from`, or `@` where `at` says so; the end if there is none.
spec fn stop_at(s: Seq<char>, from: int, at: bool) -> int
    decreases s.len() - from,
{
    if from >= s.len() {
        s.len() as int
    } else if s[from] == '/' || (at && s[from] == '@') {
        from
    } else {
        stop_at(s, from + 1, at)
    }
}

proof fn lemma_stop(s: Seq<char>, from: int, at: bool)
    requires
        0 <= from <= s.len(),
    ensures
        from <= stop_at(s, from, at) <= s.len(),
        forall|k: int|
            from <= k < stop_at(s, from, at) ==> #[trigger] s[k] != '/' && (at ==> s[k] != '@'),
        stop_at(s, from, at) < s.len() ==> s[stop_at(s, from, at)] == '/' || (at && s[stop_at(
            s,
            from,
            at,
        )] == '@'),
    decreases s.len() - from,
{
    if from < s.len() && !(s[from] == '/' || (at && s[from] == '@')) {
        lemma_stop(s, from + 1, at);
    }
}

proof fn lemma_stop_unique(s: Seq<char>, from: int, at: bool, end: int)
    requires
        0 <= from <= end <= s.len(),
        forall|k: int| from <= k < end ==> #[trigger] s[k] != '/' && (at ==> s[k] != '@'),
        end < s.len() ==> s[end] == '/' || (at && s[end] == '@'),
    ensures
        stop_at(s, from, at) == end,
    decreases end - from,
{
    if from < end {
        lemma_stop_unique(s, from + 1, at, end);
    }
}

/// The parts of an address, read from left to right.
spec fn read_bare(s: Seq<char>) -> Option<
    (Seq<char>, Seq<char>, Option<Seq<char>>, Option<Seq<char>>),
> {
    let i = stop_at(s, 0, true);
    let j = stop_at(s, i + 1, true);
    let tagged = j < s.len() && s[j] == '@';
    let k = if tagged {
        stop_at(s, j + 1, false)
    } else {
        j
    };
    let rev = if tagged {
        Some(s.subrange(j + 1, k))
    } else {
        None
    };
    if i == 0 || i >= s.len() || s[i] != '/' || j == i + 1 || (tagged && k == j + 1) {
        None
    } else if k >= s.len() {
        Some((s.take(i), s.subrange(i + 1, j), rev, None))
    } else if s.skip(k + 1).contains('\n') {
        None
    } else {
        Some((s.take(i), s.subrange(i + 1, j), rev, Some(s.skip(k + 1))))
    }
}

proof fn lemma_read_sound(s: Seq<char>)
    ensures
        read_bare(s) matches Some((owner, repo, rev, sub)) ==> bare_form(s, owner, repo, rev, sub),
{
    let i = stop_at(s, 0, true);
    lemma_stop(s, 0, true);
    if i < s.len() {
        lemma_stop(s, i + 1, true);
        let j = stop_at(s, i + 1, true);
        if j < s.len() && s[j] == '@' {
            lemma_stop(s, j + 1, false);
        }
    }
    if let Some((owner, repo, rev, sub)) = read_bare(s) {
        assert(s =~= owner + seq!['/'] + repo + marked('@', rev) + marked('/', sub));
    }
}

proof fn lemma_read_complete(
    s: Seq<char>,
    owner: Seq<char>,
    repo: Seq<char>,
    rev: Option<Seq<char>>,
    sub: Option<Seq<char>>,
)
    requires
        bare_form(s, owner, repo, rev, sub),
    ensures
        read_bare(s) == Some((owner, repo, rev, sub)),
{
    let i = owner.len() as int;
    let j = i + 1 + repo.len();
    let tail = marked('@', rev) + marked('/', sub);
    assert(s =~= owner + seq!['/'] + repo + tail);
    assert forall|x: int| 0 <= x < i implies #[trigger] s[x] != '/' && s[x] != '@' by {
        assert(s[x] == owner[x]);
    }
    assert(s[i] == '/');
    lemma_stop_unique(s, 0, true, i);
    assert forall|x: int| i + 1 <= x < j implies #[trigger] s[x] != '/' && s[x] != '@' by {
        assert(s[x] == repo[x - i - 1]);
    }
    if j < s.len() {
        assert(s[j] == tail[0]);
    }
    lemma_stop_unique(s, i + 1, true, j);
    assert(s.take(i) =~= owner);
    assert(s.subrange(i + 1, j) =~= repo);
    match rev {
        Some(v) => {
            assert(s[j] == '@');
            let k = j + 1 + v.len();
            assert forall|x: int| j + 1 <= x < k implies #[trigger] s[x] != '/' by {
                assert(s[x] == tail[x - j]);
                assert(s[x] == v[x - j - 1]);
            }
            if k < s.len() {
                assert(s[k] == tail[k - j]);
            }
            lemma_stop_unique(s, j + 1, false, k);
            assert(s.subrange(j + 1, k) =~= v);
            if let Some(p) = sub {
                assert(s.skip(k + 1) =~= p);
            }
        },
        None => {
            if let Some(p) = sub {
                assert(s.skip(j + 1) =~= p);
            }
        },
    }
}

fn find_stop(v: &Vec<char>, from: usize, at: bool) -> (r: usize)
    requires
        from <= v@.len(),
    ensures
        r == stop_at(v@, from as int, at),
        from <= r <= v@.len(),
{
    proof {
        lemma_stop(v@, from as int, at);
    }
    let mut i: usize = from;
    while i < v.len() && !(v[i] == '/' || (at && v[i] == '@'))
        invariant
            from <= i <= v@.len(),
            stop_at(v@, from as int, at) == stop_at(v@, i as int, at),
        decreases v@.len() - i,
    {
        i += 1;
    }
    i
}

fn has_line_feed(v: &Vec<char>, from: usize) -> (r: bool)
    requires
        from <= v@.len(),
    ensures
        r == v@.skip(from as int).contains('\n'),
{
    let ghost tail = v@.skip(from as int);
    let mut i: usize = from;
    while i < v.len()
        invariant
            from <= i <= v@.len(),
            tail == v@.skip(from as int),
            forall|k: int| 0 <= k < i - from ==> #[trigger] tail[k] != '\n',
        decreases v@.len() - i,
    {
        assert(tail[i - from] == v@[i as int]);
        if v[i] == '\n' {
            return true;
        }
        i += 1;
    }
    false
}

/// Reads an address of the form `owner/repo[@rev][/sub]`.
pub fn parse_bare(s: &str) -> (r: Option<RepoInfo>)
    ensures
        match r {
            Some(info) => bare_repo(s@, info@),
            None => forall|info: RepoView| !bare_repo(s@, info),
        },
{
    let v = chars_of(s);
    proof {
        lemma_read_sound(s@);
        assert forall|info: RepoView| read_bare(s@) is None implies !#[trigger] bare_repo(s@, info) by {
            if bare_repo(s@, info) {
                let (owner, repo, rev, sub) = choose|
                    owner: Seq<char>,
                    repo: Seq<char>,
                    rev: Option<Seq<char>>,
                    sub: Option<Seq<char>>,
                | #[trigger]
                    bare_form(s@, owner, repo, rev, sub) && info == bare_info(owner, repo, rev, sub);
                lemma_read_complete(s@, owner, repo, rev, sub);
            }
        }
    }
    let i = find_stop(&v, 0, true);
    if i == 0 || i >= v.len() || v[i] != '/' {
        return None;
    }
    let j = find_stop(&v, i + 1, true);
    if j == i + 1 {
        return None;
    }
    let tagged = j < v.len() && v[j] == '@';
    let k = if tagged {
        find_stop(&v, j + 1, false)
    } else {
        j
    };
    if tagged && k == j + 1 {
        return None;
    }
    let owner = string_of(&v, 0, i);
    let repo = string_of(&v, i + 1, j);
    let revision = if tagged {
        string_of(&v, j + 1, k)
    } else {
        "main".to_owned()
    };
    let subpath = if k < v.len() {
        string_of(&v, k + 1, v.len())
    } else {
        String::new()
    };
    if k < v.len() && has_line_feed(&v, k + 1) {
        return None;
    }
    assert(k < v@.len() ==> s@.skip(k + 1) == subpath@);
    let info = RepoInfo {
        repo_id: cat3(owner.as_str(), "/", repo.as_str()),
        repo_type: "model".to_owned(),
        revision,
        subpath,
    };
    proof {
        reveal_strlit("/");
        assert("/"@ =~= seq!['/']);
        let (o, r, w, p) = read_bare(s@).unwrap();
        assert(owner@ == o && repo@ == r);
        assert(info@ == bare_info(o, r, w, p));
    }
    Some(info)
}

/// An address names at most one repository.
pub proof fn law_bare_unique(s: Seq<char>, a: RepoView, b: RepoView)
    requires
        bare_repo(s, a),
        bare_repo(s, b),
    ensures
        a == b,
{
    let (o1, r1, v1, p1) = choose|
        owner: Seq<char>,
        repo: Seq<char>,
        rev: Option<Seq<char>>,
        sub: Option<Seq<char>>,
    | #[trigger]
        bare_form(s, owner, repo, rev, sub) && a == bare_info(owner, repo, rev, sub);
    lemma_read_complete(s, o1, r1, v1, p1);
    let (o2, r2, v2, p2) = choose|
        owner: Seq<char>,
        repo: Seq<char>,
        rev: Option<Seq<char>>,
        sub: Option<Seq<char>>,
    | #[trigger]
        bare_form(s, owner, repo, rev, sub) && b == bare_info(owner, repo, rev, sub);
    lemma_read_complete(s, o2, r2, v2, p2);
}

// ---------------------------------------------------------------------------------------------
// Addresses written as a URL
// ---------------------------------------------------------------------------------------------

/// The path of the URL that a text reads as, if it is one.
pub uninterp spec fn url_path(text: Seq<char>) -> Option<Seq<char>>;

/// `url::Url::parse` and, of the URL, `Url::path`: the percent-encoded path, normalised. What it
/// is depends on the text alone.
#[verifier::external_body]
fn parse_url(text: &str) -> (r: Option<String>)
    ensures
        opt_text(r) == url_path(text@),
{
    match url::Url::parse(text) {
        Ok(u) => Some(u.path().to_string()),
        Err(_) => None,
    }
}

/// The non-empty segments of a URL path. A path that does not begin with `/` has none.
pub open spec fn segments(path: Seq<char>) -> Seq<Seq<char>> {
    if path.len() > 0 && path[0] == '/' {
        pieces(path, '/')
    } else {
        Seq::empty()
    }
}

/// The kind of repository that a first segment announces.
pub open spec fn announced(segment: Seq<char>) -> Option<Seq<char>> {
    if segment == "datasets"@ {
        Some("dataset"@)
    } else if segment == "spaces"@ {
        Some("space"@)
    } else if segment == "models"@ {
        Some("model"@)
    } else {
        None
    }
}

/// The repository that the segments of a web address name. A leading `datasets`, `spaces` or
/// `models` tells the kind; owner and name follow; `tree/<revision>` may come next, and what is
/// left is the sub-path.
pub open spec fn repo_of_segments(parts: Seq<Seq<char>>) -> Option<RepoView> {
    let kind = if parts.len() > 0 {
        announced(parts[0])
    } else {
        None
    };
    let rest = if kind is Some {
        parts.skip(1)
    } else {
        parts
    };
    if rest.len() < 2 {
        None
    } else {
        let tail = rest.skip(2);
        let tree = tail.len() > 0 && tail[0] == "tree"@;
        Some(
            RepoView {
                repo_id: rest[0] + seq!['/'] + rest[1],
                repo_type: match kind {
                    Some(k) => k,
                    None => "model"@,
                },
                revision: if tree && tail.len() > 1 {
                    tail[1]
                } else {
                    "main"@
                },
                subpath: if !tree {
                    joined(tail, seq!['/'])
                } else if tail.len() > 1 {
                    joined(tail.skip(2), seq!['/'])
                } else {
                    Seq::empty()
                },
            },
        )
    }
}

fn kind_of(segment: &str) -> (r: Option<String>)
    ensures
        opt_text(r) == announced(segment@),
{
    if str_eq(segment, "datasets") {
        Some("dataset".to_owned())
    } else if str_eq(segment, "spaces") {
        Some("space".to_owned())
    } else if str_eq(segment, "models") {
        Some("model".to_owned())
    } else {
        None
    }
}

/// The repository that a URL path names.
pub fn repo_from_path(path: &str) -> (r: Option<RepoInfo>)
    ensures
        match r {
            Some(info) => repo_of_segments(segments(path@)) == Some(info@),
            None => repo_of_segments(segments(path@)) is None,
        },
{
    let v = chars_of(path);
    let parts: Vec<String> = if v.len() > 0 && v[0] == '/' {
        pieces_of(path, '/')
    } else {
        Vec::new()
    };
    let ghost all = segments(path@);
    assert(texts(parts@) == all);
    let kind = if parts.len() > 0 {
        assert(all[0] == parts@[0]@);
        kind_of(parts[0].as_str())
    } else {
        None
    };
    let at: usize = if kind.is_some() {
        1
    } else {
        0
    };
    if parts.len() - at < 2 {
        return None;
    }
    let ghost rest = if kind is Some {
        all.skip(1)
    } else {
        all
    };
    let ghost tail = rest.skip(2);
    assert(forall|i: int| 0 <= i < rest.len() ==> #[trigger] rest[i] == parts@[at + i]@);
    assert(forall|i: int| 0 <= i < tail.len() ==> #[trigger] tail[i] == parts@[at + 2 + i]@);
    assert(tail == texts(parts@).skip(at + 2));
    let repo_id = cat3(parts[at].as_str(), "/", parts[at + 1].as_str());
    let repo_type = match kind {
        Some(k) => k,
        None => "model".to_owned(),
    };
    proof {
        reveal_strlit("/");
        assert("/"@ =~= seq!['/']);
        assert(repo_id@ == rest[0] + seq!['/'] + rest[1]);
    }
    let tree = parts.len() > at + 2 && str_eq(parts[at + 2].as_str(), "tree");
    if tree {
        if parts.len() > at + 3 {
            let revision = parts[at + 3].clone();
            let subpath = join(&parts, at + 4, "/");
            assert(tail.skip(2) == texts(parts@).skip(at + 4));
            assert(revision@ == tail[1]);
            Some(RepoInfo { repo_id, repo_type, revision, subpath })
        } else {
            Some(RepoInfo { repo_id, repo_type, revision: "main".to_owned(), subpath: String::new() })
        }
    } else {
        let subpath = join(&parts, at + 2, "/");
        Some(RepoInfo { repo_id, repo_type, revision: "main".to_owned(), subpath })
    }
}

/// Whether an address is meant as a URL.
pub open spec fn is_web(s: Seq<char>) -> bool {
    "http://"@.is_prefix_of(s) || "https://"@.is_prefix_of(s)
}

/// Whether `r` is what an address `s` without surrounding white space gives, where `path` is the
/// path of the URL it reads as.
pub open spec fn address_result(
    s: Seq<char>,
    path: Option<Seq<char>>,
    lang: Seq<char>,
    reg: LangView,
    r: Result<RepoInfo, String>,
) -> bool {
    if s.len() == 0 {
        r matches Err(e) && e@ == reg.translated("err_empty"@, lang)
    } else if is_web(s) {
        match path {
            None => r matches Err(e) && e@ == reg.translated("err_parse_url"@, lang),
            Some(p) => match repo_of_segments(segments(p)) {
                None => r matches Err(e) && e@ == reg.translated("err_repo_url"@, lang),
                Some(info) => r matches Ok(i) && i@ == info,
            },
        }
    } else {
        match r {
            Ok(i) => bare_repo(s, i@),
            Err(e) => e@ == reg.translated("err_parse_repo"@, lang) && forall|info: RepoView|
                !bare_repo(s, info),
        }
    }
}

/// Reads an address without surrounding white space, given the path of the URL it reads as.
pub fn repo_from_address(
    s: &str,
    path: &Option<String>,
    lang: &str,
    reg: &LangRegistry,
) -> (r: Result<RepoInfo, String>)
    ensures
        address_result(s@, opt_text(*path), lang@, reg@, r),
{
    if s.is_empty() {
        Err(t("err_empty", lang, reg))
    } else if starts_with(s, "http://") || starts_with(s, "https://") {
        match path {
            None => Err(t("err_parse_url", lang, reg)),
            Some(p) => match repo_from_path(p.as_str()) {
                Some(info) => Ok(info),
                None => Err(t("err_repo_url", lang, reg)),
            },
        }
    } else {
        match parse_bare(s) {
            Some(info) => Ok(info),
            None => Err(t("err_parse_repo", lang, reg)),
        }
    }
}

/// Reads what the user typed as an address: a web address, or `owner/repo[@rev][/sub]`.
pub fn parse_repo_input(text: &str, lang: &str, reg: &LangRegistry) -> (r: Result<
    RepoInfo,
    String,
>)
    ensures
        address_result(trimmed(text@), url_path(trimmed(text@)), lang@, reg@, r),
{
    let s = trim(text);
    let path = parse_url(s.as_str());
    repo_from_address(s.as_str(), &path, lang, reg)
}

// ---------------------------------------------------------------------------------------------
// Listing the files of a repository
// ---------------------------------------------------------------------------------------------

/// The base of every API address: the mirror without trailing slashes, or the official site.
pub open spec fn api_base_of(endpoint: Seq<char>) -> Seq<char> {
    if endpoint.len() == 0 {
        "https://huggingface.co"@
    } else {
        without_trailing(endpoint, '/')
    }
}

/// The base of every API address.
pub fn api_base(endpoint: &str) -> (r: String)
    ensures
        r@ == api_base_of(endpoint@),
{
    if endpoint.is_empty() {
        "https://huggingface.co".to_owned()
    } else {
        trim_end_matches(endpoint, '/')
    }
}

/// How the API calls a kind of repository.
pub open spec fn api_kind(repo_type: Seq<char>) -> Seq<char> {
    if repo_type == "dataset"@ {
        "datasets"@
    } else if repo_type == "space"@ {
        "spaces"@
    } else {
        "models"@
    }
}

/// Where the list of files of a repository is found.
pub open spec fn tree_address(
    repo_id: Seq<char>,
    revision: Seq<char>,
    subpath: Seq<char>,
    repo_type: Seq<char>,
    endpoint: Seq<char>,
) -> Seq<char> {
    let url = api_base_of(endpoint) + "/api/"@ + api_kind(repo_type) + "/"@ + repo_id + "/tree/"@
        + revision + "?recursive=true"@;
    if subpath.len() == 0 {
        url
    } else {
        url + "&path="@ + subpath
    }
}

/// Where the list of files of a repository is found.
pub fn tree_url(
    repo_id: &str,
    revision: &str,
    subpath: &str,
    repo_type: &str,
    endpoint: &str,
) -> (r: String)
    ensures
        r@ == tree_address(repo_id@, revision@, subpath@, repo_type@, endpoint@),
{
    let mut url = api_base(endpoint);
    url.append("/api/");
    if str_eq(repo_type, "dataset") {
        url.append("datasets");
    } else if str_eq(repo_type, "space") {
        url.append("spaces");
    } else {
        url.append("models");
    }
    url.append("/");
    url.append(repo_id);
    url.append("/tree/");
    url.append(revision);
    url.append("?recursive=true");
    if !subpath.is_empty() {
        url.append("&path=");
        url.append(subpath);
    }
    url
}

/// A request to be sent, with a bearer token where one is given, and only there.
pub struct Request {
    pub url: String,
    pub bearer: Option<String>,
}

/// The request for the list of files of a repository. `token_file` is what the file of the access
/// token holds, if it can be read; the stored token goes with the request if there is one.
pub fn tree_request(
    repo_id: &str,
    revision: &str,
    subpath: &str,
    repo_type: &str,
    endpoint: &str,
    token_file: &Option<String>,
) -> (r: Request)
    ensures
        r.url@ == tree_address(repo_id@, revision@, subpath@, repo_type@, endpoint@),
        opt_text(r.bearer) == stored_token(opt_text(*token_file)),
{
    let url = tree_url(repo_id, revision, subpath, repo_type, endpoint);
    let bearer = read_token(token_file);
    Request { url, bearer }
}

/// What came back from a request: nothing but an error, or a status with its usual wording.
pub enum Reply {
    Failed(String),
    Status { code: u16, wording: String },
}

/// Whether a status reports success.
pub open spec fn is_success(code: u16) -> bool {
    200 <= code <= 299
}

/// `what: detail`.
pub open spec fn reported(what: Seq<char>, detail: Seq<char>) -> Seq<char> {
    what + ": "@ + detail
}

/// One item of a directory listing, as far as it is used.
pub struct TreeItem {
    pub kind: Option<String>,
    pub path: Option<String>,
    pub size: Option<u64>,
}

/// The members of a [`TreeItem`].
pub open spec fn item_parts(i: TreeItem) -> (Option<Seq<char>>, Option<Seq<char>>, Option<u64>) {
    (opt_text(i.kind), opt_text(i.path), i.size)
}

/// The members of each of a list of items.
pub open spec fn item_list(v: Seq<TreeItem>) -> Seq<
    (Option<Seq<char>>, Option<Seq<char>>, Option<u64>),
> {
    Seq::new(v.len(), |i: int| item_parts(v[i]))
}

/// What a JSON array holds: of each element the string members `kind` and `path` and the
/// unsigned member `size`, each where the element has it. Nothing if the text is no JSON array.
pub uninterp spec fn json_items(
    body: Seq<u8>,
    kind: Seq<char>,
    path: Seq<char>,
    size: Seq<char>,
) -> Option<Seq<(Option<Seq<char>>, Option<Seq<char>>, Option<u64>)>>;

/// `serde_json::from_slice` into a list of values, and of each value `Value::get` with
/// `Value::as_str` or `Value::as_u64` for the three members asked for. What comes out depends on
/// the bytes and on the names of the members alone.
#[verifier::external_body]
fn parse_items(body: &Vec<u8>, kind: &str, path: &str, size: &str) -> (r: Option<Vec<TreeItem>>)
    ensures
        match r {
            Some(v) => json_items(body@, kind@, path@, size@) == Some(item_list(v@)),
            None => json_items(body@, kind@, path@, size@) is None,
        },
{
    let parsed: Result<Vec<serde_json::Value>, serde_json::Error> = serde_json::from_slice(body);
    let convert = |v: &serde_json::Value| TreeItem {
        kind: v.get(kind).and_then(|x| x.as_str()).map(|x| x.to_string()),
        path: v.get(path).and_then(|x| x.as_str()).map(|x| x.to_string()),
        size: v.get(size).and_then(|x| x.as_u64()),
    };
    match parsed {
        Ok(items) => Some(items.iter().map(convert).collect()),
        Err(_) => None,
    }
}

/// The file that a listed item stands for: its kind is `file` and its path is not empty; a size
/// that is not given counts as zero.
pub open spec fn listed_file(
    item: (Option<Seq<char>>, Option<Seq<char>>, Option<u64>),
) -> Option<EntryView> {
    match (item.0, item.1) {
        (Some(kind), Some(path)) if kind == "file"@ && path.len() > 0 => Some(
            EntryView {
                path,
                size: match item.2 {
                    Some(n) => n,
                    None => 0,
                },
            },
        ),
        _ => None,
    }
}

/// The files among the listed items, in order.
pub open spec fn listed_files(
    items: Seq<(Option<Seq<char>>, Option<Seq<char>>, Option<u64>)>,
) -> Seq<EntryView>
    decreases items.len(),
{
    if items.len() == 0 {
        Seq::empty()
    } else {
        let before = listed_files(items.drop_last());
        match listed_file(items.last()) {
            Some(e) => before.push(e),
            None => before,
        }
    }
}

/// The files among the listed items, in order.
pub fn files_from_items(items: &Vec<TreeItem>) -> (files: Vec<FileEntry>)
    ensures
        entries(files@) == listed_files(item_list(items@)),
{
    let mut files: Vec<FileEntry> = Vec::new();
    let mut i: usize = 0;
    while i < items.len()
        invariant
            i <= items@.len(),
            entries(files@) == listed_files(item_list(items@).take(i as int)),
        decreases items@.len() - i,
    {
        let ghost upto = item_list(items@).take(i + 1);
        assert(upto.drop_last() == item_list(items@).take(i as int));
        assert(upto.last() == item_parts(items@[i as int]));
        let ghost before = entries(files@);
        match (&items[i].kind, &items[i].path) {
            (Some(kind), Some(path)) => {
                if str_eq(kind.as_str(), "file") && !path.as_str().is_empty() {
                    let size: u64 = match items[i].size {
                        Some(n) => n,
                        None => 0,
                    };
                    let file = FileEntry { path: path.clone(), size };
                    files.push(file);
                    assert(entries(files@) == before.push(file@));
                }
            },
            _ => {},
        }
        i += 1;
    }
    assert(item_list(items@).take(i as int) == item_list(items@));
    files
}

/// Whether `r` is the answer to a request for the files of `repo_id`, where `items` is what the
/// body of the reply holds, or the reason why there is no body. Of a body that is no list, the
/// message says what an HTTP client says of it.
pub open spec fn listing_result(
    repo_id: Seq<char>,
    reply: Reply,
    items: Result<Option<Seq<(Option<Seq<char>>, Option<Seq<char>>, Option<u64>)>>, Seq<char>>,
    lang: Seq<char>,
    reg: LangView,
    r: Result<Vec<FileEntry>, String>,
) -> bool {
    match reply {
        Reply::Failed(e) => r matches Err(m) && m@ == reported(
            reg.translated("err_request"@, lang),
            e@,
        ),
        Reply::Status { code, wording } => if code == 404 {
            r matches Err(m) && m@ == reported(reg.translated("err_repo_not_found"@, lang), repo_id)
        } else if code == 403 {
            r matches Err(m) && m@ == reported(reg.translated("err_gated"@, lang), repo_id)
        } else if !is_success(code) {
            r matches Err(m) && m@ == reported(reg.translated("err_api"@, lang), wording@)
        } else {
            match items {
                Err(e) => r matches Err(m) && m@ == reported(
                    reg.translated("err_parse_resp"@, lang),
                    e,
                ),
                Ok(None) => r matches Err(m) && m@ == reported(
                    reg.translated("err_parse_resp"@, lang),
                    "error decoding response body"@,
                ),
                Ok(Some(list)) => r matches Ok(files) && entries(files@) == listed_files(list),
            }
        },
    }
}

/// What the body of a reply holds.
pub open spec fn body_items(body: Result<Vec<u8>, String>) -> Result<
    Option<Seq<(Option<Seq<char>>, Option<Seq<char>>, Option<u64>)>>,
    Seq<char>,
> {
    match body {
        Ok(b) => Ok(json_items(b@, "type"@, "path"@, "size"@)),
        Err(e) => Err(e@),
    }
}

fn report(key: &str, detail: &str, lang: &str, reg: &LangRegistry) -> (r: String)
    ensures
        r@ == reported(reg@.translated(key@, lang@), detail@),
{
    let what = t(key, lang, reg);
    cat3(what.as_str(), ": ", detail)
}

/// The items of a list, if there is one, or the reason why not.
pub open spec fn read_items(items: Result<Option<Vec<TreeItem>>, String>) -> Result<
    Option<Seq<(Option<Seq<char>>, Option<Seq<char>>, Option<u64>)>>,
    Seq<char>,
> {
    match items {
        Ok(Some(v)) => Ok(Some(item_list(v@))),
        Ok(None) => Ok(None),
        Err(e) => Err(e@),
    }
}

/// What the reply to a request for the files of `repo_id` means, where `items` is what its body
/// holds. That is looked at only where the status reports success.
pub fn listing_from(
    repo_id: &str,
    reply: &Reply,
    items: &Result<Option<Vec<TreeItem>>, String>,
    lang: &str,
    reg: &LangRegistry,
) -> (r: Result<Vec<FileEntry>, String>)
    ensures
        listing_result(repo_id@, *reply, read_items(*items), lang@, reg@, r),
{
    match reply {
        Reply::Failed(e) => Err(report("err_request", e.as_str(), lang, reg)),
        Reply::Status { code, wording } => if *code == 404 {
            Err(report("err_repo_not_found", repo_id, lang, reg))
        } else if *code == 403 {
            Err(report("err_gated", repo_id, lang, reg))
        } else if *code < 200 || *code > 299 {
            Err(report("err_api", wording.as_str(), lang, reg))
        } else {
            match items {
                Err(e) => Err(report("err_parse_resp", e.as_str(), lang, reg)),
                Ok(Some(items)) => Ok(files_from_items(items)),
                Ok(None) => Err(
                    report("err_parse_resp", "error decoding response body", lang, reg),
                ),
            }
        },
    }
}

/// What the reply to a request for the files of `repo_id` means.
pub fn list_files(
    repo_id: &str,
    reply: &Reply,
    body: &Result<Vec<u8>, String>,
    lang: &str,
    reg: &LangRegistry,
) -> (r: Result<Vec<FileEntry>, String>)
    ensures
        listing_result(repo_id@, *reply, body_items(*body), lang@, reg@, r),
{
    let items = match body {
        Ok(bytes) => Ok(parse_items(bytes, "type", "path", "size")),
        Err(e) => Err(e.clone()),
    };
    listing_from(repo_id, reply, &items, lang, reg)
}

// ---------------------------------------------------------------------------------------------
// Where a repository is stored
// ---------------------------------------------------------------------------------------------

/// The directory of a repository: one below `base_dir`, named after it with `-` for `/`.
pub open spec fn target_dir(repo_id: Seq<char>, base_dir: Seq<char>, sep: char) -> Seq<char> {
    path_join(base_dir, replaced(repo_id, '/', '-'), sep)
}

/// The directory of a repository on a platform with the given separator.
pub fn target_dir_with(repo_id: &str, base_dir: &str, sep: char) -> (r: String)
    ensures
        r@ == target_dir(repo_id@, base_dir@, sep),
{
    let safe = replace_char(repo_id, '/', '-');
    join_path(base_dir, safe.as_str(), sep)
}

/// The directory of a repository.
pub fn target_dir_for(repo_id: &str, base_dir: &str) -> (r: String)
    ensures
        exists|sep: char| #[trigger]
            known_separator(sep) && r@ == target_dir(repo_id@, base_dir@, sep),
{
    let sep = main_separator();
    target_dir_with(repo_id, base_dir, sep)
}

// ---------------------------------------------------------------------------------------------
// The access token
// ---------------------------------------------------------------------------------------------

/// Where the token is kept: in `.cache/huggingface/token` below the home directory.
pub open spec fn token_place(home: Seq<char>, sep: char) -> Seq<char> {
    path_join(path_join(path_join(home, ".cache"@, sep), "huggingface"@, sep), "token"@, sep)
}

/// Where the token is kept, if there is a home directory.
pub fn token_path(home: &Option<String>, sep: char) -> (r: Option<String>)
    ensures
        opt_text(r) == match *home {
            Some(h) => Some(token_place(h@, sep)),
            None => None,
        },
{
    match home {
        Some(h) => {
            let cache = join_path(h.as_str(), ".cache", sep);
            let hub = join_path(cache.as_str(), "huggingface", sep);
            Some(join_path(hub.as_str(), "token", sep))
        },
        None => None,
    }
}

/// The token that a file with the given contents holds: the contents without surrounding white
/// space, if anything is left.
pub open spec fn stored_token(contents: Option<Seq<char>>) -> Option<Seq<char>> {
    match contents {
        Some(c) if trimmed(c).len() > 0 => Some(trimmed(c)),
        _ => None,
    }
}

/// The token that the token file holds.
pub fn read_token(contents: &Option<String>) -> (r: Option<String>)
    ensures
        opt_text(r) == stored_token(opt_text(*contents)),
{
    match contents {
        Some(c) => {
            let s = trim(c.as_str());
            if s.as_str().is_empty() {
                None
            } else {
                Some(s)
            }
        },
        None => None,
    }
}

/// Where the API tells whose token it is.
pub open spec fn whoami_address(endpoint: Seq<char>) -> Seq<char> {
    api_base_of(endpoint) + "/api/whoami-v2"@
}

/// Where the API tells whose token it is.
pub fn whoami_url(endpoint: &str) -> (r: String)
    ensures
        r@ == whoami_address(endpoint@),
{
    let base = api_base(endpoint);
    cat(base.as_str(), "/api/whoami-v2")
}

/// The request that asks whose token `token` is; none if it is blank.
pub fn whoami_request(token: &str, endpoint: &str) -> (r: Option<Request>)
    ensures
        match r {
            Some(q) => {
                &&& trimmed(token@).len() > 0
                &&& q.url@ == whoami_address(endpoint@)
                &&& opt_text(q.bearer) == Some(trimmed(token@))
            },
            None => trimmed(token@).len() == 0,
        },
{
    let token = trim(token);
    if token.as_str().is_empty() {
        None
    } else {
        let url = whoami_url(endpoint);
        Some(Request { url, bearer: Some(token) })
    }
}

/// What a check of the stored token finds.
pub open spec fn checked(
    token: Option<Seq<char>>,
    reply: Reply,
    lang: Seq<char>,
    reg: LangView,
) -> TokenView {
    match (token, reply) {
        (None, _) => TokenView { status: "missing"@, error: None },
        (Some(_), Reply::Status { code, wording }) => if is_success(code) {
            TokenView { status: "logged_in"@, error: None }
        } else {
            TokenView { status: "invalid"@, error: Some("HTTP "@ + wording@) }
        },
        (Some(_), Reply::Failed(e)) => TokenView {
            status: "invalid"@,
            error: Some(reported(reg.translated("err_token_invalid"@, lang), e@)),
        },
    }
}

/// What a check of the stored token finds. Without a token nothing is asked, and the reply is
/// not looked at.
pub fn check_token(token: &Option<String>, reply: &Reply, lang: &str, reg: &LangRegistry) -> (r:
    TokenStatus)
    ensures
        r@ == checked(opt_text(*token), *reply, lang@, reg@),
{
    match token {
        None => TokenStatus { status: "missing".to_owned(), error: None },
        Some(_) => match reply {
            Reply::Status { code, wording } => if *code >= 200 && *code <= 299 {
                TokenStatus { status: "logged_in".to_owned(), error: None }
            } else {
                TokenStatus {
                    status: "invalid".to_owned(),
                    error: Some(cat("HTTP ", wording.as_str())),
                }
            },
            Reply::Failed(e) => TokenStatus {
                status: "invalid".to_owned(),
                error: Some(report("err_token_invalid", e.as_str(), lang, reg)),
            },
        },
    }
}

/// What a login finds, with the token that is to be stored.
pub struct Login {
    pub status: TokenStatus,
    pub save: Option<String>,
}

/// What a login with `token` finds.
pub open spec fn logged_in(
    token: Seq<char>,
    reply: Reply,
    lang: Seq<char>,
    reg: LangView,
) -> TokenView {
    if trimmed(token).len() == 0 {
        TokenView {
            status: "missing"@,
            error: Some(reg.translated("err_token_empty"@, lang)),
        }
    } else {
        match reply {
            Reply::Status { code, wording } => if is_success(code) {
                TokenView { status: "logged_in"@, error: None }
            } else {
                TokenView {
                    status: "invalid"@,
                    error: Some(reported(reg.translated("err_token_invalid"@, lang), wording@)),
                }
            },
            Reply::Failed(e) => TokenView {
                status: "invalid"@,
                error: Some(reported(reg.translated("err_token_invalid"@, lang), e@)),
            },
        }
    }
}

/// What a login with `token` finds, given the reply to the question whose token it is. Only a
/// token that the API accepts is stored, without surrounding white space.
pub fn login_token(token: &str, reply: &Reply, lang: &str, reg: &LangRegistry) -> (r: Login)
    ensures
        r.status@ == logged_in(token@, *reply, lang@, reg@),
        opt_text(r.save) == if r.status@.status == "logged_in"@ {
            Some(trimmed(token@))
        } else {
            None
        },
{
    proof {
        reveal_strlit("logged_in");
        reveal_strlit("missing");
        reveal_strlit("invalid");
        assert("logged_in"@.len() == 9 && "missing"@.len() == 7 && "invalid"@.len() == 7);
    }
    let token = trim(token);
    if token.as_str().is_empty() {
        return Login {
            status: TokenStatus {
                status: "missing".to_owned(),
                error: Some(t("err_token_empty", lang, reg)),
            },
            save: None,
        };
    }
    match reply {
        Reply::Status { code, wording } => if *code >= 200 && *code <= 299 {
            Login {
                status: TokenStatus { status: "logged_in".to_owned(), error: None },
                save: Some(token),
            }
        } else {
            Login {
                status: TokenStatus {
                    status: "invalid".to_owned(),
                    error: Some(report("err_token_invalid", wording.as_str(), lang, reg)),
                },
                save: None,
            }
        },
        Reply::Failed(e) => Login {
            status: TokenStatus {
                status: "invalid".to_owned(),
                error: Some(report("err_token_invalid", e.as_str(), lang, reg)),
            },
            save: None,
        },
    }
}

// ---------------------------------------------------------------------------------------------
// Laws
// ---------------------------------------------------------------------------------------------

/// Whether a repository id reads `owner/name`, with one slash and something on either side.
pub open spec fn is_repo_id(id: Seq<char>) -> bool {
    exists|owner: Seq<char>, name: Seq<char>|
        #![trigger owner + seq!['/'] + name]
        owner.len() > 0 && !owner.contains('/') && name.len() > 0 && !name.contains('/') && id
            == owner + seq!['/'] + name
}

/// Whatever address is accepted, the repository id reads `owner/name`.
pub proof fn law_accepted_id(
    s: Seq<char>,
    path: Option<Seq<char>>,
    lang: Seq<char>,
    reg: LangView,
    r: Result<RepoInfo, String>,
)
    requires
        address_result(s, path, lang, reg, r),
        r is Ok,
    ensures
        is_repo_id(r->Ok_0@.repo_id),
{
    let info = r->Ok_0@;
    if is_web(s) {
        let parts = segments(path.unwrap());
        let at: int = if announced(parts[0]) is Some {
            1
        } else {
            0
        };
        law_pieces_clean(path.unwrap(), '/', at);
        law_pieces_clean(path.unwrap(), '/', at + 1);
        assert(info.repo_id == parts[at] + seq!['/'] + parts[at + 1]);
    } else {
        let (owner, repo, rev, sub) = choose|
            owner: Seq<char>,
            repo: Seq<char>,
            rev: Option<Seq<char>>,
            sub: Option<Seq<char>>,
        | #[trigger]
            bare_form(s, owner, repo, rev, sub) && info == bare_info(owner, repo, rev, sub);
        assert(info.repo_id == owner + seq!['/'] + repo);
    }
}

/// A web address and a short one mean the same: the URL path `/owner/repo` names the repository
/// that `owner/repo` names, and so does `/owner/repo/tree/<rev>/<sub>` for `owner/repo@rev/sub`.
/// An owner called like a kind of repository can only be written the short way.
pub proof fn law_web_and_short_agree(
    owner: Seq<char>,
    repo: Seq<char>,
    tree: Option<(Seq<char>, Seq<Seq<char>>)>,
)
    requires
        owner.len() > 0 && !owner.contains('/') && !owner.contains('@'),
        repo.len() > 0 && !repo.contains('/') && !repo.contains('@'),
        announced(owner) is None,
        tree matches Some((rev, sub)) ==> {
            &&& rev.len() > 0 && !rev.contains('/')
            &&& forall|i: int| 0 <= i < sub.len() ==> (#[trigger] sub[i]).len() > 0
            &&& forall|i: int| 0 <= i < sub.len() ==> !(#[trigger] sub[i]).contains('/')
            &&& !joined(sub, seq!['/']).contains('\n')
        },
    ensures
        ({
            let parts = match tree {
                None => seq![owner, repo],
                Some((rev, sub)) => seq![owner, repo, "tree"@, rev] + sub,
            };
            let short = match tree {
                None => owner + seq!['/'] + repo,
                Some((rev, sub)) => owner + seq!['/'] + repo + seq!['@'] + rev + seq!['/'] + joined(
                    sub,
                    seq!['/'],
                ),
            };
            let info = repo_of_segments(segments(seq!['/'] + joined(parts, seq!['/'])));
            info is Some && bare_repo(short, info.unwrap())
        }),
{
    let parts = match tree {
        None => seq![owner, repo],
        Some((rev, sub)) => seq![owner, repo, "tree"@, rev] + sub,
    };
    reveal_strlit("tree");
    assert(!"tree"@.contains('/'));
    assert forall|i: int| 0 <= i < parts.len() implies (#[trigger] parts[i]).len() > 0 by {
        if i >= 4 {
            assert(parts[i] == tree.unwrap().1[i - 4]);
        }
    }
    assert forall|i: int| 0 <= i < parts.len() implies !(#[trigger] parts[i]).contains('/') by {
        if i >= 4 {
            assert(parts[i] == tree.unwrap().1[i - 4]);
        }
    }
    law_pieces_of_joined(parts, '/');
    let path = seq!['/'] + joined(parts, seq!['/']);
    assert(segments(path) == parts);
    let info = repo_of_segments(parts).unwrap();
    match tree {
        None => {
            let short = owner + seq!['/'] + repo;
            assert(parts.skip(2) =~= Seq::<Seq<char>>::empty());
            assert(short =~= short + marked('@', None) + marked('/', None));
            assert(bare_form(short, owner, repo, None, None));
            assert(info == bare_info(owner, repo, None, None));
        },
        Some((rev, sub)) => {
            let rest = joined(sub, seq!['/']);
            let short = owner + seq!['/'] + repo + seq!['@'] + rev + seq!['/'] + rest;
            assert(parts.skip(2)[0] == "tree"@);
            assert(parts.skip(2)[1] == rev);
            assert(parts.skip(2).skip(2) =~= sub);
            assert(short =~= owner + seq!['/'] + repo + marked('@', Some(rev)) + marked(
                '/',
                Some(rest),
            ));
            assert(bare_form(short, owner, repo, Some(rev), Some(rest)));
            assert(info == bare_info(owner, repo, Some(rev), Some(rest)));
        },
    }
}

/// The directory name of a repository holds no slash, so it is a single directory.
pub proof fn law_directory_is_single(repo_id: Seq<char>)
    ensures
        !replaced(repo_id, '/', '-').contains('/'),
{
}

/// Only a token that the API accepts counts as logged in, and an empty one is never asked about.
pub proof fn law_login(token: Seq<char>, reply: Reply, lang: Seq<char>, reg: LangView)
    ensures
        logged_in(token, reply, lang, reg).status == "logged_in"@ <==> trimmed(token).len() > 0 && (
        reply matches Reply::Status { code, .. } && is_success(code)),
{
    reveal_strlit("logged_in");
    reveal_strlit("missing");
    reveal_strlit("invalid");
    assert("logged_in"@.len() == 9 && "missing"@.len() == 7 && "invalid"@.len() == 7);
}

} // verus!
