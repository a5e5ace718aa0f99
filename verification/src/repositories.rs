//! What holds of every address that names a repository, and of every list of its files.

use vstd::prelude::*;
use crate::hf_api::{
    address_result, bare_form, bare_info, bare_repo, body_items, checked, entries, json_items,
    law_bare_unique, listed_files, listing_result, logged_in, marked, repo_of_segments, segments, EntryView,
    FileEntry, Reply, RepoInfo, RepoView, TokenView,
};
use crate::i18n::LangView;
use crate::text::{joined, law_pieces_of_joined, pieces, trimmed};

verus! {

// ---------------------------------------------------------------------------------------------
// Web addresses
// ---------------------------------------------------------------------------------------------

/// The words for kinds of repositories in a web address, each with the kind that it stands for.
pub open spec fn stands_for(word: Seq<char>, kind: Seq<char>) -> bool {
    ||| word == "datasets"@ && kind == "dataset"@
    ||| word == "spaces"@ && kind == "space"@
    ||| word == "models"@ && kind == "model"@
}

/// Whether a segment is none of those words.
pub open spec fn is_plain(segment: Seq<char>) -> bool {
    segment != "datasets"@ && segment != "spaces"@ && segment != "models"@
}

proof fn lemma_words_differ()
    ensures
        "datasets"@ != "spaces"@,
        "datasets"@ != "models"@,
        "spaces"@ != "models"@,
{
    reveal_strlit("datasets");
    reveal_strlit("spaces");
    reveal_strlit("models");
    assert("datasets"@.len() == 8);
    assert("spaces"@.len() == 6);
    assert("models"@.len() == 6);
    assert("spaces"@[0] != "models"@[0]);
}

/// A first segment `datasets`, `spaces` or `models` tells the kind of the repository, whatever
/// follows; owner and name must follow. But for the kind, the address then means what it means
/// without that segment. Without such a segment the repository is that of a model.
pub proof fn law_first_segment_tells_the_kind(
    word: Seq<char>,
    kind: Seq<char>,
    rest: Seq<Seq<char>>,
)
    requires
        stands_for(word, kind),
    ensures
        ({
            let info = repo_of_segments(seq![word] + rest);
            &&& info is Some == (rest.len() >= 2)
            &&& info is Some ==> info->0.repo_type == kind
            &&& info is Some && is_plain(rest[0]) ==> {
                let plain = repo_of_segments(rest);
                &&& plain is Some
                &&& plain->0.repo_type == "model"@
                &&& info->0 == (RepoView { repo_type: kind, ..plain->0 })
            }
        }),
{
    lemma_words_differ();
    let parts = seq![word] + rest;
    assert(parts.skip(1) =~= rest);
    assert(parts[0] == word);
}

/// A list of segments names a repository if and only if an owner and a name are left behind the
/// word for the kind, where there is one; the id reads `owner/name`.
pub proof fn law_owner_and_name_are_needed(parts: Seq<Seq<char>>)
    ensures
        ({
            let info = repo_of_segments(parts);
            let from: int = if parts.len() > 0 && !is_plain(parts[0]) {
                1
            } else {
                0
            };
            &&& info is Some == (parts.len() >= from + 2)
            &&& info is Some ==> info->0.repo_id == parts[from] + seq!['/'] + parts[from + 1]
            &&& info is Some && from == 0 ==> info->0.repo_type == "model"@
        }),
{
}

/// What stands behind the name: nothing, or a path in the main revision, or `tree` with a revision
/// and a path in it. The kind, the owner and the name have no say in that.
pub proof fn law_rest_tells_revision_and_path(
    before: Seq<Seq<char>>,
    tail: Seq<Seq<char>>,
    revision: Seq<char>,
)
    requires
        before.len() == 2 && is_plain(before[0]) || before.len() == 3 && !is_plain(before[0]),
    ensures
        ({
            let info = repo_of_segments(before + tail)->0;
            let tree = repo_of_segments(before + seq!["tree"@, revision] + tail)->0;
            let open = repo_of_segments(before + seq!["tree"@])->0;
            &&& tail.len() == 0 ==> info.revision == "main"@ && info.subpath.len() == 0
            &&& tail.len() > 0 && tail[0] != "tree"@ ==> info.revision == "main"@ && info.subpath
                == joined(tail, seq!['/'])
            &&& tree.revision == revision
            &&& tree.subpath == joined(tail, seq!['/'])
            &&& open.revision == "main"@
            &&& open.subpath.len() == 0
        }),
{
    let at: int = if is_plain(before[0]) {
        0
    } else {
        1
    };
    let a = before + tail;
    let b = before + seq!["tree"@, revision] + tail;
    let c = before + seq!["tree"@];
    assert(a[0] == before[0] && b[0] == before[0] && c[0] == before[0]);
    if at == 0 {
        assert(a.skip(2) =~= tail);
        assert(b.skip(2) =~= seq!["tree"@, revision] + tail);
        assert(c.skip(2) =~= seq!["tree"@]);
    } else {
        assert(a.skip(1).skip(2) =~= tail);
        assert(b.skip(1).skip(2) =~= seq!["tree"@, revision] + tail);
        assert(c.skip(1).skip(2) =~= seq!["tree"@]);
    }
    assert((seq!["tree"@, revision] + tail).skip(2) =~= tail);
}

/// The path of a web address falls into the segments that it was put together from. Where slashes
/// follow each other or end the path, nothing stands between or behind them. A path that does not
/// begin with a slash has no segments.
pub proof fn law_path_falls_into_its_segments(parts: Seq<Seq<char>>, path: Seq<char>)
    requires
        forall|i: int| 0 <= i < parts.len() ==> (#[trigger] parts[i]).len() > 0,
        forall|i: int| 0 <= i < parts.len() ==> !(#[trigger] parts[i]).contains('/'),
    ensures
        segments(seq!['/'] + joined(parts, seq!['/'])) == parts,
        path.len() > 0 && path[0] == '/' ==> segments(path) == pieces(path, '/'),
        path.len() == 0 || path[0] != '/' ==> segments(path).len() == 0,
{
    law_pieces_of_joined(parts, '/');
}

// ---------------------------------------------------------------------------------------------
// Short addresses
// ---------------------------------------------------------------------------------------------

/// Whether a text begins like a URL.
pub open spec fn is_url(s: Seq<char>) -> bool {
    "http://"@.is_prefix_of(s) || "https://"@.is_prefix_of(s)
}

/// `owner/repo`, `owner/repo@rev`, `owner/repo/sub` and `owner/repo@rev/sub` are read as they
/// stand: the repository of a model, in the revision that is given or the main one, and the path
/// in it that is given or none.
pub proof fn law_short_address_is_read(
    owner: Seq<char>,
    repo: Seq<char>,
    rev: Seq<char>,
    sub: Seq<char>,
    tagged: bool,
    below: bool,
    path: Option<Seq<char>>,
    lang: Seq<char>,
    reg: LangView,
    r: Result<RepoInfo, String>,
)
    requires
        owner.len() > 0 && !owner.contains('/') && !owner.contains('@'),
        repo.len() > 0 && !repo.contains('/') && !repo.contains('@'),
        tagged ==> rev.len() > 0 && !rev.contains('/'),
        below ==> !sub.contains('\n'),
        ({
            let head = owner + seq!['/'] + repo;
            let named = if tagged {
                head + seq!['@'] + rev
            } else {
                head
            };
            let s = if below {
                named + seq!['/'] + sub
            } else {
                named
            };
            !is_url(s) && address_result(s, path, lang, reg, r)
        }),
    ensures
        r is Ok,
        r->Ok_0@.repo_id == owner + seq!['/'] + repo,
        r->Ok_0@.repo_type == "model"@,
        r->Ok_0@.revision == if tagged {
            rev
        } else {
            "main"@
        },
        r->Ok_0@.subpath == if below {
            sub
        } else {
            Seq::empty()
        },
{
    let head = owner + seq!['/'] + repo;
    let named = if tagged {
        head + seq!['@'] + rev
    } else {
        head
    };
    let s = if below {
        named + seq!['/'] + sub
    } else {
        named
    };
    let v = if tagged {
        Some(rev)
    } else {
        None
    };
    let p = if below {
        Some(sub)
    } else {
        None
    };
    assert(s =~= owner + seq!['/'] + repo + marked('@', v) + marked('/', p));
    assert(bare_form(s, owner, repo, v, p));
    let info = bare_info(owner, repo, v, p);
    assert(bare_repo(s, info));
    if let Ok(i) = r {
        law_bare_unique(s, info, i@);
    }
}

/// Whatever else is accepted as a short address begins with an owner, a slash and a name that is
/// followed by nothing, a slash or an at sign. All other text is refused with the message for it.
pub proof fn law_short_address_names_a_repository(
    s: Seq<char>,
    path: Option<Seq<char>>,
    lang: Seq<char>,
    reg: LangView,
    r: Result<RepoInfo, String>,
)
    requires
        s.len() > 0,
        !is_url(s),
        address_result(s, path, lang, reg, r),
    ensures
        match r {
            Ok(i) => exists|at: int, end: int|
                {
                    &&& 0 < at < end - 1 < s.len()
                    &&& #[trigger] s[at] == '/'
                    &&& !s.take(at).contains('/') && !s.take(at).contains('@')
                    &&& !(#[trigger] s.subrange(at + 1, end)).contains('/') && !s.subrange(
                        at + 1,
                        end,
                    ).contains('@')
                    &&& end < s.len() ==> s[end] == '/' || s[end] == '@'
                    &&& i@.repo_id == s.take(end)
                },
            Err(e) => e@ == reg.translated("err_parse_repo"@, lang),
        },
{
    if let Ok(i) = r {
        let (owner, repo, rev, sub) = choose|
            owner: Seq<char>,
            repo: Seq<char>,
            rev: Option<Seq<char>>,
            sub: Option<Seq<char>>,
        | #[trigger]
            bare_form(s, owner, repo, rev, sub) && i@ == bare_info(owner, repo, rev, sub);
        let at = owner.len() as int;
        let end = at + 1 + repo.len();
        assert(s.take(at) =~= owner);
        assert(s.subrange(at + 1, end) =~= repo);
        assert(s[at] == '/');
        assert(s.take(end) =~= owner + seq!['/'] + repo);
    }
}

/// An address that cannot be read is refused with the message for its fault: that there is none,
/// that it is no URL, or that the URL names no repository.
pub proof fn law_refusal_tells_the_fault(
    s: Seq<char>,
    path: Option<Seq<char>>,
    lang: Seq<char>,
    reg: LangView,
    r: Result<RepoInfo, String>,
)
    requires
        address_result(s, path, lang, reg, r),
    ensures
        s.len() == 0 ==> r is Err && r->Err_0@ == reg.translated("err_empty"@, lang),
        is_url(s) ==> match path {
            None => r is Err && r->Err_0@ == reg.translated("err_parse_url"@, lang),
            Some(p) => match repo_of_segments(segments(p)) {
                None => r is Err && r->Err_0@ == reg.translated("err_repo_url"@, lang),
                Some(info) => r is Ok && r->Ok_0@ == info,
            },
        },
{
    reveal_strlit("http://");
    reveal_strlit("https://");
    if "http://"@.is_prefix_of(s) {
        assert("http://"@.len() == 7);
    }
    if "https://"@.is_prefix_of(s) {
        assert("https://"@.len() == 8);
    }
}

// ---------------------------------------------------------------------------------------------
// Lists of files
// ---------------------------------------------------------------------------------------------

/// Whether a listed item is a file with a path.
pub open spec fn is_file_item(item: (Option<Seq<char>>, Option<Seq<char>>, Option<u64>)) -> bool {
    &&& item.0 == Some("file"@)
    &&& item.1 is Some
    &&& item.1->0.len() > 0
}

/// Whether an entry is made of a listed item: it has its path and its size, zero if none is given.
pub open spec fn is_entry_of(
    e: EntryView,
    item: (Option<Seq<char>>, Option<Seq<char>>, Option<u64>),
) -> bool {
    &&& item.1 == Some(e.path)
    &&& match item.2 {
        Some(n) => e.size == n,
        None => e.size == 0,
    }
}

/// Whether `at` are the places of the files among the items, from first to last.
pub open spec fn are_places(
    at: Seq<int>,
    items: Seq<(Option<Seq<char>>, Option<Seq<char>>, Option<u64>)>,
) -> bool {
    &&& forall|k: int| 0 <= k < at.len() ==> 0 <= #[trigger] at[k] < items.len()
    &&& forall|j: int, k: int| 0 <= j < k < at.len() ==> #[trigger] at[j] < #[trigger] at[k]
    &&& forall|i: int|
        0 <= i < items.len() ==> (is_file_item(#[trigger] items[i]) == at.contains(i))
}

spec fn file_places(
    items: Seq<(Option<Seq<char>>, Option<Seq<char>>, Option<u64>)>,
) -> Seq<int>
    decreases items.len(),
{
    if items.len() == 0 {
        Seq::empty()
    } else if is_file_item(items.last()) {
        file_places(items.drop_last()).push(items.len() - 1)
    } else {
        file_places(items.drop_last())
    }
}

proof fn lemma_file_places(items: Seq<(Option<Seq<char>>, Option<Seq<char>>, Option<u64>)>)
    ensures
        are_places(file_places(items), items),
        file_places(items).len() == listed_files(items).len(),
        forall|k: int|
            0 <= k < file_places(items).len() ==> is_entry_of(
                #[trigger] listed_files(items)[k],
                items[file_places(items)[k]],
            ),
    decreases items.len(),
{
    if items.len() > 0 {
        let less = items.drop_last();
        lemma_file_places(less);
        let before = file_places(less);
        let at = file_places(items);
        let files = listed_files(items);
        assert forall|i: int| 0 <= i < items.len() implies is_file_item(#[trigger] items[i])
            == at.contains(i) by {
            if i < less.len() {
                assert(items[i] == less[i]);
                if before.contains(i) {
                    let k = choose|k: int| 0 <= k < before.len() && before[k] == i;
                    assert(at[k] == i);
                }
                if at.contains(i) {
                    let k = choose|k: int| 0 <= k < at.len() && at[k] == i;
                    if k < before.len() {
                        assert(before[k] == i);
                    }
                }
            } else {
                if is_file_item(items.last()) {
                    assert(at[before.len() as int] == i);
                }
                if at.contains(i) {
                    let k = choose|k: int| 0 <= k < at.len() && at[k] == i;
                    if k < before.len() {
                        assert(before[k] < less.len());
                    }
                }
            }
        }
        assert forall|k: int| 0 <= k < at.len() implies is_entry_of(
            #[trigger] files[k],
            items[at[k]],
        ) by {
            if k < before.len() {
                assert(files[k] == listed_files(less)[k]);
                assert(at[k] == before[k]);
                assert(items[at[k]] == less[before[k]]);
            }
        }
    }
}

/// The listed files are the items of kind `file` that have a path, each once, in the order of the
/// items, with their paths and sizes; wherever in the repository they are, none is left out.
pub proof fn law_every_file_is_listed(
    items: Seq<(Option<Seq<char>>, Option<Seq<char>>, Option<u64>)>,
)
    ensures
        exists|at: Seq<int>|
            {
                &&& #[trigger] are_places(at, items)
                &&& at.len() == listed_files(items).len()
                &&& forall|k: int|
                    0 <= k < at.len() ==> is_entry_of(
                        #[trigger] listed_files(items)[k],
                        items[at[k]],
                    )
            },
{
    lemma_file_places(items);
}

/// An entry is among the listed files if and only if some item is a file with its path and its
/// size.
pub proof fn law_listed_is_what_is_there(
    items: Seq<(Option<Seq<char>>, Option<Seq<char>>, Option<u64>)>,
    e: EntryView,
)
    ensures
        listed_files(items).contains(e) == exists|i: int|
            0 <= i < items.len() && is_file_item(#[trigger] items[i]) && is_entry_of(e, items[i]),
{
    lemma_file_places(items);
    let at = file_places(items);
    let files = listed_files(items);
    if files.contains(e) {
        let k = choose|k: int| 0 <= k < files.len() && files[k] == e;
        assert(is_entry_of(files[k], items[at[k]]));
        assert(at.contains(at[k]));
        assert(is_file_item(items[at[k]]));
    }
    if exists|i: int|
        0 <= i < items.len() && is_file_item(#[trigger] items[i]) && is_entry_of(e, items[i]) {
        let i = choose|i: int|
            0 <= i < items.len() && is_file_item(#[trigger] items[i]) && is_entry_of(e, items[i]);
        assert(at.contains(i));
        let k = choose|k: int| 0 <= k < at.len() && at[k] == i;
        assert(is_entry_of(files[k], items[at[k]]));
        assert(files[k].path == e.path);
        assert(files[k] == e);
    }
}

/// The files of two lists, one after the other, are those of both together, so what is listed for
/// an item does not depend on the items around it.
pub proof fn law_lists_add_up(
    one: Seq<(Option<Seq<char>>, Option<Seq<char>>, Option<u64>)>,
    other: Seq<(Option<Seq<char>>, Option<Seq<char>>, Option<u64>)>,
)
    ensures
        listed_files(one + other) == listed_files(one) + listed_files(other),
    decreases other.len(),
{
    if other.len() == 0 {
        assert(one + other =~= one);
        assert(listed_files(one) + listed_files(other) =~= listed_files(one));
    } else {
        law_lists_add_up(one, other.drop_last());
        assert((one + other).drop_last() =~= one + other.drop_last());
        assert((one + other).last() == other.last());
        assert(listed_files(one + other) =~= listed_files(one) + listed_files(other));
    }
}

/// Of each item in the body of a reply the members `type`, `path` and `size` are read; of a reply
/// without a body the reason is kept.
pub proof fn law_three_members_are_read(body: Vec<u8>, reason: String)
    ensures
        body_items(Ok(body)) == Ok::<
            Option<Seq<(Option<Seq<char>>, Option<Seq<char>>, Option<u64>)>>,
            Seq<char>,
        >(json_items(body@, "type"@, "path"@, "size"@)),
        body_items(Err(reason)) is Err,
        body_items(Err(reason))->Err_0 == reason@,
{
}

/// A list is given if and only if the reply reports success and its body is a list. A repository
/// that is not there, one that is closed, any other refusal, a request that did not get through and
/// a body that cannot be read have each their own message, which ends with the detail.
pub proof fn law_listing_tells_what_went_wrong(
    repo_id: Seq<char>,
    reply: Reply,
    items: Result<Option<Seq<(Option<Seq<char>>, Option<Seq<char>>, Option<u64>)>>, Seq<char>>,
    lang: Seq<char>,
    reg: LangView,
    r: Result<Vec<FileEntry>, String>,
)
    requires
        listing_result(repo_id, reply, items, lang, reg, r),
    ensures
        r is Ok == (reply is Status && 200 <= reply->code < 300 && items is Ok && items->Ok_0
            is Some),
        r is Ok ==> entries(r->Ok_0@) == listed_files(items->Ok_0->0),
        r is Err ==> ({
            let m = r->Err_0@;
            match reply {
                Reply::Failed(e) => m == reg.translated("err_request"@, lang) + ": "@ + e@,
                Reply::Status { code, wording } => {
                    &&& code == 404 ==> m == reg.translated("err_repo_not_found"@, lang) + ": "@
                        + repo_id
                    &&& code == 403 ==> m == reg.translated("err_gated"@, lang) + ": "@ + repo_id
                    &&& code != 404 && code != 403 && (code < 200 || code >= 300) ==> m
                        == reg.translated("err_api"@, lang) + ": "@ + wording@
                    &&& 200 <= code < 300 && items is Err ==> m == reg.translated(
                        "err_parse_resp"@,
                        lang,
                    ) + ": "@ + items->Err_0
                    &&& 200 <= code < 300 && items is Ok ==> m == reg.translated(
                        "err_parse_resp"@,
                        lang,
                    ) + ": "@ + "error decoding response body"@
                },
            }
        }),
{
}

// ---------------------------------------------------------------------------------------------
// The token
// ---------------------------------------------------------------------------------------------

/// A check finds a token missing if and only if there is none, accepted if and only if the reply
/// to it reports success, and invalid otherwise, with the reason. A login finds the same, but says
/// of an empty token that it is empty, and words a refusal in the user's language.
pub proof fn law_token_is_as_the_site_says(
    token: Seq<char>,
    reply: Reply,
    lang: Seq<char>,
    reg: LangView,
)
    ensures
        checked(None, reply, lang, reg) == (TokenView { status: "missing"@, error: None }),
        reply is Status && 200 <= reply->code < 300 ==> checked(Some(token), reply, lang, reg) == (
        TokenView { status: "logged_in"@, error: None }),
        reply is Status && !(200 <= reply->code < 300) ==> checked(Some(token), reply, lang, reg)
            == (TokenView { status: "invalid"@, error: Some("HTTP "@ + reply->wording@) }),
        reply matches Reply::Failed(e) ==> checked(Some(token), reply, lang, reg) == (TokenView {
            status: "invalid"@,
            error: Some(reg.translated("err_token_invalid"@, lang) + ": "@ + e@),
        }),
        trimmed(token).len() == 0 ==> logged_in(token, reply, lang, reg) == (TokenView {
            status: "missing"@,
            error: Some(reg.translated("err_token_empty"@, lang)),
        }),
        trimmed(token).len() > 0 ==> {
            let status = logged_in(token, reply, lang, reg);
            &&& status.status == checked(Some(token), reply, lang, reg).status
            &&& reply matches Reply::Failed(e) ==> status.error == Some(
                reg.translated("err_token_invalid"@, lang) + ": "@ + e@,
            )
            &&& reply is Status && !(200 <= reply->code < 300) ==> status.error == Some(
                reg.translated("err_token_invalid"@, lang) + ": "@ + reply->wording@,
            )
            &&& reply is Status && 200 <= reply->code < 300 ==> status.error is None
        },
{
}

} // verus!
