//! What holds of every address that is asked for, and of what a request says.

use vstd::prelude::*;
use crate::download::TaskView;
use crate::hf_api::{tree_address, whoami_address};
use crate::i18n::LangView;
use crate::runs::{law_source_is_fixed, run, Happening};
use crate::text::{
    all_digits, decimal, is_space, law_decimal_reads_back, law_trailing_is_taken_off,
    law_trim_takes_off_white_space, number, trimmed, without_trailing,
};
use crate::transfer::{file_address, range_from, ActionView, Event, TransferView};

verus! {

/// Whether a text holds nothing but white space.
pub open spec fn is_blank(s: Seq<char>) -> bool {
    forall|i: int| 0 <= i < s.len() ==> is_space(#[trigger] s[i])
}

/// Whether `base` is the site that `endpoint` stands for: the endpoint up to its trailing slashes,
/// or the official site where the endpoint says nothing.
pub open spec fn is_site(base: Seq<char>, endpoint: Seq<char>, says_nothing: bool) -> bool {
    if says_nothing {
        base == "https://huggingface.co"@
    } else {
        &&& base.len() <= endpoint.len()
        &&& base == endpoint.take(base.len() as int)
        &&& forall|i: int| base.len() <= i < endpoint.len() ==> #[trigger] endpoint[i] == '/'
        &&& base.len() > 0 ==> base.last() != '/'
    }
}

proof fn lemma_site(base: Seq<char>, endpoint: Seq<char>)
    requires
        is_site(base, endpoint, false),
    ensures
        base == without_trailing(endpoint, '/'),
{
    let r = without_trailing(endpoint, '/');
    law_trailing_is_taken_off(endpoint, '/');
    if r.len() < base.len() {
        assert(endpoint[base.len() - 1] == '/');
        assert(base.last() == endpoint.take(base.len() as int)[base.len() - 1]);
    } else if base.len() < r.len() {
        assert(endpoint[r.len() - 1] == '/');
        assert(r.last() == endpoint.take(r.len() as int)[r.len() - 1]);
    }
}

/// A blank text is one of which trimming leaves nothing.
pub proof fn law_blank_is_trimmed_away(s: Seq<char>)
    ensures
        is_blank(s) == (trimmed(s).len() == 0),
{
    law_trim_takes_off_white_space(s);
    let (i, j) = choose|i: int, j: int|
        #![trigger s.subrange(i, j)]
        {
            &&& 0 <= i <= j <= s.len()
            &&& trimmed(s) == s.subrange(i, j)
            &&& forall|k: int| 0 <= k < i ==> is_space(#[trigger] s[k])
            &&& forall|k: int| j <= k < s.len() ==> is_space(#[trigger] s[k])
            &&& i < j ==> !is_space(s[i]) && !is_space(s[j - 1])
        };
    if trimmed(s).len() == 0 {
        assert forall|k: int| 0 <= k < s.len() implies is_space(#[trigger] s[k]) by {
            if k < i {
            }
        }
    } else {
        assert(!is_space(s[i]));
    }
}

/// Every endpoint stands for a site, and for one only.
pub proof fn law_endpoint_stands_for_one_site(endpoint: Seq<char>, says_nothing: bool)
    ensures
        exists|base: Seq<char>| is_site(base, endpoint, says_nothing),
        forall|a: Seq<char>, b: Seq<char>|
            is_site(a, endpoint, says_nothing) && is_site(b, endpoint, says_nothing) ==> a == b,
{
    if says_nothing {
        assert(is_site("https://huggingface.co"@, endpoint, says_nothing));
    } else {
        law_trailing_is_taken_off(endpoint, '/');
        assert(is_site(without_trailing(endpoint, '/'), endpoint, says_nothing));
        assert forall|a: Seq<char>, b: Seq<char>|
            is_site(a, endpoint, says_nothing) && is_site(b, endpoint, says_nothing) implies a
            == b by {
            lemma_site(a, endpoint);
            lemma_site(b, endpoint);
        }
    }
}

proof fn lemma_kinds_differ()
    ensures
        "dataset"@ != "space"@,
{
    reveal_strlit("dataset");
    reveal_strlit("space");
    assert("dataset"@.len() == 7);
    assert("space"@.len() == 5);
}

/// A file of a dataset is found under `datasets/` and one of a space under `spaces/`, whatever the
/// endpoint; a file of any other repository stands directly under the site. Then come the
/// repository, the revision and the path.
pub proof fn law_file_stands_under_its_repository(
    repo_id: Seq<char>,
    repo_type: Seq<char>,
    revision: Seq<char>,
    endpoint: Seq<char>,
    path: Seq<char>,
    base: Seq<char>,
)
    requires
        is_site(base, endpoint, is_blank(endpoint)),
    ensures
        ({
            let url = file_address(repo_id, repo_type, revision, endpoint, path);
            let rest = repo_id + "/resolve/"@ + revision + "/"@ + path;
            &&& repo_type == "dataset"@ ==> url == base + "/datasets/"@ + rest
            &&& repo_type == "space"@ ==> url == base + "/spaces/"@ + rest
            &&& repo_type != "dataset"@ && repo_type != "space"@ ==> url == base + "/"@ + rest
        }),
{
    law_blank_is_trimmed_away(endpoint);
    if !is_blank(endpoint) {
        lemma_site(base, endpoint);
    }
    reveal_strlit("/");
    reveal_strlit("datasets/");
    reveal_strlit("/datasets/");
    reveal_strlit("spaces/");
    reveal_strlit("/spaces/");
    let url = file_address(repo_id, repo_type, revision, endpoint, path);
    let rest = repo_id + "/resolve/"@ + revision + "/"@ + path;
    lemma_kinds_differ();
    assert("/datasets/"@ =~= "/"@ + "datasets/"@);
    assert("/spaces/"@ =~= "/"@ + "spaces/"@);
    if repo_type == "dataset"@ {
        assert(url =~= base + "/datasets/"@ + rest);
    } else if repo_type == "space"@ {
        assert(url =~= base + "/spaces/"@ + rest);
    } else {
        assert(url =~= base + "/"@ + rest);
    }
}

proof fn lemma_behind(url: Seq<char>, base: Seq<char>, under: Seq<char>, rest: Seq<char>)
    requires
        url == base + under + rest,
    ensures
        url.len() >= base.len(),
        url.take(base.len() as int) == base,
        url.skip(base.len() as int) == under + rest,
{
    assert(url.take(base.len() as int) =~= base);
    assert(url.skip(base.len() as int) =~= under + rest);
}

/// What follows the site in the address of a file does not depend on the endpoint.
pub proof fn law_mirrors_are_laid_out_alike(
    repo_id: Seq<char>,
    repo_type: Seq<char>,
    revision: Seq<char>,
    path: Seq<char>,
    one: Seq<char>,
    other: Seq<char>,
    one_base: Seq<char>,
    other_base: Seq<char>,
)
    requires
        is_site(one_base, one, is_blank(one)),
        is_site(other_base, other, is_blank(other)),
    ensures
        ({
            let a = file_address(repo_id, repo_type, revision, one, path);
            let b = file_address(repo_id, repo_type, revision, other, path);
            &&& a.len() >= one_base.len()
            &&& b.len() >= other_base.len()
            &&& a.take(one_base.len() as int) == one_base
            &&& b.take(other_base.len() as int) == other_base
            &&& a.skip(one_base.len() as int) == b.skip(other_base.len() as int)
        }),
{
    law_file_stands_under_its_repository(repo_id, repo_type, revision, one, path, one_base);
    law_file_stands_under_its_repository(repo_id, repo_type, revision, other, path, other_base);
    let a = file_address(repo_id, repo_type, revision, one, path);
    let b = file_address(repo_id, repo_type, revision, other, path);
    let rest = repo_id + "/resolve/"@ + revision + "/"@ + path;
    let under = if repo_type == "dataset"@ {
        "/datasets/"@
    } else if repo_type == "space"@ {
        "/spaces/"@
    } else {
        "/"@
    };
    lemma_behind(a, one_base, under, rest);
    lemma_behind(b, other_base, under, rest);
}

/// The files of a repository are listed under the API's name for its kind, whatever the endpoint.
/// The whole tree is asked for, or that of the directory where one is given.
pub proof fn law_listing_is_asked_for_under_its_kind(
    repo_id: Seq<char>,
    revision: Seq<char>,
    subpath: Seq<char>,
    repo_type: Seq<char>,
    endpoint: Seq<char>,
    base: Seq<char>,
)
    requires
        is_site(base, endpoint, endpoint.len() == 0),
    ensures
        ({
            let whole = tree_address(repo_id, revision, Seq::empty(), repo_type, endpoint);
            let rest = repo_id + "/tree/"@ + revision + "?recursive=true"@;
            &&& repo_type == "dataset"@ ==> whole == base + "/api/datasets/"@ + rest
            &&& repo_type == "space"@ ==> whole == base + "/api/spaces/"@ + rest
            &&& repo_type != "dataset"@ && repo_type != "space"@ ==> whole == base
                + "/api/models/"@ + rest
            &&& subpath.len() > 0 ==> tree_address(repo_id, revision, subpath, repo_type, endpoint)
                == whole + "&path="@ + subpath
        }),
{
    if endpoint.len() > 0 {
        lemma_site(base, endpoint);
    }
    reveal_strlit("/");
    reveal_strlit("/api/");
    reveal_strlit("datasets");
    reveal_strlit("spaces");
    reveal_strlit("models");
    reveal_strlit("/api/datasets/");
    reveal_strlit("/api/spaces/");
    reveal_strlit("/api/models/");
    lemma_kinds_differ();
    assert("/api/datasets/"@ =~= "/api/"@ + "datasets"@ + "/"@);
    assert("/api/spaces/"@ =~= "/api/"@ + "spaces"@ + "/"@);
    assert("/api/models/"@ =~= "/api/"@ + "models"@ + "/"@);
    let whole = tree_address(repo_id, revision, Seq::empty(), repo_type, endpoint);
    let rest = repo_id + "/tree/"@ + revision + "?recursive=true"@;
    if repo_type == "dataset"@ {
        assert(whole =~= base + "/api/datasets/"@ + rest);
    } else if repo_type == "space"@ {
        assert(whole =~= base + "/api/spaces/"@ + rest);
    } else {
        assert(whole =~= base + "/api/models/"@ + rest);
    }
}

/// Whose token it is, is asked of the site that the endpoint stands for.
pub proof fn law_owner_is_asked_of_the_site(endpoint: Seq<char>, base: Seq<char>)
    requires
        is_site(base, endpoint, endpoint.len() == 0),
    ensures
        whoami_address(endpoint) == base + "/api/whoami-v2"@,
{
    if endpoint.len() > 0 {
        lemma_site(base, endpoint);
    }
}

/// The byte from which on a `Range` header asks for a file: the number between `bytes=` and the
/// final dash. A header of another form asks for nothing in particular.
pub open spec fn first_byte(range: Seq<char>) -> Option<nat> {
    let digits = range.subrange(6, range.len() - 1);
    if range.len() >= 8 && range.take(6) == "bytes="@ && range.last() == '-' && all_digits(digits) {
        Some(number(digits))
    } else {
        None
    }
}

/// A request for what lies behind `n` bytes reads as a request from byte `n` on.
pub proof fn law_range_reads_back(n: u64)
    ensures
        first_byte(range_from(n)) == Some(n as nat),
        exists|digits: Seq<char>|
            {
                &&& all_digits(digits)
                &&& number(digits) == n
                &&& range_from(n) == "bytes="@ + #[trigger] digits.skip(0) + "-"@
            },
{
    reveal_strlit("bytes=");
    reveal_strlit("-");
    law_decimal_reads_back(n as nat);
    let digits = decimal(n as nat);
    let range = range_from(n);
    assert(range.subrange(6, range.len() - 1) =~= digits);
    assert(range.take(6) =~= "bytes="@);
    assert(digits.skip(0) =~= digits);
}

/// A transfer asks for the file of its task that it was begun for, whenever it asks: for all of it
/// where nothing is on disk, and otherwise from the first byte on that is missing. It shows the
/// token that is stored, without the white space around it, and none where none is stored.
pub proof fn law_request_names_what_is_missing(
    begun_with: TaskView,
    task_id: Seq<char>,
    path: Seq<char>,
    lang: Seq<char>,
    s: Seq<Happening>,
    task: TaskView,
    size: u64,
    token_file: Option<String>,
    reg: LangView,
    base: Seq<char>,
)
    requires
        is_site(base, begun_with.endpoint, is_blank(begun_with.endpoint)),
        run(TransferView::begun(begun_with, task_id, path, lang).transfer, s, reg).next(
            task,
            (Event::Probed { size, token_file }),
            reg,
        ).action is Fetch,
    ensures
        ({
            let t = run(TransferView::begun(begun_with, task_id, path, lang).transfer, s, reg);
            let rest = begun_with.repo_id + "/resolve/"@ + begun_with.revision + "/"@ + path;
            &&& t.next(task, Event::Probed { size, token_file }, reg).action matches
                ActionView::Fetch(url, range, bearer)
            &&& begun_with.repo_type == "dataset"@ ==> url == base + "/datasets/"@ + rest
            &&& begun_with.repo_type == "space"@ ==> url == base + "/spaces/"@ + rest
            &&& begun_with.repo_type != "dataset"@ && begun_with.repo_type != "space"@ ==> url
                == base + "/"@ + rest
            &&& size == 0 ==> range is None
            &&& size > 0 ==> range is Some && first_byte(range->0) == Some(size as nat)
            &&& match token_file {
                Some(text) if !is_blank(text@) => bearer == Some(trimmed(text@)),
                _ => bearer is None,
            }
        }),
{
    let t = TransferView::begun(begun_with, task_id, path, lang).transfer;
    law_source_is_fixed(t, s, reg);
    law_file_stands_under_its_repository(
        begun_with.repo_id,
        begun_with.repo_type,
        begun_with.revision,
        begun_with.endpoint,
        path,
        base,
    );
    law_range_reads_back(size);
    if token_file is Some {
        law_blank_is_trimmed_away(token_file->0@);
    }
}

/// A file is asked for unless the listed size is known and that much is on disk already.
pub proof fn law_what_is_missing_is_asked_for(
    t: TransferView,
    task: TaskView,
    size: u64,
    token_file: Option<String>,
    reg: LangView,
)
    ensures
        (t.next(task, Event::Probed { size, token_file }, reg).action is Fetch) == (t.known_total
            == 0 || size < t.known_total),
{
}

} // verus!
