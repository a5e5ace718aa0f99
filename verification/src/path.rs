//! Putting file system paths together.

use vstd::prelude::*;
use crate::text::{
    cat, chars_of, law_single_piece, pieces, pieces_of, replace_char, replaced, str_eq,
    string_of, texts,
};

verus! {

/// Whether `c` separates the components of a path where `sep` is the primary separator.
pub open spec fn is_separator(c: char, sep: char) -> bool {
    c == '/' || c == sep
}

/// Whether a path begins with a drive, such as `C:`.
pub open spec fn has_drive(s: Seq<char>) -> bool {
    s.len() >= 2 && ('a' <= s[0] <= 'z' || 'A' <= s[0] <= 'Z') && s[1] == ':'
}

/// Whether a path begins at a root.
pub open spec fn is_rooted(s: Seq<char>, sep: char) -> bool {
    s.len() > 0 && is_separator(s[0], sep)
}

/// Whether a path begins with two separators, as paths to other machines, to devices, and paths
/// that are taken verbatim do on Windows.
pub open spec fn has_double(s: Seq<char>) -> bool {
    s.len() >= 2 && is_separator(s[0], '\\') && is_separator(s[1], '\\')
}

/// Where the component that begins at `from` ends: at the next separator, which in a verbatim path
/// is a backslash, else at the end of the path.
pub open spec fn component_end(s: Seq<char>, from: int, verbatim: bool) -> int
    decreases s.len() - from,
{
    if from >= s.len() {
        s.len() as int
    } else if s[from] == '\\' || (!verbatim && s[from] == '/') {
        from
    } else {
        component_end(s, from + 1, verbatim)
    }
}

/// Where the component after the one that ends at `end` ends; `end` if there is none.
pub open spec fn next_end(s: Seq<char>, end: int, verbatim: bool) -> int {
    if end < s.len() {
        component_end(s, end + 1, verbatim)
    } else {
        end
    }
}

/// The length of the prefix of a Windows path: a verbatim one (`\\?\UNC\server\share`,
/// `\\?\C:`, `\\?\name`), a device (`\\.\name`), a share of another machine
/// (`\\server\share`) or a drive (`C:`). Zero if there is none.
pub open spec fn prefix_len(s: Seq<char>) -> int {
    if !has_double(s) {
        if has_drive(s) {
            2
        } else {
            0
        }
    } else if is_verbatim(s) {
        if s.len() >= 8 && s.subrange(4, 7) == seq!['U', 'N', 'C'] && is_separator(s[7], '\\') {
            let server = component_end(s, 8, true);
            let share = next_end(s, server, true);
            if share > server + 1 {
                share
            } else {
                server
            }
        } else if has_drive(s.skip(4)) && (s.len() == 6 || is_separator(s[6], '\\')) {
            6
        } else {
            component_end(s, 4, true)
        }
    } else if s.len() >= 4 && s[2] == '.' && is_separator(s[3], '\\') {
        component_end(s, 4, false)
    } else {
        let server = component_end(s, 2, false);
        let share = next_end(s, server, false);
        if server > 2 && share > server + 1 {
            share
        } else {
            0
        }
    }
}

/// Whether a Windows path is taken verbatim: it begins with `\\?\`. Behind its prefix only `\`
/// separates, and `.` and `..` are names like others.
pub open spec fn is_verbatim(s: Seq<char>) -> bool {
    s.len() >= 4 && s.take(4) == seq!['\\', '\\', '?', '\\']
}

/// Whether a component names something, unlike `.` and `..`.
pub open spec fn is_named(c: Seq<char>) -> bool {
    c != seq!['.'] && c != seq!['.', '.']
}

/// The components `parts` after a walk along `steps`: `.` stays, `..` goes back by one component
/// if that names something, and anything else goes on.
pub open spec fn walked(parts: Seq<Seq<char>>, steps: Seq<Seq<char>>) -> Seq<Seq<char>>
    decreases steps.len(),
{
    if steps.len() == 0 {
        parts
    } else {
        let before = walked(parts, steps.drop_last());
        let c = steps.last();
        if is_named(c) {
            before.push(c)
        } else if c.len() == 2 && before.len() > 0 && is_named(before.last()) {
            before.drop_last()
        } else {
            before
        }
    }
}

/// `prefix` with each of `parts` behind it, after a `\`.
pub open spec fn behind(prefix: Seq<char>, parts: Seq<Seq<char>>) -> Seq<char>
    decreases parts.len(),
{
    if parts.len() == 0 {
        prefix
    } else {
        behind(prefix, parts.drop_last()) + seq!['\\'] + parts.last()
    }
}

/// The components of a verbatim path behind its prefix and the separator after that.
pub open spec fn verbatim_parts(s: Seq<char>) -> Seq<Seq<char>> {
    if prefix_len(s) < s.len() {
        pieces(s.skip(prefix_len(s) + 1), '\\')
    } else {
        Seq::empty()
    }
}

/// The path `name`, which has no prefix, seen from the verbatim path `base`. The result is put
/// together from components, since nobody else will resolve `.` and `..` in it.
pub open spec fn verbatim_join(base: Seq<char>, name: Seq<char>) -> Seq<char> {
    let end = prefix_len(base);
    let rooted = is_rooted(name, '\\');
    let parts = walked(
        if rooted {
            Seq::empty()
        } else {
            verbatim_parts(base)
        },
        pieces(replaced(name, '/', '\\'), '\\'),
    );
    if parts.len() == 0 && (rooted || end < base.len()) {
        base.take(end) + seq!['\\']
    } else {
        behind(base.take(end), parts)
    }
}

/// The path `name`, seen from `base`. A rooted path replaces the base; with the separator `\`,
/// it keeps the prefix of the base, and a path with a prefix of its own replaces the base. The
/// components `.` and `..` stay as they are, unless the base is verbatim.
pub open spec fn path_join(base: Seq<char>, name: Seq<char>, sep: char) -> Seq<char> {
    let prefixes = sep == '\\';
    if prefixes && prefix_len(name) > 0 {
        name
    } else if prefixes && is_verbatim(base) && name.len() > 0 {
        verbatim_join(base, name)
    } else if is_rooted(name, sep) {
        if prefixes {
            base.take(prefix_len(base)) + name
        } else {
            name
        }
    } else if base.len() == 0 || is_separator(base.last(), sep) || (prefixes && base.len() == 2
        && has_drive(base)) {
        base + name
    } else {
        base + seq![sep] + name
    }
}

/// The two primary separators there are.
pub open spec fn known_separator(sep: char) -> bool {
    sep == '/' || sep == '\\'
}

/// `std::path::MAIN_SEPARATOR`, the separator of the platform: `/` or `\`.
#[verifier::external_body]
pub(crate) fn main_separator() -> (sep: char)
    ensures
        known_separator(sep),
{
    std::path::MAIN_SEPARATOR
}

fn drive_at(v: &Vec<char>, at: usize) -> (r: bool)
    requires
        at <= v@.len(),
    ensures
        r == has_drive(v@.skip(at as int)),
{
    v.len() - at >= 2 && (('a' <= v[at] && v[at] <= 'z') || ('A' <= v[at] && v[at] <= 'Z'))
        && v[at + 1] == ':'
}

proof fn lemma_component_end(s: Seq<char>, from: int, verbatim: bool)
    requires
        0 <= from <= s.len(),
    ensures
        from <= component_end(s, from, verbatim) <= s.len(),
    decreases s.len() - from,
{
    if from < s.len() && !(s[from] == '\\' || (!verbatim && s[from] == '/')) {
        lemma_component_end(s, from + 1, verbatim);
    }
}

fn find_component_end(v: &Vec<char>, from: usize, verbatim: bool) -> (r: usize)
    requires
        from <= v@.len(),
    ensures
        r == component_end(v@, from as int, verbatim),
        from <= r <= v@.len(),
{
    proof {
        lemma_component_end(v@, from as int, verbatim);
    }
    let mut i: usize = from;
    while i < v.len() && !(v[i] == '\\' || (!verbatim && v[i] == '/'))
        invariant
            from <= i <= v@.len(),
            component_end(v@, from as int, verbatim) == component_end(v@, i as int, verbatim),
        decreases v@.len() - i,
    {
        i += 1;
    }
    i
}

fn find_next_end(v: &Vec<char>, end: usize, verbatim: bool) -> (r: usize)
    requires
        end <= v@.len(),
    ensures
        r == next_end(v@, end as int, verbatim),
        end <= r <= v@.len(),
{
    if end < v.len() {
        find_component_end(v, end + 1, verbatim)
    } else {
        end
    }
}

fn is_slash(c: char) -> (r: bool)
    ensures
        r == is_separator(c, '\\'),
{
    c == '/' || c == '\\'
}

fn starts_verbatim(v: &Vec<char>) -> (r: bool)
    ensures
        r == is_verbatim(v@),
{
    let r = v.len() >= 4 && v[0] == '\\' && v[1] == '\\' && v[2] == '?' && v[3] == '\\';
    proof {
        if r {
            assert(v@.take(4) =~= seq!['\\', '\\', '?', '\\']);
        } else if is_verbatim(v@) {
            assert(v@[0] == v@.take(4)[0] && v@[1] == v@.take(4)[1]);
            assert(v@[2] == v@.take(4)[2] && v@[3] == v@.take(4)[3]);
        }
    }
    r
}

fn find_prefix(v: &Vec<char>) -> (r: usize)
    ensures
        r == prefix_len(v@),
        r <= v@.len(),
{
    assert(v@.skip(0) == v@);
    if !(v.len() >= 2 && is_slash(v[0]) && is_slash(v[1])) {
        return if drive_at(v, 0) {
            2
        } else {
            0
        };
    }
    let verbatim = starts_verbatim(v);
    if verbatim {
        let unc = v.len() >= 8 && v[4] == 'U' && v[5] == 'N' && v[6] == 'C' && is_slash(v[7]);
        assert(unc == (v@.len() >= 8 && v@.subrange(4, 7) == seq!['U', 'N', 'C'] && is_separator(
            v@[7],
            '\\',
        ))) by {
            let part = v@.subrange(4, 7);
            if unc {
                assert(part =~= seq!['U', 'N', 'C']);
            } else if v@.len() >= 8 && part == seq!['U', 'N', 'C'] {
                assert(v@[4] == part[0] && v@[5] == part[1] && v@[6] == part[2]);
            }
        }
        if unc {
            let server: usize = find_component_end(v, 8, true);
            let share: usize = find_next_end(v, server, true);
            if share > server && share - server > 1 {
                share
            } else {
                server
            }
        } else if drive_at(v, 4) && (v.len() == 6 || is_slash(v[6])) {
            6
        } else {
            find_component_end(v, 4, true)
        }
    } else if v.len() >= 4 && v[2] == '.' && is_slash(v[3]) {
        find_component_end(v, 4, false)
    } else {
        let server: usize = find_component_end(v, 2, false);
        let share: usize = find_next_end(v, server, false);
        if server > 2 && share > server && share - server > 1 {
            share
        } else {
            0
        }
    }
}

fn names_something(c: &str) -> (r: bool)
    ensures
        r == is_named(c@),
{
    proof {
        reveal_strlit(".");
        reveal_strlit("..");
        assert("."@ =~= seq!['.']);
        assert(".."@ =~= seq!['.', '.']);
    }
    !str_eq(c, ".") && !str_eq(c, "..")
}

fn walk(parts: &mut Vec<String>, steps: &Vec<String>)
    ensures
        texts(final(parts)@) == walked(texts(old(parts)@), texts(steps@)),
{
    let ghost all = texts(steps@);
    let ghost start = texts(parts@);
    let mut i: usize = 0;
    assert(walked(start, all.take(0)) == start);
    while i < steps.len()
        invariant
            i <= steps@.len(),
            all == texts(steps@),
            texts(parts@) == walked(start, all.take(i as int)),
        decreases steps@.len() - i,
    {
        let c = &steps[i];
        let ghost before = texts(parts@);
        proof {
            assert(all.take(i + 1).drop_last() == all.take(i as int));
            assert(all.take(i + 1).last() == c@);
        }
        if names_something(c.as_str()) {
            parts.push(c.clone());
            assert(texts(parts@) =~= before.push(c@));
        } else if !str_eq(c.as_str(), ".") {
            proof {
                reveal_strlit(".");
                assert("."@ =~= seq!['.']);
            }
            let n: usize = parts.len();
            if n > 0 && names_something(parts[n - 1].as_str()) {
                parts.truncate(n - 1);
                assert(texts(parts@) =~= before.drop_last());
            }
        } else {
            proof {
                reveal_strlit(".");
                assert("."@.len() == 1);
            }
        }
        i += 1;
    }
    assert(all.take(all.len() as int) == all);
}

fn put_behind(prefix: String, parts: &Vec<String>) -> (r: String)
    ensures
        r@ == behind(prefix@, texts(parts@)),
{
    let ghost all = texts(parts@);
    let ghost start = prefix@;
    let mut r = prefix;
    let mut i: usize = 0;
    assert(behind(start, all.take(0)) == start);
    while i < parts.len()
        invariant
            i <= parts@.len(),
            all == texts(parts@),
            r@ == behind(start, all.take(i as int)),
        decreases parts@.len() - i,
    {
        proof {
            assert(all.take(i + 1).drop_last() == all.take(i as int));
            assert(all.take(i + 1).last() == parts@[i as int]@);
        }
        let ghost before = r@;
        r.push('\\');
        r.append(parts[i].as_str());
        assert(r@ =~= before + seq!['\\'] + parts@[i as int]@);
        i += 1;
    }
    assert(all.take(all.len() as int) == all);
    r
}

fn join_verbatim(base: &str, name: &str) -> (r: String)
    requires
        is_verbatim(base@),
    ensures
        r@ == verbatim_join(base@, name@),
{
    let b = chars_of(base);
    let n = chars_of(name);
    let end: usize = find_prefix(&b);
    let prefix = string_of(&b, 0, end);
    assert(prefix@ =~= base@.take(end as int));
    let rooted = n.len() > 0 && is_slash(n[0]);
    let mut parts: Vec<String> = Vec::new();
    assert(texts(parts@) =~= Seq::<Seq<char>>::empty());
    if !rooted && end < b.len() {
        let tail = string_of(&b, end + 1, b.len());
        assert(tail@ =~= base@.skip(end + 1));
        parts = pieces_of(tail.as_str(), '\\');
    }
    let plain = replace_char(name, '/', '\\');
    let steps = pieces_of(plain.as_str(), '\\');
    walk(&mut parts, &steps);
    assert(texts(parts@).len() == parts@.len());
    if parts.len() == 0 && (rooted || end < b.len()) {
        let mut r = prefix;
        r.push('\\');
        assert(r@ =~= base@.take(end as int) + seq!['\\']);
        r
    } else {
        put_behind(prefix, &parts)
    }
}

/// The path `name`, seen from `base`.
pub fn join_path(base: &str, name: &str, sep: char) -> (r: String)
    ensures
        r@ == path_join(base@, name@, sep),
{
    let b = chars_of(base);
    let n = chars_of(name);
    let prefixes = sep == '\\';
    assert(b@.skip(0) == b@);
    if prefixes && find_prefix(&n) > 0 {
        name.to_owned()
    } else if prefixes && n.len() > 0 && starts_verbatim(&b) {
        join_verbatim(base, name)
    } else if n.len() > 0 && (n[0] == '/' || n[0] == sep) {
        if prefixes {
            let end: usize = find_prefix(&b);
            let prefix = string_of(&b, 0, end);
            assert(prefix@ == base@.take(end as int));
            cat(prefix.as_str(), name)
        } else {
            name.to_owned()
        }
    } else if b.len() == 0 || b[b.len() - 1] == '/' || b[b.len() - 1] == sep || (prefixes && b.len()
        == 2 && drive_at(&b, 0)) {
        cat(base, name)
    } else {
        let mut r = base.to_owned();
        r.push(sep);
        r.append(name);
        assert(r@ == base@ + seq![sep] + name@);
        r
    }
}

// ---------------------------------------------------------------------------------------------
// Laws
// ---------------------------------------------------------------------------------------------

/// Whether `name` is a plain name: not empty, not `.` or `..`, without separators and drive.
pub open spec fn is_plain(name: Seq<char>) -> bool {
    &&& name.len() > 0
    &&& is_named(name)
    &&& !name.contains('/')
    &&& !name.contains('\\')
    &&& !has_drive(name)
}

/// What stands before a plain name in `base`.
pub open spec fn lead(base: Seq<char>, sep: char) -> Seq<char> {
    if sep == '\\' && is_verbatim(base) {
        behind(base.take(prefix_len(base)), verbatim_parts(base)) + seq![sep]
    } else if base.len() == 0 || is_separator(base.last(), sep) || (sep == '\\' && base.len() == 2
        && has_drive(base)) {
        base
    } else {
        base + seq![sep]
    }
}

/// A plain name is put at the end of the base, whatever the base is.
pub proof fn law_plain_name_is_appended(base: Seq<char>, name: Seq<char>, sep: char)
    requires
        known_separator(sep),
        is_plain(name),
    ensures
        path_join(base, name, sep) == lead(base, sep) + name,
{
    assert(name.contains(name[0]));
    assert(!has_double(name));
    if sep == '\\' && is_verbatim(base) {
        assert forall|i: int| 0 <= i < name.len() implies #[trigger] name[i] != '/' by {
            assert(name.contains(name[i]));
        }
        assert(replaced(name, '/', '\\') =~= name);
        law_single_piece(name, '\\');
        let steps = seq![name];
        let parts = verbatim_parts(base);
        assert(steps.drop_last() =~= Seq::<Seq<char>>::empty());
        assert(walked(parts, steps.drop_last()) == parts);
        assert(walked(parts, steps) == parts.push(name));
        assert(parts.push(name).drop_last() =~= parts);
    }
}

} // verus!
