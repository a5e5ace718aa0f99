//! Where things are kept.

use vstd::prelude::*;
use crate::config::{config_home, default_place, settings_place, ConfigView};
use crate::hf_api::{target_dir, token_place};
use crate::path::{behind, component_end, is_verbatim, path_join, prefix_len, walked};
use crate::session::{
    alive, file_of, names_record, recoverable, recoverable_records, sessions_place, Found,
};
use crate::text::{
    all_digits, decimal, joined, law_decimal_reads_back, law_pieces_fall_apart,
    law_pieces_of_joined, law_replacement_is_exact, number, pieces, replaced, words,
};

verus! {

// ---------------------------------------------------------------------------------------------
// Paths
// ---------------------------------------------------------------------------------------------

/// With the separator `/` a path that begins with it stands by itself. Any other is put behind the
/// base, with one separator between them unless the base is empty or ends with one.
pub proof fn law_slash_paths(base: Seq<char>, name: Seq<char>)
    ensures
        name.len() > 0 && name[0] == '/' ==> path_join(base, name, '/') == name,
        !(name.len() > 0 && name[0] == '/') ==> {
            &&& base.len() == 0 ==> path_join(base, name, '/') == name
            &&& base.len() > 0 && base.last() == '/' ==> path_join(base, name, '/') == base + name
            &&& base.len() > 0 && base.last() != '/' ==> path_join(base, name, '/') == base + seq![
                '/',
            ] + name
        },
{
    if base.len() == 0 {
        assert(base + name =~= name);
    }
}

/// Whether `c` is a letter that can name a drive.
pub open spec fn is_letter(c: char) -> bool {
    'a' <= c <= 'z' || 'A' <= c <= 'Z'
}

/// With the separator `\` a path with a drive stands by itself; one that only begins with a
/// separator is put behind the drive of the base. Any other is put behind the base, with one
/// separator between them unless the base is a bare drive or ends with a separator of either kind.
pub proof fn law_backslash_paths(drive: char, rest: Seq<char>, name: Seq<char>)
    requires
        is_letter(drive),
        name.len() < 2 || !(name[0] == '/' || name[0] == '\\') || !(name[1] == '/' || name[1]
            == '\\'),
    ensures
        ({
            let base = seq![drive, ':'] + rest;
            let all = path_join(base, name, '\\');
            let own = name.len() >= 2 && is_letter(name[0]) && name[1] == ':';
            let rooted = name.len() > 0 && (name[0] == '/' || name[0] == '\\');
            &&& own ==> all == name
            &&& rooted ==> all == seq![drive, ':'] + name
            &&& !own && !rooted && rest.len() == 0 ==> all == base + name
            &&& !own && !rooted && rest.len() > 0 && (rest.last() == '/' || rest.last() == '\\')
                ==> all == base + name
            &&& !own && !rooted && rest.len() > 0 && rest.last() != '/' && rest.last() != '\\'
                ==> all == base + seq!['\\'] + name
        }),
{
    let base = seq![drive, ':'] + rest;
    assert(base[0] == drive && base[1] == ':');
    assert(base.take(2) =~= seq![drive, ':']);
    if is_verbatim(base) {
        assert(base.take(4)[0] == '\\');
        assert(base.take(4)[0] == drive);
    }
    if rest.len() > 0 {
        assert(base.last() == rest.last());
    } else {
        assert(base.len() == 2);
    }
}

proof fn lemma_component_ends(s: Seq<char>, from: int, verbatim: bool, end: int)
    requires
        0 <= from <= end <= s.len(),
        forall|k: int|
            from <= k < end ==> #[trigger] s[k] != '\\' && (verbatim || s[k] != '/'),
        end < s.len() ==> s[end] == '\\' || (!verbatim && s[end] == '/'),
    ensures
        component_end(s, from, verbatim) == end,
    decreases end - from,
{
    if from < end {
        assert(s[from] != '\\' && (verbatim || s[from] != '/'));
        lemma_component_ends(s, from + 1, verbatim, end);
    }
}

/// Whether a text can name a machine, a share or a device: it is not empty and holds no separator.
pub open spec fn is_component(s: Seq<char>) -> bool {
    s.len() > 0 && !s.contains('/') && !s.contains('\\')
}

/// The prefix of a path is a drive, or a machine with a share, or a device, and nothing behind it.
/// A path that begins with no or only one separator, and not with a drive, has none.
pub proof fn law_prefix_is_what_names_the_volume(
    drive: char,
    server: Seq<char>,
    share: Seq<char>,
    rest: Seq<char>,
)
    requires
        is_letter(drive),
        is_component(server),
        is_component(share),
        server != seq!['?'] && server != seq!['.'],
        rest.len() > 0 ==> rest[0] == '\\' || rest[0] == '/',
    ensures
        prefix_len(seq![drive, ':'] + rest) == 2,
        prefix_len(seq!['\\', '\\'] + server + seq!['\\'] + share + rest) == 3 + server.len()
            + share.len(),
        prefix_len(seq!['\\', '\\', '.', '\\'] + share + rest) == 4 + share.len(),
        rest.len() < 2 || (rest[1] != '\\' && rest[1] != '/') ==> prefix_len(rest) == 0,
{
    let a = seq![drive, ':'] + rest;
    assert(a[0] == drive && a[1] == ':');
    let b = seq!['\\', '\\'] + server + seq!['\\'] + share + rest;
    let server_end = 2 + server.len() as int;
    let share_end = server_end + 1 + share.len();
    assert(b[0] == '\\' && b[1] == '\\');
    assert(b[2] == server[0]);
    assert forall|k: int| 2 <= k < server_end implies #[trigger] b[k] != '\\' && b[k] != '/' by {
        assert(b[k] == server[k - 2]);
        assert(server.contains(server[k - 2]));
    }
    assert(b[server_end] == '\\');
    assert forall|k: int| server_end + 1 <= k < share_end implies #[trigger] b[k] != '\\' && b[k]
        != '/' by {
        assert(b[k] == share[k - server_end - 1]);
        assert(share.contains(share[k - server_end - 1]));
    }
    if rest.len() > 0 {
        assert(b[share_end] == rest[0]);
    }
    lemma_component_ends(b, 2, false, server_end);
    lemma_component_ends(b, server_end + 1, false, share_end);
    if is_verbatim(b) {
        assert(b.take(4)[2] == '?' && b.take(4)[3] == '\\');
        assert(b[3] == '\\');
        assert(server.len() == 1) by {
            if server.len() > 1 {
                assert(b[3] == server[1]);
                assert(server.contains(server[1]));
            }
        }
        assert(server =~= seq!['?']);
    }
    if b.len() >= 4 && b[2] == '.' && (b[3] == '/' || b[3] == '\\') {
        assert(server.len() == 1) by {
            if server.len() > 1 {
                assert(b[3] == server[1]);
                assert(server.contains(server[1]));
            }
        }
        assert(server =~= seq!['.']);
    }
    let c = seq!['\\', '\\', '.', '\\'] + share + rest;
    let end = 4 + share.len() as int;
    assert(c[0] == '\\' && c[1] == '\\' && c[2] == '.' && c[3] == '\\');
    assert forall|k: int| 4 <= k < end implies #[trigger] c[k] != '\\' && c[k] != '/' by {
        assert(c[k] == share[k - 4]);
        assert(share.contains(share[k - 4]));
    }
    if rest.len() > 0 {
        assert(c[end] == rest[0]);
    }
    if is_verbatim(c) {
        assert(c.take(4)[2] == '?');
    }
    lemma_component_ends(c, 4, false, end);
}

/// The prefix of a path that is taken verbatim is `\\?\` with a drive, with `UNC\` and a machine
/// with a share, or with any other name.
pub proof fn law_verbatim_prefix(
    drive: char,
    server: Seq<char>,
    share: Seq<char>,
    name: Seq<char>,
    rest: Seq<char>,
)
    requires
        is_letter(drive),
        is_component(server),
        is_component(share),
        is_component(name),
        name != seq!['U', 'N', 'C'],
        name.len() >= 2 ==> name[1] != ':',
        rest.len() > 0 ==> rest[0] == '\\',
    ensures
        ({
            let verbatim = seq!['\\', '\\', '?', '\\'];
            let unc = seq!['U', 'N', 'C', '\\'];
            &&& prefix_len(verbatim + seq![drive, ':'] + rest) == 6
            &&& prefix_len(verbatim + unc + server + seq!['\\'] + share + rest) == 9
                + server.len() + share.len()
            &&& prefix_len(verbatim + name + rest) == 4 + name.len()
        }),
{
    let verbatim = seq!['\\', '\\', '?', '\\'];
    let unc = seq!['U', 'N', 'C', '\\'];
    let a = verbatim + seq![drive, ':'] + rest;
    assert(a[0] == '\\' && a[1] == '\\');
    assert(a.take(4) =~= verbatim);
    assert(a.skip(4)[0] == drive && a.skip(4)[1] == ':');
    if a.len() >= 8 && a.subrange(4, 7) == seq!['U', 'N', 'C'] {
        assert(a.subrange(4, 7)[1] == a[5]);
    }
    if rest.len() > 0 {
        assert(a[6] == rest[0]);
    }
    let b = verbatim + unc + server + seq!['\\'] + share + rest;
    let server_end = 8 + server.len() as int;
    let share_end = server_end + 1 + share.len();
    assert(b[0] == '\\' && b[1] == '\\');
    assert(b.take(4) =~= verbatim);
    assert(b.subrange(4, 7) =~= seq!['U', 'N', 'C']);
    assert(b[7] == '\\');
    assert forall|k: int| 8 <= k < server_end implies #[trigger] b[k] != '\\' by {
        assert(b[k] == server[k - 8]);
        assert(server.contains(server[k - 8]));
    }
    assert(b[server_end] == '\\');
    assert forall|k: int| server_end + 1 <= k < share_end implies #[trigger] b[k] != '\\' by {
        assert(b[k] == share[k - server_end - 1]);
        assert(share.contains(share[k - server_end - 1]));
    }
    if rest.len() > 0 {
        assert(b[share_end] == rest[0]);
    }
    lemma_component_ends(b, 8, true, server_end);
    lemma_component_ends(b, server_end + 1, true, share_end);
    let c = verbatim + name + rest;
    let end = 4 + name.len() as int;
    assert(c[0] == '\\' && c[1] == '\\');
    assert(c.take(4) =~= verbatim);
    assert forall|k: int| 4 <= k < end implies #[trigger] c[k] != '\\' && c[k] != '/' by {
        assert(c[k] == name[k - 4]);
        assert(name.contains(name[k - 4]));
    }
    if rest.len() > 0 {
        assert(c[end] == rest[0]);
    }
    lemma_component_ends(c, 4, true, end);
    if c.len() >= 8 && c.subrange(4, 7) == seq!['U', 'N', 'C'] && (c[7] == '/' || c[7] == '\\') {
        assert(c.subrange(4, 7)[0] == c[4] && c.subrange(4, 7)[1] == c[5] && c.subrange(4, 7)[2]
            == c[6]);
        assert(end == 7);
        assert(name =~= seq!['U', 'N', 'C']);
    }
    if c.len() >= 6 && c[5] == ':' {
        if name.len() >= 2 {
            assert(c[5] == name[1]);
        } else {
            assert(c[5] == rest[0]);
        }
    }
}

/// A walk along a path goes on to every name, stays at `.`, and takes back the last name at `..`; at
/// the top it stays. Two walks one after the other are one walk.
pub proof fn law_walk(
    parts: Seq<Seq<char>>,
    one: Seq<Seq<char>>,
    other: Seq<Seq<char>>,
    name: Seq<char>,
)
    requires
        name != seq!['.'] && name != seq!['.', '.'],
    ensures
        walked(parts, Seq::empty()) == parts,
        walked(parts, one + other) == walked(walked(parts, one), other),
        walked(parts, seq![name]) == parts.push(name),
        walked(parts, seq![seq!['.']]) == parts,
        walked(parts, seq![name, seq!['.', '.']]) == parts,
        walked(Seq::empty(), seq![seq!['.', '.']]) == Seq::<Seq<char>>::empty(),
    decreases other.len(),
{
    let nowhere = Seq::<Seq<char>>::empty();
    assert(walked(parts, nowhere) == parts);
    assert(walked(nowhere, nowhere) == nowhere);
    assert(seq![name].drop_last() =~= nowhere);
    assert(walked(parts, seq![name]) == parts.push(name));
    let stay = seq![seq!['.']];
    assert(stay.drop_last() =~= nowhere);
    assert(stay.last().len() == 1);
    assert(walked(parts, stay) == parts);
    let dots = seq!['.', '.'];
    assert(dots.len() == 2);
    assert(dots != seq!['.']);
    let back = seq![name, dots];
    assert(back.drop_last() =~= seq![name]);
    assert(parts.push(name).drop_last() =~= parts);
    assert(walked(parts, back) == parts);
    let top = seq![dots];
    assert(top.drop_last() =~= nowhere);
    assert(walked(nowhere, top) == nowhere);
    if other.len() == 0 {
        assert(one + other =~= one);
        assert(walked(walked(parts, one), other) == walked(parts, one));
    } else {
        law_walk(parts, one, other.drop_last(), name);
        assert((one + other).drop_last() =~= one + other.drop_last());
        assert((one + other).last() == other.last());
    }
}

/// The components of a path that is put together from them stand behind its prefix, each behind a
/// backslash.
pub proof fn law_components_stand_behind_the_prefix(
    prefix: Seq<char>,
    parts: Seq<Seq<char>>,
    name: Seq<char>,
)
    ensures
        behind(prefix, Seq::empty()) == prefix,
        behind(prefix, parts.push(name)) == behind(prefix, parts) + seq!['\\'] + name,
{
    assert(parts.push(name).drop_last() =~= parts);
}

proof fn lemma_behind_is_joined(prefix: Seq<char>, parts: Seq<Seq<char>>)
    requires
        parts.len() > 0,
    ensures
        behind(prefix, parts) == prefix + seq!['\\'] + joined(parts, seq!['\\']),
    decreases parts.len(),
{
    let less = parts.drop_last();
    if less.len() == 0 {
        assert(behind(prefix, less) == prefix);
        assert(joined(parts, seq!['\\']) == parts.last());
    } else {
        lemma_behind_is_joined(prefix, less);
        assert(behind(prefix, parts) =~= prefix + seq!['\\'] + joined(parts, seq!['\\']));
    }
}

proof fn lemma_pieces_of_bare_join(parts: Seq<Seq<char>>)
    requires
        forall|i: int| 0 <= i < parts.len() ==> (#[trigger] parts[i]).len() > 0,
        forall|i: int| 0 <= i < parts.len() ==> !(#[trigger] parts[i]).contains('\\'),
    ensures
        pieces(joined(parts, seq!['\\']), '\\') == parts,
{
    let all = joined(parts, seq!['\\']);
    let nothing = Seq::<char>::empty();
    law_pieces_of_joined(parts, '\\');
    law_pieces_fall_apart(nothing, '\\', all);
    assert(nothing + seq!['\\'] + all =~= seq!['\\'] + all);
    assert(pieces(nothing, '\\') + pieces(all, '\\') =~= pieces(all, '\\'));
}

/// A path that is taken verbatim is walked from component by component, so that `.` and `..` are
/// resolved.
pub proof fn law_verbatim_path_is_walked(
    drive: char,
    parts: Seq<Seq<char>>,
    steps: Seq<Seq<char>>,
)
    requires
        is_letter(drive),
        parts.len() > 0,
        forall|i: int| 0 <= i < parts.len() ==> (#[trigger] parts[i]).len() > 0,
        forall|i: int| 0 <= i < parts.len() ==> !(#[trigger] parts[i]).contains('\\'),
        forall|i: int| 0 <= i < steps.len() ==> (#[trigger] steps[i]).len() > 0,
        forall|i: int| 0 <= i < steps.len() ==> !(#[trigger] steps[i]).contains('\\'),
        ({
            let name = joined(steps, seq!['\\']);
            &&& name.len() > 0
            &&& name[0] != '\\'
            &&& !name.contains('/')
            &&& name.len() >= 2 ==> name[1] != ':'
        }),
        walked(parts, steps).len() > 0,
    ensures
        ({
            let prefix = seq!['\\', '\\', '?', '\\', drive, ':'];
            let name = joined(steps, seq!['\\']);
            path_join(behind(prefix, parts), name, '\\') == behind(prefix, walked(parts, steps))
        }),
{
    let prefix = seq!['\\', '\\', '?', '\\', drive, ':'];
    let name = joined(steps, seq!['\\']);
    let base = behind(prefix, parts);
    let all = joined(parts, seq!['\\']);
    lemma_behind_is_joined(prefix, parts);
    assert(base =~= prefix + seq!['\\'] + all);
    assert(base.take(4) =~= seq!['\\', '\\', '?', '\\']);
    assert(base[0] == '\\' && base[1] == '\\');
    assert(base.skip(4)[0] == drive && base.skip(4)[1] == ':');
    assert(base[6] == '\\');
    assert(base[4] == drive && base[5] == ':');
    if base.len() >= 8 && base.subrange(4, 7) == seq!['U', 'N', 'C'] {
        assert(base.subrange(4, 7)[1] == ':');
    }
    assert(prefix_len(base) == 6);
    assert(base.take(6) =~= prefix);
    assert(base.skip(7) =~= all);
    lemma_pieces_of_bare_join(parts);
    lemma_pieces_of_bare_join(steps);
    assert(name.contains(name[0]));
    assert forall|i: int| 0 <= i < name.len() implies #[trigger] name[i] != '/' by {
        assert(name.contains(name[i]));
    }
    assert(replaced(name, '/', '\\') =~= name);
}

// ---------------------------------------------------------------------------------------------
// Directories
// ---------------------------------------------------------------------------------------------

proof fn lemma_directory_name(owner: Seq<char>, name: Seq<char>)
    requires
        !owner.contains('/'),
        !name.contains('/'),
    ensures
        replaced(owner + seq!['/'] + name, '/', '-') == owner + seq!['-'] + name,
{
    let id = owner + seq!['/'] + name;
    let dir = replaced(id, '/', '-');
    let expected = owner + seq!['-'] + name;
    assert forall|i: int| 0 <= i < id.len() implies dir[i] == expected[i] by {
        law_replacement_is_exact(id, '/', '-', i);
        if i < owner.len() {
            assert(id[i] == owner[i]);
            assert(owner.contains(owner[i]));
        } else if i > owner.len() {
            assert(id[i] == name[i - owner.len() - 1]);
            assert(name.contains(name[i - owner.len() - 1]));
        }
    }
    law_replacement_is_exact(id, '/', '-', owner.len() as int);
    assert(dir =~= expected);
}

/// The files of `owner/name` go to the directory `owner-name` below the one for downloads.
pub proof fn law_repository_has_its_own_directory(
    owner: Seq<char>,
    name: Seq<char>,
    base: Seq<char>,
    drive: char,
    rest: Seq<char>,
)
    requires
        owner.len() > 0 && !owner.contains('/') && !owner.contains('\\') && !owner.contains(':'),
        !name.contains('/'),
        base.len() > 0 && base.last() != '/',
        is_letter(drive),
        rest.len() > 0 && rest.last() != '/' && rest.last() != '\\',
    ensures
        target_dir(owner + seq!['/'] + name, base, '/') == base + seq!['/'] + owner + seq!['-']
            + name,
        target_dir(owner + seq!['/'] + name, seq![drive, ':'] + rest, '\\') == seq![drive, ':']
            + rest + seq!['\\'] + owner + seq!['-'] + name,
{
    lemma_directory_name(owner, name);
    let dir = owner + seq!['-'] + name;
    assert(owner.contains(owner[0]));
    assert(dir[0] == owner[0]);
    law_slash_paths(base, dir);
    assert(base + seq!['/'] + dir =~= base + seq!['/'] + owner + seq!['-'] + name);
    if owner.len() > 1 {
        assert(owner.contains(owner[1]));
        assert(dir[1] == owner[1]);
    } else {
        assert(dir[1] == '-');
    }
    law_backslash_paths(drive, rest, dir);
    let far = seq![drive, ':'] + rest;
    assert(far + seq!['\\'] + dir =~= far + seq!['\\'] + owner + seq!['-'] + name);
}

/// The token is kept where other programs for the same site look for it.
pub proof fn law_token_is_where_others_look(home: Seq<char>)
    requires
        home.len() > 0 && home.last() != '/',
    ensures
        token_place(home, '/') == home + "/.cache/huggingface/token"@,
{
    reveal_strlit(".cache");
    reveal_strlit("huggingface");
    reveal_strlit("token");
    reveal_strlit("/.cache/huggingface/token");
    let one = home + seq!['/'] + ".cache"@;
    let two = one + seq!['/'] + "huggingface"@;
    law_slash_paths(home, ".cache"@);
    assert(one.last() == 'e');
    law_slash_paths(one, "huggingface"@);
    assert(two.last() == 'e');
    law_slash_paths(two, "token"@);
    assert("/.cache/huggingface/token"@ =~= seq!['/'] + ".cache"@ + seq!['/'] + "huggingface"@
        + seq!['/'] + "token"@);
    assert(two + seq!['/'] + "token"@ =~= home + "/.cache/huggingface/token"@);
}

/// Downloads go beside the executable; where nobody knows where that is, to the directory for
/// downloads, else to the home directory, else to the working directory.
pub proof fn law_first_known_directory_is_taken(
    one: Seq<char>,
    downloads: Option<Seq<char>>,
    home: Option<Seq<char>>,
)
    ensures
        default_place(Some(one), downloads, home) == one,
        default_place(None, Some(one), home) == one,
        default_place(None, None, Some(one)) == one,
        default_place(None, None, None) == "."@,
{
}

/// Where nobody knows where the executable is, the settings go to `hf-downloader` below the
/// directory for settings, else below the home directory, else below the working directory.
pub proof fn law_settings_have_their_own_directory(dir: Seq<char>, home: Option<Seq<char>>)
    requires
        dir.len() > 0 && dir.last() != '/',
    ensures
        config_home(Some(dir), home, '/') == dir + "/hf-downloader"@,
        config_home(None, Some(dir), '/') == dir + "/hf-downloader"@,
        config_home(None, None, '/') == "./hf-downloader"@,
{
    reveal_strlit("hf-downloader");
    reveal_strlit("/hf-downloader");
    reveal_strlit("./hf-downloader");
    reveal_strlit(".");
    law_slash_paths(dir, "hf-downloader"@);
    law_slash_paths("."@, "hf-downloader"@);
    assert(dir + seq!['/'] + "hf-downloader"@ =~= dir + "/hf-downloader"@);
    assert("."@ + seq!['/'] + "hf-downloader"@ =~= "./hf-downloader"@);
}

/// The settings lie beside the executable, so that they travel with it, and nothing has to be made.
/// Where nobody knows where that is, their own directory is to be made first, and they lie in it.
pub proof fn law_settings_travel_with_the_executable(
    dir: Seq<char>,
    config_dir: Option<Seq<char>>,
    home: Option<Seq<char>>,
    sep: char,
)
    requires
        dir.len() > 0 && dir.last() != '/',
    ensures
        settings_place(Some(dir), config_dir, home, '/').0 is None,
        settings_place(Some(dir), config_dir, home, '/').1 == dir + "/config.json"@,
        settings_place(None, config_dir, home, sep).0 == Some(config_home(config_dir, home, sep)),
        settings_place(None, Some(dir), home, '/').1 == dir + "/hf-downloader/config.json"@,
{
    reveal_strlit("config.json");
    reveal_strlit("/config.json");
    reveal_strlit("/hf-downloader");
    reveal_strlit("/hf-downloader/config.json");
    law_slash_paths(dir, "config.json"@);
    assert(dir + seq!['/'] + "config.json"@ =~= dir + "/config.json"@);
    law_settings_have_their_own_directory(dir, home);
    let own = dir + "/hf-downloader"@;
    assert(own.last() == 'r');
    law_slash_paths(own, "config.json"@);
    assert(own + seq!['/'] + "config.json"@ =~= dir + "/hf-downloader/config.json"@);
}

/// A first run downloads to the default directory, from the official site; nothing was chosen, and
/// nothing is known of the token. Settings that are loaded are those that were stored, but for a
/// directory that the user did not choose.
pub proof fn law_settings_are_loaded_as_stored(c: ConfigView, dir: Seq<char>)
    ensures
        ({
            let first = ConfigView::first(dir);
            &&& first.download_dir == dir
            &&& first.endpoint.len() == 0
            &&& !first.download_dir_set
            &&& first.hf_logged_in is None
            &&& first.language is None
        }),
        ({
            let now = c.loaded(dir);
            &&& now.download_dir == if c.download_dir_set {
                c.download_dir
            } else {
                dir
            }
            &&& now.endpoint == c.endpoint
            &&& now.download_dir_set == c.download_dir_set
            &&& now.hf_logged_in == c.hf_logged_in
            &&& now.language == c.language
        }),
{
}

// ---------------------------------------------------------------------------------------------
// Records
// ---------------------------------------------------------------------------------------------

/// The record of a process lies in `sessions` beside the executable, in a file that is named after
/// the number of the process.
pub proof fn law_record_lies_beside_the_executable(dir: Seq<char>, pid: u32)
    requires
        dir.len() > 0 && dir.last() != '/',
    ensures
        exists|digits: Seq<char>|
            {
                &&& all_digits(digits)
                &&& number(digits) == pid
                &&& path_join(sessions_place(Some(dir), '/'), file_of(pid), '/') == dir
                    + "/sessions/session-"@ + #[trigger] digits.skip(0) + ".json"@
            },
        sessions_place(None, '/') == "sessions"@,
{
    reveal_strlit("sessions");
    reveal_strlit("session-");
    reveal_strlit(".json");
    reveal_strlit("/sessions/session-");
    law_decimal_reads_back(pid as nat);
    let digits = decimal(pid as nat);
    assert(digits.skip(0) =~= digits);
    let place = dir + seq!['/'] + "sessions"@;
    law_slash_paths(dir, "sessions"@);
    assert(place.last() == 's');
    assert(file_of(pid)[0] == 's');
    law_slash_paths(place, file_of(pid));
    assert(place + seq!['/'] + file_of(pid) =~= dir + "/sessions/session-"@ + digits + ".json"@);
}

/// A file holds a record if and only if its name begins with `session-` and ends with `.json`.
pub proof fn law_records_are_known_by_name(name: Seq<char>, middle: Seq<char>)
    ensures
        names_record("session-"@ + middle + ".json"@),
        names_record(name) ==> name.len() >= 8 && name.take(8) == "session-"@ && name.skip(
            name.len() - 5,
        ) == ".json"@,
        name.len() >= 13 && name.take(8) == "session-"@ && name.skip(name.len() - 5) == ".json"@
            ==> names_record(name),
{
    reveal_strlit("session-");
    reveal_strlit(".json");
    let built = "session-"@ + middle + ".json"@;
    assert("session-"@ =~= built.take(8));
    assert(".json"@ =~= built.skip(built.len() - 5));
    if names_record(name) {
        assert(name.take(8) =~= "session-"@);
        assert(name.skip(name.len() - 5) =~= ".json"@);
    }
}

/// A process counts as running if and only if it is this one, or the process list shows its number
/// as a word of its own.
pub proof fn law_process_is_looked_up(pid: u32, own: u32, listing: Seq<char>)
    ensures
        alive(own, own, None),
        pid != own ==> !alive(pid, own, None),
        pid != own ==> alive(pid, own, Some(listing)) == exists|i: int|
            {
                &&& 0 <= i < words(listing).len()
                &&& #[trigger] words(listing)[i] == decimal(pid as nat)
            },
{
    if words(listing).contains(decimal(pid as nat)) {
        let i = choose|i: int|
            0 <= i < words(listing).len() && words(listing)[i] == decimal(pid as nat);
        assert(words(listing)[i] == decimal(pid as nat));
    }
}

/// A find is offered if and only if it is named like a record, could be read, and its process is
/// gone. The finds of two searches, one after the other, are those of both together.
pub proof fn law_finds_are_offered_in_order(one: Seq<Found>, other: Seq<Found>, f: Found)
    ensures
        recoverable(f) == (names_record(f.name@) && f.session is Some && !f.alive),
        recoverable_records(seq![f]) == if recoverable(f) {
            seq![f.session->0@]
        } else {
            Seq::empty()
        },
        recoverable_records(one + other) == recoverable_records(one) + recoverable_records(other),
    decreases other.len(),
{
    assert(seq![f].drop_last() =~= Seq::<Found>::empty());
    assert(recoverable_records(seq![f].drop_last()).len() == 0);
    assert(recoverable_records(seq![f]) =~= if recoverable(f) {
        seq![f.session->0@]
    } else {
        Seq::empty()
    });
    if other.len() == 0 {
        assert(one + other =~= one);
        assert(recoverable_records(one) + recoverable_records(other) =~= recoverable_records(one));
    } else {
        law_finds_are_offered_in_order(one, other.drop_last(), f);
        assert((one + other).drop_last() =~= one + other.drop_last());
        assert((one + other).last() == other.last());
        assert(recoverable_records(one + other) =~= recoverable_records(one) + recoverable_records(
            other,
        ));
    }
}

} // verus!
