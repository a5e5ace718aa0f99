//! What depends on the system that the program runs on: its language, and its fonts.

use vstd::prelude::*;
use crate::path::{join_path, path_join};
use crate::text::{chars_of, ends_with, opt_text, texts};

verus! {

// ---------------------------------------------------------------------------------------------
// Language
// ---------------------------------------------------------------------------------------------

/// Whether a locale is a Chinese one, such as `zh-CN` or `ZH_tw`.
pub open spec fn is_chinese(locale: Seq<char>) -> bool {
    locale.len() >= 2 && (locale[0] == 'z' || locale[0] == 'Z') && (locale[1] == 'h' || locale[1]
        == 'H')
}

/// The language for a system locale: Chinese for a Chinese one, English for all others and where
/// none is known.
pub open spec fn lang_of_locale(locale: Option<Seq<char>>) -> Seq<char> {
    match locale {
        Some(l) if is_chinese(l) => "zh"@,
        _ => "en"@,
    }
}

/// The language to begin with, unless the user chose one.
pub fn detect_system_lang(locale: &Option<String>) -> (r: String)
    ensures
        r@ == lang_of_locale(opt_text(*locale)),
{
    let chinese = match locale {
        Some(l) => {
            let v = chars_of(l.as_str());
            v.len() >= 2 && (v[0] == 'z' || v[0] == 'Z') && (v[1] == 'h' || v[1] == 'H')
        },
        None => false,
    };
    if chinese {
        "zh".to_owned()
    } else {
        "en".to_owned()
    }
}

// ---------------------------------------------------------------------------------------------
// Fonts
// ---------------------------------------------------------------------------------------------

/// The systems that keep their fonts in different places.
#[derive(Debug, Clone, Copy, PartialEq, Eq, Structural)]
pub enum Platform {
    Windows,
    MacOs,
    Other,
}

/// Whether a file name consists of something and the extension `ext`, which begins with its dot.
pub open spec fn has_extension(name: Seq<char>, ext: Seq<char>) -> bool {
    ext.is_suffix_of(name) && name.len() > ext.len()
}

/// Whether a file is a font, by its name.
pub open spec fn names_font(name: Seq<char>) -> bool {
    has_extension(name, ".ttf"@) || has_extension(name, ".ttc"@) || has_extension(name, ".otf"@)
        || has_extension(name, ".otc"@)
}

/// Whether a file is a font, by its name.
pub fn is_font(name: &str) -> (r: bool)
    ensures
        r == names_font(name@),
{
    proof {
        reveal_strlit(".ttf");
        reveal_strlit(".ttc");
        reveal_strlit(".otf");
        reveal_strlit(".otc");
    }
    let v = chars_of(name);
    v.len() > 4 && (ends_with(name, ".ttf") || ends_with(name, ".ttc") || ends_with(name, ".otf")
        || ends_with(name, ".otc"))
}

/// A directory and the names of the files in it.
pub struct FontDir {
    pub dir: String,
    pub names: Vec<String>,
}

/// The fonts among the files `names` of `dir`, in order.
pub open spec fn fonts_among(dir: Seq<char>, names: Seq<Seq<char>>, sep: char) -> Seq<Seq<char>>
    decreases names.len(),
{
    if names.len() == 0 {
        Seq::empty()
    } else {
        let before = fonts_among(dir, names.drop_last(), sep);
        if names_font(names.last()) {
            before.push(path_join(dir, names.last(), sep))
        } else {
            before
        }
    }
}

/// The fonts in all of `dirs`, in order.
pub open spec fn fonts_in(dirs: Seq<FontDir>, sep: char) -> Seq<Seq<char>>
    decreases dirs.len(),
{
    if dirs.len() == 0 {
        Seq::empty()
    } else {
        fonts_in(dirs.drop_last(), sep) + fonts_among(
            dirs.last().dir@,
            texts(dirs.last().names@),
            sep,
        )
    }
}

/// The Chinese fonts that a system usually has.
pub open spec fn usual_fonts(platform: Platform) -> Seq<Seq<char>> {
    match platform {
        Platform::Windows => seq![
            "C:/Windows/Fonts/msyh.ttc"@,
            "C:/Windows/Fonts/msyh.ttf"@,
            "C:/Windows/Fonts/simhei.ttf"@,
            "C:/Windows/Fonts/simsun.ttc"@,
        ],
        Platform::MacOs => seq![
            "/System/Library/Fonts/PingFang.ttc"@,
            "/System/Library/Fonts/STHeiti Light.ttc"@,
            "/Library/Fonts/Arial Unicode.ttf"@,
        ],
        Platform::Other => seq![
            "/usr/share/fonts/truetype/noto/NotoSansCJK-Regular.ttc"@,
            "/usr/share/fonts/opentype/noto/NotoSansCJK-Regular.ttc"@,
            "/usr/share/fonts/truetype/noto/NotoSansSC-Regular.otf"@,
            "/usr/share/fonts/truetype/wqy/wqy-zenhei.ttc"@,
            "/usr/share/fonts/truetype/wqy/wqy-microhei.ttc"@,
            "/usr/share/fonts/otf/noto/NotoSansCJK-Regular.otf"@,
        ],
    }
}

/// The directories that are searched for fonts besides.
pub open spec fn font_dirs(platform: Platform) -> Seq<Seq<char>> {
    match platform {
        Platform::Other => seq![
            "/usr/share/fonts/truetype/noto"@,
            "/usr/share/fonts/opentype/noto"@,
            "/usr/share/fonts/truetype/wqy"@,
            "/usr/share/fonts/otf/noto"@,
        ],
        _ => Seq::empty(),
    }
}

/// The fonts to try, in order: those that came with the program, those that the system usually
/// has, and where its fonts lie scattered, whatever was found in its font directories.
pub open spec fn font_order(
    bundled: Seq<FontDir>,
    platform: Platform,
    scanned: Seq<FontDir>,
    sep: char,
) -> Seq<Seq<char>> {
    fonts_in(bundled, sep) + usual_fonts(platform) + match platform {
        Platform::Other => fonts_in(scanned, sep),
        _ => Seq::empty(),
    }
}

fn push_text(v: &mut Vec<String>, s: &str)
    ensures
        texts(final(v)@) == texts(old(v)@).push(s@),
{
    v.push(s.to_owned());
    assert(texts(v@) =~= texts(old(v)@).push(s@));
}

fn push_fonts(v: &mut Vec<String>, d: &FontDir, sep: char)
    ensures
        texts(final(v)@) == texts(old(v)@) + fonts_among(d.dir@, texts(d.names@), sep),
{
    let ghost names = texts(d.names@);
    let ghost start = texts(v@);
    let mut i: usize = 0;
    assert(texts(v@) =~= start + fonts_among(d.dir@, names.take(0), sep));
    while i < d.names.len()
        invariant
            i <= d.names@.len(),
            names == texts(d.names@),
            texts(v@) == start + fonts_among(d.dir@, names.take(i as int), sep),
        decreases d.names@.len() - i,
    {
        proof {
            assert(names.take(i + 1).drop_last() == names.take(i as int));
            assert(names.take(i + 1).last() == d.names@[i as int]@);
        }
        if is_font(d.names[i].as_str()) {
            let path = join_path(d.dir.as_str(), d.names[i].as_str(), sep);
            let ghost before = fonts_among(d.dir@, names.take(i as int), sep);
            push_text(v, path.as_str());
            assert((start + before).push(path@) =~= start + before.push(path@));
        }
        i += 1;
    }
    assert(names.take(names.len() as int) == names);
}

fn push_all_fonts(v: &mut Vec<String>, dirs: &Vec<FontDir>, sep: char)
    ensures
        texts(final(v)@) == texts(old(v)@) + fonts_in(dirs@, sep),
{
    let ghost start = texts(v@);
    let mut i: usize = 0;
    assert(texts(v@) =~= start + fonts_in(dirs@.take(0), sep));
    while i < dirs.len()
        invariant
            i <= dirs@.len(),
            texts(v@) == start + fonts_in(dirs@.take(i as int), sep),
        decreases dirs@.len() - i,
    {
        proof {
            assert(dirs@.take(i + 1).drop_last() == dirs@.take(i as int));
            assert(dirs@.take(i + 1).last() == dirs@[i as int]);
        }
        let ghost before = fonts_in(dirs@.take(i as int), sep);
        push_fonts(v, &dirs[i], sep);
        assert(texts(v@) =~= start + (before + fonts_among(
            dirs@[i as int].dir@,
            texts(dirs@[i as int].names@),
            sep,
        )));
        i += 1;
    }
    assert(dirs@.take(dirs@.len() as int) == dirs@);
}

/// The directories that are to be searched for fonts besides the usual places.
pub fn scan_dirs(platform: Platform) -> (r: Vec<String>)
    ensures
        texts(r@) == font_dirs(platform),
{
    let mut r: Vec<String> = Vec::new();
    match platform {
        Platform::Other => {
            push_text(&mut r, "/usr/share/fonts/truetype/noto");
            push_text(&mut r, "/usr/share/fonts/opentype/noto");
            push_text(&mut r, "/usr/share/fonts/truetype/wqy");
            push_text(&mut r, "/usr/share/fonts/otf/noto");
        },
        _ => {},
    }
    assert(texts(r@) =~= font_dirs(platform));
    r
}

/// The fonts to try, in order.
pub fn font_candidates(
    bundled: &Vec<FontDir>,
    platform: Platform,
    scanned: &Vec<FontDir>,
    sep: char,
) -> (r: Vec<String>)
    ensures
        texts(r@) == font_order(bundled@, platform, scanned@, sep),
{
    let mut r: Vec<String> = Vec::new();
    assert(texts(r@) =~= Seq::<Seq<char>>::empty());
    push_all_fonts(&mut r, bundled, sep);
    let ghost first = fonts_in(bundled@, sep);
    match platform {
        Platform::Windows => {
            push_text(&mut r, "C:/Windows/Fonts/msyh.ttc");
            push_text(&mut r, "C:/Windows/Fonts/msyh.ttf");
            push_text(&mut r, "C:/Windows/Fonts/simhei.ttf");
            push_text(&mut r, "C:/Windows/Fonts/simsun.ttc");
        },
        Platform::MacOs => {
            push_text(&mut r, "/System/Library/Fonts/PingFang.ttc");
            push_text(&mut r, "/System/Library/Fonts/STHeiti Light.ttc");
            push_text(&mut r, "/Library/Fonts/Arial Unicode.ttf");
        },
        Platform::Other => {
            push_text(&mut r, "/usr/share/fonts/truetype/noto/NotoSansCJK-Regular.ttc");
            push_text(&mut r, "/usr/share/fonts/opentype/noto/NotoSansCJK-Regular.ttc");
            push_text(&mut r, "/usr/share/fonts/truetype/noto/NotoSansSC-Regular.otf");
            push_text(&mut r, "/usr/share/fonts/truetype/wqy/wqy-zenhei.ttc");
            push_text(&mut r, "/usr/share/fonts/truetype/wqy/wqy-microhei.ttc");
            push_text(&mut r, "/usr/share/fonts/otf/noto/NotoSansCJK-Regular.otf");
        },
    }
    assert(texts(r@) =~= first + usual_fonts(platform));
    match platform {
        Platform::Other => push_all_fonts(&mut r, scanned, sep),
        _ => {
            assert(texts(r@) =~= first + usual_fonts(platform) + Seq::<Seq<char>>::empty());
        },
    }
    r
}

/// A font that the user put beside the program is tried before any font of the system.
pub proof fn law_bundled_fonts_come_first(
    bundled: Seq<FontDir>,
    platform: Platform,
    scanned: Seq<FontDir>,
    sep: char,
)
    ensures
        fonts_in(bundled, sep).is_prefix_of(font_order(bundled, platform, scanned, sep)),
{
    let first = fonts_in(bundled, sep);
    let all = font_order(bundled, platform, scanned, sep);
    assert(first =~= all.take(first.len() as int));
}

/// A locale that begins with `zh`, in letters of either case, is Chinese, and no other is. All
/// others, and none, give English.
pub proof fn law_locale_gives_the_language(z: char, h: char, rest: Seq<char>, locale: Seq<char>)
    requires
        z == 'z' || z == 'Z',
        h == 'h' || h == 'H',
        locale.len() < 2 || (locale[0] != 'z' && locale[0] != 'Z') || (locale[1] != 'h' && locale[1]
            != 'H'),
    ensures
        lang_of_locale(Some(seq![z, h] + rest)) == "zh"@,
        lang_of_locale(Some(locale)) == "en"@,
        lang_of_locale(None) == "en"@,
{
    let zh = seq![z, h] + rest;
    assert(zh[0] == z && zh[1] == h);
}

/// A file is a font if and only if its name is something before one of the four extensions.
pub proof fn law_fonts_are_known_by_name(stem: Seq<char>, name: Seq<char>)
    requires
        stem.len() > 0,
    ensures
        names_font(stem + ".ttf"@) && names_font(stem + ".ttc"@),
        names_font(stem + ".otf"@) && names_font(stem + ".otc"@),
        names_font(name) ==> name.len() > 4 && (name.skip(name.len() - 4) == ".ttf"@ || name.skip(
            name.len() - 4,
        ) == ".ttc"@ || name.skip(name.len() - 4) == ".otf"@ || name.skip(name.len() - 4)
            == ".otc"@),
{
    reveal_strlit(".ttf");
    reveal_strlit(".ttc");
    reveal_strlit(".otf");
    reveal_strlit(".otc");
    lemma_extension(stem, ".ttf"@);
    lemma_extension(stem, ".ttc"@);
    lemma_extension(stem, ".otf"@);
    lemma_extension(stem, ".otc"@);
    if names_font(name) {
        let end = name.skip(name.len() - 4);
        if has_extension(name, ".ttf"@) {
            assert(end =~= ".ttf"@);
        } else if has_extension(name, ".ttc"@) {
            assert(end =~= ".ttc"@);
        } else if has_extension(name, ".otf"@) {
            assert(end =~= ".otf"@);
        } else {
            assert(end =~= ".otc"@);
        }
    }
}

proof fn lemma_extension(stem: Seq<char>, ext: Seq<char>)
    requires
        stem.len() > 0,
    ensures
        has_extension(stem + ext, ext),
{
    let name = stem + ext;
    assert(ext =~= name.skip(name.len() - ext.len()));
}

/// What is tried of a directory are its fonts and nothing else, in the order of the directory; what
/// is tried of several directories is what is tried of each, in turn.
pub proof fn law_fonts_of_directories(
    dir: Seq<char>,
    one: Seq<Seq<char>>,
    other: Seq<Seq<char>>,
    name: Seq<char>,
    dirs: Seq<FontDir>,
    last: FontDir,
    sep: char,
)
    ensures
        fonts_among(dir, seq![name], sep) == if names_font(name) {
            seq![path_join(dir, name, sep)]
        } else {
            Seq::empty()
        },
        fonts_among(dir, one + other, sep) == fonts_among(dir, one, sep) + fonts_among(
            dir,
            other,
            sep,
        ),
        fonts_in(Seq::empty(), sep).len() == 0,
        fonts_in(dirs.push(last), sep) == fonts_in(dirs, sep) + fonts_among(
            last.dir@,
            texts(last.names@),
            sep,
        ),
    decreases other.len(),
{
    assert(seq![name].drop_last() =~= Seq::<Seq<char>>::empty());
    assert(fonts_among(dir, seq![name].drop_last(), sep).len() == 0);
    assert(fonts_among(dir, seq![name], sep) =~= if names_font(name) {
        seq![path_join(dir, name, sep)]
    } else {
        Seq::empty()
    });
    assert(dirs.push(last).drop_last() =~= dirs);
    if other.len() == 0 {
        assert(one + other =~= one);
        assert(fonts_among(dir, one, sep) + fonts_among(dir, other, sep) =~= fonts_among(
            dir,
            one,
            sep,
        ));
    } else {
        law_fonts_of_directories(dir, one, other.drop_last(), name, dirs, last, sep);
        assert((one + other).drop_last() =~= one + other.drop_last());
        assert((one + other).last() == other.last());
        assert(fonts_among(dir, one + other, sep) =~= fonts_among(dir, one, sep) + fonts_among(
            dir,
            other,
            sep,
        ));
    }
}

/// Behind the fonts that came with the program come those that the system usually has; fonts that
/// were found by a search come last, and only where the fonts of the system lie scattered.
pub proof fn law_system_fonts_follow(
    bundled: Seq<FontDir>,
    scanned: Seq<FontDir>,
    platform: Platform,
    sep: char,
)
    ensures
        ({
            let all = font_order(bundled, platform, scanned, sep);
            let usual = fonts_in(bundled, sep) + usual_fonts(platform);
            &&& platform == Platform::Other ==> all == usual + fonts_in(scanned, sep)
            &&& platform != Platform::Other ==> all == usual
        }),
{
    if platform != Platform::Other {
        assert(font_order(bundled, platform, scanned, sep) =~= fonts_in(bundled, sep)
            + usual_fonts(platform));
    }
}

} // verus!
