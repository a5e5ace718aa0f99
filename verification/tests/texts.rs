use hf_downloader::edit::{char_to_byte, copy, cursor_char_range, cut, paste, select_all};
use hf_downloader::format::{fmt_eta, fmt_size, fmt_speed};
use hf_downloader::table::Table;
use hf_downloader::text::{
    char_is_space, decimal_of, ends_with, join, pieces_of, replace_char, starts_with, trim,
    trim_end_matches, two_digits_of, words_of,
};

const SAMPLES: [&str; 12] = [
    "", " ", "a", " a ", "a  b", "\ta\n", "é/ü", "//a//b/", "中 文", "a/", "/", "\u{3000}x\u{a0}",
];

#[test]
fn white_space_is_that_of_unicode() {
    for c in '\0'..=char::MAX {
        assert_eq!(char_is_space(c), c.is_whitespace(), "{:?}", c);
    }
}

#[test]
fn text_operations_match_std() {
    for s in SAMPLES {
        assert_eq!(trim(s), s.trim());
        assert_eq!(trim_end_matches(s, '/'), s.trim_end_matches('/'));
        assert_eq!(replace_char(s, '/', '-'), s.replace('/', "-"));
        let words: Vec<String> = s.split_whitespace().map(str::to_string).collect();
        assert_eq!(words_of(s), words);
        let pieces: Vec<String> =
            s.split('/').filter(|p| !p.is_empty()).map(str::to_string).collect();
        assert_eq!(pieces_of(s, '/'), pieces);
        for p in SAMPLES {
            assert_eq!(starts_with(s, p), s.starts_with(p));
            assert_eq!(ends_with(s, p), s.ends_with(p));
        }
    }
    let parts: Vec<String> = ["a", "b", "c"].iter().map(|s| s.to_string()).collect();
    assert_eq!(join(&parts, 1, "/"), "b/c");
    assert_eq!(join(&parts, 3, "/"), "");
}

#[test]
fn numbers_match_std() {
    for n in [0u64, 7, 10, 99, 100, 65535, u64::MAX] {
        assert_eq!(decimal_of(n), n.to_string());
    }
    for n in 0..100u64 {
        assert_eq!(two_digits_of(n), format!("{:02}", n));
    }
}

#[test]
fn tables_keep_their_order() {
    let mut t: Table<u32> = Table::new();
    for (i, k) in ["c", "a", "b", "a"].iter().enumerate() {
        t.set(k.to_string(), i as u32);
    }
    assert_eq!(t.len(), 3);
    let keys: Vec<&str> = (0..t.len()).map(|i| t.key_at(i).as_str()).collect();
    assert_eq!(keys, vec!["c", "a", "b"]);
    assert_eq!(t.get("a"), Some(&3));
    assert_eq!(t.get("x"), None);
    *t.at_mut(0) = 9;
    assert_eq!(*t.val_at(0), 9);
    t.remove("a");
    t.remove("x");
    assert!(!t.contains("a") && t.contains("b"));
    assert_eq!(t.find("b"), Some(1));
    t.clear();
    assert_eq!(t.len(), 0);
}

// ---- sizes, speeds, durations -------------------------------------------------------------

fn float_size(b: u64) -> String {
    const KB: f64 = 1024.0;
    const MB: f64 = KB * 1024.0;
    const GB: f64 = MB * 1024.0;
    let b = b as f64;
    if b >= GB {
        format!("{:.2} GB", b / GB)
    } else if b >= MB {
        format!("{:.2} MB", b / MB)
    } else if b >= KB {
        format!("{:.1} KB", b / KB)
    } else {
        format!("{} B", b as u64)
    }
}

#[test]
fn sizes() {
    assert_eq!(fmt_size(0), "0 B");
    assert_eq!(fmt_size(1023), "1023 B");
    assert_eq!(fmt_size(1024), "1.0 KB");
    assert_eq!(fmt_size(1536), "1.5 KB");
    assert_eq!(fmt_size(1_572_864), "1.50 MB");
    assert_eq!(fmt_size(13_476_838_400), "12.55 GB");
    assert_eq!(fmt_size(1_048_575), "1024.0 KB");
}

#[test]
fn sizes_match_floating_point() {
    let mut n: u64 = 88172645463325252;
    for shift in 0..64u32 {
        for _ in 0..400 {
            n ^= n << 13;
            n ^= n >> 7;
            n ^= n << 17;
            let b = n >> shift;
            assert_eq!(fmt_size(b), float_size(b), "{}", b);
        }
    }
    // Ties and borders.
    for unit in [1024u64, 1 << 20, 1 << 30] {
        for k in 1..3000u64 {
            for b in [unit / 200 * k, unit / 8 * k, unit / 64 * k, unit * k + unit / 8 * 3] {
                assert_eq!(fmt_size(b), float_size(b), "{}", b);
            }
        }
    }
    for p in 50..64u32 {
        for d in 0..40u64 {
            for b in [(1u64 << p).wrapping_add(d), (1u64 << p).wrapping_sub(d)] {
                assert_eq!(fmt_size(b), float_size(b), "{}", b);
            }
        }
    }
    assert_eq!(fmt_size(u64::MAX), float_size(u64::MAX));
}

#[test]
fn speeds() {
    assert_eq!(fmt_speed(None), "");
    assert_eq!(fmt_speed(Some(0)), "0 B/s");
    assert_eq!(fmt_speed(Some(1536)), "1.5 KB/s");
}

#[test]
fn durations() {
    assert_eq!(fmt_eta(1, Some(83)), "1:23");
    assert_eq!(fmt_eta(1, Some(3723)), "1:02:03");
    assert_eq!(fmt_eta(1, Some(5)), "0:05");
    assert_eq!(fmt_eta(1, Some(360_000)), "100:00:00");
    assert_eq!(fmt_eta(0, Some(83)), "");
    assert_eq!(fmt_eta(1, None), "");
}

// ---- editing ------------------------------------------------------------------------------

#[test]
fn selections() {
    assert_eq!(cursor_char_range("héllo", Some((1, 3))), (1, 3));
    assert_eq!(cursor_char_range("héllo", Some((3, 1))), (1, 3));
    assert_eq!(cursor_char_range("héllo", Some((9, 2))), (2, 5));
    assert_eq!(cursor_char_range("héllo", Some((8, 9))), (5, 5));
    assert_eq!(cursor_char_range("héllo", None), (0, 5));
    assert_eq!(select_all("héllo"), (0, 5));
}

#[test]
fn bytes_of_characters() {
    let s = "aé中😀";
    for i in 0..6 {
        let expected = s.char_indices().nth(i).map(|(b, _)| b).unwrap_or(s.len());
        assert_eq!(char_to_byte(s, i), expected);
    }
}

#[test]
fn cut_copy_and_paste() {
    let e = cut("aé中d", Some((3, 1)));
    assert_eq!((e.text.as_str(), e.copied.as_deref(), e.caret), ("ad", Some("é中"), Some((1, 1))));
    // Pasting back where it was cut.
    let b = paste(&e.text, e.caret, e.copied.as_deref().unwrap());
    assert_eq!((b.text.as_str(), b.caret), ("aé中d", Some((3, 3))));
    let nothing = cut("abc", Some((2, 2)));
    assert_eq!((nothing.text.as_str(), nothing.copied, nothing.caret), ("abc", None, None));
    // Without a caret everything is cut and copied, and a paste goes to the end.
    let all = cut("abc", None);
    assert_eq!((all.text.as_str(), all.copied.as_deref()), ("", Some("abc")));
    assert_eq!(copy("abc", None).as_deref(), Some("abc"));
    assert_eq!(copy("abc", Some((0, 2))).as_deref(), Some("ab"));
    assert_eq!(copy("abc", Some((1, 1))), None);
    let end = paste("abc", None, "x");
    assert_eq!((end.text.as_str(), end.caret), ("abcx", Some((4, 4))));
    assert_eq!(paste("abc", Some((0, 3)), "").text, "");
}
