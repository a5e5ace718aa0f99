use hf_downloader::i18n::{
    available, build_registry, lang_code, load, t, templates, LangRegistry, EMBED_EN, EMBED_ZH,
};
use hf_downloader::platform::{
    detect_system_lang, font_candidates, is_font, scan_dirs, FontDir, Platform,
};

fn file(code: &str, json: &str) -> (String, String) {
    (code.to_string(), json.to_string())
}

fn codes(reg: &LangRegistry) -> Vec<(String, String)> {
    available(reg)
}

#[test]
fn built_in_languages() {
    let reg = build_registry(&Vec::new());
    assert_eq!(codes(&reg), vec![file("zh", "中文"), file("en", "English")]);
    assert_eq!(t("start", "zh", &reg), "开始下载");
    assert_eq!(t("start", "en", &reg), "Start Download");
    assert_eq!(t("total_speed", "zh", &reg), "总速度");
    assert_eq!(t("all_done", "zh", &reg), "已全部完成");
    assert_eq!(t("no_such_key", "zh", &reg), "no_such_key");
    assert_eq!(t("start", "fr", &reg), "Start Download");
}

#[test]
fn both_built_in_languages_have_the_same_keys() {
    let read = |json: &str| -> std::collections::BTreeMap<String, String> {
        serde_json::from_str(json).unwrap()
    };
    let zh = read(EMBED_ZH);
    let en = read(EMBED_EN);
    assert!(zh.keys().eq(en.keys()));
    let reg = build_registry(&Vec::new());
    for (k, v) in &en {
        assert_eq!(&t(k, "en", &reg), v);
    }
    for (k, v) in &zh {
        assert_eq!(&t(k, "zh", &reg), v);
    }
}

#[test]
fn files_override_and_extend() {
    let reg = build_registry(&vec![
        file("fr", r#"{"__name__": "Français", "start": "Démarrer"}"#),
        file("en", r#"{"start": "Go"}"#),
        file("xx", r#"{"start": 3}"#),
        file("yy", "not json"),
        file("ja", r#"{"start": "開始"}"#),
    ]);
    assert_eq!(
        codes(&reg),
        vec![
            file("zh", "中文"),
            file("en", "English"),
            file("fr", "Français"),
            file("ja", "ja"),
        ]
    );
    assert_eq!(t("start", "fr", &reg), "Démarrer");
    assert_eq!(t("start", "en", &reg), "Go");
    // English stays complete, and is the fallback.
    assert_eq!(t("select_all", "en", &reg), "Select All");
    assert_eq!(t("select_all", "fr", &reg), "Select All");
    assert_eq!(t("start", "xx", &reg), "Go");
}

#[test]
fn texts_are_merged_key_by_key() {
    let mut reg = LangRegistry::new();
    reg.add_texts("fr", Some(vec![file("a", "1"), file("b", "2")]));
    reg.add_texts("fr", Some(vec![file("b", "3"), file("c", "4"), file("c", "5")]));
    reg.add_texts("", Some(vec![file("a", "x")]));
    reg.add_texts("de", None);
    assert_eq!(codes(&reg), vec![file("fr", "fr")]);
    assert_eq!((t("a", "fr", &reg), t("b", "fr", &reg)), ("1".to_string(), "3".to_string()));
    assert_eq!((t("c", "fr", &reg), t("d", "fr", &reg)), ("5".to_string(), "d".to_string()));
}

#[test]
fn repeated_keys_take_the_last_value() {
    let reg = build_registry(&vec![file("fr", r#"{"start": "a", "start": "b"}"#)]);
    assert_eq!(t("start", "fr", &reg), "b");
}

#[test]
fn only_the_first_load_counts() {
    let mut slot = None;
    load(&mut slot, &vec![file("fr", r#"{"start": "un"}"#)]);
    load(&mut slot, &vec![file("fr", r#"{"start": "deux"}"#)]);
    assert_eq!(t("start", "fr", slot.as_ref().unwrap()), "un");
}

#[test]
fn language_files_are_named_after_their_code() {
    assert_eq!(lang_code("fr.json").as_deref(), Some("fr"));
    assert_eq!(lang_code("zh-TW.json").as_deref(), Some("zh-TW"));
    assert_eq!(lang_code("a.b.json").as_deref(), Some("a.b"));
    assert_eq!(lang_code(".json"), None);
    assert_eq!(lang_code("fr.txt"), None);
    assert_eq!(lang_code("json"), None);
}

#[test]
fn templates_change_nothing() {
    let mut files = Vec::new();
    for (name, json) in templates() {
        files.push((lang_code(&name).unwrap(), json));
    }
    assert_eq!(files.len(), 2);
    let plain = build_registry(&Vec::new());
    let with = build_registry(&files);
    assert_eq!(codes(&plain), codes(&with));
    for key in ["start", "files", "title", "none"] {
        for lang in ["zh", "en", "fr"] {
            assert_eq!(t(key, lang, &plain), t(key, lang, &with));
        }
    }
}

// ---- the system ---------------------------------------------------------------------------

#[test]
fn system_language() {
    let lang = |l: &str| detect_system_lang(&Some(l.to_string()));
    for l in ["zh", "zh-CN", "ZH_tw", "zH", "en-US", "z", "", "fr-FR", "ezh", "中文"] {
        let expected = if l.to_lowercase().starts_with("zh") { "zh" } else { "en" };
        assert_eq!(lang(l), expected, "{}", l);
    }
    // No other letter has a lower-case form that begins with these two.
    for c in '\0'..=char::MAX {
        let expected = if format!("{}h", c).to_lowercase().starts_with("zh") { "zh" } else { "en" };
        assert_eq!(lang(&format!("{}h", c)), expected);
        let expected = if format!("z{}", c).to_lowercase().starts_with("zh") { "zh" } else { "en" };
        assert_eq!(lang(&format!("z{}", c)), expected);
    }
    assert_eq!(detect_system_lang(&None), "en");
}

#[test]
fn font_names() {
    for name in ["a.ttf", "a.ttc", "a.otf", "a.otc", "a.b.ttf", ".ttf", "a.TTF", "ttf", "a.ttf2", "OFL.txt", ""] {
        let ext = std::path::Path::new(name).extension().and_then(|s| s.to_str());
        let expected = matches!(ext, Some("ttf" | "ttc" | "otf" | "otc"));
        assert_eq!(is_font(name), expected, "{}", name);
    }
}

fn dir(path: &str, names: &[&str]) -> FontDir {
    FontDir { dir: path.to_string(), names: names.iter().map(|s| s.to_string()).collect() }
}

#[test]
fn fonts_in_order() {
    let bundled = vec![dir("/app/fonts", &["LICENSE", "a.ttf", "b.otc"])];
    let scanned = vec![dir("/usr/share/fonts/otf/noto", &["x.otf", "x.txt"]), dir("/e", &[])];
    let linux = font_candidates(&bundled, Platform::Other, &scanned, '/');
    assert_eq!(linux.len(), 9);
    assert_eq!(&linux[..2], ["/app/fonts/a.ttf", "/app/fonts/b.otc"]);
    assert_eq!(linux[2], "/usr/share/fonts/truetype/noto/NotoSansCJK-Regular.ttc");
    assert_eq!(linux[8], "/usr/share/fonts/otf/noto/x.otf");
    let mac = font_candidates(&bundled, Platform::MacOs, &scanned, '/');
    assert_eq!(mac.len(), 5);
    assert_eq!(mac[2], "/System/Library/Fonts/PingFang.ttc");
    let win = font_candidates(&Vec::new(), Platform::Windows, &Vec::new(), '\\');
    assert_eq!(
        win,
        [
            "C:/Windows/Fonts/msyh.ttc",
            "C:/Windows/Fonts/msyh.ttf",
            "C:/Windows/Fonts/simhei.ttf",
            "C:/Windows/Fonts/simsun.ttc",
        ]
    );
    assert_eq!(scan_dirs(Platform::Other).len(), 4);
    assert!(scan_dirs(Platform::Windows).is_empty() && scan_dirs(Platform::MacOs).is_empty());
}
