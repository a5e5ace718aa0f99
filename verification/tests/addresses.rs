use hf_downloader::hf_api::{
    api_base, check_token, files_from_items, list_files, listing_from, login_token, parse_bare,
    parse_repo_input, read_token, repo_from_address, repo_from_path, target_dir_for, target_dir_with, token_path,
    tree_request, tree_url, whoami_request, whoami_url, Reply, RepoInfo, TreeItem,
};
use hf_downloader::i18n::{build_registry, LangRegistry};
use hf_downloader::path::join_path;

fn registry() -> LangRegistry {
    build_registry(&Vec::new())
}

fn parts(r: &RepoInfo) -> (&str, &str, &str, &str) {
    (&r.repo_id, &r.repo_type, &r.revision, &r.subpath)
}

fn check_input(text: &str, expected: (&str, &str, &str, &str)) {
    let r = parse_repo_input(text, "en", &registry()).unwrap();
    assert_eq!(parts(&r), expected, "{}", text);
}

fn refuse_input(text: &str, expected: &str) {
    let e = parse_repo_input(text, "en", &registry()).unwrap_err();
    assert_eq!(e, expected, "{}", text);
}

// ---- addresses ----------------------------------------------------------------------------

#[test]
fn short_addresses() {
    check_input("meta-llama/Llama-2-7b", ("meta-llama/Llama-2-7b", "model", "main", ""));
    check_input("  o/r\n", ("o/r", "model", "main", ""));
    check_input("o/r@v1.0", ("o/r", "model", "v1.0", ""));
    check_input("o/r/a/b", ("o/r", "model", "main", "a/b"));
    check_input("o/r@dev/a", ("o/r", "model", "dev", "a"));
    check_input("o/r@d@e/a@b", ("o/r", "model", "d@e", "a@b"));
    check_input("o/r/", ("o/r", "model", "main", ""));
    check_input("ftp:o/r", ("ftp:o/r", "model", "main", ""));
}

#[test]
fn web_addresses() {
    check_input(
        "https://huggingface.co/meta-llama/Llama-2-7b",
        ("meta-llama/Llama-2-7b", "model", "main", ""),
    );
    check_input("http://h/models/o/r", ("o/r", "model", "main", ""));
    check_input("https://h/datasets/o/r/tree/v2/a/b/", ("o/r", "dataset", "v2", "a/b"));
    check_input("https://h/spaces/o/r/tree", ("o/r", "space", "main", ""));
    check_input("https://h/o/r/blob/main/x", ("o/r", "model", "main", "blob/main/x"));
    check_input("https://h//o//r?x=1#y", ("o/r", "model", "main", ""));
    check_input("https://h/o/r/a%20b", ("o/r", "model", "main", "a%20b"));
    check_input("https://h/o/r/a b", ("o/r", "model", "main", "a%20b"));
    check_input("https://h/x/../o/r", ("o/r", "model", "main", ""));
}

#[test]
fn refused_addresses() {
    let repo = "Cannot parse repo id, expected owner/repo or a full HF URL";
    refuse_input("", "Enter a repo address");
    refuse_input(" \t ", "Enter a repo address");
    refuse_input("owner", repo);
    refuse_input("/r", repo);
    refuse_input("o/", repo);
    refuse_input("o@x/r", repo);
    refuse_input("o/r@", repo);
    refuse_input("o/r@/x", repo);
    refuse_input("https://", "Cannot parse URL");
    refuse_input("http://[::1", "Cannot parse URL");
    refuse_input("https://huggingface.co/", "Cannot parse repo id from URL");
    refuse_input("https://huggingface.co/datasets/o", "Cannot parse repo id from URL");
}

#[test]
fn refusals_are_translated() {
    let reg = registry();
    assert_eq!(parse_repo_input("", "zh", &reg).unwrap_err(), "请输入仓库地址");
    assert_eq!(parse_repo_input("x", "fr", &reg).unwrap_err(), parse_repo_input("x", "en", &reg).unwrap_err());
}

#[test]
fn address_with_a_given_path() {
    let reg = registry();
    let path = Some("/o/r/tree/v1".to_string());
    let r = repo_from_address("https://any", &path, "en", &reg).unwrap();
    assert_eq!(parts(&r), ("o/r", "model", "v1", ""));
    assert!(repo_from_address("https://any", &None, "en", &reg).is_err());
    assert_eq!(parts(&repo_from_address("a/b", &None, "en", &reg).unwrap()).0, "a/b");
    assert!(repo_from_path("/datasets/o").is_none());
    assert_eq!(parts(&repo_from_path("/spaces/o/r").unwrap()).1, "space");
}

#[test]
fn short_grammar_is_the_documented_one() {
    let re = regex::Regex::new(r"^([^/@]+)/([^/@]+)(?:@([^/]+))?(?:/(.*))?$").unwrap();
    let alphabet = ['a', '/', '@', '\n', 'é'];
    let mut seen = 0;
    for len in 0..=7u32 {
        for mut n in 0..alphabet.len().pow(len) {
            let mut s = String::new();
            for _ in 0..len {
                s.push(alphabet[n % alphabet.len()]);
                n /= alphabet.len();
            }
            let expected = re.captures(&s).map(|c| {
                (
                    format!("{}/{}", &c[1], &c[2]),
                    c.get(3).map_or("main", |m| m.as_str()).to_string(),
                    c.get(4).map_or("", |m| m.as_str()).to_string(),
                )
            });
            let found = parse_bare(&s).map(|r| (r.repo_id, r.revision, r.subpath));
            seen += usize::from(found.is_some());
            assert_eq!(found, expected, "{:?}", s);
        }
    }
    assert!(seen > 1000);
}

#[test]
fn web_and_short_agree() {
    let reg = registry();
    for (owner, name) in [("o", "r"), ("meta-llama", "Llama-2-7b"), ("A.b", "c_d")] {
        let short = parse_repo_input(&format!("{}/{}", owner, name), "en", &reg).unwrap();
        let web =
            parse_repo_input(&format!("https://huggingface.co/{}/{}", owner, name), "en", &reg)
                .unwrap();
        assert_eq!(parts(&short), parts(&web));
    }
}

// ---- listing ------------------------------------------------------------------------------

#[test]
fn tree_addresses() {
    assert_eq!(api_base(""), "https://huggingface.co");
    assert_eq!(api_base("https://hf-mirror.com/"), "https://hf-mirror.com");
    assert_eq!(
        tree_url("o/r", "main", "", "model", ""),
        "https://huggingface.co/api/models/o/r/tree/main?recursive=true"
    );
    assert_eq!(
        tree_url("o/r", "v1", "a/b", "dataset", "http://h/"),
        "http://h/api/datasets/o/r/tree/v1?recursive=true&path=a/b"
    );
    assert_eq!(
        tree_url("o/r", "v1", "", "space", "http://h"),
        "http://h/api/spaces/o/r/tree/v1?recursive=true"
    );
    assert_eq!(
        tree_url("o/r", "v1", "", "?", "http://h"),
        "http://h/api/models/o/r/tree/v1?recursive=true"
    );
}

fn status(code: u16, wording: &str) -> Reply {
    Reply::Status { code, wording: wording.to_string() }
}

fn list(reply: Reply, body: &str) -> Result<Vec<(String, u64)>, String> {
    let body = Ok(body.as_bytes().to_vec());
    list_files("o/r", &reply, &body, "en", &registry())
        .map(|v| v.into_iter().map(|e| (e.path, e.size)).collect())
}

#[test]
fn listed_files() {
    let body = r#"[
        {"type": "directory", "path": "d", "size": 0},
        {"type": "file", "path": "a.bin", "size": 12, "oid": "x"},
        {"type": "file", "path": "b.bin"},
        {"type": "file", "path": "c.bin", "size": -1},
        {"type": "file", "path": "d.bin", "size": 1.5},
        {"type": "file", "path": ""},
        {"type": "file"},
        {"type": 3, "path": "e"},
        {"path": "f"},
        7
    ]"#;
    assert_eq!(
        list(status(200, "200 OK"), body).unwrap(),
        vec![
            ("a.bin".to_string(), 12),
            ("b.bin".to_string(), 0),
            ("c.bin".to_string(), 0),
            ("d.bin".to_string(), 0),
        ]
    );
    assert_eq!(list(status(200, "200 OK"), "[]").unwrap(), vec![]);
}

#[test]
fn refused_listings() {
    let e = |reply, body: &str| list(reply, body).unwrap_err();
    assert_eq!(e(Reply::Failed("dns".to_string()), "[]"), "Request failed: dns");
    assert_eq!(e(status(404, "404 Not Found"), ""), "Repo not found or no access: {}: o/r");
    assert_eq!(
        e(status(403, "403 Forbidden"), ""),
        "This is a gated repo, authorize first: {}: o/r"
    );
    assert_eq!(
        e(status(401, "401 Unauthorized"), "[]"),
        "API returned error: {}: 401 Unauthorized"
    );
    for body in ["", "{}", "[", "nothing"] {
        assert_eq!(
            e(status(200, "200 OK"), body),
            "Failed to parse response: {}: error decoding response body"
        );
    }
    let lost: Result<Vec<u8>, String> = Err("timed out".to_string());
    assert_eq!(
        list_files("o/r", &status(200, "200 OK"), &lost, "en", &registry()).unwrap_err(),
        "Failed to parse response: {}: timed out"
    );
}

#[test]
fn files_of_items() {
    let item = |kind: Option<&str>, path: Option<&str>, size| TreeItem {
        kind: kind.map(str::to_string),
        path: path.map(str::to_string),
        size,
    };
    let files = files_from_items(&vec![
        item(Some("file"), Some("a"), Some(3)),
        item(Some("directory"), Some("b"), Some(3)),
        item(Some("file"), None, Some(3)),
        item(None, Some("c"), None),
        item(Some("file"), Some("d"), None),
    ]);
    let found: Vec<(String, u64)> = files.into_iter().map(|f| (f.path, f.size)).collect();
    assert_eq!(found, vec![("a".to_string(), 3), ("d".to_string(), 0)]);
    let items = Ok(Some(vec![item(Some("file"), Some("a"), Some(3))]));
    let reg = registry();
    let ok = listing_from("o/r", &status(200, "200 OK"), &items, "en", &reg).unwrap();
    assert_eq!((ok.len(), ok[0].path.as_str()), (1, "a"));
    assert_eq!(
        listing_from("o/r", &status(500, "500 x"), &items, "en", &reg).unwrap_err(),
        "API returned error: {}: 500 x"
    );
    assert!(listing_from("o/r", &status(200, "200 OK"), &Ok(None), "en", &reg).is_err());
}

// ---- directories --------------------------------------------------------------------------

#[test]
fn directories() {
    assert_eq!(target_dir_with("o/r", "/data", '/'), "/data/o-r");
    assert_eq!(target_dir_with("o/r", "/data/", '/'), "/data/o-r");
    assert_eq!(target_dir_with("o/r", "", '/'), "o-r");
    assert_eq!(target_dir_with("o/r", "C:\\data", '\\'), "C:\\data\\o-r");
    for base in ["/data", "/data/", "rel", ""] {
        let expected = std::path::Path::new(base).join("o-r").to_string_lossy().to_string();
        assert_eq!(target_dir_for("o/r", base), expected);
    }
}

#[test]
fn joined_paths() {
    let names = ["b", "b/c", "/b", "", "b/", "\\b", "C:b"];
    for base in ["a", "a/", "/", "", "/a/b", "a\\"] {
        for name in names {
            let expected = std::path::Path::new(base).join(name).to_string_lossy().to_string();
            assert_eq!(join_path(base, name, '/'), expected, "{:?} {:?}", base, name);
        }
    }
    assert_eq!(join_path("C:\\a", "b", '\\'), "C:\\a\\b");
    assert_eq!(join_path("C:\\a", "\\b", '\\'), "C:\\b");
    assert_eq!(join_path("C:\\a", "D:\\b", '\\'), "D:\\b");
    assert_eq!(join_path("C:", "b", '\\'), "C:b");
    assert_eq!(join_path("a/", "b", '\\'), "a/b");
    // Prefixes of other machines, of devices, and of verbatim paths.
    let shared = r"\\server\share";
    assert_eq!(join_path(r"C:\dl", r"\\server\share-x", '\\'), r"\\server\share-x");
    assert_eq!(target_dir_with(r"\\server\share/x", r"C:\dl", '\\'), r"\\server\share-x");
    assert_eq!(join_path(shared, "b", '\\'), r"\\server\share\b");
    assert_eq!(join_path(r"\\server\share\a", r"\b", '\\'), r"\\server\share\b");
    assert_eq!(join_path(r"\\?\C:\a", r"\b", '\\'), r"\\?\C:\b");
    assert_eq!(join_path(r"\\?\UNC\s\t\a", r"\b", '\\'), r"\\?\UNC\s\t\b");
    assert_eq!(join_path(r"\\?\name\a", r"\b", '\\'), r"\\?\name\b");
    assert_eq!(join_path(r"\\.\COM1\a", r"\b", '\\'), r"\\.\COM1\b");
    assert_eq!(join_path(r"C:\a", r"\\?\D:\b", '\\'), r"\\?\D:\b");
    assert_eq!(join_path(r"C:\a", r"\\server", '\\'), r"C:\\server");
}

#[test]
fn verbatim_bases_are_put_together_from_components() {
    for (base, name, expected) in [
        (r"\\?\C:\x/", "n", r"\\?\C:\x/\n"),
        (r"\\?\C:\x\y", "n", r"\\?\C:\x\y\n"),
        (r"\\?\C:\x\\y\", "n", r"\\?\C:\x\y\n"),
        (r"\\?\C:\bar", "../foo", r"\\?\C:\foo"),
        (r"\\?\C:\bar", "../../foo", r"\\?\C:\foo"),
        (r"\\?\C:\", "../foo", r"\\?\C:\foo"),
        (r"\\?\C:\x", "..", r"\\?\C:\"),
        (r"\\?\C:", "..", r"\\?\C:"),
        (r"\\?\C:", r"D:\foo/./", r"D:\foo/./"),
        (r"\\?\A:", r"..\foo\.", r"\\?\A:\foo"),
        (r"\\?\A:\x\y", r".\foo\.", r"\\?\A:\x\y\foo"),
        (r"\\?\A:\x\y", "/foo", r"\\?\A:\foo"),
        (r"\\?\A:\x\y", r"\a\..\b", r"\\?\A:\b"),
        (r"\\?\A:\x\y", "", r"\\?\A:\x\y\"),
        (r"\\?\UNC\s\t", "a/b", r"\\?\UNC\s\t\a\b"),
        (r"\\?\name", "n", r"\\?\name\n"),
        (r"\\?\C:/foo", "bar", r"\\?\C:\foo\bar"),
        (r"\\?\C:/foo/x\y", "bar", r"\\?\C:\foo/x\y\bar"),
        (r"\\?\C:/", "bar", r"\\?\C:\bar"),
        (r"\\?\UNC/s\t\a", r"\b", r"\\?\UNC/s\t\b"),
        (r"\\?\A:\..", "..", r"\\?\A:\.."),
    ] {
        assert_eq!(join_path(base, name, '\\'), expected, "{} {}", base, name);
    }
    assert_eq!(target_dir_with("o/r", r"\\?\D:\dl", '\\'), r"\\?\D:\dl\o-r");
}

// ---- token --------------------------------------------------------------------------------

#[test]
fn stored_tokens() {
    let some = |s: &str| Some(s.to_string());
    assert_eq!(token_path(&some("/home/u"), '/'), some("/home/u/.cache/huggingface/token"));
    assert_eq!(token_path(&None, '/'), None);
    assert_eq!(read_token(&some(" hf_x\n")), some("hf_x"));
    assert_eq!(read_token(&some(" \n")), None);
    assert_eq!(read_token(&None), None);
    assert_eq!(whoami_url("http://h/"), "http://h/api/whoami-v2");
    let ask = whoami_request(" hf_x ", "http://h").unwrap();
    assert_eq!((ask.url.as_str(), ask.bearer), ("http://h/api/whoami-v2", some("hf_x")));
    assert!(whoami_request(" ", "http://h").is_none());
    let list = |token: &Option<String>| tree_request("o/r", "main", "", "model", "http://h", token);
    let with = list(&some("hf_x\n"));
    assert_eq!(with.url, "http://h/api/models/o/r/tree/main?recursive=true");
    assert_eq!(with.bearer, some("hf_x"));
    assert_eq!(list(&some("\n")).bearer, None);
    assert_eq!(list(&None).bearer, None);
}

#[test]
fn checked_tokens() {
    let reg = registry();
    let token = Some("hf_x".to_string());
    let check = |t: &Option<String>, r: Reply| {
        let s = check_token(t, &r, "en", &reg);
        (s.status, s.error)
    };
    assert_eq!(check(&None, status(200, "200 OK")), ("missing".to_string(), None));
    assert_eq!(check(&token, status(200, "200 OK")), ("logged_in".to_string(), None));
    assert_eq!(
        check(&token, status(401, "401 Unauthorized")),
        ("invalid".to_string(), Some("HTTP 401 Unauthorized".to_string()))
    );
    assert_eq!(
        check(&token, Reply::Failed("dns".to_string())),
        ("invalid".to_string(), Some("token invalid (HTTP {}): dns".to_string()))
    );
}

#[test]
fn logins() {
    let reg = registry();
    let login = |t: &str, r: Reply| {
        let l = login_token(t, &r, "en", &reg);
        (l.status.status, l.status.error, l.save)
    };
    assert_eq!(
        login("  ", status(200, "200 OK")),
        ("missing".to_string(), Some("token is empty".to_string()), None)
    );
    assert_eq!(
        login(" hf_x ", status(200, "200 OK")),
        ("logged_in".to_string(), None, Some("hf_x".to_string()))
    );
    assert_eq!(
        login("hf_x", status(401, "401 Unauthorized")),
        (
            "invalid".to_string(),
            Some("token invalid (HTTP {}): 401 Unauthorized".to_string()),
            None
        )
    );
    assert_eq!(
        login("hf_x", Reply::Failed("dns".to_string())),
        ("invalid".to_string(), Some("token invalid (HTTP {}): dns".to_string()), None)
    );
}
