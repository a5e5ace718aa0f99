use hf_downloader::config::{config_path, default_download_dir, AppConfig, ConfigState};
use hf_downloader::display::{row_button, RowButton, Tone};
use hf_downloader::download::{FileState, FileStatus};
use hf_downloader::engine::UiMsg;
use hf_downloader::hf_api::{FileEntry, RepoInfo, TokenStatus};
use hf_downloader::i18n::{build_registry, LangRegistry};
use hf_downloader::session::{
    is_session_file, list_recoverable_sessions, path_for_pid, path_for_pid_with, process_alive,
    session_id_of, sessions_dir, Found, Session, SessionFileEntry,
};
use hf_downloader::ui::{listing_message, App, Launch};

fn registry() -> LangRegistry {
    build_registry(&Vec::new())
}

fn some(s: &str) -> Option<String> {
    Some(s.to_string())
}

fn window() -> App {
    App::new(AppConfig::first("/data"), &some("en-US"))
}

fn repo() -> RepoInfo {
    RepoInfo {
        repo_id: "o/r".to_string(),
        repo_type: "model".to_string(),
        revision: "main".to_string(),
        subpath: String::new(),
    }
}

fn entry(path: &str, size: u64) -> FileEntry {
    FileEntry { path: path.to_string(), size }
}

fn listed(app: &mut App) {
    let entries = vec![entry("a", 1), entry("b", 2), entry("c", 3)];
    app.drain(vec![UiMsg::RepoListed { info: repo(), entries }], &registry());
}

fn file(path: &str, status: FileStatus) -> FileState {
    FileState {
        path: path.to_string(),
        status,
        downloaded: 10,
        total: 30,
        speed: 5.0f64.to_bits(),
        error: None,
    }
}

fn same_launch(a: &Launch, b: &Launch) -> bool {
    a.task_id == b.task_id
        && a.repo_id == b.repo_id
        && a.repo_type == b.repo_type
        && a.revision == b.revision
        && a.target_dir == b.target_dir
        && a.endpoint == b.endpoint
        && a.files == b.files
}

// ---- settings -----------------------------------------------------------------------------

#[test]
fn default_directories() {
    assert_eq!(default_download_dir(&some("/exe"), &some("/dl"), &some("/home")), "/exe");
    assert_eq!(default_download_dir(&None, &some("/dl"), &some("/home")), "/dl");
    assert_eq!(default_download_dir(&None, &None, &some("/home")), "/home");
    assert_eq!(default_download_dir(&None, &None, &None), ".");
}

#[test]
fn place_of_the_settings() {
    let p = config_path(&some("/exe"), &some("/cfg"), &some("/home"), '/');
    assert_eq!((p.dir, p.file.as_str()), (None, "/exe/config.json"));
    let p = config_path(&None, &some("/cfg"), &some("/home"), '/');
    assert_eq!(p.dir.as_deref(), Some("/cfg/hf-downloader"));
    assert_eq!(p.file, "/cfg/hf-downloader/config.json");
    assert_eq!(config_path(&None, &None, &some("/home"), '/').file, "/home/hf-downloader/config.json");
    assert_eq!(config_path(&None, &None, &None, '/').file, "./hf-downloader/config.json");
}

#[test]
fn stored_settings() {
    let c = ConfigState::load(&None, "/exe").config;
    assert_eq!((c.download_dir.as_str(), c.endpoint.as_str(), c.download_dir_set), ("/exe", "", false));
    assert_eq!((c.hf_logged_in, c.language), (None, None));
    let stored = |set| AppConfig {
        download_dir: "/old".to_string(),
        endpoint: "http://h".to_string(),
        download_dir_set: set,
        hf_logged_in: Some(true),
        language: some("zh"),
    };
    let c = ConfigState::load(&Some(stored(false)), "/exe").config;
    assert_eq!((c.download_dir.as_str(), c.endpoint.as_str()), ("/exe", "http://h"));
    let c = ConfigState::load(&Some(stored(true)), "/exe").config;
    assert_eq!((c.download_dir.as_str(), c.language.as_deref()), ("/old", Some("zh")));
}

#[test]
fn language_of_the_window() {
    let reg = registry();
    assert_eq!(window().lang, "en");
    assert_eq!(App::new(AppConfig::first("/d"), &some("zh-CN")).lang, "zh");
    let mut app = window();
    app.choose_language("zh".to_string());
    assert_eq!((app.lang.as_str(), app.config.language.as_deref()), ("zh", Some("zh")));
    assert_eq!(app.language_name(&reg), "中文");
    app.lang = "fr".to_string();
    assert_eq!(app.language_name(&reg), "fr");
    let chosen = AppConfig { language: some("en"), ..AppConfig::first("/d") };
    assert_eq!(App::new(chosen, &some("zh-CN")).lang, "en");
}

#[test]
fn settings_are_trimmed_when_saved() {
    let mut app = window();
    app.show_settings = true;
    app.config.download_dir = " /x ".to_string();
    app.config.endpoint = "\thttp://h\n".to_string();
    assert_eq!(app.endpoint(), "http://h");
    app.save_settings("/data");
    assert_eq!(app.config.download_dir, "/x");
    assert_eq!(app.config.endpoint, "http://h");
    assert!(!app.show_settings && app.config.download_dir_set);
    // The next run has it, whatever the default directory is then.
    let later = ConfigState::load(&Some(app.config.clone()), "/other").config;
    assert_eq!((later.download_dir.as_str(), later.endpoint.as_str()), ("/x", "http://h"));
    // The default directory, and a blank one, are not chosen.
    for dir in [" /data ", " "] {
        let mut app = window();
        app.config.download_dir = dir.to_string();
        app.save_settings("/data");
        assert_eq!(app.config.download_dir, dir.trim());
        assert!(!app.config.download_dir_set);
        let later = ConfigState::load(&Some(app.config.clone()), "/data").config;
        assert_eq!(later.download_dir, "/data");
    }
    app.choose_folder("/y".to_string());
    assert!(app.config.download_dir_set && app.config.download_dir == "/y");
}

// ---- requests -----------------------------------------------------------------------------

#[test]
fn listing_and_login_need_input() {
    let reg = registry();
    let mut app = window();
    app.repo_input = "  ".to_string();
    assert!(app.list_files().is_none());
    assert_eq!(app.status_text(&reg), "Enter a repo address");
    app.repo_input = " o/r ".to_string();
    app.config.endpoint = " http://h ".to_string();
    let l = app.list_files().unwrap();
    assert_eq!((l.input.as_str(), l.endpoint.as_str(), app.repo_input.as_str()), ("o/r", "http://h", "o/r"));
    assert!(app.busy);

    app.show_token_dialog = true;
    app.token_input = " ".to_string();
    assert!(app.login().is_none());
    assert!(app.show_token_dialog);
    app.token_input = " hf_x ".to_string();
    let l = app.login().unwrap();
    assert_eq!((l.token.as_str(), l.endpoint.as_str()), ("hf_x", "http://h"));
    assert!(!app.show_token_dialog && app.token_input.is_empty());
}

#[test]
fn answers_of_the_worker() {
    let m = listing_message(Err("e".to_string()), Ok(Vec::new()));
    assert!(matches!(m, UiMsg::ApiError(e) if e == "e"));
    let m = listing_message(Ok(repo()), Err("f".to_string()));
    assert!(matches!(m, UiMsg::ApiError(e) if e == "f"));
    let m = listing_message(Ok(repo()), Ok(vec![entry("a", 1)]));
    assert!(matches!(m, UiMsg::RepoListed { entries, .. } if entries.len() == 1));
}

// ---- messages -----------------------------------------------------------------------------

#[test]
fn fresh_list_is_clean() {
    let reg = registry();
    let mut app = window();
    listed(&mut app);
    app.select_all();
    app.start_download(7, 100, '/').unwrap();
    assert_eq!(app.file_states.len(), 3);
    app.busy = true;
    listed(&mut app);
    assert_eq!((app.selected.len(), app.file_states.len()), (0, 0));
    assert!(app.active_task_id.is_none() && !app.busy);
    assert_eq!(app.status_text(&reg), "Listed: 3 files");
    app.lang = "zh".to_string();
    assert_eq!(app.status_text(&reg), "已列出: 3 个文件");
}

#[test]
fn end_of_the_download() {
    let reg = registry();
    let mut app = window();
    listed(&mut app);
    app.set_selected("a", true);
    app.start_download(7, 100, '/').unwrap();
    let done = |id: &str| UiMsg::Done { task_id: id.to_string() };
    let after = app.drain(vec![done("task-other")], &reg);
    assert!(!after.delete_session && app.current_session.is_some());
    let after = app.drain(vec![UiMsg::File(file("a", FileStatus::Done)), done("task-o/r")], &reg);
    assert!(after.delete_session && !after.save_config);
    assert!(app.current_session.is_none());
    assert_eq!(app.status_text(&reg), "Download complete");
    assert_eq!(app.file_states.get("a").unwrap().status, FileStatus::Done);
}

#[test]
fn errors_and_tokens() {
    let reg = registry();
    let mut app = window();
    app.busy = true;
    let after = app.drain(vec![UiMsg::ApiError("x".to_string())], &reg);
    assert_eq!(app.status_text(&reg), "Error: x");
    assert!(!app.busy && !after.save_config);
    assert_eq!(app.token_badge(&reg), ("Checking...".to_string(), Tone::Gray));
    let mut check = |status: &str, error: Option<&str>| {
        let s = TokenStatus { status: status.to_string(), error: error.map(str::to_string) };
        let after = app.drain(vec![UiMsg::TokenChecked(s)], &registry());
        assert!(after.save_config && !after.delete_session);
        (app.config.hf_logged_in, app.token_badge(&registry()))
    };
    assert_eq!(check("logged_in", None), (Some(true), ("Logged in".to_string(), Tone::Green)));
    assert_eq!(
        check("invalid", Some("HTTP 401")),
        (Some(false), ("Token invalid: HTTP 401".to_string(), Tone::Red))
    );
    assert_eq!(check("missing", None), (Some(false), ("Not logged in".to_string(), Tone::Yellow)));
}

// ---- starting -----------------------------------------------------------------------------

#[test]
fn nothing_to_start() {
    let reg = registry();
    let mut app = window();
    assert_eq!(app.status_text(&reg), "");
    assert!(app.start_download(7, 100, '/').is_none());
    assert_eq!(app.status_text(&reg), "List files first");
    listed(&mut app);
    assert!(app.start_download(7, 100, '/').is_none());
    assert_eq!(app.status_text(&reg), "Select files to download");
    assert!(app.current_session.is_none());
}

#[test]
fn ticked_files_are_started() {
    let reg = registry();
    let mut app = window();
    app.config.endpoint = " http://h ".to_string();
    app.config.download_dir = " /data ".to_string();
    assert_eq!(app.save_dir('/'), "/data");
    listed(&mut app);
    app.select_all();
    app.set_selected("b", false);
    assert!(app.is_selected("a") && !app.is_selected("b"));
    assert_eq!(app.chosen(), vec![("a".to_string(), 1), ("c".to_string(), 3)]);
    let l = app.start_download(7, 100, '/').unwrap();
    assert_eq!((l.task_id.as_str(), l.target_dir.as_str()), ("task-o/r", "/data/o-r"));
    assert_eq!((l.endpoint.as_str(), l.files.len()), ("http://h", 2));
    assert_eq!(app.status_text(&reg), "Starting download...");
    assert_eq!(app.active_task_id.as_deref(), Some("task-o/r"));
    let a = app.file_states.get("a").unwrap();
    assert_eq!((a.status, a.downloaded, a.total), (FileStatus::Pending, 0, 1));
    assert!(app.file_states.get("b").is_none());
    let s = app.current_session.as_ref().unwrap();
    assert_eq!((s.session_id.as_str(), s.pid, s.updated_at), ("session-7", 7, 100));
    assert_eq!((s.endpoint.as_str(), s.download_dir.as_str()), ("http://h", "/data"));
    assert_eq!((s.target_dir.as_str(), s.files.len()), ("/data/o-r", 2));
    assert_eq!(app.save_dir('/'), "/data/o-r");
    let r = app.retry("a", '/').unwrap();
    assert_eq!((r.task_id.as_str(), r.path.as_str()), ("task-o/r", "a"));
    assert_eq!((r.endpoint.as_str(), r.target_dir.as_str()), ("http://h", "/data/o-r"));
    app.select_none();
    assert!(app.chosen().is_empty());
    assert!(window().retry("a", '/').is_none());
}

#[test]
fn recorded_download_is_resumed_as_it_was() {
    let reg = registry();
    let mut app = window();
    app.config.endpoint = "http://h".to_string();
    listed(&mut app);
    app.set_selected("c", true);
    app.set_selected("a", true);
    let first = app.start_download(7, 100, '/').unwrap();
    let record = app.current_session.clone().unwrap();

    let mut later = App::new(AppConfig::first("/elsewhere"), &None);
    let r = later.init_recovery(vec![record.clone()], 8, 200, '/').unwrap();
    assert_eq!(r.taken_over, 7);
    assert!(same_launch(&r.launch.unwrap(), &first));
    assert_eq!(later.current_session.as_ref().unwrap().pid, 8);
    assert_eq!((later.config.download_dir.as_str(), later.config.endpoint.as_str()), ("/data", "http://h"));

    let mut idle = window();
    let r = idle.restore_session(&record, false, 8, 200, '/');
    assert!(r.launch.is_none());
    assert_eq!(idle.status_text(&reg), "Resumed previous download session and continuing");
    assert_eq!(idle.file_states.get("c").unwrap().status, FileStatus::Pending);
    assert!(idle.is_selected("a") && idle.file_entries.len() == 2);
}

fn session(repo_id: &str, pid: u32) -> Session {
    Session {
        session_id: session_id_of(pid),
        pid,
        repo_id: repo_id.to_string(),
        repo_type: "model".to_string(),
        revision: "main".to_string(),
        subpath: String::new(),
        endpoint: String::new(),
        download_dir: "/data".to_string(),
        target_dir: "/data/x".to_string(),
        files: vec![SessionFileEntry { path: "f".to_string(), size: 5 }],
        updated_at: 1700,
    }
}

#[test]
fn choice_of_records() {
    let reg = registry();
    let mut app = window();
    assert!(app.init_recovery(Vec::new(), 1, 2, '/').is_none());
    assert!(!app.show_recovery);
    assert!(app.init_recovery(vec![session("o/a", 3), session("o/b", 4)], 1, 2, '/').is_none());
    assert!(app.show_recovery && app.repo_info.is_none());
    assert_eq!(
        app.session_line(&app.recovery_sessions[1], &reg),
        "files: 1 · Saved at: 1700"
    );
    let r = app.resume(1, 1, 2, '/');
    assert_eq!(r.taken_over, 4);
    assert_eq!(r.launch.unwrap().repo_id, "o/b");
    assert!(!app.show_recovery && app.recovery_sessions.is_empty());
    app.init_recovery(vec![session("o/a", 3), session("o/b", 4)], 1, 2, '/');
    app.dismiss_recovery();
    assert!(!app.show_recovery && app.recovery_sessions.is_empty());
}

// ---- records ------------------------------------------------------------------------------

#[test]
fn files_of_the_records() {
    assert_eq!(sessions_dir(&some("/exe"), '/'), "/exe/sessions");
    assert_eq!(sessions_dir(&None, '/'), "sessions");
    assert_eq!(path_for_pid_with(42, &some("/exe"), '/'), "/exe/sessions/session-42.json");
    assert_eq!(path_for_pid_with(42, &None, '\\'), "sessions\\session-42.json");
    let expected = std::path::Path::new("/exe").join("sessions").join("session-42.json");
    assert_eq!(path_for_pid(42, &some("/exe")), expected.to_string_lossy());
    assert_ne!(path_for_pid(1, &None), path_for_pid(11, &None));
    for (name, expected) in [
        ("session-42.json", true),
        ("session-.json", true),
        ("session-42.txt", false),
        ("my-session-42.json", false),
        ("session-json", false),
    ] {
        assert_eq!(is_session_file(name), expected, "{}", name);
    }
}

#[test]
fn running_processes() {
    let out = "Image Name   PID Session Name\n==== ==\nhf.exe     42 Console  1  1,042 K\r\n";
    let listing = some(out);
    assert!(process_alive(42, 1, &listing));
    assert!(!process_alive(4, 1, &listing));
    assert!(process_alive(1, 1, &None));
    assert!(!process_alive(2, 1, &None));
    assert!(process_alive(42, 42, &some("")));
    assert!(process_alive(42, 1, &some("    42\n")));
    assert!(!process_alive(42, 1, &some("")));
}

#[test]
fn recoverable_records() {
    let found = |name: &str, session, alive| Found { name: name.to_string(), session, alive };
    let list = list_recoverable_sessions(&vec![
        found("session-1.json", Some(session("o/a", 1)), false),
        found("session-2.json", Some(session("o/b", 2)), true),
        found("session-3.json", None, false),
        found("notes.json", Some(session("o/c", 4)), false),
        found("session-5.json", Some(session("o/d", 5)), false),
    ]);
    let pids: Vec<u32> = list.iter().map(|s| s.pid).collect();
    assert_eq!(pids, vec![1, 5]);
}

// ---- display ------------------------------------------------------------------------------

#[test]
fn rows() {
    let reg = registry();
    let app = window();
    for (status, text, tone, button) in [
        (FileStatus::Pending, "Pending", Tone::Gray, RowButton::Cancel),
        (FileStatus::Downloading, "Downloading", Tone::Blue, RowButton::Cancel),
        (FileStatus::Done, "Download complete", Tone::Green, RowButton::Nothing),
        (FileStatus::Exists, "Exists", Tone::Green, RowButton::Nothing),
        (FileStatus::Failed, "Failed", Tone::Red, RowButton::Retry),
        (FileStatus::Cancelled, "Paused", Tone::Yellow, RowButton::Retry),
    ] {
        assert_eq!(app.status_pair(status, &reg), (text.to_string(), tone));
        assert_eq!(row_button(status), button);
    }
    assert_eq!(app.size_line(1536, &reg), "Size: 1.5 KB");
    let f = file("a", FileStatus::Downloading);
    assert_eq!(app.eta_line(&f, true, Some(83), &reg), "ETA 1:23");
    assert_eq!(app.eta_line(&f, false, None, &reg), "");
    assert_eq!(app.eta_line(&file("a", FileStatus::Failed), true, Some(83), &reg), "");
    assert_eq!(app.about_line("version", "0.2.3", &reg), "Version: 0.2.3");
}

#[test]
fn summaries() {
    let reg = registry();
    let mut app = window();
    let mut put = |app: &mut App, path: &str, status| {
        app.drain(vec![UiMsg::File(file(path, status))], &reg);
    };
    let reg = registry();
    assert_eq!(app.download_summary(None, &reg), None);
    put(&mut app, "a", FileStatus::Pending);
    assert_eq!(app.download_summary(None, &reg), None);
    put(&mut app, "b", FileStatus::Downloading);
    assert!(app.is_active());
    assert_eq!(app.active_speeds(), vec![5.0f64.to_bits()]);
    assert_eq!(app.download_summary(Some(1536), &reg).as_deref(), Some("Total speed: 1.5 KB/s"));
    put(&mut app, "b", FileStatus::Done);
    assert_eq!(app.download_summary(None, &reg), None);
    put(&mut app, "a", FileStatus::Exists);
    assert_eq!(app.download_summary(None, &reg).as_deref(), Some("All done"));
    assert!(!app.is_active() && app.active_speeds().is_empty());
    app.lang = "zh".to_string();
    assert_eq!(app.download_summary(None, &reg).as_deref(), Some("已全部完成"));
}
