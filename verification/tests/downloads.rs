use hf_downloader::download::{
    local_path, start_downloads, DownloadTask, FileState, FileStatus, TaskManager, MAX_CONCURRENT,
};
use hf_downloader::engine::{DownloadEngine, UiMsg};
use hf_downloader::i18n::{build_registry, LangRegistry};
use hf_downloader::transfer::{
    backoff, file_url, has_stalled, Action, Event, Phase, Step, Transfer,
};

/// A server for one file, and the disk it is downloaded to.
struct Site {
    url: String,
    blob: Vec<u8>,
    /// So many requests are answered with 500.
    fail_first: usize,
    /// Whether `Range` is honoured, and whether lengths are announced.
    ranges: bool,
    lengths: bool,
    /// The body of one reply breaks off after so many bytes.
    break_after: Option<usize>,
    disk: Vec<u8>,
    requests: Vec<Option<String>>,
    pauses: Vec<u64>,
    body: Vec<u8>,
    chunk: Vec<u8>,
}

impl Site {
    fn new(blob: &[u8], fail_first: usize) -> Site {
        Site {
            url: "http://127.0.0.1:8080".to_string(),
            blob: blob.to_vec(),
            fail_first,
            ranges: true,
            lengths: true,
            break_after: None,
            disk: Vec::new(),
            requests: Vec::new(),
            pauses: Vec::new(),
            body: Vec::new(),
            chunk: Vec::new(),
        }
    }

    fn reply(&mut self, url: &str, range: &Option<String>) -> Event {
        assert_eq!(url, format!("{}/repo/resolve/main/file.bin", self.url));
        self.requests.push(range.clone());
        if self.fail_first > 0 {
            self.fail_first -= 1;
            return Event::Replied {
                code: 500,
                wording: "500 Internal Server Error".to_string(),
                length: Some(0),
            };
        }
        let start: usize = match range {
            Some(r) if self.ranges => r
                .strip_prefix("bytes=")
                .unwrap()
                .strip_suffix('-')
                .unwrap()
                .parse()
                .unwrap(),
            _ => 0,
        };
        let total = self.blob.len();
        let (code, wording) = if start > 0 && start < total {
            self.body = self.blob[start..].to_vec();
            (206, "206 Partial Content")
        } else {
            self.body = self.blob.clone();
            (200, "200 OK")
        };
        let length = if self.lengths { Some(self.body.len() as u64) } else { None };
        Event::Replied { code, wording: wording.to_string(), length }
    }

    fn next_chunk(&mut self) -> Event {
        if let Some(n) = self.break_after {
            if n == 0 {
                self.break_after = None;
                return Event::Interrupted { message: "connection reset".to_string() };
            }
        }
        if self.body.is_empty() {
            return Event::Ended;
        }
        let mut n = self.body.len().min(4096);
        if let Some(left) = self.break_after {
            n = n.min(left);
            self.break_after = Some(left - n);
        }
        self.chunk = self.body.drain(..n).collect();
        Event::Chunk { len: n as u64 }
    }

    fn perform(&mut self, action: &Action) -> Option<Event> {
        Some(match action {
            Action::Probe => probed(self.disk.len() as u64),
            Action::Fetch { url, range, .. } => self.reply(url, range),
            Action::Append => Event::Opened,
            Action::Create => {
                self.disk.clear();
                Event::Opened
            }
            Action::Read => self.next_chunk(),
            Action::Write => {
                self.disk.append(&mut self.chunk);
                Event::Written { sample: None }
            }
            Action::Flush => Event::Flushed,
            Action::Sleep { secs } => {
                self.pauses.push(*secs);
                Event::Woke
            }
            Action::Stop => return None,
        })
    }
}

fn probed(size: u64) -> Event {
    Event::Probed { size, token_file: None }
}

fn registry() -> LangRegistry {
    build_registry(&Vec::new())
}

fn blob_of(n: usize) -> Vec<u8> {
    (0u8..=255).cycle().take(n).collect()
}

fn row(status: FileStatus, downloaded: u64, total: u64) -> FileState {
    FileState {
        path: "file.bin".to_string(),
        status,
        downloaded,
        total,
        speed: 0,
        error: None,
    }
}

fn task_at(url: &str, f: FileState) -> DownloadTask {
    let mut t = DownloadTask::new(
        "repo".to_string(),
        "model".to_string(),
        "main".to_string(),
        "/tmp/hf_test".to_string(),
        url.to_string(),
    );
    t.put(f);
    t
}

fn run_download(task: &mut DownloadTask, site: &mut Site) -> Vec<UiMsg> {
    let reg = registry();
    let (mut transfer, step) = Transfer::begin(task, "task-test", "file.bin", "en");
    let mut messages = step.messages;
    let mut action = step.action;
    while let Some(event) = site.perform(&action) {
        assert!(transfer.accepts(&event));
        let step = transfer.advance(task, event, &reg);
        messages.extend(step.messages);
        action = step.action;
    }
    assert_eq!(transfer.phase(), Phase::Over);
    messages
}

fn file_state(task: &DownloadTask) -> (FileStatus, u64, u64) {
    let f = task.files.get("file.bin").unwrap();
    (f.status, f.downloaded, f.total)
}

fn count_done(messages: &[UiMsg]) -> usize {
    messages.iter().filter(|m| matches!(m, UiMsg::Done { .. })).count()
}

// ---- whole downloads ----------------------------------------------------------------------

#[test]
fn full_download_succeeds() {
    let blob = blob_of(200_000);
    let mut site = Site::new(&blob, 0);
    let mut task = task_at(&site.url, row(FileStatus::Pending, 0, blob.len() as u64));
    let messages = run_download(&mut task, &mut site);
    let (st, dl, total) = file_state(&task);
    assert_eq!(st, FileStatus::Done, "expected Done");
    assert_eq!(dl, blob.len() as u64);
    assert_eq!(total, blob.len() as u64);
    assert_eq!(site.disk, blob);
    assert_eq!(site.requests, vec![None]);
    assert_eq!(count_done(&messages), 1);
}

#[test]
fn resume_after_cancel_continues() {
    let blob = blob_of(200_000);
    let mut site = Site::new(&blob, 0);
    let partial = (blob.len() as f64 * 0.4) as usize;
    site.disk = blob[..partial].to_vec();
    let mut task = task_at(
        &site.url,
        row(FileStatus::Cancelled, partial as u64, blob.len() as u64),
    );
    task.cancelled = true;
    // A new start clears the flag.
    task.cancelled = false;
    run_download(&mut task, &mut site);
    let (st, dl, _) = file_state(&task);
    assert_eq!(st, FileStatus::Done, "resume should finish");
    assert_eq!(dl, blob.len() as u64);
    assert_eq!(site.disk, blob, "resumed file must equal original");
    assert_eq!(site.requests, vec![Some("bytes=80000-".to_string())]);
}

#[test]
fn get_or_create_applies_new_endpoint() {
    let mut mgr = TaskManager::new();
    let t1 = mgr.get_or_create(
        "task-x",
        "repo",
        "model",
        "main",
        "/tmp/a",
        "https://huggingface.co",
    );
    {
        let t = mgr.task(t1);
        assert_eq!(t.endpoint, "https://huggingface.co");
    }
    // Reuse with a new mirror endpoint + download dir.
    let t2 = mgr.get_or_create(
        "task-x",
        "repo",
        "model",
        "main",
        "/tmp/b",
        "https://hf-mirror.com",
    );
    {
        let t = mgr.task(t2);
        assert_eq!(t.endpoint, "https://hf-mirror.com", "mirror endpoint must take effect on reuse");
        assert_eq!(t.target_dir, "/tmp/b", "download dir must take effect on reuse");
        assert!(!t.cancelled, "cancelled must be reset on reuse");
    }
}

#[test]
fn retry_on_transient_errors_succeeds() {
    let blob = blob_of(120_000);
    let mut site = Site::new(&blob, 2);
    let mut task = task_at(&site.url, row(FileStatus::Pending, 0, blob.len() as u64));
    run_download(&mut task, &mut site);
    let (st, dl, _) = file_state(&task);
    assert_eq!(st, FileStatus::Done, "should succeed after retries");
    assert_eq!(dl, blob.len() as u64);
    assert_eq!(site.disk, blob);
    assert_eq!(site.pauses, vec![1, 2]);
}

#[test]
fn retry_cancelled_file_resumes_with_new_endpoint() {
    let blob = blob_of(150_000);
    let mut site = Site::new(&blob, 0);
    let reg = registry();
    let mut engine = DownloadEngine::new();
    // The task is there with the old endpoint, as if the first download used huggingface.co.
    let job = engine.start(
        "task-r",
        "repo",
        "model",
        "main",
        "/tmp/hf_test",
        "https://huggingface.co",
        &Vec::new(),
    );
    {
        let t = engine.task_mut(job.task);
        t.cancelled = true;
        t.put(row(FileStatus::Cancelled, 0, blob.len() as u64));
    }
    // Stop, switch the mirror, retry.
    let new_endpoint = site.url.clone();
    let again = engine.retry("task-r", "file.bin", &new_endpoint, "/tmp/hf_test").unwrap();
    assert_eq!(again.task, job.task);
    assert_eq!(again.paths, vec!["file.bin".to_string()]);
    let (mut transfer, step) = engine.begin(again.task, "task-r", "file.bin", "en");
    let mut action = step.action;
    while let Some(event) = site.perform(&action) {
        action = engine.advance(again.task, &mut transfer, event, &reg).action;
    }
    let t = engine.task(again.task);
    assert_eq!(
        t.files.get("file.bin").unwrap().status,
        FileStatus::Done,
        "retry of a cancelled file must actually download"
    );
    assert_eq!(t.endpoint, new_endpoint, "retry must apply the new endpoint");
    assert_eq!(site.disk, blob);
}

#[test]
fn broken_body_goes_on_from_the_disk() {
    let blob = blob_of(50_000);
    let mut site = Site::new(&blob, 0);
    site.break_after = Some(12_345);
    let mut task = task_at(&site.url, row(FileStatus::Pending, 0, blob.len() as u64));
    run_download(&mut task, &mut site);
    assert_eq!(file_state(&task), (FileStatus::Done, 50_000, 50_000));
    assert_eq!(site.disk, blob);
    assert_eq!(site.requests, vec![None, Some("bytes=12345-".to_string())]);
    assert_eq!(site.pauses, vec![1]);
}

#[test]
fn three_setbacks_at_different_points_are_overcome() {
    let blob = blob_of(50_000);
    let reg = registry();
    let mut site = Site::new(&blob, 1);
    site.break_after = Some(12_345);
    let mut task = task_at(&site.url, row(FileStatus::Pending, 0, 0));
    let (mut transfer, step) = Transfer::begin(&mut task, "id", "file.bin", "en");
    let mut action = step.action;
    let mut unsent = 1;
    while let Some(event) = site.perform(&action) {
        // The third request is lost.
        let lost = site.requests.len() == 3 && unsent > 0 && matches!(event, Event::Replied { .. });
        let event = if lost {
            unsent -= 1;
            Event::RequestFailed { message: "no route".to_string() }
        } else {
            event
        };
        action = transfer.advance(&mut task, event, &reg).action;
    }
    assert_eq!(site.pauses, vec![1, 2, 5]);
    assert_eq!(file_state(&task), (FileStatus::Done, 50_000, 50_000));
    assert_eq!(site.disk, blob);
}

#[test]
fn parallel_downloads_with_live_speed_succeed() {
    let reg = registry();
    let blob = blob_of(30_000);
    let mut engine = DownloadEngine::new();
    let names = ["a", "b", "c"];
    let files: Vec<(String, u64)> = names.iter().map(|n| (n.to_string(), 30_000)).collect();
    let job = engine.start("id", "r", "model", "main", "/d", "http://h", &files);
    let mut running = Vec::new();
    for name in names {
        let (t, step) = engine.begin(job.task, "id", name, "en");
        running.push((t, step.action, Site::new(&blob, 0)));
    }
    let mut done = 0;
    let mut open = true;
    while open {
        open = false;
        for (t, action, site) in running.iter_mut() {
            let event = match &*action {
                Action::Stop => continue,
                Action::Fetch { range, .. } => {
                    let url = format!("{}/repo/resolve/main/file.bin", site.url);
                    site.reply(&url, range)
                }
                other => match site.perform(other).unwrap() {
                    Event::Written { .. } => Event::Written { sample: Some(1.5f64.to_bits()) },
                    event => event,
                },
            };
            let step = engine.advance(job.task, t, event, &reg);
            done += count_done(&step.messages);
            *action = step.action;
            open = true;
        }
    }
    for (_, _, site) in &running {
        assert_eq!(site.disk, blob);
    }
    for name in names {
        let f = engine.task(job.task).files.get(name).unwrap();
        assert_eq!((f.status, f.downloaded, f.total), (FileStatus::Done, 30_000, 30_000));
    }
    assert_eq!(done, 1);
}

#[test]
fn server_without_ranges_starts_afresh() {
    let blob = blob_of(50_000);
    let mut site = Site::new(&blob, 0);
    site.ranges = false;
    for (lengths, listed) in [(true, 0), (true, 50_000), (false, 0), (false, 50_000)] {
        site.lengths = lengths;
        site.disk = blob[..20_000].to_vec();
        let mut task = task_at(&site.url, row(FileStatus::Pending, 0, listed));
        run_download(&mut task, &mut site);
        assert_eq!(file_state(&task), (FileStatus::Done, 50_000, 50_000));
        assert_eq!(site.disk, blob);
    }
}

#[test]
fn partial_reply_of_no_bytes_ends_the_file() {
    let reg = registry();
    let mut task = task_at("", row(FileStatus::Pending, 0, 10));
    let (mut t, _) = Transfer::begin(&mut task, "id", "file.bin", "en");
    t.advance(&mut task, probed(4), &reg);
    let reply = Event::Replied { code: 206, wording: String::new(), length: Some(0) };
    assert!(matches!(t.advance(&mut task, reply, &reg).action, Action::Append));
    t.advance(&mut task, Event::Opened, &reg);
    t.advance(&mut task, Event::Ended, &reg);
    t.advance(&mut task, Event::Flushed, &reg);
    assert_eq!(file_state(&task), (FileStatus::Done, 4, 4));
}

#[test]
fn stored_token_goes_with_every_request() {
    let reg = registry();
    let bearer_of = |token_file: Option<&str>| {
        let mut task = task_at("", row(FileStatus::Pending, 0, 10));
        let (mut t, _) = Transfer::begin(&mut task, "id", "file.bin", "en");
        let token_file = token_file.map(str::to_string);
        let event = Event::Probed { size: 0, token_file: token_file.clone() };
        t.advance(&mut task, event, &reg);
        t.advance(&mut task, replied(503, "503 x"), &reg);
        t.advance(&mut task, Event::Woke, &reg);
        match t.advance(&mut task, Event::Probed { size: 3, token_file }, &reg).action {
            Action::Fetch { bearer, .. } => bearer,
            _ => panic!("a request was expected"),
        }
    };
    assert_eq!(bearer_of(Some(" hf_x\n")).as_deref(), Some("hf_x"));
    assert_eq!(bearer_of(Some(" \n")), None);
    assert_eq!(bearer_of(None), None);
}

#[test]
fn mirror_without_lengths_uses_the_listed_size() {
    let blob = blob_of(30_000);
    for have in [0usize, 10_000] {
        let mut site = Site::new(&blob, 0);
        site.lengths = false;
        site.disk = blob[..have].to_vec();
        let mut task = task_at(&site.url, row(FileStatus::Pending, 0, 30_000));
        run_download(&mut task, &mut site);
        assert_eq!(file_state(&task), (FileStatus::Done, 30_000, 30_000));
        assert_eq!(site.disk, blob);
    }
}

#[test]
fn complete_file_is_not_fetched_again() {
    let blob = blob_of(10_000);
    let mut site = Site::new(&blob, 0);
    site.disk = blob.clone();
    let mut task = task_at(&site.url, row(FileStatus::Pending, 0, 10_000));
    let messages = run_download(&mut task, &mut site);
    assert_eq!(file_state(&task), (FileStatus::Exists, 10_000, 10_000));
    assert!(site.requests.is_empty());
    assert_eq!(count_done(&messages), 1);
}

#[test]
fn empty_file_is_done() {
    let mut site = Site::new(&[], 0);
    let mut task = task_at(&site.url, row(FileStatus::Pending, 0, 0));
    run_download(&mut task, &mut site);
    assert_eq!(file_state(&task), (FileStatus::Done, 0, 0));
}

// ---- attempts -----------------------------------------------------------------------------

#[test]
fn four_attempts_and_no_more() {
    let blob = blob_of(1_000);
    let mut site = Site::new(&blob, 100);
    let mut task = task_at(&site.url, row(FileStatus::Pending, 0, 1_000));
    let messages = run_download(&mut task, &mut site);
    assert_eq!(site.requests.len(), 4);
    assert_eq!(site.pauses, vec![1, 2, 5]);
    let f = task.files.get("file.bin").unwrap();
    assert_eq!(f.status, FileStatus::Failed);
    assert_eq!(f.error.as_deref(), Some("HTTP 500 Internal Server Error"));
    assert_eq!(count_done(&messages), 0);
}

fn to_asking(task: &mut DownloadTask) -> Transfer {
    let reg = registry();
    let (mut t, _) = Transfer::begin(task, "task-test", "file.bin", "en");
    let step = t.advance(task, probed(0), &reg);
    assert!(matches!(step.action, Action::Fetch { range: None, .. }));
    t
}

fn to_reading(task: &mut DownloadTask, length: Option<u64>) -> Transfer {
    let reg = registry();
    let mut t = to_asking(task);
    let reply = Event::Replied { code: 200, wording: "200 OK".to_string(), length };
    assert!(matches!(t.advance(task, reply, &reg).action, Action::Create));
    assert!(matches!(t.advance(task, Event::Opened, &reg).action, Action::Read));
    t
}

fn replied(code: u16, wording: &str) -> Event {
    Event::Replied { code, wording: wording.to_string(), length: None }
}

fn error_of(task: &DownloadTask) -> String {
    task.files.get("file.bin").unwrap().error.clone().unwrap()
}

#[test]
fn lasting_refusals_fail_at_once() {
    for (code, wording) in [(401u16, "401 Unauthorized"), (404, "404 Not Found"), (416, "416 x")] {
        let reg = registry();
        let mut task = task_at("", row(FileStatus::Pending, 0, 10));
        let mut t = to_asking(&mut task);
        let step = t.advance(&mut task, replied(code, wording), &reg);
        assert!(matches!(step.action, Action::Stop));
        assert_eq!(file_state(&task).0, FileStatus::Failed);
        assert_eq!(error_of(&task), format!("HTTP {}", wording));
    }
}

#[test]
fn passing_refusals_are_tried_again() {
    for code in [408u16, 429, 500, 503, 599] {
        let reg = registry();
        let mut task = task_at("", row(FileStatus::Pending, 0, 10));
        let mut t = to_asking(&mut task);
        let step = t.advance(&mut task, replied(code, "x"), &reg);
        assert!(matches!(step.action, Action::Sleep { secs: 1 }));
        assert_eq!(file_state(&task).0, FileStatus::Downloading);
        let step = t.advance(&mut task, Event::Woke, &reg);
        assert!(matches!(step.action, Action::Probe));
        let step = t.advance(&mut task, probed(4), &reg);
        match step.action {
            Action::Fetch { range, .. } => assert_eq!(range.as_deref(), Some("bytes=4-")),
            _ => panic!("a request was expected"),
        }
    }
}

#[test]
fn a_minute_without_data_is_a_stall() {
    assert!(!has_stalled(0));
    assert!(!has_stalled(60_000));
    assert!(has_stalled(60_001));
}

#[test]
fn files_land_below_the_directory_of_the_task() {
    let task = task_at("", row(FileStatus::Pending, 0, 10));
    assert_eq!(local_path(&task, "a/b.bin", '/'), "/tmp/hf_test/a/b.bin");
    for path in ["file.bin", "a/b.bin", "/x", "../y"] {
        let expected = std::path::Path::new("/tmp/hf_test").join(path);
        assert_eq!(local_path(&task, path, '/'), expected.to_string_lossy());
    }
}

#[test]
fn pauses_grow() {
    assert_eq!([1, 2, 3, 4, 5].map(backoff), [1, 2, 5, 10, 10]);
    assert_eq!(backoff(0), 1);
}

#[test]
fn every_failure_has_its_message() {
    let reg = registry();
    // The request cannot be sent: after three retries that is the error.
    let mut task = task_at("", row(FileStatus::Pending, 0, 10));
    let mut t = to_asking(&mut task);
    for secs in [1u64, 2, 5] {
        let step = t.advance(
            &mut task,
            Event::RequestFailed { message: "no route".to_string() },
            &reg,
        );
        assert!(matches!(step.action, Action::Sleep { secs: s } if s == secs));
        t.advance(&mut task, Event::Woke, &reg);
        t.advance(&mut task, probed(0), &reg);
    }
    t.advance(&mut task, Event::RequestFailed { message: "no route".to_string() }, &reg);
    assert_eq!(error_of(&task), "Request failed: no route");

    // Creating or opening the file fails at once.
    for (size, expected) in [(0u64, "Failed to create file: full"), (4, "Failed to open file: full")] {
        let mut task = task_at("", row(FileStatus::Pending, 0, 10));
        let (mut t, _) = Transfer::begin(&mut task, "id", "file.bin", "en");
        t.advance(&mut task, probed(size), &reg);
        t.advance(&mut task, replied(206, "206 Partial Content"), &reg);
        let step = t.advance(
            &mut task,
            Event::OpenFailed { message: "full".to_string() },
            &reg,
        );
        assert!(matches!(step.action, Action::Stop));
        assert_eq!(error_of(&task), expected);
    }

    // A body that breaks off, cannot be written or stalls is an error on the last attempt.
    let broken = |event: fn() -> Event| {
        let reg = registry();
        let mut task = task_at("", row(FileStatus::Pending, 0, 10));
        let mut t = to_asking(&mut task);
        for _ in 0..3 {
            t.advance(&mut task, replied(500, "x"), &reg);
            t.advance(&mut task, Event::Woke, &reg);
            t.advance(&mut task, probed(0), &reg);
        }
        t.advance(&mut task, replied(200, "200 OK"), &reg);
        t.advance(&mut task, Event::Opened, &reg);
        let event = event();
        if !t.accepts(&event) {
            t.advance(&mut task, Event::Chunk { len: 3 }, &reg);
        }
        let step = t.advance(&mut task, event, &reg);
        assert!(matches!(step.action, Action::Flush));
        let step = t.advance(&mut task, Event::Flushed, &reg);
        assert!(matches!(step.action, Action::Stop));
        error_of(&task)
    };
    assert_eq!(
        broken(|| Event::Interrupted { message: "reset".to_string() }),
        "Download interrupted: reset"
    );
    assert_eq!(
        broken(|| Event::WriteFailed { message: "full".to_string() }),
        "Write failed: full"
    );
    assert_eq!(
        broken(|| Event::EmptyChunk { stalled: true }),
        "Download timeout: no data for a long time"
    );
}

// ---- cancellation -------------------------------------------------------------------------

#[test]
fn cancelled_task_stops_at_the_next_chunk() {
    let reg = registry();
    let mut task = task_at("", row(FileStatus::Pending, 0, 100));
    let mut t = to_reading(&mut task, Some(100));
    t.advance(&mut task, Event::Chunk { len: 10 }, &reg);
    assert_eq!(t.progress(), (10, 0));
    task.cancelled = true;
    let step = t.advance(&mut task, Event::Written { sample: None }, &reg);
    assert!(matches!(step.action, Action::Stop));
    assert_eq!(file_state(&task).0, FileStatus::Cancelled);
    assert!(!t.accepts(&Event::Ended));
}

#[test]
fn cancelled_task_is_not_begun_or_retried() {
    let reg = registry();
    let mut task = task_at("", row(FileStatus::Pending, 0, 100));
    task.cancelled = true;
    let (t, step) = Transfer::begin(&mut task, "id", "file.bin", "en");
    assert!(matches!(step.action, Action::Stop));
    assert_eq!(t.phase(), Phase::Over);
    assert_eq!(file_state(&task).0, FileStatus::Cancelled);

    let mut task = task_at("", row(FileStatus::Pending, 0, 100));
    let mut t = to_asking(&mut task);
    task.cancelled = true;
    let step = t.advance(&mut task, replied(503, "503 x"), &reg);
    assert!(matches!(step.action, Action::Stop));
    assert_eq!(file_state(&task).0, FileStatus::Failed);
}

#[test]
fn cancelled_before_the_flush_is_not_done() {
    let reg = registry();
    let mut task = task_at("", row(FileStatus::Pending, 0, 100));
    let mut t = to_reading(&mut task, Some(100));
    t.advance(&mut task, Event::Ended, &reg);
    task.cancelled = true;
    t.advance(&mut task, Event::Flushed, &reg);
    assert_eq!(file_state(&task).0, FileStatus::Cancelled);
}

#[test]
fn paused_file_stops_and_the_others_go_on() {
    let reg = registry();
    let mut engine = DownloadEngine::new();
    let files = vec![("a".to_string(), 100u64), ("b".to_string(), 100)];
    let job = engine.start("id", "r", "model", "main", "/d", "", &files);
    assert_eq!(job.paths, vec!["a".to_string(), "b".to_string()]);
    let mut running = Vec::new();
    for path in ["a", "b"] {
        let (mut t, _) = engine.begin(job.task, "id", path, "en");
        engine.advance(job.task, &mut t, probed(0), &reg);
        engine.advance(job.task, &mut t, replied(200, "200 OK"), &reg);
        engine.advance(job.task, &mut t, Event::Opened, &reg);
        engine.advance(job.task, &mut t, Event::Chunk { len: 5 }, &reg);
        running.push(t);
    }
    engine.pause_file("id", "a");
    engine.pause_file("other", "b");
    let mut stops = Vec::new();
    for t in running.iter_mut() {
        let step = engine.advance(job.task, t, Event::Written { sample: None }, &reg);
        stops.push(matches!(step.action, Action::Stop));
    }
    assert_eq!(stops, vec![true, false]);
    assert_eq!(engine.task(job.task).files.get("a").unwrap().status, FileStatus::Cancelled);
    assert_eq!(engine.task(job.task).files.get("b").unwrap().status, FileStatus::Downloading);
}

#[test]
fn file_paused_while_it_waits_is_not_fetched() {
    let mut engine = DownloadEngine::new();
    let files = vec![("a".to_string(), 100u64), ("b".to_string(), 100)];
    let job = engine.start("id", "r", "model", "main", "/d", "", &files);
    engine.pause_file("id", "a");
    let (t, step) = engine.begin(job.task, "id", "a", "en");
    assert!(matches!(step.action, Action::Stop));
    assert_eq!(t.phase(), Phase::Over);
    assert_eq!(engine.task(job.task).files.get("a").unwrap().status, FileStatus::Cancelled);
    let (_, step) = engine.begin(job.task, "id", "b", "en");
    assert!(matches!(step.action, Action::Probe));
    // It can be taken up again.
    let again = engine.retry("id", "a", "", "/d").unwrap();
    assert_eq!(again.paths, vec!["a".to_string()]);
    let (_, step) = engine.begin(again.task, "id", "a", "en");
    assert!(matches!(step.action, Action::Probe));
}

// ---- reports ------------------------------------------------------------------------------

fn reports(step: &Step) -> Vec<(u64, u64)> {
    let mut out = Vec::new();
    for m in &step.messages {
        if let UiMsg::File(f) = m {
            out.push((f.downloaded, f.speed));
        }
    }
    out
}

#[test]
fn progress_is_reported_every_fifty_chunks() {
    let reg = registry();
    let mut task = task_at("", row(FileStatus::Pending, 0, 1_000_000));
    let mut t = to_reading(&mut task, Some(1_000_000));
    let mut at = Vec::new();
    for i in 1..=120u64 {
        t.advance(&mut task, Event::Chunk { len: 10 }, &reg);
        let step = t.advance(&mut task, Event::Written { sample: None }, &reg);
        if !reports(&step).is_empty() {
            at.push(i);
        }
    }
    assert_eq!(at, vec![50, 100]);
    assert_eq!(file_state(&task).1, 1000);
}

#[test]
fn sampled_speed_is_shown_and_kept() {
    let reg = registry();
    let mut task = task_at("", row(FileStatus::Pending, 0, 1_000));
    let mut t = to_reading(&mut task, Some(1_000));
    t.advance(&mut task, Event::Chunk { len: 10 }, &reg);
    let bits = 1234.5f64.to_bits();
    let step = t.advance(&mut task, Event::Written { sample: Some(bits) }, &reg);
    assert_eq!(reports(&step), vec![(10, bits)]);
    t.advance(&mut task, Event::Chunk { len: 20 }, &reg);
    assert_eq!(t.progress(), (30, 10));
    t.advance(&mut task, Event::Written { sample: None }, &reg);
    assert_eq!(task.files.get("file.bin").unwrap().speed, bits);
    // Done: the speed is gone.
    t.advance(&mut task, Event::Ended, &reg);
    t.advance(&mut task, Event::Flushed, &reg);
    assert_eq!(task.files.get("file.bin").unwrap().speed, 0);
    assert_eq!(file_state(&task), (FileStatus::Done, 30, 1_000));
}

#[test]
fn done_is_told_after_the_last_file() {
    let reg = registry();
    let mut task = task_at("", row(FileStatus::Pending, 0, 5));
    task.put(FileState::pending("other.bin", 5));
    let (mut t, _) = Transfer::begin(&mut task, "id", "file.bin", "en");
    let step = t.advance(&mut task, probed(5), &reg);
    assert_eq!(count_done(&step.messages), 0);
    let (mut t, _) = Transfer::begin(&mut task, "id", "other.bin", "en");
    let step = t.advance(&mut task, probed(7), &reg);
    assert!(step.messages.iter().any(|m| matches!(m, UiMsg::Done { task_id } if task_id == "id")));
    assert!(task.is_done());
}

#[test]
fn running_transfer_keeps_its_source_and_other_rows() {
    let reg = registry();
    let mut task = task_at("http://old", row(FileStatus::Pending, 0, 100));
    task.put(FileState::pending("other.bin", 5));
    let (mut t, _) = Transfer::begin(&mut task, "id", "file.bin", "en");
    task.endpoint = "http://new".to_string();
    let step = t.advance(&mut task, probed(0), &reg);
    match step.action {
        Action::Fetch { url, .. } => assert_eq!(url, "http://old/repo/resolve/main/file.bin"),
        _ => panic!("a request was expected"),
    }
    let step = t.advance(&mut task, replied(404, "404 Not Found"), &reg);
    assert_eq!(t.path(), "file.bin");
    // The last report shows the row as it is, and the other file still waits.
    match &step.messages[..] {
        [UiMsg::File(f)] => {
            assert_eq!(f.status, FileStatus::Failed);
            assert_eq!(f.error.as_deref(), Some("HTTP 404 Not Found"));
        }
        _ => panic!("one report was expected"),
    }
    let other = task.files.get("other.bin").unwrap();
    assert_eq!((other.status, other.downloaded, other.total), (FileStatus::Pending, 0, 5));
    assert_eq!(task.endpoint, "http://new");
}

#[test]
fn numbers_that_do_not_fit_are_not_accepted() {
    let mut task = task_at("", row(FileStatus::Pending, 0, 0));
    let (mut t, _) = Transfer::begin(&mut task, "id", "file.bin", "en");
    let reg = registry();
    t.advance(&mut task, probed(10), &reg);
    let reply = |length| Event::Replied { code: 206, wording: String::new(), length };
    assert!(!t.accepts(&reply(Some(u64::MAX))));
    assert!(t.accepts(&reply(Some(u64::MAX - 10))));
    assert!(!t.accepts(&Event::Opened));
}

// ---- addresses ----------------------------------------------------------------------------

#[test]
fn file_addresses() {
    assert_eq!(
        file_url("o/r", "model", "main", "", "a/b.bin"),
        "https://huggingface.co/o/r/resolve/main/a/b.bin"
    );
    assert_eq!(
        file_url("o/r", "dataset", "v1", "https://hf-mirror.com//", "x"),
        "https://hf-mirror.com/datasets/o/r/resolve/v1/x"
    );
    assert_eq!(
        file_url("o/r", "space", "main", "  ", "x"),
        "https://huggingface.co/spaces/o/r/resolve/main/x"
    );
    assert_eq!(
        file_url("o/r", "other", "main", "http://h", "x"),
        "http://h/o/r/resolve/main/x"
    );
}

// ---- tasks --------------------------------------------------------------------------------

#[test]
fn start_takes_up_what_is_new_or_stopped() {
    let mut task = DownloadTask::new(
        "r".to_string(),
        "model".to_string(),
        "main".to_string(),
        "/d".to_string(),
        String::new(),
    );
    for (path, status) in [
        ("pending", FileStatus::Pending),
        ("downloading", FileStatus::Downloading),
        ("done", FileStatus::Done),
        ("exists", FileStatus::Exists),
        ("failed", FileStatus::Failed),
        ("cancelled", FileStatus::Cancelled),
    ] {
        assert_eq!(status.text(), path);
        task.put(FileState {
            path: path.to_string(),
            status,
            downloaded: 7,
            total: 9,
            speed: 1,
            error: Some("e".to_string()),
        });
    }
    assert!(!task.is_done());
    let files: Vec<(String, u64)> = [
        "pending", "downloading", "done", "exists", "failed", "cancelled", "new", "new",
    ]
    .iter()
    .map(|p| (p.to_string(), 20))
    .collect();
    let taken = start_downloads(&mut task, &files);
    assert_eq!(taken, vec!["failed".to_string(), "cancelled".to_string(), "new".to_string()]);
    for path in ["failed", "cancelled", "new"] {
        let f = task.files.get(path).unwrap();
        assert_eq!((f.status, f.downloaded, f.total, f.speed), (FileStatus::Pending, 0, 20, 0));
        assert!(f.error.is_none());
    }
    assert_eq!(task.files.get("done").unwrap().downloaded, 7);
    // A second start finds everything on its way.
    assert!(start_downloads(&mut task, &files).is_empty());
    assert_eq!(MAX_CONCURRENT, 3);
}

#[test]
fn restart_goes_on_after_cancel() {
    let mut engine = DownloadEngine::new();
    let files = vec![("f".to_string(), 10u64)];
    let job = engine.start("id", "r", "model", "main", "/a", "https://huggingface.co", &files);
    engine.pause_all("id");
    assert!(engine.task(job.task).cancelled);
    let (t, _) = engine.begin(job.task, "id", "f", "en");
    assert_eq!(t.phase(), Phase::Over);
    let job = engine.start("id", "r", "model", "v2", "/b", "https://hf-mirror.com", &files);
    assert_eq!(job.paths, vec!["f".to_string()]);
    let task = engine.task(job.task);
    assert!(!task.cancelled);
    assert_eq!((task.revision.as_str(), task.target_dir.as_str()), ("v2", "/b"));
    assert_eq!(task.endpoint, "https://hf-mirror.com");
}

#[test]
fn retry_of_unknown_task_does_nothing() {
    let mut engine = DownloadEngine::new();
    assert!(engine.retry("id", "f", "", "/d").is_none());
    engine.cancel("id");
    assert!(!engine.has(0));
}

#[test]
fn handles_stay_good() {
    let mut mgr = TaskManager::new();
    let a = mgr.get_or_create("a", "ra", "model", "main", "/a", "");
    let b = mgr.get_or_create("b", "rb", "model", "main", "/b", "");
    assert_ne!(a, b);
    assert_eq!(mgr.find("a"), Some(a));
    assert_eq!(mgr.find("c"), None);
    assert!(mgr.has(b) && !mgr.has(2));
    mgr.task_mut(a).cancelled = true;
    assert_eq!(mgr.task(b).repo_id, "rb");
    assert!(!mgr.task(b).cancelled);
    assert_eq!(mgr.get_or_create("a", "other", "dataset", "main", "/a", ""), a);
    assert_eq!(mgr.task(a).repo_id, "ra");
    assert_eq!(mgr.task(a).repo_type, "dataset");
}
