//! The texts of the user interface, per language.
//!
//! Chinese and English are built in. Files named `<code>.json` next to the program are merged on
//! top of them: they override built-in texts and add new languages. A text that the active
//! language lacks is taken from English, and a text that nobody has is shown as its key.

use std::collections::HashMap;
use vstd::prelude::*;
use crate::table::Table;
use crate::text::{ends_with, string_of, chars_of, texts};

verus! {

/// The built-in Chinese texts.
pub const EMBED_ZH: &'static str = r#"{
  "__name__": "中文",
  "title": "HF 模型下载器",
  "settings": "设置",
  "repo_placeholder": "输入仓库地址,如 owner/repo 或 https://huggingface.co/owner/repo",
  "list_files": "列出文件",
  "select_all": "全选",
  "select_none": "全不选",
  "start": "开始下载",
  "pause_all": "全部暂停",
  "files": "个文件",
  "listed": "已列出",
  "listing": "正在获取文件列表...",
  "starting": "正在开始下载...",
  "done": "下载完成",
  "no_repo": "请先列出文件",
  "no_select": "请先选择要下载的文件",
  "err_empty": "请输入仓库地址",
  "error": "错误",
  "file_list": "文件列表",
  "download_dir": "默认下载目录",
  "endpoint": "镜像/端点 (可留空)",
  "language": "语言",
  "browse": "浏览",
  "save": "保存",
  "close": "关闭",
  "login": "登录 HF",
  "token_placeholder": "粘贴 HF token",
  "status_logged_in": "已登录",
  "status_missing": "未登录",
  "status_invalid": "Token 无效",
  "status_checking": "检查中...",
  "name": "名称",
  "size": "大小",
  "progress": "进度",
  "speed": "速度",
  "eta": "剩余",
  "total_speed": "总速度",
  "all_done": "已全部完成",
  "save_to": "保存到",
  "status": "状态",
  "cancel": "暂停",
  "retry": "继续下载",
  "recovered": "已恢复上次下载会话,并开始继续下载",
  "recovery_title": "恢复下载",
  "recovery_prompt": "检测到上次的下载会话,请选择要恢复的仓库:",
  "resume": "恢复",
  "recovery_cancel": "忽略",
  "saved_at": "保存于",
  "cut": "剪切",
  "copy": "复制",
  "paste": "粘贴",
  "no_files": "暂无文件,请先列出",
  "token_dialog_title": "登录 Hugging Face",
  "settings_title": "设置",
  "about": "HF Downloader (egui 原生版)",
  "pending": "等待中",
  "err_request": "请求失败",
  "err_create_file": "创建文件失败",
  "err_open_file": "打开文件失败",
  "err_write": "写入失败",
  "err_download_interrupted": "下载中断",
  "err_timeout": "下载超时: 长时间无数据",
  "err_parse_url": "无法解析 URL",
  "err_parse_repo": "无法解析仓库标识,期望格式 owner/repo 或完整 HF 网址",
  "err_repo_url": "无法从 URL 解析出仓库标识",
  "err_repo_not_found": "仓库不存在或无权访问: {}",
  "err_gated": "该仓库为受限(gated)仓库,需先授权: {}",
  "err_api": "API 返回错误: {}",
  "err_parse_resp": "解析响应失败: {}",
  "err_token_empty": "token 为空",
  "err_token_invalid": "token 无效 (HTTP {})",
  "downloading": "下载中",
  "exists": "已存在",
  "failed": "失败",
  "cancelled": "已暂停",
  "version": "版本",
  "author": "作者",
  "about_title": "关于"
}"#;

/// The built-in English texts.
pub const EMBED_EN: &'static str = r#"{
  "__name__": "English",
  "title": "HF Model Downloader",
  "settings": "Settings",
  "repo_placeholder": "Enter repo, e.g. owner/repo or https://huggingface.co/owner/repo",
  "list_files": "List Files",
  "select_all": "Select All",
  "select_none": "Select None",
  "start": "Start Download",
  "pause_all": "Pause All",
  "files": "files",
  "listed": "Listed",
  "listing": "Fetching file list...",
  "starting": "Starting download...",
  "done": "Download complete",
  "no_repo": "List files first",
  "no_select": "Select files to download",
  "err_empty": "Enter a repo address",
  "error": "Error",
  "file_list": "File List",
  "download_dir": "Default download directory",
  "endpoint": "Mirror/Endpoint (optional)",
  "language": "Language",
  "browse": "Browse",
  "save": "Save",
  "close": "Close",
  "login": "Login HF",
  "token_placeholder": "Paste HF token",
  "status_logged_in": "Logged in",
  "status_missing": "Not logged in",
  "status_invalid": "Token invalid",
  "status_checking": "Checking...",
  "name": "Name",
  "size": "Size",
  "progress": "Progress",
  "speed": "Speed",
  "eta": "ETA",
  "total_speed": "Total speed",
  "all_done": "All done",
  "save_to": "Save to",
  "status": "Status",
  "cancel": "Pause",
  "retry": "Resume",
  "recovered": "Resumed previous download session and continuing",
  "recovery_title": "Resume download",
  "recovery_prompt": "Found previous download sessions. Choose a repository to resume:",
  "resume": "Resume",
  "recovery_cancel": "Dismiss",
  "saved_at": "Saved at",
  "cut": "Cut",
  "copy": "Copy",
  "paste": "Paste",
  "no_files": "No files yet, list first",
  "token_dialog_title": "Login to Hugging Face",
  "settings_title": "Settings",
  "about": "HF Downloader (egui native)",
  "pending": "Pending",
  "err_request": "Request failed",
  "err_create_file": "Failed to create file",
  "err_open_file": "Failed to open file",
  "err_write": "Write failed",
  "err_download_interrupted": "Download interrupted",
  "err_timeout": "Download timeout: no data for a long time",
  "err_parse_url": "Cannot parse URL",
  "err_parse_repo": "Cannot parse repo id, expected owner/repo or a full HF URL",
  "err_repo_url": "Cannot parse repo id from URL",
  "err_repo_not_found": "Repo not found or no access: {}",
  "err_gated": "This is a gated repo, authorize first: {}",
  "err_api": "API returned error: {}",
  "err_parse_resp": "Failed to parse response: {}",
  "err_token_empty": "token is empty",
  "err_token_invalid": "token invalid (HTTP {})",
  "downloading": "Downloading",
  "exists": "Exists",
  "failed": "Failed",
  "cancelled": "Paused",
  "version": "Version",
  "author": "Author",
  "about_title": "About"
}"#;

// ---------------------------------------------------------------------------------------------
// Reading a language file
// ---------------------------------------------------------------------------------------------

/// The texts that a JSON document holds, if it is one object whose members are all strings.
pub uninterp spec fn lang_entries(json: Seq<char>) -> Option<Map<Seq<char>, Seq<char>>>;

/// Whether no two pairs of a list have the same first member.
pub open spec fn distinct_keys(v: Seq<(String, String)>) -> bool {
    forall|i: int, j: int|
        0 <= i < v.len() && 0 <= j < v.len() && (#[trigger] v[i]).0@ == (#[trigger] v[j]).0@ ==> i
            == j
}

/// The map that a list of pairs stands for; a later pair wins over an earlier one.
pub open spec fn pairs_map(v: Seq<(String, String)>) -> Map<Seq<char>, Seq<char>>
    decreases v.len(),
{
    if v.len() == 0 {
        Map::empty()
    } else {
        pairs_map(v.drop_last()).insert(v.last().0@, v.last().1@)
    }
}

/// `serde_json::from_str` into a map of strings. The pairs come in no particular order, each key
/// once; what they hold depends on the document alone.
#[verifier::external_body]
fn parse_lang_json(json: &str) -> (r: Option<Vec<(String, String)>>)
    ensures
        match r {
            Some(v) => distinct_keys(v@) && lang_entries(json@) == Some(pairs_map(v@)),
            None => lang_entries(json@) is None,
        },
{
    let parsed: Result<HashMap<String, String>, serde_json::Error> = serde_json::from_str(json);
    match parsed {
        Ok(map) => Some(map.into_iter().collect()),
        Err(_) => None,
    }
}

// ---------------------------------------------------------------------------------------------
// The registry
// ---------------------------------------------------------------------------------------------

/// What a registry holds: the language codes in display order, and the texts of each.
pub struct LangView {
    pub codes: Seq<Seq<char>>,
    pub words: Map<Seq<char>, Map<Seq<char>, Seq<char>>>,
}

/// The texts of every known language.
pub struct LangRegistry {
    langs: Table<Table<String>>,
}

/// The characters behind a table of strings.
pub open spec fn strings(m: Map<Seq<char>, String>) -> Map<Seq<char>, Seq<char>> {
    m.map_values(|s: String| s@)
}

impl View for LangRegistry {
    type V = LangView;

    closed spec fn view(&self) -> LangView {
        LangView {
            codes: self.langs.keys(),
            words: self.langs@.map_values(|t: Table<String>| strings(t@)),
        }
    }
}

impl LangView {
    /// A registry without languages.
    pub open spec fn nothing() -> LangView {
        LangView { codes: Seq::empty(), words: Map::empty() }
    }

    /// The texts of `code`, none if the language is unknown.
    pub open spec fn of(self, code: Seq<char>) -> Map<Seq<char>, Seq<char>> {
        if self.words.dom().contains(code) {
            self.words[code]
        } else {
            Map::empty()
        }
    }

    /// The registry after the texts `m` of language `code` have been merged in.
    pub open spec fn with_texts(self, code: Seq<char>, m: Map<Seq<char>, Seq<char>>) -> LangView {
        LangView {
            codes: if self.words.dom().contains(code) {
                self.codes
            } else {
                self.codes.push(code)
            },
            words: self.words.insert(code, self.of(code).union_prefer_right(m)),
        }
    }

    /// The registry after a document of language `code` that holds the texts `read`; one that
    /// could not be read, or a language without a name, changes nothing.
    pub open spec fn with_read(
        self,
        code: Seq<char>,
        read: Option<Map<Seq<char>, Seq<char>>>,
    ) -> LangView {
        match read {
            Some(m) if code.len() > 0 => self.with_texts(code, m),
            _ => self,
        }
    }

    /// The registry after the document `json` of language `code`.
    pub open spec fn with_file(self, code: Seq<char>, json: Seq<char>) -> LangView {
        self.with_read(code, lang_entries(json))
    }

    /// The registry after all of `files`, in order.
    pub open spec fn with_files(self, files: Seq<(String, String)>) -> LangView
        decreases files.len(),
    {
        if files.len() == 0 {
            self
        } else {
            self.with_files(files.drop_last()).with_file(files.last().0@, files.last().1@)
        }
    }

    /// The built-in languages.
    pub open spec fn built_in() -> LangView {
        LangView::nothing().with_file("zh"@, EMBED_ZH@).with_file("en"@, EMBED_EN@)
    }

    /// What `key` reads in `lang`: its text there, else in English, else the key itself.
    pub open spec fn translated(self, key: Seq<char>, lang: Seq<char>) -> Seq<char> {
        if self.of(lang).dom().contains(key) {
            self.of(lang)[key]
        } else if self.of("en"@).dom().contains(key) {
            self.of("en"@)[key]
        } else {
            key
        }
    }

    /// How the language `code` calls itself.
    pub open spec fn own_name(self, code: Seq<char>) -> Seq<char> {
        if self.of(code).dom().contains("__name__"@) {
            self.of(code)["__name__"@]
        } else {
            code
        }
    }
}

/// The language code that a file name stands for: what precedes `.json`.
pub open spec fn code_of(name: Seq<char>) -> Option<Seq<char>> {
    let ext = ".json"@;
    if ext.is_suffix_of(name) && name.len() > ext.len() {
        Some(name.take(name.len() - ext.len()))
    } else {
        None
    }
}

/// The language code of a file name, if it is that of a language file.
pub fn lang_code(name: &str) -> (r: Option<String>)
    ensures
        crate::text::opt_text(r) == code_of(name@),
{
    let v = chars_of(name);
    let w = chars_of(".json");
    if ends_with(name, ".json") && v.len() > w.len() {
        let n: usize = v.len() - w.len();
        let code = string_of(&v, 0, n);
        assert(code@ == name@.take(n as int));
        Some(code)
    } else {
        None
    }
}

/// Merges `pairs` into a table.
fn merge(table: &mut Table<String>, pairs: Vec<(String, String)>)
    ensures
        strings(final(table)@) == strings(old(table)@).union_prefer_right(pairs_map(pairs@)),
{
    let mut i: usize = 0;
    assert(pairs@.take(0) == Seq::<(String, String)>::empty());
    assert(strings(table@) =~= strings(old(table)@).union_prefer_right(pairs_map(pairs@.take(0))));
    while i < pairs.len()
        invariant
            i <= pairs@.len(),
            strings(table@) == strings(old(table)@).union_prefer_right(
                pairs_map(pairs@.take(i as int)),
            ),
        decreases pairs@.len() - i,
    {
        let ghost before = table@;
        let key = pairs[i].0.clone();
        let val = pairs[i].1.clone();
        table.set(key, val);
        proof {
            let upto = pairs@.take(i + 1);
            assert(upto.drop_last() == pairs@.take(i as int));
            assert(strings(before.insert(key@, val)) =~= strings(before).insert(key@, val@));
            assert(strings(table@) =~= strings(old(table)@).union_prefer_right(pairs_map(upto)));
        }
        i += 1;
    }
    assert(pairs@.take(pairs@.len() as int) == pairs@);
}

impl LangRegistry {
    /// A registry without languages.
    pub fn new() -> (r: LangRegistry)
        ensures
            r@ == LangView::nothing(),
    {
        let r = LangRegistry { langs: Table::new() };
        assert(r@.words =~= LangView::nothing().words);
        r
    }

    /// Merges in the texts of a language, if they could be read.
    pub fn add_texts(&mut self, code: &str, read: Option<Vec<(String, String)>>)
        ensures
            final(self)@ == old(self)@.with_read(
                code@,
                match read {
                    Some(pairs) => Some(pairs_map(pairs@)),
                    None => None,
                },
            ),
    {
        if code.is_empty() {
            return;
        }
        match read {
            Some(pairs) => {
                match self.langs.find(code) {
                    Some(i) => {
                        let table = self.langs.at_mut(i);
                        merge(table, pairs);
                    },
                    None => {
                        let mut table: Table<String> = Table::new();
                        merge(&mut table, pairs);
                        assert(strings(table@) =~= pairs_map(pairs@)) by {
                            assert(strings(Map::<Seq<char>, String>::empty()) =~= Map::<
                                Seq<char>,
                                Seq<char>,
                            >::empty());
                        }
                        self.langs.set(code.to_owned(), table);
                        assert(old(self)@.of(code@).union_prefer_right(pairs_map(pairs@))
                            =~= pairs_map(pairs@));
                    },
                }
                assert(self@.words =~= old(self)@.with_texts(code@, pairs_map(pairs@)).words);
                assert(self@ == old(self)@.with_texts(code@, pairs_map(pairs@)));
            },
            None => {},
        }
    }

    /// Merges in one language file.
    fn add_file(&mut self, code: &str, json: &str)
        ensures
            final(self)@ == old(self)@.with_file(code@, json@),
    {
        let read = parse_lang_json(json);
        self.add_texts(code, read);
    }
}

/// The built-in languages with `files` merged in, each a language code and a document.
pub fn build_registry(files: &Vec<(String, String)>) -> (r: LangRegistry)
    ensures
        r@ == LangView::built_in().with_files(files@),
{
    let mut r = LangRegistry::new();
    r.add_file("zh", EMBED_ZH);
    r.add_file("en", EMBED_EN);
    let mut i: usize = 0;
    assert(files@.take(0) == Seq::<(String, String)>::empty());
    while i < files.len()
        invariant
            i <= files@.len(),
            r@ == LangView::built_in().with_files(files@.take(i as int)),
        decreases files@.len() - i,
    {
        r.add_file(files[i].0.as_str(), files[i].1.as_str());
        assert(files@.take(i + 1).drop_last() == files@.take(i as int));
        i += 1;
    }
    assert(files@.take(files@.len() as int) == files@);
    r
}

/// Builds the registry into `slot`. Only the first call takes effect.
pub fn load(slot: &mut Option<LangRegistry>, files: &Vec<(String, String)>)
    ensures
        match *old(slot) {
            Some(r) => *final(slot) == Some(r),
            None => *final(slot) matches Some(r) && r@ == LangView::built_in().with_files(files@),
        },
{
    if slot.is_none() {
        *slot = Some(build_registry(files));
    }
}

/// The language files that are put beside the program for translators to start from, unless they
/// are there: name and contents.
pub fn templates() -> (r: Vec<(String, String)>)
    ensures
        pair_texts(r@) == seq![("en.json"@, EMBED_EN@), ("zh.json"@, EMBED_ZH@)],
{
    let mut r: Vec<(String, String)> = Vec::new();
    r.push(("en.json".to_owned(), EMBED_EN.to_owned()));
    r.push(("zh.json".to_owned(), EMBED_ZH.to_owned()));
    assert(pair_texts(r@) =~= seq![("en.json"@, EMBED_EN@), ("zh.json"@, EMBED_ZH@)]);
    r
}

/// What `key` reads in `lang`.
pub fn t(key: &str, lang: &str, reg: &LangRegistry) -> (r: String)
    ensures
        r@ == reg@.translated(key@, lang@),
{
    match reg.langs.get(lang) {
        Some(table) => match table.get(key) {
            Some(s) => {
                return s.clone();
            },
            None => {},
        },
        None => {},
    }
    match reg.langs.get("en") {
        Some(table) => match table.get(key) {
            Some(s) => {
                return s.clone();
            },
            None => {},
        },
        None => {},
    }
    key.to_owned()
}

/// The code and the own name of every language, as the picker shows them.
pub open spec fn listing(reg: LangView) -> Seq<(Seq<char>, Seq<char>)> {
    Seq::new(reg.codes.len(), |i: int| (reg.codes[i], reg.own_name(reg.codes[i])))
}

/// The characters behind a list of pairs of strings.
pub open spec fn pair_texts(v: Seq<(String, String)>) -> Seq<(Seq<char>, Seq<char>)> {
    Seq::new(v.len(), |i: int| (v[i].0@, v[i].1@))
}

/// All languages in display order, each with its own name.
pub fn available(reg: &LangRegistry) -> (out: Vec<(String, String)>)
    ensures
        pair_texts(out@) == listing(reg@),
{
    let mut out: Vec<(String, String)> = Vec::new();
    let mut i: usize = 0;
    while i < reg.langs.len()
        invariant
            i <= reg@.codes.len(),
            reg@.codes == reg.langs.keys(),
            pair_texts(out@) == listing(reg@).take(i as int),
        decreases reg@.codes.len() - i,
    {
        let code = reg.langs.key_at(i);
        let table = reg.langs.val_at(i);
        let name = match table.get("__name__") {
            Some(s) => s.clone(),
            None => code.clone(),
        };
        let ghost before = pair_texts(out@);
        out.push((code.clone(), name));
        assert(pair_texts(out@) == before.push((code@, name@)));
        assert(listing(reg@).take(i + 1) == listing(reg@).take(i as int).push((code@, name@)));
        i += 1;
    }
    assert(listing(reg@).take(i as int) == listing(reg@));
    out
}

// ---------------------------------------------------------------------------------------------
// Laws
// ---------------------------------------------------------------------------------------------

proof fn lemma_file_keeps(reg: LangView, code: Seq<char>, json: Seq<char>, lang: Seq<char>, key: Seq<char>)
    requires
        reg.of(lang).dom().contains(key),
    ensures
        reg.with_file(code, json).of(lang).dom().contains(key),
{
}

proof fn lemma_files_keep(reg: LangView, files: Seq<(String, String)>, lang: Seq<char>, key: Seq<char>)
    requires
        reg.of(lang).dom().contains(key),
    ensures
        reg.with_files(files).of(lang).dom().contains(key),
    decreases files.len(),
{
    if files.len() > 0 {
        lemma_files_keep(reg, files.drop_last(), lang, key);
        lemma_file_keeps(
            reg.with_files(files.drop_last()),
            files.last().0@,
            files.last().1@,
            lang,
            key,
        );
    }
}

/// English stays complete whatever files are merged in: a key of the built-in English texts has
/// an English text in every registry, so in any language it reads as some language's text.
pub proof fn law_english_is_complete(files: Seq<(String, String)>, key: Seq<char>, lang: Seq<char>)
    requires
        lang_entries(EMBED_EN@) matches Some(m) && m.dom().contains(key),
    ensures
        ({
            let reg = LangView::built_in().with_files(files);
            &&& reg.of("en"@).dom().contains(key)
            &&& reg.translated(key, lang) == if reg.of(lang).dom().contains(key) {
                reg.of(lang)[key]
            } else {
                reg.of("en"@)[key]
            }
        }),
{
    reveal_strlit("en");
    let m = lang_entries(EMBED_EN@).unwrap();
    let zh = LangView::nothing().with_file("zh"@, EMBED_ZH@);
    assert(zh.with_texts("en"@, m).of("en"@).dom().contains(key));
    assert(LangView::built_in().of("en"@).dom().contains(key));
    lemma_files_keep(LangView::built_in(), files, "en"@, key);
}

/// A file overrides what was there: a text of the file at `i` is what its language shows, unless
/// a later file of the same language has the same key.
pub proof fn law_file_overrides(reg: LangView, files: Seq<(String, String)>, i: int, key: Seq<char>)
    requires
        0 <= i < files.len(),
        files[i].0@.len() > 0,
        lang_entries(files[i].1@) matches Some(m) && m.dom().contains(key),
        forall|j: int|
            i < j < files.len() && (#[trigger] files[j]).0@ == files[i].0@ ==> (lang_entries(
                files[j].1@,
            ) matches Some(m) ==> !m.dom().contains(key)),
    ensures
        reg.with_files(files).translated(key, files[i].0@) == lang_entries(
            files[i].1@,
        ).unwrap()[key],
{
    lemma_last_file(reg, files, i, key);
}

proof fn lemma_other_file(reg: LangView, code: Seq<char>, json: Seq<char>, lang: Seq<char>, key: Seq<char>)
    requires
        reg.of(lang).dom().contains(key),
        code == lang ==> (lang_entries(json) matches Some(m) ==> !m.dom().contains(key)),
    ensures
        reg.with_file(code, json).of(lang).dom().contains(key),
        reg.with_file(code, json).of(lang)[key] == reg.of(lang)[key],
{
}

proof fn lemma_last_file(reg: LangView, files: Seq<(String, String)>, i: int, key: Seq<char>)
    requires
        0 <= i < files.len(),
        files[i].0@.len() > 0,
        lang_entries(files[i].1@) matches Some(m) && m.dom().contains(key),
        forall|j: int|
            i < j < files.len() && (#[trigger] files[j]).0@ == files[i].0@ ==> (lang_entries(
                files[j].1@,
            ) matches Some(m) ==> !m.dom().contains(key)),
    ensures
        reg.with_files(files).of(files[i].0@).dom().contains(key),
        reg.with_files(files).of(files[i].0@)[key] == lang_entries(files[i].1@).unwrap()[key],
    decreases files.len(),
{
    let n = files.len() - 1;
    let less = files.drop_last();
    if i < n {
        assert(forall|j: int| 0 <= j < n ==> #[trigger] less[j] == files[j]);
        lemma_last_file(reg, less, i, key);
        lemma_other_file(reg.with_files(less), files[n].0@, files[n].1@, files[i].0@, key);
    }
}

/// Whether the codes of a registry are its languages, each once.
pub open spec fn well_ordered(reg: LangView) -> bool {
    &&& reg.codes.no_duplicates()
    &&& forall|c: Seq<char>| reg.codes.contains(c) <==> #[trigger] reg.words.dom().contains(c)
}

proof fn lemma_file_order(reg: LangView, code: Seq<char>, json: Seq<char>)
    requires
        well_ordered(reg),
    ensures
        well_ordered(reg.with_file(code, json)),
        reg.codes.is_prefix_of(reg.with_file(code, json).codes),
{
    let after = reg.with_file(code, json);
    if after.codes != reg.codes {
        assert(after.codes == reg.codes.push(code));
        assert forall|c: Seq<char>| after.codes.contains(c) <==> #[trigger] after.words.dom().contains(c) by {
            if reg.codes.contains(c) {
                let i = choose|i: int| 0 <= i < reg.codes.len() && reg.codes[i] == c;
                assert(after.codes[i] == c);
            }
            assert(after.codes[reg.codes.len() as int] == code);
        }
    }
}

proof fn lemma_files_order(reg: LangView, files: Seq<(String, String)>)
    requires
        well_ordered(reg),
    ensures
        well_ordered(reg.with_files(files)),
        reg.codes.is_prefix_of(reg.with_files(files).codes),
    decreases files.len(),
{
    if files.len() > 0 {
        lemma_files_order(reg, files.drop_last());
        lemma_file_order(
            reg.with_files(files.drop_last()),
            files.last().0@,
            files.last().1@,
        );
        let mid = reg.with_files(files.drop_last()).codes;
        let all = reg.with_files(files).codes;
        assert(reg.codes == all.subrange(0, reg.codes.len() as int)) by {
            assert(mid == all.subrange(0, mid.len() as int));
            assert(reg.codes == mid.subrange(0, reg.codes.len() as int));
            assert forall|i: int| 0 <= i < reg.codes.len() implies reg.codes[i] == all[i] by {
                assert(mid[i] == all[i]);
            }
        }
    }
}

/// The picker lists every language once: the built-in ones first, in the order Chinese, English,
/// then the others in the order in which their files came.
pub proof fn law_languages_listed_once(files: Seq<(String, String)>)
    ensures
        ({
            let reg = LangView::built_in().with_files(files);
            &&& well_ordered(reg)
            &&& LangView::built_in().codes.is_prefix_of(reg.codes)
            &&& lang_entries(EMBED_ZH@) is Some && lang_entries(EMBED_EN@) is Some
                ==> LangView::built_in().codes == seq!["zh"@, "en"@]
        }),
{
    reveal_strlit("zh");
    reveal_strlit("en");
    assert("zh"@[0] != "en"@[0]);
    assert(well_ordered(LangView::nothing()));
    lemma_file_order(LangView::nothing(), "zh"@, EMBED_ZH@);
    lemma_file_order(LangView::nothing().with_file("zh"@, EMBED_ZH@), "en"@, EMBED_EN@);
    lemma_files_order(LangView::built_in(), files);
    if lang_entries(EMBED_ZH@) is Some && lang_entries(EMBED_EN@) is Some {
        assert(LangView::nothing().with_file("zh"@, EMBED_ZH@).codes == seq!["zh"@]);
        assert(LangView::built_in().codes == seq!["zh"@, "en"@]);
    }
}

/// The language files that the program itself put beside it change nothing.
pub proof fn law_templates_change_nothing()
    ensures
        LangView::built_in().with_file("en"@, EMBED_EN@) == LangView::built_in(),
        LangView::built_in().with_file("zh"@, EMBED_ZH@) == LangView::built_in(),
{
    reveal_strlit("en");
    reveal_strlit("zh");
    assert("en"@[0] != "zh"@[0]);
    let all = LangView::built_in();
    if lang_entries(EMBED_EN@) is Some {
        assert(all.of("en"@).union_prefer_right(lang_entries(EMBED_EN@)->0) =~= all.of("en"@));
        assert(all.with_file("en"@, EMBED_EN@).words =~= all.words);
    }
    if lang_entries(EMBED_ZH@) is Some {
        assert(all.of("zh"@).union_prefer_right(lang_entries(EMBED_ZH@)->0) =~= all.of("zh"@));
        assert(all.with_file("zh"@, EMBED_ZH@).words =~= all.words);
    }
}

/// A text is that of its language, where the language has it; else the English one; else the key
/// itself.
pub proof fn law_text_is_looked_up(reg: LangView, key: Seq<char>, lang: Seq<char>)
    ensures
        ({
            let here = reg.words.dom().contains(lang) && reg.words[lang].dom().contains(key);
            let english = reg.words.dom().contains("en"@) && reg.words["en"@].dom().contains(key);
            &&& here ==> reg.translated(key, lang) == reg.words[lang][key]
            &&& !here && english ==> reg.translated(key, lang) == reg.words["en"@][key]
            &&& !here && !english ==> reg.translated(key, lang) == key
        }),
{
}

/// A language file changes its own language alone. There its texts replace those of the same key,
/// and all others stay. A new language comes last. A file that cannot be read, or that has no
/// language, changes nothing.
pub proof fn law_file_is_merged(
    reg: LangView,
    code: Seq<char>,
    read: Option<Map<Seq<char>, Seq<char>>>,
    other: Seq<char>,
    key: Seq<char>,
)
    ensures
        ({
            let after = reg.with_read(code, read);
            let had = reg.words.dom().contains(code) && reg.words[code].dom().contains(key);
            &&& read is None || code.len() == 0 ==> after == reg
            &&& other != code ==> after.words.dom().contains(other)
                == reg.words.dom().contains(other)
            &&& other != code && reg.words.dom().contains(other) ==> after.words[other]
                == reg.words[other]
            &&& read is Some && code.len() > 0 ==> {
                &&& after.words.dom().contains(code)
                &&& after.words[code].dom().contains(key) == (read->0.dom().contains(key) || had)
                &&& read->0.dom().contains(key) ==> after.words[code][key] == read->0[key]
                &&& !read->0.dom().contains(key) && had ==> after.words[code][key]
                    == reg.words[code][key]
                &&& reg.words.dom().contains(code) ==> after.codes == reg.codes
                &&& !reg.words.dom().contains(code) ==> after.codes == reg.codes.push(code)
            }
        }),
{
}

/// Language files are merged one after the other.
pub proof fn law_files_are_merged_in_order(
    reg: LangView,
    one: Seq<(String, String)>,
    other: Seq<(String, String)>,
)
    ensures
        reg.with_files(Seq::empty()) == reg,
        reg.with_files(one + other) == reg.with_files(one).with_files(other),
    decreases other.len(),
{
    if other.len() == 0 {
        assert(one + other =~= one);
    } else {
        law_files_are_merged_in_order(reg, one, other.drop_last());
        assert((one + other).drop_last() =~= one + other.drop_last());
        assert((one + other).last() == other.last());
    }
}

/// The picker shows every language by the name that it gives itself, or by its code where it gives
/// none.
pub proof fn law_languages_show_their_own_names(reg: LangView, i: int)
    requires
        0 <= i < reg.codes.len(),
    ensures
        listing(reg).len() == reg.codes.len(),
        listing(reg)[i].0 == reg.codes[i],
        reg.words.dom().contains(reg.codes[i]) && reg.words[reg.codes[i]].dom().contains(
            "__name__"@,
        ) ==> listing(reg)[i].1 == reg.words[reg.codes[i]]["__name__"@],
        !(reg.words.dom().contains(reg.codes[i]) && reg.words[reg.codes[i]].dom().contains(
            "__name__"@,
        )) ==> listing(reg)[i].1 == reg.codes[i],
{
}

/// The file of a language is its code and `.json`, and no other file is that of a language.
pub proof fn law_language_files_are_known_by_name(code: Seq<char>, name: Seq<char>)
    requires
        code.len() > 0,
    ensures
        code_of(code + ".json"@) == Some(code),
        code_of(name) matches Some(c) ==> c.len() > 0 && name == c + ".json"@,
{
    let built = code + ".json"@;
    assert(".json"@ =~= built.skip(built.len() - ".json"@.len()));
    assert(built.take(code.len() as int) =~= code);
    if let Some(c) = code_of(name) {
        assert(name =~= c + ".json"@);
    }
}

} // verus!
