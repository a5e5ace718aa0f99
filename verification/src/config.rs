//! The settings that are kept between runs.

use vstd::prelude::*;
use crate::path::{join_path, path_join};
use crate::text::{opt_clone, opt_text};

verus! {

/// The settings that are kept between runs.
#[derive(Debug)]
pub struct AppConfig {
    pub download_dir: String,
    pub endpoint: String,
    /// Whether the user chose the download directory.
    pub download_dir_set: bool,
    pub hf_logged_in: Option<bool>,
    /// The language that the user chose, if any.
    pub language: Option<String>,
}

/// What the settings say.
#[verifier::ext_equal]
pub struct ConfigView {
    pub download_dir: Seq<char>,
    pub endpoint: Seq<char>,
    pub download_dir_set: bool,
    pub hf_logged_in: Option<bool>,
    pub language: Option<Seq<char>>,
}

impl View for AppConfig {
    type V = ConfigView;

    open spec fn view(&self) -> ConfigView {
        ConfigView {
            download_dir: self.download_dir@,
            endpoint: self.endpoint@,
            download_dir_set: self.download_dir_set,
            hf_logged_in: self.hf_logged_in,
            language: opt_text(self.language),
        }
    }
}

impl Clone for AppConfig {
    fn clone(&self) -> (r: Self)
        ensures
            r@ == self@,
    {
        AppConfig {
            download_dir: self.download_dir.clone(),
            endpoint: self.endpoint.clone(),
            download_dir_set: self.download_dir_set,
            hf_logged_in: self.hf_logged_in,
            language: opt_clone(&self.language),
        }
    }
}

impl ConfigView {
    /// The settings of a first run: downloads go to `dir`, from the official site.
    pub open spec fn first(dir: Seq<char>) -> ConfigView {
        ConfigView {
            download_dir: dir,
            endpoint: Seq::empty(),
            download_dir_set: false,
            hf_logged_in: None,
            language: None,
        }
    }

    /// The settings that hold where these were stored and `dir` is the default directory: a
    /// directory that the user did not choose gives way to it.
    pub open spec fn loaded(self, dir: Seq<char>) -> ConfigView {
        if self.download_dir_set {
            self
        } else {
            ConfigView { download_dir: dir, ..self }
        }
    }
}

impl AppConfig {
    /// The settings of a first run.
    pub fn first(dir: &str) -> (r: AppConfig)
        ensures
            r@ == ConfigView::first(dir@),
    {
        let r = AppConfig {
            download_dir: dir.to_owned(),
            endpoint: String::new(),
            download_dir_set: false,
            hf_logged_in: None,
            language: None,
        };
        assert(r@.endpoint =~= Seq::<char>::empty());
        r
    }
}

/// Where downloads go by default, given the directory of the executable, the directory for
/// downloads and the home directory: the first of these that is known, else the working directory.
pub open spec fn default_place(
    exe_dir: Option<Seq<char>>,
    downloads: Option<Seq<char>>,
    home: Option<Seq<char>>,
) -> Seq<char> {
    match (exe_dir, downloads, home) {
        (Some(dir), _, _) => dir,
        (None, Some(dir), _) => dir,
        (None, None, Some(dir)) => dir,
        (None, None, None) => "."@,
    }
}

/// Where downloads go by default.
pub fn default_download_dir(
    exe_dir: &Option<String>,
    downloads: &Option<String>,
    home: &Option<String>,
) -> (r: String)
    ensures
        r@ == default_place(opt_text(*exe_dir), opt_text(*downloads), opt_text(*home)),
{
    match exe_dir {
        Some(dir) => dir.clone(),
        None => match downloads {
            Some(dir) => dir.clone(),
            None => match home {
                Some(dir) => dir.clone(),
                None => ".".to_owned(),
            },
        },
    }
}

/// Where the settings are kept.
pub struct ConfigPlace {
    /// A directory that has to be made first, if any.
    pub dir: Option<String>,
    pub file: String,
}

/// The directory of the settings where nobody knows where the executable is: `hf-downloader` below
/// the directory for settings, the home directory or the working directory.
pub open spec fn config_home(
    config_dir: Option<Seq<char>>,
    home: Option<Seq<char>>,
    sep: char,
) -> Seq<char> {
    path_join(
        match (config_dir, home) {
            (Some(dir), _) => dir,
            (None, Some(dir)) => dir,
            (None, None) => "."@,
        },
        "hf-downloader"@,
        sep,
    )
}

/// The directory that has to be made for the settings, if any, and their file.
pub open spec fn settings_place(
    exe_dir: Option<Seq<char>>,
    config_dir: Option<Seq<char>>,
    home: Option<Seq<char>>,
    sep: char,
) -> (Option<Seq<char>>, Seq<char>) {
    match exe_dir {
        Some(dir) => (None, path_join(dir, "config.json"@, sep)),
        None => {
            let dir = config_home(config_dir, home, sep);
            (Some(dir), path_join(dir, "config.json"@, sep))
        },
    }
}

/// Where the settings are kept: beside the executable, so that they travel with it.
pub fn config_path(
    exe_dir: &Option<String>,
    config_dir: &Option<String>,
    home: &Option<String>,
    sep: char,
) -> (r: ConfigPlace)
    ensures
        (opt_text(r.dir), r.file@) == settings_place(
            opt_text(*exe_dir),
            opt_text(*config_dir),
            opt_text(*home),
            sep,
        ),
        match *exe_dir {
            Some(dir) => r.dir is None && r.file@ == path_join(dir@, "config.json"@, sep),
            None => {
                let dir = config_home(opt_text(*config_dir), opt_text(*home), sep);
                &&& opt_text(r.dir) == Some(dir)
                &&& r.file@ == path_join(dir, "config.json"@, sep)
            },
        },
{
    match exe_dir {
        Some(dir) => ConfigPlace { dir: None, file: join_path(dir.as_str(), "config.json", sep) },
        None => {
            let base = match config_dir {
                Some(dir) => dir.clone(),
                None => match home {
                    Some(dir) => dir.clone(),
                    None => ".".to_owned(),
                },
            };
            let dir = join_path(base.as_str(), "hf-downloader", sep);
            let file = join_path(dir.as_str(), "config.json", sep);
            ConfigPlace { dir: Some(dir), file }
        },
    }
}

/// The settings of this run.
pub struct ConfigState {
    pub config: AppConfig,
}

impl ConfigState {
    /// Takes over the stored settings. Where there are none, or they cannot be read, the run
    /// starts as a first one.
    pub fn load(stored: &Option<AppConfig>, default_dir: &str) -> (r: ConfigState)
        ensures
            r.config@ == match *stored {
                Some(c) => c@.loaded(default_dir@),
                None => ConfigView::first(default_dir@),
            },
    {
        let config = match stored {
            Some(c) => {
                let mut config = c.clone();
                if !config.download_dir_set {
                    config.download_dir = default_dir.to_owned();
                }
                config
            },
            None => AppConfig::first(default_dir),
        };
        ConfigState { config }
    }
}

/// A directory that the user chose is kept; one that the user did not choose follows the
/// executable when it is moved. Loading is settled after one time.
pub proof fn law_chosen_directory_is_kept(c: ConfigView, dir: Seq<char>)
    ensures
        c.download_dir_set ==> c.loaded(dir) == c,
        !c.download_dir_set ==> c.loaded(dir).download_dir == dir,
        c.loaded(dir).loaded(dir) == c.loaded(dir),
        ConfigView::first(dir).loaded(dir) == ConfigView::first(dir),
{
}

} // verus!
