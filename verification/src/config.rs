//! The configuration snapshot the engine runs with, and the in-memory
//! store that holds the current configuration together with the path
//! of the file it is persisted in. Reading and writing that file is
//! the surrounding process's job; the store itself only keeps values.

use vstd::prelude::*;
use vstd::string::*;

verus! {

/// What to do with the original after a successful conversion: leave
/// it beside the output, or retire it to the recycle location.
#[derive(Clone, Copy, Debug, PartialEq, Eq, Structural)]
pub enum OutputPolicy {
    Coexist,
    Replace,
}

/// The user-interface language.
#[derive(Clone, Copy, Debug, PartialEq, Eq, Structural)]
pub enum AppLocale {
    En,
    Ja,
}

/// The immutable configuration snapshot one engine run consumes.
#[derive(Debug)]
pub struct AppConfig {
    pub watch_folders: Vec<String>,
    pub recursive_watch: bool,
    pub output_policy: OutputPolicy,
    pub jpeg_quality: u8,
    pub rescan_interval_secs: u64,
    pub paused: bool,
    pub locale: AppLocale,
}

/// The mathematical value of a configuration snapshot.
pub struct ConfigModel {
    pub watch_folders: Seq<Seq<char>>,
    pub recursive_watch: bool,
    pub output_policy: OutputPolicy,
    pub jpeg_quality: u8,
    pub rescan_interval_secs: u64,
    pub paused: bool,
    pub locale: AppLocale,
}

impl View for AppConfig {
    type V = ConfigModel;

    open spec fn view(&self) -> ConfigModel {
        ConfigModel {
            watch_folders: self.watch_folders.deep_view(),
            recursive_watch: self.recursive_watch,
            output_policy: self.output_policy,
            jpeg_quality: self.jpeg_quality,
            rescan_interval_secs: self.rescan_interval_secs,
            paused: self.paused,
            locale: self.locale,
        }
    }
}

impl Clone for AppConfig {
    fn clone(&self) -> (r: Self)
        ensures
            r@ == self@,
    {
        let folders = self.watch_folders.clone();
        proof {
            assert forall|i: int| 0 <= i < self.watch_folders@.len() implies folders@[i]@
                == self.watch_folders@[i]@ by {
            }
            assert(folders.deep_view() =~= self.watch_folders.deep_view());
        }
        AppConfig {
            watch_folders: folders,
            recursive_watch: self.recursive_watch,
            output_policy: self.output_policy,
            jpeg_quality: self.jpeg_quality,
            rescan_interval_secs: self.rescan_interval_secs,
            paused: self.paused,
            locale: self.locale,
        }
    }
}

/// The rescan interval a fresh configuration starts with, in seconds.
pub fn default_rescan_interval_secs() -> (r: u64)
    ensures
        r == 60,
{
    60
}

/// The locale a fresh configuration starts with.
pub fn default_locale() -> (r: AppLocale)
    ensures
        r == AppLocale::En,
{
    AppLocale::En
}

impl Default for AppConfig {
    /// A fresh configuration: nothing watched, single-level watching,
    /// outputs coexist with originals, quality 92, a rescan every 60
    /// seconds, not paused, English.
    fn default() -> (r: AppConfig)
        ensures
            r@.watch_folders == Seq::<Seq<char>>::empty(),
            !r@.recursive_watch,
            r@.output_policy == OutputPolicy::Coexist,
            r@.jpeg_quality == 92,
            r@.rescan_interval_secs == 60,
            !r@.paused,
            r@.locale == AppLocale::En,
    {
        let folders: Vec<String> = Vec::new();
        assert(folders.deep_view() =~= Seq::<Seq<char>>::empty());
        AppConfig {
            watch_folders: folders,
            recursive_watch: false,
            output_policy: OutputPolicy::Coexist,
            jpeg_quality: 92,
            rescan_interval_secs: default_rescan_interval_secs(),
            paused: false,
            locale: default_locale(),
        }
    }
}

/// The current configuration and the path of the file that persists
/// it. The surrounding process loads and saves the file; the store
/// only holds the values in between.
pub struct ConfigStore {
    path: String,
    config: AppConfig,
}

impl ConfigStore {
    /// The stored configuration's value.
    pub closed spec fn spec_config(self) -> ConfigModel {
        self.config@
    }

    /// The stored file path's value.
    pub closed spec fn spec_path(self) -> Seq<char> {
        self.path@
    }

    /// A store over the given file path and configuration.
    pub fn new(path: String, config: AppConfig) -> (r: ConfigStore)
        ensures
            r.spec_path() == path@,
            r.spec_config() == config@,
    {
        ConfigStore { path, config }
    }

    /// The current configuration.
    pub fn config(&self) -> (r: &AppConfig)
        ensures
            r@ == self.spec_config(),
    {
        &self.config
    }

    /// Replaces the whole configuration.
    pub fn replace_config(&mut self, config: AppConfig)
        ensures
            final(self).spec_config() == config@,
            final(self).spec_path() == old(self).spec_path(),
    {
        self.config = config;
    }

    /// The path of the file the configuration is persisted in.
    pub fn config_path(&self) -> (r: &str)
        ensures
            r@ == self.spec_path(),
    {
        self.path.as_str()
    }

    /// Sets only the paused flag.
    pub fn set_paused(&mut self, paused: bool)
        ensures
            final(self).spec_config() == (ConfigModel { paused, ..old(self).spec_config() }),
            final(self).spec_path() == old(self).spec_path(),
    {
        self.config.paused = paused;
    }

    /// Sets only the locale.
    pub fn set_locale(&mut self, locale: AppLocale)
        ensures
            final(self).spec_config() == (ConfigModel { locale, ..old(self).spec_config() }),
            final(self).spec_path() == old(self).spec_path(),
    {
        self.config.locale = locale;
    }
}

/// Where the configuration file lives under the platform's
/// configuration directory.
pub fn config_file_path(app_config_dir: &str) -> (r: String)
    ensures
        r@ == app_config_dir@ + "/heic-ready/config.json"@,
{
    let mut s = String::new();
    s.append(app_config_dir);
    s.append("/heic-ready/config.json");
    s
}

/// Where a configuration save writes before its atomic rename: the
/// final path with a `.tmp` suffix.
pub fn tmp_path_for(path: &str) -> (r: String)
    ensures
        r@ == path@ + ".tmp"@,
{
    let mut s = String::new();
    s.append(path);
    s.append(".tmp");
    s
}

} // verus!
