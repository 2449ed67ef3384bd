//! The settings of the client: which forum it talks to, and with which key.

use vstd::prelude::*;
use vstd::string::StringExecFns;

verus! {

/// The forum that the client talks to unless told otherwise.
pub const DEFAULT_SITE_URL: &'static str = "https://linux.do";

/// The directory of the client below the user's configuration directory.
pub const CONFIG_DIR_NAME: &'static str = "/ldui";

/// The file of the settings in the directory of the client.
pub const CONFIG_FILE_NAME: &'static str = "/config.toml";

/// The directory that holds the image files if the user has no cache directory.
pub const FALLBACK_CACHE_DIR: &'static str = "./.cache";

/// The directory of the image files below the cache directory.
pub const IMAGE_DIR_NAME: &'static str = "/ldui/images";

/// How the forum is reached.
#[derive(Debug)]
pub struct DiscourseConfig {
    /// The address of the forum.
    pub url: String,
    /// The key of the user; empty as long as none was generated.
    pub api_key: String,
}

/// The settings of the client.
#[derive(Debug)]
pub struct Config {
    pub discourse: DiscourseConfig,
}

/// What a `Config` stands for.
pub struct ConfigModel {
    pub url: Seq<char>,
    pub api_key: Seq<char>,
}

impl View for DiscourseConfig {
    type V = ConfigModel;

    open spec fn view(&self) -> ConfigModel {
        ConfigModel { url: self.url@, api_key: self.api_key@ }
    }
}

impl View for Config {
    type V = ConfigModel;

    open spec fn view(&self) -> ConfigModel {
        self.discourse@
    }
}

impl Clone for DiscourseConfig {
    fn clone(&self) -> (copy: Self)
        ensures
            copy@ == self@,
    {
        DiscourseConfig { url: self.url.clone(), api_key: self.api_key.clone() }
    }
}

impl Clone for Config {
    fn clone(&self) -> (copy: Self)
        ensures
            copy@ == self@,
    {
        Config { discourse: self.discourse.clone() }
    }
}

impl Config {
    /// The settings of a first run: the default forum and no key.
    pub fn default() -> (config: Self)
        ensures
            config@.url == DEFAULT_SITE_URL@,
            config@.api_key == Seq::<char>::empty(),
    {
        Config {
            discourse: DiscourseConfig {
                url: String::from_str(DEFAULT_SITE_URL),
                api_key: String::new(),
            },
        }
    }

    /// Tells whether a key is set.
    pub fn has_valid_api_key(&self) -> (valid: bool)
        ensures
            valid == (self@.api_key.len() > 0),
    {
        !self.discourse.api_key.as_str().is_empty()
    }
}

/// Puts a key and the forum it belongs to into the settings.
pub fn update_config_with_api_key(config: &mut Config, api_key: &str, site_url: &str)
    ensures
        final(config)@ == (ConfigModel { url: site_url@, api_key: api_key@ }),
{
    config.discourse = DiscourseConfig {
        url: String::from_str(site_url),
        api_key: String::from_str(api_key),
    };
}

/// The file of the settings, given the user's configuration directory.
pub fn config_path_in(config_dir: &str) -> (path: String)
    ensures
        path@ == config_dir@ + CONFIG_DIR_NAME@ + CONFIG_FILE_NAME@,
{
    let mut path = String::from_str(config_dir);
    path.append(CONFIG_DIR_NAME);
    path.append(CONFIG_FILE_NAME);
    path
}

/// The directory of the image files, given the user's cache directory if there is one.
pub fn image_cache_dir(cache_dir: Option<&str>) -> (path: String)
    ensures
        path@ == match cache_dir {
            Some(dir) => dir@,
            None => FALLBACK_CACHE_DIR@,
        } + IMAGE_DIR_NAME@,
{
    let mut path = match cache_dir {
        Some(dir) => String::from_str(dir),
        None => String::from_str(FALLBACK_CACHE_DIR),
    };
    path.append(IMAGE_DIR_NAME);
    path
}

} // verus!
