//! Configuration: the settings document's data model, the paths of the
//! working files under the user's configuration directory, and the small
//! presentation types the settings carry.

use crate::text::dec_string;
use vstd::prelude::*;

verus! {

/// Relies on `dirs::home_dir`: the user's home directory, if the platform
/// reports one, as a string. The result depends on the environment, so
/// nothing is promised of it.
#[verifier::external_body]
pub fn home_dir() -> (r: Option<String>) {
    match dirs::home_dir() {
        Some(p) => p.to_str().map(|s| s.to_string()),
        None => None,
    }
}

/// The configuration directory under the given home directory.
pub fn get_configs_dir(home: &str) -> (r: String)
    ensures
        r@ == home@ + "/.lyrica"@,
{
    let mut r = String::from_str(home);
    r.append("/.lyrica");
    r
}

/// The scratch directory downloads land in before import.
pub fn get_temp_dl_dir(home: &str) -> (r: String)
    ensures
        r@ == home@ + "/.lyrica/tmp"@,
{
    let mut r = String::from_str(home);
    r.append("/.lyrica/tmp");
    r
}

/// The settings document's path.
pub fn get_config_path(home: &str) -> (r: String)
    ensures
        r@ == home@ + "/.lyrica/config.toml"@,
{
    let mut r = String::from_str(home);
    r.append("/.lyrica/config.toml");
    r
}

/// The scratch copy of the on-device database made while parsing.
pub fn get_temp_itunesdb(home: &str) -> (r: String)
    ensures
        r@ == home@ + "/.lyrica/idb"@,
{
    let mut r = String::from_str(home);
    r.append("/.lyrica/idb");
    r
}

/// The timestamped backup location the previous on-device database is
/// copied to before each overwrite.
pub fn get_backup_itunesdb(home: &str, now_secs: u64) -> (r: String)
    ensures
        r@ == home@ + "/.lyrica/backup/iTunesDB-"@ + crate::text::dec_seq(now_secs),
{
    let mut r = String::from_str(home);
    r.append("/.lyrica/backup/iTunesDB-");
    r.append(dec_string(now_secs).as_str());
    r
}

/// The cloud-audio provider's account settings.
pub struct SoundCloudConfiguration {
    pub user_id: u64,
}

/// The video platform's account settings.
pub struct YouTubeConfiguration {
    pub user_id: String,
}

/// The persisted settings document.
pub struct LyricaConfiguration {
    pub soundcloud: SoundCloudConfiguration,
    pub youtube: YouTubeConfiguration,
}

impl LyricaConfiguration {
    /// The cloud-audio provider's settings.
    pub fn get_soundcloud(&self) -> (r: &SoundCloudConfiguration)
        ensures
            r == self.soundcloud,
    {
        &self.soundcloud
    }

    /// The video platform's settings.
    pub fn get_youtube(&self) -> (r: &YouTubeConfiguration)
        ensures
            r == self.youtube,
    {
        &self.youtube
    }
}

impl Default for LyricaConfiguration {
    /// The settings written when no document exists yet: zero account ids.
    fn default() -> (r: Self)
        ensures
            r.soundcloud.user_id == 0,
            r.youtube.user_id@ == Seq::<char>::empty(),
    {
        LyricaConfiguration {
            soundcloud: SoundCloudConfiguration { user_id: 0 },
            youtube: YouTubeConfiguration { user_id: String::new() },
        }
    }
}

/// The two colors of the presentation theme, packed as `0x00RRGGBB`.
pub struct Theme {
    pub background: u32,
    pub foreground: u32,
}

impl Theme {
    /// The background color word.
    pub fn background(&self) -> (r: u32)
        ensures
            r == self.background,
    {
        self.background
    }

    /// The foreground color word.
    pub fn foreground(&self) -> (r: u32)
        ensures
            r == self.foreground,
    {
        self.foreground
    }
}

impl Default for Theme {
    fn default() -> (r: Self)
        ensures
            r.background == 0x00D75FAF,
            r.foreground == u32::MAX,
    {
        Theme { background: 0x00D75FAF, foreground: u32::MAX }
    }
}

/// The main screen's tab kinds.
#[derive(PartialEq, Eq, Structural, Clone, Copy)]
pub enum TabType {
    Youtube,
    Soundcloud,
    Playlists,
}

impl From<i8> for TabType {
    /// Tab index zero is the video platform, one the cloud provider, and
    /// anything else the on-device playlists.
    fn from(value: i8) -> (r: Self) {
        match value {
            0 => TabType::Youtube,
            1 => TabType::Soundcloud,
            _ => TabType::Playlists,
        }
    }
}

impl vstd::std_specs::convert::FromSpecImpl<i8> for TabType {
    open spec fn obeys_from_spec() -> bool {
        true
    }

    open spec fn from_spec(value: i8) -> Self {
        if value == 0 {
            TabType::Youtube
        } else if value == 1 {
            TabType::Soundcloud
        } else {
            TabType::Playlists
        }
    }
}

impl TabType {
    /// The tab's display title.
    pub fn title(self) -> (r: String)
        ensures
            self is Youtube ==> r@ == "YouTube"@,
            self is Soundcloud ==> r@ == "SoundCloud"@,
            self is Playlists ==> r@ == "Local Playlists"@,
    {
        match self {
            TabType::Youtube => String::from_str("YouTube"),
            TabType::Soundcloud => String::from_str("SoundCloud"),
            TabType::Playlists => String::from_str("Local Playlists"),
        }
    }
}

} // verus!
