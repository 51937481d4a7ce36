use vstd::prelude::*;

use crate::text::{file_stem, stem_of};

verus! {

/// The host's configuration: the file names of the enabled plugins, the
/// address the router binds, and the address of the upstream application.
pub struct LoaderConfig {
    pub enabled: Vec<String>,
    pub bind_addr: String,
    pub send_addr: String,
}

/// The host's configuration under its short name.
pub type Config = LoaderConfig;

/// The bind address used when none is configured.
pub open spec fn default_bind_addr() -> Seq<char> {
    "0.0.0.0:9001"@
}

/// The upstream address used when none is configured.
pub open spec fn default_send_addr() -> Seq<char> {
    "127.0.0.1:9000"@
}

impl Default for LoaderConfig {
    fn default() -> (r: Self)
        ensures
            r.enabled@.len() == 0,
            r.bind_addr@ == default_bind_addr(),
            r.send_addr@ == default_send_addr(),
    {
        LoaderConfig {
            enabled: Vec::new(),
            bind_addr: String::from_str("0.0.0.0:9001"),
            send_addr: String::from_str("127.0.0.1:9000"),
        }
    }
}

/// The name of the host's configuration file: the executable's name
/// without its extension, with the extension `toml`.
pub open spec fn config_name(exe_name: Seq<char>) -> Seq<char> {
    file_stem(exe_name) + ".toml"@
}

/// The name of the configuration file that sits beside the executable
/// called `exe_name`.
pub fn config_file_name(exe_name: &str) -> (r: String)
    ensures
        r@ == config_name(exe_name@),
{
    let mut r = stem_of(exe_name);
    r.append(".toml");
    r
}

/// The clock plugin's settings.
pub struct ClockConfig {
    pub mode: bool,
    pub polling: u64,
    pub smooth: bool,
}

impl Default for ClockConfig {
    fn default() -> (r: Self)
        ensures
            !r.mode,
            r.polling == 1000,
            !r.smooth,
    {
        ClockConfig { mode: false, polling: 1000, smooth: false }
    }
}

/// The message template that the music plugins start with.
pub open spec fn default_format() -> Seq<char> {
    "📻 {song} - {artists}"@
}

/// The LastFM plugin's settings.
pub struct LastFMConfig {
    pub api_key: String,
    pub username: String,
    pub format: String,
    pub send_once: bool,
    pub polling: u64,
}

impl LastFMConfig {
    /// The default settings for an account's API key and user name.
    pub fn new(api_key: String, username: String) -> (r: Self)
        ensures
            r.api_key == api_key,
            r.username == username,
            r.format@ == default_format(),
            !r.send_once,
            r.polling == 10,
    {
        LastFMConfig {
            api_key,
            username,
            format: String::from_str("📻 {song} - {artists}"),
            send_once: false,
            polling: 10,
        }
    }
}

/// The Spotify plugin's settings.
pub struct SpotifyConfig {
    pub client_id: String,
    pub client_secret: String,
    pub redirect_uri: String,
    pub format: String,
    pub refresh_token: String,
    pub enable_chatbox: bool,
    pub enable_control: bool,
    pub pkce: bool,
    pub send_once: bool,
    pub send_lyrics: bool,
    pub polling: u64,
}

impl SpotifyConfig {
    /// The default settings for a developer application's credentials.
    pub fn new(client_id: String, client_secret: String, redirect_uri: String) -> (r: Self)
        ensures
            r.client_id == client_id,
            r.client_secret == client_secret,
            r.redirect_uri == redirect_uri,
            r.format@ == default_format(),
            r.refresh_token@.len() == 0,
            !r.enable_chatbox,
            !r.enable_control,
            !r.pkce,
            r.send_once,
            r.send_lyrics,
            r.polling == 1,
    {
        SpotifyConfig {
            client_id,
            client_secret,
            redirect_uri,
            format: String::from_str("📻 {song} - {artists}"),
            refresh_token: String::new(),
            enable_chatbox: false,
            enable_control: false,
            pkce: false,
            send_once: true,
            send_lyrics: true,
            polling: 1,
        }
    }

    /// Whether the plugin has anything to do, and so needs the application's
    /// credentials.
    pub fn needs_credentials(&self) -> (r: bool)
        ensures
            r == (self.enable_chatbox || self.enable_control),
    {
        self.enable_chatbox || self.enable_control
    }
}

/// The kinds of failure that the plugins report.
#[derive(Clone, Copy, Debug, PartialEq, Eq, Structural)]
pub enum VrcError {
    Io,
    Library,
    Missing,
    Osc,
    Serde,
    Spotify,
    Toml,
    Url,
}

/// The name under which each kind of failure is shown.
pub open spec fn error_name(e: VrcError) -> Seq<char> {
    match e {
        VrcError::Io => "IoError"@,
        VrcError::Library => "LibraryError"@,
        VrcError::Missing => "None"@,
        VrcError::Osc => "OscError"@,
        VrcError::Serde => "SerdeError"@,
        VrcError::Spotify => "SpotifyError"@,
        VrcError::Toml => "TomlError"@,
        VrcError::Url => "UrlError"@,
    }
}

impl VrcError {
    /// The name under which this failure is shown.
    pub fn name(&self) -> (r: &'static str)
        ensures
            r@ == error_name(*self),
    {
        match self {
            VrcError::Io => "IoError",
            VrcError::Library => "LibraryError",
            VrcError::Missing => "None",
            VrcError::Osc => "OscError",
            VrcError::Serde => "SerdeError",
            VrcError::Spotify => "SpotifyError",
            VrcError::Toml => "TomlError",
            VrcError::Url => "UrlError",
        }
    }
}

} // verus!
