use vrc_osc::config::{config_file_name, ClockConfig, LastFMConfig, LoaderConfig, SpotifyConfig, VrcError};
use vrc_osc::plugin::{enabled_plugins, is_library_file, library_names};
use vrc_osc::wizard::{sorted_names, Wizard};

fn strings(v: &[&str]) -> Vec<String> {
    v.iter().map(|s| s.to_string()).collect()
}

#[test]
fn library_extensions_are_matched_exactly() {
    assert!(is_library_file("plugin_clock.so"));
    assert!(is_library_file("plugin_clock.dll"));
    assert!(is_library_file("libplugin.dylib"));
    assert!(!is_library_file("plugin.SO"));
    assert!(!is_library_file("config.toml"));
    assert!(!is_library_file(".so"));
    assert!(!is_library_file("so"));
    assert!(!is_library_file("plugin.so.1"));
}

#[test]
fn library_names_keep_directory_order() {
    let files = strings(&["vrc-osc", "b.so", "vrc-osc.toml", "a.dll", "c.dylib", ".so"]);
    assert_eq!(library_names(&files), strings(&["b.so", "a.dll", "c.dylib"]));
}

#[test]
fn enabled_plugins_keep_name_order() {
    let names = strings(&["a.so", "b.so", "c.so"]);
    let enabled = strings(&["c.so", "a.so", "z.so"]);
    assert_eq!(enabled_plugins(&names, &enabled), strings(&["a.so", "c.so"]));
    assert!(enabled_plugins(&names, &Vec::new()).is_empty());
}

#[test]
fn names_are_sorted_for_the_wizard() {
    let names = strings(&["plugin_spotify.so", "plugin_clock.so", "plugin_chatbox.so", "plugin_clock.so"]);
    assert_eq!(
        sorted_names(&names),
        strings(&["plugin_chatbox.so", "plugin_clock.so", "plugin_clock.so", "plugin_spotify.so"])
    );
    assert_eq!(sorted_names(&strings(&["b", "B", "a"])), strings(&["B", "a", "b"]));
}

#[test]
fn wizard_with_no_libraries_gives_no_config() {
    let w = Wizard::new(&Vec::new());
    assert_eq!(w.pending(), None);
    assert!(w.finish().is_none());
}

#[test]
fn wizard_with_everything_declined_gives_no_config() {
    let mut w = Wizard::new(&strings(&["b.so", "a.so"]));
    while w.pending().is_some() {
        w.answer(false);
    }
    assert!(w.finish().is_none());
}

#[test]
fn wizard_asks_in_order_and_keeps_accepted() {
    let mut w = Wizard::new(&strings(&["b.so", "c.so", "a.so"]));
    assert_eq!(w.pending(), Some("a.so".to_string()));
    w.answer(true);
    assert_eq!(w.pending(), Some("b.so".to_string()));
    w.answer(false);
    assert_eq!(w.pending(), Some("c.so".to_string()));
    w.answer(true);
    assert_eq!(w.pending(), None);
    let config = w.finish().expect("two plugins were enabled");
    assert_eq!(config.enabled, strings(&["a.so", "c.so"]));
    assert_eq!(config.bind_addr, "0.0.0.0:9001");
    assert_eq!(config.send_addr, "127.0.0.1:9000");
}

#[test]
fn loader_config_defaults() {
    let c = LoaderConfig::default();
    assert!(c.enabled.is_empty());
    assert_eq!(c.bind_addr, "0.0.0.0:9001");
    assert_eq!(c.send_addr, "127.0.0.1:9000");
}

#[test]
fn plugin_config_defaults() {
    let clock = ClockConfig::default();
    assert!(!clock.mode && !clock.smooth);
    assert_eq!(clock.polling, 1000);
    let lastfm = LastFMConfig::new("key".to_string(), "user".to_string());
    assert_eq!(lastfm.format, "📻 {song} - {artists}");
    assert_eq!((lastfm.api_key.as_str(), lastfm.username.as_str(), lastfm.polling), ("key", "user", 10));
    let spotify = SpotifyConfig::new("id".to_string(), "secret".to_string(), "http://localhost".to_string());
    assert_eq!(spotify.polling, 1);
    assert!(spotify.send_once && spotify.send_lyrics && !spotify.pkce);
    assert!(spotify.refresh_token.is_empty());
    assert!(!spotify.needs_credentials());
}

#[test]
fn error_names() {
    assert_eq!(VrcError::Io.name(), "IoError");
    assert_eq!(VrcError::Missing.name(), "None");
    assert_eq!(VrcError::Url.name(), "UrlError");
    assert_eq!(VrcError::Toml.name(), "TomlError");
}

#[test]
fn config_file_is_named_after_the_executable() {
    assert_eq!(config_file_name("vrc-osc.exe"), "vrc-osc.toml");
    assert_eq!(config_file_name("vrc-osc"), "vrc-osc.toml");
    assert_eq!(config_file_name("vrc.osc.bin"), "vrc.osc.toml");
    assert_eq!(config_file_name(".host"), ".host.toml");
}
