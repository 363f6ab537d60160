use std::path::{Path, PathBuf};

use ibroadcast_tui::config::{nonempty_trimmed, Bitrate, Cli, Config, ConfigFile};
use ibroadcast_tui::queue::PlaybackMode;
use ibroadcast_tui::storage::{
    safe_token_file_name, TokenPersistence, TokenSource, TokenStore, KEYRING_SERVICE,
};

fn no_cli() -> Cli {
    Cli {
        client_id: None,
        client_secret: None,
        download_dir: None,
        bitrate: None,
        log_level: "info".to_owned(),
    }
}

fn resolve(cli: &Cli, file: ConfigFile) -> Config {
    Config::resolve(
        cli,
        file,
        PathBuf::from("/config"),
        PathBuf::from("/config/config.toml"),
        PathBuf::from("/music"),
    )
}

#[test]
fn bitrates_cycle_through_all_values() {
    let mut bitrate = Bitrate::Kbps96;
    for expected in Bitrate::VALUES.into_iter().cycle().skip(1).take(6) {
        bitrate = bitrate.next();
        assert_eq!(bitrate, expected);
    }
}

#[test]
fn transcoded_bitrates_stream_over_hls() {
    assert!(Bitrate::Kbps96.is_hls_stream());
    assert!(Bitrate::Kbps320.is_hls_stream());
    assert!(!Bitrate::Kbps128.is_hls_stream());
    assert!(!Bitrate::Original.is_hls_stream());
    assert_eq!(Bitrate::Kbps192.stream_path_segment(), "hls_192");
    assert_eq!(Bitrate::Kbps128.stream_path_segment(), "128");
    assert_eq!(Bitrate::Original.stream_path_segment(), "orig");
}

#[test]
fn download_bitrates_are_limited_to_complete_files() {
    assert_eq!(Bitrate::Kbps96.nearest_download(), Bitrate::Kbps128);
    assert_eq!(Bitrate::Kbps320.nearest_download(), Bitrate::Kbps128);
    assert_eq!(Bitrate::Kbps128.nearest_download(), Bitrate::Kbps128);
    assert_eq!(Bitrate::Original.nearest_download(), Bitrate::Original);
    assert_eq!(Bitrate::Kbps128.next_download(), Bitrate::Original);
    assert_eq!(Bitrate::Original.next_download(), Bitrate::Kbps128);
}

#[test]
fn bitrates_have_numbers() {
    assert_eq!(Bitrate::from_u64(96), Some(Bitrate::Kbps96));
    assert_eq!(Bitrate::from_u64(320), Some(Bitrate::Kbps320));
    assert_eq!(Bitrate::from_u64(97), None);
    assert_eq!(Bitrate::Kbps256.as_path_segment(), "256");
    assert_eq!(Bitrate::Kbps96.target_bandwidth(), 96_000);
    assert_eq!(Bitrate::default(), Bitrate::Kbps128);
}

#[test]
fn an_empty_configuration_has_defaults() {
    let config = resolve(&no_cli(), ConfigFile::default());
    assert_eq!(config.client_id, None);
    assert_eq!(config.client_secret, None);
    assert_eq!(config.download_dir, Path::new("/music"));
    assert_eq!(config.playback_bitrate, None);
    assert_eq!(config.playback_mode, PlaybackMode::Sequential);
    assert_eq!(config.config_dir, Path::new("/config"));
    assert_eq!(config.config_file, Path::new("/config/config.toml"));
    assert!(!config.plain_token_file);
}

#[test]
fn the_command_line_goes_before_the_file() {
    let cli = Cli {
        client_id: Some(" cli ".to_owned()),
        client_secret: Some("  ".to_owned()),
        download_dir: Some(PathBuf::from("/elsewhere")),
        bitrate: Some(Bitrate::Kbps320),
        log_level: "info".to_owned(),
    };
    let file = ConfigFile {
        client_id: Some("file".to_owned()),
        download_dir: Some(PathBuf::from("/kept")),
        playback_bitrate: Some(Bitrate::Kbps96),
        playback_mode: Some(PlaybackMode::Shuffle),
        download_bitrate: Some(Bitrate::Kbps320),
        plain_token_file: Some(true),
    };
    let config = resolve(&cli, file);
    assert_eq!(config.client_id.as_deref(), Some("cli"));
    assert_eq!(config.client_secret, None);
    assert_eq!(config.download_dir, Path::new("/elsewhere"));
    assert_eq!(config.playback_bitrate, Some(Bitrate::Kbps320));
    assert_eq!(config.playback_mode, PlaybackMode::Shuffle);
    // Only complete files can be downloaded.
    assert_eq!(config.download_bitrate, Bitrate::Kbps128);
    assert!(config.plain_token_file);
}

#[test]
fn a_saved_configuration_is_read_back() {
    let file = ConfigFile {
        client_id: Some("id".to_owned()),
        download_dir: Some(PathBuf::from("/kept")),
        playback_bitrate: Some(Bitrate::Kbps96),
        playback_mode: Some(PlaybackMode::RepeatAll),
        download_bitrate: Some(Bitrate::Original),
        plain_token_file: Some(true),
    };
    let config = resolve(&no_cli(), file);
    let again = resolve(&no_cli(), config.to_file());
    assert_eq!(again.client_id, config.client_id);
    assert_eq!(again.download_dir, config.download_dir);
    assert_eq!(again.playback_bitrate, config.playback_bitrate);
    assert_eq!(again.playback_mode, config.playback_mode);
    assert_eq!(again.download_bitrate, config.download_bitrate);
    assert_eq!(again.plain_token_file, config.plain_token_file);
}

#[test]
fn blank_values_count_as_missing() {
    assert_eq!(nonempty_trimmed("  "), None);
    assert_eq!(nonempty_trimmed(" a b "), Some("a b"));
}

#[test]
fn tokens_are_kept_in_the_keyring_where_it_works() {
    let store = TokenStore::new(PathBuf::from("/config"), false);
    assert!(store.uses_keyring());
    assert_eq!(store.load_source(true), TokenSource::Keyring);
    assert_eq!(store.load_source(false), TokenSource::PlainFile);
    assert!(matches!(
        store.persistence(true, Ok(PathBuf::from("/t"))),
        Ok(TokenPersistence::KeyringWithPlainBackup(path)) if path == Path::new("/t")
    ));
    assert!(matches!(
        store.persistence(false, Ok(PathBuf::from("/t"))),
        Ok(TokenPersistence::PlainFile(path)) if path == Path::new("/t")
    ));
    let plain = TokenStore::new(PathBuf::from("/config"), true);
    assert!(!plain.uses_keyring());
    assert_eq!(plain.load_source(true), TokenSource::PlainFile);
    assert_eq!(KEYRING_SERVICE, "ibroadcast-tui");
}

#[test]
fn token_files_have_plain_names() {
    let store = TokenStore::new(PathBuf::from("/config"), true);
    assert_eq!(safe_token_file_name("a/b c"), "a_b c");
    assert_eq!(store.plain_file_name("a/b c"), "a_b c.json");
    assert!(!safe_token_file_name("../x").contains('/'));
}
