use std::path::{Path, PathBuf};

use ibroadcast_tui::downloads::{
    build_download_path, extension_from_mime, may_remove_dir, part_file_name, sanitize_component,
    scan_list, DownloadManager, MAX_COMPONENT_CHARS,
};
use ibroadcast_tui::error::AppError;
use ibroadcast_tui::library::{Album, Artist, Library, Track};

fn sample() -> (Library, Track) {
    let mut library = Library::default();
    library.artists.insert(
        1,
        Artist {
            id: 1,
            name: "Artist/One".to_owned(),
            ..Artist::default()
        },
    );
    library.albums.insert(
        2,
        Album {
            id: 2,
            name: "Album:Two".to_owned(),
            ..Album::default()
        },
    );
    let track = Track {
        artist_id: 1,
        album_id: 2,
        track: 3,
        title: "Song*Three".to_owned(),
        mime_type: "audio/mpeg3".to_owned(),
        ..Track::default()
    };
    (library, track)
}

fn path_below(root: &Path, library: &Library, track: &Track) -> PathBuf {
    let path = build_download_path(library, track);
    root.join(path.artist).join(path.album).join(path.file_name)
}

#[test]
fn download_sanitizes_cross_platform_file_components() {
    assert_eq!(sanitize_component("A/B:C*D?"), "A_B_C_D_");
    assert_eq!(sanitize_component("CON"), "CON_");
    assert_eq!(sanitize_component("  ...  "), "_");
}

#[test]
fn download_maps_audio_mime_types() {
    assert_eq!(extension_from_mime("audio/mpeg3"), "mp3");
    assert_eq!(extension_from_mime("audio/flac"), "flac");
    assert_eq!(extension_from_mime("audio/mp4"), "m4a");
}

#[test]
fn download_builds_download_paths() {
    let (library, track) = sample();
    assert_eq!(
        path_below(Path::new("root"), &library, &track),
        Path::new("root")
            .join("Artist_One")
            .join("Album_Two")
            .join("03 - Song_Three.mp3")
    );
}

#[test]
fn downloads_sanitizes_cross_platform_file_components() {
    assert_eq!(sanitize_component("A/B:C*D?"), "A_B_C_D_");
    assert_eq!(sanitize_component("CON"), "CON_");
    assert_eq!(sanitize_component("  ...  "), "_");
}

#[test]
fn downloads_maps_audio_mime_types() {
    assert_eq!(extension_from_mime("audio/mpeg3"), "mp3");
    assert_eq!(extension_from_mime("audio/flac"), "flac");
    assert_eq!(extension_from_mime("audio/mp4"), "m4a");
}

#[test]
fn downloads_builds_download_paths() {
    let (library, track) = sample();
    assert_eq!(
        path_below(Path::new("root"), &library, &track),
        Path::new("root")
            .join("Artist_One")
            .join("Album_Two")
            .join("03 - Song_Three.mp3")
    );
}

#[test]
fn manager_tracks_task_and_local_state() {
    let mut manager = DownloadManager::default();
    assert_eq!(manager.storage_label(7), "");

    let task = manager.begin(7);
    assert!(manager.is_running(7));
    assert_eq!(manager.storage_label(7), "downloading");

    manager.complete(task, &Ok(PathBuf::from("x.mp3")));
    assert!(!manager.is_running(7));
    assert!(manager.is_local(7));
    assert_eq!(manager.storage_label(7), "local");
    assert_eq!(manager.local_count(), 1);

    manager.mark_not_local(7);
    assert!(!manager.is_local(7));

    let task = manager.begin(8);
    manager.complete::<PathBuf>(task, &Err(AppError::Api("boom".to_owned())));
    assert_eq!(manager.storage_label(8), "failed");
    assert_eq!(manager.running_count(), 0);
}

#[test]
fn completions_of_forgotten_tasks_are_ignored() {
    let mut manager = DownloadManager::default();
    let task = manager.begin(7);
    manager.clear();
    assert!(!manager.complete(task, &Ok(())));
    assert!(!manager.is_local(7));
    assert_eq!(manager.storage_label(7), "");
    // Ids are not handed out again.
    assert_ne!(manager.begin(7), task);
}

#[test]
fn a_scan_replaces_what_was_local() {
    let mut manager = DownloadManager::default();
    manager.rescan(&vec![(1, true), (2, false), (3, true)]);
    assert_eq!(manager.local_count(), 2);
    manager.rescan(&vec![(2, true)]);
    assert!(manager.is_local(2));
    assert!(!manager.is_local(1));

    let (mut library, track) = sample();
    library.tracks.insert(4, track.clone());
    let list = scan_list(&library);
    assert_eq!(list.len(), 1);
    assert_eq!(list[0].0, 4);
    assert_eq!(list[0].1.artist, "Artist_One");

    library.tracks.insert(9, track);
    let mut ids: Vec<u64> = scan_list(&library).iter().map(|entry| entry.0).collect();
    ids.sort();
    assert_eq!(ids, vec![4, 9]);
}

#[test]
fn components_are_safe_and_short() {
    assert_eq!(sanitize_component(""), "_");
    assert_eq!(sanitize_component("a\u{7}b"), "a_b");
    assert_eq!(sanitize_component("name. "), "name");
    assert_eq!(sanitize_component("lpt1"), "lpt1_");
    assert_eq!(sanitize_component("a   b\t c"), "a b_ c");
    assert_eq!(sanitize_component("..").contains(".."), false);
    let long = sanitize_component(&"x".repeat(500));
    assert_eq!(long.chars().count(), MAX_COMPONENT_CHARS);

    // Cutting leaves no space or full stop at the end, and makes no reserved name.
    let stem = "a".repeat(119);
    assert_eq!(sanitize_component(&format!("{stem} b")), stem);
    assert_eq!(sanitize_component(&format!("{stem}.b")), stem);
    assert_eq!(sanitize_component(&format!("{stem}bc")), format!("{stem}b"));
    assert_eq!(
        sanitize_component(&format!("CON{}x", ".".repeat(118))),
        "CON_"
    );
}

#[test]
fn mime_types_without_a_known_extension() {
    assert_eq!(extension_from_mime("AUDIO/OGG"), "ogg");
    assert_eq!(extension_from_mime("audio/opus"), "ogg");
    assert_eq!(extension_from_mime("audio/x-wav"), "wav");
    assert_eq!(extension_from_mime("audio/aac"), "m4a");
    assert_eq!(extension_from_mime("text/html"), "audio");
}

#[test]
fn partial_files_have_a_name_of_their_own() {
    assert_eq!(part_file_name(Some("03 - Song.mp3")), "03 - Song.mp3.part");
    assert_eq!(part_file_name(None), "download.part");
}

#[test]
fn only_directories_below_the_root_are_removed() {
    let parts = |path: &str| -> Vec<Vec<u8>> {
        path.split('/').map(|part| part.as_bytes().to_vec()).collect()
    };
    assert!(may_remove_dir(&parts("music/a/b"), &parts("music")));
    assert!(!may_remove_dir(&parts("music"), &parts("music")));
    assert!(!may_remove_dir(&parts("other/a"), &parts("music")));
    assert!(!may_remove_dir(&parts("musical/a"), &parts("music")));
}
