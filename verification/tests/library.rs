use std::cmp::Ordering;
use std::collections::BTreeMap;

use ibroadcast_tui::error::AppError;
use ibroadcast_tui::json::{value_to_i64, value_to_u64, Json};
use ibroadcast_tui::library::{Album, Artist, Library, Playlist, Tag, Track};
use ibroadcast_tui::sorting::{order_texts, sorted_positions, TrackKey};

fn artist(name: &str) -> Artist {
    Artist {
        name: name.to_owned(),
        ..Artist::default()
    }
}

fn album(name: &str) -> Album {
    Album {
        name: name.to_owned(),
        ..Album::default()
    }
}

fn track(id: u64, artist_id: u64, album_id: u64, number: i64, title: &str) -> Track {
    Track {
        id,
        artist_id,
        album_id,
        track: number,
        title: title.to_owned(),
        ..Track::default()
    }
}

fn sample() -> Library {
    let mut library = Library::default();
    library.artists.insert(1, artist("Zoë"));
    library.artists.insert(2, artist("abba"));
    library.albums.insert(1, album("Beta"));
    library.albums.insert(2, album("alpha"));
    let tracks = [
        track(10, 1, 1, 2, "Second"),
        track(11, 1, 1, 1, "First"),
        track(12, 2, 2, 1, "Über"),
        track(13, 2, 1, 9, "Ninth"),
        Track {
            trashed: true,
            ..track(14, 2, 2, 1, "Gone")
        },
    ];
    for track in tracks {
        library.tracks.insert(track.id, track);
    }
    library
}

#[test]
fn decodes_mapped_library_collections() {
    let raw = Json::parse(
        r#"{
            "tracks": {
                "211504300": [
                    1, 2013, "Pop Up", "Pop", 105, 78903103, 160155,
                    22917502, 0, "2021-02-17", false, 2573544, "",
                    "", 0, 0, "/128/74c/fdd/10026629", "audio/mpeg3",
                    "-7.9", "18:42:39"
                ],
                "map": {
                    "length": 4, "track": 0, "title": 2, "album_id": 5,
                    "artist_id": 7, "file": 16, "type": 17, "trashed": 10
                }
            },
            "albums": {
                "78903103": ["Digital Guilt", [211504300], 22917502, false, 0, 0, 2013],
                "map": {"name": 0, "tracks": 1, "artist_id": 2, "trashed": 3}
            },
            "artists": {
                "22917502": ["Zoe.LeelA", [211504300], false, 0],
                "map": {"name": 0, "tracks": 1, "trashed": 2, "rating": 3}
            },
            "playlists": {},
            "tags": {
                "455976": {"name": "Test Tag", "archived": false, "tracks": [211504300]}
            }
        }"#,
    )
    .unwrap();

    let library = Library::from_value(&raw).unwrap();
    assert_eq!(library.tracks[&211504300].title, "Pop Up");
    assert_eq!(library.albums[&78903103].tracks, vec![211504300]);
    assert_eq!(library.artist_name(22917502), "Zoe.LeelA");
    assert_eq!(library.tags[&455976].name, "Test Tag");

    let track = &library.tracks[&211504300];
    assert_eq!(track.id, 211504300);
    assert_eq!(track.track, 1);
    assert_eq!(track.length, 105);
    assert_eq!(track.file, "/128/74c/fdd/10026629");
    assert_eq!(track.mime_type, "audio/mpeg3");
    assert!(!track.trashed);
    assert_eq!(track.duration_label(), "1:45");
    assert_eq!(library.track_label(211504300), "Zoe.LeelA - Pop Up");
    assert_eq!(library.album_name(78903103), "Digital Guilt");
}

#[test]
fn a_library_that_is_no_object_is_refused() {
    let raw = Json::parse("[1, 2]").unwrap();
    match Library::from_value(&raw) {
        Err(AppError::Library(message)) => assert_eq!(message, "library root is not an object"),
        other => panic!("unexpected {other:?}"),
    }
    let empty = Library::from_value(&Json::parse("{}").unwrap()).unwrap();
    assert!(empty.tracks.is_empty());
}

#[test]
fn json_is_parsed_and_read() {
    let value = Json::parse(r#"{"a": 1, "b": "2", "c": [true, null], "a": -3}"#).unwrap();
    assert_eq!(value.get("b").unwrap().as_str(), Some("2"));
    assert_eq!(value_to_u64(value.get("b").unwrap()), Some(2));
    assert_eq!(value_to_i64(value.get("a").unwrap()), Some(-3));
    assert_eq!(value_to_u64(value.get("a").unwrap()), None);
    assert_eq!(value.get("c").unwrap().as_array().unwrap().len(), 2);
    assert_eq!(
        value.get("c").unwrap().as_array().unwrap()[0].as_bool(),
        Some(true)
    );
    assert!(value.get("d").is_none());
    assert!(value.as_object().is_some());
    assert!(Json::parse("{").is_err());
    assert_eq!(
        Json::parse("18446744073709551615").unwrap().as_u64(),
        Some(u64::MAX)
    );
    assert_eq!(Json::parse("1.5").unwrap().as_u64(), None);
    assert_eq!(value_to_u64(&Json::parse("\"+7\"").unwrap()), Some(7));
    assert_eq!(value_to_u64(&Json::parse("\" 7\"").unwrap()), None);
}

#[test]
fn unknown_artists_and_tracks_have_names_too() {
    let library = sample();
    assert_eq!(library.artist_name(99), "Unknown Artist");
    assert_eq!(library.album_name(99), "Unknown Album");
    assert_eq!(library.track_label(99), "Track 99");
}

#[test]
fn tracks_are_listed_by_artist_album_number_and_title() {
    let library = sample();
    assert_eq!(library.sorted_track_ids(), vec![11, 10, 13, 12]);
    assert_eq!(library.compare_tracks(13, 12), Ordering::Less);
    assert_eq!(library.compare_tracks(10, 11), Ordering::Greater);
    assert_eq!(library.compare_tracks(10, 10), Ordering::Equal);
}

#[test]
fn searches_look_at_titles_artists_and_albums_whatever_their_case() {
    let library = sample();
    assert_eq!(library.search_track_ids("ÜBER"), vec![12]);
    assert_eq!(library.search_track_ids("  zoë "), vec![11, 10]);
    assert_eq!(library.search_track_ids("BETA"), vec![11, 10, 13]);
    assert_eq!(library.search_track_ids(""), vec![11, 10, 13, 12]);
    assert_eq!(library.search_track_ids(" \t"), vec![11, 10, 13, 12]);
    assert_eq!(library.search_track_ids("gone"), Vec::<u64>::new());
    assert_eq!(library.search_track_ids("nothing"), Vec::<u64>::new());
}

#[test]
fn searching_more_narrowly_finds_no_other_tracks() {
    let library = sample();
    let wide = library.search_track_ids("b");
    let narrow = library.search_track_ids("bet");
    assert!(narrow.iter().all(|id| wide.contains(id)));
    assert!(narrow.len() < wide.len());
}

#[test]
fn lengths_are_shown_in_minutes_and_seconds() {
    let label = |length: i64| {
        Track {
            length,
            ..Track::default()
        }
        .duration_label()
    };
    assert_eq!(label(0), "0:00");
    assert_eq!(label(61), "1:01");
    assert_eq!(label(-5), "0:00");
    assert_eq!(label(3600), "60:00");
}

#[test]
fn texts_are_ordered_as_strings_are() {
    let words = ["", "a", "ab", "b", "Ä", "zz", "\u{10FFFF}"];
    for left in words {
        for right in words {
            let a: Vec<char> = left.chars().collect();
            let b: Vec<char> = right.chars().collect();
            let expected = match left.cmp(right) {
                Ordering::Less => -1,
                Ordering::Equal => 0,
                Ordering::Greater => 1,
            };
            assert_eq!(order_texts(&a, &b), expected);
        }
    }
}

#[test]
fn positions_are_sorted() {
    let mut keys: Vec<TrackKey> = Vec::new();
    let numbers = [5_i64, 3, 9, 1, 7, 3];
    for (id, number) in numbers.iter().enumerate() {
        keys.push(TrackKey {
            artist: vec![],
            album: vec![],
            number: *number,
            title: vec![],
            id: id as u64,
        });
    }
    let positions = sorted_positions(&keys, 0, keys.len());
    assert_eq!(positions, vec![3, 1, 5, 0, 4, 2]);
}

#[test]
fn defaults_are_empty() {
    assert_eq!(Playlist::default().name, "");
    assert!(Playlist::default().tracks.is_empty());
    assert!(!Tag::default().archived);
    assert_eq!(Track::default().id, 0);
}

#[test]
fn decoded_ids_are_the_keys() {
    let raw = Json::parse(
        r#"{"tracks": {"5": ["x"], "y": ["z"], "map": {"title": 0}}, "expires": 12}"#,
    )
    .unwrap();
    let library = Library::from_value(&raw).unwrap();
    let ids: BTreeMap<u64, u64> = library.tracks.iter().map(|(key, t)| (*key, t.id)).collect();
    assert_eq!(ids, BTreeMap::from([(5, 5)]));
    assert_eq!(library.expires, Some(12));
}
