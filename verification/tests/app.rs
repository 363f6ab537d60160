use std::path::PathBuf;

use ibroadcast_tui::app::{
    action_for_key, retries_removal, Action, App, BackendEvent, DeleteOutcome, Key, KeyPress,
    Observed, Phase, Request, Screen, Setting, TokenLookup, WorkerEvent,
};
use ibroadcast_tui::audio::DefaultOutputProbe;
use ibroadcast_tui::config::{Bitrate, Config};
use ibroadcast_tui::engine::{Effect, OpenOutcome, PlayOutcome, PreviousOutput};
use ibroadcast_tui::error::AppError;
use ibroadcast_tui::library::{Library, Track};
use ibroadcast_tui::oauth::DeviceCode;
use ibroadcast_tui::player::{AudioStreamError, AudioStreamEvent};
use ibroadcast_tui::queue::PlaybackMode;
use ibroadcast_tui::recovery::{AudioState, DesiredPlayback, PlaybackPhase, SourceTag};
use ibroadcast_tui::ui::{
    authorizing_screen, duration_label, error_screen, help_for_view, login_screen, message_screen,
    playback_status_line, selection, Body, PlaybackState, PlaybackSummary, View,
};

const SECOND: u64 = 1_000_000_000;

fn config(client_id: Option<&str>) -> Config {
    Config {
        config_dir: PathBuf::from("/config"),
        config_file: PathBuf::from("/config/config.toml"),
        client_id: client_id.map(str::to_owned),
        client_secret: None,
        download_dir: PathBuf::from("/music"),
        playback_bitrate: None,
        playback_mode: PlaybackMode::Sequential,
        download_bitrate: Bitrate::Kbps128,
        plain_token_file: false,
    }
}

fn seen(now: u64) -> Observed {
    Observed {
        healthy: true,
        finished: false,
        position: None,
        now,
    }
}

fn library() -> Library {
    let mut library = Library::default();
    for (id, title) in [(1, "One"), (2, "Two"), (3, "Three")] {
        library.tracks.insert(
            id,
            Track {
                id,
                track: id as i64,
                title: title.to_owned(),
                length: 100,
                file: format!("/128/a/{id}"),
                ..Track::default()
            },
        );
    }
    library
}

fn press(app: &mut App, key: Key) {
    app.handle_key(
        KeyPress {
            key,
            control: false,
        },
        seen(0),
    );
}

/// An application with a session and an output with the number 1.
fn ready() -> App {
    let mut app = App::new(config(Some("id")), 0);
    app.engine.take_effects();
    let observed_default = DefaultOutputProbe::Available("a".to_owned());
    app.handle_audio_worker_event(
        &WorkerEvent::OpenFinished {
            attempt_id: 1,
            outcome: OpenOutcome::Opened {
                sink_epoch: 1,
                healthy: true,
                device: Some("a"),
                observed_default: &observed_default,
            },
        },
        None,
        seen(0),
    );
    app.handle_backend_event(BackendEvent::Session {
        library: library(),
        server_bitrate: None,
    });
    app.take_requests();
    app.engine.take_effects();
    app
}

/// An application that streams the first track.
fn streaming() -> (App, SourceTag) {
    let mut app = ready();
    press(&mut app, Key::Enter);
    let generation = app.engine.generation;
    app.handle_backend_event(BackendEvent::StreamResolved {
        generation,
        track_id: 1,
        bitrate: Bitrate::Kbps128,
        error: None,
    });
    let source = SourceTag {
        generation,
        track_id: 1,
        sink_epoch: None,
        position_base: 0,
    };
    app.handle_backend_event(BackendEvent::StreamDecoded {
        source,
        error: None,
        healthy: true,
    });
    app.handle_backend_event(BackendEvent::SourceAttached {
        source,
        outcome: PlayOutcome::Started,
        label: "One",
        healthy: true,
        now: 0,
    });
    (app, source)
}

#[test]
fn playback_line_includes_state_and_time() {
    let playback = PlaybackSummary {
        label: "Artist - Song".to_owned(),
        state: PlaybackState::Playing,
        elapsed: Some(65 * SECOND as u128),
        duration: Some(189 * SECOND as u128),
    };

    assert_eq!(
        playback_status_line(&playback),
        "Now: Artist - Song | Playing | 1:05 / 3:09"
    );
}

#[test]
fn playback_line_handles_missing_track() {
    let playback = PlaybackSummary {
        label: "Nothing playing".to_owned(),
        state: PlaybackState::Stopped,
        elapsed: None,
        duration: None,
    };

    assert_eq!(
        playback_status_line(&playback),
        "Now: Nothing playing | Stopped"
    );
}

#[test]
fn times_and_selections_are_shown() {
    assert_eq!(duration_label(0), "0:00");
    assert_eq!(duration_label(3_725 * SECOND as u128 + 5), "1:02:05");
    assert_eq!(duration_label(u128::MAX), {
        let total = u128::MAX / 1_000_000_000;
        format!(
            "{}:{:02}:{:02}",
            total / 3600,
            total % 3600 / 60,
            total % 60
        )
    });
    assert_eq!(selection(5, 0), None);
    assert_eq!(selection(5, 3), Some(2));
    assert_eq!(selection(1, 3), Some(1));
    assert!(help_for_view(View::Queue).contains("n/p next/prev"));
    assert!(help_for_view(View::Library).starts_with("/ search"));
    assert_eq!(PlaybackState::WaitingForAudio.label(), "Waiting for audio");
}

#[test]
fn text_screens_hold_their_lines() {
    let screen = login_screen("abc", "status");
    assert_eq!(screen.title, "Login");
    assert_eq!((screen.width_percent, screen.height), (78, 13));
    assert_eq!(screen.lines.len(), 9);
    assert_eq!(screen.lines[4], "abc");
    assert_eq!(screen.lines[6], "status");
    let screen = message_screen("T", "m");
    assert_eq!((screen.title, screen.lines.as_slice()), ("T", &["m".to_owned()][..]));
    let code = DeviceCode {
        device_code: "d".to_owned(),
        user_code: "U-C".to_owned(),
        verification_uri: "https://v".to_owned(),
        verification_uri_complete: Some("https://v?c".to_owned()),
        interval: None,
        expires_in: None,
    };
    let screen = authorizing_screen(&code);
    assert_eq!(screen.lines[3], "Code: U-C");
    assert_eq!(screen.lines[6], "https://v?c");
    assert_eq!(screen.lines.len(), 9);
    assert_eq!(error_screen("bad").lines[2], "bad");
}

#[test]
fn keys_stand_for_actions() {
    assert_eq!(action_for_key(Key::Char('q')), Some(Action::Quit));
    assert_eq!(action_for_key(Key::Up), Some(Action::MoveSelection(-1)));
    assert_eq!(
        action_for_key(Key::Char('>')),
        Some(Action::MoveQueueItem(1))
    );
    assert_eq!(
        action_for_key(Key::Char('D')),
        Some(Action::Download { all_visible: true })
    );
    assert_eq!(
        action_for_key(Key::Char('-')),
        Some(Action::AdjustVolume(-5))
    );
    assert_eq!(action_for_key(Key::Char('z')), None);
    assert_eq!(action_for_key(Key::Esc), None);
}

#[test]
fn starting_asks_for_an_output_and_a_client_id() {
    let mut app = App::new(config(None), 7);
    assert_eq!(app.engine.next_open_attempt, 1);
    assert_eq!(app.engine.failure_streak, 0);
    assert_eq!(app.engine.probe_in_flight, None);
    assert_eq!(app.engine.next_probe_at, 7);
    assert_eq!(app.engine.generation, 0);
    assert_eq!(app.engine.status, "");
    assert_eq!(app.queue.current_index(), None);
    assert_eq!(
        app.engine.take_effects(),
        vec![Effect::OpenOutput {
            attempt_id: 1,
            previous: PreviousOutput::Nothing,
        }]
    );
    app.bootstrap(&TokenLookup::Missing);
    assert!(matches!(app.phase, Phase::NeedClientId));
    assert_eq!(app.engine.status, "Enter your iBroadcast OAuth client_id");

    press(&mut app, Key::Enter);
    assert!(app.take_requests().is_empty());
    for c in " xy".chars() {
        press(&mut app, Key::Char(c));
    }
    press(&mut app, Key::Backspace);
    press(&mut app, Key::Enter);
    assert_eq!(app.config.client_id.as_deref(), Some("x"));
    assert_eq!(
        app.take_requests(),
        vec![
            Request::SaveConfig(Setting::ClientId),
            Request::RequestDeviceCode,
        ]
    );
    assert!(matches!(app.phase, Phase::RequestingDeviceCode));
}

#[test]
fn authorization_goes_on_to_the_library() {
    let mut app = App::new(config(Some("id")), 0);
    app.bootstrap(&TokenLookup::Missing);
    assert_eq!(app.take_requests(), vec![Request::RequestDeviceCode]);
    app.handle_backend_event(BackendEvent::DeviceCode(Ok(DeviceCode {
        device_code: "d".to_owned(),
        user_code: "u".to_owned(),
        verification_uri: "v".to_owned(),
        verification_uri_complete: None,
        interval: None,
        expires_in: None,
    })));
    assert!(matches!(app.phase, Phase::Authorizing(_)));
    assert_eq!(app.take_requests(), vec![Request::PollToken]);
    app.handle_backend_event(BackendEvent::Token(None));
    assert_eq!(app.take_requests(), vec![Request::SaveToken]);
    app.handle_backend_event(BackendEvent::TokenSaved(None));
    assert_eq!(app.take_requests(), vec![Request::LoadSession]);
    assert!(matches!(app.phase, Phase::LoadingLibrary));
    app.handle_backend_event(BackendEvent::SessionFailed("no"));
    assert!(matches!(&app.phase, Phase::Error(message) if message == "no"));

    press(&mut app, Key::Char('l'));
    assert_eq!(
        app.take_requests(),
        vec![Request::DeleteToken, Request::RequestDeviceCode]
    );
    app.handle_backend_event(BackendEvent::DeviceCode(Err("gone".to_owned())));
    press(&mut app, Key::Esc);
    assert!(app.should_quit);
}

#[test]
fn stored_tokens_are_used() {
    let mut app = App::new(config(Some("id")), 0);
    app.bootstrap(&TokenLookup::Found);
    assert_eq!(app.take_requests(), vec![Request::LoadSession]);
    let mut app = App::new(config(Some("id")), 0);
    app.bootstrap(&TokenLookup::Failed("broken"));
    assert!(matches!(&app.phase, Phase::Error(message) if message == "broken"));
}

#[test]
fn control_c_quits_anywhere() {
    let mut app = ready();
    app.search_mode = true;
    app.handle_key(
        KeyPress {
            key: Key::Char('c'),
            control: true,
        },
        seen(0),
    );
    assert!(app.should_quit);
    assert!(app.search_mode);
    assert_eq!(app.search_input, "");
}

#[test]
fn entering_a_session_lists_its_tracks() {
    let mut app = App::new(config(Some("id")), 0);
    app.handle_backend_event(BackendEvent::Session {
        library: library(),
        server_bitrate: Some(Bitrate::Kbps256),
    });
    assert_eq!(app.engine.status, "Loaded 3 tracks");
    assert_eq!(app.take_requests(), vec![Request::ScanLocalFiles]);
    assert_eq!(app.effective_playback_bitrate(), Bitrate::Kbps256);
    app.handle_scanned(&vec![(2, true)]);
    assert!(app.downloads.is_local(2));

    match app.render(None) {
        Screen::Ready(model) => {
            assert_eq!(model.selected_tab, 0);
            assert_eq!(model.status_line, "Loaded 3 tracks");
            assert_eq!(
                model.audio_line.as_deref(),
                Some("Audio: Opening audio output...")
            );
            assert_eq!(model.status_height, 7);
            assert_eq!(model.playback_line, "Now: Nothing playing | Stopped");
            assert_eq!(
                model.settings_line,
                "Mode: Sequential | Playback bitrate: 256 | Download bitrate: 128"
            );
            assert_eq!(
                model.downloads_line,
                "Local files: 1 | Downloads running: 0"
            );
            match model.body {
                Body::Library {
                    title,
                    rows,
                    selected,
                } => {
                    assert_eq!(title, "Library (3/3)");
                    assert_eq!(selected, Some(0));
                    assert_eq!(rows[1].storage, "local");
                    assert_eq!(rows[1].title, "Two");
                    assert_eq!(rows[1].length, "1:40");
                }
                Body::Queue { .. } => panic!("expected the library"),
            }
        }
        other => panic!("unexpected {other:?}"),
    }
}

#[test]
fn searches_are_typed_and_applied() {
    let mut app = ready();
    press(&mut app, Key::Char('/'));
    for c in "twq".chars() {
        press(&mut app, Key::Char(c));
    }
    press(&mut app, Key::Backspace);
    match app.render(None) {
        Screen::Ready(model) => {
            assert_eq!(model.help, "Search: tw");
            assert_eq!(model.search.as_deref(), Some("tw"));
        }
        other => panic!("unexpected {other:?}"),
    }
    press(&mut app, Key::Enter);
    assert!(!app.search_mode);
    assert_eq!(app.engine.status, "1 matches for 'tw'");
    assert_eq!(
        app.session.as_ref().unwrap().filtered_track_ids,
        vec![2]
    );
}

#[test]
fn selections_stay_within_the_list() {
    let mut app = ready();
    for _ in 0..5 {
        press(&mut app, Key::Down);
    }
    assert_eq!(app.selected, 2);
    for _ in 0..5 {
        press(&mut app, Key::Char('k'));
    }
    assert_eq!(app.selected, 0);
    app.move_selection(isize::MAX);
    assert_eq!(app.selected, 2);
    app.move_selection(isize::MIN);
    assert_eq!(app.selected, 0);
    press(&mut app, Key::Tab);
    press(&mut app, Key::Down);
    assert_eq!(app.queue_selected, 0);
}

#[test]
fn activated_tracks_are_queued_once_and_streamed() {
    let mut app = ready();
    press(&mut app, Key::Enter);
    assert_eq!(app.queue.tracks(), &[1]);
    assert_eq!(app.engine.status, "Fetching stream for Unknown Artist - One");
    let generation = app.engine.generation;
    assert_eq!(
        app.engine.take_effects(),
        vec![
            Effect::StopOutput,
            Effect::ResolveStream {
                generation,
                track_id: 1,
                bitrate: Bitrate::Kbps128,
            },
        ]
    );
    press(&mut app, Key::Enter);
    assert_eq!(app.queue.tracks(), &[1]);
    assert_ne!(app.engine.generation, generation);

    press(&mut app, Key::Char('A'));
    assert_eq!(
        app.engine.status,
        "Added 2 track(s) to queue (1 already queued)"
    );
    press(&mut app, Key::Char('a'));
    assert_eq!(app.engine.status, "Already in queue");
}

#[test]
fn local_tracks_are_played_from_disk() {
    let mut app = ready();
    app.handle_scanned(&vec![(1, true)]);
    press(&mut app, Key::Enter);
    assert_eq!(
        app.engine.take_effects(),
        vec![
            Effect::StopOutput,
            Effect::PlayLocal {
                track_id: 1,
                paused: false,
            },
        ]
    );
    app.handle_backend_event(BackendEvent::LocalMissing { track_id: 1 });
    assert!(!app.downloads.is_local(1));
    assert_eq!(app.engine.phase, PlaybackPhase::Loading);

    app.handle_scanned(&vec![(1, true)]);
    press(&mut app, Key::Enter);
    app.handle_backend_event(BackendEvent::LocalPlayed {
        outcome: PlayOutcome::Started,
        label: "One",
        healthy: true,
        now: 0,
    });
    assert_eq!(app.engine.status, "Playing local file: One");
    assert_eq!(app.playback_state(), PlaybackState::Playing);
}

#[test]
fn streams_are_fetched_decoded_and_attached() {
    let (mut app, source) = streaming();
    assert_eq!(app.engine.status, "Playing One");
    assert_eq!(app.engine.phase, PlaybackPhase::Active);
    press(&mut app, Key::Char(' '));
    assert_eq!(app.engine.status, "Paused");
    assert_eq!(app.playback_state(), PlaybackState::Paused);
    let summary = app.playback_summary(&library(), Some(250 * SECOND as u128));
    assert_eq!(summary.elapsed, Some(100 * SECOND as u128));
    assert_eq!(summary.duration, Some(100 * SECOND as u128));
    app.handle_backend_event(BackendEvent::StreamInterrupted {
        generation: source.generation,
        error: "cut",
    });
    assert_eq!(app.engine.status, "Stream error: cut");
    app.handle_backend_event(BackendEvent::StreamInterrupted {
        generation: source.generation + 1,
        error: "old",
    });
    assert_eq!(app.engine.status, "Stream error: cut");
}

#[test]
fn streams_that_fail_stop_playback() {
    let mut app = ready();
    press(&mut app, Key::Enter);
    app.handle_backend_event(BackendEvent::StreamResolved {
        generation: app.engine.generation,
        track_id: 1,
        bitrate: Bitrate::Kbps128,
        error: Some("no"),
    });
    assert_eq!(app.engine.status, "Stream failed: no");
    assert_eq!(app.engine.desired, DesiredPlayback::Stopped);
}

#[test]
fn the_queue_goes_on_at_the_end_of_a_track() {
    let (mut app, _) = streaming();
    press(&mut app, Key::Char('A'));
    let end = Observed {
        finished: true,
        ..seen(0)
    };
    app.tick(Observed {
        healthy: false,
        ..end
    });
    assert_eq!(app.queue.current_track(), Some(1));
    app.tick(end);
    assert_eq!(app.queue.current_track(), Some(2));
    assert_eq!(app.engine.desired.track_id(), Some(2));
    // The next track is not active yet.
    app.tick(end);
    assert_eq!(app.queue.current_track(), Some(2));

    let (mut app, _) = streaming();
    app.tick(end);
    assert_eq!(app.engine.status, "Queue finished");
    assert_eq!(app.engine.desired, DesiredPlayback::Stopped);
}

#[test]
fn playback_survives_the_loss_of_its_output() {
    let (mut app, source) = streaming();
    app.engine.take_effects();
    let lost = AudioStreamEvent {
        sink_epoch: 1,
        error: AudioStreamError::DeviceNotAvailable,
    };
    let at = Observed {
        healthy: false,
        position: Some(42),
        ..seen(SECOND)
    };
    app.handle_audio_worker_event(&WorkerEvent::Stream(&lost), Some("a"), at);
    assert_eq!(app.engine.checkpoint.unwrap().position, 42);
    assert!(app.engine.desired.paused());
    assert_eq!(app.playback_state(), PlaybackState::Paused);
    assert_eq!(
        app.engine.warning.as_deref(),
        Some("audio device is no longer available; reconnecting...")
    );
    let AudioState::Opening { attempt_id, .. } = app.engine.audio else {
        panic!("an output must be opened");
    };
    let effects = app.engine.take_effects();
    assert!(effects.contains(&Effect::CancelReaders));
    assert_eq!(
        effects.last(),
        Some(&Effect::OpenOutput {
            attempt_id,
            previous: PreviousOutput::Current,
        })
    );

    let observed_default = DefaultOutputProbe::Available("b".to_owned());
    app.handle_audio_worker_event(
        &WorkerEvent::OpenFinished {
            attempt_id,
            outcome: OpenOutcome::Opened {
                sink_epoch: 2,
                healthy: true,
                device: Some("b"),
                observed_default: &observed_default,
            },
        },
        None,
        seen(2 * SECOND),
    );
    let restored = SourceTag {
        sink_epoch: Some(2),
        position_base: 42,
        ..source
    };
    assert!(app
        .engine
        .take_effects()
        .contains(&Effect::RestoreStream(restored)));
    app.handle_backend_event(BackendEvent::StreamDecoded {
        source: restored,
        error: None,
        healthy: true,
    });
    app.handle_backend_event(BackendEvent::SourceAttached {
        source: restored,
        outcome: PlayOutcome::Started,
        label: "One",
        healthy: true,
        now: 0,
    });
    assert_eq!(
        app.engine.status,
        "Paused after audio output change: One; press Space to resume"
    );
    assert_eq!(app.engine.checkpoint, None);
    assert_eq!(app.engine.phase, PlaybackPhase::Active);
}

#[test]
fn the_output_follows_the_default_device() {
    let (mut app, _) = streaming();
    app.engine.take_effects();
    app.tick_audio_lifecycle(SECOND);
    assert_eq!(
        app.engine.take_effects(),
        vec![Effect::ProbeOutput {
            probe_id: 1,
            sink_epoch: Some(1),
        }]
    );
    let same = DefaultOutputProbe::Available("a".to_owned());
    app.handle_audio_worker_event(
        &WorkerEvent::ProbeFinished {
            probe_id: 1,
            sink_epoch: Some(1),
            result: &same,
        },
        Some("a"),
        seen(SECOND),
    );
    assert_eq!(app.engine.audio, AudioState::Ready { sink_epoch: 1 });
    app.tick_audio_lifecycle(2 * SECOND);
    app.engine.take_effects();
    let other = DefaultOutputProbe::Available("b".to_owned());
    app.handle_audio_worker_event(
        &WorkerEvent::ProbeFinished {
            probe_id: 2,
            sink_epoch: Some(1),
            result: &other,
        },
        Some("a"),
        seen(2 * SECOND),
    );
    assert_eq!(
        app.engine.warning.as_deref(),
        Some("Default audio output changed; reconnecting...")
    );
}

#[test]
fn outputs_that_cannot_be_opened_are_tried_again() {
    let mut app = App::new(config(None), 0);
    app.engine.take_effects();
    app.handle_audio_worker_event(
        &WorkerEvent::OpenFinished {
            attempt_id: 1,
            outcome: OpenOutcome::Failed("busy"),
        },
        None,
        seen(0),
    );
    assert_eq!(
        app.engine.warning.as_deref(),
        Some("Audio output unavailable: busy; retrying audio output in 0.5s")
    );
    app.tick_audio_lifecycle(SECOND / 2 - 1);
    assert!(app.engine.take_effects().is_empty());
    app.tick_audio_lifecycle(SECOND / 2);
    assert_eq!(
        app.engine.take_effects(),
        vec![Effect::OpenOutput {
            attempt_id: 2,
            previous: PreviousOutput::Nothing,
        }]
    );
    // An output of the earlier attempt is given back.
    let observed_default = DefaultOutputProbe::Unavailable;
    app.handle_audio_worker_event(
        &WorkerEvent::OpenFinished {
            attempt_id: 1,
            outcome: OpenOutcome::Opened {
                sink_epoch: 9,
                healthy: true,
                device: None,
                observed_default: &observed_default,
            },
        },
        None,
        seen(0),
    );
    assert_eq!(app.engine.take_effects(), vec![Effect::DisposeCandidate]);
}

#[test]
fn queues_are_edited() {
    let mut app = ready();
    press(&mut app, Key::Char('A'));
    press(&mut app, Key::Tab);
    press(&mut app, Key::Char(']'));
    assert_eq!(app.queue.tracks(), &[2, 1, 3]);
    assert_eq!(app.queue_selected, 1);
    press(&mut app, Key::Char('['));
    assert_eq!(app.queue.tracks(), &[1, 2, 3]);
    press(&mut app, Key::Enter);
    assert_eq!(app.engine.desired.track_id(), Some(1));
    press(&mut app, Key::Char('x'));
    assert_eq!(app.queue.tracks(), &[2, 3]);
    assert_eq!(app.engine.desired.track_id(), Some(2));
    press(&mut app, Key::Down);
    press(&mut app, Key::Delete);
    assert_eq!(app.engine.status, "Removed track from queue");
    assert_eq!(app.queue_selected, 0);
    press(&mut app, Key::Char('C'));
    assert_eq!(app.engine.status, "Queue cleared");
    assert!(app.queue.is_empty());
    assert_eq!(app.engine.desired, DesiredPlayback::Stopped);
    match app.render(None) {
        Screen::Ready(model) => assert!(matches!(
            model.body,
            Body::Queue {
                selected: None,
                ..
            }
        )),
        other => panic!("unexpected {other:?}"),
    }
}

#[test]
fn next_and_previous_move_through_the_queue() {
    let mut app = ready();
    press(&mut app, Key::Char('A'));
    press(&mut app, Key::Char('n'));
    assert_eq!(app.engine.desired.track_id(), Some(2));
    press(&mut app, Key::Char('p'));
    assert_eq!(app.engine.desired.track_id(), Some(1));
    press(&mut app, Key::Char('n'));
    press(&mut app, Key::Char('n'));
    press(&mut app, Key::Char('n'));
    assert_eq!(app.engine.desired.track_id(), Some(3));
}

#[test]
fn settings_are_cycled_and_saved() {
    let mut app = ready();
    press(&mut app, Key::Char('b'));
    assert_eq!(app.config.playback_bitrate, Some(Bitrate::Kbps192));
    app.handle_config_saved(Setting::PlaybackBitrate, None);
    assert_eq!(
        app.engine.status,
        "Playback bitrate set to 192 for future streams"
    );
    press(&mut app, Key::Char('B'));
    app.handle_config_saved(Setting::DownloadBitrate, Some("full"));
    assert_eq!(
        app.engine.status,
        "Download bitrate set to orig, but config save failed: full"
    );
    press(&mut app, Key::Char('m'));
    app.handle_config_saved(Setting::PlaybackMode, None);
    assert_eq!(app.engine.status, "Playback mode set to Repeat one");
    press(&mut app, Key::Char('+'));
    assert_eq!(
        app.take_requests(),
        vec![
            Request::SaveConfig(Setting::PlaybackBitrate),
            Request::SaveConfig(Setting::DownloadBitrate),
            Request::SaveConfig(Setting::PlaybackMode),
            Request::AdjustVolume { percent: 5 },
        ]
    );
}

#[test]
fn downloads_are_begun_once() {
    let mut app = ready();
    app.handle_scanned(&vec![(3, true)]);
    press(&mut app, Key::Char('d'));
    assert_eq!(app.engine.status, "Queued 1 download(s)");
    press(&mut app, Key::Char('D'));
    assert_eq!(
        app.engine.status,
        "Queued 1 download(s), skipped 2 local/running track(s)"
    );
    press(&mut app, Key::Char('D'));
    assert_eq!(
        app.engine.status,
        "No new downloads queued; skipped 3 local/running track(s)"
    );
    assert_eq!(
        app.take_requests(),
        vec![
            Request::Download {
                task_id: 1,
                track_id: 1,
            },
            Request::Download {
                task_id: 2,
                track_id: 2,
            },
        ]
    );
    app.handle_backend_event(BackendEvent::DownloadFinished {
        task_id: 1,
        result: Ok(()),
        message: "/music/one.mp3",
    });
    assert_eq!(app.engine.status, "Downloaded /music/one.mp3");
    assert!(app.downloads.is_local(1));
    app.handle_backend_event(BackendEvent::DownloadFinished {
        task_id: 2,
        result: Err(AppError::MissingToken),
        message: "failed",
    });
    assert_eq!(app.engine.status, "failed");
    press(&mut app, Key::Tab);
    press(&mut app, Key::Char('d'));
    assert_eq!(app.engine.status, "No tracks selected for download");
}

#[test]
fn local_files_are_deleted_with_care() {
    let mut app = ready();
    press(&mut app, Key::Char('x'));
    assert_eq!(app.engine.status, "Track is not available locally");
    press(&mut app, Key::Char('d'));
    press(&mut app, Key::Char('x'));
    assert_eq!(
        app.engine.status,
        "Download is still running; wait before deleting"
    );
    app.take_requests();
    app.handle_scanned(&vec![(1, true), (2, true)]);
    app.handle_backend_event(BackendEvent::DownloadFinished {
        task_id: 1,
        result: Ok(()),
        message: "p",
    });
    press(&mut app, Key::Enter);
    press(&mut app, Key::Char('x'));
    assert_eq!(app.engine.desired, DesiredPlayback::Stopped);
    assert_eq!(
        app.take_requests(),
        vec![Request::DeleteLocalFile { track_id: 1 }]
    );
    app.handle_local_deleted(1, &DeleteOutcome::Failed("denied"));
    assert_eq!(app.engine.status, "Delete failed: denied");
    assert!(app.downloads.is_local(1));
    app.handle_local_deleted(1, &DeleteOutcome::Deleted("/p"));
    assert_eq!(app.engine.status, "Deleted local file: /p");
    assert!(!app.downloads.is_local(1));
    app.handle_local_deleted(2, &DeleteOutcome::NotFound);
    assert!(!app.downloads.is_local(2));
    assert!(retries_removal(true, 4));
    assert!(!retries_removal(true, 5));
    assert!(!retries_removal(false, 0));
}

#[test]
fn logging_out_forgets_the_session() {
    let (mut app, _) = streaming();
    press(&mut app, Key::Char('d'));
    app.take_requests();
    press(&mut app, Key::Char('L'));
    assert!(app.session.is_none());
    assert!(app.queue.is_empty());
    assert_eq!(app.engine.desired, DesiredPlayback::Stopped);
    assert_eq!(app.take_requests(), vec![Request::Logout]);
    assert!(matches!(app.phase, Phase::LoggingOut));
    // The download of the session that is gone does not count any more.
    let status = app.engine.status.clone();
    app.handle_backend_event(BackendEvent::DownloadFinished {
        task_id: 1,
        result: Ok(()),
        message: "late",
    });
    assert_eq!(app.engine.status, status);
    app.handle_backend_event(BackendEvent::LoggedOut {
        client_id: "id",
        error: Some("no"),
    });
    assert_eq!(
        app.engine.status,
        "Logged out locally. Token revoke failed: no. Press Enter to authorize again."
    );
    assert_eq!(app.client_id_input, "id");
    assert!(matches!(app.phase, Phase::NeedClientId));
}

#[test]
fn shutting_down_gives_the_output_back() {
    let (mut app, _) = streaming();
    assert!(app.begin_shutdown(5));
    assert_eq!(
        app.engine.audio,
        AudioState::Unavailable {
            retry_at: 5,
            retry_count: 0,
        }
    );
    assert!(!app.begin_shutdown(6));
}

#[test]
fn each_phase_has_its_screen() {
    let mut app = App::new(config(Some("id")), 0);
    let title = |app: &App| match app.render(None) {
        Screen::Text(screen) => screen.title,
        Screen::Ready(_) => "ready",
        Screen::Nothing => "nothing",
    };
    assert_eq!(title(&app), "Login");
    app.start_authorization();
    assert_eq!(title(&app), "Requesting device code");
    app.start_session_load();
    assert_eq!(title(&app), "Loading library");
    app.handle_session_failed("x");
    assert_eq!(title(&app), "Error");
    app.phase = Phase::Ready;
    assert_eq!(title(&app), "nothing");
    app.start_logout();
    assert_eq!(title(&app), "Logging out");
}
