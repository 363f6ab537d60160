use ibroadcast_tui::audio::DefaultOutputProbe;
use ibroadcast_tui::recovery::{
    audio_retry_delay, checkpoint_after_audio_loss, classify_audio_candidate,
    classify_audio_candidate_state, classify_probe_event, decoded_source_is_current,
    open_attempt_retry_count, reduce_desired_playback, should_advance_queue, AudioCandidate,
    AudioState, DesiredPlayback, DesiredPlaybackAction, PlaybackCheckpoint, PlaybackPhase,
    ProbeEventDisposition, AUDIO_RETRY_MAX_MILLIS,
};

const SECOND: u128 = 1_000_000_000;

#[test]
fn retry_delay_uses_bounded_exponential_backoff() {
    assert_eq!(audio_retry_delay(0), 500);
    assert_eq!(audio_retry_delay(1), 500);
    assert_eq!(audio_retry_delay(2), 1_000);
    assert_eq!(audio_retry_delay(3), 2_000);
    assert_eq!(audio_retry_delay(4), 4_000);
    assert_eq!(audio_retry_delay(5), AUDIO_RETRY_MAX_MILLIS);
    assert_eq!(audio_retry_delay(u32::MAX), AUDIO_RETRY_MAX_MILLIS);
}

#[test]
fn latest_playback_intent_wins_and_stop_cancels_recovery() {
    let mut desired = DesiredPlayback::Stopped;
    desired = reduce_desired_playback(desired, DesiredPlaybackAction::Play(10));
    desired = reduce_desired_playback(desired, DesiredPlaybackAction::TogglePause);
    assert_eq!(
        desired,
        DesiredPlayback::Track {
            track_id: 10,
            paused: true,
        }
    );

    // Next or Enter while the output is being reopened: only the last track counts.
    desired = reduce_desired_playback(desired, DesiredPlaybackAction::Play(20));
    desired = reduce_desired_playback(desired, DesiredPlaybackAction::Play(30));
    assert_eq!(desired.track_id(), Some(30));
    assert!(!desired.paused());

    // After the queue was cleared, a late output has no track to go on with.
    desired = reduce_desired_playback(desired, DesiredPlaybackAction::Stop);
    assert_eq!(desired, DesiredPlayback::Stopped);
    assert_eq!(
        reduce_desired_playback(desired, DesiredPlaybackAction::TogglePause),
        DesiredPlayback::Stopped
    );
    assert_eq!(
        reduce_desired_playback(desired, DesiredPlaybackAction::Pause),
        DesiredPlayback::Stopped
    );
}

#[test]
fn audio_loss_checkpoints_position_and_forces_an_idempotent_pause() {
    let desired = DesiredPlayback::Track {
        track_id: 42,
        paused: false,
    };
    let position = 73 * SECOND;

    assert_eq!(
        checkpoint_after_audio_loss(None, PlaybackPhase::Active, desired, 11, Some(position)),
        Some(PlaybackCheckpoint {
            generation: 11,
            track_id: 42,
            position,
        })
    );
    let paused = reduce_desired_playback(desired, DesiredPlaybackAction::Pause);
    assert_eq!(
        paused,
        DesiredPlayback::Track {
            track_id: 42,
            paused: true,
        }
    );
    assert_eq!(
        reduce_desired_playback(paused, DesiredPlaybackAction::Pause),
        paused
    );
}

#[test]
fn rapid_audio_failures_keep_the_first_nonzero_checkpoint() {
    let original = PlaybackCheckpoint {
        generation: 7,
        track_id: 9,
        position: 125 * SECOND,
    };
    let desired = DesiredPlayback::Track {
        track_id: 9,
        paused: true,
    };

    assert_eq!(
        checkpoint_after_audio_loss(
            Some(original),
            PlaybackPhase::WaitingForAudio,
            desired,
            7,
            Some(0),
        ),
        Some(original)
    );
    assert_eq!(
        checkpoint_after_audio_loss(
            Some(original),
            PlaybackPhase::WaitingForAudio,
            desired,
            7,
            None,
        ),
        Some(original)
    );
}

#[test]
fn only_active_playback_creates_a_new_audio_checkpoint() {
    let desired = DesiredPlayback::Track {
        track_id: 3,
        paused: false,
    };
    for phase in [
        PlaybackPhase::Idle,
        PlaybackPhase::WaitingForAudio,
        PlaybackPhase::Loading,
    ] {
        assert_eq!(
            checkpoint_after_audio_loss(None, phase, desired, 5, Some(8 * SECOND)),
            None
        );
    }
}

#[test]
fn checkpoints_of_other_intents_are_replaced() {
    let stale = PlaybackCheckpoint {
        generation: 7,
        track_id: 9,
        position: SECOND,
    };
    let desired = DesiredPlayback::Track {
        track_id: 9,
        paused: false,
    };
    assert_eq!(
        checkpoint_after_audio_loss(Some(stale), PlaybackPhase::Active, desired, 8, Some(2 * SECOND)),
        Some(PlaybackCheckpoint {
            generation: 8,
            track_id: 9,
            position: 2 * SECOND,
        })
    );
    assert_eq!(
        checkpoint_after_audio_loss(
            Some(stale),
            PlaybackPhase::Active,
            DesiredPlayback::Stopped,
            7,
            Some(SECOND)
        ),
        None
    );
}

#[test]
fn restored_source_requires_matching_generation_checkpoint_and_sink() {
    let position = 32 * SECOND;
    let checkpoint = Some(PlaybackCheckpoint {
        generation: 4,
        track_id: 8,
        position,
    });
    let desired = DesiredPlayback::Track {
        track_id: 8,
        paused: true,
    };

    assert!(decoded_source_is_current(
        4,
        8,
        Some(22),
        position,
        4,
        PlaybackPhase::WaitingForAudio,
        desired,
        checkpoint,
        Some(22),
    ));
    assert!(!decoded_source_is_current(
        4,
        8,
        Some(21),
        position,
        4,
        PlaybackPhase::WaitingForAudio,
        desired,
        checkpoint,
        Some(22),
    ));
    assert!(!decoded_source_is_current(
        3,
        8,
        Some(22),
        position,
        4,
        PlaybackPhase::WaitingForAudio,
        desired,
        checkpoint,
        Some(22),
    ));
    assert!(!decoded_source_is_current(
        4,
        8,
        Some(22),
        0,
        4,
        PlaybackPhase::WaitingForAudio,
        desired,
        checkpoint,
        Some(22),
    ));

    // A first decode counts only while the stream is loading, and has no output of its own.
    assert!(decoded_source_is_current(
        4,
        8,
        None,
        0,
        4,
        PlaybackPhase::Loading,
        desired,
        None,
        Some(22),
    ));
}

#[test]
fn only_current_open_attempt_can_be_installed() {
    let state = AudioState::Opening {
        attempt_id: 12,
        retry_count: 3,
    };

    assert_eq!(open_attempt_retry_count(&state, 11), None);
    assert_eq!(open_attempt_retry_count(&state, 12), Some(3));
    assert_eq!(open_attempt_retry_count(&state, 13), None);

    let unavailable = AudioState::Unavailable {
        retry_at: 0,
        retry_count: 3,
    };
    assert_eq!(open_attempt_retry_count(&unavailable, 12), None);
}

#[test]
fn rapid_default_device_changes_only_accept_the_final_match() {
    let a = "device-a";
    let b = "device-b";
    let c = "device-c";

    assert_eq!(
        classify_audio_candidate_state(true, Some(a), Ok(Some(b))),
        AudioCandidate::DefaultChanged
    );
    assert_eq!(
        classify_audio_candidate_state(true, Some(b), Ok(Some(c))),
        AudioCandidate::DefaultChanged
    );
    assert_eq!(
        classify_audio_candidate_state(true, Some(c), Ok(Some(c))),
        AudioCandidate::Accept
    );
}

#[test]
fn candidate_health_and_probe_results_have_distinct_meanings() {
    let device = "device-a";

    assert_eq!(
        classify_audio_candidate_state(false, Some(device), Ok(Some(device))),
        AudioCandidate::Failed
    );
    assert_eq!(
        classify_audio_candidate_state(true, Some(device), Ok(None)),
        AudioCandidate::NoDefault
    );
    // A query that failed is no sign that a healthy output died.
    assert_eq!(
        classify_audio_candidate_state(true, Some(device), Err(())),
        AudioCandidate::Accept
    );
    // An output whose own identity is unknown is kept.
    assert_eq!(
        classify_audio_candidate_state(true, None, Ok(Some(device))),
        AudioCandidate::Accept
    );
}

#[test]
fn probes_are_read_as_candidates() {
    let other = DefaultOutputProbe::Available("b".to_owned());
    assert_eq!(
        classify_audio_candidate(true, Some("a"), &other),
        AudioCandidate::DefaultChanged
    );
    assert_eq!(
        classify_audio_candidate(true, Some("b"), &other),
        AudioCandidate::Accept
    );
    assert_eq!(
        classify_audio_candidate(true, Some("a"), &DefaultOutputProbe::Unavailable),
        AudioCandidate::NoDefault
    );
    assert_eq!(
        classify_audio_candidate(true, Some("a"), &DefaultOutputProbe::Failed("x".to_owned())),
        AudioCandidate::Accept
    );
}

#[test]
fn stale_probe_id_or_sink_epoch_cannot_change_audio_state() {
    let in_flight = Some((8, Some(21)));

    assert_eq!(
        classify_probe_event(in_flight, 8, Some(21), Some(21)),
        ProbeEventDisposition::Apply
    );
    // An older answer does not count as that of probe 8.
    assert_eq!(
        classify_probe_event(in_flight, 7, Some(21), Some(21)),
        ProbeEventDisposition::Ignore
    );
    assert_eq!(
        classify_probe_event(in_flight, 8, Some(20), Some(21)),
        ProbeEventDisposition::Ignore
    );
    // Probe 8 is awaited, but its output was replaced while the query ran.
    assert_eq!(
        classify_probe_event(in_flight, 8, Some(21), Some(22)),
        ProbeEventDisposition::ConsumeStale
    );
    assert_eq!(
        classify_probe_event(None, 8, Some(21), Some(21)),
        ProbeEventDisposition::Ignore
    );
}

#[test]
fn queue_advances_only_for_a_healthy_natural_completion() {
    let desired = DesiredPlayback::Track {
        track_id: 42,
        paused: false,
    };

    assert!(should_advance_queue(
        PlaybackPhase::Active,
        desired,
        Some(42),
        true,
        true,
    ));
    // A failure that becomes visible together with the end is a failure.
    assert!(!should_advance_queue(
        PlaybackPhase::Active,
        desired,
        Some(42),
        false,
        true,
    ));
    assert!(!should_advance_queue(
        PlaybackPhase::WaitingForAudio,
        desired,
        Some(42),
        true,
        true,
    ));
    assert!(!should_advance_queue(
        PlaybackPhase::Active,
        desired,
        Some(99),
        true,
        true,
    ));
    assert!(!should_advance_queue(
        PlaybackPhase::Active,
        DesiredPlayback::Stopped,
        Some(42),
        true,
        true,
    ));
}
