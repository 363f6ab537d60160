use ibroadcast_tui::queue::{PlaybackMode, PlaybackQueue};

#[test]
fn queue_tracks_advance_and_stop_at_end() {
    let mut queue = PlaybackQueue::default();
    queue.enqueue_many(&[10, 20]);
    assert_eq!(queue.play_index(0), Some(10));
    assert_eq!(queue.next(), Some(20));
    assert_eq!(queue.next(), None);
    assert_eq!(queue.previous(), Some(10));
}

#[test]
fn queue_can_enqueue_move_and_remove_tracks() {
    let mut queue = PlaybackQueue::default();
    assert_eq!(queue.enqueue(10), (0, true));
    assert_eq!(queue.enqueue_many(&[20, 30]), 2);
    assert_eq!(queue.tracks(), &[10, 20, 30]);
    assert_eq!(queue.current_index(), Some(0));

    assert_eq!(queue.move_down(0), Some(1));
    assert_eq!(queue.tracks(), &[20, 10, 30]);
    assert_eq!(queue.current_index(), Some(1));

    assert_eq!(queue.move_up(1), Some(0));
    assert_eq!(queue.tracks(), &[10, 20, 30]);
    assert_eq!(queue.current_index(), Some(0));

    assert_eq!(queue.remove(0), Some(10));
    assert_eq!(queue.tracks(), &[20, 30]);
    assert_eq!(queue.current_index(), Some(0));
}

#[test]
fn removing_before_current_preserves_current_track() {
    let mut queue = PlaybackQueue::default();
    queue.enqueue_many(&[10, 20, 30]);
    queue.play_index(2);
    assert_eq!(queue.remove(0), Some(10));
    assert_eq!(queue.current_track(), Some(30));
    assert_eq!(queue.current_index(), Some(1));
}

#[test]
fn enqueueing_a_queued_track_returns_its_existing_position() {
    let mut queue = PlaybackQueue::default();
    queue.enqueue_many(&[10, 20]);
    queue.play_index(1);

    assert_eq!(queue.enqueue(10), (0, false));
    assert_eq!(queue.tracks(), &[10, 20]);
    // Re-adding must not disturb what is currently playing.
    assert_eq!(queue.current_track(), Some(20));
}

#[test]
fn enqueue_many_skips_duplicates() {
    let mut queue = PlaybackQueue::default();
    queue.enqueue(10);
    assert_eq!(queue.enqueue_many(&[10, 20, 20, 30]), 2);
    assert_eq!(queue.tracks(), &[10, 20, 30]);
}

#[test]
fn playback_modes_cycle_in_display_order() {
    let mut queue = PlaybackQueue::default();
    assert_eq!(queue.playback_mode(), PlaybackMode::Sequential);
    assert_eq!(queue.cycle_playback_mode(), PlaybackMode::RepeatOne);
    assert_eq!(queue.cycle_playback_mode(), PlaybackMode::RepeatAll);
    assert_eq!(queue.cycle_playback_mode(), PlaybackMode::Shuffle);
    assert_eq!(queue.cycle_playback_mode(), PlaybackMode::Sequential);
}

#[test]
fn repeating_everything_comes_round() {
    let mut queue = PlaybackQueue::default();
    queue.enqueue_many(&[10, 20, 30]);
    queue.play_index(1);
    queue.set_playback_mode(PlaybackMode::RepeatAll);
    assert_eq!(queue.next(), Some(30));
    assert_eq!(queue.next(), Some(10));
    assert_eq!(queue.next(), Some(20));
    assert_eq!(queue.current_index(), Some(1));
}

#[test]
fn repeat_one_keeps_the_current_track() {
    let mut queue = PlaybackQueue::default();
    queue.enqueue_many(&[10, 20]);
    queue.play_index(1);
    queue.cycle_playback_mode();

    assert_eq!(queue.next(), Some(20));
    assert_eq!(queue.previous(), Some(20));
    assert_eq!(queue.current_index(), Some(1));
}

#[test]
fn repeat_all_wraps_at_queue_edges() {
    let mut queue = PlaybackQueue::default();
    queue.enqueue_many(&[10, 20]);
    queue.play_index(1);
    queue.cycle_playback_mode();
    queue.cycle_playback_mode();

    assert_eq!(queue.next(), Some(10));
    assert_eq!(queue.previous(), Some(20));
}

#[test]
fn shuffle_keeps_queue_order_and_avoids_repeats_until_cache_is_empty() {
    let mut queue = PlaybackQueue::default();
    queue.enqueue_many(&[10, 20, 30]);
    queue.play_index(0);
    queue.cycle_playback_mode();
    queue.cycle_playback_mode();
    queue.cycle_playback_mode();

    let first = queue.next();
    let second = queue.next();

    assert_eq!(queue.tracks(), &[10, 20, 30]);
    assert_ne!(first, Some(10));
    assert_ne!(second, Some(10));
    assert_ne!(second, first);
}

#[test]
fn shuffle_previous_uses_play_history() {
    let mut queue = PlaybackQueue::default();
    queue.enqueue_many(&[10, 20]);
    queue.play_index(0);
    queue.cycle_playback_mode();
    queue.cycle_playback_mode();
    queue.cycle_playback_mode();

    assert_eq!(queue.next(), Some(20));
    assert_eq!(queue.previous(), Some(10));
}

#[test]
fn shuffle_plays_every_track_once_before_any_comes_back() {
    let mut queue = PlaybackQueue::default();
    let tracks: Vec<u64> = (100..130).collect();
    assert_eq!(queue.enqueue_many(&tracks), 30);
    queue.play_index(7);
    queue.set_playback_mode(PlaybackMode::Shuffle);

    let mut heard = vec![107];
    for _ in 0..29 {
        let track = queue.next().unwrap();
        assert!(!heard.contains(&track));
        heard.push(track);
    }
    heard.sort_unstable();
    assert_eq!(heard, tracks);
    assert_eq!(queue.tracks(), tracks.as_slice());
}

#[test]
fn shuffle_takes_the_given_slot_of_what_remains() {
    let mut queue = PlaybackQueue::default();
    queue.enqueue_many(&[10, 20, 30, 40]);
    queue.play_index(1);
    queue.set_playback_mode(PlaybackMode::Shuffle);
    // The tracks that remain are 10, 30 and 40.
    assert_eq!(queue.next_shuffle_at(1), Some(30));
    assert_eq!(queue.previous(), Some(20));
}

#[test]
fn a_lone_track_is_shuffled_to_itself() {
    let mut queue = PlaybackQueue::default();
    queue.enqueue(10);
    queue.set_playback_mode(PlaybackMode::Shuffle);
    assert_eq!(queue.next(), Some(10));
    assert_eq!(queue.next(), Some(10));
}

#[test]
fn an_empty_queue_goes_nowhere() {
    let mut queue = PlaybackQueue::default();
    for _ in 0..4 {
        assert_eq!(queue.next(), None);
        assert_eq!(queue.previous(), None);
        assert_eq!(queue.current_index(), None);
        queue.cycle_playback_mode();
    }
    assert_eq!(queue.play_index(0), None);
    assert_eq!(queue.remove(0), None);
    assert_eq!(queue.move_up(0), None);
    assert_eq!(queue.move_down(0), None);
    assert!(queue.is_empty());
}

#[test]
fn moves_stop_at_the_edges() {
    let mut queue = PlaybackQueue::default();
    queue.enqueue_many(&[1, 2]);
    assert_eq!(queue.move_up(0), None);
    assert_eq!(queue.move_down(1), None);
    assert_eq!(queue.move_down(9), None);
    assert_eq!(queue.tracks(), &[1, 2]);
    assert_eq!(queue.play_index(2), None);
    assert_eq!(queue.current_index(), Some(0));
}

#[test]
fn moving_down_and_up_again_changes_nothing() {
    let mut queue = PlaybackQueue::default();
    queue.enqueue_many(&[1, 2, 3]);
    queue.play_index(1);
    assert_eq!(queue.move_down(1), Some(2));
    assert_eq!(queue.current_track(), Some(2));
    assert_eq!(queue.move_up(2), Some(1));
    assert_eq!(queue.tracks(), &[1, 2, 3]);
    assert_eq!(queue.current_track(), Some(2));
}

#[test]
fn removing_the_last_current_entry_moves_to_the_new_last_one() {
    let mut queue = PlaybackQueue::default();
    queue.enqueue_many(&[1, 2, 3]);
    queue.play_index(2);
    assert_eq!(queue.remove(2), Some(3));
    assert_eq!(queue.current_track(), Some(2));
    assert_eq!(queue.len(), 2);
    queue.clear();
    assert_eq!(queue.len(), 0);
    assert_eq!(queue.current_track(), None);
}

#[test]
fn modes_have_names() {
    assert_eq!(PlaybackMode::Sequential.label(), "Sequential");
    assert_eq!(PlaybackMode::RepeatOne.label(), "Repeat one");
    assert_eq!(PlaybackMode::RepeatAll.label(), "Repeat all");
    assert_eq!(PlaybackMode::Shuffle.label(), "Shuffle");
    assert_eq!(PlaybackMode::Shuffle.next(), PlaybackMode::Sequential);
}
