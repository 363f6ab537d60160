//! What the keys do, and what the events in the background lead to.

use vstd::prelude::*;

use crate::app::{
    added_text, key_action, queued_text, track_nanos, Action, AppView, DeleteOutcome, Key,
    KeyPress, Observed, PhaseView, Request, Setting, TokenLookup,
};
use crate::config::Bitrate;
use crate::engine::{Effect, EngineView};
use crate::laws::library::law_listings_are_in_order;
use crate::library::LibraryView;
use crate::oauth::DeviceCode;
use crate::queue::{with_track, with_tracks, PlaybackMode};
use crate::recovery::{DesiredPlayback, PlaybackPhase};
use crate::text::{decimal, trim, CharSet};
use crate::ui;

verus! {

/// Nothing but what the user is told of playback differs.
pub open spec fn same_playback(before: EngineView, after: EngineView) -> bool {
    after == before.with_status(after.status)
}

/// The keys of the main screen. Keys that are not named stand for nothing.
pub proof fn law_keys_stand_for_actions(c: char)
    ensures
        key_action(Key::Char('q')) == Some(Action::Quit),
        key_action(Key::Tab) == Some(Action::NextView),
        key_action(Key::Char('/')) == Some(Action::OpenSearch),
        key_action(Key::Down) == Some(Action::MoveSelection(1)),
        key_action(Key::Char('j')) == Some(Action::MoveSelection(1)),
        key_action(Key::Up) == Some(Action::MoveSelection((-1) as isize)),
        key_action(Key::Char('k')) == Some(Action::MoveSelection((-1) as isize)),
        key_action(Key::Enter) == Some(Action::Activate),
        key_action(Key::Char('a')) == Some(Action::AddToQueue { all_visible: false }),
        key_action(Key::Char('A')) == Some(Action::AddToQueue { all_visible: true }),
        key_action(Key::Char('x')) == Some(Action::DeleteOrRemove),
        key_action(Key::Delete) == Some(Action::DeleteOrRemove),
        key_action(Key::Char('[')) == Some(Action::MoveQueueItem((-1) as isize)),
        key_action(Key::Char('<')) == Some(Action::MoveQueueItem((-1) as isize)),
        key_action(Key::Char(']')) == Some(Action::MoveQueueItem(1)),
        key_action(Key::Char('>')) == Some(Action::MoveQueueItem(1)),
        key_action(Key::Char('C')) == Some(Action::ClearQueue),
        key_action(Key::Char('m')) == Some(Action::CyclePlaybackMode),
        key_action(Key::Char('b')) == Some(Action::CyclePlaybackBitrate),
        key_action(Key::Char('B')) == Some(Action::CycleDownloadBitrate),
        key_action(Key::Char(' ')) == Some(Action::TogglePause),
        key_action(Key::Char('n')) == Some(Action::NextTrack),
        key_action(Key::Char('p')) == Some(Action::PreviousTrack),
        key_action(Key::Char('d')) == Some(Action::Download { all_visible: false }),
        key_action(Key::Char('D')) == Some(Action::Download { all_visible: true }),
        key_action(Key::Char('L')) == Some(Action::Logout),
        key_action(Key::Char('+')) == Some(Action::AdjustVolume(5)),
        key_action(Key::Char('=')) == Some(Action::AdjustVolume(5)),
        key_action(Key::Char('-')) == Some(Action::AdjustVolume((-5) as i32)),
        key_action(Key::Esc) is None,
        key_action(Key::Backspace) is None,
        key_action(Key::Other) is None,
        !"q/jkaAx[<]>CmbB npdDL+=-"@.contains(c) ==> key_action(Key::Char(c)) is None,
{
    reveal_strlit("q/jkaAx[<]>CmbB npdDL+=-");
    let named = "q/jkaAx[<]>CmbB npdDL+=-"@;
    assert forall|i: int| 0 <= i < named.len() && named[i] == c implies named.contains(c) by {}
    assert(named[0] == 'q' && named[1] == '/' && named[2] == 'j' && named[3] == 'k');
    assert(named[4] == 'a' && named[5] == 'A' && named[6] == 'x' && named[7] == '[');
    assert(named[8] == '<' && named[9] == ']' && named[10] == '>' && named[11] == 'C');
    assert(named[12] == 'm' && named[13] == 'b' && named[14] == 'B' && named[15] == ' ');
    assert(named[16] == 'n' && named[17] == 'p' && named[18] == 'd' && named[19] == 'D');
    assert(named[20] == 'L' && named[21] == '+' && named[22] == '=' && named[23] == '-');
}

/// On the main screen a key does what its action does, and a key without one does nothing.
pub proof fn law_actions_are_done(app: AppView, key: Key, seen: Observed, after: AppView)
    requires
        app.phase is Ready,
        !app.search_mode,
        app.keyed(KeyPress { key, control: false }, seen, after),
    ensures
        key_action(key) matches Some(action) ==> app.acted(action, seen, after),
        key_action(key) is None ==> after == app,
{
}

/// Quitting ends the client, the next view is the other one, a search begins with an empty prompt,
/// the volume is changed by what is asked, and nothing else changes.
pub proof fn law_plain_actions(app: AppView, percent: i32, seen: Observed, after: AppView)
    ensures
        app.acted(Action::Quit, seen, after) ==> after == (AppView { should_quit: true, ..app }),
        app.acted(Action::NextView, seen, after) ==> after == (AppView {
            active_view: after.active_view,
            ..app
        }) && after.active_view != app.active_view,
        app.acted(Action::OpenSearch, seen, after) ==> after == (AppView {
            search_mode: true,
            search_input: Seq::empty(),
            ..app
        }),
        app.acted(Action::AdjustVolume(percent), seen, after) ==> after == (AppView {
            requests: app.requests.push(Request::AdjustVolume { percent }),
            ..app
        }),
{
}

/// Deleting concerns the local file in the library and the entry in the queue.
pub proof fn law_deleting_depends_on_the_view(app: AppView, seen: Observed, after: AppView)
    requires
        app.acted(Action::DeleteOrRemove, seen, after),
    ensures
        app.active_view == ui::View::Library ==> after == app.delete_local(),
        app.active_view == ui::View::Queue ==> after == app.remove_queued(seen),
{
}

/// The other actions are told by what they lead to.
pub proof fn law_actions_lead_where_they_should(
    app: AppView,
    all_visible: bool,
    delta: isize,
    seen: Observed,
    after: AppView,
)
    ensures
        app.acted(Action::MoveSelection(delta), seen, after) ==> after == app.move_selection(
            delta as int,
        ),
        app.acted(Action::Activate, seen, after) ==> app.activated(seen, after),
        app.acted(Action::AddToQueue { all_visible }, seen, after) ==> after == app.add_to_queue(
            all_visible,
        ),
        app.acted(Action::MoveQueueItem(delta), seen, after) ==> after == app.move_queued(
            delta as int,
        ),
        app.acted(Action::ClearQueue, seen, after) ==> after == app.clear_queue(),
        app.acted(Action::CyclePlaybackMode, seen, after) ==> after == app.cycle_playback_mode(),
        app.acted(Action::CyclePlaybackBitrate, seen, after) ==> after
            == app.cycle_playback_bitrate(),
        app.acted(Action::CycleDownloadBitrate, seen, after) ==> after
            == app.cycle_download_bitrate(),
        app.acted(Action::TogglePause, seen, after) ==> after == (AppView {
            engine: app.engine.toggled(seen.healthy),
            ..app
        }),
        app.acted(Action::NextTrack, seen, after) ==> stepped(app, true, seen, after),
        app.acted(Action::PreviousTrack, seen, after) ==> stepped(app, false, seen, after),
        app.acted(Action::Download { all_visible }, seen, after) ==> after == app.download(
            all_visible,
        ),
        app.acted(Action::Logout, seen, after) ==> after == app.logout(),
{
}

/// One row down or up goes to the neighbouring row of the list that is shown, and stays at its
/// ends. The other list, the queue and playback are left alone.
pub proof fn law_rows_are_selected_one_by_one(app: AppView)
    requires
        app.listed().len() <= usize::MAX,
        app.queue.tracks.len() <= usize::MAX,
    ensures
        ({
            let down = app.move_selection(1);
            let up = app.move_selection(-1);
            let rows = app.listed().len();
            let entries = app.queue.tracks.len();
            &&& app.active_view == ui::View::Library ==> {
                &&& down == (AppView { selected: down.selected, ..app })
                &&& up == (AppView { selected: up.selected, ..app })
                &&& app.selected + 1 < rows ==> down.selected == app.selected + 1
                &&& app.selected + 1 == rows ==> down.selected == app.selected
                &&& 0 < app.selected < rows ==> up.selected == app.selected - 1
                &&& app.selected == 0 ==> up.selected == 0
            }
            &&& app.active_view == ui::View::Queue ==> {
                &&& down == (AppView { queue_selected: down.queue_selected, ..app })
                &&& up == (AppView { queue_selected: up.queue_selected, ..app })
                &&& app.queue_selected + 1 < entries ==> down.queue_selected == app.queue_selected
                    + 1
                &&& app.queue_selected + 1 == entries ==> down.queue_selected
                    == app.queue_selected
                &&& 0 < app.queue_selected < entries ==> up.queue_selected == app.queue_selected
                    - 1
                &&& app.queue_selected == 0 ==> up.queue_selected == 0
            }
        }),
{
}

/// The track is wanted, not paused, and on a healthy output it is begun: from its local file where
/// there is one, else from a stream at the bitrate that is set.
pub open spec fn begins(before: AppView, seen: Observed, after: AppView, track_id: u64) -> bool {
    &&& after.engine.desired == (DesiredPlayback::Track { track_id, paused: false })
    &&& after.engine.generation != before.engine.generation
    &&& before.engine.audio is Ready && seen.healthy ==> after.engine.effects.last() == if
        before.downloads.local.contains(track_id) {
        Effect::PlayLocal { track_id, paused: false }
    } else {
        Effect::ResolveStream {
            generation: after.engine.generation,
            track_id,
            bitrate: before.playback_bitrate(),
        }
    }
}

/// The current track of the queue is begun.
proof fn lemma_begins(app: AppView, moved: AppView, seen: Observed, track_id: u64)
    requires
        moved.engine == app.engine,
        moved.downloads == app.downloads,
        moved.config == app.config,
        moved.session == app.session,
        moved.queue.current_track() == Some(track_id),
        app.knows(track_id),
    ensures
        begins(app, seen, moved.play_current(seen), track_id),
        moved.play_current(seen) == (AppView {
            engine: moved.play_current(seen).engine,
            ..moved
        }),
{
}

/// Enter in the library queues the track under the cursor, unless it is queued, and plays it.
pub proof fn law_enter_plays_the_listed_track(app: AppView, seen: Observed, after: AppView)
    requires
        app.wf(),
        app.activated(seen, after),
        app.active_view == ui::View::Library,
        app.selected < app.listed().len(),
        app.knows(app.listed()[app.selected as int]),
    ensures
        ({
            let track_id = app.listed()[app.selected as int];
            &&& begins(app, seen, after, track_id)
            &&& after.queue.current_track() == Some(track_id)
            &&& app.queue.tracks.contains(track_id) ==> after.queue.tracks == app.queue.tracks
            &&& !app.queue.tracks.contains(track_id) ==> after.queue.tracks
                == app.queue.tracks.push(track_id)
            &&& after.queue_selected < after.queue.tracks.len()
            &&& after.queue.tracks[after.queue_selected as int] == track_id
            &&& after.queue.mode == app.queue.mode
        }),
{
}

/// Enter in the queue plays the entry under the cursor and leaves the entries as they are.
pub proof fn law_enter_plays_the_queued_track(app: AppView, seen: Observed, after: AppView)
    requires
        app.activated(seen, after),
        app.active_view == ui::View::Queue,
        app.queue_selected < app.queue.tracks.len(),
        app.knows(app.queue.tracks[app.queue_selected as int]),
    ensures
        begins(app, seen, after, app.queue.tracks[app.queue_selected as int]),
        after.queue.current == Some(app.queue_selected as int),
        after.queue.tracks == app.queue.tracks,
        after.queue_selected == app.queue_selected,
        after.selected == app.selected,
{
}

proof fn lemma_all_added(tracks: Seq<u64>, ids: Seq<u64>)
    ensures
        tracks.is_prefix_of(with_tracks(tracks, ids)),
        forall|i: int| 0 <= i < ids.len() ==> with_tracks(tracks, ids).contains(#[trigger] ids[i]),
        forall|i: int|
            tracks.len() <= i < with_tracks(tracks, ids).len() ==> ids.contains(
                #[trigger] with_tracks(tracks, ids)[i],
            ),
    decreases ids.len(),
{
    if ids.len() > 0 {
        let before = with_tracks(tracks, ids.drop_last());
        let after = with_tracks(tracks, ids);
        lemma_all_added(tracks, ids.drop_last());
        assert(after == with_track(before, ids.last()));
        if !before.contains(ids.last()) {
            assert(after[before.len() as int] == ids.last());
        }
        assert forall|i: int| 0 <= i < ids.len() implies after.contains(#[trigger] ids[i]) by {
            if i < ids.len() - 1 {
                assert(ids.drop_last()[i] == ids[i]);
                assert(before.contains(ids[i]));
                let k = choose|k: int| 0 <= k < before.len() && before[k] == ids[i];
                assert(after[k] == ids[i]);
            }
        }
        assert forall|i: int| tracks.len() <= i < after.len() implies ids.contains(
            #[trigger] after[i],
        ) by {
            if i < before.len() {
                assert(before[i] == after[i]);
                assert(ids.drop_last().contains(before[i]));
                let k = choose|k: int|
                    0 <= k < ids.drop_last().len() && ids.drop_last()[k] == before[i];
                assert(ids[k] == after[i]);
            } else {
                assert(ids[ids.len() - 1] == after[i]);
            }
        }
    }
}

/// Adding in the library puts the track under the cursor at the end of the queue, unless it is
/// queued, and says which of both happened. Playback goes on as it was.
pub proof fn law_tracks_are_queued(app: AppView)
    requires
        app.active_view == ui::View::Library,
        app.selected < app.listed().len(),
    ensures
        ({
            let track_id = app.listed()[app.selected as int];
            let after = app.add_to_queue(false);
            &&& same_playback(app.engine, after.engine)
            &&& app.queue.tracks.contains(track_id) ==> after.queue == app.queue
                && after.engine.status == "Already in queue"@
            &&& !app.queue.tracks.contains(track_id) ==> after.queue.tracks
                == app.queue.tracks.push(track_id) && after.engine.status == "Added "@
                + decimal(1) + " track(s) to queue"@
            &&& app.queue.current is Some ==> after.queue.current == app.queue.current
        }),
{
    let track_id = app.listed()[app.selected as int];
    let ids = seq![track_id];
    assert(ids.drop_last() =~= Seq::<u64>::empty());
    assert(with_tracks(app.queue.tracks, ids.drop_last()) == app.queue.tracks);
    assert(with_tracks(app.queue.tracks, ids) == with_track(app.queue.tracks, track_id));
}

/// Adding all in the library queues every track that is listed: the entries stay where they are,
/// all listed tracks are queued afterwards, and nothing else is.
pub proof fn law_all_listed_tracks_are_queued(app: AppView, after: AppView)
    requires
        after == app.add_to_queue(true),
        app.active_view == ui::View::Library,
        app.session is Some,
    ensures
        same_playback(app.engine, after.engine),
        app.queue.tracks.is_prefix_of(after.queue.tracks),
        forall|i: int|
            0 <= i < app.listed().len() ==> after.queue.tracks.contains(#[trigger] app.listed()[i]),
        forall|i: int|
            app.queue.tracks.len() <= i < after.queue.tracks.len() ==> app.listed().contains(
                #[trigger] after.queue.tracks[i],
            ),
        app.listed().len() == 0 ==> after.engine.status == "No tracks to add"@,
{
    lemma_all_added(app.queue.tracks, app.listed());
}

/// What is told after tracks were added: how many were, and how many were queued before.
pub proof fn law_additions_are_counted(added: nat, queued_before: nat)
    requires
        added > 0,
    ensures
        queued_before == 0 ==> added_text(added, added) == "Added "@ + decimal(added)
            + " track(s) to queue"@,
        queued_before > 0 ==> added_text(added + queued_before, added) == "Added "@
            + decimal(added) + " track(s) to queue ("@ + decimal(queued_before)
            + " already queued)"@,
        queued_before > 0 ==> added_text(queued_before, 0) == "Already in queue"@,
{
}

/// Removing takes out of the queue the entry under the cursor, and the cursor stays where it
/// is or goes to the new last entry. Playback of another entry goes on.
pub proof fn law_entries_are_removed(app: AppView, seen: Observed, after: AppView)
    requires
        after == app.remove_queued(seen),
        app.queue_selected < app.queue.tracks.len() <= usize::MAX,
        app.engine.desired.spec_track_id() != Some(app.queue.tracks[app.queue_selected as int]),
    ensures
        ({
            let row = app.queue_selected as int;
            let tracks = app.queue.tracks;
            &&& after.queue.tracks == tracks.remove(row)
            &&& row + 1 < tracks.len() ==> after.queue_selected == row
            &&& row + 1 == tracks.len() && row > 0 ==> after.queue_selected == row - 1
            &&& same_playback(app.engine, after.engine)
            &&& after.engine.status == "Removed track from queue"@
        }),
{
}

/// If the entry that goes was being played, the one after it is played.
pub proof fn law_removed_entries_give_way(app: AppView, seen: Observed, after: AppView)
    requires
        after == app.remove_queued(seen),
        app.queue_selected + 1 < app.queue.tracks.len() <= usize::MAX,
        app.queue.current == Some(app.queue_selected as int),
        app.engine.desired.spec_track_id() == Some(app.queue.tracks[app.queue_selected as int]),
        app.knows(app.queue.tracks[app.queue_selected + 1]),
    ensures
        begins(app, seen, after, app.queue.tracks[app.queue_selected + 1]),
        after.queue.tracks == app.queue.tracks.remove(app.queue_selected as int),
        after.queue.current_track() == Some(app.queue.tracks[app.queue_selected + 1]),
        after.queue_selected == app.queue_selected,
{
    let row = app.queue_selected as int;
    let left = AppView { queue: app.queue.removed(row), ..app };
    assert(left.queue.tracks[row] == app.queue.tracks[row + 1]);
    lemma_begins(app, left, seen, app.queue.tracks[row + 1]);
}

/// If the last of several entries goes while it is being played, the one before it is played, and
/// playback ends with the only entry.
pub proof fn law_the_last_entry_gives_way(app: AppView, seen: Observed, after: AppView)
    requires
        after == app.remove_queued(seen),
        app.queue_selected + 1 == app.queue.tracks.len() <= usize::MAX,
        app.queue.current == Some(app.queue_selected as int),
        app.engine.desired.spec_track_id() == Some(app.queue.tracks[app.queue_selected as int]),
        app.queue_selected > 0 ==> app.knows(app.queue.tracks[app.queue_selected - 1]),
    ensures
        app.queue_selected > 0 ==> {
            &&& begins(app, seen, after, app.queue.tracks[app.queue_selected - 1])
            &&& after.queue.tracks == app.queue.tracks.drop_last()
            &&& after.queue.current_track() == Some(app.queue.tracks[app.queue_selected - 1])
            &&& after.queue_selected == app.queue_selected - 1
        },
        app.queue_selected == 0 ==> {
            &&& after.engine.desired == DesiredPlayback::Stopped
            &&& after.engine.status == "Queue is empty"@
            &&& after.queue.tracks.len() == 0
            &&& after.queue.current is None
        },
{
    let row = app.queue_selected as int;
    let left = AppView { queue: app.queue.removed(row), ..app };
    if row > 0 {
        assert(left.queue.tracks =~= app.queue.tracks.drop_last());
        assert(left.queue.tracks[row - 1] == app.queue.tracks[row - 1]);
        lemma_begins(app, left, seen, app.queue.tracks[row - 1]);
    }
}

/// Deleting in the library asks for the local file of the track under the cursor to be deleted,
/// after playback of it has ended. A download that runs and a track without a file are told of
/// instead.
pub proof fn law_local_files_are_deleted(app: AppView)
    requires
        app.selected < app.listed().len(),
        app.knows(app.listed()[app.selected as int]),
    ensures
        ({
            let track_id = app.listed()[app.selected as int];
            let local = app.downloads.local.contains(track_id);
            let running = app.downloads.running(track_id);
            let after = app.delete_local();
            &&& after.queue == app.queue
            &&& after.downloads == app.downloads
            &&& local && !running ==> after.requests == app.requests.push(
                Request::DeleteLocalFile { track_id },
            )
            &&& !(local && !running) ==> after.requests == app.requests
                && same_playback(app.engine, after.engine)
            &&& running ==> after.engine.status
                == "Download is still running; wait before deleting"@
            &&& !local && !running ==> after.engine.status == "Track is not available locally"@
            &&& local && !running && app.engine.desired.spec_track_id() == Some(track_id)
                ==> after.engine.desired == DesiredPlayback::Stopped
            &&& local && !running && app.engine.desired.spec_track_id() != Some(track_id)
                ==> after.engine == app.engine
        }),
{
}

/// A track whose file was deleted, or was not there, is not local any more; one whose file could
/// not be deleted stays local. No other track changes, and the outcome is told.
pub proof fn law_deleted_files_are_not_local(
    app: AppView,
    track_id: u64,
    other: u64,
    path: &str,
    error: &str,
)
    requires
        other != track_id,
    ensures
        ({
            let deleted = app.deleted(track_id, DeleteOutcome::Deleted(path));
            let absent = app.deleted(track_id, DeleteOutcome::NotFound);
            let failed = app.deleted(track_id, DeleteOutcome::Failed(error));
            &&& !deleted.downloads.local.contains(track_id)
            &&& deleted.downloads.local.contains(other) == app.downloads.local.contains(other)
            &&& deleted.engine.status == "Deleted local file: "@ + path@
            &&& !absent.downloads.local.contains(track_id)
            &&& absent.downloads.local.contains(other) == app.downloads.local.contains(other)
            &&& absent.engine.status == "Track is not available locally"@
            &&& failed.downloads == app.downloads
            &&& failed.engine.status == "Delete failed: "@ + error@
            &&& same_playback(app.engine, deleted.engine)
            &&& same_playback(app.engine, absent.engine)
            &&& same_playback(app.engine, failed.engine)
        }),
{
}

/// An entry of the queue that is moved up or down changes places with its neighbour, and the cursor
/// goes with it; at the ends it stays. All other entries stay, and so does playback.
pub proof fn law_entries_are_moved(app: AppView, other: int)
    requires
        app.active_view == ui::View::Queue,
        app.queue_selected < app.queue.tracks.len() <= usize::MAX,
    ensures
        ({
            let row = app.queue_selected as int;
            let tracks = app.queue.tracks;
            let up = app.move_queued(-1);
            let down = app.move_queued(1);
            &&& row > 0 ==> up.queue_selected == row - 1 && up.queue.tracks[row - 1] == tracks[row]
                && up.queue.tracks[row] == tracks[row - 1]
            &&& row == 0 ==> up == app
            &&& row + 1 < tracks.len() ==> down.queue_selected == row + 1 && down.queue.tracks[row
                + 1] == tracks[row] && down.queue.tracks[row] == tracks[row + 1]
            &&& row + 1 == tracks.len() ==> down == app
            &&& up.queue.tracks.len() == tracks.len()
            &&& down.queue.tracks.len() == tracks.len()
            &&& same_playback(app.engine, up.engine)
            &&& same_playback(app.engine, down.engine)
            &&& 0 <= other < tracks.len() && other != row && other != row - 1
                ==> up.queue.tracks[other] == tracks[other]
            &&& 0 <= other < tracks.len() && other != row && other != row + 1
                ==> down.queue.tracks[other] == tracks[other]
        }),
{
}

/// Clearing empties the queue that is shown and ends playback; in the library it does nothing.
pub proof fn law_the_queue_is_emptied(app: AppView, after: AppView)
    requires
        after == app.clear_queue(),
    ensures
        app.active_view == ui::View::Queue ==> after.queue.tracks.len() == 0
            && after.queue.current is None && after.queue.mode == app.queue.mode
            && after.queue_selected == 0 && after.engine.desired == DesiredPlayback::Stopped
            && after.engine.status == "Queue cleared"@,
        app.active_view == ui::View::Library ==> after == app,
{
}

/// The four modes, the six bitrates for streams and the two for downloads are gone through in
/// turn. Each choice is kept in the configuration, takes effect and is saved, and playback goes on.
pub proof fn law_settings_are_cycled(app: AppView)
    ensures
        ({
            let after = app.cycle_playback_mode();
            &&& after.queue.mode == match app.queue.mode {
                PlaybackMode::Sequential => PlaybackMode::RepeatOne,
                PlaybackMode::RepeatOne => PlaybackMode::RepeatAll,
                PlaybackMode::RepeatAll => PlaybackMode::Shuffle,
                PlaybackMode::Shuffle => PlaybackMode::Sequential,
            }
            &&& after.config.playback_mode == after.queue.mode
            &&& after.queue.tracks == app.queue.tracks
            &&& after.queue.current == app.queue.current
            &&& after.engine == app.engine
            &&& after.requests == app.requests.push(Request::SaveConfig(Setting::PlaybackMode))
        }),
        ({
            let after = app.cycle_playback_bitrate();
            &&& after.playback_bitrate() == match app.playback_bitrate() {
                Bitrate::Kbps96 => Bitrate::Kbps128,
                Bitrate::Kbps128 => Bitrate::Kbps192,
                Bitrate::Kbps192 => Bitrate::Kbps256,
                Bitrate::Kbps256 => Bitrate::Kbps320,
                Bitrate::Kbps320 => Bitrate::Original,
                Bitrate::Original => Bitrate::Kbps96,
            }
            &&& after.config.playback_bitrate == Some(after.playback_bitrate())
            &&& after.engine == app.engine
            &&& after.queue == app.queue
            &&& after.requests == app.requests.push(Request::SaveConfig(Setting::PlaybackBitrate))
        }),
        ({
            let after = app.cycle_download_bitrate();
            &&& app.config.download_bitrate == Bitrate::Kbps128 ==> after.config.download_bitrate
                == Bitrate::Original
            &&& app.config.download_bitrate == Bitrate::Original ==> after.config.download_bitrate
                == Bitrate::Kbps128
            &&& after.engine == app.engine
            &&& after.queue == app.queue
            &&& after.requests == app.requests.push(Request::SaveConfig(Setting::DownloadBitrate))
        }),
{
}

/// Once a setting was saved, its new value is told, and what went wrong where it was not saved.
pub proof fn law_saved_settings_are_told(app: AppView, error: Seq<char>)
    ensures
        app.config_saved(Setting::DownloadBitrate, None).engine.status
            == "Download bitrate set to "@ + app.config.download_bitrate.spec_path_segment(),
        app.config_saved(Setting::PlaybackBitrate, None).engine.status
            == "Playback bitrate set to "@ + app.playback_bitrate().spec_path_segment()
            + " for future streams"@,
        app.config_saved(Setting::PlaybackMode, None).engine.status == "Playback mode set to "@
            + app.config.playback_mode.spec_label(),
        app.config_saved(Setting::DownloadBitrate, Some(error)).engine.status
            == "Download bitrate set to "@ + app.config.download_bitrate.spec_path_segment()
            + ", but config save failed: "@ + error,
        app.config_saved(Setting::PlaybackBitrate, Some(error)).engine.status
            == "Playback bitrate set to "@ + app.playback_bitrate().spec_path_segment()
            + ", but config save failed: "@ + error,
        app.config_saved(Setting::PlaybackMode, Some(error)).engine.status
            == "Playback mode set to "@ + app.config.playback_mode.spec_label()
            + ", but config save failed: "@ + error,
        app.config_saved(Setting::ClientId, Some(error)) == app,
{
}

/// The user went one track on or back, which led to `after`.
pub open spec fn stepped(app: AppView, forward: bool, seen: Observed, after: AppView) -> bool {
    if forward {
        app.queue.next_step(after.queue) && after == app.next(after.queue, seen)
    } else {
        after == app.previous(seen)
    }
}

/// Going on plays the entry after the current one, and going back the one before it.
pub proof fn law_neighbours_are_played(
    app: AppView,
    forward: bool,
    seen: Observed,
    after: AppView,
    i: int,
    other: int,
)
    requires
        stepped(app, forward, seen, after),
        app.queue.current == Some(i),
        0 <= i < app.queue.tracks.len(),
        app.queue.mode == PlaybackMode::Sequential || app.queue.mode == PlaybackMode::RepeatAll,
        other == if forward { i + 1 } else { i - 1 },
        0 <= other < app.queue.tracks.len(),
        app.knows(app.queue.tracks[other]),
    ensures
        begins(app, seen, after, app.queue.tracks[other]),
        after.queue.current == Some(other),
        after.queue.tracks == app.queue.tracks,
{
    let moved = AppView { queue: app.queue.at(other), ..app };
    lemma_begins(app, moved, seen, app.queue.tracks[other]);
    assert(after == moved.play_current(seen));
}

/// At the end of the queue going on changes nothing when nothing is repeated. When all is, it goes
/// to the first entry, and going back goes from there to the last.
pub proof fn law_the_ends_of_the_queue_meet(
    app: AppView,
    forward: bool,
    seen: Observed,
    after: AppView,
    other: int,
)
    requires
        stepped(app, forward, seen, after),
        app.queue.tracks.len() > 0,
        app.queue.current == Some(if forward { app.queue.tracks.len() - 1 } else { 0 }),
        other == if forward { 0 } else { app.queue.tracks.len() - 1 },
        app.knows(app.queue.tracks[other]),
    ensures
        app.queue.mode == PlaybackMode::Sequential && forward ==> after == app,
        app.queue.mode == PlaybackMode::RepeatAll ==> begins(
            app,
            seen,
            after,
            app.queue.tracks[other],
        ) && after.queue.current == Some(other) && after.queue.tracks == app.queue.tracks,
{
    let moved = AppView { queue: app.queue.at(other), ..app };
    if app.queue.mode == PlaybackMode::RepeatAll {
        lemma_begins(app, moved, seen, app.queue.tracks[other]);
        assert(after == moved.play_current(seen));
    }
}

/// While one track is repeated, going on and back begin it again.
pub proof fn law_one_track_is_repeated(
    app: AppView,
    forward: bool,
    seen: Observed,
    after: AppView,
    track_id: u64,
)
    requires
        stepped(app, forward, seen, after),
        app.queue.mode == PlaybackMode::RepeatOne,
        app.queue.current_track() == Some(track_id),
        app.knows(track_id),
    ensures
        begins(app, seen, after, track_id),
        after.queue == app.queue,
{
    lemma_begins(app, app, seen, track_id);
    assert(after == app.play_current(seen));
}

/// The track at `i` of the queue has been played to its end on a healthy output.
pub open spec fn ended(app: AppView, seen: Observed, i: int) -> bool {
    &&& app.queue.current == Some(i)
    &&& 0 <= i < app.queue.tracks.len()
    &&& app.engine.desired.spec_track_id() == Some(app.queue.tracks[i])
    &&& app.engine.phase == PlaybackPhase::Active
    &&& app.engine.audio is Ready
    &&& seen.healthy
    &&& seen.finished
}

/// When the track that plays has come to its end, the next entry is played: the following one, the
/// first one after the last where all is repeated, and the same one again where one is.
pub proof fn law_the_queue_plays_on(
    app: AppView,
    seen: Observed,
    after: AppView,
    i: int,
    other: int,
)
    requires
        app.went_by(seen, after),
        ended(app, seen, i),
        match app.queue.mode {
            PlaybackMode::Sequential => i + 1 < app.queue.tracks.len() && other == i + 1,
            PlaybackMode::RepeatAll => other == if i + 1 < app.queue.tracks.len() {
                i + 1
            } else {
                0
            },
            PlaybackMode::RepeatOne => other == i,
            PlaybackMode::Shuffle => false,
        },
        app.knows(app.queue.tracks[other]),
    ensures
        begins(app, seen, after, app.queue.tracks[other]),
        after.queue.current == Some(other),
        after.queue.tracks == app.queue.tracks,
{
    let moved = AppView { queue: app.queue.at(other), ..app };
    assert(after.queue == moved.queue);
    lemma_begins(app, moved, seen, app.queue.tracks[other]);
    assert(after == moved.play_current(seen));
}

/// After the last track playback ends when nothing is repeated, and until a track has ended time
/// changes nothing.
pub proof fn law_the_queue_comes_to_its_end(app: AppView, seen: Observed, after: AppView, i: int)
    requires
        app.went_by(seen, after),
        app.queue.current == Some(i),
        0 <= i < app.queue.tracks.len(),
    ensures
        !ended(app, seen, i) ==> after == app,
        ended(app, seen, i) && app.queue.mode == PlaybackMode::Sequential && i + 1
            == app.queue.tracks.len() ==> after.engine.desired == DesiredPlayback::Stopped
            && after.engine.status == "Queue finished"@ && after.queue == app.queue,
{
}

proof fn lemma_all_begun(app: AppView, ids: Seq<u64>)
    ensures
        ({
            let (after, queued) = app.downloading(ids);
            &&& after.session == app.session
            &&& after.downloads.local == app.downloads.local
            &&& after.queue == app.queue
            &&& after.engine == app.engine
            &&& queued <= ids.len()
            &&& after.requests.len() == app.requests.len() + queued
            &&& app.downloads.tasks.is_prefix_of(after.downloads.tasks)
            &&& forall|i: int|
                0 <= i < ids.len() && !app.skips(#[trigger] ids[i]) ==> after.downloads.running(
                    ids[i],
                )
        }),
    decreases ids.len(),
{
    if ids.len() > 0 {
        lemma_all_begun(app, ids.drop_last());
        let (before, queued) = app.downloading(ids.drop_last());
        let (after, total) = app.downloading(ids);
        let last = ids.last();
        if !before.skips(last) {
            assert(after.downloads.tasks[before.downloads.tasks.len() as int].track_id == last);
            assert(after.downloads.running(last));
        }
        assert forall|i: int| 0 <= i < ids.len() && !app.skips(#[trigger] ids[i]) implies
            after.downloads.running(ids[i]) by {
            if i < ids.len() - 1 {
                assert(ids.drop_last()[i] == ids[i]);
                assert(before.downloads.running(ids[i]));
                let k = choose|k: int|
                    0 <= k < before.downloads.tasks.len() && (
                    #[trigger] before.downloads.tasks[k]).track_id == ids[i]
                        && before.downloads.tasks[k].status
                        == crate::downloads::DownloadStatus::Running;
                assert(after.downloads.tasks[k] == before.downloads.tasks[k]);
            }
        }
    }
}

/// The tracks that a download is asked for: the one under the cursor, or all that are shown.
pub open spec fn meant(app: AppView, all: bool) -> Seq<u64> {
    let shown = if app.active_view == ui::View::Library {
        app.listed()
    } else {
        app.queue.tracks
    };
    let row = if app.active_view == ui::View::Library {
        app.selected
    } else {
        app.queue_selected
    };
    if all {
        shown
    } else {
        seq![shown[row as int]]
    }
}

/// The track under the cursor or all that are shown are downloaded, in the library and in the
/// queue: every one of them that the library has, that is not local and not being downloaded, is
/// being downloaded afterwards. How many downloads began and how many tracks were passed over is
/// told.
pub proof fn law_tracks_are_downloaded(app: AppView, all: bool, after: AppView)
    requires
        after == app.download(all),
        app.session is Some,
        !all ==> if app.active_view == ui::View::Library {
            app.selected < app.listed().len()
        } else {
            app.queue_selected < app.queue.tracks.len()
        },
    ensures
        ({
            let ids = meant(app, all);
            let begun = after.requests.len() - app.requests.len();
            &&& forall|i: int|
                0 <= i < ids.len() && app.knows(#[trigger] ids[i])
                    && !app.downloads.local.contains(ids[i]) && !app.downloads.running(ids[i])
                    ==> after.downloads.running(ids[i])
            &&& 0 <= begun <= ids.len()
            &&& after.engine.status == queued_text(begun as nat, (ids.len() - begun) as nat)
            &&& same_playback(app.engine, after.engine)
            &&& after.queue == app.queue
            &&& after.downloads.local == app.downloads.local
        }),
{
    let ids = meant(app, all);
    assert(app.download_targets(all) =~= ids);
    lemma_all_begun(app, ids);
}

/// What is told after downloads were asked for.
pub proof fn law_downloads_are_counted(begun: nat, passed_over: nat)
    ensures
        begun == 0 && passed_over == 0 ==> queued_text(begun, passed_over)
            == "No tracks selected for download"@,
        begun == 0 && passed_over > 0 ==> queued_text(begun, passed_over)
            == "No new downloads queued; skipped "@ + decimal(passed_over)
            + " local/running track(s)"@,
        begun > 0 && passed_over == 0 ==> queued_text(begun, passed_over) == "Queued "@
            + decimal(begun) + " download(s)"@,
        begun > 0 && passed_over > 0 ==> queued_text(begun, passed_over) == "Queued "@
            + decimal(begun) + " download(s), skipped "@ + decimal(passed_over)
            + " local/running track(s)"@,
{
}

/// A download that succeeded makes its track local and one that failed does not, and neither runs
/// any more; the outcome is told.
pub proof fn law_finished_downloads_are_told(
    app: AppView,
    i: int,
    succeeded: bool,
    message: Seq<char>,
)
    requires
        app.wf(),
        0 <= i < app.downloads.tasks.len(),
    ensures
        ({
            let task = app.downloads.tasks[i];
            let after = app.downloaded(task.id, succeeded, message);
            &&& succeeded ==> after.downloads.local == app.downloads.local.insert(task.track_id)
                && after.engine.status == "Downloaded "@ + message
            &&& !succeeded ==> after.downloads.local == app.downloads.local && after.engine.status
                == message
            &&& after.downloads.tasks[i].status != crate::downloads::DownloadStatus::Running
            &&& after.downloads.tasks[i].track_id == task.track_id
            &&& same_playback(app.engine, after.engine)
            &&& after.queue == app.queue
        }),
{
    let id = app.downloads.tasks[i].id;
    assert(app.downloads.is_task(i, id));
    let k = app.downloads.index_of(id);
    assert(app.downloads.is_task(k, id));
    assert(k == i);
}

/// In the search prompt characters are typed and taken back, Esc closes it without a search, and
/// Enter lists exactly the tracks that are sought and counts them.
pub proof fn law_the_search_prompt_is_typed_into(
    app: AppView,
    key: Key,
    c: char,
    after: AppView,
)
    requires
        app.search_keyed(key, after),
    ensures
        key == Key::Char(c) ==> after == (AppView {
            search_input: app.search_input.push(c),
            ..app
        }),
        key == Key::Backspace && app.search_input.len() > 0 ==> after == (AppView {
            search_input: app.search_input.drop_last(),
            ..app
        }),
        key == Key::Backspace && app.search_input.len() == 0 ==> after == app,
        key == Key::Esc ==> after == (AppView { search_mode: false, ..app }),
        key == Key::Tab || key == Key::Up || key == Key::Down ==> after == app,
        key == Key::Enter && app.session is Some ==> {
            &&& !after.search_mode
            &&& after.search_input == app.search_input
            &&& after.selected == 0
            &&& after.active_view == ui::View::Library
            &&& after.session is Some
            &&& after.session->0.library == app.session->0.library
            &&& after.listed().no_duplicates()
            &&& forall|id: u64|
                #[trigger] after.listed().contains(id) <==> app.session->0.library.sought(
                    app.search_input,
                )(id)
            &&& after.engine.status == decimal(after.listed().len()) + " matches for '"@
                + app.search_input + "'"@
            &&& same_playback(app.engine, after.engine)
            &&& after.queue == app.queue
        },
{
    if key == Key::Enter && app.session is Some {
        let library = app.session->0.library;
        let ids = after.listed();
        assert forall|i: int, j: int| 0 <= i < j < ids.len() implies ids[i] != ids[j] by {
            law_listings_are_in_order(library, library.sought(app.search_input), ids, i, j);
        }
    }
}

/// While the client id is asked for, characters are typed and taken back. Enter takes the id
/// without the blanks around it, has it saved and asks for a device code; with blanks only it does
/// nothing. `q` and Esc end the client.
pub proof fn law_the_client_id_is_asked_for(
    app: AppView,
    key: Key,
    c: char,
    after: AppView,
)
    requires
        after == app.client_id_keyed(key),
    ensures
        key == Key::Char(c) && c != 'q' ==> after == (AppView {
            client_id_input: app.client_id_input.push(c),
            ..app
        }),
        key == Key::Backspace && app.client_id_input.len() > 0 ==> after == (AppView {
            client_id_input: app.client_id_input.drop_last(),
            ..app
        }),
        key == Key::Char('q') || key == Key::Esc ==> after == (AppView {
            should_quit: true,
            ..app
        }),
        key == Key::Enter && trim(app.client_id_input, CharSet::WhiteSpace).len() > 0 ==> {
            &&& after.config.client_id == Some(trim(app.client_id_input, CharSet::WhiteSpace))
            &&& after.requests == app.requests + seq![
                Request::SaveConfig(Setting::ClientId),
                Request::RequestDeviceCode,
            ]
            &&& after.phase is RequestingDeviceCode
            &&& after.engine.status == "Requesting device code..."@
        },
        key == Key::Enter && trim(app.client_id_input, CharSet::WhiteSpace).len() == 0 ==> after
            == app,
{
    if key == Key::Enter && trim(app.client_id_input, CharSet::WhiteSpace).len() > 0 {
        assert(after.requests =~= app.requests + seq![
            Request::SaveConfig(Setting::ClientId),
            Request::RequestDeviceCode,
        ]);
    }
}

/// On the error screen `l` deletes the stored token and asks for authorization anew, or for the
/// client id where there is none, and `q` and Esc end the client.
pub proof fn law_errors_can_be_left(app: AppView, key: Key, after: AppView)
    requires
        after == app.error_keyed(key),
    ensures
        key == Key::Char('l') && app.config.client_id is Some ==> {
            &&& after.requests == app.requests + seq![
                Request::DeleteToken,
                Request::RequestDeviceCode,
            ]
            &&& after.phase is RequestingDeviceCode
        },
        key == Key::Char('l') && app.config.client_id is None ==> after == (AppView {
            phase: PhaseView::NeedClientId,
            ..app
        }),
        key == Key::Char('q') || key == Key::Esc ==> after == (AppView {
            should_quit: true,
            ..app
        }),
        key != Key::Char('q') && key != Key::Char('l') && key != Key::Esc ==> after == app,
{
    if key == Key::Char('l') && app.config.client_id is Some {
        assert(after.requests =~= app.requests + seq![
            Request::DeleteToken,
            Request::RequestDeviceCode,
        ]);
    }
}

/// A key goes to the search prompt while that is open, else to the screen that is shown. While
/// something is being waited for, `q` ends the client and no other key does anything.
pub proof fn law_keys_go_to_what_is_shown(app: AppView, key: Key, seen: Observed, after: AppView)
    requires
        app.keyed(KeyPress { key, control: false }, seen, after),
    ensures
        app.search_mode ==> app.search_keyed(key, after),
        !app.search_mode && app.phase is NeedClientId ==> after == app.client_id_keyed(key),
        !app.search_mode && app.phase is Error ==> after == app.error_keyed(key),
        !app.search_mode && (app.phase is RequestingDeviceCode || app.phase is Authorizing
            || app.phase is LoadingLibrary || app.phase is LoggingOut) ==> after == (AppView {
            should_quit: app.should_quit || key == Key::Char('q'),
            ..app
        }),
{
}

/// The client starts with the library where a token is stored, with the authorization where none
/// is, with the question for the client id where that is missing, and with the error where the
/// store cannot be read.
pub proof fn law_the_client_starts_where_it_can(app: AppView, error: &str, lookup: TokenLookup<'_>)
    ensures
        app.config.client_id is None ==> app.bootstrapped(lookup).phase is NeedClientId
            && app.bootstrapped(lookup).engine.status == "Enter your iBroadcast OAuth client_id"@
            && app.bootstrapped(lookup).requests == app.requests,
        app.config.client_id is Some ==> {
            let found = app.bootstrapped(TokenLookup::Found);
            let missing = app.bootstrapped(TokenLookup::Missing);
            &&& found.phase is LoadingLibrary
            &&& found.requests == app.requests.push(Request::LoadSession)
            &&& missing.phase is RequestingDeviceCode
            &&& missing.requests == app.requests.push(Request::RequestDeviceCode)
            &&& app.bootstrapped(TokenLookup::Failed(error)).phase == PhaseView::Error(error@)
        },
{
}

/// Authorization goes from the device code, which is shown and polled for, over the token, which
/// is saved, to the library. What goes wrong on the way is shown.
pub proof fn law_authorization_goes_step_by_step(
    app: AppView,
    code: DeviceCode,
    reason: String,
    error: Seq<char>,
)
    requires
        app.config.client_id is Some,
    ensures
        app.device_code_received(Ok(code)).phase == PhaseView::Authorizing(code@),
        app.device_code_received(Ok(code)).requests == app.requests.push(Request::PollToken),
        app.device_code_received(Ok(code)).engine.status == "Waiting for browser authorization..."@,
        app.device_code_received(Err(reason)) == (AppView {
            phase: PhaseView::Error(reason@),
            ..app
        }),
        app.token_received(None) == (AppView {
            requests: app.requests.push(Request::SaveToken),
            ..app
        }),
        app.token_received(Some(error)) == (AppView { phase: PhaseView::Error(error), ..app }),
        app.token_saved(None).phase is LoadingLibrary,
        app.token_saved(None).requests == app.requests.push(Request::LoadSession),
        app.token_saved(None).engine.status == "Loading iBroadcast library..."@,
        app.token_saved(Some(error)) == (AppView { phase: PhaseView::Error(error), ..app }),
{
}

/// A session starts with its library listed from the top, with nothing played, and with the disk
/// looked at; its size is told.
pub proof fn law_sessions_start_afresh(
    app: AppView,
    library: LibraryView,
    server_bitrate: Option<Bitrate>,
    ids: Seq<u64>,
)
    ensures
        ({
            let after = app.entered(library, server_bitrate, ids);
            &&& after.phase is Ready
            &&& after.session is Some
            &&& after.session->0.library == library
            &&& after.session->0.server_bitrate == server_bitrate
            &&& after.listed() == ids
            &&& after.selected == 0
            &&& after.queue_selected == 0
            &&& after.active_view == ui::View::Library
            &&& after.search_input.len() == 0
            &&& after.engine.desired == DesiredPlayback::Stopped
            &&& after.downloads.tasks.len() == 0
            &&& after.downloads.local.is_empty()
            &&& after.downloads.next_id == app.downloads.next_id
            &&& after.requests == app.requests.push(Request::ScanLocalFiles)
            &&& after.engine.status == "Loaded "@ + decimal(library.tracks.dom().len())
                + " tracks"@
            &&& after.config == app.config
            &&& app.config.playback_bitrate is None && server_bitrate is Some
                ==> after.playback_bitrate() == server_bitrate->0
        }),
{
}

/// Logging out ends playback and forgets everything of the session at once, and has the token
/// revoked; once it was, the client id stands ready to log in again, and a failure to revoke is told.
pub proof fn law_users_log_out(
    app: AppView,
    after: AppView,
    client_id: Seq<char>,
    error: Seq<char>,
)
    requires
        after == app.logout(),
        app.config.client_id is Some,
    ensures
        ({
            let done = after.logged_out(client_id, None);
            let unrevoked = after.logged_out(client_id, Some(error));
            &&& after.session is None
            &&& after.queue.tracks.len() == 0
            &&& after.queue.current is None
            &&& after.downloads.tasks.len() == 0
            &&& after.downloads.local.is_empty()
            &&& after.selected == 0
            &&& after.queue_selected == 0
            &&& after.engine.desired == DesiredPlayback::Stopped
            &&& after.phase is LoggingOut
            &&& after.engine.status == "Logged out locally; revoking token..."@
            &&& after.requests == app.requests.push(Request::Logout)
            &&& done.phase is NeedClientId
            &&& done.client_id_input == client_id
            &&& done.config.client_id == Some(client_id)
            &&& done.engine.status == "Logged out. Press Enter to authorize again."@
            &&& unrevoked.phase is NeedClientId
            &&& unrevoked.client_id_input == client_id
            &&& unrevoked.engine.status == "Logged out locally. Token revoke failed: "@ + error
                + ". Press Enter to authorize again."@
        }),
{
}

/// A local file that turns out to be missing is not known as local any more, and its track is
/// streamed instead.
pub proof fn law_missing_files_are_streamed(app: AppView, track_id: u64, other: u64)
    requires
        other != track_id,
    ensures
        ({
            let after = app.local_missing(track_id);
            &&& !after.downloads.local.contains(track_id)
            &&& after.downloads.local.contains(other) == app.downloads.local.contains(other)
            &&& after.engine.phase == PlaybackPhase::Loading
            &&& after.engine.desired == app.engine.desired
            &&& after.engine.effects == app.engine.effects.push(
                Effect::ResolveStream {
                    generation: app.engine.generation,
                    track_id,
                    bitrate: app.playback_bitrate(),
                },
            )
        }),
{
}

/// What is shown of playback: nothing wanted is stopped, a track that is active plays or is
/// paused, one that is frozen is paused, and the others are being loaded or wait for the output.
pub proof fn law_playback_is_shown_as_it_is(app: AppView, track_id: u64, paused: bool)
    requires
        app.engine.desired == (DesiredPlayback::Track { track_id, paused }),
    ensures
        app.engine.phase == PlaybackPhase::Active && paused ==> app.playback_state()
            == ui::PlaybackState::Paused,
        app.engine.phase == PlaybackPhase::Active && !paused ==> app.playback_state()
            == ui::PlaybackState::Playing,
        app.engine.phase == PlaybackPhase::Loading ==> app.playback_state()
            == ui::PlaybackState::Loading,
        app.engine.phase == PlaybackPhase::WaitingForAudio && app.engine.checkpoint is Some
            ==> app.playback_state() == ui::PlaybackState::Paused,
        app.engine.phase == PlaybackPhase::WaitingForAudio && app.engine.checkpoint is None
            ==> app.playback_state() == ui::PlaybackState::WaitingForAudio,
        app.stop().playback_state() == ui::PlaybackState::Stopped,
{
}

/// How far a track is played: where the output is, or where it was frozen, but never beyond the
/// length of the track, which is told in seconds.
pub proof fn law_elapsed_time_is_shown(
    app: AppView,
    track_id: u64,
    seconds: i64,
    position: u128,
)
    requires
        seconds > 0,
    ensures
        ({
            let length = track_nanos(seconds);
            &&& length == seconds * 1_000_000_000
            &&& app.engine.phase == PlaybackPhase::Active && app.engine.audio is Ready && position
                <= length ==> app.elapsed(track_id, length, Some(position)) == position
            &&& app.engine.phase == PlaybackPhase::Active && app.engine.audio is Ready && position
                > length ==> app.elapsed(track_id, length, Some(position)) == length
            &&& app.engine.phase == PlaybackPhase::Active && app.engine.audio is Ready
                ==> app.elapsed(track_id, 0, Some(position)) == position
            &&& app.engine.phase == PlaybackPhase::WaitingForAudio ==> {
                app.engine.checkpoint matches Some(point) ==> point.generation
                    == app.engine.generation && point.track_id == track_id && point.position
                    <= length ==> app.elapsed(track_id, length, Some(position)) == point.position
            }
            &&& app.engine.phase == PlaybackPhase::Loading || app.engine.phase
                == PlaybackPhase::Idle ==> app.elapsed(track_id, length, Some(position)) == 0
            &&& track_nanos(0) == 0
            &&& track_nanos((-seconds) as i64) == 0
        }),
{
    assert(seconds * 1_000_000_000 <= u128::MAX);
}

/// Before the client ends, playback is ended and the output is given up.
pub proof fn law_the_end_is_silent(app: AppView, now: u64)
    ensures
        app.shut_down(now).engine.desired == DesiredPlayback::Stopped,
        app.shut_down(now).engine.stream is None,
        app.shut_down(now).engine.audio is Unavailable,
        app.engine.audio is Ready ==> app.shut_down(now).engine.effects.last()
            == Effect::StopOutput,
        app.shut_down(now).queue == app.queue,
{
}

} // verus!
