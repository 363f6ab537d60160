//! What the operations on the playback queue do to its tracks and to what is playing.

use vstd::prelude::*;

use crate::queue::{with_track, with_tracks, PlaybackMode, QueueView};

verus! {

/// Removing an entry takes that one track away and leaves the order of the others. Where it was the
/// current one, the track behind it becomes current; where it was also the last one, the track
/// before it; and where it was the only one, none.
pub proof fn law_removal_moves_on_to_the_next_track(queue: QueueView, i: int)
    requires
        queue.wf(),
        0 <= i < queue.tracks.len(),
    ensures
        ({
            let after = queue.removed(i);
            let n = queue.tracks.len() as int;
            &&& after.tracks.len() == n - 1
            &&& forall|k: int| 0 <= k < i ==> #[trigger] after.tracks[k] == queue.tracks[k]
            &&& forall|k: int| i <= k < n - 1 ==> #[trigger] after.tracks[k] == queue.tracks[k + 1]
            &&& !after.tracks.contains(queue.tracks[i])
            &&& after.mode == queue.mode
            &&& queue.current == Some(i) && i + 1 < n ==> after.current_track() == Some(
                queue.tracks[i + 1],
            )
            &&& queue.current == Some(i) && i + 1 == n && n > 1 ==> after.current_track() == Some(
                queue.tracks[i - 1],
            )
            &&& queue.current == Some(i) && n == 1 ==> after.current_track() is None
            &&& queue.current != Some(i) ==> after.current_track() == queue.current_track()
        }),
{
    let after = queue.removed(i);
    if after.tracks.contains(queue.tracks[i]) {
        let k = choose|k: int| 0 <= k < after.tracks.len() && after.tracks[k] == queue.tracks[i];
        if k < i {
            assert(after.tracks[k] == queue.tracks[k]);
        } else {
            assert(after.tracks[k] == queue.tracks[k + 1]);
        }
    }
}

/// A track that is added stands behind all others, and one that is queued already changes nothing.
/// What is playing goes on, and where nothing was queued the added track is current.
pub proof fn law_added_tracks_go_to_the_end(queue: QueueView, track_id: u64)
    requires
        queue.wf(),
    ensures
        ({
            let after = queue.extended(with_track(queue.tracks, track_id));
            &&& queue.tracks.contains(track_id) ==> after == queue
            &&& !queue.tracks.contains(track_id) ==> after.tracks == queue.tracks.push(track_id)
            &&& queue.tracks.len() > 0 ==> after.current == queue.current
            &&& queue.tracks.len() > 0 ==> after.current_track() == queue.current_track()
            &&& queue.tracks.len() == 0 ==> after.current_track() == Some(track_id)
            &&& after.mode == queue.mode
        }),
{
    assert(queue.tracks.push(track_id).len() != queue.tracks.len());
}

/// Adding many tracks is adding them one after the other; into an empty queue the first of them is
/// current.
pub proof fn law_adding_many_is_adding_each(queue: QueueView, ids: Seq<u64>, id: u64)
    requires
        queue.wf(),
    ensures
        with_tracks(queue.tracks, Seq::empty()) == queue.tracks,
        with_tracks(queue.tracks, ids.push(id)) == with_track(
            with_tracks(queue.tracks, ids),
            id,
        ),
        queue.tracks.len() == 0 && ids.len() > 0 ==> queue.extended(
            with_tracks(queue.tracks, ids),
        ).current_track() == Some(ids[0]),
    decreases ids.len(),
{
    assert(ids.push(id).drop_last() =~= ids);
    if queue.tracks.len() == 0 && ids.len() > 0 {
        lemma_first_added(queue.tracks, ids);
    }
}

proof fn lemma_first_added(tracks: Seq<u64>, ids: Seq<u64>)
    requires
        tracks.len() == 0,
        ids.len() > 0,
    ensures
        with_tracks(tracks, ids).len() > 0,
        with_tracks(tracks, ids)[0] == ids[0],
    decreases ids.len(),
{
    if ids.len() > 1 {
        lemma_first_added(tracks, ids.drop_last());
    } else {
        assert(ids.drop_last().len() == 0);
        assert(with_tracks(tracks, ids.drop_last()) == tracks);
    }
}

/// Playing an entry makes its track current and leaves order and mode as they are.
pub proof fn law_played_entries_are_current(queue: QueueView, i: int)
    requires
        queue.wf(),
        0 <= i < queue.tracks.len(),
    ensures
        ({
            let after = queue.at(i).reset();
            &&& after.current_track() == Some(queue.tracks[i])
            &&& after.tracks == queue.tracks
            &&& after.mode == queue.mode
            &&& after.remaining.len() == 0
            &&& after.history.len() == 0
        }),
{
}

/// A step forward leads to the track that follows in the queue. Behind the last one, a queue that
/// repeats everything begins again and any other stays where it is. A queue that repeats one track
/// stays at it.
pub proof fn law_next_is_the_following_track(queue: QueueView, after: QueueView, i: int)
    requires
        queue.wf(),
        queue.current == Some(i),
        queue.next_step(after),
    ensures
        ({
            let n = queue.tracks.len() as int;
            let ordered = queue.mode == PlaybackMode::Sequential || queue.mode
                == PlaybackMode::RepeatAll;
            &&& ordered && i + 1 < n ==> after.current_track() == Some(queue.tracks[i + 1])
            &&& queue.mode == PlaybackMode::RepeatAll && i + 1 == n ==> after.current_track()
                == Some(queue.tracks[0])
            &&& queue.mode == PlaybackMode::Sequential && i + 1 == n ==> after == queue
            &&& queue.mode == PlaybackMode::RepeatOne ==> after == queue
            &&& queue.following(false) is None <==> i + 1 == n
            &&& after.mode == queue.mode
            &&& after.tracks == queue.tracks
        }),
{
}

/// A step back leads to the track before; before the first one, a queue that repeats everything
/// goes to the last and any other stays. Shuffle goes back to where it came from.
pub proof fn law_previous_is_the_track_before(queue: QueueView, i: int)
    requires
        queue.wf(),
        queue.current == Some(i),
    ensures
        ({
            let after = queue.previous_step();
            let n = queue.tracks.len() as int;
            let ordered = queue.mode == PlaybackMode::Sequential || queue.mode
                == PlaybackMode::RepeatAll;
            &&& ordered && i > 0 ==> after.current_track() == Some(queue.tracks[i - 1])
            &&& queue.mode == PlaybackMode::RepeatAll && i == 0 ==> after.current_track() == Some(
                queue.tracks[n - 1],
            )
            &&& queue.mode == PlaybackMode::Sequential && i == 0 ==> after == queue
            &&& queue.mode == PlaybackMode::RepeatOne ==> after == queue
            &&& queue.mode == PlaybackMode::Shuffle && queue.history.len() > 0
                ==> after.current_track() == Some(queue.tracks[queue.history.last() as int])
            &&& queue.mode == PlaybackMode::Shuffle && queue.history.len() == 0 ==> after == queue
            &&& after.mode == queue.mode
            &&& after.tracks == queue.tracks
        }),
{
}

/// Moving an entry exchanges it with its neighbour and touches no other.
pub proof fn law_moves_exchange_two_entries(queue: QueueView, i: int, j: int, k: int)
    requires
        queue.wf(),
        0 <= i < queue.tracks.len(),
        0 <= j < queue.tracks.len(),
        0 <= k < queue.tracks.len(),
    ensures
        ({
            let after = queue.swapped(i, j);
            &&& after.tracks.len() == queue.tracks.len()
            &&& after.tracks[i] == queue.tracks[j]
            &&& after.tracks[j] == queue.tracks[i]
            &&& k != i && k != j ==> after.tracks[k] == queue.tracks[k]
            &&& after.mode == queue.mode
            &&& after.current_track() == queue.current_track()
        }),
{
}

/// Clearing leaves nothing but the mode; changing the mode leaves everything else, and forgets what
/// shuffle has visited.
pub proof fn law_clearing_and_modes(queue: QueueView, mode: PlaybackMode)
    ensures
        queue.cleared().tracks.len() == 0,
        queue.cleared().current_track() is None,
        queue.cleared().mode == queue.mode,
        queue.with_mode(mode).mode == mode,
        queue.with_mode(mode).tracks == queue.tracks,
        queue.with_mode(mode).current == queue.current,
        queue.with_mode(mode).remaining.len() == 0,
        queue.with_mode(mode).history.len() == 0,
{
}

/// A step of shuffle leads to another track of the queue while there is one, and remembers where it
/// came from.
pub proof fn law_shuffle_goes_elsewhere(queue: QueueView, after: QueueView)
    requires
        queue.wf(),
        queue.mode == PlaybackMode::Shuffle,
        1 < queue.tracks.len() <= usize::MAX,
        queue.next_step(after),
        !queue.remaining.contains(queue.current->0 as usize),
    ensures
        after.current is Some,
        0 <= after.current->0 < queue.tracks.len(),
        after.current != queue.current,
        after.history == queue.history.push(queue.current->0 as usize),
        !after.remaining.contains(after.current->0 as usize),
{
    let slot = choose|slot: int|
        0 <= slot < queue.pool().len() && after == #[trigger] queue.shuffled(slot);
    let pool = queue.pool();
    crate::queue::lemma_others(queue.tracks.len(), queue.current);
    assert(pool.contains(pool[slot]));
    assert(pool.no_duplicates());
    let left = after.remaining;
    let picked = pool[slot];
    assert(after.current->0 as usize == picked);
    if left.contains(picked) {
        let k = choose|k: int| 0 <= k < left.len() && left[k] == picked;
        if k == slot {
            assert(left[k] == pool[pool.len() - 1]);
        } else {
            assert(left[k] == pool[k]);
        }
    }
}

} // verus!
