//! The playback queue: which tracks are queued, which one is current, and what follows it.

use vstd::prelude::*;

verus! {

broadcast use vstd::seq_lib::group_seq_properties;

/// The order in which queued tracks follow one another.
#[derive(Clone, Copy, Debug, PartialEq, Eq, Structural)]
pub enum PlaybackMode {
    Sequential,
    RepeatOne,
    RepeatAll,
    Shuffle,
}

impl Default for PlaybackMode {
    fn default() -> (res: PlaybackMode)
        ensures
            res == PlaybackMode::Sequential,
    {
        PlaybackMode::Sequential
    }
}

impl PlaybackMode {
    pub open spec fn spec_next(self) -> PlaybackMode {
        match self {
            PlaybackMode::Sequential => PlaybackMode::RepeatOne,
            PlaybackMode::RepeatOne => PlaybackMode::RepeatAll,
            PlaybackMode::RepeatAll => PlaybackMode::Shuffle,
            PlaybackMode::Shuffle => PlaybackMode::Sequential,
        }
    }

    /// The mode that follows in display order.
    pub fn next(self) -> (res: PlaybackMode)
        ensures
            res == self.spec_next(),
    {
        match self {
            PlaybackMode::Sequential => PlaybackMode::RepeatOne,
            PlaybackMode::RepeatOne => PlaybackMode::RepeatAll,
            PlaybackMode::RepeatAll => PlaybackMode::Shuffle,
            PlaybackMode::Shuffle => PlaybackMode::Sequential,
        }
    }

    pub open spec fn spec_label(self) -> Seq<char> {
        match self {
            PlaybackMode::Sequential => "Sequential"@,
            PlaybackMode::RepeatOne => "Repeat one"@,
            PlaybackMode::RepeatAll => "Repeat all"@,
            PlaybackMode::Shuffle => "Shuffle"@,
        }
    }

    /// The name shown to the user.
    pub fn label(self) -> (res: &'static str)
        ensures
            res@ == self.spec_label(),
    {
        match self {
            PlaybackMode::Sequential => "Sequential",
            PlaybackMode::RepeatOne => "Repeat one",
            PlaybackMode::RepeatAll => "Repeat all",
            PlaybackMode::Shuffle => "Shuffle",
        }
    }
}

/// What a playback queue holds.
pub struct QueueView {
    pub tracks: Seq<u64>,
    /// Index of the current track.
    pub current: Option<int>,
    pub mode: PlaybackMode,
    /// Indices that shuffle has still to visit before it starts over.
    pub remaining: Seq<usize>,
    /// Indices that shuffle came from, the latest last.
    pub history: Seq<usize>,
}

/// The indices below `n` other than `current`, in order.
pub open spec fn others(n: nat, current: Option<int>) -> Seq<usize>
    decreases n,
{
    if n == 0 {
        Seq::empty()
    } else if current == Some(n - 1) {
        others((n - 1) as nat, current)
    } else {
        others((n - 1) as nat, current).push((n - 1) as usize)
    }
}

/// `tracks` with `track_id` at the end unless it is queued already.
pub open spec fn with_track(tracks: Seq<u64>, track_id: u64) -> Seq<u64> {
    if tracks.contains(track_id) {
        tracks
    } else {
        tracks.push(track_id)
    }
}

/// `tracks` after every one of `ids` has been added in order.
pub open spec fn with_tracks(tracks: Seq<u64>, ids: Seq<u64>) -> Seq<u64>
    decreases ids.len(),
{
    if ids.len() == 0 {
        tracks
    } else {
        with_track(with_tracks(tracks, ids.drop_last()), ids.last())
    }
}

impl QueueView {
    /// A track is queued at most once, and there is a current track exactly when the queue holds
    /// one. The bookkeeping of shuffle speaks of queued tracks only and is empty in other modes.
    pub open spec fn wf(self) -> bool {
        &&& self.tracks.no_duplicates()
        &&& match self.current {
            Some(index) => 0 <= index < self.tracks.len(),
            None => self.tracks.len() == 0,
        }
        &&& self.remaining.no_duplicates()
        &&& forall|i: int|
            0 <= i < self.remaining.len() ==> (#[trigger] self.remaining[i]) < self.tracks.len()
        &&& forall|i: int|
            0 <= i < self.history.len() ==> (#[trigger] self.history[i]) < self.tracks.len()
        &&& self.mode != PlaybackMode::Shuffle ==> self.remaining.len() == 0 && self.history.len()
            == 0
    }

    /// The queue without a track.
    pub open spec fn empty(mode: PlaybackMode) -> QueueView {
        QueueView {
            tracks: Seq::empty(),
            current: None,
            mode,
            remaining: Seq::empty(),
            history: Seq::empty(),
        }
    }

    pub open spec fn current_track(self) -> Option<u64> {
        match self.current {
            Some(index) => Some(self.tracks[index]),
            None => None,
        }
    }

    /// The same queue with the bookkeeping of shuffle forgotten.
    pub open spec fn reset(self) -> QueueView {
        QueueView { remaining: Seq::empty(), history: Seq::empty(), ..self }
    }

    pub open spec fn with_mode(self, mode: PlaybackMode) -> QueueView {
        QueueView { mode, ..self.reset() }
    }

    /// The empty queue of the same mode.
    pub open spec fn cleared(self) -> QueueView {
        QueueView { tracks: Seq::empty(), current: None, ..self.reset() }
    }

    pub open spec fn at(self, index: int) -> QueueView {
        QueueView { current: Some(index), ..self }
    }

    /// The queue after the tracks became `tracks` by additions at the end.
    pub open spec fn extended(self, tracks: Seq<u64>) -> QueueView {
        if tracks == self.tracks {
            self
        } else {
            QueueView {
                tracks,
                current: if self.current is None {
                    Some(0int)
                } else {
                    self.current
                },
                ..self.reset()
            }
        }
    }

    /// Where the current position lies once the entry at `index` is gone: it follows its track,
    /// and if that track itself went, it stays in place or moves to the new last entry.
    pub open spec fn current_after_removal(self, index: int) -> Option<int> {
        match self.current {
            None => None,
            Some(current) => if self.tracks.len() == 1 {
                None
            } else if index < current {
                Some(current - 1)
            } else if index == current && index == self.tracks.len() - 1 {
                Some(index - 1)
            } else {
                Some(current)
            },
        }
    }

    pub open spec fn removed(self, index: int) -> QueueView {
        QueueView {
            tracks: self.tracks.remove(index),
            current: self.current_after_removal(index),
            ..self.reset()
        }
    }

    /// The entries at `i` and `j` exchanged; the current position follows its track.
    pub open spec fn swapped(self, i: int, j: int) -> QueueView {
        QueueView {
            tracks: self.tracks.update(i, self.tracks[j]).update(j, self.tracks[i]),
            current: if self.current == Some(i) {
                Some(j)
            } else if self.current == Some(j) {
                Some(i)
            } else {
                self.current
            },
            ..self.reset()
        }
    }

    /// The index that follows in queue order, if there is one.
    pub open spec fn following(self, wrap: bool) -> Option<int> {
        let next = match self.current {
            Some(index) => index + 1,
            None => 0,
        };
        if next < self.tracks.len() {
            Some(next)
        } else if wrap && self.tracks.len() > 0 {
            Some(0int)
        } else {
            None
        }
    }

    pub open spec fn advanced(self, wrap: bool) -> QueueView {
        match self.following(wrap) {
            Some(index) => self.at(index),
            None => self,
        }
    }

    /// The queue after a step back in queue order; the first entry is followed by the last one
    /// where `wrap` holds and by itself otherwise.
    pub open spec fn retreated(self, wrap: bool) -> QueueView {
        match self.current {
            None => self,
            Some(index) => if index > 0 {
                self.at(index - 1)
            } else if wrap {
                self.at(self.tracks.len() - 1)
            } else {
                self
            },
        }
    }

    /// The indices among which shuffle picks the next one: those still to visit, or every other
    /// index once all have been visited.
    pub open spec fn pool(self) -> Seq<usize> {
        if self.remaining.len() == 0 {
            others(self.tracks.len(), self.current)
        } else {
            self.remaining
        }
    }

    /// The queue after shuffle picked the entry `slot` of [`Self::pool`]. The last entry of the
    /// pool takes the place of the one picked.
    pub open spec fn shuffled(self, slot: int) -> QueueView {
        let pool = self.pool();
        QueueView {
            current: Some(pool[slot] as int),
            remaining: pool.update(slot, pool.last()).drop_last(),
            history: self.history.push(self.current->0 as usize),
            ..self
        }
    }

    /// The queue after shuffle went back to the index that it came from last.
    pub open spec fn unshuffled(self) -> QueueView {
        if self.history.len() == 0 {
            self
        } else {
            let current = self.current->0 as usize;
            QueueView {
                current: Some(self.history.last() as int),
                remaining: if self.remaining.contains(current) {
                    self.remaining
                } else {
                    self.remaining.push(current)
                },
                history: self.history.drop_last(),
                ..self
            }
        }
    }

    /// `after` is a queue that a step forward can lead to.
    pub open spec fn next_step(self, after: QueueView) -> bool {
        match self.mode {
            PlaybackMode::Sequential => after == self.advanced(false),
            PlaybackMode::RepeatOne => after == self,
            PlaybackMode::RepeatAll => after == self.advanced(true),
            PlaybackMode::Shuffle => if self.tracks.len() <= 1 {
                after == self
            } else {
                exists|slot: int|
                    0 <= slot < self.pool().len() && after == #[trigger] self.shuffled(slot)
            },
        }
    }

    /// The queue after a step back.
    pub open spec fn previous_step(self) -> QueueView {
        match self.mode {
            PlaybackMode::Sequential => self.retreated(false),
            PlaybackMode::RepeatOne => self,
            PlaybackMode::RepeatAll => self.retreated(true),
            PlaybackMode::Shuffle => self.unshuffled(),
        }
    }
}

/// The playback queue. A track appears at most once: re-adding an already queued track is a no-op
/// that yields the existing entry's position.
#[derive(Clone, Debug)]
pub struct PlaybackQueue {
    tracks: Vec<u64>,
    current: Option<usize>,
    mode: PlaybackMode,
    shuffle_remaining: Vec<usize>,
    shuffle_history: Vec<usize>,
}

impl View for PlaybackQueue {
    type V = QueueView;

    closed spec fn view(&self) -> QueueView {
        QueueView {
            tracks: self.tracks@,
            current: match self.current {
                Some(index) => Some(index as int),
                None => None,
            },
            mode: self.mode,
            remaining: self.shuffle_remaining@,
            history: self.shuffle_history@,
        }
    }
}

/// `rand::rng().random_range(0..len)`: some index below `len`; which one is left to chance.
#[verifier::external_body]
fn random_index(len: usize) -> (res: usize)
    requires
        len > 0,
    ensures
        res < len,
{
    rand::Rng::random_range(&mut rand::rng(), 0..len)
}

pub(crate) proof fn lemma_others(n: nat, current: Option<int>)
    requires
        n <= usize::MAX,
    ensures
        others(n, current).no_duplicates(),
        forall|i: int|
            0 <= i < others(n, current).len() ==> (#[trigger] others(n, current)[i]) < n && current
                != Some(others(n, current)[i] as int),
        forall|k: usize|
            k < n && current != Some(k as int) ==> #[trigger] others(n, current).contains(k),
        others(n, current).len() + 1 >= n,
        current is Some && 0 <= current->0 < n ==> others(n, current).len() + 1 == n,
        current is Some && !(0 <= current->0 < n) ==> others(n, current).len() == n,
    decreases n,
{
    if n > 0 {
        let m = (n - 1) as nat;
        lemma_others(m, current);
        let before = others(m, current);
        if current != Some(n - 1) {
            let after = before.push(m as usize);
            assert(others(n, current) == after);
            assert forall|k: usize| k < n && current != Some(k as int) implies after.contains(k) by {
                if k < m {
                    assert(before.contains(k));
                    let i = choose|i: int| 0 <= i < before.len() && before[i] == k;
                    assert(after[i] == k);
                } else {
                    assert(after[before.len() as int] == k);
                }
            }
        }
    }
}

proof fn lemma_swap_removed(s: Seq<usize>, slot: int)
    requires
        0 <= slot < s.len(),
        s.no_duplicates(),
    ensures
        s.update(slot, s.last()).drop_last().no_duplicates(),
        forall|k: usize|
            #[trigger] s.update(slot, s.last()).drop_last().contains(k) <==> s.contains(k) && k
                != s[slot],
{
    let t = s.update(slot, s.last()).drop_last();
    assert forall|k: usize| #[trigger] t.contains(k) <==> s.contains(k) && k != s[slot] by {
        if t.contains(k) {
            let i = choose|i: int| 0 <= i < t.len() && t[i] == k;
            if i == slot {
                assert(s[s.len() - 1] == k);
            } else {
                assert(s[i] == k);
            }
        }
        if s.contains(k) && k != s[slot] {
            let i = choose|i: int| 0 <= i < s.len() && s[i] == k;
            if i == s.len() - 1 {
                assert(t[slot] == k);
            } else {
                assert(t[i] == k);
            }
        }
    }
}

impl QueueView {
    proof fn lemma_shuffled_wf(self, slot: int)
        requires
            self.wf(),
            self.mode == PlaybackMode::Shuffle,
            self.tracks.len() > 1,
            self.tracks.len() <= usize::MAX,
            0 <= slot < self.pool().len(),
        ensures
            self.shuffled(slot).wf(),
    {
        lemma_others(self.tracks.len(), self.current);
        lemma_swap_removed(self.pool(), slot);
        let after = self.shuffled(slot);
        assert forall|i: int| 0 <= i < after.remaining.len() implies (#[trigger] after.remaining[i])
            < after.tracks.len() by {
            assert(after.remaining.contains(after.remaining[i]));
            assert(self.pool().contains(after.remaining[i]));
        }
    }

    proof fn lemma_unshuffled_wf(self)
        requires
            self.wf(),
            self.mode == PlaybackMode::Shuffle,
            self.tracks.len() <= usize::MAX,
        ensures
            self.unshuffled().wf(),
    {
    }
}

impl Default for PlaybackQueue {
    fn default() -> (res: PlaybackQueue)
        ensures
            res@.wf(),
            res@ == QueueView::empty(PlaybackMode::Sequential),
    {
        PlaybackQueue {
            tracks: Vec::new(),
            current: None,
            mode: PlaybackMode::Sequential,
            shuffle_remaining: Vec::new(),
            shuffle_history: Vec::new(),
        }
    }
}

impl PlaybackQueue {
    pub fn tracks(&self) -> (res: &[u64])
        ensures
            res@ == self@.tracks,
    {
        self.tracks.as_slice()
    }

    pub fn playback_mode(&self) -> (res: PlaybackMode)
        ensures
            res == self@.mode,
    {
        self.mode
    }

    pub fn cycle_playback_mode(&mut self) -> (res: PlaybackMode)
        requires
            old(self)@.wf(),
        ensures
            final(self)@.wf(),
            res == old(self)@.mode.spec_next(),
            final(self)@ == old(self)@.with_mode(res),
    {
        self.set_playback_mode(self.mode.next());
        self.mode
    }

    pub fn set_playback_mode(&mut self, mode: PlaybackMode)
        requires
            old(self)@.wf(),
        ensures
            final(self)@.wf(),
            final(self)@ == old(self)@.with_mode(mode),
    {
        self.mode = mode;
        self.reset_shuffle();
    }

    pub fn current_index(&self) -> (res: Option<usize>)
        ensures
            match res {
                Some(index) => self@.current == Some(index as int),
                None => self@.current is None,
            },
    {
        self.current
    }

    /// Makes the entry at `index` the current one.
    pub fn play_index(&mut self, index: usize) -> (res: Option<u64>)
        requires
            old(self)@.wf(),
        ensures
            final(self)@.wf(),
            index >= old(self)@.tracks.len() ==> res is None && final(self)@ == old(self)@,
            index < old(self)@.tracks.len() ==> res == Some(old(self)@.tracks[index as int])
                && final(self)@ == old(self)@.at(index as int).reset(),
    {
        if index >= self.tracks.len() {
            return None;
        }
        self.current = Some(index);
        self.reset_shuffle();
        self.current_track()
    }

    /// The index of a queued track.
    fn position(&self, track_id: u64) -> (res: Option<usize>)
        ensures
            match res {
                Some(index) => index < self@.tracks.len() && self@.tracks[index as int] == track_id,
                None => !self@.tracks.contains(track_id),
            },
    {
        let mut i: usize = 0;
        while i < self.tracks.len()
            invariant
                i <= self.tracks@.len(),
                forall|j: int| 0 <= j < i ==> self.tracks@[j] != track_id,
            decreases self.tracks@.len() - i,
        {
            if self.tracks[i] == track_id {
                return Some(i);
            }
            i = i + 1;
        }
        None
    }

    /// Adds a track to the queue, or finds its existing entry. Returns the track's index and
    /// whether it was newly added.
    pub fn enqueue(&mut self, track_id: u64) -> (res: (usize, bool))
        requires
            old(self)@.wf(),
        ensures
            final(self)@.wf(),
            res.1 == !old(self)@.tracks.contains(track_id),
            final(self)@ == old(self)@.extended(with_track(old(self)@.tracks, track_id)),
            res.0 < final(self)@.tracks.len(),
            final(self)@.tracks[res.0 as int] == track_id,
    {
        if let Some(index) = self.position(track_id) {
            return (index, false);
        }
        let ghost before = self@.tracks;
        self.tracks.push(track_id);
        if self.current.is_none() {
            self.current = Some(0);
        }
        self.reset_shuffle();
        proof {
            assert(self@.tracks == before.push(track_id));
            assert(self@.tracks.len() != before.len());
            assert forall|i: int, j: int|
                0 <= i < self@.tracks.len() && 0 <= j < self@.tracks.len() && i
                    != j implies self@.tracks[i] != self@.tracks[j] by {
                if i < before.len() {
                    assert(before.contains(before[i]));
                }
                if j < before.len() {
                    assert(before.contains(before[j]));
                }
            }
        }
        (self.tracks.len() - 1, true)
    }

    /// Adds every track that is not already queued; returns how many were newly added.
    pub fn enqueue_many(&mut self, track_ids: &[u64]) -> (res: usize)
        requires
            old(self)@.wf(),
        ensures
            final(self)@.wf(),
            final(self)@ == old(self)@.extended(with_tracks(old(self)@.tracks, track_ids@)),
            res == final(self)@.tracks.len() - old(self)@.tracks.len(),
    {
        let mut added: usize = 0;
        let mut i: usize = 0;
        let ghost before = self@;
        assert(track_ids@.take(0) =~= Seq::<u64>::empty());
        while i < track_ids.len()
            invariant
                i <= track_ids@.len(),
                self@.wf(),
                self@ == before.extended(with_tracks(before.tracks, track_ids@.take(i as int))),
                before.wf(),
                added == self@.tracks.len() - before.tracks.len(),
                added <= i,
                self@.tracks == with_tracks(before.tracks, track_ids@.take(i as int)),
                self@.tracks.len() >= before.tracks.len(),
            decreases track_ids@.len() - i,
        {
            let ghost mid = self@;
            let (_, fresh) = self.enqueue(track_ids[i]);
            proof {
                assert(track_ids@.take(i as int + 1).drop_last() =~= track_ids@.take(i as int));
                assert(self@ == mid.extended(with_track(mid.tracks, track_ids@[i as int])));
                assert(self@.tracks == with_tracks(before.tracks, track_ids@.take(i as int + 1)));
                if fresh {
                    assert(self@.tracks.len() > before.tracks.len());
                }
            }
            if fresh {
                added = added + 1;
            }
            i = i + 1;
        }
        assert(track_ids@.take(i as int) =~= track_ids@);
        added
    }

    /// Removes the entry at `index` and returns its track.
    pub fn remove(&mut self, index: usize) -> (res: Option<u64>)
        requires
            old(self)@.wf(),
        ensures
            final(self)@.wf(),
            index >= old(self)@.tracks.len() ==> res is None && final(self)@ == old(self)@,
            index < old(self)@.tracks.len() ==> res == Some(old(self)@.tracks[index as int])
                && final(self)@ == old(self)@.removed(index as int),
    {
        if index >= self.tracks.len() {
            return None;
        }
        let removed = self.tracks.remove(index);
        self.current = match self.current {
            None => None,
            Some(current) => {
                if self.tracks.len() == 0 {
                    None
                } else if index < current {
                    Some(current - 1)
                } else if index == current {
                    if index < self.tracks.len() {
                        Some(index)
                    } else {
                        Some(self.tracks.len() - 1)
                    }
                } else {
                    Some(current)
                }
            },
        };
        self.reset_shuffle();
        Some(removed)
    }

    /// Exchanges two entries; the current position follows its track.
    fn exchange(&mut self, i: usize, j: usize)
        requires
            old(self)@.wf(),
            i < old(self)@.tracks.len(),
            j < old(self)@.tracks.len(),
            i != j,
        ensures
            final(self)@.wf(),
            final(self)@ == old(self)@.swapped(i as int, j as int),
    {
        let left = self.tracks[i];
        let right = self.tracks[j];
        self.tracks.set(i, right);
        self.tracks.set(j, left);
        self.current = match self.current {
            Some(current) => {
                if current == i {
                    Some(j)
                } else if current == j {
                    Some(i)
                } else {
                    Some(current)
                }
            },
            None => None,
        };
        self.reset_shuffle();
    }

    /// Moves an entry one place towards the front; returns its new index.
    pub fn move_up(&mut self, index: usize) -> (res: Option<usize>)
        requires
            old(self)@.wf(),
        ensures
            final(self)@.wf(),
            index == 0 || index >= old(self)@.tracks.len() ==> res is None && final(self)@
                == old(self)@,
            0 < index < old(self)@.tracks.len() ==> res == Some((index - 1) as usize) && final(self)@ == old(self)@.swapped(index as int, index - 1),
    {
        if index == 0 || index >= self.tracks.len() {
            return None;
        }
        self.exchange(index, index - 1);
        Some(index - 1)
    }

    /// Moves an entry one place towards the end; returns its new index.
    pub fn move_down(&mut self, index: usize) -> (res: Option<usize>)
        requires
            old(self)@.wf(),
        ensures
            final(self)@.wf(),
            index + 1 >= old(self)@.tracks.len() ==> res is None && final(self)@ == old(self)@,
            index + 1 < old(self)@.tracks.len() ==> res == Some((index + 1) as usize) && final(self)@ == old(self)@.swapped(index as int, index + 1),
    {
        if index >= self.tracks.len() || index + 1 >= self.tracks.len() {
            return None;
        }
        self.exchange(index, index + 1);
        Some(index + 1)
    }

    pub fn clear(&mut self)
        ensures
            final(self)@.wf(),
            final(self)@ == old(self)@.cleared(),
    {
        self.tracks.clear();
        self.current = None;
        self.reset_shuffle();
    }

    pub fn len(&self) -> (res: usize)
        ensures
            res == self@.tracks.len(),
    {
        self.tracks.len()
    }

    pub fn is_empty(&self) -> (res: bool)
        ensures
            res == (self@.tracks.len() == 0),
    {
        self.tracks.len() == 0
    }

    pub fn current_track(&self) -> (res: Option<u64>)
        requires
            self@.wf(),
        ensures
            res == self@.current_track(),
    {
        match self.current {
            Some(index) => Some(self.tracks[index]),
            None => None,
        }
    }

    /// Moves on to the next track. `None` says that the queue has come to its end.
    pub fn next(&mut self) -> (res: Option<u64>)
        requires
            old(self)@.wf(),
        ensures
            final(self)@.wf(),
            old(self)@.next_step(final(self)@),
            res == if old(self)@.mode == PlaybackMode::Sequential && old(self)@.following(
                false,
            ) is None {
                None::<u64>
            } else {
                final(self)@.current_track()
            },
    {
        match self.mode {
            PlaybackMode::Sequential => self.next_sequential(false),
            PlaybackMode::RepeatOne => self.current_track(),
            PlaybackMode::RepeatAll => self.next_sequential(true),
            PlaybackMode::Shuffle => self.next_shuffle(),
        }
    }

    /// Goes back to the previous track.
    pub fn previous(&mut self) -> (res: Option<u64>)
        requires
            old(self)@.wf(),
        ensures
            final(self)@.wf(),
            final(self)@ == old(self)@.previous_step(),
            res == final(self)@.current_track(),
    {
        match self.mode {
            PlaybackMode::Sequential | PlaybackMode::RepeatAll => {
                match self.current {
                    None => None,
                    Some(current) => {
                        if current == 0 {
                            if self.mode == PlaybackMode::RepeatAll {
                                self.current = Some(self.tracks.len() - 1);
                            }
                        } else {
                            self.current = Some(current - 1);
                        }
                        self.current_track()
                    },
                }
            },
            PlaybackMode::RepeatOne => self.current_track(),
            PlaybackMode::Shuffle => self.previous_shuffle(),
        }
    }

    fn next_sequential(&mut self, wrap: bool) -> (res: Option<u64>)
        requires
            old(self)@.wf(),
        ensures
            final(self)@ == old(self)@.advanced(wrap),
            final(self)@.wf(),
            res == if old(self)@.following(wrap) is None {
                None::<u64>
            } else {
                final(self)@.current_track()
            },
    {
        let count: usize = self.tracks.len();
        let next: usize = match self.current {
            Some(index) => index + 1,
            None => 0,
        };
        if next >= count {
            if wrap && count > 0 {
                self.current = Some(0);
                return self.current_track();
            }
            return None;
        }
        self.current = Some(next);
        self.current_track()
    }

    fn next_shuffle(&mut self) -> (res: Option<u64>)
        requires
            old(self)@.wf(),
            old(self)@.mode == PlaybackMode::Shuffle,
        ensures
            final(self)@.wf(),
            old(self)@.next_step(final(self)@),
            res == final(self)@.current_track(),
    {
        let ghost before = self@;
        let pool_len: usize = self.refill_shuffle_remaining();
        if pool_len == 0 {
            return self.current_track();
        }
        let slot: usize = random_index(pool_len);
        assert(self@.shuffled(slot as int) == before.shuffled(slot as int));
        self.take_shuffle_slot(slot)
    }

    /// Fills the list of indices that shuffle has still to visit once it has run empty. Returns
    /// its length, or zero where there is nothing to choose from.
    fn refill_shuffle_remaining(&mut self) -> (res: usize)
        requires
            old(self)@.wf(),
            old(self)@.mode == PlaybackMode::Shuffle,
        ensures
            final(self)@.wf(),
            old(self)@.tracks.len() <= 1 ==> res == 0 && final(self)@ == old(self)@,
            old(self)@.tracks.len() > 1 ==> res == old(self)@.pool().len() && res > 0 && final(self)@ == (QueueView { remaining: old(self)@.pool(), ..old(self)@ }),
    {
        if self.tracks.len() <= 1 {
            return 0;
        }
        proof {
            lemma_others(self@.tracks.len(), self@.current);
        }
        if self.shuffle_remaining.len() == 0 {
            let mut pool: Vec<usize> = Vec::new();
            let mut i: usize = 0;
            while i < self.tracks.len()
                invariant
                    i <= self.tracks@.len(),
                    pool@ == others(i as nat, self@.current),
                decreases self.tracks@.len() - i,
            {
                let is_current = match self.current {
                    Some(current) => current == i,
                    None => false,
                };
                if !is_current {
                    pool.push(i);
                }
                i = i + 1;
            }
            self.shuffle_remaining = pool;
        }
        self.shuffle_remaining.len()
    }

    /// Moves on to the entry `slot` of the indices still to visit.
    fn take_shuffle_slot(&mut self, slot: usize) -> (res: Option<u64>)
        requires
            old(self)@.wf(),
            old(self)@.mode == PlaybackMode::Shuffle,
            old(self)@.tracks.len() > 1,
            slot < old(self)@.remaining.len(),
        ensures
            final(self)@.wf(),
            final(self)@ == old(self)@.shuffled(slot as int),
            res == final(self)@.current_track(),
    {
        proof {
            assert(self.tracks@.len() == self.tracks.len());
            self@.lemma_shuffled_wf(slot as int);
        }
        let next = self.shuffle_remaining.swap_remove(slot);
        if let Some(current) = self.current {
            self.shuffle_history.push(current);
        }
        self.current = Some(next);
        self.current_track()
    }

    /// Moves on in shuffle to the entry `slot` of the indices to choose from.
    pub fn next_shuffle_at(&mut self, slot: usize) -> (res: Option<u64>)
        requires
            old(self)@.wf(),
            old(self)@.mode == PlaybackMode::Shuffle,
            old(self)@.tracks.len() > 1,
            slot < old(self)@.pool().len(),
        ensures
            final(self)@.wf(),
            final(self)@ == old(self)@.shuffled(slot as int),
            res == Some(old(self)@.tracks[old(self)@.pool()[slot as int] as int]),
    {
        self.refill_shuffle_remaining();
        self.take_shuffle_slot(slot)
    }

    fn previous_shuffle(&mut self) -> (res: Option<u64>)
        requires
            old(self)@.wf(),
            old(self)@.mode == PlaybackMode::Shuffle,
        ensures
            final(self)@.wf(),
            final(self)@ == old(self)@.unshuffled(),
            res == final(self)@.current_track(),
    {
        proof {
            assert(self.tracks@.len() == self.tracks.len());
            self@.lemma_unshuffled_wf();
        }
        match self.shuffle_history.pop() {
            None => self.current_track(),
            Some(previous) => {
                if let Some(current) = self.current {
                    if !has_index(&self.shuffle_remaining, current) {
                        self.shuffle_remaining.push(current);
                    }
                }
                self.current = Some(previous);
                self.current_track()
            },
        }
    }

    fn reset_shuffle(&mut self)
        ensures
            final(self)@ == old(self)@.reset(),
    {
        self.shuffle_remaining.clear();
        self.shuffle_history.clear();
    }
}

/// Whether `index` is one of `indices`.
fn has_index(indices: &Vec<usize>, index: usize) -> (res: bool)
    ensures
        res == indices@.contains(index),
{
    let mut i: usize = 0;
    while i < indices.len()
        invariant
            i <= indices@.len(),
            forall|j: int| 0 <= j < i ==> indices@[j] != index,
        decreases indices@.len() - i,
    {
        if indices[i] == index {
            return true;
        }
        i = i + 1;
    }
    false
}

/// Stepping through the modes shows all four of them and then starts over.
pub proof fn law_modes_cycle(mode: PlaybackMode)
    ensures
        mode.spec_next() != mode,
        mode.spec_next().spec_next() != mode,
        mode.spec_next().spec_next().spec_next() != mode,
        mode.spec_next().spec_next().spec_next().spec_next() == mode,
{
}

/// Moving an entry down and up again restores the order and the current track.
pub proof fn law_move_down_then_up(queue: QueueView, index: int)
    requires
        queue.wf(),
        0 <= index < queue.tracks.len() - 1,
    ensures
        queue.swapped(index, index + 1).swapped(index + 1, index) == queue.reset(),
{
    assert(queue.swapped(index, index + 1).swapped(index + 1, index).tracks =~= queue.tracks);
}

/// Changing the order of the queue never changes what is playing.
pub proof fn law_moves_keep_current_track(queue: QueueView, i: int, j: int)
    requires
        queue.wf(),
        0 <= i < queue.tracks.len(),
        0 <= j < queue.tracks.len(),
    ensures
        queue.swapped(i, j).current_track() == queue.current_track(),
{
}

/// Removing another entry never changes what is playing.
pub proof fn law_removal_keeps_current_track(queue: QueueView, index: int)
    requires
        queue.wf(),
        0 <= index < queue.tracks.len(),
        queue.current != Some(index),
    ensures
        queue.removed(index).current_track() == queue.current_track(),
{
}

/// Additions keep every queued track in its place, and what is playing.
pub proof fn law_additions_keep_entries(queue: QueueView, ids: Seq<u64>)
    requires
        queue.wf(),
    ensures
        queue.tracks.is_prefix_of(with_tracks(queue.tracks, ids)),
        with_tracks(queue.tracks, ids).no_duplicates(),
        forall|id: u64|
            #[trigger] with_tracks(queue.tracks, ids).contains(id) <==> queue.tracks.contains(id)
                || ids.contains(id),
        queue.current is Some ==> queue.extended(with_tracks(queue.tracks, ids)).current_track()
            == queue.current_track(),
    decreases ids.len(),
{
    if ids.len() > 0 {
        let head = ids.drop_last();
        law_additions_keep_entries(queue, head);
        let before = with_tracks(queue.tracks, head);
        let after = with_tracks(queue.tracks, ids);
        assert(ids =~= head.push(ids.last()));
        if before.contains(ids.last()) {
            assert forall|id: u64| #[trigger] after.contains(id) <==> queue.tracks.contains(id)
                || ids.contains(id) by {
                assert(before.contains(id) <==> queue.tracks.contains(id) || head.contains(id));
                if ids.contains(id) && !head.contains(id) {
                    assert(id == ids.last());
                }
                if head.contains(id) {
                    let i = choose|i: int| 0 <= i < head.len() && head[i] == id;
                    assert(ids[i] == id);
                }
            }
        } else {
            assert(after == before.push(ids.last()));
            assert forall|i: int, j: int|
                0 <= i < after.len() && 0 <= j < after.len() && i != j implies after[i]
                != after[j] by {
                if i < before.len() {
                    assert(before.contains(before[i]));
                }
                if j < before.len() {
                    assert(before.contains(before[j]));
                }
            }
            assert forall|id: u64| #[trigger] after.contains(id) <==> queue.tracks.contains(id)
                || ids.contains(id) by {
                assert(before.contains(id) <==> queue.tracks.contains(id) || head.contains(id));
                if after.contains(id) {
                    let i = choose|i: int| 0 <= i < after.len() && after[i] == id;
                    if i < before.len() {
                        assert(before.contains(before[i]));
                        if head.contains(id) {
                            let k = choose|k: int| 0 <= k < head.len() && head[k] == id;
                            assert(ids[k] == id);
                        }
                    } else {
                        assert(ids[ids.len() - 1] == id);
                    }
                }
                if queue.tracks.contains(id) || ids.contains(id) {
                    if id == ids.last() {
                        assert(after[before.len() as int] == id);
                    } else {
                        if ids.contains(id) {
                            let k = choose|k: int| 0 <= k < ids.len() && ids[k] == id;
                            assert(head[k] == id);
                        }
                        assert(before.contains(id));
                        let k = choose|k: int| 0 <= k < before.len() && before[k] == id;
                        assert(after[k] == id);
                    }
                }
            }
        }
    }
}

/// A step back undoes a step forward, in every mode, unless the queue had come to its end.
pub proof fn law_previous_undoes_next(queue: QueueView, after: QueueView)
    requires
        queue.wf(),
        queue.tracks.len() <= usize::MAX,
        queue.next_step(after),
        queue.mode == PlaybackMode::Sequential ==> queue.following(false) is Some,
    ensures
        after.previous_step().tracks == queue.tracks,
        after.previous_step().current == queue.current,
{
}

/// Shuffle keeps the order of the queue.
pub proof fn law_steps_keep_tracks(queue: QueueView, after: QueueView)
    requires
        queue.next_step(after),
    ensures
        after.tracks == queue.tracks,
        queue.previous_step().tracks == queue.tracks,
{
}

/// Queues that follow one another by steps forward.
pub open spec fn forward_run(steps: Seq<QueueView>) -> bool {
    forall|i: int, j: int|
        0 <= i && i + 1 == j && j < steps.len() ==> #[trigger] steps[i].next_step(steps[j])
}

/// The index that `i` steps forward from `start` lead to in a round of `n` entries, for `i` up to
/// `n`.
spec fn around(start: int, i: int, n: int) -> int {
    if start + i < n {
        start + i
    } else {
        start + i - n
    }
}

proof fn lemma_repeat_run(steps: Seq<QueueView>, i: int)
    requires
        forward_run(steps),
        steps.len() == steps[0].tracks.len() + 1,
        steps[0].wf(),
        steps[0].tracks.len() > 0,
        steps[0].mode == PlaybackMode::RepeatAll,
        0 <= i < steps.len(),
    ensures
        steps[i] == steps[0].at(around(steps[0].current->0, i, steps[0].tracks.len() as int)),
    decreases i,
{
    if i > 0 {
        lemma_repeat_run(steps, i - 1);
        assert(steps[i - 1].next_step(steps[i]));
    }
}

/// A queue that repeats everything comes round: as many steps forward as it has entries lead back
/// to where it was, and on the way every track has its turn, once.
pub proof fn law_repeat_all_comes_round(steps: Seq<QueueView>)
    requires
        forward_run(steps),
        steps.len() == steps[0].tracks.len() + 1,
        steps[0].wf(),
        steps[0].tracks.len() > 0,
        steps[0].mode == PlaybackMode::RepeatAll,
    ensures
        steps.last() == steps[0],
        forall|id: u64| #[trigger]
            steps[0].tracks.contains(id) ==> exists|i: int|
                0 <= i < steps.len() - 1 && (#[trigger] steps[i]).current_track() == Some(id),
        forall|i: int, j: int|
            0 <= i < j < steps.len() - 1 ==> (#[trigger] steps[i]).current_track() != (
            #[trigger] steps[j]).current_track(),
{
    let first = steps[0];
    let n = first.tracks.len() as int;
    let start = first.current->0;
    lemma_repeat_run(steps, n);
    assert forall|id: u64| #[trigger] first.tracks.contains(id) implies exists|i: int|
        0 <= i < steps.len() - 1 && (#[trigger] steps[i]).current_track() == Some(id) by {
        let k = choose|k: int| 0 <= k < n && first.tracks[k] == id;
        let i = if k >= start {
            k - start
        } else {
            k - start + n
        };
        lemma_repeat_run(steps, i);
        assert(steps[i].current_track() == Some(id));
    }
    assert forall|i: int, j: int| 0 <= i < j < steps.len() - 1 implies (
    #[trigger] steps[i]).current_track() != (#[trigger] steps[j]).current_track() by {
        lemma_repeat_run(steps, i);
        lemma_repeat_run(steps, j);
    }
}

/// What one shuffle step does to the indices to choose from.
proof fn lemma_shuffle_step(a: QueueView, b: QueueView)
    requires
        a.wf(),
        1 < a.tracks.len() <= usize::MAX,
        a.mode == PlaybackMode::Shuffle,
        a.next_step(b),
    ensures
        b.wf(),
        b.mode == PlaybackMode::Shuffle,
        b.tracks == a.tracks,
        b.current is Some,
        a.pool().contains(b.current->0 as usize),
        b.remaining.len() == a.pool().len() - 1,
        forall|x: usize|
            #[trigger] b.remaining.contains(x) ==> a.pool().contains(x) && b.current != Some(
                x as int,
            ),
{
    let slot = choose|slot: int| 0 <= slot < a.pool().len() && b == #[trigger] a.shuffled(slot);
    a.lemma_shuffled_wf(slot);
    lemma_others(a.tracks.len(), a.current);
    lemma_swap_removed(a.pool(), slot);
    assert(a.pool().contains(a.pool()[slot]));
}

/// `pool` holds no index that was current in one of the first `k + 1` steps.
spec fn unvisited(steps: Seq<QueueView>, k: int, pool: Seq<usize>) -> bool {
    forall|x: usize, j: int|
        #![trigger pool.contains(x), steps[j]]
        0 <= j <= k && pool.contains(x) ==> steps[j].current != Some(x as int)
}

#[verifier::spinoff_prover]
proof fn lemma_shuffle_run(steps: Seq<QueueView>, k: int)
    requires
        forward_run(steps),
        0 <= k < steps.len() <= steps[0].tracks.len(),
        steps[0].wf(),
        1 < steps[0].tracks.len() <= usize::MAX,
        steps[0].mode == PlaybackMode::Shuffle,
        steps[0].remaining.len() == 0,
    ensures
        steps[k].wf(),
        steps[k].mode == PlaybackMode::Shuffle,
        steps[k].tracks == steps[0].tracks,
        k > 0 ==> steps[k].remaining.len() == steps[0].tracks.len() - 1 - k,
        k + 1 < steps[0].tracks.len() ==> unvisited(steps, k, steps[k].pool()),
        forall|i: int, j: int|
            #![trigger steps[i], steps[j]]
            0 <= i < j <= k ==> steps[i].current != steps[j].current,
    decreases k,
{
    let n = steps[0].tracks.len();
    if k == 0 {
        lemma_others(n, steps[0].current);
        let pool = steps[0].pool();
        assert forall|x: usize, j: int|
            #![trigger pool.contains(x), steps[j]]
            0 <= j <= 0 && pool.contains(x) implies steps[j].current != Some(x as int) by {
            let i = choose|i: int| 0 <= i < pool.len() && pool[i] == x;
            assert(pool[i] == x);
        }
    } else {
        lemma_shuffle_run(steps, k - 1);
        let a = steps[k - 1];
        let b = steps[k];
        assert(a.next_step(b));
        lemma_shuffle_step(a, b);
        if k == 1 {
            lemma_others(n, a.current);
        }
        let picked = b.current->0 as usize;
        assert(unvisited(steps, k - 1, a.pool()));
        assert forall|i: int, j: int|
            #![trigger steps[i], steps[j]]
            0 <= i < j <= k implies steps[i].current != steps[j].current by {
            if j == k {
                assert(a.pool().contains(picked));
                assert(steps[i].current != Some(picked as int));
            }
        }
        if k + 1 < n {
            let pool = b.remaining;
            assert(b.pool() == pool);
            assert forall|x: usize, j: int|
                #![trigger pool.contains(x), steps[j]]
                0 <= j <= k && pool.contains(x) implies steps[j].current != Some(x as int) by {
                assert(a.pool().contains(x));
            }
        }
    }
}

/// Once shuffle starts over, it plays every other track before it plays one again: over any run
/// of steps forward no longer than the queue, no track is current twice.
pub proof fn law_shuffle_visits_each_track_once(steps: Seq<QueueView>)
    requires
        forward_run(steps),
        0 < steps.len() <= steps[0].tracks.len(),
        steps[0].wf(),
        steps[0].tracks.len() <= usize::MAX,
        steps[0].mode == PlaybackMode::Shuffle,
        steps[0].remaining.len() == 0,
    ensures
        forall|i: int, j: int|
            0 <= i < j < steps.len() ==> steps[i].current_track() != steps[j].current_track(),
{
    if steps[0].tracks.len() > 1 {
        assert forall|i: int, j: int| 0 <= i < j < steps.len() implies steps[i].current_track()
            != steps[j].current_track() by {
            lemma_shuffle_run(steps, i);
            lemma_shuffle_run(steps, j);
        }
    }
}

} // verus!
