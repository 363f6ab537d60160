//! The order in which tracks are listed, and sorting by it.

use vstd::prelude::*;

verus! {

/// Text is ordered character by character; a prefix comes first. Negative where `a` comes before
/// `b`, zero where the texts are equal, and positive where `a` comes after `b`.
pub open spec fn text_order(a: Seq<char>, b: Seq<char>) -> int
    decreases a.len(),
{
    if a.len() == 0 {
        if b.len() == 0 {
            0
        } else {
            -1
        }
    } else if b.len() == 0 {
        1
    } else if a[0] < b[0] {
        -1
    } else if b[0] < a[0] {
        1
    } else {
        text_order(a.drop_first(), b.drop_first())
    }
}

/// What a track is ordered by: artist, album, number and title, and then its id.
pub struct TrackKeyView {
    pub artist: Seq<char>,
    pub album: Seq<char>,
    pub number: i64,
    pub title: Seq<char>,
    pub id: u64,
}

/// The order by artist, album, number and title.
pub open spec fn name_order(a: TrackKeyView, b: TrackKeyView) -> int {
    if text_order(a.artist, b.artist) != 0 {
        text_order(a.artist, b.artist)
    } else if text_order(a.album, b.album) != 0 {
        text_order(a.album, b.album)
    } else if a.number != b.number {
        if a.number < b.number {
            -1
        } else {
            1
        }
    } else {
        text_order(a.title, b.title)
    }
}

/// `a` is listed before `b`: by name, and among equal names by id.
pub open spec fn listed_before(a: TrackKeyView, b: TrackKeyView) -> bool {
    name_order(a, b) < 0 || (name_order(a, b) == 0 && a.id < b.id)
}

/// Text order is the same from both sides, and zero only for equal texts.
pub proof fn law_text_order_is_total(a: Seq<char>, b: Seq<char>)
    ensures
        text_order(a, b) == -text_order(b, a),
        -1 <= text_order(a, b) <= 1,
        text_order(a, b) == 0 <==> a == b,
    decreases a.len(),
{
    if a.len() > 0 && b.len() > 0 {
        law_text_order_is_total(a.drop_first(), b.drop_first());
        if a[0] == b[0] && a.drop_first() == b.drop_first() {
            assert(a =~= seq![a[0]] + a.drop_first());
            assert(b =~= seq![b[0]] + b.drop_first());
        }
    } else {
        if text_order(a, b) == 0 {
            assert(a =~= b);
        }
    }
}

/// Text order is transitive.
pub proof fn law_text_order_is_transitive(a: Seq<char>, b: Seq<char>, c: Seq<char>)
    requires
        text_order(a, b) <= 0,
        text_order(b, c) <= 0,
    ensures
        text_order(a, c) <= 0,
        text_order(a, b) < 0 || text_order(b, c) < 0 ==> text_order(a, c) < 0,
    decreases a.len(),
{
    if a.len() > 0 && b.len() > 0 && c.len() > 0 && a[0] == b[0] && b[0] == c[0] {
        law_text_order_is_transitive(a.drop_first(), b.drop_first(), c.drop_first());
    }
}

/// Of two tracks with different ids exactly one is listed before the other.
pub proof fn law_listing_is_total(a: TrackKeyView, b: TrackKeyView)
    requires
        a.id != b.id,
    ensures
        listed_before(a, b) <==> !listed_before(b, a),
{
    law_text_order_is_total(a.artist, b.artist);
    law_text_order_is_total(a.album, b.album);
    law_text_order_is_total(a.title, b.title);
}

/// The order of tracks is transitive.
pub proof fn law_listing_is_transitive(a: TrackKeyView, b: TrackKeyView, c: TrackKeyView)
    requires
        listed_before(a, b),
        listed_before(b, c),
    ensures
        listed_before(a, c),
{
    law_text_order_is_total(a.artist, b.artist);
    law_text_order_is_total(b.artist, c.artist);
    law_text_order_is_total(a.artist, c.artist);
    law_text_order_is_total(a.album, b.album);
    law_text_order_is_total(b.album, c.album);
    law_text_order_is_total(a.album, c.album);
    law_text_order_is_total(a.title, b.title);
    law_text_order_is_total(b.title, c.title);
    law_text_order_is_total(a.title, c.title);
    law_text_order_is_transitive(a.artist, b.artist, c.artist);
    if a.artist == b.artist && b.artist == c.artist {
        law_text_order_is_transitive(a.album, b.album, c.album);
        if a.album == b.album && b.album == c.album {
            if a.number == b.number && b.number == c.number {
                law_text_order_is_transitive(a.title, b.title, c.title);
            }
        }
    }
}

/// What a track is ordered by.
#[derive(Debug)]
pub struct TrackKey {
    pub artist: Vec<char>,
    pub album: Vec<char>,
    pub number: i64,
    pub title: Vec<char>,
    pub id: u64,
}

impl View for TrackKey {
    type V = TrackKeyView;

    open spec fn view(&self) -> TrackKeyView {
        TrackKeyView {
            artist: self.artist@,
            album: self.album@,
            number: self.number,
            title: self.title@,
            id: self.id,
        }
    }
}

/// The order of two texts.
pub fn order_texts(a: &Vec<char>, b: &Vec<char>) -> (res: i32)
    ensures
        res == text_order(a@, b@),
{
    let mut i: usize = 0;
    assert(a@.skip(0) =~= a@);
    assert(b@.skip(0) =~= b@);
    while i < a.len() && i < b.len() && a[i] == b[i]
        invariant
            i <= a@.len(),
            i <= b@.len(),
            text_order(a@, b@) == text_order(a@.skip(i as int), b@.skip(i as int)),
        decreases a@.len() - i,
    {
        assert(a@.skip(i as int).drop_first() =~= a@.skip(i + 1));
        assert(b@.skip(i as int).drop_first() =~= b@.skip(i + 1));
        i = i + 1;
    }
    if i == a.len() {
        if i == b.len() {
            0
        } else {
            -1
        }
    } else if i == b.len() {
        1
    } else if a[i] < b[i] {
        -1
    } else {
        1
    }
}

impl TrackKey {
    /// The order by artist, album, number and title.
    pub fn order_names(&self, other: &TrackKey) -> (res: i32)
        ensures
            res == name_order(self@, other@),
    {
        let by_artist = order_texts(&self.artist, &other.artist);
        if by_artist != 0 {
            return by_artist;
        }
        let by_album = order_texts(&self.album, &other.album);
        if by_album != 0 {
            return by_album;
        }
        if self.number < other.number {
            return -1;
        }
        if self.number > other.number {
            return 1;
        }
        order_texts(&self.title, &other.title)
    }

    /// Whether this track is listed before the other.
    pub fn precedes(&self, other: &TrackKey) -> (res: bool)
        ensures
            res == listed_before(self@, other@),
    {
        let by_name = self.order_names(other);
        by_name < 0 || (by_name == 0 && self.id < other.id)
    }
}

/// No two keys have the same id.
pub open spec fn distinct_ids(keys: Seq<TrackKey>) -> bool {
    forall|i: int, j: int|
        0 <= i < j < keys.len() ==> (#[trigger] keys[i]).id != (#[trigger] keys[j]).id
}

/// The positions are in range and the keys at them are in order.
pub open spec fn in_order(keys: Seq<TrackKey>, positions: Seq<usize>) -> bool {
    &&& forall|i: int| 0 <= i < positions.len() ==> (#[trigger] positions[i]) < keys.len()
    &&& forall|i: int, j: int|
        0 <= i < j < positions.len() ==> listed_before(
            keys[(#[trigger] positions[i]) as int]@,
            keys[(#[trigger] positions[j]) as int]@,
        )
}

/// The positions are exactly those from `low` to below `high`.
pub open spec fn covers(positions: Seq<usize>, low: int, high: int) -> bool {
    &&& forall|i: int| 0 <= i < positions.len() ==> low <= (#[trigger] positions[i]) < high
    &&& forall|p: usize| low <= p < high ==> #[trigger] positions.contains(p)
}

/// Everything at `positions` comes before everything in `later` from `from` on.
spec fn all_before(
    keys: Seq<TrackKey>,
    positions: Seq<usize>,
    later: Seq<usize>,
    from: int,
) -> bool {
    forall|i: int, j: int|
        0 <= i < positions.len() && from <= j < later.len() ==> listed_before(
            keys[(#[trigger] positions[i]) as int]@,
            keys[(#[trigger] later[j]) as int]@,
        )
}

proof fn lemma_pushed(positions: Seq<usize>, p: usize, q: usize)
    ensures
        positions.push(p).contains(p),
        positions.contains(q) ==> positions.push(p).contains(q),
{
    assert(positions.push(p)[positions.len() as int] == p);
    if positions.contains(q) {
        let i = choose|i: int| 0 <= i < positions.len() && positions[i] == q;
        assert(positions.push(p)[i] == q);
    }
}

/// Appending the next position, which comes after all others, keeps the order.
proof fn lemma_extended(keys: Seq<TrackKey>, out: Seq<usize>, from: Seq<usize>, i: int)
    requires
        in_order(keys, out),
        in_order(keys, from),
        0 <= i < from.len(),
        all_before(keys, out, from, i),
    ensures
        in_order(keys, out.push(from[i])),
        all_before(keys, out.push(from[i]), from, i + 1),
{
    let next = out.push(from[i]);
    assert forall|k: int| 0 <= k < next.len() implies (#[trigger] next[k]) < keys.len() by {
        if k < out.len() {
            assert(next[k] == out[k]);
        }
    }
    assert forall|a: int, b: int| 0 <= a < b < next.len() implies listed_before(
        keys[(#[trigger] next[a]) as int]@,
        keys[(#[trigger] next[b]) as int]@,
    ) by {
        assert(next[a] == out[a]);
        if b < out.len() {
            assert(next[b] == out[b]);
        } else {
            assert(next[b] == from[i]);
        }
    }
    assert forall|a: int, b: int|
        0 <= a < next.len() && i + 1 <= b < from.len() implies listed_before(
        keys[(#[trigger] next[a]) as int]@,
        keys[(#[trigger] from[b]) as int]@,
    ) by {
        if a < out.len() {
            assert(next[a] == out[a]);
        } else {
            assert(next[a] == from[i]);
        }
    }
}

/// The position appended from one list also comes before the rest of the other list.
proof fn lemma_other_list(
    keys: Seq<TrackKey>,
    out: Seq<usize>,
    p: usize,
    other: Seq<usize>,
    j: int,
)
    requires
        in_order(keys, other),
        0 <= j <= other.len(),
        all_before(keys, out, other, j),
        j < other.len() ==> listed_before(keys[p as int]@, keys[other[j] as int]@),
    ensures
        all_before(keys, out.push(p), other, j),
{
    let next = out.push(p);
    assert forall|a: int, b: int|
        0 <= a < next.len() && j <= b < other.len() implies listed_before(
        keys[(#[trigger] next[a]) as int]@,
        keys[(#[trigger] other[b]) as int]@,
    ) by {
        if a < out.len() {
            assert(next[a] == out[a]);
        } else if b > j {
            law_listing_is_transitive(
                keys[p as int]@,
                keys[other[j] as int]@,
                keys[other[b] as int]@,
            );
        }
    }
}

/// Merges two ordered lists of positions.
fn merge(
    keys: &Vec<TrackKey>,
    left: &Vec<usize>,
    right: &Vec<usize>,
    Ghost(low): Ghost<int>,
    Ghost(middle): Ghost<int>,
    Ghost(high): Ghost<int>,
) -> (res: Vec<usize>)
    requires
        distinct_ids(keys@),
        in_order(keys@, left@),
        in_order(keys@, right@),
        covers(left@, low, middle),
        covers(right@, middle, high),
        low <= middle <= high,
    ensures
        in_order(keys@, res@),
        covers(res@, low, high),
{
    let mut out: Vec<usize> = Vec::new();
    let mut i: usize = 0;
    let mut j: usize = 0;
    while i < left.len() || j < right.len()
        invariant
            distinct_ids(keys@),
            in_order(keys@, left@),
            in_order(keys@, right@),
            covers(left@, low, middle),
            covers(right@, middle, high),
            low <= middle <= high,
            i <= left@.len(),
            j <= right@.len(),
            in_order(keys@, out@),
            forall|k: int| 0 <= k < out@.len() ==> low <= (#[trigger] out@[k]) < high,
            all_before(keys@, out@, left@, i as int),
            all_before(keys@, out@, right@, j as int),
            forall|k: int| 0 <= k < i ==> out@.contains(#[trigger] left@[k]),
            forall|k: int| 0 <= k < j ==> out@.contains(#[trigger] right@[k]),
        decreases left@.len() - i + right@.len() - j,
    {
        let ghost before = out@;
        let take_left = if i < left.len() && j < right.len() {
            proof {
                law_listing_is_total(keys@[left@[i as int] as int]@, keys@[right@[j as int] as int]@);
            }
            keys[left[i]].precedes(&keys[right[j]])
        } else {
            i < left.len()
        };
        if take_left {
            let p: usize = left[i];
            proof {
                lemma_extended(keys@, before, left@, i as int);
                lemma_other_list(keys@, before, p, right@, j as int);
                assert forall|q: usize| before.contains(q) implies before.push(p).contains(q) by {
                    lemma_pushed(before, p, q);
                }
                lemma_pushed(before, p, p);
            }
            out.push(p);
            i = i + 1;
        } else {
            let p: usize = right[j];
            proof {
                lemma_extended(keys@, before, right@, j as int);
                lemma_other_list(keys@, before, p, left@, i as int);
                assert forall|q: usize| before.contains(q) implies before.push(p).contains(q) by {
                    lemma_pushed(before, p, q);
                }
                lemma_pushed(before, p, p);
            }
            out.push(p);
            j = j + 1;
        }
    }
    proof {
        assert forall|p: usize| low <= p < high implies #[trigger] out@.contains(p) by {
            if p < middle {
                assert(left@.contains(p));
                let k = choose|k: int| 0 <= k < left@.len() && left@[k] == p;
                assert(out@.contains(left@[k]));
            } else {
                assert(right@.contains(p));
                let k = choose|k: int| 0 <= k < right@.len() && right@[k] == p;
                assert(out@.contains(right@[k]));
            }
        }
    }
    out
}

/// The positions from `low` to below `high`, in the order of their keys.
pub fn sorted_positions(keys: &Vec<TrackKey>, low: usize, high: usize) -> (res: Vec<usize>)
    requires
        distinct_ids(keys@),
        low <= high <= keys@.len(),
    ensures
        in_order(keys@, res@),
        covers(res@, low as int, high as int),
    decreases high - low,
{
    let mut out: Vec<usize> = Vec::new();
    if low == high {
        return out;
    }
    if high - low == 1 {
        out.push(low);
        assert(out@[0] == low);
        return out;
    }
    let middle: usize = low + (high - low) / 2;
    let left = sorted_positions(keys, low, middle);
    let right = sorted_positions(keys, middle, high);
    merge(keys, &left, &right, Ghost(low as int), Ghost(middle as int), Ghost(high as int))
}

} // verus!
