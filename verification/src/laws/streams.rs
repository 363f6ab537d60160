//! What a playlist says, which rendition is fetched, and what the address of a stream holds.

use vstd::prelude::*;

use crate::api::{file_id, file_parts, hex_digit, path_with_segment, percent_encoded, unreserved};
use crate::hls::{
    bandwidth_attribute, closest, collected, distance, first_bandwidth, is_closest, is_playlist,
    joined_url, playlist_lines, playlist_of, resolved_entries, scan_lines, trimmed_each,
    HlsActionView, HlsState, PlaylistView, ScanView,
};
use crate::laws::text::{law_written_numbers_are_read_back, none_in};
use crate::text::{
    begins_with, decimal, join, nonempty, parsed_u64, split, trim, trim_start, CharSet,
};

verus! {

proof fn lemma_split_grows(head: Seq<char>, tail: Seq<char>, set: CharSet)
    requires
        none_in(tail, set),
    ensures
        split(head, set).len() > 0,
        split(head + tail, set) == split(head, set).drop_last().push(
            split(head, set).last() + tail,
        ),
    decreases tail.len(), head.len(),
{
    let parts = split(head, set);
    if tail.len() > 0 {
        let whole = head + tail;
        let before = tail.drop_last();
        assert forall|i: int| 0 <= i < before.len() implies !set.spec_has(#[trigger] before[i]) by {
            assert(before[i] == tail[i]);
        }
        lemma_split_grows(head, before, set);
        assert(whole.drop_last() =~= head + before);
        assert(whole.last() == tail[tail.len() - 1]);
        let shorter = parts.drop_last().push(parts.last() + before);
        assert(shorter.drop_last() =~= parts.drop_last());
        assert((parts.last() + before).push(tail.last()) =~= parts.last() + tail);
    } else {
        assert(head + tail =~= head);
        assert(parts.last() + tail =~= parts.last());
        if head.len() > 0 {
            lemma_split_grows(head.drop_last(), tail, set);
        }
        assert(parts.drop_last().push(parts.last()) =~= parts);
    }
}

/// Parts that were joined by a character that none of them holds are split again at it.
pub proof fn law_joining_is_undone_by_splitting(parts: Seq<Seq<char>>, set: CharSet, c: char)
    requires
        parts.len() > 0,
        set.spec_has(c),
        forall|i: int| 0 <= i < parts.len() ==> none_in(#[trigger] parts[i], set),
    ensures
        split(join(parts, seq![c]), set) == parts,
    decreases parts.len(),
{
    let empty = Seq::<char>::empty();
    if parts.len() == 1 {
        assert(none_in(parts[0], set));
        lemma_split_grows(empty, parts[0], set);
        assert(empty + parts[0] =~= parts[0]);
        assert(split(empty, set) == seq![empty]);
        assert(split(parts[0], set) =~= parts);
    } else {
        let before = parts.drop_last();
        let last = parts[parts.len() - 1];
        assert forall|i: int| 0 <= i < before.len() implies none_in(#[trigger] before[i], set) by {
            assert(before[i] == parts[i]);
        }
        law_joining_is_undone_by_splitting(before, set, c);
        let head = join(before, seq![c]) + seq![c];
        assert(head.drop_last() =~= join(before, seq![c]));
        assert(split(head, set) == before.push(empty));
        assert(none_in(last, set));
        lemma_split_grows(head, last, set);
        assert(before.push(empty).drop_last() =~= before);
        assert(empty + last =~= last);
        assert(before.push(last) =~= parts);
    }
}

/// A line as it stands in a playlist: not empty, without blanks around it, and without line ends.
pub open spec fn clean_line(line: Seq<char>) -> bool {
    &&& line.len() > 0
    &&& !CharSet::WhiteSpace.spec_has(line[0])
    &&& !CharSet::WhiteSpace.spec_has(line.last())
    &&& none_in(line, CharSet::LineFeed)
}

proof fn lemma_nonempty_all(parts: Seq<Seq<char>>)
    requires
        forall|i: int| 0 <= i < parts.len() ==> (#[trigger] parts[i]).len() > 0,
    ensures
        nonempty(parts) == parts,
    decreases parts.len(),
{
    if parts.len() > 0 {
        let before = parts.drop_last();
        assert forall|i: int| 0 <= i < before.len() implies (#[trigger] before[i]).len() > 0 by {
            assert(before[i] == parts[i]);
        }
        lemma_nonempty_all(before);
        assert(parts[parts.len() - 1].len() > 0);
        assert(before.push(parts.last()) =~= parts);
    } else {
        assert(nonempty(parts) =~= parts);
    }
}

/// The lines of a playlist are those that it is made of.
proof fn lemma_lines(lines: Seq<Seq<char>>)
    requires
        lines.len() > 0,
        forall|i: int| 0 <= i < lines.len() ==> clean_line(#[trigger] lines[i]),
    ensures
        playlist_lines(join(lines, seq!['\n'])) == lines,
{
    assert forall|i: int| 0 <= i < lines.len() implies none_in(
        #[trigger] lines[i],
        CharSet::LineFeed,
    ) by {
        assert(clean_line(lines[i]));
    }
    law_joining_is_undone_by_splitting(lines, CharSet::LineFeed, '\n');
    assert forall|i: int| 0 <= i < lines.len() implies trim(
        #[trigger] lines[i],
        CharSet::WhiteSpace,
    ) == lines[i] && lines[i].len() > 0 by {
        assert(clean_line(lines[i]));
    }
    assert(trimmed_each(lines) =~= lines);
    lemma_nonempty_all(lines);
}

/// The text begins with its first line.
proof fn lemma_join_begins(lines: Seq<Seq<char>>, sep: Seq<char>)
    requires
        lines.len() > 0,
    ensures
        begins_with(join(lines, sep), lines[0]),
    decreases lines.len(),
{
    if lines.len() > 1 {
        let before = lines.drop_last();
        lemma_join_begins(before, sep);
        let n = lines[0].len() as int;
        assert(join(lines, sep).subrange(0, n) =~= join(before, sep).subrange(0, n));
    } else {
        assert(lines[0].subrange(0, lines[0].len() as int) =~= lines[0]);
    }
}

proof fn lemma_marked(lines: Seq<Seq<char>>)
    requires
        lines.len() > 0,
        lines[0] == "#EXTM3U"@,
    ensures
        is_playlist(join(lines, seq!['\n'])),
{
    reveal_strlit("#EXTM3U");
    lemma_join_begins(lines, seq!['\n']);
    let text = join(lines, seq!['\n']);
    assert(text.subrange(0, 7)[0] == text[0]);
    assert(text[0] == '#');
    assert(trim_start(text, CharSet::WhiteSpace) == text);
}

/// The lines that are no comments.
pub open spec fn addresses(lines: Seq<Seq<char>>) -> Seq<Seq<char>>
    decreases lines.len(),
{
    if lines.len() == 0 {
        Seq::empty()
    } else if lines.last()[0] == '#' {
        addresses(lines.drop_last())
    } else {
        addresses(lines.drop_last()).push(lines.last())
    }
}

proof fn lemma_media_scan(lines: Seq<Seq<char>>)
    requires
        forall|i: int|
            0 <= i < lines.len() ==> (#[trigger] lines[i]).len() > 0 && !begins_with(
                lines[i],
                "#EXT-X-STREAM-INF:"@,
            ),
    ensures
        ({
            let scan = scan_lines(lines);
            &&& scan.pending is None
            &&& scan.ended <==> lines.contains("#EXT-X-ENDLIST"@)
            &&& scan.entries.len() == addresses(lines).len()
            &&& forall|i: int|
                0 <= i < scan.entries.len() ==> #[trigger] scan.entries[i] == (
                    None::<u64>,
                    addresses(lines)[i],
                )
        }),
    decreases lines.len(),
{
    reveal_strlit("#EXT-X-ENDLIST");
    if lines.len() > 0 {
        let before = lines.drop_last();
        let last = lines[lines.len() - 1];
        assert forall|i: int| 0 <= i < before.len() implies (#[trigger] before[i]).len() > 0
            && !begins_with(before[i], "#EXT-X-STREAM-INF:"@) by {
            assert(before[i] == lines[i]);
        }
        lemma_media_scan(before);
        assert(last.len() > 0 && !begins_with(last, "#EXT-X-STREAM-INF:"@));
        let end = "#EXT-X-ENDLIST"@;
        if lines.contains(end) && last != end {
            let k = choose|k: int| 0 <= k < lines.len() && lines[k] == end;
            assert(before[k] == end);
        }
        if before.contains(end) {
            let k = choose|k: int| 0 <= k < before.len() && before[k] == end;
            assert(lines[k] == end);
        }
        assert(end[0] == '#');
    }
}

proof fn lemma_collected_segments(
    entries: Seq<(Option<u64>, Seq<char>)>,
    resolved: Seq<std::result::Result<Seq<char>, Seq<char>>>,
)
    requires
        entries.len() <= resolved.len(),
        forall|i: int|
            0 <= i < entries.len() ==> (#[trigger] entries[i]).0 is None && resolved[i] is Ok,
    ensures
        collected(entries, resolved) is Ok,
        collected(entries, resolved)->Ok_0.0.len() == 0,
        collected(entries, resolved)->Ok_0.1.len() == entries.len(),
        forall|i: int|
            0 <= i < entries.len() ==> #[trigger] collected(entries, resolved)->Ok_0.1[i]
                == resolved[i]->Ok_0,
    decreases entries.len(),
{
    if entries.len() > 0 {
        let before = entries.drop_last();
        assert forall|i: int| 0 <= i < before.len() implies (#[trigger] before[i]).0 is None
            && resolved[i] is Ok by {
            assert(before[i] == entries[i]);
        }
        lemma_collected_segments(before, resolved);
        assert(entries[entries.len() - 1].0 is None);
    }
}

/// A playlist of segments is read: its addresses, in the order in which they stand and resolved
/// against its own, are the segments, comments aside, and it is complete exactly where a line says
/// so.
pub proof fn law_segment_lists_are_read(lines: Seq<Seq<char>>, base: Seq<char>)
    requires
        lines.len() > 0,
        lines[0] == "#EXTM3U"@,
        forall|i: int|
            0 <= i < lines.len() ==> clean_line(#[trigger] lines[i]) && !begins_with(
                lines[i],
                "#EXT-X-STREAM-INF:"@,
            ),
        forall|i: int|
            0 <= i < addresses(lines).len() ==> joined_url(
                base,
                #[trigger] addresses(lines)[i],
            ) is Ok,
    ensures
        ({
            let read = playlist_of(join(lines, seq!['\n']), base);
            &&& read is Ok
            &&& read->Ok_0 is Media
            &&& read->Ok_0->ended <==> lines.contains("#EXT-X-ENDLIST"@)
            &&& read->Ok_0->segments.len() == addresses(lines).len()
            &&& forall|i: int|
                0 <= i < addresses(lines).len() ==> joined_url(base, addresses(lines)[i]) == Ok::<
                    Seq<char>,
                    Seq<char>,
                >(#[trigger] read->Ok_0->segments[i])
        }),
{
    lemma_lines(lines);
    lemma_marked(lines);
    assert forall|i: int| 0 <= i < lines.len() implies (#[trigger] lines[i]).len() > 0
        && !begins_with(lines[i], "#EXT-X-STREAM-INF:"@) by {
        assert(clean_line(lines[i]));
    }
    lemma_media_scan(lines);
    let scan = scan_lines(lines);
    let resolved = resolved_entries(base, scan.entries);
    assert forall|i: int| 0 <= i < scan.entries.len() implies (#[trigger] scan.entries[i]).0
        is None && resolved[i] is Ok by {
        assert(joined_url(base, addresses(lines)[i]) is Ok);
    }
    lemma_collected_segments(scan.entries, resolved);
    let segments = collected(scan.entries, resolved)->Ok_0.1;
    assert forall|i: int| 0 <= i < addresses(lines).len() implies joined_url(
        base,
        addresses(lines)[i],
    ) == Ok::<Seq<char>, Seq<char>>(#[trigger] segments[i]) by {
        assert(segments[i] == resolved[i]->Ok_0);
        assert(scan.entries[i] == (None::<u64>, addresses(lines)[i]));
    }
}

/// A rendition as a playlist lists it: its bandwidth among other attributes, and its address.
pub struct Rendition {
    pub before: Seq<Seq<char>>,
    pub bandwidth: u64,
    pub after: Seq<Seq<char>>,
    pub address: Seq<char>,
}

impl Rendition {
    pub open spec fn attributes(self) -> Seq<Seq<char>> {
        self.before.push("BANDWIDTH="@ + decimal(self.bandwidth as nat)) + self.after
    }

    /// The line that describes the rendition.
    pub open spec fn line(self) -> Seq<char> {
        "#EXT-X-STREAM-INF:"@ + join(self.attributes(), seq![','])
    }

    pub open spec fn wf(self) -> bool {
        &&& clean_line(self.line())
        &&& clean_line(self.address)
        &&& self.address[0] != '#'
        &&& forall|i: int|
            0 <= i < self.attributes().len() ==> none_in(
                #[trigger] self.attributes()[i],
                CharSet::Comma,
            )
        &&& forall|i: int|
            0 <= i < self.before.len() ==> !begins_with(
                trim(#[trigger] self.before[i], CharSet::WhiteSpace),
                "BANDWIDTH="@,
            )
    }
}

/// The lines that list the renditions.
pub open spec fn rendition_lines(renditions: Seq<Rendition>) -> Seq<Seq<char>>
    decreases renditions.len(),
{
    if renditions.len() == 0 {
        seq!["#EXTM3U"@]
    } else {
        rendition_lines(renditions.drop_last()).push(renditions.last().line()).push(
            renditions.last().address,
        )
    }
}

proof fn lemma_first_bandwidth(attributes: Seq<Seq<char>>, k: int, n: u64)
    requires
        0 <= k < attributes.len(),
        attributes[k] == "BANDWIDTH="@ + decimal(n as nat),
        forall|i: int|
            0 <= i < k ==> !begins_with(
                trim(#[trigger] attributes[i], CharSet::WhiteSpace),
                "BANDWIDTH="@,
            ),
    ensures
        first_bandwidth(attributes) == Some(n),
    decreases k,
{
    if k == 0 {
        reveal_strlit("BANDWIDTH=");
        law_written_numbers_are_read_back(n, 0);
        let text = attributes[0];
        let digits = decimal(n as nat);
        let last = digits.len() - 1;
        assert('0' <= digits[last] <= '9');
        assert(text[0] == 'B' && text.last() == digits[last]);
        assert(trim_start(text, CharSet::WhiteSpace) == text);
        assert(trim(text, CharSet::WhiteSpace) == text);
        assert(text.subrange(0, 10) =~= "BANDWIDTH="@);
        assert(text.skip(10) =~= digits);
        assert(bandwidth_attribute(text) == Some(n));
    } else {
        let rest = attributes.drop_first();
        assert(!begins_with(trim(attributes[0], CharSet::WhiteSpace), "BANDWIDTH="@));
        assert forall|i: int| 0 <= i < k - 1 implies !begins_with(
            trim(#[trigger] rest[i], CharSet::WhiteSpace),
            "BANDWIDTH="@,
        ) by {
            assert(rest[i] == attributes[i + 1]);
        }
        lemma_first_bandwidth(rest, k - 1, n);
    }
}

proof fn lemma_rendition(scan: ScanView, rendition: Rendition)
    requires
        rendition.wf(),
    ensures
        scan.line(rendition.line()).line(rendition.address) == (ScanView {
            entries: scan.entries.push((Some(rendition.bandwidth), rendition.address)),
            pending: None,
            ..scan
        }),
{
    reveal_strlit("#EXT-X-STREAM-INF:");
    reveal_strlit("#EXT-X-ENDLIST");
    let line = rendition.line();
    let attributes = rendition.attributes();
    assert(line.subrange(0, 18) =~= "#EXT-X-STREAM-INF:"@);
    assert(line.skip(18) =~= join(attributes, seq![',']));
    law_joining_is_undone_by_splitting(attributes, CharSet::Comma, ',');
    let k = rendition.before.len() as int;
    assert(attributes[k] == "BANDWIDTH="@ + decimal(rendition.bandwidth as nat));
    assert forall|i: int| 0 <= i < k implies !begins_with(
        trim(#[trigger] attributes[i], CharSet::WhiteSpace),
        "BANDWIDTH="@,
    ) by {
        assert(attributes[i] == rendition.before[i]);
    }
    lemma_first_bandwidth(attributes, k, rendition.bandwidth);
    let address = rendition.address;
    if begins_with(address, "#EXT-X-STREAM-INF:"@) {
        assert(address.subrange(0, 18)[0] == address[0]);
    }
}

proof fn lemma_master_scan(renditions: Seq<Rendition>)
    requires
        forall|i: int| 0 <= i < renditions.len() ==> (#[trigger] renditions[i]).wf(),
    ensures
        ({
            let lines = rendition_lines(renditions);
            let scan = scan_lines(lines);
            &&& lines.len() > 0 && lines[0] == "#EXTM3U"@
            &&& forall|i: int| 0 <= i < lines.len() ==> clean_line(#[trigger] lines[i])
            &&& scan.pending is None
            &&& scan.entries.len() == renditions.len()
            &&& forall|i: int|
                0 <= i < renditions.len() ==> #[trigger] scan.entries[i] == (
                    Some(renditions[i].bandwidth),
                    renditions[i].address,
                )
        }),
    decreases renditions.len(),
{
    let lines = rendition_lines(renditions);
    if renditions.len() == 0 {
        reveal_strlit("#EXTM3U");
        reveal_strlit("#EXT-X-STREAM-INF:");
        reveal_strlit("#EXT-X-ENDLIST");
        let none = Seq::<Seq<char>>::empty();
        assert(lines.drop_last() =~= none);
        assert(scan_lines(none) == (ScanView {
            entries: Seq::empty(),
            ended: false,
            pending: None,
        }));
        assert(lines[0][0] == '#');
        assert(lines[0].len() == 7);
        assert("#EXT-X-ENDLIST"@.len() == 14);
        assert(clean_line(lines[0]));
    } else {
        let before = renditions.drop_last();
        let last = renditions[renditions.len() - 1];
        assert forall|i: int| 0 <= i < before.len() implies (#[trigger] before[i]).wf() by {
            assert(before[i] == renditions[i]);
        }
        lemma_master_scan(before);
        assert(last.wf());
        let earlier = rendition_lines(before);
        let middle = earlier.push(last.line());
        assert(lines.drop_last() =~= middle);
        assert(middle.drop_last() =~= earlier);
        assert(scan_lines(middle) == scan_lines(earlier).line(last.line()));
        lemma_rendition(scan_lines(earlier), last);
        let scan = scan_lines(lines);
        assert forall|i: int| 0 <= i < renditions.len() implies #[trigger] scan.entries[i] == (
            Some(renditions[i].bandwidth),
            renditions[i].address,
        ) by {
            if i < before.len() {
                assert(scan_lines(earlier).entries[i] == (
                    Some(before[i].bandwidth),
                    before[i].address,
                ));
            }
        }
        assert forall|i: int| 0 <= i < lines.len() implies clean_line(#[trigger] lines[i]) by {
            if i < earlier.len() {
                assert(lines[i] == earlier[i]);
            }
        }
        assert(lines[0] == earlier[0]);
    }
}

proof fn lemma_collected_variants(
    entries: Seq<(Option<u64>, Seq<char>)>,
    resolved: Seq<std::result::Result<Seq<char>, Seq<char>>>,
)
    requires
        entries.len() <= resolved.len(),
        forall|i: int|
            0 <= i < entries.len() ==> (#[trigger] entries[i]).0 is Some && resolved[i] is Ok,
    ensures
        collected(entries, resolved) is Ok,
        collected(entries, resolved)->Ok_0.1.len() == 0,
        collected(entries, resolved)->Ok_0.0.len() == entries.len(),
        forall|i: int|
            0 <= i < entries.len() ==> #[trigger] collected(entries, resolved)->Ok_0.0[i] == (
                entries[i].0->0,
                resolved[i]->Ok_0,
            ),
    decreases entries.len(),
{
    if entries.len() > 0 {
        let before = entries.drop_last();
        assert forall|i: int| 0 <= i < before.len() implies (#[trigger] before[i]).0 is Some
            && resolved[i] is Ok by {
            assert(before[i] == entries[i]);
        }
        lemma_collected_variants(before, resolved);
        assert(entries[entries.len() - 1].0 is Some);
    }
}

/// A playlist of renditions is read: each of them, in the order in which they stand, with the
/// bandwidth that its description names and its address resolved against the playlist's own.
pub proof fn law_rendition_lists_are_read(renditions: Seq<Rendition>, base: Seq<char>)
    requires
        renditions.len() > 0,
        forall|i: int|
            0 <= i < renditions.len() ==> (#[trigger] renditions[i]).wf() && joined_url(
                base,
                renditions[i].address,
            ) is Ok,
    ensures
        ({
            let read = playlist_of(join(rendition_lines(renditions), seq!['\n']), base);
            &&& read is Ok
            &&& read->Ok_0 is Master
            &&& read->Ok_0->Master_0.len() == renditions.len()
            &&& forall|i: int|
                0 <= i < renditions.len() ==> #[trigger] read->Ok_0->Master_0[i] == (
                    renditions[i].bandwidth,
                    joined_url(base, renditions[i].address)->Ok_0,
                )
        }),
{
    let lines = rendition_lines(renditions);
    assert forall|i: int| 0 <= i < renditions.len() implies (#[trigger] renditions[i]).wf() by {
        assert(joined_url(base, renditions[i].address) is Ok);
    }
    lemma_master_scan(renditions);
    lemma_lines(lines);
    lemma_marked(lines);
    let scan = scan_lines(lines);
    let resolved = resolved_entries(base, scan.entries);
    assert forall|i: int| 0 <= i < scan.entries.len() implies (#[trigger] scan.entries[i]).0
        is Some && resolved[i] is Ok by {
        assert(joined_url(base, renditions[i].address) is Ok);
    }
    lemma_collected_variants(scan.entries, resolved);
    let variants = collected(scan.entries, resolved)->Ok_0.0;
    assert forall|i: int| 0 <= i < renditions.len() implies #[trigger] variants[i] == (
        renditions[i].bandwidth,
        joined_url(base, renditions[i].address)->Ok_0,
    ) by {
        assert(scan.entries[i] == (Some(renditions[i].bandwidth), renditions[i].address));
    }
}

/// A text that is not marked as a playlist is refused.
pub proof fn law_other_texts_are_no_playlists(text: Seq<char>, base: Seq<char>)
    requires
        text.len() > 0,
        text[0] != '#',
        !CharSet::WhiteSpace.spec_has(text[0]),
    ensures
        playlist_of(text, base) == Err::<PlaylistView, Seq<char>>(
            "server response is not an HLS playlist"@,
        ),
{
    reveal_strlit("#EXTM3U");
    assert(trim_start(text, CharSet::WhiteSpace) == text);
    if begins_with(text, "#EXTM3U"@) {
        assert(text.subrange(0, 7)[0] == text[0]);
    }
}

proof fn lemma_some_closest(variants: Seq<(u64, Seq<char>)>, target: u64) -> (best: int)
    requires
        variants.len() > 0,
    ensures
        is_closest(variants, target, best),
    decreases variants.len(),
{
    if variants.len() == 1 {
        0
    } else {
        let before = variants.drop_last();
        let last = variants.len() - 1;
        let best = lemma_some_closest(before, target);
        assert forall|j: int| 0 <= j < before.len() implies before[j] == #[trigger] variants[j] by {}
        if distance(variants[last].0, target) < distance(variants[best].0, target) {
            assert forall|j: int| 0 <= j < last implies distance(variants[last].0, target)
                < distance(#[trigger] variants[j].0, target) by {
                assert(distance(before[best].0, target) <= distance(before[j].0, target));
            }
            last
        } else {
            assert forall|j: int| 0 <= j < variants.len() implies distance(
                variants[best].0,
                target,
            ) <= distance(#[trigger] variants[j].0, target) by {
                if j < last {
                    assert(distance(before[best].0, target) <= distance(before[j].0, target));
                }
            }
            assert forall|j: int| 0 <= j < best implies distance(variants[best].0, target)
                < distance(#[trigger] variants[j].0, target) by {
                assert(distance(before[best].0, target) < distance(before[j].0, target));
            }
            best
        }
    }
}

/// Of the renditions the one is fetched whose bandwidth lies closest to the wanted one, above or
/// below; of several such the one listed first.
pub proof fn law_the_closest_rendition_is_fetched(
    state: HlsState,
    variants: Seq<(u64, Seq<char>)>,
)
    requires
        state.media is None,
        !state.variant_selected,
        variants.len() > 0,
    ensures
        exists|k: int|
            0 <= k < variants.len() && state.playlist(PlaylistView::Master(variants)).1
                == HlsActionView::FetchPlaylist((#[trigger] variants[k]).1) && (forall|j: int|
                0 <= j < variants.len() ==> {
                    let far = (#[trigger] variants[j]).0 - state.target_bandwidth;
                    let near = variants[k].0 - state.target_bandwidth;
                    near <= far || near <= -far
                } && {
                    let far = variants[j].0 - state.target_bandwidth;
                    let near = variants[k].0 - state.target_bandwidth;
                    -near <= far || -near <= -far
                }) && (forall|j: int|
                0 <= j < k ==> (#[trigger] variants[j]).0 != variants[k].0),
{
    let target = state.target_bandwidth;
    let best = lemma_some_closest(variants, target);
    let k = choose|k: int| is_closest(variants, target, k);
    assert(is_closest(variants, target, k));
    assert(closest(variants, target) == variants[k]);
    assert forall|j: int| 0 <= j < k implies (#[trigger] variants[j]).0 != variants[k].0 by {
        assert(distance(variants[k].0, target) < distance(variants[j].0, target));
    }
    assert forall|j: int| 0 <= j < variants.len() implies distance(variants[k].0, target)
        <= distance((#[trigger] variants[j]).0, target) by {}
    assert(state.playlist(PlaylistView::Master(variants)).1 == HlsActionView::FetchPlaylist(
        variants[k].1,
    ));
}

/// A clean part of a path.
pub open spec fn path_part(part: Seq<char>) -> bool {
    part.len() > 0 && none_in(part, CharSet::Slash)
}

proof fn lemma_join_ends(parts: Seq<Seq<char>>, sep: Seq<char>)
    requires
        parts.len() > 0,
        forall|i: int| 0 <= i < parts.len() ==> (#[trigger] parts[i]).len() > 0,
    ensures
        join(parts, sep).len() > 0,
        join(parts, sep)[0] == parts[0][0],
        join(parts, sep).last() == parts.last().last(),
    decreases parts.len(),
{
    assert(parts[parts.len() - 1].len() > 0);
    if parts.len() > 1 {
        let before = parts.drop_last();
        assert forall|i: int| 0 <= i < before.len() implies (#[trigger] before[i]).len() > 0 by {
            assert(before[i] == parts[i]);
        }
        lemma_join_ends(before, sep);
        assert(before[0] == parts[0]);
    }
}

/// The path of a track is rewritten in its first part alone, and the number in its last part is the
/// number of its file.
pub proof fn law_paths_are_rewritten_in_front(parts: Seq<Seq<char>>, segment: Seq<char>)
    requires
        parts.len() >= 2,
        forall|i: int| 0 <= i < parts.len() ==> path_part(#[trigger] parts[i]),
    ensures
        ({
            let file = seq!['/'] + join(parts, seq!['/']);
            &&& path_with_segment(file, segment) == seq!['/'] + join(
                parts.update(0, segment),
                seq!['/'],
            )
            &&& file_id(file) == parsed_u64(parts.last())
            &&& file_parts(file).len() >= 2
        }),
{
    let set = CharSet::Slash;
    let text = join(parts, seq!['/']);
    let file = seq!['/'] + text;
    assert forall|i: int| 0 <= i < parts.len() implies (#[trigger] parts[i]).len() > 0 && none_in(
        parts[i],
        set,
    ) by {
        assert(path_part(parts[i]));
    }
    lemma_join_ends(parts, seq!['/']);
    assert(path_part(parts[0]) && path_part(parts[parts.len() - 1]));
    assert(!set.spec_has(parts[0][0]));
    let last = parts[parts.len() - 1];
    assert(!set.spec_has(last[last.len() - 1]));
    assert(file.drop_first() =~= text);
    assert(trim_start(text, set) == text);
    assert(trim_start(file, set) == text);
    assert(trim(file, set) == text);
    law_joining_is_undone_by_splitting(parts, set, '/');
    lemma_nonempty_all(parts);
}

/// What an encoded text stands for.
pub open spec fn percent_decoded(s: Seq<char>) -> Seq<u8>
    decreases s.len(),
{
    if s.len() == 0 {
        Seq::empty()
    } else if s.len() >= 3 && s[s.len() - 3] == '%' {
        percent_decoded(s.take(s.len() - 3)).push(
            (hex_value(s[s.len() - 2]) * 16 + hex_value(s[s.len() - 1])) as u8,
        )
    } else {
        percent_decoded(s.drop_last()).push(s.last() as u8)
    }
}

pub open spec fn hex_value(c: char) -> int {
    if '0' <= c <= '9' {
        c as int - '0' as int
    } else {
        c as int - 'A' as int + 10
    }
}

proof fn lemma_percent_places(bytes: Seq<u8>)
    ensures
        ({
            let s = percent_encoded(bytes);
            &&& s.len() >= 1 ==> s[s.len() - 1] != '%'
            &&& s.len() >= 2 ==> s[s.len() - 2] != '%'
        }),
    decreases bytes.len(),
{
    if bytes.len() > 0 {
        lemma_percent_places(bytes.drop_last());
    }
}

/// An encoded text can be decoded: no byte is lost or changed.
pub proof fn law_encoded_bytes_are_decoded(bytes: Seq<u8>)
    ensures
        percent_decoded(percent_encoded(bytes)) == bytes,
    decreases bytes.len(),
{
    if bytes.len() > 0 {
        let before = bytes.drop_last();
        let byte = bytes.last();
        law_encoded_bytes_are_decoded(before);
        lemma_percent_places(before);
        let head = percent_encoded(before);
        let s = percent_encoded(bytes);
        if unreserved(byte) {
            assert(s.drop_last() =~= head);
            if s.len() >= 3 {
                assert(s[s.len() - 3] == head[head.len() - 2]);
            }
        } else {
            assert(s.take(s.len() - 3) =~= head);
            assert(hex_value(hex_digit(byte as int / 16)) == byte as int / 16);
            assert(hex_value(hex_digit(byte as int % 16)) == byte as int % 16);
        }
        assert(before.push(byte) =~= bytes);
    } else {
        assert(percent_decoded(percent_encoded(bytes)) =~= bytes);
    }
}

} // verus!
