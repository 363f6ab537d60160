//! Client side of the HTTP live streams by which the transcoded bitrates are served.
//!
//! The streaming server exposes most bitrates only as playlists whose MPEG transport stream
//! segments carry AAC audio. This module reads those playlists, picks a rendition, and decides
//! which request follows which until the whole track has been fetched.

use vstd::prelude::*;

use crate::error::{prefixed, AppError, Result};
use crate::mpegts::TsDemuxer;
use crate::text::{
    begins_with, chars_of, keep_nonempty, nonempty, parse_u64, parsed_u64, same_text, split,
    split_chars, starts_with_chars, string_of, trim, trim_chars, trim_start, trim_start_chars,
    views, CharSet,
};
use vstd::slice::slice_subrange;

verus! {

/// The transcoder publishes segments incrementally; poll this often, in milliseconds, while
/// waiting for new ones.
pub const PLAYLIST_POLL_INTERVAL_MILLIS: u64 = 750;

/// Give up when this many consecutive polls yield no new segments.
pub const MAX_STALLED_POLLS: u32 = 240;

/// The result of resolving a playlist entry against the address of the playlist: the absolute
/// address, or the message of the error.
pub uninterp spec fn joined_url(base: Seq<char>, entry: Seq<char>) -> std::result::Result<
    Seq<char>,
    Seq<char>,
>;

/// `reqwest::Url::join` on the parsed `base`: a function of the two texts, named by
/// [`joined_url`].
#[verifier::external_body]
fn join_url(base: &str, entry: &str) -> (res: std::result::Result<String, String>)
    ensures
        match res {
            Ok(url) => joined_url(base@, entry@) == Ok::<Seq<char>, Seq<char>>(url@),
            Err(message) => joined_url(base@, entry@) == Err::<Seq<char>, Seq<char>>(message@),
        },
{
    match reqwest::Url::parse(base) {
        Ok(base) => match base.join(entry) {
            Ok(url) => Ok(String::from(url)),
            Err(err) => Err(err.to_string()),
        },
        Err(err) => Err(err.to_string()),
    }
}

/// The result of parsing an address: its normal form, or the message of the error.
pub uninterp spec fn parsed_url(url: Seq<char>) -> std::result::Result<Seq<char>, Seq<char>>;

/// `reqwest::Url::parse`: a function of the text, named by [`parsed_url`].
#[verifier::external_body]
fn parse_url(url: &str) -> (res: std::result::Result<String, String>)
    ensures
        match res {
            Ok(url_text) => parsed_url(url@) == Ok::<Seq<char>, Seq<char>>(url_text@),
            Err(message) => parsed_url(url@) == Err::<Seq<char>, Seq<char>>(message@),
        },
{
    match reqwest::Url::parse(url) {
        Ok(url) => Ok(String::from(url)),
        Err(err) => Err(err.to_string()),
    }
}

/// A rendition listed in a master playlist.
#[derive(Debug)]
pub struct Variant {
    pub bandwidth: u64,
    pub url: String,
}

/// The segments of one rendition.
#[derive(Debug)]
pub struct MediaPlaylist {
    pub segments: Vec<String>,
    pub ended: bool,
}

#[derive(Debug)]
pub enum Playlist {
    Master(Vec<Variant>),
    Media(MediaPlaylist),
}

/// What a playlist lists.
pub enum PlaylistView {
    Master(Seq<(u64, Seq<char>)>),
    Media { segments: Seq<Seq<char>>, ended: bool },
}

pub open spec fn variant_views(variants: Seq<Variant>) -> Seq<(u64, Seq<char>)> {
    Seq::new(variants.len(), |i: int| (variants[i].bandwidth, variants[i].url@))
}

pub open spec fn string_views(strings: Seq<String>) -> Seq<Seq<char>> {
    Seq::new(strings.len(), |i: int| strings[i]@)
}

impl View for Playlist {
    type V = PlaylistView;

    open spec fn view(&self) -> PlaylistView {
        match self {
            Playlist::Master(variants) => PlaylistView::Master(variant_views(variants@)),
            Playlist::Media(media) => PlaylistView::Media {
                segments: string_views(media.segments@),
                ended: media.ended,
            },
        }
    }
}

/// The value of one attribute of a stream description, if it is the bandwidth.
pub open spec fn bandwidth_attribute(attribute: Seq<char>) -> Option<u64> {
    let trimmed = trim(attribute, CharSet::WhiteSpace);
    if begins_with(trimmed, "BANDWIDTH="@) {
        parsed_u64(trimmed.skip("BANDWIDTH="@.len() as int))
    } else {
        None
    }
}

/// The first readable bandwidth among the attributes.
pub open spec fn first_bandwidth(attributes: Seq<Seq<char>>) -> Option<u64>
    decreases attributes.len(),
{
    if attributes.len() == 0 {
        None
    } else {
        match bandwidth_attribute(attributes[0]) {
            Some(bandwidth) => Some(bandwidth),
            None => first_bandwidth(attributes.drop_first()),
        }
    }
}

/// Reads the bandwidth from the attributes of a stream description.
pub fn parse_bandwidth(attributes: &[char]) -> (res: Option<u64>)
    ensures
        res == first_bandwidth(split(attributes@, CharSet::Comma)),
{
    let parts = split_chars(attributes, CharSet::Comma);
    let ghost all = views(parts@);
    let mut i: usize = 0;
    assert(all.skip(0) =~= all);
    while i < parts.len()
        invariant
            i <= parts@.len(),
            all == views(parts@),
            all == split(attributes@, CharSet::Comma),
            first_bandwidth(all) == first_bandwidth(all.skip(i as int)),
        decreases parts@.len() - i,
    {
        let trimmed = trim_chars(parts[i].as_slice(), CharSet::WhiteSpace);
        assert(all.skip(i as int).drop_first() =~= all.skip(i + 1));
        assert(all.skip(i as int)[0] == parts@[i as int]@);
        if starts_with_chars(trimmed, "BANDWIDTH=") {
            let name = chars_of("BANDWIDTH=");
            let value = slice_subrange(trimmed, name.len(), trimmed.len());
            assert(value@ =~= trimmed@.skip("BANDWIDTH="@.len() as int));
            if let Some(bandwidth) = parse_u64(value) {
                return Some(bandwidth);
            }
        }
        i = i + 1;
    }
    None
}

/// An address listed in a playlist. It names a rendition where a stream description precedes it,
/// and a segment otherwise.
#[derive(Debug)]
pub struct PlaylistEntry {
    pub bandwidth: Option<u64>,
    pub line: String,
}

/// What the lines of a playlist say, before addresses are resolved.
#[derive(Debug)]
pub struct PlaylistScan {
    pub entries: Vec<PlaylistEntry>,
    pub ended: bool,
}

pub struct ScanView {
    pub entries: Seq<(Option<u64>, Seq<char>)>,
    pub ended: bool,
    /// The bandwidth of a stream description that still waits for its address.
    pub pending: Option<u64>,
}

pub open spec fn entry_views(entries: Seq<PlaylistEntry>) -> Seq<(Option<u64>, Seq<char>)> {
    Seq::new(entries.len(), |i: int| (entries[i].bandwidth, entries[i].line@))
}

impl ScanView {
    /// Takes one trimmed line into account.
    pub open spec fn line(self, line: Seq<char>) -> ScanView {
        if begins_with(line, "#EXT-X-STREAM-INF:"@) {
            let attributes = line.skip("#EXT-X-STREAM-INF:"@.len() as int);
            let bandwidth = match first_bandwidth(split(attributes, CharSet::Comma)) {
                Some(bandwidth) => bandwidth,
                None => 0,
            };
            ScanView { pending: Some(bandwidth), ..self }
        } else if line == "#EXT-X-ENDLIST"@ {
            ScanView { ended: true, ..self }
        } else if line[0] == '#' {
            self
        } else {
            ScanView { entries: self.entries.push((self.pending, line)), pending: None, ..self }
        }
    }
}

/// What the lines say, read in order.
pub open spec fn scan_lines(lines: Seq<Seq<char>>) -> ScanView
    decreases lines.len(),
{
    if lines.len() == 0 {
        ScanView { entries: Seq::empty(), ended: false, pending: None }
    } else {
        scan_lines(lines.drop_last()).line(lines.last())
    }
}

/// Every part without surrounding white space.
pub open spec fn trimmed_each(parts: Seq<Seq<char>>) -> Seq<Seq<char>> {
    Seq::new(parts.len(), |i: int| trim(parts[i], CharSet::WhiteSpace))
}

/// The lines of a playlist: trimmed, without the empty ones.
pub open spec fn playlist_lines(text: Seq<char>) -> Seq<Seq<char>> {
    nonempty(trimmed_each(split(text, CharSet::LineFeed)))
}

/// Whether the text is marked as a playlist.
pub open spec fn is_playlist(text: Seq<char>) -> bool {
    begins_with(trim_start(text, CharSet::WhiteSpace), "#EXTM3U"@)
}

pub open spec fn scanned(scan: PlaylistScan, lines: Seq<Seq<char>>) -> bool {
    &&& entry_views(scan.entries@) == scan_lines(lines).entries
    &&& scan.ended == scan_lines(lines).ended
}

fn trimmed_lines(chars: &[char]) -> (res: Vec<Vec<char>>)
    ensures
        views(res@) == playlist_lines(chars@),
{
    let parts = split_chars(chars, CharSet::LineFeed);
    let ghost all = views(parts@);
    let mut trimmed: Vec<Vec<char>> = Vec::new();
    let mut i: usize = 0;
    while i < parts.len()
        invariant
            i <= parts@.len(),
            all == views(parts@),
            views(trimmed@) =~= trimmed_each(all).take(i as int),
        decreases parts@.len() - i,
    {
        let line = trim_chars(parts[i].as_slice(), CharSet::WhiteSpace);
        let mut owned: Vec<char> = Vec::new();
        crate::text::extend_chars(&mut owned, line);
        assert(owned@ =~= line@);
        let ghost held = views(trimmed@);
        trimmed.push(owned);
        i = i + 1;
        assert(views(trimmed@) =~= held.push(trim(all[i - 1], CharSet::WhiteSpace)));
    }
    assert(views(trimmed@) =~= trimmed_each(all));
    keep_nonempty(trimmed)
}

proof fn lemma_nonempty(parts: Seq<Seq<char>>)
    ensures
        forall|i: int| 0 <= i < nonempty(parts).len() ==> (#[trigger] nonempty(parts)[i]).len() > 0,
    decreases parts.len(),
{
    if parts.len() > 0 {
        let before = nonempty(parts.drop_last());
        lemma_nonempty(parts.drop_last());
        assert forall|i: int| 0 <= i < nonempty(parts).len() implies (#[trigger] nonempty(
            parts,
        )[i]).len() > 0 by {
            if i < before.len() {
                assert(nonempty(parts)[i] == before[i]);
            }
        }
    }
}

/// Reads the lines of a playlist.
pub fn scan_playlist(text: &str) -> (res: Result<PlaylistScan>)
    ensures
        match res {
            Ok(scan) => is_playlist(text@) && scanned(scan, playlist_lines(text@)),
            Err(error) => !is_playlist(text@) && error is Playback && error->Playback_0@
                == "server response is not an HLS playlist"@,
        },
{
    let chars = chars_of(text);
    if !starts_with_chars(trim_start_chars(chars.as_slice(), CharSet::WhiteSpace), "#EXTM3U") {
        return Err(AppError::Playback("server response is not an HLS playlist".to_owned()));
    }
    let lines = trimmed_lines(chars.as_slice());
    let ghost all = views(lines@);
    proof {
        lemma_nonempty(trimmed_each(split(text@, CharSet::LineFeed)));
    }
    let mut entries: Vec<PlaylistEntry> = Vec::new();
    let mut ended = false;
    let mut pending: Option<u64> = None;
    let mut i: usize = 0;
    assert(all.take(0) =~= Seq::<Seq<char>>::empty());
    assert(entry_views(entries@) =~= Seq::<(Option<u64>, Seq<char>)>::empty());
    while i < lines.len()
        invariant
            i <= lines@.len(),
            all == views(lines@),
            forall|k: int| 0 <= k < all.len() ==> (#[trigger] all[k]).len() > 0,
            (ScanView { entries: entry_views(entries@), ended, pending }) == scan_lines(
                all.take(i as int),
            ),
        decreases lines@.len() - i,
    {
        let line = lines[i].as_slice();
        let ghost before = scan_lines(all.take(i as int));
        proof {
            assert(all.take(i + 1).drop_last() =~= all.take(i as int));
            assert(all.take(i + 1).last() == line@);
            assert(all[i as int].len() > 0);
        }
        if starts_with_chars(line, "#EXT-X-STREAM-INF:") {
            let tag = chars_of("#EXT-X-STREAM-INF:");
            let attributes = slice_subrange(line, tag.len(), line.len());
            assert(attributes@ =~= line@.skip("#EXT-X-STREAM-INF:"@.len() as int));
            pending = match parse_bandwidth(attributes) {
                Some(bandwidth) => Some(bandwidth),
                None => Some(0),
            };
        } else {
            let text_line = string_of(line);
            if same_text(text_line.as_str(), "#EXT-X-ENDLIST") {
                ended = true;
            } else if line[0] != '#' {
                let ghost held = entry_views(entries@);
                entries.push(PlaylistEntry { bandwidth: pending, line: text_line });
                assert(entry_views(entries@) =~= held.push((pending, line@)));
                pending = None;
            }
        }
        i = i + 1;
    }
    assert(all.take(i as int) =~= all);
    Ok(PlaylistScan { entries, ended })
}

/// What an entry that cannot be resolved is reported as.
pub open spec fn entry_error(line: Seq<char>, message: Seq<char>) -> Seq<char> {
    "invalid HLS entry "@ + line + ": "@ + message
}

/// The playlist that the entries make up once their addresses are resolved: the error of the
/// first entry that has none, else a master playlist if any entry names a rendition.
pub open spec fn assembled(
    entries: Seq<(Option<u64>, Seq<char>)>,
    ended: bool,
    resolved: Seq<std::result::Result<Seq<char>, Seq<char>>>,
) -> std::result::Result<PlaylistView, Seq<char>> {
    match collected(entries, resolved) {
        Err(message) => Err(message),
        Ok((variants, segments)) => if variants.len() == 0 {
            Ok(PlaylistView::Media { segments, ended })
        } else {
            Ok(PlaylistView::Master(variants))
        },
    }
}

/// The renditions and the segments among the entries.
pub open spec fn collected(
    entries: Seq<(Option<u64>, Seq<char>)>,
    resolved: Seq<std::result::Result<Seq<char>, Seq<char>>>,
) -> std::result::Result<(Seq<(u64, Seq<char>)>, Seq<Seq<char>>), Seq<char>>
    decreases entries.len(),
{
    if entries.len() == 0 {
        Ok((Seq::empty(), Seq::empty()))
    } else {
        match collected(entries.drop_last(), resolved) {
            Err(message) => Err(message),
            Ok((variants, segments)) => match resolved[entries.len() - 1] {
                Err(message) => Err(entry_error(entries.last().1, message)),
                Ok(url) => match entries.last().0 {
                    Some(bandwidth) => Ok((variants.push((bandwidth, url)), segments)),
                    None => Ok((variants, segments.push(url))),
                },
            },
        }
    }
}

pub open spec fn result_view(
    result: std::result::Result<String, String>,
) -> std::result::Result<Seq<char>, Seq<char>> {
    match result {
        Ok(url) => Ok(url@),
        Err(message) => Err(message@),
    }
}

pub open spec fn result_views(
    results: Seq<std::result::Result<String, String>>,
) -> Seq<std::result::Result<Seq<char>, Seq<char>>> {
    Seq::new(results.len(), |i: int| result_view(results[i]))
}

/// What a result of this module says: the playlist, or the text of a playback error.
pub open spec fn outcome(result: Result<Playlist>) -> std::result::Result<
    PlaylistView,
    Seq<char>,
> {
    match result {
        Ok(playlist) => Ok(playlist@),
        Err(error) => Err(error->Playback_0@),
    }
}

/// An error that stops at an earlier entry is the error of the whole list.
proof fn lemma_collected_error(
    entries: Seq<(Option<u64>, Seq<char>)>,
    resolved: Seq<std::result::Result<Seq<char>, Seq<char>>>,
    n: int,
)
    requires
        0 <= n <= entries.len(),
        collected(entries.take(n), resolved) is Err,
    ensures
        collected(entries, resolved) == collected(entries.take(n), resolved),
    decreases entries.len() - n,
{
    if n < entries.len() {
        assert(entries.take(n + 1).drop_last() =~= entries.take(n));
        lemma_collected_error(entries, resolved, n + 1);
    } else {
        assert(entries.take(n) =~= entries);
    }
}

/// Puts a playlist together from its entries and their resolved addresses.
pub fn assemble_playlist(
    scan: &PlaylistScan,
    resolved: &Vec<std::result::Result<String, String>>,
) -> (res: Result<Playlist>)
    requires
        resolved@.len() == scan.entries@.len(),
    ensures
        outcome(res) == assembled(entry_views(scan.entries@), scan.ended, result_views(resolved@)),
        res is Err ==> res->Err_0 is Playback,
{
    let mut variants: Vec<Variant> = Vec::new();
    let mut segments: Vec<String> = Vec::new();
    let ghost entries = entry_views(scan.entries@);
    let ghost urls = result_views(resolved@);
    let mut i: usize = 0;
    assert(entries.take(0) =~= Seq::<(Option<u64>, Seq<char>)>::empty());
    assert(variant_views(variants@) =~= Seq::<(u64, Seq<char>)>::empty());
    assert(string_views(segments@) =~= Seq::<Seq<char>>::empty());
    while i < scan.entries.len()
        invariant
            i <= scan.entries@.len() == resolved@.len(),
            entries == entry_views(scan.entries@),
            urls == result_views(resolved@),
            collected(entries.take(i as int), urls) == Ok::<
                (Seq<(u64, Seq<char>)>, Seq<Seq<char>>),
                Seq<char>,
            >((variant_views(variants@), string_views(segments@))),
        decreases scan.entries@.len() - i,
    {
        let entry = &scan.entries[i];
        proof {
            assert(entries.take(i + 1).drop_last() =~= entries.take(i as int));
            assert(entries.take(i + 1).last() == (entry.bandwidth, entry.line@));
            assert(urls[i as int] == result_view(resolved@[i as int]));
        }
        match &resolved[i] {
            Err(message) => {
                let mut text = prefixed("invalid HLS entry ", entry.line.as_str());
                text.append(": ");
                text.append(message.as_str());
                proof {
                    lemma_collected_error(entries, urls, i + 1);
                }
                return Err(AppError::Playback(text));
            },
            Ok(url) => match entry.bandwidth {
                Some(bandwidth) => {
                    let ghost held = variant_views(variants@);
                    variants.push(Variant { bandwidth, url: url.clone() });
                    assert(variant_views(variants@) =~= held.push((bandwidth, url@)));
                },
                None => {
                    let ghost held = string_views(segments@);
                    segments.push(url.clone());
                    assert(string_views(segments@) =~= held.push(url@));
                },
            },
        }
        i = i + 1;
    }
    assert(entries.take(i as int) =~= entries);
    if variants.len() == 0 {
        Ok(Playlist::Media(MediaPlaylist { segments, ended: scan.ended }))
    } else {
        Ok(Playlist::Master(variants))
    }
}

/// The addresses of the entries, resolved against `base`.
pub open spec fn resolved_entries(
    base: Seq<char>,
    entries: Seq<(Option<u64>, Seq<char>)>,
) -> Seq<std::result::Result<Seq<char>, Seq<char>>> {
    Seq::new(entries.len(), |i: int| joined_url(base, entries[i].1))
}

/// What the text of a playlist fetched from `base` says.
pub open spec fn playlist_of(text: Seq<char>, base: Seq<char>) -> std::result::Result<
    PlaylistView,
    Seq<char>,
> {
    if is_playlist(text) {
        let scan = scan_lines(playlist_lines(text));
        assembled(scan.entries, scan.ended, resolved_entries(base, scan.entries))
    } else {
        Err("server response is not an HLS playlist"@)
    }
}

/// Reads a playlist that was fetched from `base`.
pub fn parse_playlist(text: &str, base: &str) -> (res: Result<Playlist>)
    ensures
        outcome(res) == playlist_of(text@, base@),
        res is Err ==> res->Err_0 is Playback,
{
    let scan = match scan_playlist(text) {
        Ok(scan) => scan,
        Err(error) => {
            return Err(error);
        },
    };
    let ghost entries = entry_views(scan.entries@);
    let mut resolved: Vec<std::result::Result<String, String>> = Vec::new();
    let mut i: usize = 0;
    while i < scan.entries.len()
        invariant
            i <= scan.entries@.len(),
            entries == entry_views(scan.entries@),
            resolved@.len() == i,
            forall|k: int|
                0 <= k < i ==> result_view(#[trigger] resolved@[k]) == joined_url(
                    base@,
                    entries[k].1,
                ),
        decreases scan.entries@.len() - i,
    {
        resolved.push(join_url(base, scan.entries[i].line.as_str()));
        i = i + 1;
    }
    assert(result_views(resolved@) =~= resolved_entries(base@, entries));
    assemble_playlist(&scan, &resolved)
}

/// The distance between two bandwidths.
pub open spec fn distance(a: u64, b: u64) -> int {
    if a < b {
        b - a
    } else {
        a - b
    }
}

/// `best` is the index of the first variant whose bandwidth is closest to the target.
pub open spec fn is_closest(variants: Seq<(u64, Seq<char>)>, target: u64, best: int) -> bool {
    &&& 0 <= best < variants.len()
    &&& forall|j: int|
        0 <= j < variants.len() ==> distance(variants[best].0, target) <= distance(
            #[trigger] variants[j].0,
            target,
        )
    &&& forall|j: int|
        0 <= j < best ==> distance(variants[best].0, target) < distance(
            #[trigger] variants[j].0,
            target,
        )
}

/// The variant whose bandwidth is closest to the target, the first one of several.
pub open spec fn closest(variants: Seq<(u64, Seq<char>)>, target: u64) -> (u64, Seq<char>) {
    variants[choose|best: int| is_closest(variants, target, best)]
}

/// There is at most one first variant with the closest bandwidth.
proof fn lemma_closest(variants: Seq<(u64, Seq<char>)>, target: u64, best: int)
    requires
        is_closest(variants, target, best),
    ensures
        closest(variants, target) == variants[best],
{
    let chosen = choose|i: int| is_closest(variants, target, i);
    assert(is_closest(variants, target, chosen));
    assert(distance(variants[chosen].0, target) == distance(variants[best].0, target));
    if chosen < best {
        assert(distance(variants[best].0, target) < distance(variants[chosen].0, target));
    }
    if best < chosen {
        assert(distance(variants[chosen].0, target) < distance(variants[best].0, target));
    }
}

/// Picks the variant whose advertised bandwidth is closest to the target, the first one of
/// several.
pub fn select_variant(variants: Vec<Variant>, target_bandwidth: u64) -> (res: Option<Variant>)
    ensures
        res is None <==> variants@.len() == 0,
        res is Some ==> (res->0.bandwidth, res->0.url@) == closest(
            variant_views(variants@),
            target_bandwidth,
        ) && exists|best: int|
            is_closest(variant_views(variants@), target_bandwidth, best)
                && #[trigger] variants@[best] == res->0,
{
    if variants.len() == 0 {
        return None;
    }
    let ghost all = variant_views(variants@);
    let mut best: usize = 0;
    let mut i: usize = 1;
    while i < variants.len()
        invariant
            1 <= i <= variants@.len(),
            all == variant_views(variants@),
            best < i,
            is_closest(all.take(i as int), target_bandwidth, best as int),
        decreases variants@.len() - i,
    {
        let taken = abs_diff(variants[best].bandwidth, target_bandwidth);
        let other = abs_diff(variants[i].bandwidth, target_bandwidth);
        let ghost before = all.take(i as int);
        let ghost after = all.take(i + 1);
        assert(forall|j: int| 0 <= j < i ==> before[j] == after[j]);
        assert(all[i as int].0 == variants@[i as int].bandwidth);
        assert(all[best as int].0 == variants@[best as int].bandwidth);
        assert(taken == distance(before[best as int].0, target_bandwidth));
        if other < taken {
            assert(is_closest(after, target_bandwidth, i as int)) by {
                assert forall|j: int| 0 <= j < i implies distance(
                    after[i as int].0,
                    target_bandwidth,
                ) < distance(#[trigger] after[j].0, target_bandwidth) by {
                    assert(distance(before[best as int].0, target_bandwidth) <= distance(
                        before[j].0,
                        target_bandwidth,
                    ));
                }
            }
            best = i;
        } else {
            assert(is_closest(after, target_bandwidth, best as int)) by {
                assert forall|j: int| 0 <= j < after.len() implies distance(
                    after[best as int].0,
                    target_bandwidth,
                ) <= distance(#[trigger] after[j].0, target_bandwidth) by {
                    if j < i {
                        assert(distance(before[best as int].0, target_bandwidth) <= distance(
                            before[j].0,
                            target_bandwidth,
                        ));
                    }
                }
                assert forall|j: int| 0 <= j < best implies distance(
                    after[best as int].0,
                    target_bandwidth,
                ) < distance(#[trigger] after[j].0, target_bandwidth) by {
                    assert(distance(before[best as int].0, target_bandwidth) < distance(
                        before[j].0,
                        target_bandwidth,
                    ));
                }
            }
        }
        i = i + 1;
    }
    assert(all.take(i as int) =~= all);
    proof {
        lemma_closest(all, target_bandwidth, best as int);
    }
    let ghost listed = variants@;
    let mut variants = variants;
    let chosen = variants.swap_remove(best);
    assert(listed[best as int] == chosen);
    Some(chosen)
}

fn abs_diff(a: u64, b: u64) -> (res: u64)
    ensures
        res == distance(a, b),
{
    if a < b {
        b - a
    } else {
        a - b
    }
}

/// What is to be done next to fetch a stream.
#[derive(Debug)]
pub enum HlsAction {
    /// Fetch the playlist at this address.
    FetchPlaylist(String),
    /// Fetch the playlist at this address after [`PLAYLIST_POLL_INTERVAL_MILLIS`].
    WaitThenFetchPlaylist(String),
    /// Fetch the segment at this address.
    FetchSegment(String),
    /// Everything has been fetched.
    Finish,
    /// The stream cannot be played.
    Fail(AppError),
}

pub enum HlsActionView {
    FetchPlaylist(Seq<char>),
    WaitThenFetchPlaylist(Seq<char>),
    FetchSegment(Seq<char>),
    Finish,
    Fail(Seq<char>),
}

impl View for HlsAction {
    type V = HlsActionView;

    /// The action; of an error, the text of the playback error.
    open spec fn view(&self) -> HlsActionView {
        match self {
            HlsAction::FetchPlaylist(url) => HlsActionView::FetchPlaylist(url@),
            HlsAction::WaitThenFetchPlaylist(url) => HlsActionView::WaitThenFetchPlaylist(url@),
            HlsAction::FetchSegment(url) => HlsActionView::FetchSegment(url@),
            HlsAction::Finish => HlsActionView::Finish,
            HlsAction::Fail(error) => HlsActionView::Fail(error->Playback_0@),
        }
    }
}

impl HlsAction {
    /// Failures are playback errors.
    pub open spec fn wf(self) -> bool {
        self is Fail ==> self->Fail_0 is Playback
    }
}

/// How far a stream has been fetched.
#[derive(Debug)]
pub struct HlsStream {
    playlist_url: String,
    target_bandwidth: u64,
    variant_selected: bool,
    media: Option<MediaPlaylist>,
    demuxer: TsDemuxer,
    next_segment: usize,
    stalled_polls: u32,
    received_audio: bool,
}

pub struct HlsState {
    /// The address of the playlist that is fetched.
    pub playlist_url: Seq<char>,
    pub target_bandwidth: u64,
    /// Whether that address was taken from a master playlist.
    pub variant_selected: bool,
    /// The segments listed last, and whether the list is complete.
    pub media: Option<(Seq<Seq<char>>, bool)>,
    pub demuxer: TsDemuxer,
    /// The number of segments that were fetched.
    pub next_segment: nat,
    /// The number of consecutive polls that gave no new segment.
    pub stalled_polls: nat,
    /// Whether any audio was found.
    pub received_audio: bool,
}

impl HlsState {
    /// A stream of which nothing has been fetched.
    pub open spec fn start(url: Seq<char>, target_bandwidth: u64) -> HlsState {
        HlsState {
            playlist_url: url,
            target_bandwidth,
            variant_selected: false,
            media: None,
            demuxer: TsDemuxer { pmt_pid: None, audio_pid: None },
            next_segment: 0,
            stalled_polls: 0,
            received_audio: false,
        }
    }

    /// The segments listed last.
    pub open spec fn listed(self) -> Seq<Seq<char>> {
        match self.media {
            Some((segments, _)) => segments,
            None => Seq::empty(),
        }
    }

    /// Whether the list of segments is complete.
    pub open spec fn complete(self) -> bool {
        match self.media {
            Some((_, ended)) => ended,
            None => false,
        }
    }

    /// What follows from what has been fetched.
    pub open spec fn next(self) -> HlsActionView {
        match self.media {
            None => HlsActionView::FetchPlaylist(self.playlist_url),
            Some((segments, ended)) => if self.next_segment < segments.len() {
                HlsActionView::FetchSegment(segments[self.next_segment as int])
            } else if !ended {
                HlsActionView::WaitThenFetchPlaylist(self.playlist_url)
            } else if self.received_audio {
                HlsActionView::Finish
            } else {
                HlsActionView::Fail("HLS stream contained no audio data"@)
            },
        }
    }

    /// Whether a refreshed playlist brings nothing: no segment that was not fetched, and no end.
    pub open spec fn idle(self, playlist: PlaylistView) -> bool {
        match playlist {
            PlaylistView::Master(_) => false,
            PlaylistView::Media { segments, ended } => segments.len() <= self.next_segment
                && !ended,
        }
    }

    /// The state and the next action after a playlist was fetched.
    pub open spec fn playlist(self, playlist: PlaylistView) -> (HlsState, HlsActionView) {
        match (self.media, playlist) {
            (None, PlaylistView::Master(variants)) => if self.variant_selected {
                (
                    self,
                    HlsActionView::Fail("HLS master playlist nested another master playlist"@),
                )
            } else if variants.len() == 0 {
                (self, HlsActionView::Fail("HLS master playlist has no variants"@))
            } else {
                let url = closest(variants, self.target_bandwidth).1;
                (
                    HlsState { playlist_url: url, variant_selected: true, ..self },
                    HlsActionView::FetchPlaylist(url),
                )
            },
            (None, PlaylistView::Media { segments, ended }) => {
                let fetched = HlsState { media: Some((segments, ended)), ..self };
                (fetched, fetched.next())
            },
            (Some(_), PlaylistView::Master(_)) => (
                self,
                HlsActionView::Fail("HLS media playlist turned into a master playlist"@),
            ),
            (Some(_), PlaylistView::Media { segments, ended }) => {
                if self.idle(playlist) && self.stalled_polls + 1 >= MAX_STALLED_POLLS {
                    (
                        self,
                        HlsActionView::Fail(
                            "HLS stream stalled: server stopped producing segments"@,
                        ),
                    )
                } else {
                    let refreshed = HlsState {
                        media: Some((segments, ended)),
                        stalled_polls: if self.idle(playlist) {
                            self.stalled_polls + 1
                        } else {
                            self.stalled_polls
                        },
                        ..self
                    };
                    (refreshed, refreshed.next())
                }
            },
        }
    }

    /// The state and the next action after the text of a playlist was fetched.
    pub open spec fn text(self, text: Seq<char>) -> (HlsState, HlsActionView) {
        match playlist_of(text, self.playlist_url) {
            Ok(playlist) => self.playlist(playlist),
            Err(message) => (self, HlsActionView::Fail(message)),
        }
    }

    /// The state after the segment that was asked for was fetched.
    pub open spec fn segment(self, bytes: Seq<u8>) -> HlsState {
        let (demuxer, audio) = self.demuxer.after_segment(bytes);
        HlsState {
            demuxer,
            next_segment: self.next_segment + 1,
            stalled_polls: 0,
            received_audio: self.received_audio || audio.len() > 0,
            ..self
        }
    }

    /// The state and the last action after several playlists were fetched in turn.
    pub open spec fn polls(self, playlists: Seq<PlaylistView>) -> (HlsState, HlsActionView)
        decreases playlists.len(),
    {
        if playlists.len() == 0 {
            (self, self.next())
        } else {
            self.polls(playlists.drop_last()).0.playlist(playlists.last())
        }
    }
}

impl View for HlsStream {
    type V = HlsState;

    closed spec fn view(&self) -> HlsState {
        HlsState {
            playlist_url: self.playlist_url@,
            target_bandwidth: self.target_bandwidth,
            variant_selected: self.variant_selected,
            media: match self.media {
                Some(media) => Some((string_views(media.segments@), media.ended)),
                None => None,
            },
            demuxer: self.demuxer,
            next_segment: self.next_segment as nat,
            stalled_polls: self.stalled_polls as nat,
            received_audio: self.received_audio,
        }
    }
}

impl HlsStream {
    /// A stream is given up before it stalls for too long.
    pub closed spec fn wf(self) -> bool {
        self.stalled_polls < MAX_STALLED_POLLS
    }

    /// Begins to fetch the stream at `url`.
    pub fn begin(url: &str, target_bandwidth: u64) -> (res: Result<HlsStream>)
        ensures
            match (res, parsed_url(url@)) {
                (Ok(stream), Ok(parsed)) => stream.wf() && stream@ == HlsState::start(
                    parsed,
                    target_bandwidth,
                ),
                (Err(error), Err(message)) => error is Playback && error->Playback_0@
                    == "invalid HLS url: "@ + message,
                _ => false,
            },
    {
        HlsStream::begin_at(parse_url(url), target_bandwidth)
    }

    /// Begins to fetch the stream at an address that was parsed.
    pub fn begin_at(
        parsed: std::result::Result<String, String>,
        target_bandwidth: u64,
    ) -> (res: Result<HlsStream>)
        ensures
            match (res, parsed) {
                (Ok(stream), Ok(url)) => stream.wf() && stream@ == HlsState::start(
                    url@,
                    target_bandwidth,
                ),
                (Err(error), Err(message)) => error is Playback && error->Playback_0@
                    == "invalid HLS url: "@ + message@,
                _ => false,
            },
    {
        match parsed {
            Ok(playlist_url) => Ok(
                HlsStream {
                    playlist_url,
                    target_bandwidth,
                    variant_selected: false,
                    media: None,
                    demuxer: TsDemuxer::default(),
                    next_segment: 0,
                    stalled_polls: 0,
                    received_audio: false,
                },
            ),
            Err(message) => Err(
                AppError::Playback(prefixed("invalid HLS url: ", message.as_str())),
            ),
        }
    }

    /// What is to be done next.
    pub fn next_action(&self) -> (res: HlsAction)
        ensures
            res.wf(),
            res@ == self@.next(),
    {
        match &self.media {
            None => HlsAction::FetchPlaylist(self.playlist_url.clone()),
            Some(media) => {
                if self.next_segment < media.segments.len() {
                    HlsAction::FetchSegment(media.segments[self.next_segment].clone())
                } else if !media.ended {
                    HlsAction::WaitThenFetchPlaylist(self.playlist_url.clone())
                } else if self.received_audio {
                    HlsAction::Finish
                } else {
                    HlsAction::Fail(
                        AppError::Playback("HLS stream contained no audio data".to_owned()),
                    )
                }
            },
        }
    }

    /// Takes the text of a fetched playlist into account.
    pub fn on_playlist(&mut self, text: &str) -> (res: HlsAction)
        requires
            old(self).wf(),
        ensures
            final(self).wf(),
            res.wf(),
            (final(self)@, res@) == old(self)@.text(text@),
    {
        match parse_playlist(text, self.playlist_url.as_str()) {
            Ok(playlist) => self.accept_playlist(playlist),
            Err(error) => HlsAction::Fail(error),
        }
    }

    /// Takes a fetched playlist into account.
    pub fn accept_playlist(&mut self, playlist: Playlist) -> (res: HlsAction)
        requires
            old(self).wf(),
        ensures
            final(self).wf(),
            res.wf(),
            (final(self)@, res@) == old(self)@.playlist(playlist@),
    {
        let polled = self.media.is_some();
        match playlist {
            Playlist::Master(variants) => {
                if polled {
                    return HlsAction::Fail(
                        AppError::Playback(
                            "HLS media playlist turned into a master playlist".to_owned(),
                        ),
                    );
                }
                if self.variant_selected {
                    return HlsAction::Fail(
                        AppError::Playback(
                            "HLS master playlist nested another master playlist".to_owned(),
                        ),
                    );
                }
                match select_variant(variants, self.target_bandwidth) {
                    None => HlsAction::Fail(
                        AppError::Playback("HLS master playlist has no variants".to_owned()),
                    ),
                    Some(variant) => {
                        let url = variant.url;
                        self.playlist_url = url.clone();
                        self.variant_selected = true;
                        HlsAction::FetchPlaylist(url)
                    },
                }
            },
            Playlist::Media(media) => {
                if polled && media.segments.len() <= self.next_segment && !media.ended {
                    if self.stalled_polls + 1 >= MAX_STALLED_POLLS {
                        return HlsAction::Fail(
                            AppError::Playback(
                                "HLS stream stalled: server stopped producing segments".to_owned(),
                            ),
                        );
                    }
                    self.stalled_polls = self.stalled_polls + 1;
                }
                self.media = Some(media);
                self.next_action()
            },
        }
    }

    /// Takes the segment that was asked for into account. Gives the audio found in it.
    pub fn on_segment(&mut self, bytes: &[u8]) -> (res: (Vec<u8>, HlsAction))
        requires
            old(self).wf(),
            old(self)@.next() is FetchSegment,
        ensures
            final(self).wf(),
            final(self)@ == old(self)@.segment(bytes@),
            res.0@ == old(self)@.demuxer.after_segment(bytes@).1,
            res.1.wf(),
            res.1@ == final(self)@.next(),
    {
        let mut audio: Vec<u8> = Vec::new();
        self.demuxer.extract_audio(bytes, &mut audio);
        assert(audio@ =~= old(self)@.demuxer.after_segment(bytes@).1);
        if audio.len() > 0 {
            self.received_audio = true;
        }
        proof {
            assert(self.next_segment < self.media->0.segments@.len());
        }
        let listed: usize = match &self.media {
            Some(media) => media.segments.len(),
            None => 0,
        };
        assert(self.next_segment < listed);
        self.next_segment = self.next_segment + 1;
        self.stalled_polls = 0;
        let action = self.next_action();
        (audio, action)
    }
}

/// A stream whose server stops producing segments is given up after [`MAX_STALLED_POLLS`] polls,
/// and not before: until then the playlist is polled again.
pub proof fn law_stalled_stream_fails(state: HlsState, playlists: Seq<PlaylistView>)
    requires
        state.media is Some,
        state.stalled_polls == 0,
        state.next() is WaitThenFetchPlaylist,
        playlists.len() <= MAX_STALLED_POLLS,
        forall|i: int| 0 <= i < playlists.len() ==> state.idle(#[trigger] playlists[i]),
    ensures
        playlists.len() < MAX_STALLED_POLLS ==> state.polls(playlists).1
            == HlsActionView::WaitThenFetchPlaylist(state.playlist_url),
        playlists.len() == MAX_STALLED_POLLS ==> state.polls(playlists).1 == HlsActionView::Fail(
            "HLS stream stalled: server stopped producing segments"@,
        ),
{
    lemma_idle_polls(state, playlists);
}

proof fn lemma_idle_polls(state: HlsState, playlists: Seq<PlaylistView>)
    requires
        state.media is Some,
        state.stalled_polls == 0,
        state.next() is WaitThenFetchPlaylist,
        playlists.len() <= MAX_STALLED_POLLS,
        forall|i: int| 0 <= i < playlists.len() ==> state.idle(#[trigger] playlists[i]),
    ensures
        ({
            let (after, action) = state.polls(playlists);
            &&& after.media is Some
            &&& after.next_segment == state.next_segment
            &&& after.playlist_url == state.playlist_url
            &&& playlists.len() < MAX_STALLED_POLLS ==> after.stalled_polls == playlists.len()
                && action == HlsActionView::WaitThenFetchPlaylist(state.playlist_url)
            &&& playlists.len() == MAX_STALLED_POLLS ==> action == HlsActionView::Fail(
                "HLS stream stalled: server stopped producing segments"@,
            )
        }),
    decreases playlists.len(),
{
    if playlists.len() > 0 {
        let before = playlists.drop_last();
        assert forall|i: int| 0 <= i < before.len() implies state.idle(#[trigger] before[i]) by {
            assert(before[i] == playlists[i]);
        }
        lemma_idle_polls(state, before);
        let last = playlists[playlists.len() - 1];
        assert(state.idle(last));
        assert(state.polls(before).0.idle(last));
    }
}

/// A stream is finished only when its playlist is complete, every segment listed in it was
/// fetched, and audio was found.
pub proof fn law_finished_stream_is_complete(state: HlsState)
    requires
        state.next() is Finish,
    ensures
        state.media is Some,
        state.complete(),
        state.next_segment >= state.listed().len(),
        state.received_audio,
{
}

/// Segments are fetched in the order in which they are listed, each of them once: after one
/// segment the next one in the list is asked for.
pub proof fn law_segments_are_fetched_in_order(state: HlsState, bytes: Seq<u8>)
    requires
        state.next() is FetchSegment,
    ensures
        state.next()->FetchSegment_0 == state.listed()[state.next_segment as int],
        state.segment(bytes).media == state.media,
        state.next_segment + 1 < state.listed().len() ==> state.segment(bytes).next()
            == HlsActionView::FetchSegment(state.listed()[state.next_segment as int + 1]),
        state.next_segment + 1 == state.listed().len() ==> !(state.segment(
            bytes,
        ).next() is FetchSegment),
{
}

/// A master playlist leads to segments: a second one in their place fails.
pub proof fn law_at_most_one_master_playlist(
    state: HlsState,
    first: Seq<(u64, Seq<char>)>,
    second: Seq<(u64, Seq<char>)>,
)
    requires
        state.media is None,
        first.len() > 0,
    ensures
        state.playlist(PlaylistView::Master(first)).0.playlist(PlaylistView::Master(second)).1
            == HlsActionView::Fail("HLS master playlist nested another master playlist"@),
{
}

/// What was fetched.
pub enum Fetched {
    Playlist(PlaylistView),
    Segment(Seq<u8>),
}

/// What was fetched is what the action asked for.
pub open spec fn answers(action: HlsActionView, item: Fetched) -> bool {
    match item {
        Fetched::Playlist(_) => action is FetchPlaylist || action is WaitThenFetchPlaylist,
        Fetched::Segment(_) => action is FetchSegment,
    }
}

/// The segments among what was fetched, in order.
pub open spec fn segments_of(items: Seq<Fetched>) -> Seq<Seq<u8>>
    decreases items.len(),
{
    if items.len() == 0 {
        Seq::empty()
    } else {
        let before = segments_of(items.drop_last());
        match items.last() {
            Fetched::Segment(bytes) => before.push(bytes),
            Fetched::Playlist(_) => before,
        }
    }
}

/// The demuxer after several segments in order, and the audio of all of them, put together.
pub open spec fn demuxed(demuxer: TsDemuxer, segments: Seq<Seq<u8>>) -> (TsDemuxer, Seq<u8>)
    decreases segments.len(),
{
    if segments.len() == 0 {
        (demuxer, Seq::empty())
    } else {
        let (between, head) = demuxed(demuxer, segments.drop_last());
        let (after, tail) = between.after_segment(segments.last());
        (after, head + tail)
    }
}

impl HlsState {
    /// The state and the next action after something was fetched.
    pub open spec fn fetched(self, item: Fetched) -> (HlsState, HlsActionView) {
        match item {
            Fetched::Playlist(playlist) => self.playlist(playlist),
            Fetched::Segment(bytes) => (self.segment(bytes), self.segment(bytes).next()),
        }
    }

    /// The state and the next action after playlists and segments were fetched in turn.
    pub open spec fn run(self, items: Seq<Fetched>) -> (HlsState, HlsActionView)
        decreases items.len(),
    {
        if items.len() == 0 {
            (self, self.next())
        } else {
            self.run(items.drop_last()).0.fetched(items.last())
        }
    }

    /// Each of them is what the action before it asked for.
    pub open spec fn obeyed(self, items: Seq<Fetched>) -> bool
        decreases items.len(),
    {
        items.len() == 0 || self.obeyed(items.drop_last()) && answers(
            self.run(items.drop_last()).1,
            items.last(),
        )
    }

    /// The addresses of the segments that were asked for, in order.
    pub open spec fn asked(self, items: Seq<Fetched>) -> Seq<Seq<char>>
        decreases items.len(),
    {
        if items.len() == 0 {
            Seq::empty()
        } else {
            let before = self.asked(items.drop_last());
            match (items.last(), self.run(items.drop_last()).1) {
                (Fetched::Segment(_), HlsActionView::FetchSegment(url)) => before.push(url),
                _ => before,
            }
        }
    }

    /// The audio that was handed out, put together in order.
    pub open spec fn audio(self, items: Seq<Fetched>) -> Seq<u8>
        decreases items.len(),
    {
        if items.len() == 0 {
            Seq::empty()
        } else {
            let before = self.audio(items.drop_last());
            match items.last() {
                Fetched::Segment(bytes) => before + self.run(
                    items.drop_last(),
                ).0.demuxer.after_segment(bytes).1,
                Fetched::Playlist(_) => before,
            }
        }
    }

    /// A refreshed playlist begins with the segments that were listed before.
    pub open spec fn grows(self, items: Seq<Fetched>) -> bool
        decreases items.len(),
    {
        items.len() == 0 || self.grows(items.drop_last()) && match items.last() {
            Fetched::Playlist(PlaylistView::Media { segments, .. }) => self.run(
                items.drop_last(),
            ).0.listed().is_prefix_of(segments),
            _ => true,
        }
    }
}

/// What a run has handed out and asked for, at every point of it.
proof fn lemma_run(start: HlsState, items: Seq<Fetched>)
    requires
        start.media is None,
        start.next_segment == 0,
        !start.received_audio,
        start.obeyed(items),
    ensures
        ({
            let (state, action) = start.run(items);
            let segments = segments_of(items);
            &&& action is Fail || action == state.next()
            &&& state.demuxer == demuxed(start.demuxer, segments).0
            &&& start.audio(items) == demuxed(start.demuxer, segments).1
            &&& state.received_audio <==> start.audio(items).len() > 0
            &&& state.next_segment == segments.len()
            &&& start.asked(items).len() == segments.len()
            &&& start.grows(items) ==> state.next_segment <= state.listed().len()
                && start.asked(items) == state.listed().take(state.next_segment as int)
        }),
    decreases items.len(),
{
    if items.len() == 0 {
        assert(start.listed().take(0) =~= Seq::<Seq<char>>::empty());
    } else {
        let before = items.drop_last();
        lemma_run(start, before);
        let state = start.run(before).0;
        let after = start.run(items).0;
        let count = state.next_segment as int;
        match items.last() {
            Fetched::Segment(bytes) => {
                assert(segments_of(items).drop_last() =~= segments_of(before));
                assert(start.run(before).1 == state.next());
                if start.grows(items) {
                    assert(state.listed().take(count + 1) =~= state.listed().take(count).push(
                        state.listed()[count],
                    ));
                }
            },
            Fetched::Playlist(playlist) => {
                if start.grows(items) && after.listed() != state.listed() {
                    assert(after.listed().take(count) =~= state.listed().take(count));
                }
            },
        }
    }
}

/// A transfer is whole. Where a stream is fetched from its address on, each time what was asked
/// for, and comes to its end, the audio handed out is the audio of every fetched segment, in the
/// order in which they were fetched, and there is some. Where refreshed playlists only ever list
/// more segments behind those listed before, the segments fetched are those of the last playlist,
/// each of them once and in its order.
pub proof fn law_finished_transfer_is_whole(
    url: Seq<char>,
    target_bandwidth: u64,
    items: Seq<Fetched>,
)
    requires
        HlsState::start(url, target_bandwidth).obeyed(items),
        HlsState::start(url, target_bandwidth).run(items).1 is Finish,
    ensures
        ({
            let start = HlsState::start(url, target_bandwidth);
            let state = start.run(items).0;
            let segments = segments_of(items);
            &&& state.complete()
            &&& start.audio(items) == demuxed(start.demuxer, segments).1
            &&& start.audio(items).len() > 0
            &&& segments.len() == start.asked(items).len()
            &&& segments.len() >= state.listed().len()
            &&& start.grows(items) ==> start.asked(items) == state.listed()
        }),
{
    let start = HlsState::start(url, target_bandwidth);
    lemma_run(start, items);
    let state = start.run(items).0;
    assert(state.listed().take(state.listed().len() as int) =~= state.listed());
}

} // verus!
