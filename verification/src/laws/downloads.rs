//! Where downloads are kept, and what is known of them.

use vstd::prelude::*;

use crate::downloads::{
    download_path, extension_of, found_tracks, law_sanitized_component_is_safe, masked,
    reserved, running_tasks, sanitized, shortened, tidied, DownloadStatus, DownloadTask,
    DownloadsView,
};
use crate::laws::library::{known_album, known_artist};
use crate::laws::text::{law_splitting_is_undone_by_joining, law_written_numbers_are_read_back};
use crate::library::{LibraryView, TrackView};
use crate::text::{
    ascii_lowercase, ascii_uppercase, contains_text, control, decimal, decimal2, join, nonempty,
    parsed_u64, split, trim_end, trim_start, white_space, words, CharSet,
};

verus! {

/// A character that must not stand in a file name on some platform.
pub open spec fn unfit(c: char) -> bool {
    control(c) || c == '<' || c == '>' || c == ':' || c == '"' || c == '/' || c == '\\' || c == '|'
        || c == '?' || c == '*'
}

/// A component is never empty or longer than 120 characters, holds none of the characters that a
/// platform forbids, neither begins nor ends with a blank or a full stop, and is none of the names
/// that a platform keeps for devices, in whatever letter case.
pub proof fn law_components_fit_every_platform(s: Seq<char>, d: char)
    ensures
        ({
            let r = sanitized(s);
            let upper = ascii_uppercase(r);
            &&& 0 < r.len() <= 120
            &&& forall|i: int| 0 <= i < r.len() ==> !unfit(#[trigger] r[i])
            &&& r[0] != ' ' && r[0] != '.'
            &&& r.last() != ' ' && r.last() != '.'
            &&& upper != seq!['C', 'O', 'N']
            &&& upper != seq!['P', 'R', 'N']
            &&& upper != seq!['A', 'U', 'X']
            &&& upper != seq!['N', 'U', 'L']
            &&& '1' <= d <= '9' ==> upper != seq!['C', 'O', 'M', d]
            &&& '1' <= d <= '9' ==> upper != seq!['L', 'P', 'T', d]
        }),
{
    law_sanitized_component_is_safe(s);
    let r = sanitized(s);
    assert forall|i: int| 0 <= i < r.len() implies !unfit(#[trigger] r[i]) by {
        assert(!crate::downloads::forbidden(r[i]));
    }
    let upper = ascii_uppercase(r);
    if '1' <= d <= '9' {
        let com = seq!['C', 'O', 'M', d];
        let lpt = seq!['L', 'P', 'T', d];
        assert(com.take(3) =~= seq!['C', 'O', 'M']);
        assert(lpt.take(3) =~= seq!['L', 'P', 'T']);
        assert(com[3] == d && lpt[3] == d);
    }
}

/// A name in words with single blanks between them, without blanks or full stops at its ends.
pub open spec fn tidy(s: Seq<char>) -> bool {
    &&& s.len() > 0
    &&& s[0] != ' ' && s[0] != '.'
    &&& s.last() != ' ' && s.last() != '.'
    &&& forall|i: int| 0 <= i < s.len() ==> (white_space(#[trigger] s[i]) ==> s[i] == ' ')
    &&& forall|i: int, j: int|
        0 <= i && i + 1 == j && j < s.len() ==> !(#[trigger] s[i] == ' ' && #[trigger] s[j] == ' ')
}

/// Without neighbouring blanks only the part that has just begun may be empty.
proof fn lemma_parts_not_empty(s: Seq<char>)
    requires
        s.len() > 0,
        !white_space(s[0]),
        forall|i: int, j: int|
            0 <= i && i + 1 == j && j < s.len() ==> !(white_space(#[trigger] s[i]) && white_space(
                #[trigger] s[j],
            )),
    ensures
        ({
            let parts = split(s, CharSet::WhiteSpace);
            &&& parts.len() > 0
            &&& forall|i: int| 0 <= i < parts.len() - 1 ==> (#[trigger] parts[i]).len() > 0
            &&& parts.last().len() == 0 <==> white_space(s.last())
        }),
    decreases s.len(),
{
    let set = CharSet::WhiteSpace;
    let parts = split(s, set);
    let front = s.drop_last();
    let before = split(front, set);
    if s.len() == 1 {
        assert(before == seq![Seq::<char>::empty()]);
        assert(parts.len() == 1);
    } else {
        assert forall|i: int, j: int|
            0 <= i && i + 1 == j && j < front.len() implies !(white_space(#[trigger] front[i])
            && white_space(#[trigger] front[j])) by {
            assert(front[i] == s[i] && front[j] == s[j]);
        }
        lemma_parts_not_empty(front);
        let n = s.len() as int;
        assert(!(white_space(s[n - 2]) && white_space(s[n - 1])));
        assert(front.last() == s[n - 2]);
        assert forall|i: int| 0 <= i < parts.len() - 1 implies (#[trigger] parts[i]).len() > 0 by {
            assert(parts[i] == before[i]);
        }
    }
}

proof fn lemma_nonempty_keeps(parts: Seq<Seq<char>>)
    requires
        forall|i: int| 0 <= i < parts.len() ==> (#[trigger] parts[i]).len() > 0,
    ensures
        nonempty(parts) == parts,
    decreases parts.len(),
{
    if parts.len() > 0 {
        let before = parts.drop_last();
        assert forall|i: int| 0 <= i < before.len() implies (#[trigger] before[i]).len() > 0 by {
            assert(before[i] == parts[i]);
        }
        lemma_nonempty_keeps(before);
        assert(parts[parts.len() - 1].len() > 0);
        assert(before.push(parts.last()) =~= parts);
    } else {
        assert(nonempty(parts) =~= parts);
    }
}

proof fn lemma_tidy_is_kept(s: Seq<char>)
    requires
        tidy(s),
    ensures
        tidied(s) == s,
{
    let set = CharSet::WhiteSpace;
    assert(!white_space(s[0]) && !white_space(s[s.len() - 1]));
    assert forall|i: int, j: int| 0 <= i && i + 1 == j && j < s.len() implies !(white_space(
        #[trigger] s[i],
    ) && white_space(#[trigger] s[j])) by {
        assert(!(s[i] == ' ' && s[j] == ' '));
    }
    lemma_parts_not_empty(s);
    let parts = split(s, set);
    assert forall|i: int| 0 <= i < parts.len() implies (#[trigger] parts[i]).len() > 0 by {
        if i == parts.len() - 1 {
            assert(parts.last().len() > 0);
        }
    }
    lemma_nonempty_keeps(parts);
    assert forall|i: int| 0 <= i < s.len() implies (set.spec_has(#[trigger] s[i]) <==> s[i]
        == ' ') by {
        assert(white_space(s[i]) ==> s[i] == ' ');
    }
    law_splitting_is_undone_by_joining(s, set, ' ');
    assert(join(words(s), seq![' ']) == s);
    assert(trim_start(s, CharSet::SpaceOrDot) == s);
    assert(trim_end(s, CharSet::SpaceOrDot) == s);
}

/// A name that is fit as it is stays as it is, but for the characters that a platform forbids, each
/// of which becomes an underscore in its place. So a component is its own component.
pub proof fn law_fit_names_are_kept(s: Seq<char>, r: Seq<char>)
    requires
        r.len() == s.len() <= 120,
        forall|i: int|
            0 <= i < s.len() ==> #[trigger] r[i] == (if unfit(s[i]) {
                '_'
            } else {
                s[i]
            }),
        tidy(r),
        !reserved(r),
    ensures
        sanitized(s) == r,
{
    assert forall|i: int| 0 <= i < s.len() implies masked(s)[i] == r[i] by {
        assert(r[i] == (if unfit(s[i]) {
            '_'
        } else {
            s[i]
        }));
    }
    assert(masked(s) =~= r);
    lemma_tidy_is_kept(r);
    assert(trim_end(r, CharSet::SpaceOrDot) == r);
    assert(shortened(r) == r);
}

/// A name that a platform keeps for devices gets an underscore behind it.
pub proof fn law_device_names_are_marked(s: Seq<char>)
    requires
        ({
            let upper = ascii_uppercase(s);
            ||| upper == seq!['C', 'O', 'N']
            ||| upper == seq!['P', 'R', 'N']
            ||| upper == seq!['A', 'U', 'X']
            ||| upper == seq!['N', 'U', 'L']
            ||| exists|d: char|
                '1' <= d <= '9' && (#[trigger] seq!['C', 'O', 'M', d] == upper || seq![
                    'L',
                    'P',
                    'T',
                    d,
                ] == upper)
        }),
    ensures
        sanitized(s) == s.push('_'),
{
    let upper = ascii_uppercase(s);
    if upper.len() == 4 {
        let d = choose|d: char|
            '1' <= d <= '9' && (#[trigger] seq!['C', 'O', 'M', d] == upper || seq![
                'L',
                'P',
                'T',
                d,
            ] == upper);
        assert(upper.take(3) =~= seq!['C', 'O', 'M'] || upper.take(3) =~= seq!['L', 'P', 'T']);
        assert(upper[3] == d);
    }
    assert(reserved(s));
    assert forall|i: int| 0 <= i < s.len() implies 48 <= #[trigger] s[i] as u32 <= 122 && s[i]
        != ':' && s[i] != '<' && s[i] != '>' && s[i] != '?' && s[i] != '\\' by {
        assert(upper[i] == crate::text::ascii_upper(s[i]));
        assert('1' <= upper[i] <= '9' || 'A' <= upper[i] <= 'Z');
    }
    assert(masked(s) =~= s);
    assert(tidy(s)) by {
        assert(s[0] != ' ' && s[s.len() - 1] != ' ');
        assert forall|i: int, j: int| 0 <= i && i + 1 == j && j < s.len() implies !(#[trigger] s[i]
            == ' ' && #[trigger] s[j] == ' ') by {}
    }
    lemma_tidy_is_kept(s);
    assert(trim_end(s, CharSet::SpaceOrDot) == s);
}

/// A download lies in a directory of its artist and in it in one of its album. The file is named by
/// the title and the kind of the file. The number of the track stands before it, in at least two
/// digits, wherever the track has one.
pub proof fn law_files_are_named_by_number_and_title(library: LibraryView, track: TrackView)
    ensures
        ({
            let path = download_path(library, track);
            let name = sanitized(track.title) + "."@ + extension_of(track.mime_type);
            let number = path.file_name.take(path.file_name.len() - 3 - name.len());
            &&& path.artist == sanitized(known_artist(library, track.artist_id))
            &&& path.album == sanitized(known_album(library, track.album_id))
            &&& track.track <= 0 ==> path.file_name == name
            &&& track.track > 0 ==> {
                &&& path.file_name == number + " - "@ + name
                &&& number.len() >= 2
                &&& forall|i: int| 0 <= i < number.len() ==> '0' <= #[trigger] number[i] <= '9'
                &&& parsed_u64(number) == Some(track.track as u64)
                &&& track.track < 10 ==> number == seq!['0'] + decimal(track.track as nat)
                &&& track.track >= 10 ==> number == decimal(track.track as nat)
            }
        }),
{
    reveal_strlit(" - ");
    if track.track > 0 {
        let n = track.track as u64;
        let path = download_path(library, track);
        let name = sanitized(track.title) + "."@ + extension_of(track.mime_type);
        let number = decimal2(n as nat);
        law_written_numbers_are_read_back(n, 0);
        assert(path.file_name == number + " - "@ + name);
        assert(path.file_name.take(path.file_name.len() - 3 - name.len()) =~= number);
        assert forall|i: int| 0 <= i < number.len() implies '0' <= #[trigger] number[i] <= '9' by {
            let plain = decimal(n as nat);
            if n < 10 {
                if i == 1 {
                    assert(number[1] == plain[0]);
                }
            } else {
                assert(number[i] == plain[i]);
            }
        }
    }
}

/// Tracks with different numbers have different files, whatever their titles and kinds are.
pub proof fn law_numbers_tell_files_apart(library: LibraryView, a: TrackView, b: TrackView)
    requires
        a.track != b.track,
        a.track > 0,
        b.track > 0,
    ensures
        download_path(library, a).file_name != download_path(library, b).file_name,
{
    law_files_are_named_by_number_and_title(library, a);
    law_files_are_named_by_number_and_title(library, b);
    reveal_strlit(" - ");
    let first = download_path(library, a).file_name;
    let second = download_path(library, b).file_name;
    let i = first.len() - 3 - (sanitized(a.title) + "."@ + extension_of(a.mime_type)).len();
    let j = second.len() - 3 - (sanitized(b.title) + "."@ + extension_of(b.mime_type)).len();
    assert(first[i] == ' ' && second[j] == ' ');
    if first == second {
        if i < j {
            assert(second.take(j)[i] == first[i]);
        } else if j < i {
            assert(first.take(i)[j] == second[j]);
        }
        assert(first.take(i) == second.take(j));
    }
}

/// The ending of a file tells its kind, whatever the letter case of the media type: FLAC comes
/// first, then the MP4 family, then Ogg and Opus, then WAV, then MP3; anything else is `audio`.
pub proof fn law_endings_tell_the_kind(mime: Seq<char>)
    ensures
        ({
            let lower = ascii_lowercase(mime);
            let flac = contains_text(lower, "flac"@);
            let m4a = contains_text(lower, "mp4"@) || contains_text(lower, "m4a"@)
                || contains_text(lower, "aac"@);
            let ogg = contains_text(lower, "ogg"@) || contains_text(lower, "opus"@);
            let wav = contains_text(lower, "wav"@);
            let mp3 = contains_text(lower, "mpeg"@) || contains_text(lower, "mp3"@);
            &&& flac ==> extension_of(mime) == "flac"@
            &&& m4a && !flac ==> extension_of(mime) == "m4a"@
            &&& ogg && !flac && !m4a ==> extension_of(mime) == "ogg"@
            &&& wav && !flac && !m4a && !ogg ==> extension_of(mime) == "wav"@
            &&& mp3 && !flac && !m4a && !ogg && !wav ==> extension_of(mime) == "mp3"@
            &&& !flac && !m4a && !ogg && !wav && !mp3 ==> extension_of(mime) == "audio"@
        }),
        extension_of(ascii_uppercase(mime)) == extension_of(mime),
{
    assert(ascii_lowercase(ascii_uppercase(mime)) =~= ascii_lowercase(mime));
}

/// After a scan exactly the tracks are local whose file was found.
pub proof fn law_scans_find_what_is_there(scanned: Seq<(u64, bool)>, id: u64)
    ensures
        found_tracks(scanned).contains(id) <==> exists|i: int|
            0 <= i < scanned.len() && #[trigger] scanned[i] == (id, true),
    decreases scanned.len(),
{
    if scanned.len() > 0 {
        let before = scanned.drop_last();
        let last = scanned.len() - 1;
        law_scans_find_what_is_there(before, id);
        if exists|i: int| 0 <= i < before.len() && #[trigger] before[i] == (id, true) {
            let i = choose|i: int| 0 <= i < before.len() && #[trigger] before[i] == (id, true);
            assert(scanned[i] == (id, true));
        }
        if exists|i: int| 0 <= i < scanned.len() && #[trigger] scanned[i] == (id, true) {
            let i = choose|i: int| 0 <= i < scanned.len() && #[trigger] scanned[i] == (id, true);
            if i < last {
                assert(before[i] == (id, true));
            }
        }
        if scanned[last].1 && scanned[last].0 == id {
            assert(scanned[last] == (id, true));
        }
    }
}

/// A download that begins is one more that runs, gets a number of its own, and does not make its
/// track local; it touches no other.
pub proof fn law_downloads_begin(downloads: DownloadsView, track_id: u64)
    requires
        downloads.wf(),
        downloads.next_id < u64::MAX,
    ensures
        ({
            let after = downloads.begun(track_id);
            &&& running_tasks(after.tasks) == running_tasks(downloads.tasks) + 1
            &&& !downloads.knows(after.next_id)
            &&& after.knows(after.next_id)
            &&& after.local == downloads.local
            &&& after.tasks.len() == downloads.tasks.len() + 1
            &&& forall|i: int|
                0 <= i < downloads.tasks.len() ==> #[trigger] after.tasks[i] == downloads.tasks[i]
            &&& forall|other: u64|
                other != track_id ==> #[trigger] after.running(other) == downloads.running(other)
        }),
{
    let after = downloads.begun(track_id);
    let last = downloads.tasks.len() as int;
    assert(after.tasks.drop_last() =~= downloads.tasks);
    assert(after.is_task(last, after.next_id));
    if downloads.knows(after.next_id) {
        let i = downloads.index_of(after.next_id);
        assert(downloads.is_task(i, after.next_id));
        assert(downloads.tasks[i].id <= downloads.next_id);
    }
    assert forall|other: u64| other != track_id implies #[trigger] after.running(other)
        == downloads.running(other) by {
        if after.running(other) {
            let i = choose|i: int|
                0 <= i < after.tasks.len() && (#[trigger] after.tasks[i]).track_id == other
                    && after.tasks[i].status == DownloadStatus::Running;
            assert(downloads.tasks[i] == after.tasks[i]);
        }
        if downloads.running(other) {
            let i = choose|i: int|
                0 <= i < downloads.tasks.len() && (#[trigger] downloads.tasks[i]).track_id == other
                    && downloads.tasks[i].status == DownloadStatus::Running;
            assert(after.tasks[i] == downloads.tasks[i]);
        }
    }
}

proof fn lemma_running_updated(tasks: Seq<DownloadTask>, i: int, task: DownloadTask)
    requires
        0 <= i < tasks.len(),
        tasks[i].status == DownloadStatus::Running,
        task.status != DownloadStatus::Running,
    ensures
        running_tasks(tasks.update(i, task)) + 1 == running_tasks(tasks),
    decreases tasks.len(),
{
    let last = tasks.len() - 1;
    if i == last {
        assert(tasks.update(i, task).drop_last() =~= tasks.drop_last());
    } else {
        lemma_running_updated(tasks.drop_last(), i, task);
        assert(tasks.update(i, task).drop_last() =~= tasks.drop_last().update(i, task));
    }
}

/// A running download that ends is one less that runs. Where it succeeded its track is local, and
/// no other becomes so; where it failed nothing becomes local, and the track shows it.
pub proof fn law_downloads_end(downloads: DownloadsView, k: int, succeeded: bool)
    requires
        downloads.wf(),
        0 <= k < downloads.tasks.len(),
        downloads.tasks[k].status == DownloadStatus::Running,
    ensures
        ({
            let task = downloads.tasks[k];
            let after = downloads.completed(task.id, succeeded);
            &&& running_tasks(after.tasks) + 1 == running_tasks(downloads.tasks)
            &&& succeeded ==> after.local == downloads.local.insert(task.track_id)
            &&& !succeeded ==> after.local == downloads.local
            &&& !succeeded ==> after.has_task(task.track_id, DownloadStatus::Failed)
            &&& after.tasks.len() == downloads.tasks.len()
            &&& after.tasks[k].id == task.id && after.tasks[k].track_id == task.track_id
            &&& forall|i: int|
                0 <= i < downloads.tasks.len() && i != k ==> #[trigger] after.tasks[i]
                    == downloads.tasks[i]
            &&& succeeded && !after.running(task.track_id) ==> after.label(task.track_id)
                == "local"@
            &&& !succeeded && !after.running(task.track_id) && !downloads.local.contains(
                task.track_id,
            ) ==> after.label(task.track_id) == "failed"@
        }),
{
    let task = downloads.tasks[k];
    assert(downloads.is_task(k, task.id));
    let chosen = downloads.index_of(task.id);
    assert(downloads.is_task(chosen, task.id));
    assert(chosen == k);
    let after = downloads.completed(task.id, succeeded);
    lemma_running_updated(downloads.tasks, k, after.tasks[k]);
    assert(after.tasks =~= downloads.tasks.update(k, after.tasks[k]));
    assert(after.tasks[k].track_id == task.track_id);
}

/// How a track is shown to be stored: that it is being downloaded comes first, then that it is
/// there, then that a download failed.
pub proof fn law_storage_is_shown(downloads: DownloadsView, track_id: u64)
    ensures
        downloads.running(track_id) ==> downloads.label(track_id) == "downloading"@,
        !downloads.running(track_id) && downloads.local.contains(track_id) ==> downloads.label(
            track_id,
        ) == "local"@,
        !downloads.running(track_id) && !downloads.local.contains(track_id) && downloads.has_task(
            track_id,
            DownloadStatus::Failed,
        ) ==> downloads.label(track_id) == "failed"@,
        !downloads.running(track_id) && !downloads.local.contains(track_id) && !downloads.has_task(
            track_id,
            DownloadStatus::Failed,
        ) ==> downloads.label(track_id) == ""@,
{
}

} // verus!
