//! What the screens tell.

use vstd::prelude::*;

use crate::downloads::DownloadsView;
use crate::laws::library::{known_album, known_artist};
use crate::library::LibraryView;
use crate::oauth::DeviceCodeView;
use crate::queue::QueueView;
use crate::text::{decimal, digit};
use crate::ui::{
    authorizing_text, duration_text, error_text, help_text, library_rows, login_text,
    playback_text, queue_lines, shown_selection, PlaybackState, PlaybackSummary, ReadyScreen,
};

verus! {

/// Two digits for a number below a hundred.
pub open spec fn two_digits(n: nat) -> Seq<char> {
    seq![digit(n / 10), digit(n % 10)]
}

/// A time span of so many hours, minutes and seconds is written so, without the hours where there
/// are none; parts of a second are left out.
pub proof fn law_time_spans_are_written_out(
    hours: nat,
    minutes: nat,
    seconds: nat,
    rest: nat,
    nanos: u128,
)
    requires
        minutes < 60,
        seconds < 60,
        rest < 1_000_000_000,
        nanos == ((hours * 60 + minutes) * 60 + seconds) * 1_000_000_000 + rest,
    ensures
        hours > 0 ==> duration_text(nanos) == decimal(hours) + ":"@ + two_digits(minutes) + ":"@
            + two_digits(seconds),
        hours == 0 ==> duration_text(nanos) == decimal(minutes) + ":"@ + two_digits(seconds),
{
    let total = (hours * 60 + minutes) * 60 + seconds;
    assert(nanos as nat / 1_000_000_000 == total);
    assert(total == hours * 3600 + (minutes * 60 + seconds));
    assert(total / 3600 == hours);
    assert(total % 3600 == minutes * 60 + seconds);
    assert(total % 3600 / 60 == minutes);
    assert(total % 60 == seconds);
    lemma_two_digits(minutes);
    lemma_two_digits(seconds);
}

proof fn lemma_two_digits(n: nat)
    requires
        n < 60,
    ensures
        crate::text::decimal2(n) == two_digits(n),
{
    if n < 10 {
        assert(n / 10 == 0);
        assert(digit(0) == '0');
    } else {
        assert(decimal(n / 10) == seq![digit(n / 10)]);
    }
    assert(crate::text::decimal2(n) =~= two_digits(n));
}

/// What is played is told by its name and its state, and by how far it is where that is known.
pub proof fn law_playback_is_told(playback: PlaybackSummary, elapsed: u128, duration: u128)
    ensures
        ({
            let line = "Now: "@ + playback.label@ + " | "@ + playback.state.spec_label();
            &&& playback.elapsed is None || playback.duration is None ==> playback_text(playback)
                == line
            &&& playback.elapsed == Some(elapsed) && playback.duration == Some(duration)
                ==> playback_text(playback) == line + " | "@ + duration_text(elapsed) + " / "@
                + duration_text(duration)
        }),
        PlaybackState::Stopped.spec_label() == "Stopped"@,
        PlaybackState::WaitingForAudio.spec_label() == "Waiting for audio"@,
        PlaybackState::Loading.spec_label() == "Loading"@,
        PlaybackState::Playing.spec_label() == "Playing"@,
        PlaybackState::Paused.spec_label() == "Paused"@,
{
}

/// There is one row for each track of the library that is listed, in the order of the list, and it
/// tells how the track is stored, its number, title, artist, album and length.
pub proof fn law_rows_tell_their_tracks(
    library: LibraryView,
    downloads: DownloadsView,
    ids: Seq<u64>,
)
    requires
        forall|i: int| 0 <= i < ids.len() ==> library.tracks.dom().contains(#[trigger] ids[i]),
    ensures
        library_rows(library, downloads, ids).len() == ids.len(),
        forall|i: int|
            0 <= i < ids.len() ==> {
                let row = #[trigger] library_rows(library, downloads, ids)[i];
                let track = library.tracks[ids[i]];
                &&& row.storage == downloads.label(ids[i])
                &&& row.title == track.title
                &&& row.artist == known_artist(library, track.artist_id)
                &&& row.album == known_album(library, track.album_id)
                &&& row.length == crate::library::Track::spec_duration_label(track.length)
                &&& track.track >= 0 ==> row.number == decimal(track.track as nat)
                &&& track.track < 0 ==> row.number == seq!['-'] + decimal((-track.track) as nat)
            },
    decreases ids.len(),
{
    if ids.len() > 0 {
        let before = ids.drop_last();
        assert forall|i: int| 0 <= i < before.len() implies library.tracks.dom().contains(
            #[trigger] before[i],
        ) by {
            assert(before[i] == ids[i]);
        }
        law_rows_tell_their_tracks(library, downloads, before);
        let rows = library_rows(library, downloads, ids);
        assert(library.tracks.dom().contains(ids[ids.len() - 1]));
        assert forall|i: int| 0 <= i < ids.len() implies ({
            let row = #[trigger] rows[i];
            let track = library.tracks[ids[i]];
            &&& row.storage == downloads.label(ids[i])
            &&& row.title == track.title
            &&& row.artist == known_artist(library, track.artist_id)
            &&& row.album == known_album(library, track.album_id)
            &&& row.length == crate::library::Track::spec_duration_label(track.length)
            &&& track.track >= 0 ==> row.number == decimal(track.track as nat)
            &&& track.track < 0 ==> row.number == seq!['-'] + decimal((-track.track) as nat)
        }) by {
            if i < before.len() {
                assert(rows[i] == library_rows(library, downloads, before)[i]);
            }
        }
    }
}

/// The queue is shown in its order, with a mark at the current track and at no other.
pub proof fn law_the_queue_is_shown_in_order(library: LibraryView, queue: QueueView, i: int)
    requires
        0 <= i < queue.tracks.len(),
    ensures
        queue_lines(library, queue).len() == queue.tracks.len(),
        queue.current == Some(i) ==> queue_lines(library, queue)[i] == ">"@ + " "@ + library.label(
            queue.tracks[i],
        ),
        queue.current != Some(i) ==> queue_lines(library, queue)[i] == " "@ + " "@ + library.label(
            queue.tracks[i],
        ),
{
}

/// The selected row is shown as it is while it is there, and the last one behind it.
pub proof fn law_selections_are_shown(selected: int, rows: int)
    requires
        selected >= 0,
        rows >= 0,
    ensures
        selected < rows ==> shown_selection(selected, rows) == Some(selected),
        0 < rows <= selected ==> shown_selection(selected, rows) == Some(rows - 1),
        rows == 0 ==> shown_selection(selected, rows) is None,
{
}

/// The screen shows what is active, with its own selection, and tells what is wrong with the audio
/// device exactly where something is.
pub proof fn law_the_screen_shows_what_is_active(screen: ReadyScreen<'_>)
    ensures
        ({
            let shown = screen.screen();
            &&& screen.active_view == crate::ui::View::Library ==> shown.selected_tab == 0 && shown.body
                is Library && shown.body->rows == library_rows(
                screen.library@,
                screen.downloads@,
                screen.filtered_track_ids@,
            ) && shown.body->Library_selected == shown_selection(
                screen.selected as int,
                screen.filtered_track_ids@.len() as int,
            )
            &&& screen.active_view == crate::ui::View::Queue ==> shown.selected_tab == 1 && shown.body
                is Queue && shown.body->lines == queue_lines(screen.library@, screen.queue@)
                && shown.body->Queue_selected == shown_selection(
                screen.queue_selected as int,
                screen.queue@.tracks.len() as int,
            )
            &&& screen.audio_warning is Some <==> shown.audio_line is Some
            &&& screen.audio_warning is Some ==> shown.audio_line == Some(
                "Audio: "@ + screen.audio_warning->0@,
            )
            &&& shown.status_line == screen.status_line@
            &&& shown.playback_line == playback_text(screen.playback)
            &&& screen.search_input is Some ==> shown.search == Some(screen.search_input->0@)
                && shown.help == "Search: "@ + screen.search_input->0@
            &&& screen.search_input is None ==> shown.search is None && shown.help == help_text(
                screen.active_view,
            )
        }),
{
}

/// The login screen shows what was entered and what the user was told; the authorization screen
/// shows the address, the code, and the direct address where there is one; the error screen shows
/// the message.
pub proof fn law_text_screens_show_what_matters(
    input: Seq<char>,
    status: Seq<char>,
    code: DeviceCodeView,
)
    ensures
        login_text(input, status).lines.contains(input),
        login_text(input, status).lines.contains(status),
        error_text(input).lines.contains(input),
        authorizing_text(code).lines.contains(code.verification_uri),
        authorizing_text(code).lines.contains("Code: "@ + code.user_code),
        code.verification_uri_complete is Some ==> authorizing_text(code).lines.contains(
            code.verification_uri_complete->0,
        ),
{
    assert(login_text(input, status).lines[4] == input);
    assert(login_text(input, status).lines[6] == status);
    assert(error_text(input).lines[2] == input);
    assert(authorizing_text(code).lines[1] == code.verification_uri);
    assert(authorizing_text(code).lines[3] == "Code: "@ + code.user_code);
    if code.verification_uri_complete is Some {
        assert(authorizing_text(code).lines[6] == code.verification_uri_complete->0);
    }
}

} // verus!
