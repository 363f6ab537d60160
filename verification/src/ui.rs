//! What is shown on the screen, in words: rows, lines and titles, before they are drawn.

use vstd::prelude::*;
use vstd::view::View as _;

use crate::config::Bitrate;
use crate::downloads::{running_tasks, DownloadManager, DownloadsView};
use crate::error::prefixed;
use crate::library::{Library, LibraryView, Track};
use crate::oauth::{DeviceCode, DeviceCodeView};
use crate::queue::{PlaybackMode, PlaybackQueue, QueueView};
use crate::text::{
    decimal, decimal2, push_decimal, push_decimal2, push_large_decimal, push_signed_decimal,
    signed_decimal,
};

verus! {

broadcast use vstd::std_specs::btree::group_btree_axioms;

#[derive(Clone, Copy, Debug, PartialEq, Eq, Structural)]
pub enum View {
    Library,
    Queue,
}

/// Everything that the main screen shows.
#[derive(Debug)]
pub struct ReadyScreen<'a> {
    pub library: &'a Library,
    pub filtered_track_ids: &'a Vec<u64>,
    pub selected: usize,
    pub queue: &'a PlaybackQueue,
    pub queue_selected: usize,
    pub active_view: View,
    pub downloads: &'a DownloadManager,
    pub status_line: &'a str,
    /// What is wrong with the audio device, independent of what is wanted.
    pub audio_warning: Option<&'a str>,
    pub playback: PlaybackSummary,
    pub playback_bitrate: Bitrate,
    pub playback_mode: PlaybackMode,
    pub download_bitrate: Bitrate,
    /// `Some` while the search prompt is open.
    pub search_input: Option<&'a str>,
}

/// What is played, and how far; times are in nanoseconds.
#[derive(Debug)]
pub struct PlaybackSummary {
    pub label: String,
    pub state: PlaybackState,
    pub elapsed: Option<u128>,
    pub duration: Option<u128>,
}

#[derive(Clone, Copy, Debug, PartialEq, Eq, Structural)]
pub enum PlaybackState {
    Stopped,
    WaitingForAudio,
    Loading,
    Playing,
    Paused,
}

impl PlaybackState {
    pub open spec fn spec_label(self) -> Seq<char> {
        match self {
            PlaybackState::Stopped => "Stopped"@,
            PlaybackState::WaitingForAudio => "Waiting for audio"@,
            PlaybackState::Loading => "Loading"@,
            PlaybackState::Playing => "Playing"@,
            PlaybackState::Paused => "Paused"@,
        }
    }

    pub fn label(self) -> (res: &'static str)
        ensures
            res@ == self.spec_label(),
    {
        match self {
            PlaybackState::Stopped => "Stopped",
            PlaybackState::WaitingForAudio => "Waiting for audio",
            PlaybackState::Loading => "Loading",
            PlaybackState::Playing => "Playing",
            PlaybackState::Paused => "Paused",
        }
    }
}

/// A time span in hours, minutes and seconds, without the hours where there are none.
pub open spec fn duration_text(nanos: u128) -> Seq<char> {
    let total = nanos as nat / 1_000_000_000;
    let hours = total / 3600;
    let minutes = total % 3600 / 60;
    let seconds = total % 60;
    if hours > 0 {
        decimal(hours) + ":"@ + decimal2(minutes) + ":"@ + decimal2(seconds)
    } else {
        decimal(minutes) + ":"@ + decimal2(seconds)
    }
}

/// A time span, given in nanoseconds, in hours, minutes and seconds.
pub fn duration_label(nanos: u128) -> (res: String)
    ensures
        res@ == duration_text(nanos),
{
    let total: u128 = nanos / 1_000_000_000;
    let hours: u128 = total / 3600;
    let minutes: u64 = (total % 3600 / 60) as u64;
    let seconds: u64 = (total % 60) as u64;
    let mut text = String::new();
    if hours > 0 {
        push_large_decimal(&mut text, hours);
        text.append(":");
        push_decimal2(&mut text, minutes);
    } else {
        push_decimal(&mut text, minutes);
    }
    text.append(":");
    push_decimal2(&mut text, seconds);
    assert(text@ =~= duration_text(nanos));
    text
}

/// The line that tells what is played.
pub open spec fn playback_text(playback: PlaybackSummary) -> Seq<char> {
    let line = "Now: "@ + playback.label@ + " | "@ + playback.state.spec_label();
    match (playback.elapsed, playback.duration) {
        (Some(elapsed), Some(duration)) => line + " | "@ + duration_text(elapsed) + " / "@
            + duration_text(duration),
        _ => line,
    }
}

/// The line that tells what is played.
pub fn playback_status_line(playback: &PlaybackSummary) -> (res: String)
    ensures
        res@ == playback_text(*playback),
{
    let mut line = prefixed("Now: ", playback.label.as_str());
    line.append(" | ");
    line.append(playback.state.label());
    if let Some(elapsed) = playback.elapsed {
        if let Some(duration) = playback.duration {
            line.append(" | ");
            line.append(duration_label(elapsed).as_str());
            line.append(" / ");
            line.append(duration_label(duration).as_str());
        }
    }
    line
}

pub open spec fn help_text(view: View) -> Seq<char> {
    match view {
        View::Library =>
        "/ search | Enter play | a/A add | d/D download | x delete | b/B bitrate | q quit"@,
        View::Queue =>
        "Enter play | n/p next/prev | x remove | [/ ] move | C clear | m mode | q quit"@,
    }
}

/// The keys that a view names at the bottom.
pub fn help_for_view(view: View) -> (res: &'static str)
    ensures
        res@ == help_text(view),
{
    match view {
        View::Library =>
        "/ search | Enter play | a/A add | d/D download | x delete | b/B bitrate | q quit",
        View::Queue =>
        "Enter play | n/p next/prev | x remove | [/ ] move | C clear | m mode | q quit",
    }
}

/// The selected row, if there are rows: not behind the last one.
pub open spec fn shown_selection(selected: int, rows: int) -> Option<int> {
    if rows == 0 {
        None
    } else if selected < rows {
        Some(selected)
    } else {
        Some(rows - 1)
    }
}

/// The selected row, if there are rows.
pub fn selection(selected: usize, rows: usize) -> (res: Option<usize>)
    ensures
        match res {
            Some(row) => shown_selection(selected as int, rows as int) == Some(row as int),
            None => shown_selection(selected as int, rows as int) is None,
        },
{
    if rows == 0 {
        None
    } else if selected < rows {
        Some(selected)
    } else {
        Some(rows - 1)
    }
}

/// A row of the library: how the track is stored, its number, its title, its artist, its album and
/// its length.
#[derive(Debug)]
pub struct LibraryRow {
    pub storage: String,
    pub number: String,
    pub title: String,
    pub artist: String,
    pub album: String,
    pub length: String,
}

pub struct LibraryRowView {
    pub storage: Seq<char>,
    pub number: Seq<char>,
    pub title: Seq<char>,
    pub artist: Seq<char>,
    pub album: Seq<char>,
    pub length: Seq<char>,
}

impl vstd::view::View for LibraryRow {
    type V = LibraryRowView;

    open spec fn view(&self) -> LibraryRowView {
        LibraryRowView {
            storage: self.storage@,
            number: self.number@,
            title: self.title@,
            artist: self.artist@,
            album: self.album@,
            length: self.length@,
        }
    }
}

pub open spec fn row_views(rows: Seq<LibraryRow>) -> Seq<LibraryRowView> {
    Seq::new(rows.len(), |i: int| rows[i]@)
}

/// The row of a track.
pub open spec fn library_row(
    library: LibraryView,
    downloads: DownloadsView,
    id: u64,
) -> LibraryRowView {
    let track = library.tracks[id];
    LibraryRowView {
        storage: downloads.label(id),
        number: signed_decimal(track.track as int),
        title: track.title,
        artist: library.artist_name(track.artist_id),
        album: library.album_name(track.album_id),
        length: Track::spec_duration_label(track.length),
    }
}

/// The rows of the tracks that are in the library.
pub open spec fn library_rows(
    library: LibraryView,
    downloads: DownloadsView,
    ids: Seq<u64>,
) -> Seq<LibraryRowView>
    decreases ids.len(),
{
    if ids.len() == 0 {
        Seq::empty()
    } else {
        let before = library_rows(library, downloads, ids.drop_last());
        if library.tracks.dom().contains(ids.last()) {
            before.push(library_row(library, downloads, ids.last()))
        } else {
            before
        }
    }
}

fn build_library_rows(
    library: &Library,
    downloads: &DownloadManager,
    ids: &Vec<u64>,
) -> (res: Vec<LibraryRow>)
    ensures
        row_views(res@) == library_rows(library@, downloads@, ids@),
{
    let mut rows: Vec<LibraryRow> = Vec::new();
    let mut i: usize = 0;
    assert(ids@.take(0) =~= Seq::<u64>::empty());
    assert(row_views(rows@) =~= Seq::<LibraryRowView>::empty());
    while i < ids.len()
        invariant
            i <= ids@.len(),
            row_views(rows@) == library_rows(library@, downloads@, ids@.take(i as int)),
        decreases ids@.len() - i,
    {
        let id: u64 = ids[i];
        proof {
            assert(ids@.take(i + 1).drop_last() =~= ids@.take(i as int));
            assert(ids@.take(i + 1).last() == id);
        }
        if let Some(track) = library.tracks.get(&id) {
            assert(library@.tracks[id] == track@);
            let mut number = String::new();
            push_signed_decimal(&mut number, track.track);
            assert(number@ =~= signed_decimal(track.track as int));
            let row = LibraryRow {
                storage: downloads.storage_label(id).to_owned(),
                number,
                title: track.title.clone(),
                artist: library.artist_name(track.artist_id).to_owned(),
                album: library.album_name(track.album_id).to_owned(),
                length: track.duration_label(),
            };
            let ghost held = row_views(rows@);
            rows.push(row);
            assert(row_views(rows@) =~= held.push(row@));
        }
        i = i + 1;
    }
    assert(ids@.take(i as int) =~= ids@);
    rows
}

/// The lines of the queue: each track with a mark at the current one.
pub open spec fn queue_lines(library: LibraryView, queue: QueueView) -> Seq<Seq<char>> {
    Seq::new(
        queue.tracks.len(),
        |i: int|
            (if queue.current == Some(i) {
                ">"@
            } else {
                " "@
            }) + " "@ + library.label(queue.tracks[i]),
    )
}

pub open spec fn line_views(lines: Seq<String>) -> Seq<Seq<char>> {
    Seq::new(lines.len(), |i: int| lines[i]@)
}

fn build_queue_lines(library: &Library, queue: &PlaybackQueue) -> (res: Vec<String>)
    ensures
        line_views(res@) == queue_lines(library@, queue@),
{
    let tracks = queue.tracks();
    let current = queue.current_index();
    let mut lines: Vec<String> = Vec::new();
    let mut i: usize = 0;
    while i < tracks.len()
        invariant
            tracks@ == queue@.tracks,
            match current {
                Some(index) => queue@.current == Some(index as int),
                None => queue@.current is None,
            },
            i <= tracks@.len(),
            line_views(lines@) =~= queue_lines(library@, queue@).take(i as int),
        decreases tracks@.len() - i,
    {
        let marker = if current == Some(i) {
            ">"
        } else {
            " "
        };
        let mut line = prefixed(marker, " ");
        line.append(library.track_label(tracks[i]).as_str());
        let ghost held = line_views(lines@);
        lines.push(line);
        i = i + 1;
        assert(line_views(lines@) =~= held.push(line@));
    }
    assert(line_views(lines@) =~= queue_lines(library@, queue@));
    lines
}

/// The main part of the screen.
#[derive(Debug)]
pub enum Body {
    Library { title: String, rows: Vec<LibraryRow>, selected: Option<usize> },
    Queue { lines: Vec<String>, selected: Option<usize> },
}

pub enum BodyView {
    Library { title: Seq<char>, rows: Seq<LibraryRowView>, selected: Option<int> },
    Queue { lines: Seq<Seq<char>>, selected: Option<int> },
}

pub open spec fn index_view(index: Option<usize>) -> Option<int> {
    match index {
        Some(index) => Some(index as int),
        None => None,
    }
}

impl vstd::view::View for Body {
    type V = BodyView;

    open spec fn view(&self) -> BodyView {
        match self {
            Body::Library { title, rows, selected } => BodyView::Library {
                title: title@,
                rows: row_views(rows@),
                selected: index_view(*selected),
            },
            Body::Queue { lines, selected } => BodyView::Queue {
                lines: line_views(lines@),
                selected: index_view(*selected),
            },
        }
    }
}

/// The main screen, in words.
#[derive(Debug)]
pub struct ScreenModel {
    /// The tab that is selected: the library or the queue.
    pub selected_tab: usize,
    pub body: Body,
    /// The height of the status block.
    pub status_height: u16,
    /// What the user was told last.
    pub status_line: String,
    pub audio_line: Option<String>,
    pub playback_line: String,
    pub settings_line: String,
    pub downloads_line: String,
    /// The line at the bottom.
    pub help: String,
    /// The text in the search prompt, while it is open.
    pub search: Option<String>,
}

pub struct ScreenView {
    pub selected_tab: int,
    pub body: BodyView,
    pub status_height: int,
    pub status_line: Seq<char>,
    pub audio_line: Option<Seq<char>>,
    pub playback_line: Seq<char>,
    pub settings_line: Seq<char>,
    pub downloads_line: Seq<char>,
    pub help: Seq<char>,
    pub search: Option<Seq<char>>,
}

impl vstd::view::View for ScreenModel {
    type V = ScreenView;

    open spec fn view(&self) -> ScreenView {
        ScreenView {
            selected_tab: self.selected_tab as int,
            body: self.body@,
            status_height: self.status_height as int,
            status_line: self.status_line@,
            audio_line: crate::config::text_view(self.audio_line),
            playback_line: self.playback_line@,
            settings_line: self.settings_line@,
            downloads_line: self.downloads_line@,
            help: self.help@,
            search: crate::config::text_view(self.search),
        }
    }
}

impl<'a> ReadyScreen<'a> {
    pub open spec fn body_view(self) -> BodyView {
        match self.active_view {
            View::Library => BodyView::Library {
                title: "Library ("@ + decimal(self.filtered_track_ids@.len()) + "/"@ + decimal(
                    self.library@.tracks.dom().len(),
                ) + ")"@,
                rows: library_rows(self.library@, self.downloads@, self.filtered_track_ids@),
                selected: shown_selection(
                    self.selected as int,
                    self.filtered_track_ids@.len() as int,
                ),
            },
            View::Queue => BodyView::Queue {
                lines: queue_lines(self.library@, self.queue@),
                selected: shown_selection(
                    self.queue_selected as int,
                    self.queue@.tracks.len() as int,
                ),
            },
        }
    }

    /// The screen, in words.
    pub open spec fn screen(self) -> ScreenView {
        ScreenView {
            selected_tab: if self.active_view == View::Library {
                0
            } else {
                1
            },
            body: self.body_view(),
            status_height: if self.audio_warning is Some {
                7
            } else {
                6
            },
            status_line: self.status_line@,
            audio_line: match self.audio_warning {
                Some(warning) => Some("Audio: "@ + warning@),
                None => None,
            },
            playback_line: playback_text(self.playback),
            settings_line: "Mode: "@ + self.playback_mode.spec_label() + " | Playback bitrate: "@
                + self.playback_bitrate.spec_path_segment() + " | Download bitrate: "@
                + self.download_bitrate.spec_path_segment(),
            downloads_line: "Local files: "@ + decimal(self.downloads@.local.len())
                + " | Downloads running: "@ + decimal(running_tasks(self.downloads@.tasks)),
            help: match self.search_input {
                Some(search) => "Search: "@ + search@,
                None => help_text(self.active_view),
            },
            search: match self.search_input {
                Some(search) => Some(search@),
                None => None,
            },
        }
    }
}

proof fn lemma_same_domain(library: &Library)
    ensures
        library@.tracks.dom() == library.tracks@.dom(),
{
    assert(library@.tracks.dom() =~= library.tracks@.dom());
}

/// The main screen, in words.
pub fn ready_screen(screen: &ReadyScreen<'_>) -> (res: ScreenModel)
    ensures
        res@ == screen.screen(),
{
    let body = match screen.active_view {
        View::Library => {
            let rows = build_library_rows(
                screen.library,
                screen.downloads,
                screen.filtered_track_ids,
            );
            let mut title = "Library (".to_owned();
            push_decimal(&mut title, screen.filtered_track_ids.len() as u64);
            title.append("/");
            proof {
                lemma_same_domain(screen.library);
            }
            push_decimal(&mut title, screen.library.tracks.len() as u64);
            title.append(")");
            Body::Library {
                title,
                rows,
                selected: selection(screen.selected, screen.filtered_track_ids.len()),
            }
        },
        View::Queue => Body::Queue {
            lines: build_queue_lines(screen.library, screen.queue),
            selected: selection(screen.queue_selected, screen.queue.len()),
        },
    };
    let audio_line = match screen.audio_warning {
        Some(warning) => Some(prefixed("Audio: ", warning)),
        None => None,
    };
    let mut settings_line = prefixed("Mode: ", screen.playback_mode.label());
    settings_line.append(" | Playback bitrate: ");
    settings_line.append(screen.playback_bitrate.as_path_segment());
    settings_line.append(" | Download bitrate: ");
    settings_line.append(screen.download_bitrate.as_path_segment());
    let mut downloads_line = "Local files: ".to_owned();
    push_decimal(&mut downloads_line, screen.downloads.local_count() as u64);
    downloads_line.append(" | Downloads running: ");
    push_decimal(&mut downloads_line, screen.downloads.running_count() as u64);
    let help = match screen.search_input {
        Some(search) => prefixed("Search: ", search),
        None => help_for_view(screen.active_view).to_owned(),
    };
    ScreenModel {
        selected_tab: match screen.active_view {
            View::Library => 0,
            View::Queue => 1,
        },
        body,
        status_height: if screen.audio_warning.is_some() {
            7
        } else {
            6
        },
        status_line: screen.status_line.to_owned(),
        audio_line,
        playback_line: playback_status_line(&screen.playback),
        settings_line,
        downloads_line,
        help,
        search: match screen.search_input {
            Some(search) => Some(search.to_owned()),
            None => None,
        },
    }
}

/// A screen that holds only a few lines of text, centered.
#[derive(Debug)]
pub struct TextScreen {
    pub title: &'static str,
    /// The part of the width that it takes, in percent.
    pub width_percent: u16,
    /// Its height, in lines.
    pub height: u16,
    pub lines: Vec<String>,
}

pub struct TextScreenView {
    pub title: Seq<char>,
    pub width_percent: int,
    pub height: int,
    pub lines: Seq<Seq<char>>,
}

impl vstd::view::View for TextScreen {
    type V = TextScreenView;

    open spec fn view(&self) -> TextScreenView {
        TextScreenView {
            title: self.title@,
            width_percent: self.width_percent as int,
            height: self.height as int,
            lines: line_views(self.lines@),
        }
    }
}

/// The screen on which the client id is entered.
pub open spec fn login_text(input: Seq<char>, status_line: Seq<char>) -> TextScreenView {
    TextScreenView {
        title: "Login"@,
        width_percent: 78,
        height: 13,
        lines: seq![
            "Enter your iBroadcast OAuth client_id"@,
            "Create one in media.ibroadcast.com: side menu -> Apps -> developer"@,
            "No code is required; copy the generated client_id here."@,
            ""@,
            input,
            ""@,
            status_line,
            ""@,
            "Enter to continue, q to quit"@,
        ],
    }
}

/// The screen on which the client id is entered.
pub fn login_screen(input: &str, status_line: &str) -> (res: TextScreen)
    ensures
        res@ == login_text(input@, status_line@),
{
    let mut lines: Vec<String> = Vec::new();
    lines.push("Enter your iBroadcast OAuth client_id".to_owned());
    lines.push("Create one in media.ibroadcast.com: side menu -> Apps -> developer".to_owned());
    lines.push("No code is required; copy the generated client_id here.".to_owned());
    lines.push("".to_owned());
    lines.push(input.to_owned());
    lines.push("".to_owned());
    lines.push(status_line.to_owned());
    lines.push("".to_owned());
    lines.push("Enter to continue, q to quit".to_owned());
    assert(line_views(lines@) =~= login_text(input@, status_line@).lines);
    TextScreen { title: "Login", width_percent: 78, height: 13, lines }
}

/// A screen that says what is under way.
pub open spec fn message_text(title: Seq<char>, message: Seq<char>) -> TextScreenView {
    TextScreenView { title, width_percent: 70, height: 7, lines: seq![message] }
}

/// A screen that says what is under way.
pub fn message_screen(title: &'static str, message: &'static str) -> (res: TextScreen)
    ensures
        res@ == message_text(title@, message@),
{
    let mut lines: Vec<String> = Vec::new();
    lines.push(message.to_owned());
    assert(line_views(lines@) =~= seq![message@]);
    TextScreen { title, width_percent: 70, height: 7, lines }
}

/// The screen on which the user is asked to authorize the client.
pub open spec fn authorizing_text(code: DeviceCodeView) -> TextScreenView {
    let head = seq![
        "Open this URL and approve the app:"@,
        code.verification_uri,
        ""@,
        "Code: "@ + code.user_code,
    ];
    let direct = match code.verification_uri_complete {
        Some(complete) => seq![""@, "Direct URL:"@, complete],
        None => Seq::empty(),
    };
    TextScreenView {
        title: "Authorize iBroadcast"@,
        width_percent: 80,
        height: 13,
        lines: head + direct + seq![""@, "Waiting for authorization... q quits"@],
    }
}

/// The screen on which the user is asked to authorize the client.
pub fn authorizing_screen(code: &DeviceCode) -> (res: TextScreen)
    ensures
        res@ == authorizing_text(code@),
{
    let mut lines: Vec<String> = Vec::new();
    lines.push("Open this URL and approve the app:".to_owned());
    lines.push(code.verification_uri.clone());
    lines.push("".to_owned());
    lines.push(prefixed("Code: ", code.user_code.as_str()));
    if let Some(complete) = &code.verification_uri_complete {
        lines.push("".to_owned());
        lines.push("Direct URL:".to_owned());
        lines.push(complete.clone());
    }
    lines.push("".to_owned());
    lines.push("Waiting for authorization... q quits".to_owned());
    assert(line_views(lines@) =~= authorizing_text(code@).lines);
    TextScreen { title: "Authorize iBroadcast", width_percent: 80, height: 13, lines }
}

/// The screen that says what failed.
pub open spec fn error_text(message: Seq<char>) -> TextScreenView {
    TextScreenView {
        title: "Error"@,
        width_percent: 80,
        height: 11,
        lines: seq![
            "Something failed:"@,
            ""@,
            message,
            ""@,
            "Press l to log in again, q to quit"@,
        ],
    }
}

/// The screen that says what failed.
pub fn error_screen(message: &str) -> (res: TextScreen)
    ensures
        res@ == error_text(message@),
{
    let mut lines: Vec<String> = Vec::new();
    lines.push("Something failed:".to_owned());
    lines.push("".to_owned());
    lines.push(message.to_owned());
    lines.push("".to_owned());
    lines.push("Press l to log in again, q to quit".to_owned());
    assert(line_views(lines@) =~= error_text(message@).lines);
    TextScreen { title: "Error", width_percent: 80, height: 11, lines }
}

/// The selected row is one of the rows.
pub proof fn law_selection_is_a_row(selected: int, rows: int)
    requires
        selected >= 0,
        rows >= 0,
    ensures
        rows > 0 ==> shown_selection(selected, rows) is Some,
        shown_selection(selected, rows) matches Some(row) ==> 0 <= row < rows,
{
}

} // verus!
