//! The controller: what keys, finished tasks and the passing of time do to the state of the
//! application.
//!
//! Input is handled at once and never waits. What touches the network, the disk or the audio
//! device is put into a list of requests, or of the engine's effects, and what comes of it comes
//! back as another call.

use vstd::prelude::*;

use crate::audio::DefaultOutputProbe;
use crate::config::{or_default, preferred, Bitrate, Config, ConfigView};
use crate::downloads::{found_tracks, DownloadManager, DownloadStatus, DownloadsView};
use crate::engine::{
    law_output_events_keep_consistency, Effect, Engine, EngineView, FactsView, OpenOutcome,
    OpenOutcomeView, PlayOutcome, PreviousOutput, TrackFacts,
};
use crate::error::{prefixed, Result};
use crate::library::{Library, LibraryView};
use crate::oauth::{DeviceCode, DeviceCodeView};
use crate::player::{AudioStreamEvent, SinkEpoch};
use crate::queue::{with_track, with_tracks, PlaybackMode, PlaybackQueue, QueueView};
use crate::recovery::{
    candidate, device_view, probe_observed, should_advance_queue, source_counts, AudioCandidate,
    AudioState, DesiredPlayback, PlaybackPhase, SourceTag,
};
use crate::text::{decimal, push_decimal, trim, trimmed, CharSet};
use crate::ui;

verus! {

broadcast use {
    vstd::std_specs::btree::group_btree_axioms,
    vstd::seq_lib::group_seq_properties,
};

/// The permissions that the client asks for.
pub const LIBRARY_SCOPE: &'static str = "user.library:read";

pub const ACCOUNT_SCOPE: &'static str = "user.account:read";

/// A file that is in use is tried to be removed so many times more.
pub const REMOVE_RETRIES: u32 = 5;

/// The step by which the volume changes, in percent.
pub const VOLUME_STEP: i32 = 5;

/// A key that was pressed.
#[derive(Clone, Copy, Debug, PartialEq, Eq, Structural)]
pub enum Key {
    Char(char),
    Enter,
    Esc,
    Backspace,
    Tab,
    Up,
    Down,
    Delete,
    Other,
}

#[derive(Clone, Copy, Debug, PartialEq, Eq, Structural)]
pub struct KeyPress {
    pub key: Key,
    /// The control key was held.
    pub control: bool,
}

/// What the user wants on the main screen, apart from the keys that stand for it.
#[derive(Clone, Copy, Debug, PartialEq, Eq, Structural)]
pub enum Action {
    Quit,
    NextView,
    OpenSearch,
    MoveSelection(isize),
    Activate,
    AddToQueue { all_visible: bool },
    DeleteOrRemove,
    MoveQueueItem(isize),
    ClearQueue,
    CyclePlaybackMode,
    CyclePlaybackBitrate,
    CycleDownloadBitrate,
    TogglePause,
    NextTrack,
    PreviousTrack,
    Download { all_visible: bool },
    Logout,
    /// The change of the volume, in percent.
    AdjustVolume(i32),
}

/// The action that a key stands for.
pub open spec fn key_action(key: Key) -> Option<Action> {
    match key {
        Key::Tab => Some(Action::NextView),
        Key::Down => Some(Action::MoveSelection(1)),
        Key::Up => Some(Action::MoveSelection((-1) as isize)),
        Key::Enter => Some(Action::Activate),
        Key::Delete => Some(Action::DeleteOrRemove),
        Key::Char(c) => if c == 'q' {
            Some(Action::Quit)
        } else if c == '/' {
            Some(Action::OpenSearch)
        } else if c == 'j' {
            Some(Action::MoveSelection(1))
        } else if c == 'k' {
            Some(Action::MoveSelection((-1) as isize))
        } else if c == 'a' {
            Some(Action::AddToQueue { all_visible: false })
        } else if c == 'A' {
            Some(Action::AddToQueue { all_visible: true })
        } else if c == 'x' {
            Some(Action::DeleteOrRemove)
        } else if c == '[' || c == '<' {
            Some(Action::MoveQueueItem((-1) as isize))
        } else if c == ']' || c == '>' {
            Some(Action::MoveQueueItem(1))
        } else if c == 'C' {
            Some(Action::ClearQueue)
        } else if c == 'm' {
            Some(Action::CyclePlaybackMode)
        } else if c == 'b' {
            Some(Action::CyclePlaybackBitrate)
        } else if c == 'B' {
            Some(Action::CycleDownloadBitrate)
        } else if c == ' ' {
            Some(Action::TogglePause)
        } else if c == 'n' {
            Some(Action::NextTrack)
        } else if c == 'p' {
            Some(Action::PreviousTrack)
        } else if c == 'd' {
            Some(Action::Download { all_visible: false })
        } else if c == 'D' {
            Some(Action::Download { all_visible: true })
        } else if c == 'L' {
            Some(Action::Logout)
        } else if c == '+' || c == '=' {
            Some(Action::AdjustVolume(VOLUME_STEP))
        } else if c == '-' {
            Some(Action::AdjustVolume((-VOLUME_STEP) as i32))
        } else {
            None
        },
        _ => None,
    }
}

/// The action that a key stands for.
pub fn action_for_key(key: Key) -> (res: Option<Action>)
    ensures
        res == key_action(key),
{
    match key {
        Key::Tab => Some(Action::NextView),
        Key::Down => Some(Action::MoveSelection(1)),
        Key::Up => Some(Action::MoveSelection(-1)),
        Key::Enter => Some(Action::Activate),
        Key::Delete => Some(Action::DeleteOrRemove),
        Key::Char(c) => match c {
            'q' => Some(Action::Quit),
            '/' => Some(Action::OpenSearch),
            'j' => Some(Action::MoveSelection(1)),
            'k' => Some(Action::MoveSelection(-1)),
            'a' => Some(Action::AddToQueue { all_visible: false }),
            'A' => Some(Action::AddToQueue { all_visible: true }),
            'x' => Some(Action::DeleteOrRemove),
            '[' | '<' => Some(Action::MoveQueueItem(-1)),
            ']' | '>' => Some(Action::MoveQueueItem(1)),
            'C' => Some(Action::ClearQueue),
            'm' => Some(Action::CyclePlaybackMode),
            'b' => Some(Action::CyclePlaybackBitrate),
            'B' => Some(Action::CycleDownloadBitrate),
            ' ' => Some(Action::TogglePause),
            'n' => Some(Action::NextTrack),
            'p' => Some(Action::PreviousTrack),
            'd' => Some(Action::Download { all_visible: false }),
            'D' => Some(Action::Download { all_visible: true }),
            'L' => Some(Action::Logout),
            '+' | '=' => Some(Action::AdjustVolume(VOLUME_STEP)),
            '-' => Some(Action::AdjustVolume(-VOLUME_STEP)),
            _ => None,
        },
        _ => None,
    }
}

/// A setting that is saved.
#[derive(Clone, Copy, Debug, PartialEq, Eq, Structural)]
pub enum Setting {
    ClientId,
    PlaybackBitrate,
    DownloadBitrate,
    PlaybackMode,
}

/// What is to be done outside, beside the effects of the engine.
#[derive(Clone, Copy, Debug, PartialEq, Eq, Structural)]
pub enum Request {
    /// Save the configuration, and tell what came of it.
    SaveConfig(Setting),
    /// Ask for a device code for the client id of the configuration.
    RequestDeviceCode,
    /// Poll for the token of the device code that is shown.
    PollToken,
    /// Save the token that was received, and tell what came of it.
    SaveToken,
    /// Delete the stored token.
    DeleteToken,
    /// Establish a session with the token at hand.
    LoadSession,
    /// Stop the session from saving tokens, delete the stored token and revoke it.
    Logout,
    /// Look which tracks of the library exist on disk.
    ScanLocalFiles,
    /// Delete the local file of a track, and tell what came of it.
    DeleteLocalFile { track_id: u64 },
    /// Download a track.
    Download { task_id: u64, track_id: u64 },
    /// Change the volume by so many percent.
    AdjustVolume { percent: i32 },
}

/// Where the user is between starting and using the client.
#[derive(Debug)]
pub enum Phase {
    NeedClientId,
    RequestingDeviceCode,
    Authorizing(DeviceCode),
    LoadingLibrary,
    LoggingOut,
    Ready,
    Error(String),
}

pub enum PhaseView {
    NeedClientId,
    RequestingDeviceCode,
    Authorizing(DeviceCodeView),
    LoadingLibrary,
    LoggingOut,
    Ready,
    Error(Seq<char>),
}

impl View for Phase {
    type V = PhaseView;

    open spec fn view(&self) -> PhaseView {
        match self {
            Phase::NeedClientId => PhaseView::NeedClientId,
            Phase::RequestingDeviceCode => PhaseView::RequestingDeviceCode,
            Phase::Authorizing(code) => PhaseView::Authorizing(code@),
            Phase::LoadingLibrary => PhaseView::LoadingLibrary,
            Phase::LoggingOut => PhaseView::LoggingOut,
            Phase::Ready => PhaseView::Ready,
            Phase::Error(message) => PhaseView::Error(message@),
        }
    }
}

/// What exists only while there is a session with a library.
#[derive(Debug)]
pub struct SessionCtx {
    pub library: Library,
    pub server_bitrate: Option<Bitrate>,
    /// The tracks that are listed, in order.
    pub filtered_track_ids: Vec<u64>,
}

pub struct SessionCtxView {
    pub library: LibraryView,
    pub server_bitrate: Option<Bitrate>,
    pub filtered_track_ids: Seq<u64>,
}

impl View for SessionCtx {
    type V = SessionCtxView;

    open spec fn view(&self) -> SessionCtxView {
        SessionCtxView {
            library: self.library@,
            server_bitrate: self.server_bitrate,
            filtered_track_ids: self.filtered_track_ids@,
        }
    }
}

/// What is seen of the output in use when an event is handled. Times are in nanoseconds.
#[derive(Clone, Copy, Debug, PartialEq, Eq, Structural)]
pub struct Observed {
    pub healthy: bool,
    pub finished: bool,
    pub position: Option<u128>,
    pub now: u64,
}

/// The state of the application.
#[derive(Debug)]
pub struct App {
    pub config: Config,
    pub phase: Phase,
    pub client_id_input: String,
    pub search_input: String,
    pub search_mode: bool,
    pub active_view: ui::View,
    pub selected: usize,
    pub queue_selected: usize,
    pub session: Option<SessionCtx>,
    /// Playback and the audio output; it also holds what the user was told last.
    pub engine: Engine,
    pub queue: PlaybackQueue,
    pub downloads: DownloadManager,
    pub should_quit: bool,
    /// What is to be done outside, in order.
    pub requests: Vec<Request>,
}

pub struct AppView {
    pub config: ConfigView,
    pub phase: PhaseView,
    pub client_id_input: Seq<char>,
    pub search_input: Seq<char>,
    pub search_mode: bool,
    pub active_view: ui::View,
    pub selected: usize,
    pub queue_selected: usize,
    pub session: Option<SessionCtxView>,
    pub engine: EngineView,
    pub queue: QueueView,
    pub downloads: DownloadsView,
    pub should_quit: bool,
    pub requests: Seq<Request>,
}

impl View for App {
    type V = AppView;

    open spec fn view(&self) -> AppView {
        AppView {
            config: self.config@,
            phase: self.phase@,
            client_id_input: self.client_id_input@,
            search_input: self.search_input@,
            search_mode: self.search_mode,
            active_view: self.active_view,
            selected: self.selected,
            queue_selected: self.queue_selected,
            session: match self.session {
                Some(session) => Some(session@),
                None => None,
            },
            engine: self.engine@,
            queue: self.queue@,
            downloads: self.downloads@,
            should_quit: self.should_quit,
            requests: self.requests@,
        }
    }
}

/// `position + delta`, kept within `count` rows.
pub open spec fn moved_selection(position: int, delta: int, count: int) -> int {
    if position + delta < 0 {
        0
    } else if position + delta >= count {
        count - 1
    } else {
        position + delta
    }
}

/// `row`, or the last of `count` rows where it lies behind it.
pub open spec fn row_within(row: usize, count: nat) -> int {
    if row < count {
        row as int
    } else {
        count - 1
    }
}

/// A text without its last character.
pub open spec fn without_last(text: Seq<char>) -> Seq<char> {
    if text.len() == 0 {
        text
    } else {
        text.drop_last()
    }
}

/// What the user is told after tracks were added to the queue.
pub open spec fn added_text(candidates: nat, added: nat) -> Seq<char> {
    if candidates == 0 {
        "No tracks to add"@
    } else if added == 0 {
        "Already in queue"@
    } else if added < candidates {
        "Added "@ + decimal(added) + " track(s) to queue ("@ + decimal((candidates - added) as nat)
            + " already queued)"@
    } else {
        "Added "@ + decimal(added) + " track(s) to queue"@
    }
}

/// What the user is told after downloads were queued.
pub open spec fn queued_text(queued: nat, skipped: nat) -> Seq<char> {
    if queued == 0 && skipped == 0 {
        "No tracks selected for download"@
    } else if queued == 0 {
        "No new downloads queued; skipped "@ + decimal(skipped) + " local/running track(s)"@
    } else if skipped == 0 {
        "Queued "@ + decimal(queued) + " download(s)"@
    } else {
        "Queued "@ + decimal(queued) + " download(s), skipped "@ + decimal(skipped)
            + " local/running track(s)"@
    }
}

impl AppView {
    /// What holds at all times.
    pub open spec fn wf(self) -> bool {
        &&& self.engine.wf()
        &&& self.queue.wf()
        &&& self.downloads.wf()
        &&& self.session matches Some(session) ==> session.library.wf()
    }

    /// There are task ids left for all downloads that can be asked for at once.
    pub open spec fn has_room(self) -> bool {
        self.downloads.next_id + self.listed().len() + self.queue.tracks.len() < u64::MAX
    }

    pub open spec fn request(self, request: Request) -> AppView {
        AppView { requests: self.requests.push(request), ..self }
    }

    pub open spec fn tell(self, status: Seq<char>) -> AppView {
        AppView { engine: self.engine.with_status(status), ..self }
    }

    /// The tracks that are listed.
    pub open spec fn listed(self) -> Seq<u64> {
        match self.session {
            Some(session) => session.filtered_track_ids,
            None => Seq::empty(),
        }
    }

    pub open spec fn knows(self, track_id: u64) -> bool {
        self.session matches Some(session) && session.library.tracks.dom().contains(track_id)
    }

    pub open spec fn track_label(self, track_id: u64) -> Seq<char> {
        match self.session {
            Some(session) => session.library.label(track_id),
            None => "Track "@ + decimal(track_id as nat),
        }
    }

    /// The bitrate for streams: the user's choice, else what the account prefers, else 128 kbps.
    pub open spec fn playback_bitrate(self) -> Bitrate {
        or_default(
            preferred(
                self.config.playback_bitrate,
                match self.session {
                    Some(session) => session.server_bitrate,
                    None => None,
                },
            ),
            Bitrate::Kbps128,
        )
    }

    pub open spec fn facts(self, track_id: u64) -> FactsView {
        FactsView {
            logged_in: self.session is Some,
            known: self.knows(track_id),
            local: self.downloads.local.contains(track_id),
            label: self.track_label(track_id),
            bitrate: self.playback_bitrate(),
        }
    }

    /// The facts of the track that is wanted.
    pub open spec fn desired_facts(self) -> FactsView {
        self.facts(
            match self.engine.desired {
                DesiredPlayback::Track { track_id, .. } => track_id,
                DesiredPlayback::Stopped => 0,
            },
        )
    }

    pub open spec fn stop(self) -> AppView {
        AppView { engine: self.engine.stopped(), ..self }
    }

    /// The current track of the queue is wanted and started.
    pub open spec fn play_current(self, seen: Observed) -> AppView {
        match self.queue.current_track() {
            None => self.stop(),
            Some(track_id) => AppView {
                engine: self.engine.playing(
                    track_id,
                    self.facts(track_id),
                    seen.healthy,
                    seen.now,
                ),
                ..self
            },
        }
    }

    /// The queue went on to a next track.
    pub open spec fn went_on(self) -> bool {
        !(self.queue.mode == PlaybackMode::Sequential && self.queue.following(false) is None)
    }

    /// The user went to the next track: the queue became `queue`.
    pub open spec fn next(self, queue: QueueView, seen: Observed) -> AppView {
        let moved = AppView { queue, ..self };
        if self.went_on() && queue.current_track() is Some {
            moved.play_current(seen)
        } else {
            moved
        }
    }

    pub open spec fn previous(self, seen: Observed) -> AppView {
        let moved = AppView { queue: self.queue.previous_step(), ..self };
        if moved.queue.current_track() is Some {
            moved.play_current(seen)
        } else {
            moved
        }
    }

    /// The current track has come to its end.
    pub open spec fn at_end(self, seen: Observed) -> bool {
        &&& self.engine.phase == PlaybackPhase::Active
        &&& self.queue.current_track() is Some
        &&& self.engine.desired.spec_track_id() == self.queue.current_track()
        &&& self.engine.audio is Ready
        &&& seen.healthy
        &&& seen.finished
    }

    /// The track that ended is followed by the next one, if there is one: the queue became
    /// `queue`.
    pub open spec fn advanced(self, queue: QueueView, seen: Observed) -> AppView {
        let moved = AppView { queue, ..self };
        if self.went_on() && queue.current_track() is Some {
            moved.play_current(seen)
        } else {
            moved.stop().tell("Queue finished"@)
        }
    }

    pub open spec fn selected_track(self) -> Option<u64> {
        if self.listed().len() == 0 {
            None
        } else {
            Some(self.listed()[row_within(self.selected, self.listed().len())])
        }
    }

    pub open spec fn move_selection(self, delta: int) -> AppView {
        match self.active_view {
            ui::View::Library => if self.listed().len() == 0 {
                self
            } else {
                AppView {
                    selected: moved_selection(
                        self.selected as int,
                        delta,
                        self.listed().len() as int,
                    ) as usize,
                    ..self
                }
            },
            ui::View::Queue => if self.queue.tracks.len() == 0 {
                self
            } else {
                AppView {
                    queue_selected: moved_selection(
                        self.queue_selected as int,
                        delta,
                        self.queue.tracks.len() as int,
                    ) as usize,
                    ..self
                }
            },
        }
    }

    /// The selected track of the library is queued, at most once, and played: it stands at `index`
    /// of the queue then.
    pub open spec fn activate_library(self, index: usize, seen: Observed) -> AppView {
        let track_id = self.selected_track()->0;
        let queue = self.queue.extended(with_track(self.queue.tracks, track_id)).at(
            index as int,
        ).reset();
        (AppView { queue, queue_selected: index, ..self }).play_current(seen)
    }

    pub open spec fn activate_queue(self, seen: Observed) -> AppView {
        if self.queue_selected < self.queue.tracks.len() {
            (AppView {
                queue: self.queue.at(self.queue_selected as int).reset(),
                ..self
            }).play_current(seen)
        } else {
            self
        }
    }

    /// The tracks that are added to the queue: those that are listed, or the selected one.
    pub open spec fn candidates(self, all_visible: bool) -> Seq<u64> {
        if all_visible {
            self.listed()
        } else {
            match self.selected_track() {
                Some(track_id) => seq![track_id],
                None => Seq::empty(),
            }
        }
    }

    pub open spec fn add_to_queue(self, all_visible: bool) -> AppView {
        if self.active_view != ui::View::Library || (all_visible && self.session is None) {
            self
        } else {
            let ids = self.candidates(all_visible);
            let tracks = with_tracks(self.queue.tracks, ids);
            (AppView { queue: self.queue.extended(tracks), ..self }).tell(
                added_text(ids.len(), (tracks.len() - self.queue.tracks.len()) as nat),
            )
        }
    }

    /// The local file of the selected track is deleted, unless something speaks against it. What is
    /// played from it is stopped first.
    pub open spec fn delete_local(self) -> AppView {
        match self.selected_track() {
            None => self.tell("No track selected"@),
            Some(track_id) => if self.downloads.running(track_id) {
                self.tell("Download is still running; wait before deleting"@)
            } else if !self.downloads.local.contains(track_id) {
                self.tell("Track is not available locally"@)
            } else if !self.knows(track_id) {
                self
            } else {
                (if self.engine.desired.spec_track_id() == Some(track_id) {
                    self.stop()
                } else {
                    self
                }).request(Request::DeleteLocalFile { track_id })
            },
        }
    }

    pub open spec fn forget_local(self, track_id: u64) -> AppView {
        AppView {
            downloads: DownloadsView {
                local: self.downloads.local.remove(track_id),
                ..self.downloads
            },
            ..self
        }
    }

    /// The selected entry of the queue is removed. Where it was wanted, the entry that takes its
    /// place is played, if there is one.
    pub open spec fn remove_queued(self, seen: Observed) -> AppView {
        if self.queue.tracks.len() == 0 {
            self
        } else {
            let row = row_within(self.queue_selected, self.queue.tracks.len());
            let track_id = self.queue.tracks[row];
            let queue = self.queue.removed(row);
            let left = AppView {
                queue,
                queue_selected: if self.queue_selected < queue.tracks.len() {
                    self.queue_selected
                } else if queue.tracks.len() == 0 {
                    0
                } else {
                    (queue.tracks.len() - 1) as usize
                },
                ..self
            };
            if self.engine.desired.spec_track_id() != Some(track_id) {
                left.tell("Removed track from queue"@)
            } else if queue.current_track() is Some {
                left.play_current(seen)
            } else {
                left.stop().tell("Queue is empty"@)
            }
        }
    }

    pub open spec fn move_queued(self, delta: int) -> AppView {
        let count = self.queue.tracks.len();
        let row = row_within(self.queue_selected, count);
        if self.active_view != ui::View::Queue || count == 0 {
            self
        } else if delta < 0 && row > 0 {
            (AppView {
                queue: self.queue.swapped(row, row - 1),
                queue_selected: (row - 1) as usize,
                ..self
            }).tell("Moved queue item"@)
        } else if delta >= 0 && row + 1 < count {
            (AppView {
                queue: self.queue.swapped(row, row + 1),
                queue_selected: (row + 1) as usize,
                ..self
            }).tell("Moved queue item"@)
        } else {
            self
        }
    }

    pub open spec fn clear_queue(self) -> AppView {
        if self.active_view != ui::View::Queue {
            self
        } else {
            (AppView {
                queue: self.queue.cleared(),
                queue_selected: 0,
                ..self
            }).stop().tell("Queue cleared"@)
        }
    }

    /// A search gave the given list.
    pub open spec fn searched(self, ids: Seq<u64>) -> AppView {
        match self.session {
            None => self,
            Some(session) => (AppView {
                session: Some(SessionCtxView { filtered_track_ids: ids, ..session }),
                selected: 0,
                active_view: ui::View::Library,
                ..self
            }).tell(decimal(ids.len()) + " matches for '"@ + self.search_input + "'"@),
        }
    }

    pub open spec fn cycle_playback_bitrate(self) -> AppView {
        (AppView {
            config: ConfigView {
                playback_bitrate: Some(self.playback_bitrate().spec_next()),
                ..self.config
            },
            ..self
        }).request(Request::SaveConfig(Setting::PlaybackBitrate))
    }

    pub open spec fn cycle_download_bitrate(self) -> AppView {
        (AppView {
            config: ConfigView {
                download_bitrate: if self.config.download_bitrate == Bitrate::Kbps128 {
                    Bitrate::Original
                } else {
                    Bitrate::Kbps128
                },
                ..self.config
            },
            ..self
        }).request(Request::SaveConfig(Setting::DownloadBitrate))
    }

    pub open spec fn cycle_playback_mode(self) -> AppView {
        let mode = self.queue.mode.spec_next();
        (AppView {
            queue: self.queue.with_mode(mode),
            config: ConfigView { playback_mode: mode, ..self.config },
            ..self
        }).request(Request::SaveConfig(Setting::PlaybackMode))
    }

    /// What the user is told once a setting was saved.
    pub open spec fn saved_text(self, setting: Setting, error: Option<Seq<char>>) -> Seq<char> {
        let told = match setting {
            Setting::PlaybackBitrate => "Playback bitrate set to "@
                + self.playback_bitrate().spec_path_segment(),
            Setting::DownloadBitrate => "Download bitrate set to "@
                + self.config.download_bitrate.spec_path_segment(),
            _ => "Playback mode set to "@ + self.config.playback_mode.spec_label(),
        };
        match error {
            Some(error) => told + ", but config save failed: "@ + error,
            None => if setting == Setting::PlaybackBitrate {
                told + " for future streams"@
            } else {
                told
            },
        }
    }

    pub open spec fn config_saved(self, setting: Setting, error: Option<Seq<char>>) -> AppView {
        if setting == Setting::ClientId {
            self
        } else {
            self.tell(self.saved_text(setting, error))
        }
    }

    /// The tracks that are downloaded: those of the view, or the selected one.
    pub open spec fn download_targets(self, all_visible: bool) -> Seq<u64> {
        match (self.active_view, all_visible) {
            (ui::View::Library, _) => self.candidates(all_visible),
            (ui::View::Queue, true) => self.queue.tracks,
            (ui::View::Queue, false) => if self.queue_selected < self.queue.tracks.len() {
                seq![self.queue.tracks[self.queue_selected as int]]
            } else {
                Seq::empty()
            },
        }
    }

    /// The download of a track is not needed or not possible.
    pub open spec fn skips(self, track_id: u64) -> bool {
        self.downloads.running(track_id) || self.downloads.local.contains(track_id)
            || !self.knows(track_id)
    }

    /// The downloads of the tracks have begun, in order, and how many of them did.
    pub open spec fn downloading(self, ids: Seq<u64>) -> (AppView, nat)
        decreases ids.len(),
    {
        if ids.len() == 0 {
            (self, 0)
        } else {
            let (before, queued) = self.downloading(ids.drop_last());
            if before.skips(ids.last()) {
                (before, queued)
            } else {
                let downloads = before.downloads.begun(ids.last());
                (
                    (AppView { downloads, ..before }).request(
                        Request::Download { task_id: downloads.next_id, track_id: ids.last() },
                    ),
                    queued + 1,
                )
            }
        }
    }

    pub open spec fn download(self, all_visible: bool) -> AppView {
        if self.session is None {
            self
        } else {
            let ids = self.download_targets(all_visible);
            let (begun, queued) = self.downloading(ids);
            begun.tell(queued_text(queued, (ids.len() - queued) as nat))
        }
    }

    pub open spec fn start_authorization(self) -> AppView {
        (AppView { phase: PhaseView::RequestingDeviceCode, ..self }).tell(
            "Requesting device code..."@,
        ).request(Request::RequestDeviceCode)
    }

    pub open spec fn start_session_load(self) -> AppView {
        (AppView { phase: PhaseView::LoadingLibrary, ..self }).tell(
            "Loading iBroadcast library..."@,
        ).request(Request::LoadSession)
    }

    pub open spec fn failed(self, message: Seq<char>) -> AppView {
        AppView { phase: PhaseView::Error(message), ..self }
    }

    pub open spec fn need_client_id(self) -> AppView {
        AppView { phase: PhaseView::NeedClientId, ..self }
    }

    /// The user logs out: everything of the session is gone at once.
    pub open spec fn logout(self) -> AppView {
        let stopped = self.stop();
        if self.config.client_id is None {
            (AppView { session: None, queue: self.queue.cleared(), ..stopped }).need_client_id()
        } else {
            (AppView {
                session: None,
                queue: self.queue.cleared(),
                queue_selected: 0,
                selected: 0,
                downloads: DownloadsView {
                    tasks: Seq::empty(),
                    local: Set::empty(),
                    next_id: self.downloads.next_id,
                },
                search_mode: false,
                phase: PhaseView::LoggingOut,
                ..stopped
            }).tell("Logged out locally; revoking token..."@).request(Request::Logout)
        }
    }

    pub open spec fn logged_out(self, client_id: Seq<char>, error: Option<Seq<char>>) -> AppView {
        (AppView {
            client_id_input: client_id,
            config: ConfigView { client_id: Some(client_id), ..self.config },
            ..self
        }).need_client_id().tell(
            match error {
                None => "Logged out. Press Enter to authorize again."@,
                Some(error) => "Logged out locally. Token revoke failed: "@ + error
                    + ". Press Enter to authorize again."@,
            },
        )
    }

    /// A session was established; its tracks are listed as `ids`.
    pub open spec fn entered(
        self,
        library: LibraryView,
        server_bitrate: Option<Bitrate>,
        ids: Seq<u64>,
    ) -> AppView {
        (AppView {
            session: Some(SessionCtxView { library, server_bitrate, filtered_track_ids: ids }),
            downloads: DownloadsView {
                tasks: Seq::empty(),
                local: Set::empty(),
                next_id: self.downloads.next_id,
            },
            selected: 0,
            queue_selected: 0,
            active_view: ui::View::Library,
            search_input: Seq::empty(),
            phase: PhaseView::Ready,
            ..self.stop()
        }).request(Request::ScanLocalFiles).tell(
            "Loaded "@ + decimal(library.tracks.dom().len()) + " tracks"@,
        )
    }

    pub open spec fn quit(self) -> AppView {
        AppView { should_quit: true, ..self }
    }

    /// The selected track is played: in the library, the queue became what `after` has.
    pub open spec fn activated(self, seen: Observed, after: AppView) -> bool {
        match self.active_view {
            ui::View::Queue => after == self.activate_queue(seen),
            ui::View::Library => match self.selected_track() {
                None => after == self,
                Some(track_id) => {
                    let index = after.queue_selected;
                    &&& index < after.queue.tracks.len()
                    &&& after.queue.tracks[index as int] == track_id
                    &&& after == self.activate_library(index, seen)
                },
            },
        }
    }

    /// `after` is what an action leads to.
    pub open spec fn acted(self, action: Action, seen: Observed, after: AppView) -> bool {
        match action {
            Action::Quit => after == self.quit(),
            Action::NextView => after == (AppView {
                active_view: if self.active_view == ui::View::Library {
                    ui::View::Queue
                } else {
                    ui::View::Library
                },
                ..self
            }),
            Action::OpenSearch => after == (AppView {
                search_mode: true,
                search_input: Seq::empty(),
                ..self
            }),
            Action::MoveSelection(delta) => after == self.move_selection(delta as int),
            Action::Activate => self.activated(seen, after),
            Action::AddToQueue { all_visible } => after == self.add_to_queue(all_visible),
            Action::DeleteOrRemove => after == if self.active_view == ui::View::Library {
                self.delete_local()
            } else {
                self.remove_queued(seen)
            },
            Action::MoveQueueItem(delta) => after == self.move_queued(delta as int),
            Action::ClearQueue => after == self.clear_queue(),
            Action::CyclePlaybackMode => after == self.cycle_playback_mode(),
            Action::CyclePlaybackBitrate => after == self.cycle_playback_bitrate(),
            Action::CycleDownloadBitrate => after == self.cycle_download_bitrate(),
            Action::TogglePause => after == (AppView {
                engine: self.engine.toggled(seen.healthy),
                ..self
            }),
            Action::NextTrack => self.queue.next_step(after.queue) && after == self.next(
                after.queue,
                seen,
            ),
            Action::PreviousTrack => after == self.previous(seen),
            Action::Download { all_visible } => after == self.download(all_visible),
            Action::Logout => after == self.logout(),
            Action::AdjustVolume(percent) => after == self.request(
                Request::AdjustVolume { percent },
            ),
        }
    }

    /// `after` is what a search leads to.
    pub open spec fn search_applied(self, after: AppView) -> bool {
        match self.session {
            None => after == self,
            Some(session) => after == self.searched(after.listed()) && session.library.is_listing(
                after.listed(),
                session.library.sought(self.search_input),
            ),
        }
    }

    /// `after` is what a key leads to while the search prompt is open.
    pub open spec fn search_keyed(self, key: Key, after: AppView) -> bool {
        let closed = AppView { search_mode: false, ..self };
        match key {
            Key::Enter => closed.search_applied(after),
            Key::Esc => after == closed,
            Key::Backspace => after == (AppView {
                search_input: without_last(self.search_input),
                ..self
            }),
            Key::Char(c) => after == (AppView { search_input: self.search_input.push(c), ..self }),
            _ => after == self,
        }
    }

    /// What a key leads to while the client id is asked for.
    pub open spec fn client_id_keyed(self, key: Key) -> AppView {
        let client_id = trim(self.client_id_input, CharSet::WhiteSpace);
        match key {
            Key::Enter => if client_id.len() > 0 {
                (AppView {
                    config: ConfigView { client_id: Some(client_id), ..self.config },
                    ..self
                }).request(Request::SaveConfig(Setting::ClientId)).start_authorization()
            } else {
                self
            },
            Key::Char(c) => if c == 'q' {
                self.quit()
            } else {
                AppView { client_id_input: self.client_id_input.push(c), ..self }
            },
            Key::Backspace => AppView {
                client_id_input: without_last(self.client_id_input),
                ..self
            },
            Key::Esc => self.quit(),
            _ => self,
        }
    }

    /// What a key leads to on the error screen.
    pub open spec fn error_keyed(self, key: Key) -> AppView {
        match key {
            Key::Char(c) => if c == 'l' {
                if self.config.client_id is Some {
                    self.request(Request::DeleteToken).start_authorization()
                } else {
                    self.need_client_id()
                }
            } else if c == 'q' {
                self.quit()
            } else {
                self
            },
            Key::Esc => self.quit(),
            _ => self,
        }
    }

    /// `after` is what a key leads to.
    pub open spec fn keyed(self, press: KeyPress, seen: Observed, after: AppView) -> bool {
        if press.control && press.key == Key::Char('c') {
            after == self.quit()
        } else if self.search_mode {
            self.search_keyed(press.key, after)
        } else {
            match self.phase {
                PhaseView::NeedClientId => after == self.client_id_keyed(press.key),
                PhaseView::Error(_) => after == self.error_keyed(press.key),
                PhaseView::Ready => match key_action(press.key) {
                    Some(action) => self.acted(action, seen, after),
                    None => after == self,
                },
                _ => after == if press.key == Key::Char('q') {
                    self.quit()
                } else {
                    self
                },
            }
        }
    }

    /// The state of playback as it is shown.
    pub open spec fn playback_state(self) -> ui::PlaybackState {
        match self.engine.phase {
            PlaybackPhase::Idle => ui::PlaybackState::Stopped,
            PlaybackPhase::WaitingForAudio => if self.engine.checkpoint is Some {
                ui::PlaybackState::Paused
            } else {
                ui::PlaybackState::WaitingForAudio
            },
            PlaybackPhase::Loading => ui::PlaybackState::Loading,
            PlaybackPhase::Active => if self.engine.desired.spec_paused() {
                ui::PlaybackState::Paused
            } else {
                ui::PlaybackState::Playing
            },
        }
    }

    /// How far a track is played, as far as the track's length is not looked at.
    pub open spec fn raw_elapsed(self, track_id: u64, position: Option<u128>) -> u128 {
        match self.engine.phase {
            PlaybackPhase::Active => if self.engine.audio is Ready {
                or_default(position, 0)
            } else {
                0
            },
            PlaybackPhase::WaitingForAudio => match self.engine.checkpoint {
                Some(point) => if point.generation == self.engine.generation && point.track_id
                    == track_id {
                    point.position
                } else {
                    0
                },
                None => 0,
            },
            _ => 0,
        }
    }

    /// How far a track is played: not beyond its length, where that is known.
    pub open spec fn elapsed(self, track_id: u64, length: u128, position: Option<u128>) -> u128 {
        let elapsed = self.raw_elapsed(track_id, position);
        if length != 0 && length < elapsed {
            length
        } else {
            elapsed
        }
    }
}

/// The length of a track in nanoseconds.
pub open spec fn track_nanos(length: i64) -> u128 {
    if length > 0 {
        (length * 1_000_000_000) as u128
    } else {
        0
    }
}

/// The summary of what is played.
pub open spec fn is_summary(
    summary: ui::PlaybackSummary,
    app: AppView,
    library: LibraryView,
    position: Option<u128>,
) -> bool {
    &&& summary.state == app.playback_state()
    &&& match app.queue.current_track() {
        None => summary.label@ == "Nothing playing"@ && summary.elapsed is None && summary.duration
            is None,
        Some(track_id) => {
            &&& summary.label@ == library.label(track_id)
            &&& if library.tracks.dom().contains(track_id) {
                let length = track_nanos(library.tracks[track_id].length);
                summary.duration == Some(length) && summary.elapsed == Some(
                    app.elapsed(track_id, length, position),
                )
            } else {
                summary.elapsed is None && summary.duration is None
            }
        },
    }
}

/// What an optional error says.
pub open spec fn error_view(error: Option<&str>) -> Option<Seq<char>> {
    match error {
        Some(error) => Some(error@),
        None => None,
    }
}

/// What came of deleting a local file.
#[derive(Debug)]
pub enum DeleteOutcome<'a> {
    /// The file at this path was deleted.
    Deleted(&'a str),
    /// There was no file.
    NotFound,
    Failed(&'a str),
}

/// What came of looking for a stored token.
#[derive(Debug)]
pub enum TokenLookup<'a> {
    Found,
    Missing,
    Failed(&'a str),
}

/// What comes from the audio worker.
#[derive(Debug)]
pub enum WorkerEvent<'a> {
    OpenFinished { attempt_id: u64, outcome: OpenOutcome<'a> },
    ProbeFinished {
        probe_id: u64,
        sink_epoch: Option<SinkEpoch>,
        result: &'a DefaultOutputProbe,
    },
    Stream(&'a AudioStreamEvent),
}

/// What comes back from a task in the background, or from an effect.
#[derive(Debug)]
pub enum BackendEvent<'a> {
    DeviceCode(std::result::Result<DeviceCode, String>),
    /// A token was received, or the error why not.
    Token(Option<&'a str>),
    /// The token was saved, or the error why not.
    TokenSaved(Option<&'a str>),
    Session { library: Library, server_bitrate: Option<Bitrate> },
    SessionFailed(&'a str),
    /// The address of a stream was resolved, or the error why not.
    StreamResolved { generation: u64, track_id: u64, bitrate: Bitrate, error: Option<&'a str> },
    /// A source was decoded, or the error why not.
    StreamDecoded { source: SourceTag, error: Option<&'a str>, healthy: bool },
    /// The source that was decoded was started on the output, or not.
    SourceAttached {
        source: SourceTag,
        outcome: PlayOutcome<'a>,
        label: &'a str,
        healthy: bool,
        now: u64,
    },
    /// The local file was started on the output, or not.
    LocalPlayed { outcome: PlayOutcome<'a>, label: &'a str, healthy: bool, now: u64 },
    /// The local file that was to be played is missing.
    LocalMissing { track_id: u64 },
    /// The local file from which playback was to go on is missing.
    RestoreMissing,
    /// The transfer of a stream failed.
    StreamInterrupted { generation: u64, error: &'a str },
    DownloadFinished { task_id: u64, result: Result<()>, message: &'a str },
    LoggedOut { client_id: &'a str, error: Option<&'a str> },
}

impl AppView {
    /// The event answers what was asked: a source that was to be attached still counts, and a file
    /// that was to be played belongs to the track that is wanted.
    pub open spec fn expects(self, event: BackendEvent<'_>) -> bool {
        match event {
            BackendEvent::Session { library, .. } => library.wf(),
            BackendEvent::SourceAttached { source, .. } => source_counts(
                source,
                self.engine.generation,
                self.engine.phase,
                self.engine.desired,
                self.engine.checkpoint,
                self.engine.audio.spec_sink_epoch(),
            ),
            BackendEvent::LocalPlayed { .. } => self.engine.desired is Track
                && self.engine.checkpoint is None,
            BackendEvent::LocalMissing { track_id } => self.engine.desired.spec_track_id() == Some(
                track_id,
            ) && self.engine.checkpoint is None,
            _ => true,
        }
    }

    /// `after` is what the passing of time leads to.
    pub open spec fn went_by(self, seen: Observed, after: AppView) -> bool {
        if self.at_end(seen) {
            self.queue.next_step(after.queue) && after == self.advanced(after.queue, seen)
        } else {
            after == self
        }
    }

    /// The client has started and has looked for a stored token.
    pub open spec fn bootstrapped(self, lookup: TokenLookup<'_>) -> AppView {
        if self.config.client_id is None {
            self.need_client_id().tell("Enter your iBroadcast OAuth client_id"@)
        } else {
            match lookup {
                TokenLookup::Found => self.start_session_load(),
                TokenLookup::Missing => self.start_authorization(),
                TokenLookup::Failed(error) => self.failed(error@),
            }
        }
    }

    /// The local file of a track was deleted, or not.
    pub open spec fn deleted(self, track_id: u64, outcome: DeleteOutcome<'_>) -> AppView {
        match outcome {
            DeleteOutcome::Deleted(path) => self.forget_local(track_id).tell(
                "Deleted local file: "@ + path@,
            ),
            DeleteOutcome::NotFound => self.forget_local(track_id).tell(
                "Track is not available locally"@,
            ),
            DeleteOutcome::Failed(error) => self.tell("Delete failed: "@ + error@),
        }
    }

    /// A scan of the disk has come to its end.
    pub open spec fn scanned(self, scanned: Seq<(u64, bool)>) -> AppView {
        AppView {
            downloads: DownloadsView { local: found_tracks(scanned), ..self.downloads },
            ..self
        }
    }

    /// The client is about to end.
    pub open spec fn shut_down(self, now: u64) -> AppView {
        AppView {
            engine: EngineView {
                audio: AudioState::Unavailable { retry_at: now as u128, retry_count: 0 },
                ..self.engine.stopped()
            },
            ..self
        }
    }

    /// A local file that was to be played is missing: the track is streamed.
    pub open spec fn local_missing(self, track_id: u64) -> AppView {
        let forgotten = self.forget_local(track_id);
        AppView {
            engine: forgotten.engine.fetching(track_id, forgotten.facts(track_id)),
            ..forgotten
        }
    }

    pub open spec fn device_code_received(
        self,
        result: std::result::Result<DeviceCode, String>,
    ) -> AppView {
        match result {
            Ok(code) => if self.config.client_id is Some {
                (AppView { phase: PhaseView::Authorizing(code@), ..self }).tell(
                    "Waiting for browser authorization..."@,
                ).request(Request::PollToken)
            } else {
                self.need_client_id()
            },
            Err(error) => self.failed(error@),
        }
    }

    pub open spec fn token_received(self, error: Option<Seq<char>>) -> AppView {
        match error {
            Some(error) => self.failed(error),
            None => if self.config.client_id is Some {
                self.request(Request::SaveToken)
            } else {
                self.need_client_id()
            },
        }
    }

    pub open spec fn token_saved(self, error: Option<Seq<char>>) -> AppView {
        match error {
            Some(error) => self.failed(error),
            None => self.start_session_load(),
        }
    }

    /// A download has come to an end; one that is not known is ignored.
    pub open spec fn downloaded(
        self,
        task_id: u64,
        succeeded: bool,
        message: Seq<char>,
    ) -> AppView {
        let recorded = AppView {
            downloads: self.downloads.completed(task_id, succeeded),
            ..self
        };
        if !self.downloads.knows(task_id) {
            recorded
        } else if succeeded {
            recorded.tell("Downloaded "@ + message)
        } else {
            recorded.tell(message)
        }
    }

    /// `after` is what an event leads to.
    pub open spec fn notified(self, event: BackendEvent<'_>, after: AppView) -> bool {
        match event {
            BackendEvent::DeviceCode(result) => after == self.device_code_received(result),
            BackendEvent::Token(error) => after == self.token_received(error_view(error)),
            BackendEvent::TokenSaved(error) => after == self.token_saved(error_view(error)),
            BackendEvent::Session { library, server_bitrate } => {
                &&& after == self.entered(library@, server_bitrate, after.listed())
                &&& library@.is_listing(after.listed(), |id: u64| library@.listed(id))
            },
            BackendEvent::SessionFailed(error) => after == self.failed(error@),
            BackendEvent::StreamResolved { generation, track_id, bitrate, error } => after == (
            AppView {
                engine: self.engine.stream_resolved(
                    generation,
                    track_id,
                    bitrate,
                    error_view(error),
                ),
                ..self
            }),
            BackendEvent::StreamDecoded { source, error, healthy } => after == (AppView {
                engine: self.engine.decoded(source, error_view(error), healthy),
                ..self
            }),
            BackendEvent::SourceAttached { source, outcome, label, healthy, now } => after == (
            AppView {
                engine: self.engine.source_attached(
                    source.sink_epoch is Some,
                    outcome@,
                    label@,
                    healthy,
                    now,
                ),
                ..self
            }),
            BackendEvent::LocalPlayed { outcome, label, healthy, now } => after == (AppView {
                engine: self.engine.local_played(outcome@, label@, healthy, now),
                ..self
            }),
            BackendEvent::LocalMissing { track_id } => after == self.local_missing(track_id),
            BackendEvent::RestoreMissing => after == (AppView {
                engine: self.engine.unrestorable(),
                ..self
            }),
            BackendEvent::StreamInterrupted { generation, error } => after == (AppView {
                engine: self.engine.interrupted(generation, error@),
                ..self
            }),
            BackendEvent::DownloadFinished { task_id, result, message } => after
                == self.downloaded(task_id, result is Ok, message@),
            BackendEvent::LoggedOut { client_id, error } => after == self.logged_out(
                client_id@,
                error_view(error),
            ),
        }
    }
}

impl App {
    pub open spec fn wf(self) -> bool {
        self@.wf()
    }

    /// The application as it starts: an output is being opened, and nothing is known yet.
    pub fn new(config: Config, now: u64) -> (res: App)
        ensures
            res.wf(),
            res@ == (AppView {
                config: config@,
                phase: PhaseView::NeedClientId,
                client_id_input: Seq::empty(),
                search_input: Seq::empty(),
                search_mode: false,
                active_view: ui::View::Library,
                selected: 0,
                queue_selected: 0,
                session: None,
                engine: EngineView::initial(now).opening(
                    0,
                    PreviousOutput::Nothing,
                    "Opening audio output..."@,
                ),
                queue: QueueView::empty(config.playback_mode),
                downloads: DownloadsView {
                    tasks: Seq::empty(),
                    local: Set::empty(),
                    next_id: 0,
                },
                should_quit: false,
                requests: Seq::empty(),
            }),
    {
        let mut queue = PlaybackQueue::default();
        queue.set_playback_mode(config.playback_mode);
        let mut engine = Engine::new(now);
        engine.begin_audio_open(0, PreviousOutput::Nothing, "Opening audio output...");
        App {
            config,
            phase: Phase::NeedClientId,
            client_id_input: String::new(),
            search_input: String::new(),
            search_mode: false,
            active_view: ui::View::Library,
            selected: 0,
            queue_selected: 0,
            session: None,
            engine,
            queue,
            downloads: DownloadManager::default(),
            should_quit: false,
            requests: Vec::new(),
        }
    }

    /// The requests since this was last asked, in order.
    pub fn take_requests(&mut self) -> (res: Vec<Request>)
        requires
            old(self).wf(),
        ensures
            final(self).wf(),
            res@ == old(self)@.requests,
            final(self)@ == (AppView { requests: Seq::empty(), ..old(self)@ }),
    {
        let mut requests: Vec<Request> = Vec::new();
        std::mem::swap(&mut requests, &mut self.requests);
        requests
    }

    /// Tells the user something.
    pub fn tell(&mut self, status: String)
        requires
            old(self).wf(),
        ensures
            final(self).wf(),
            final(self)@ == old(self)@.tell(status@),
    {
        self.engine.set_status(status);
    }

    fn knows(&self, track_id: u64) -> (res: bool)
        ensures
            res == self@.knows(track_id),
    {
        match &self.session {
            Some(session) => session.library.tracks.get(&track_id).is_some(),
            None => false,
        }
    }

    /// The artist and the title of a track.
    pub fn track_label(&self, track_id: u64) -> (res: String)
        ensures
            res@ == self@.track_label(track_id),
    {
        match &self.session {
            Some(session) => session.library.track_label(track_id),
            None => {
                let mut label = "Track ".to_owned();
                push_decimal(&mut label, track_id);
                label
            },
        }
    }

    /// The bitrate for streams: the user's choice, else what the account prefers, else 128 kbps.
    pub fn effective_playback_bitrate(&self) -> (res: Bitrate)
        ensures
            res == self@.playback_bitrate(),
    {
        if let Some(bitrate) = self.config.playback_bitrate {
            return bitrate;
        }
        if let Some(session) = &self.session {
            if let Some(bitrate) = session.server_bitrate {
                return bitrate;
            }
        }
        Bitrate::default()
    }

    /// Stops playback; nothing is wanted any more.
    pub fn stop_requested_playback(&mut self)
        requires
            old(self).wf(),
        ensures
            final(self).wf(),
            final(self)@ == old(self)@.stop(),
    {
        self.engine.stop_requested_playback();
    }

    /// Wants the current track of the queue and starts it.
    pub fn request_playback_current(&mut self, seen: Observed)
        requires
            old(self).wf(),
        ensures
            final(self).wf(),
            final(self)@ == old(self)@.play_current(seen),
    {
        match self.queue.current_track() {
            None => {
                self.engine.stop_requested_playback();
            },
            Some(track_id) => {
                let label = self.track_label(track_id);
                let facts = TrackFacts {
                    logged_in: self.session.is_some(),
                    known: self.knows(track_id),
                    local: self.downloads.is_local(track_id),
                    label: label.as_str(),
                    bitrate: self.effective_playback_bitrate(),
                };
                self.engine.play_track(track_id, &facts, seen.healthy, seen.now);
            },
        }
    }

    /// Takes into account that the local file of a track that was to be played is missing: it was
    /// deleted by someone else, and the track is streamed.
    pub fn handle_local_missing(&mut self, track_id: u64)
        requires
            old(self).wf(),
            old(self)@.engine.desired.spec_track_id() == Some(track_id),
            old(self)@.engine.checkpoint is None,
        ensures
            final(self).wf(),
            final(self)@ == old(self)@.local_missing(track_id),
    {
        self.downloads.mark_not_local(track_id);
        let label = self.track_label(track_id);
        let facts = TrackFacts {
            logged_in: self.session.is_some(),
            known: self.knows(track_id),
            local: self.downloads.is_local(track_id),
            label: label.as_str(),
            bitrate: self.effective_playback_bitrate(),
        };
        self.engine.fetch_stream(track_id, &facts);
    }

    /// Takes into account that opening an output has come to an end.
    pub fn handle_audio_open_finished(
        &mut self,
        attempt_id: u64,
        outcome: &OpenOutcome<'_>,
        now: u64,
    )
        requires
            old(self).wf(),
        ensures
            final(self).wf(),
            final(self)@ == (AppView {
                engine: old(self)@.engine.open_finished(
                    attempt_id,
                    outcome@,
                    old(self)@.desired_facts(),
                    now,
                ),
                ..old(self)@
            }),
    {
        let track_id: u64 = match self.engine.desired.track_id() {
            Some(track_id) => track_id,
            None => 0,
        };
        let label = self.track_label(track_id);
        let facts = TrackFacts {
            logged_in: self.session.is_some(),
            known: self.knows(track_id),
            local: self.downloads.is_local(track_id),
            label: label.as_str(),
            bitrate: self.effective_playback_bitrate(),
        };
        self.engine.handle_audio_open_finished(attempt_id, outcome, &facts, now);
    }

    /// Goes on to the next track when the current one has come to its end.
    pub fn tick(&mut self, seen: Observed)
        requires
            old(self).wf(),
        ensures
            final(self).wf(),
            old(self)@.went_by(seen, final(self)@),
    {
        let ready = matches!(self.engine.audio, AudioState::Ready { .. });
        if !should_advance_queue(
            self.engine.phase,
            self.engine.desired,
            self.queue.current_track(),
            ready && seen.healthy,
            ready && seen.finished,
        ) {
            return;
        }
        if self.queue.next().is_some() {
            self.request_playback_current(seen);
        } else {
            self.stop_requested_playback();
            self.tell("Queue finished".to_owned());
        }
    }

    fn next_track(&mut self, seen: Observed)
        requires
            old(self).wf(),
        ensures
            final(self).wf(),
            old(self)@.queue.next_step(final(self)@.queue),
            final(self)@ == old(self)@.next(final(self)@.queue, seen),
    {
        if self.queue.next().is_some() {
            self.request_playback_current(seen);
        }
    }

    fn previous_track(&mut self, seen: Observed)
        requires
            old(self).wf(),
        ensures
            final(self).wf(),
            final(self)@ == old(self)@.previous(seen),
    {
        if self.queue.previous().is_some() {
            self.request_playback_current(seen);
        }
    }

    fn listed_count(&self) -> (res: usize)
        ensures
            res == self@.listed().len(),
    {
        match &self.session {
            Some(session) => session.filtered_track_ids.len(),
            None => 0,
        }
    }

    /// Moves the selection of the view, within its rows.
    pub fn move_selection(&mut self, delta: isize)
        requires
            old(self).wf(),
        ensures
            final(self).wf(),
            final(self)@ == old(self)@.move_selection(delta as int),
    {
        match self.active_view {
            ui::View::Library => {
                let count: usize = self.listed_count();
                if count > 0 {
                    self.selected = moved_row(self.selected, delta, count);
                }
            },
            ui::View::Queue => {
                let count: usize = self.queue.len();
                if count > 0 {
                    self.queue_selected = moved_row(self.queue_selected, delta, count);
                }
            },
        }
    }

    /// The track that is selected in the library.
    pub fn selected_library_track_id(&self) -> (res: Option<u64>)
        ensures
            res == self@.selected_track(),
    {
        match &self.session {
            Some(session) => {
                let count: usize = session.filtered_track_ids.len();
                if count == 0 {
                    return None;
                }
                let row: usize = if self.selected < count {
                    self.selected
                } else {
                    count - 1
                };
                Some(session.filtered_track_ids[row])
            },
            None => None,
        }
    }

    /// Plays what is selected. A track of the library is queued at most once: where it is queued
    /// already, its entry is played.
    pub fn activate_selected(&mut self, seen: Observed)
        requires
            old(self).wf(),
        ensures
            final(self).wf(),
            match old(self)@.active_view {
                ui::View::Library => match old(self)@.selected_track() {
                    Some(track_id) => {
                        let index = final(self)@.queue_selected;
                        &&& index < final(self)@.queue.tracks.len()
                        &&& final(self)@.queue.tracks[index as int] == track_id
                        &&& final(self)@ == old(self)@.activate_library(index, seen)
                    },
                    None => final(self)@ == old(self)@,
                },
                ui::View::Queue => final(self)@ == old(self)@.activate_queue(seen),
            },
    {
        match self.active_view {
            ui::View::Library => {
                if let Some(track_id) = self.selected_library_track_id() {
                    let (index, _) = self.queue.enqueue(track_id);
                    self.queue_selected = index;
                    self.queue.play_index(index);
                    self.request_playback_current(seen);
                }
            },
            ui::View::Queue => {
                if self.queue.play_index(self.queue_selected).is_some() {
                    self.request_playback_current(seen);
                }
            },
        }
    }

    /// Adds the selected track, or all that are listed, to the queue.
    pub fn add_to_queue(&mut self, all_visible: bool)
        requires
            old(self).wf(),
        ensures
            final(self).wf(),
            final(self)@ == old(self)@.add_to_queue(all_visible),
    {
        if self.active_view != ui::View::Library {
            return;
        }
        let mut candidates: usize = 0;
        let mut added: usize = 0;
        if all_visible {
            match &self.session {
                Some(session) => {
                    candidates = session.filtered_track_ids.len();
                    added = self.queue.enqueue_many(session.filtered_track_ids.as_slice());
                },
                None => {
                    return;
                },
            }
        } else if let Some(track_id) = self.selected_library_track_id() {
            let ghost tracks = self@.queue.tracks;
            candidates = 1;
            let (_, new) = self.queue.enqueue(track_id);
            added = if new {
                1
            } else {
                0
            };
            proof {
                lemma_one_track(tracks, track_id);
            }
        } else {
            proof {
                assert(with_tracks(self@.queue.tracks, Seq::empty()) == self@.queue.tracks);
            }
        }
        let mut status = String::new();
        if candidates == 0 {
            status.append("No tracks to add");
        } else if added == 0 {
            status.append("Already in queue");
        } else {
            status.append("Added ");
            push_decimal(&mut status, added as u64);
            status.append(" track(s) to queue");
            if added < candidates {
                status.append(" (");
                push_decimal(&mut status, (candidates - added) as u64);
                status.append(" already queued)");
            }
        }
        proof {
            reveal_strlit(" track(s) to queue (");
            reveal_strlit(" track(s) to queue");
            reveal_strlit(" (");
            assert(" track(s) to queue ("@ =~= " track(s) to queue"@ + " ("@);
            assert(status@ =~= added_text(candidates as nat, added as nat));
        }
        self.tell(status);
    }

    /// Deletes the local file of the selected track, unless something speaks against it.
    pub fn delete_selected_local_file(&mut self)
        requires
            old(self).wf(),
        ensures
            final(self).wf(),
            final(self)@ == old(self)@.delete_local(),
    {
        let track_id: u64 = match self.selected_library_track_id() {
            Some(track_id) => track_id,
            None => {
                self.tell("No track selected".to_owned());
                return;
            },
        };
        if self.downloads.is_running(track_id) {
            self.tell("Download is still running; wait before deleting".to_owned());
            return;
        }
        if !self.downloads.is_local(track_id) {
            self.tell("Track is not available locally".to_owned());
            return;
        }
        if !self.knows(track_id) {
            return;
        }
        if self.engine.desired.track_id() == Some(track_id) {
            self.stop_requested_playback();
        }
        self.requests.push(Request::DeleteLocalFile { track_id });
    }

    /// Takes into account what came of deleting a local file. A file that someone else deleted is
    /// no longer local either.
    pub fn handle_local_deleted(&mut self, track_id: u64, outcome: &DeleteOutcome<'_>)
        requires
            old(self).wf(),
        ensures
            final(self).wf(),
            final(self)@ == old(self)@.deleted(track_id, *outcome),
    {
        match outcome {
            DeleteOutcome::Deleted(path) => {
                self.downloads.mark_not_local(track_id);
                self.tell(prefixed("Deleted local file: ", path));
            },
            DeleteOutcome::NotFound => {
                self.downloads.mark_not_local(track_id);
                self.tell("Track is not available locally".to_owned());
            },
            DeleteOutcome::Failed(error) => {
                self.tell(prefixed("Delete failed: ", error));
            },
        }
    }

    /// Removes the selected entry from the queue.
    pub fn remove_queue_selected(&mut self, seen: Observed)
        requires
            old(self).wf(),
        ensures
            final(self).wf(),
            final(self)@ == old(self)@.remove_queued(seen),
    {
        let count: usize = self.queue.len();
        if count == 0 {
            return;
        }
        let row: usize = if self.queue_selected < count {
            self.queue_selected
        } else {
            count - 1
        };
        let removed = self.queue.remove(row);
        let left: usize = self.queue.len();
        if self.queue_selected >= left {
            self.queue_selected = if left == 0 {
                0
            } else {
                left - 1
            };
        }
        if removed == self.engine.desired.track_id() {
            if self.queue.current_track().is_some() {
                self.request_playback_current(seen);
            } else {
                self.stop_requested_playback();
                self.tell("Queue is empty".to_owned());
            }
        } else {
            self.tell("Removed track from queue".to_owned());
        }
    }

    /// Moves the selected entry of the queue up or down.
    pub fn move_queue_item(&mut self, delta: isize)
        requires
            old(self).wf(),
        ensures
            final(self).wf(),
            final(self)@ == old(self)@.move_queued(delta as int),
    {
        let count: usize = self.queue.len();
        if self.active_view != ui::View::Queue || count == 0 {
            return;
        }
        let row: usize = if self.queue_selected < count {
            self.queue_selected
        } else {
            count - 1
        };
        let moved = if delta < 0 {
            self.queue.move_up(row)
        } else {
            self.queue.move_down(row)
        };
        if let Some(index) = moved {
            self.queue_selected = index;
            self.tell("Moved queue item".to_owned());
        }
    }

    /// Empties the queue and stops playback.
    pub fn clear_queue(&mut self)
        requires
            old(self).wf(),
        ensures
            final(self).wf(),
            final(self)@ == old(self)@.clear_queue(),
    {
        if self.active_view != ui::View::Queue {
            return;
        }
        self.queue.clear();
        self.queue_selected = 0;
        self.stop_requested_playback();
        self.tell("Queue cleared".to_owned());
    }

    /// Lists the tracks that the search finds.
    pub fn apply_search(&mut self)
        requires
            old(self).wf(),
        ensures
            final(self).wf(),
            final(self)@ == old(self)@.searched(final(self)@.listed()),
            old(self)@.session matches Some(session) ==> session.library.is_listing(
                final(self)@.listed(),
                session.library.sought(old(self)@.search_input),
            ),
    {
        let mut session = match self.session.take() {
            Some(session) => session,
            None => {
                return;
            },
        };
        let ids = session.library.search_track_ids(self.search_input.as_str());
        let mut status = String::new();
        push_decimal(&mut status, ids.len() as u64);
        status.append(" matches for '");
        status.append(self.search_input.as_str());
        status.append("'");
        assert(status@ =~= decimal(ids@.len()) + " matches for '"@ + self.search_input@ + "'"@);
        session.filtered_track_ids = ids;
        self.session = Some(session);
        self.selected = 0;
        self.active_view = ui::View::Library;
        self.tell(status);
    }

    pub fn cycle_playback_bitrate(&mut self)
        requires
            old(self).wf(),
        ensures
            final(self).wf(),
            final(self)@ == old(self)@.cycle_playback_bitrate(),
    {
        let next = self.effective_playback_bitrate().next();
        self.config.playback_bitrate = Some(next);
        self.requests.push(Request::SaveConfig(Setting::PlaybackBitrate));
    }

    pub fn cycle_download_bitrate(&mut self)
        requires
            old(self).wf(),
        ensures
            final(self).wf(),
            final(self)@ == old(self)@.cycle_download_bitrate(),
    {
        self.config.download_bitrate = self.config.download_bitrate.next_download();
        self.requests.push(Request::SaveConfig(Setting::DownloadBitrate));
    }

    pub fn cycle_playback_mode(&mut self)
        requires
            old(self).wf(),
        ensures
            final(self).wf(),
            final(self)@ == old(self)@.cycle_playback_mode(),
    {
        let mode = self.queue.cycle_playback_mode();
        self.config.playback_mode = mode;
        self.requests.push(Request::SaveConfig(Setting::PlaybackMode));
    }

    /// Takes into account what came of saving the configuration.
    pub fn handle_config_saved(&mut self, setting: Setting, error: Option<&str>)
        requires
            old(self).wf(),
        ensures
            final(self).wf(),
            final(self)@ == old(self)@.config_saved(setting, error_view(error)),
    {
        let mut status = match setting {
            Setting::ClientId => {
                return;
            },
            Setting::PlaybackBitrate => prefixed(
                "Playback bitrate set to ",
                self.effective_playback_bitrate().as_path_segment(),
            ),
            Setting::DownloadBitrate => prefixed(
                "Download bitrate set to ",
                self.config.download_bitrate.as_path_segment(),
            ),
            Setting::PlaybackMode => prefixed(
                "Playback mode set to ",
                self.config.playback_mode.label(),
            ),
        };
        match error {
            Some(error) => {
                status.append(", but config save failed: ");
                status.append(error);
            },
            None => {
                if setting == Setting::PlaybackBitrate {
                    status.append(" for future streams");
                }
            },
        }
        self.tell(status);
    }

    /// The tracks that a download is asked for.
    fn download_targets(&self, all_visible: bool) -> (res: Vec<u64>)
        ensures
            res@ == self@.download_targets(all_visible),
    {
        let mut ids: Vec<u64> = Vec::new();
        match self.active_view {
            ui::View::Library => {
                if all_visible {
                    if let Some(session) = &self.session {
                        ids.extend_from_slice(session.filtered_track_ids.as_slice());
                    }
                } else if let Some(track_id) = self.selected_library_track_id() {
                    ids.push(track_id);
                }
            },
            ui::View::Queue => {
                let tracks = self.queue.tracks();
                if all_visible {
                    ids.extend_from_slice(tracks);
                } else if self.queue_selected < tracks.len() {
                    ids.push(tracks[self.queue_selected]);
                }
            },
        }
        assert(ids@ =~= self@.download_targets(all_visible));
        ids
    }

    /// Begins the downloads of the selected track or of all tracks of the view. Tracks that are on
    /// disk or being downloaded are skipped.
    pub fn download_tracks(&mut self, all_visible: bool)
        requires
            old(self).wf(),
            old(self)@.has_room(),
        ensures
            final(self).wf(),
            final(self)@ == old(self)@.download(all_visible),
    {
        let ids = self.download_targets(all_visible);
        if self.session.is_none() {
            return;
        }
        let ghost start = self@;
        let mut queued: usize = 0;
        let mut i: usize = 0;
        proof {
            assert(ids@.take(0) =~= Seq::<u64>::empty());
            assert(ids@.len() <= start.listed().len() + start.queue.tracks.len());
        }
        while i < ids.len()
            invariant
                self.wf(),
                i <= ids@.len(),
                queued <= i,
                self@ == start.downloading(ids@.take(i as int)).0,
                queued == start.downloading(ids@.take(i as int)).1,
                self@.downloads.next_id + (ids@.len() - i) < u64::MAX,
            decreases ids@.len() - i,
        {
            let track_id: u64 = ids[i];
            proof {
                assert(ids@.take(i + 1).drop_last() =~= ids@.take(i as int));
                assert(ids@.take(i + 1).last() == track_id);
            }
            let ghost before = self@;
            if !(self.downloads.is_running(track_id) || self.downloads.is_local(track_id)
                || !self.knows(track_id)) {
                let task_id: u64 = self.downloads.begin(track_id);
                self.requests.push(Request::Download { task_id, track_id });
                queued = queued + 1;
            }
            i = i + 1;
        }
        assert(ids@.take(i as int) =~= ids@);
        let skipped: usize = ids.len() - queued;
        let mut status = String::new();
        if queued == 0 {
            if skipped == 0 {
                status.append("No tracks selected for download");
            } else {
                status.append("No new downloads queued; skipped ");
                push_decimal(&mut status, skipped as u64);
                status.append(" local/running track(s)");
            }
        } else {
            status.append("Queued ");
            push_decimal(&mut status, queued as u64);
            if skipped == 0 {
                status.append(" download(s)");
            } else {
                status.append(" download(s), skipped ");
                push_decimal(&mut status, skipped as u64);
                status.append(" local/running track(s)");
            }
        }
        assert(status@ =~= queued_text(queued as nat, skipped as nat));
        self.tell(status);
    }

    /// Takes into account that a download has come to an end. Downloads of a session that was left
    /// are not known any more. `message` tells of the file, or of the failure.
    pub fn handle_download_finished<T>(
        &mut self,
        task_id: u64,
        result: &Result<T>,
        message: &str,
    )
        requires
            old(self).wf(),
        ensures
            final(self).wf(),
            final(self)@ == old(self)@.downloaded(task_id, result is Ok, message@),
    {
        if self.downloads.complete(task_id, result) {
            match result {
                Ok(_) => self.tell(prefixed("Downloaded ", message)),
                Err(_) => self.tell(message.to_owned()),
            }
        }
    }

    /// Begins a login.
    pub fn start_authorization(&mut self)
        requires
            old(self).wf(),
        ensures
            final(self).wf(),
            final(self)@ == old(self)@.start_authorization(),
    {
        self.phase = Phase::RequestingDeviceCode;
        self.tell("Requesting device code...".to_owned());
        self.requests.push(Request::RequestDeviceCode);
    }

    /// Begins to establish a session.
    pub fn start_session_load(&mut self)
        requires
            old(self).wf(),
        ensures
            final(self).wf(),
            final(self)@ == old(self)@.start_session_load(),
    {
        self.phase = Phase::LoadingLibrary;
        self.tell("Loading iBroadcast library...".to_owned());
        self.requests.push(Request::LoadSession);
    }

    /// Begins with what is stored. `lookup` tells of the token for the client id of the
    /// configuration.
    pub fn bootstrap(&mut self, lookup: &TokenLookup<'_>)
        requires
            old(self).wf(),
        ensures
            final(self).wf(),
            final(self)@ == old(self)@.bootstrapped(*lookup),
    {
        if self.config.client_id.is_none() {
            self.phase = Phase::NeedClientId;
            self.tell("Enter your iBroadcast OAuth client_id".to_owned());
            return;
        }
        match lookup {
            TokenLookup::Found => self.start_session_load(),
            TokenLookup::Missing => self.start_authorization(),
            TokenLookup::Failed(error) => {
                self.phase = Phase::Error((*error).to_owned());
            },
        }
    }

    /// Takes a device code into account, or why there is none.
    pub fn handle_device_code(&mut self, result: std::result::Result<DeviceCode, String>)
        requires
            old(self).wf(),
        ensures
            final(self).wf(),
            final(self)@ == old(self)@.device_code_received(result),
    {
        match result {
            Ok(code) => {
                if self.config.client_id.is_some() {
                    self.phase = Phase::Authorizing(code);
                    self.tell("Waiting for browser authorization...".to_owned());
                    self.requests.push(Request::PollToken);
                } else {
                    self.phase = Phase::NeedClientId;
                }
            },
            Err(error) => {
                self.phase = Phase::Error(error);
            },
        }
    }

    /// Takes into account that a token was received, or why not.
    pub fn handle_token(&mut self, error: Option<&str>)
        requires
            old(self).wf(),
        ensures
            final(self).wf(),
            final(self)@ == old(self)@.token_received(error_view(error)),
    {
        match error {
            Some(error) => {
                self.phase = Phase::Error(error.to_owned());
            },
            None => {
                if self.config.client_id.is_some() {
                    self.requests.push(Request::SaveToken);
                } else {
                    self.phase = Phase::NeedClientId;
                }
            },
        }
    }

    /// Takes into account what came of saving a token: the session is established with it.
    pub fn handle_token_saved(&mut self, error: Option<&str>)
        requires
            old(self).wf(),
        ensures
            final(self).wf(),
            final(self)@ == old(self)@.token_saved(error_view(error)),
    {
        match error {
            Some(error) => {
                self.phase = Phase::Error(error.to_owned());
            },
            None => self.start_session_load(),
        }
    }

    /// Takes into account that no session could be established.
    pub fn handle_session_failed(&mut self, error: &str)
        requires
            old(self).wf(),
        ensures
            final(self).wf(),
            final(self)@ == old(self)@.failed(error@),
    {
        self.phase = Phase::Error(error.to_owned());
    }

    /// Enters the main screen with the library of a session.
    pub fn enter_ready(&mut self, library: Library, server_bitrate: Option<Bitrate>)
        requires
            old(self).wf(),
            library.wf(),
        ensures
            final(self).wf(),
            final(self)@ == old(self)@.entered(library@, server_bitrate, final(self)@.listed()),
            library@.is_listing(final(self)@.listed(), |id: u64| library@.listed(id)),
    {
        self.stop_requested_playback();
        let filtered_track_ids = library.sorted_track_ids();
        let count: usize = library.tracks.len();
        proof {
            assert(library@.tracks.dom() =~= library.tracks@.dom());
        }
        let mut status = "Loaded ".to_owned();
        push_decimal(&mut status, count as u64);
        status.append(" tracks");
        self.downloads.clear();
        self.requests.push(Request::ScanLocalFiles);
        self.session = Some(SessionCtx { library, server_bitrate, filtered_track_ids });
        self.selected = 0;
        self.queue_selected = 0;
        self.active_view = ui::View::Library;
        self.search_input.clear();
        self.phase = Phase::Ready;
        self.tell(status);
    }

    /// Logs out: the session ends here at once, and the token is revoked in the background.
    pub fn start_logout(&mut self)
        requires
            old(self).wf(),
        ensures
            final(self).wf(),
            final(self)@ == old(self)@.logout(),
    {
        self.stop_requested_playback();
        self.session = None;
        self.queue.clear();
        if self.config.client_id.is_none() {
            self.phase = Phase::NeedClientId;
            return;
        }
        self.queue_selected = 0;
        self.selected = 0;
        self.downloads.clear();
        self.search_mode = false;
        self.phase = Phase::LoggingOut;
        self.tell("Logged out locally; revoking token...".to_owned());
        self.requests.push(Request::Logout);
    }

    /// Takes into account that the token was revoked, or why not.
    pub fn handle_logged_out(&mut self, client_id: &str, error: Option<&str>)
        requires
            old(self).wf(),
        ensures
            final(self).wf(),
            final(self)@ == old(self)@.logged_out(client_id@, error_view(error)),
    {
        self.client_id_input = client_id.to_owned();
        self.config.client_id = Some(client_id.to_owned());
        self.phase = Phase::NeedClientId;
        match error {
            None => self.tell("Logged out. Press Enter to authorize again.".to_owned()),
            Some(error) => {
                let mut status = prefixed("Logged out locally. Token revoke failed: ", error);
                status.append(". Press Enter to authorize again.");
                self.tell(status);
            },
        }
    }

    /// Takes into account that the address of a stream was resolved, or not.
    fn handle_stream_resolved(
        &mut self,
        generation: u64,
        track_id: u64,
        bitrate: Bitrate,
        error: Option<&str>,
    )
        requires
            old(self).wf(),
        ensures
            final(self).wf(),
            final(self)@ == (AppView {
                engine: old(self)@.engine.stream_resolved(
                    generation,
                    track_id,
                    bitrate,
                    error_view(error),
                ),
                ..old(self)@
            }),
    {
        self.engine.handle_stream_resolved(generation, track_id, bitrate, error);
    }

    /// Takes into account that a source was decoded, or not.
    fn handle_stream_decoded(&mut self, source: SourceTag, error: Option<&str>, healthy: bool)
        requires
            old(self).wf(),
        ensures
            final(self).wf(),
            final(self)@ == (AppView {
                engine: old(self)@.engine.decoded(source, error_view(error), healthy),
                ..old(self)@
            }),
    {
        self.engine.handle_stream_decoded(source, error, healthy);
    }

    /// Takes into account that the source that was decoded was started on the output, or not.
    fn handle_source_attached(
        &mut self,
        source: SourceTag,
        outcome: &PlayOutcome<'_>,
        label: &str,
        healthy: bool,
        now: u64,
    )
        requires
            old(self).wf(),
            source_counts(
                source,
                old(self)@.engine.generation,
                old(self)@.engine.phase,
                old(self)@.engine.desired,
                old(self)@.engine.checkpoint,
                old(self)@.engine.audio.spec_sink_epoch(),
            ),
        ensures
            final(self).wf(),
            final(self)@ == (AppView {
                engine: old(self)@.engine.source_attached(
                    source.sink_epoch is Some,
                    outcome@,
                    label@,
                    healthy,
                    now,
                ),
                ..old(self)@
            }),
    {
        self.engine.handle_source_attached(
            source.sink_epoch.is_some(),
            outcome,
            label,
            healthy,
            now,
        );
    }

    /// Takes into account that the local file was started on the output, or not.
    fn handle_local_played(
        &mut self,
        outcome: &PlayOutcome<'_>,
        label: &str,
        healthy: bool,
        now: u64,
    )
        requires
            old(self).wf(),
            old(self)@.engine.desired is Track,
            old(self)@.engine.checkpoint is None,
        ensures
            final(self).wf(),
            final(self)@ == (AppView {
                engine: old(self)@.engine.local_played(outcome@, label@, healthy, now),
                ..old(self)@
            }),
    {
        self.engine.handle_local_played(outcome, label, healthy, now);
    }

    /// Takes into account that the file from which playback was to go on is missing.
    fn handle_restore_missing(&mut self)
        requires
            old(self).wf(),
        ensures
            final(self).wf(),
            final(self)@ == (AppView { engine: old(self)@.engine.unrestorable(), ..old(self)@ }),
    {
        self.engine.restore_unavailable();
    }

    /// Takes into account that the transfer of a stream failed.
    fn handle_stream_interrupted(&mut self, generation: u64, error: &str)
        requires
            old(self).wf(),
        ensures
            final(self).wf(),
            final(self)@ == (AppView {
                engine: old(self)@.engine.interrupted(generation, error@),
                ..old(self)@
            }),
    {
        self.engine.handle_stream_interrupted(generation, error);
    }

    /// Takes an event into account that comes back from a task in the background or from an
    /// effect.
    pub fn handle_backend_event(&mut self, event: BackendEvent<'_>)
        requires
            old(self).wf(),
            old(self)@.expects(event),
        ensures
            final(self).wf(),
            old(self)@.notified(event, final(self)@),
    {
        match event {
            BackendEvent::DeviceCode(result) => self.handle_device_code(result),
            BackendEvent::Token(error) => self.handle_token(error),
            BackendEvent::TokenSaved(error) => self.handle_token_saved(error),
            BackendEvent::Session { library, server_bitrate } => self.enter_ready(
                library,
                server_bitrate,
            ),
            BackendEvent::SessionFailed(error) => self.handle_session_failed(error),
            BackendEvent::StreamResolved { generation, track_id, bitrate, error } => {
                self.handle_stream_resolved(generation, track_id, bitrate, error)
            },
            BackendEvent::StreamDecoded { source, error, healthy } => self.handle_stream_decoded(
                source,
                error,
                healthy,
            ),
            BackendEvent::SourceAttached { source, outcome, label, healthy, now } => {
                self.handle_source_attached(source, &outcome, label, healthy, now)
            },
            BackendEvent::LocalPlayed { outcome, label, healthy, now } => {
                self.handle_local_played(&outcome, label, healthy, now)
            },
            BackendEvent::LocalMissing { track_id } => self.handle_local_missing(track_id),
            BackendEvent::RestoreMissing => self.handle_restore_missing(),
            BackendEvent::StreamInterrupted { generation, error } => {
                self.handle_stream_interrupted(generation, error)
            },
            BackendEvent::DownloadFinished { task_id, result, message } => {
                self.handle_download_finished(task_id, &result, message)
            },
            BackendEvent::LoggedOut { client_id, error } => self.handle_logged_out(
                client_id,
                error,
            ),
        }
    }

    /// Takes an event of the audio worker into account. `seen` and `device` are those of the output
    /// in use.
    pub fn handle_audio_worker_event(
        &mut self,
        event: &WorkerEvent<'_>,
        device: Option<&str>,
        seen: Observed,
    )
        requires
            old(self).wf(),
        ensures
            final(self).wf(),
            final(self)@ == (AppView {
                engine: match event {
                    WorkerEvent::OpenFinished { attempt_id, outcome } =>
                    old(self)@.engine.open_finished(
                        *attempt_id,
                        outcome@,
                        old(self)@.desired_facts(),
                        seen.now,
                    ),
                    WorkerEvent::ProbeFinished { probe_id, sink_epoch, result } =>
                    old(self)@.engine.probe_finished(
                        *probe_id,
                        *sink_epoch,
                        candidate(seen.healthy, device_view(device), probe_observed(result@)),
                        result@ is Available,
                        seen.position,
                        seen.now,
                    ),
                    WorkerEvent::Stream(event) => old(self)@.engine.stream_error(
                        event.sink_epoch,
                        !(event.error is BufferUnderrun),
                        event.error.spec_message(),
                        seen.position,
                        seen.now,
                    ),
                },
                ..old(self)@
            }),
    {
        proof {
            law_output_events_keep_consistency(
                self@.engine,
                0,
                OpenOutcomeView::Failed(Seq::empty()),
                self@.desired_facts(),
                match event {
                    WorkerEvent::ProbeFinished { probe_id, .. } => *probe_id,
                    WorkerEvent::Stream(event) => event.sink_epoch,
                    _ => 0,
                },
                match event {
                    WorkerEvent::ProbeFinished { sink_epoch, .. } => *sink_epoch,
                    _ => None,
                },
                match event {
                    WorkerEvent::ProbeFinished { result, .. } => candidate(
                        seen.healthy,
                        device_view(device),
                        probe_observed(result@),
                    ),
                    _ => AudioCandidate::Accept,
                },
                match event {
                    WorkerEvent::ProbeFinished { result, .. } => result@ is Available,
                    WorkerEvent::Stream(event) => !(event.error is BufferUnderrun),
                    _ => false,
                },
                seen.position,
                match event {
                    WorkerEvent::Stream(event) => event.error.spec_message(),
                    _ => Seq::empty(),
                },
                seen.now,
            );
        }
        match event {
            WorkerEvent::OpenFinished { attempt_id, outcome } => {
                self.handle_audio_open_finished(*attempt_id, outcome, seen.now);
            },
            WorkerEvent::ProbeFinished { probe_id, sink_epoch, result } => {
                self.engine.handle_audio_probe_finished(
                    *probe_id,
                    *sink_epoch,
                    seen.healthy,
                    device,
                    result,
                    seen.position,
                    seen.now,
                );
            },
            WorkerEvent::Stream(event) => {
                self.engine.handle_audio_stream_event(event, seen.position, seen.now);
            },
        }
    }

    /// Takes into account that time has passed.
    pub fn tick_audio_lifecycle(&mut self, now: u64)
        requires
            old(self).wf(),
        ensures
            final(self).wf(),
            final(self)@ == (AppView { engine: old(self)@.engine.ticked(now), ..old(self)@ }),
    {
        self.engine.tick_audio_lifecycle(now);
    }

    /// Prepares to end: playback is stopped and the output is given up. Gives `true` where there
    /// is an output that has to be given back.
    pub fn begin_shutdown(&mut self, now: u64) -> (res: bool)
        requires
            old(self).wf(),
        ensures
            final(self).wf(),
            res == (old(self)@.engine.audio is Ready),
            final(self)@ == old(self)@.shut_down(now),
    {
        self.stop_requested_playback();
        let ready = matches!(self.engine.audio, AudioState::Ready { .. });
        self.engine.audio = AudioState::Unavailable { retry_at: now as u128, retry_count: 0 };
        ready
    }

    /// Does what the user wants on the main screen.
    pub fn apply_action(&mut self, action: Action, seen: Observed)
        requires
            old(self).wf(),
            old(self)@.has_room(),
        ensures
            final(self).wf(),
            old(self)@.acted(action, seen, final(self)@),
    {
        match action {
            Action::Quit => {
                self.should_quit = true;
            },
            Action::NextView => {
                self.active_view = match self.active_view {
                    ui::View::Library => ui::View::Queue,
                    ui::View::Queue => ui::View::Library,
                };
            },
            Action::OpenSearch => {
                self.search_mode = true;
                self.search_input.clear();
            },
            Action::MoveSelection(delta) => self.move_selection(delta),
            Action::Activate => self.activate_selected(seen),
            Action::AddToQueue { all_visible } => self.add_to_queue(all_visible),
            Action::DeleteOrRemove => match self.active_view {
                ui::View::Library => self.delete_selected_local_file(),
                ui::View::Queue => self.remove_queue_selected(seen),
            },
            Action::MoveQueueItem(delta) => self.move_queue_item(delta),
            Action::ClearQueue => self.clear_queue(),
            Action::CyclePlaybackMode => self.cycle_playback_mode(),
            Action::CyclePlaybackBitrate => self.cycle_playback_bitrate(),
            Action::CycleDownloadBitrate => self.cycle_download_bitrate(),
            Action::TogglePause => self.engine.toggle_pause(seen.healthy),
            Action::NextTrack => self.next_track(seen),
            Action::PreviousTrack => self.previous_track(seen),
            Action::Download { all_visible } => self.download_tracks(all_visible),
            Action::Logout => self.start_logout(),
            Action::AdjustVolume(percent) => {
                self.requests.push(Request::AdjustVolume { percent });
            },
        }
    }

    /// Handles a key while the search prompt is open.
    pub fn handle_search_key(&mut self, key: Key)
        requires
            old(self).wf(),
        ensures
            final(self).wf(),
            old(self)@.search_keyed(key, final(self)@),
    {
        match key {
            Key::Enter => {
                self.search_mode = false;
                self.apply_search();
            },
            Key::Esc => {
                self.search_mode = false;
            },
            Key::Backspace => {
                self.search_input.pop();
            },
            Key::Char(c) => {
                self.search_input.push(c);
            },
            _ => {},
        }
    }

    /// Handles a key while the client id is asked for.
    pub fn handle_client_id_key(&mut self, key: Key)
        requires
            old(self).wf(),
        ensures
            final(self).wf(),
            final(self)@ == old(self)@.client_id_keyed(key),
    {
        match key {
            Key::Enter => {
                let client_id = trimmed(self.client_id_input.as_str()).to_owned();
                if !client_id.as_str().is_empty() {
                    self.config.client_id = Some(client_id);
                    self.requests.push(Request::SaveConfig(Setting::ClientId));
                    self.start_authorization();
                }
            },
            Key::Char(c) => {
                if c == 'q' {
                    self.should_quit = true;
                } else {
                    self.client_id_input.push(c);
                }
            },
            Key::Backspace => {
                self.client_id_input.pop();
            },
            Key::Esc => {
                self.should_quit = true;
            },
            _ => {},
        }
    }

    /// Handles a key on the error screen.
    pub fn handle_error_key(&mut self, key: Key)
        requires
            old(self).wf(),
        ensures
            final(self).wf(),
            final(self)@ == old(self)@.error_keyed(key),
    {
        match key {
            Key::Char(c) => {
                if c == 'l' {
                    if self.config.client_id.is_some() {
                        self.requests.push(Request::DeleteToken);
                        self.start_authorization();
                    } else {
                        self.phase = Phase::NeedClientId;
                    }
                } else if c == 'q' {
                    self.should_quit = true;
                }
            },
            Key::Esc => {
                self.should_quit = true;
            },
            _ => {},
        }
    }

    /// Whether there are task ids left for all downloads that can be asked for at once.
    pub fn has_room(&self) -> (res: bool)
        ensures
            res == self@.has_room(),
    {
        let listed: usize = match &self.session {
            Some(session) => session.filtered_track_ids.len(),
            None => 0,
        };
        let wanted: u128 = listed as u128 + self.queue.len() as u128;
        self.downloads.last_id() as u128 + wanted < u64::MAX as u128
    }

    /// Handles a key.
    pub fn handle_key(&mut self, press: KeyPress, seen: Observed)
        requires
            old(self).wf(),
            old(self)@.has_room(),
        ensures
            final(self).wf(),
            old(self)@.keyed(press, seen, final(self)@),
    {
        if press.control && press.key == Key::Char('c') {
            self.should_quit = true;
            return;
        }
        if self.search_mode {
            self.handle_search_key(press.key);
            return;
        }
        match &self.phase {
            Phase::NeedClientId => self.handle_client_id_key(press.key),
            Phase::Error(_) => self.handle_error_key(press.key),
            Phase::Ready => {
                if let Some(action) = action_for_key(press.key) {
                    self.apply_action(action, seen);
                }
            },
            _ => {
                if press.key == Key::Char('q') {
                    self.should_quit = true;
                }
            },
        }
    }

    /// Takes into account what a scan of the disk found.
    pub fn handle_scanned(&mut self, scanned: &Vec<(u64, bool)>)
        requires
            old(self).wf(),
        ensures
            final(self).wf(),
            final(self)@ == old(self)@.scanned(scanned@),
    {
        self.downloads.rescan(scanned);
    }

    /// The state of playback as it is shown.
    pub fn playback_state(&self) -> (res: ui::PlaybackState)
        ensures
            res == self@.playback_state(),
    {
        match self.engine.phase {
            PlaybackPhase::Idle => ui::PlaybackState::Stopped,
            PlaybackPhase::WaitingForAudio => {
                if self.engine.checkpoint.is_some() {
                    ui::PlaybackState::Paused
                } else {
                    ui::PlaybackState::WaitingForAudio
                }
            },
            PlaybackPhase::Loading => ui::PlaybackState::Loading,
            PlaybackPhase::Active => {
                if self.engine.desired.paused() {
                    ui::PlaybackState::Paused
                } else {
                    ui::PlaybackState::Playing
                }
            },
        }
    }

    /// The summary of what is played. `position` is that of the output in use.
    pub fn playback_summary(&self, library: &Library, position: Option<u128>) -> (res:
        ui::PlaybackSummary)
        requires
            self.wf(),
        ensures
            is_summary(res, self@, library@, position),
    {
        let state = self.playback_state();
        let track_id: u64 = match self.queue.current_track() {
            Some(track_id) => track_id,
            None => {
                return ui::PlaybackSummary {
                    label: "Nothing playing".to_owned(),
                    state,
                    elapsed: None,
                    duration: None,
                };
            },
        };
        let label = library.track_label(track_id);
        let track = match library.tracks.get(&track_id) {
            Some(track) => track,
            None => {
                return ui::PlaybackSummary { label, state, elapsed: None, duration: None };
            },
        };
        let duration: u128 = if track.length > 0 {
            track.length as u128 * 1_000_000_000
        } else {
            0
        };
        let elapsed: u128 = match self.engine.phase {
            PlaybackPhase::Active => match self.engine.audio {
                AudioState::Ready { .. } => match position {
                    Some(position) => position,
                    None => 0,
                },
                _ => 0,
            },
            PlaybackPhase::WaitingForAudio => match self.engine.checkpoint {
                Some(checkpoint) => {
                    if checkpoint.generation == self.engine.generation && checkpoint.track_id
                        == track_id {
                        checkpoint.position
                    } else {
                        0
                    }
                },
                None => 0,
            },
            _ => 0,
        };
        let elapsed: u128 = if duration != 0 && duration < elapsed {
            duration
        } else {
            elapsed
        };
        ui::PlaybackSummary { label, state, elapsed: Some(elapsed), duration: Some(duration) }
    }
}

/// What is shown.
#[derive(Debug)]
pub enum Screen {
    Nothing,
    Text(ui::TextScreen),
    Ready(ui::ScreenModel),
}

impl App {
    /// `screen` holds what the main screen shows of a session.
    pub open spec fn shows(
        self,
        session: SessionCtxView,
        position: Option<u128>,
        screen: ui::ReadyScreen<'_>,
    ) -> bool {
        &&& screen.library@ == session.library
        &&& screen.filtered_track_ids@ == session.filtered_track_ids
        &&& screen.selected == self.selected
        &&& screen.queue@ == self.queue@
        &&& screen.queue_selected == self.queue_selected
        &&& screen.active_view == self.active_view
        &&& screen.downloads@ == self.downloads@
        &&& screen.status_line@ == self.engine.status@
        &&& error_view(screen.audio_warning) == self@.engine.warning
        &&& is_summary(screen.playback, self@, session.library, position)
        &&& screen.playback_bitrate == self@.playback_bitrate()
        &&& screen.playback_mode == self@.queue.mode
        &&& screen.download_bitrate == self.config.download_bitrate
        &&& error_view(screen.search_input) == if self.search_mode {
            Some(self.search_input@)
        } else {
            None
        }
    }

    /// `screen` is what is shown.
    pub open spec fn rendered(self, position: Option<u128>, screen: Screen) -> bool {
        match self.phase@ {
            PhaseView::NeedClientId => screen matches Screen::Text(text) && text@ == ui::login_text(
                self.client_id_input@,
                self.engine.status@,
            ),
            PhaseView::RequestingDeviceCode => screen matches Screen::Text(text) && text@
                == ui::message_text(
                "Requesting device code"@,
                "Contacting oauth.ibroadcast.com..."@,
            ),
            PhaseView::Authorizing(code) => screen matches Screen::Text(text) && text@
                == ui::authorizing_text(code),
            PhaseView::LoadingLibrary => screen matches Screen::Text(text) && text@
                == ui::message_text(
                "Loading library"@,
                "Synchronizing your iBroadcast library..."@,
            ),
            PhaseView::LoggingOut => screen matches Screen::Text(text) && text@ == ui::message_text(
                "Logging out"@,
                "Revoking token and clearing session..."@,
            ),
            PhaseView::Error(message) => screen matches Screen::Text(text) && text@
                == ui::error_text(message),
            PhaseView::Ready => match self@.session {
                None => screen is Nothing,
                Some(session) => screen matches Screen::Ready(model) && exists|shown|
                    self.shows(session, position, shown) && model@
                        == #[trigger] shown.screen(),
            },
        }
    }

    /// What is shown. `position` is that of the output in use.
    pub fn render(&self, position: Option<u128>) -> (res: Screen)
        requires
            self.wf(),
        ensures
            self.rendered(position, res),
    {
        match &self.phase {
            Phase::NeedClientId => Screen::Text(
                ui::login_screen(self.client_id_input.as_str(), self.engine.status.as_str()),
            ),
            Phase::RequestingDeviceCode => Screen::Text(
                ui::message_screen("Requesting device code", "Contacting oauth.ibroadcast.com..."),
            ),
            Phase::Authorizing(code) => Screen::Text(ui::authorizing_screen(code)),
            Phase::LoadingLibrary => Screen::Text(
                ui::message_screen("Loading library", "Synchronizing your iBroadcast library..."),
            ),
            Phase::LoggingOut => Screen::Text(
                ui::message_screen("Logging out", "Revoking token and clearing session..."),
            ),
            Phase::Error(message) => Screen::Text(ui::error_screen(message.as_str())),
            Phase::Ready => match &self.session {
                None => Screen::Nothing,
                Some(session) => {
                    let shown = ui::ReadyScreen {
                        library: &session.library,
                        filtered_track_ids: &session.filtered_track_ids,
                        selected: self.selected,
                        queue: &self.queue,
                        queue_selected: self.queue_selected,
                        active_view: self.active_view,
                        downloads: &self.downloads,
                        status_line: self.engine.status.as_str(),
                        audio_warning: match &self.engine.warning {
                            Some(warning) => Some(warning.as_str()),
                            None => None,
                        },
                        playback: self.playback_summary(&session.library, position),
                        playback_bitrate: self.effective_playback_bitrate(),
                        playback_mode: self.queue.playback_mode(),
                        download_bitrate: self.config.download_bitrate,
                        search_input: if self.search_mode {
                            Some(self.search_input.as_str())
                        } else {
                            None
                        },
                    };
                    let model = ui::ready_screen(&shown);
                    assert(self.shows(session@, position, shown));
                    Screen::Ready(model)
                },
            },
        }
    }
}

/// Whether the removal of a file is tried once more: while something still holds the file open, and
/// only so many times.
pub fn retries_removal(denied: bool, attempts: u32) -> (res: bool)
    ensures
        res == (denied && attempts < REMOVE_RETRIES),
{
    denied && attempts < REMOVE_RETRIES
}

/// `row + delta`, kept within `count` rows.
fn moved_row(row: usize, delta: isize, count: usize) -> (res: usize)
    requires
        count > 0,
    ensures
        res == moved_selection(row as int, delta as int, count as int),
{
    if delta < 0 {
        let up: usize = (-(delta + 1)) as usize;
        if row <= up {
            0
        } else {
            let moved: usize = row - up - 1;
            if moved >= count {
                count - 1
            } else {
                moved
            }
        }
    } else {
        let down: usize = delta as usize;
        if row >= count || down >= count - row {
            count - 1
        } else {
            row + down
        }
    }
}

proof fn lemma_one_track(tracks: Seq<u64>, track_id: u64)
    ensures
        with_tracks(tracks, seq![track_id]) == with_track(tracks, track_id),
{
    let ids = seq![track_id];
    assert(ids.drop_last() =~= Seq::<u64>::empty());
    assert(with_tracks(tracks, ids.drop_last()) == tracks);
}

/// Ctrl-c quits, wherever the user is, and does nothing else.
pub proof fn law_control_c_quits(app: AppView, key: KeyPress, seen: Observed, after: AppView)
    requires
        key.control,
        key.key == Key::Char('c'),
        app.keyed(key, seen, after),
    ensures
        after == (AppView { should_quit: true, ..app }),
{
}

/// Logging out stops playback and forgets the session and the queue. Where there was a client id,
/// it also forgets the downloads and what is local.
pub proof fn law_logout_forgets_the_session(app: AppView)
    ensures
        app.logout().session is None,
        app.logout().queue.tracks.len() == 0,
        app.logout().engine.desired == DesiredPlayback::Stopped,
        app.logout().engine.checkpoint is None,
        app.logout().engine.generation != app.engine.generation,
        app.config.client_id is Some ==> {
            &&& app.logout().downloads.tasks.len() == 0
            &&& app.logout().downloads.local.is_empty()
            &&& app.logout().requests.last() == Request::Logout
        },
{
}

/// A download that ends after the user logged out, or entered another session, changes nothing.
pub proof fn law_late_downloads_change_nothing(
    app: AppView,
    library: LibraryView,
    server_bitrate: Option<Bitrate>,
    ids: Seq<u64>,
    task_id: u64,
    succeeded: bool,
    message: Seq<char>,
)
    ensures
        app.config.client_id is Some ==> app.logout().downloaded(task_id, succeeded, message)
            == app.logout(),
        app.entered(library, server_bitrate, ids).downloaded(task_id, succeeded, message)
            == app.entered(library, server_bitrate, ids),
{
    let left = app.logout();
    let entered = app.entered(library, server_bitrate, ids);
    if left.downloads.knows(task_id) && left.downloads.tasks.len() == 0 {
        let i = choose|i: int| left.downloads.is_task(i, task_id);
        assert(left.downloads.is_task(i, task_id));
    }
    if entered.downloads.knows(task_id) {
        let i = choose|i: int| entered.downloads.is_task(i, task_id);
        assert(entered.downloads.is_task(i, task_id));
    }
}

/// Activating a track plays it, and queues it at most once: a track that is queued is not queued
/// again.
pub proof fn law_activated_tracks_are_queued_once(app: AppView, seen: Observed, after: AppView)
    requires
        app.wf(),
        app.active_view == ui::View::Library,
        app.selected_track() is Some,
        app.activated(seen, after),
    ensures
        after.queue.tracks == with_track(app.queue.tracks, app.selected_track()->0),
        after.queue.tracks.no_duplicates(),
        after.queue.current_track() == app.selected_track(),
        app.queue.tracks.contains(app.selected_track()->0) ==> after.queue.tracks
            == app.queue.tracks,
{
}

/// No download is begun of a track that is unknown, local or being downloaded, and none is begun
/// twice. Each one that is begun is running afterwards.
pub proof fn law_downloads_are_begun_once(app: AppView, ids: Seq<u64>)
    ensures
        ({
            let (after, queued) = app.downloading(ids);
            &&& after.requests.len() == app.requests.len() + queued
            &&& app.requests =~= after.requests.take(app.requests.len() as int)
            &&& queued <= ids.len()
            &&& after.session == app.session
            &&& after.downloads.local == app.downloads.local
            &&& forall|id: u64| app.downloads.running(id) ==> after.downloads.running(id)
            &&& forall|i: int| #![trigger after.requests[i]]
                app.requests.len() <= i < after.requests.len() ==> {
                    &&& after.requests[i] is Download
                    &&& ids.contains(after.requests[i]->Download_track_id)
                    &&& !app.skips(after.requests[i]->Download_track_id)
                    &&& after.downloads.running(after.requests[i]->Download_track_id)
                }
            &&& forall|i: int, j: int|
                #![trigger after.requests[i], after.requests[j]]
                app.requests.len() <= i < j < after.requests.len()
                    ==> after.requests[i]->Download_track_id
                    != after.requests[j]->Download_track_id
        }),
    decreases ids.len(),
{
    if ids.len() > 0 {
        law_downloads_are_begun_once(app, ids.drop_last());
        let (before, queued) = app.downloading(ids.drop_last());
        let id = ids.last();
        assert(ids.contains(id));
        assert forall|other: u64| ids.drop_last().contains(other) implies ids.contains(other) by {
            let k = choose|k: int|
                0 <= k < ids.drop_last().len() && ids.drop_last()[k] == other;
            assert(ids[k] == other);
        }
        if !before.skips(id) {
            let (after, _) = app.downloading(ids);
            assert forall|other: u64| before.downloads.running(other) implies
                after.downloads.running(other) by {
                let k = choose|k: int|
                    0 <= k < before.downloads.tasks.len()
                        && (#[trigger] before.downloads.tasks[k]).track_id == other
                        && before.downloads.tasks[k].status == DownloadStatus::Running;
                assert(after.downloads.tasks[k] == before.downloads.tasks[k]);
            }
            let last = before.downloads.tasks.len() as int;
            assert(after.downloads.tasks[last].track_id == id);
            assert(after.downloads.running(id));
            assert forall|i: int| #![trigger after.requests[i]]
                app.requests.len() <= i < after.requests.len() implies {
                    &&& after.requests[i] is Download
                    &&& ids.contains(after.requests[i]->Download_track_id)
                    &&& !app.skips(after.requests[i]->Download_track_id)
                    &&& after.downloads.running(after.requests[i]->Download_track_id)
                } by {
                if i < before.requests.len() {
                    assert(after.requests[i] == before.requests[i]);
                }
            }
            assert forall|i: int, j: int|
                #![trigger after.requests[i], after.requests[j]]
                app.requests.len() <= i < j < after.requests.len() implies
                after.requests[i]->Download_track_id != after.requests[j]->Download_track_id by {
                assert(after.requests[i] == before.requests[i]);
                if j < before.requests.len() {
                    assert(after.requests[j] == before.requests[j]);
                }
            }
        }
    }
}

/// A local file is deleted only of a track that is local and not being downloaded, and what is
/// played of it is stopped before.
pub proof fn law_only_idle_local_files_are_deleted(app: AppView)
    ensures
        app.delete_local().requests != app.requests ==> {
            let track_id = app.selected_track()->0;
            &&& app.selected_track() is Some
            &&& app.downloads.local.contains(track_id)
            &&& !app.downloads.running(track_id)
            &&& app.delete_local().requests == app.requests.push(
                Request::DeleteLocalFile { track_id },
            )
            &&& app.delete_local().engine.desired.spec_track_id() != Some(track_id)
        },
{
}

/// Removing an entry of the queue that is not wanted, moving entries, adding tracks, searching and
/// settings leave playback alone.
pub proof fn law_browsing_leaves_playback_alone(
    app: AppView,
    seen: Observed,
    all_visible: bool,
    delta: int,
    ids: Seq<u64>,
    status: Seq<char>,
)
    ensures
        app.engine.desired.spec_track_id() != Some(
            app.queue.tracks[row_within(app.queue_selected, app.queue.tracks.len())],
        ) ==> app.remove_queued(seen).engine.with_status(status) == app.engine.with_status(status),
        app.move_queued(delta).engine.with_status(status) == app.engine.with_status(status),
        app.add_to_queue(all_visible).engine.with_status(status) == app.engine.with_status(status),
        app.move_selection(delta).engine == app.engine,
        app.searched(ids).engine.with_status(status) == app.engine.with_status(status),
        app.cycle_playback_bitrate().engine == app.engine,
        app.cycle_download_bitrate().engine == app.engine,
        app.cycle_playback_mode().engine == app.engine,
{
}

/// The user's choice of the bitrate for streams goes before what the account prefers, and that
/// before 128 kbps.
pub proof fn law_the_users_bitrate_wins(app: AppView)
    ensures
        app.config.playback_bitrate matches Some(bitrate) ==> app.playback_bitrate() == bitrate,
        app.cycle_playback_bitrate().playback_bitrate() == app.playback_bitrate().spec_next(),
        app.config.playback_bitrate is None ==> app.playback_bitrate() == or_default(
            match app.session {
                Some(session) => session.server_bitrate,
                None => None,
            },
            Bitrate::Kbps128,
        ),
{
}

/// Whatever comes back from the background, the client goes on: an error is shown and does not
/// end it.
pub proof fn law_background_events_do_not_quit(
    app: AppView,
    event: BackendEvent<'_>,
    after: AppView,
)
    requires
        app.notified(event, after),
    ensures
        after.should_quit == app.should_quit,
{
}

/// What is shown as played never goes beyond the length of the track, where that is known.
pub proof fn law_elapsed_stays_within_the_track(
    app: AppView,
    track_id: u64,
    length: u128,
    position: Option<u128>,
)
    ensures
        length > 0 ==> app.elapsed(track_id, length, position) <= length,
{
}

} // verus!
