//! What playback is wanted, where it goes on after the audio output was lost, and which of the
//! events that come late still count.

use vstd::prelude::*;

use crate::audio::{DefaultOutputProbe, ProbeView};
use crate::player::SinkEpoch;
use crate::text::same_text;

verus! {

/// The default output is probed so often, in nanoseconds.
pub const AUDIO_PROBE_INTERVAL_NANOS: u64 = 750_000_000;

/// The longest wait before an output is opened again, in milliseconds.
pub const AUDIO_RETRY_MAX_MILLIS: u64 = 5_000;

/// An output that lasted so long, in nanoseconds, counts as stable.
pub const AUDIO_STABLE_RESET_AFTER_NANOS: u64 = 10_000_000_000;

#[derive(Clone, Copy, Debug, PartialEq, Eq, Structural)]
pub enum PlaybackPhase {
    /// Nothing is played and nothing is wanted.
    Idle,
    /// A track is wanted, but there is no healthy output yet.
    WaitingForAudio,
    /// The address of a stream is being resolved.
    Loading,
    /// A track is loaded into the audio output, playing or paused.
    Active,
}

/// The audio output. Times are in nanoseconds.
#[derive(Clone, Copy, Debug, PartialEq, Eq, Structural)]
pub enum AudioState {
    Opening { attempt_id: u64, retry_count: u32 },
    Ready { sink_epoch: SinkEpoch },
    Unavailable { retry_at: u128, retry_count: u32 },
}

impl AudioState {
    /// The number of the output, if there is one.
    pub open spec fn spec_sink_epoch(self) -> Option<SinkEpoch> {
        match self {
            AudioState::Ready { sink_epoch } => Some(sink_epoch),
            _ => None,
        }
    }

    pub fn sink_epoch(self) -> (res: Option<SinkEpoch>)
        ensures
            res == self.spec_sink_epoch(),
    {
        match self {
            AudioState::Ready { sink_epoch } => Some(sink_epoch),
            _ => None,
        }
    }
}

/// What the user wants to hear.
#[derive(Clone, Copy, Debug, PartialEq, Eq, Structural)]
pub enum DesiredPlayback {
    Stopped,
    Track { track_id: u64, paused: bool },
}

#[derive(Clone, Copy, Debug, PartialEq, Eq, Structural)]
pub enum DesiredPlaybackAction {
    Play(u64),
    Pause,
    TogglePause,
    Stop,
}

/// Where playback goes on, in nanoseconds from the beginning of the track.
#[derive(Clone, Copy, Debug, PartialEq, Eq, Structural)]
pub struct PlaybackCheckpoint {
    pub generation: u64,
    pub track_id: u64,
    pub position: u128,
}

impl DesiredPlayback {
    pub open spec fn spec_track_id(self) -> Option<u64> {
        match self {
            DesiredPlayback::Stopped => None,
            DesiredPlayback::Track { track_id, .. } => Some(track_id),
        }
    }

    pub open spec fn spec_paused(self) -> bool {
        self matches DesiredPlayback::Track { paused: true, .. }
    }

    /// The wanted playback after an action.
    pub open spec fn reduced(self, action: DesiredPlaybackAction) -> DesiredPlayback {
        match (action, self) {
            (DesiredPlaybackAction::Play(track_id), _) => DesiredPlayback::Track {
                track_id,
                paused: false,
            },
            (DesiredPlaybackAction::Stop, _) => DesiredPlayback::Stopped,
            (_, DesiredPlayback::Stopped) => DesiredPlayback::Stopped,
            (DesiredPlaybackAction::Pause, DesiredPlayback::Track { track_id, .. }) =>
            DesiredPlayback::Track { track_id, paused: true },
            (DesiredPlaybackAction::TogglePause, DesiredPlayback::Track { track_id, paused }) =>
            DesiredPlayback::Track { track_id, paused: !paused },
        }
    }

    pub fn track_id(self) -> (res: Option<u64>)
        ensures
            res == self.spec_track_id(),
    {
        match self {
            DesiredPlayback::Stopped => None,
            DesiredPlayback::Track { track_id, .. } => Some(track_id),
        }
    }

    pub fn paused(self) -> (res: bool)
        ensures
            res == self.spec_paused(),
    {
        matches!(self, DesiredPlayback::Track { paused: true, .. })
    }
}

/// The wanted playback after an action. The latest request wins; pausing needs a track, and
/// pausing twice is pausing once.
pub fn reduce_desired_playback(
    current: DesiredPlayback,
    action: DesiredPlaybackAction,
) -> (res: DesiredPlayback)
    ensures
        res == current.reduced(action),
{
    match action {
        DesiredPlaybackAction::Play(track_id) => DesiredPlayback::Track { track_id, paused: false },
        DesiredPlaybackAction::Pause => match current {
            DesiredPlayback::Stopped => DesiredPlayback::Stopped,
            DesiredPlayback::Track { track_id, .. } => DesiredPlayback::Track {
                track_id,
                paused: true,
            },
        },
        DesiredPlaybackAction::TogglePause => match current {
            DesiredPlayback::Stopped => DesiredPlayback::Stopped,
            DesiredPlayback::Track { track_id, paused } => DesiredPlayback::Track {
                track_id,
                paused: !paused,
            },
        },
        DesiredPlaybackAction::Stop => DesiredPlayback::Stopped,
    }
}

/// The checkpoint belongs to the given playback.
pub open spec fn checkpoint_of(
    checkpoint: Option<PlaybackCheckpoint>,
    generation: u64,
    track_id: u64,
) -> bool {
    checkpoint matches Some(point) && point.generation == generation && point.track_id == track_id
}

/// Where playback goes on after the output was lost.
pub open spec fn checkpoint_after(
    existing: Option<PlaybackCheckpoint>,
    phase: PlaybackPhase,
    desired: DesiredPlayback,
    generation: u64,
    position: Option<u128>,
) -> Option<PlaybackCheckpoint> {
    match desired {
        DesiredPlayback::Stopped => None,
        DesiredPlayback::Track { track_id, .. } => if checkpoint_of(
            existing,
            generation,
            track_id,
        ) {
            existing
        } else if phase == PlaybackPhase::Active && position is Some {
            Some(PlaybackCheckpoint { generation, track_id, position: position->0 })
        } else {
            None
        },
    }
}

/// Where playback goes on after the output was lost. A track that is active is captured once, and
/// that point is kept while outputs change rapidly: a replacement has no player yet, so that its
/// apparent position at zero must not count.
pub fn checkpoint_after_audio_loss(
    existing: Option<PlaybackCheckpoint>,
    phase: PlaybackPhase,
    desired: DesiredPlayback,
    generation: u64,
    position: Option<u128>,
) -> (res: Option<PlaybackCheckpoint>)
    ensures
        res == checkpoint_after(existing, phase, desired, generation, position),
{
    let track_id: u64 = match desired.track_id() {
        Some(track_id) => track_id,
        None => {
            return None;
        },
    };
    if let Some(checkpoint) = existing {
        if checkpoint.generation == generation && checkpoint.track_id == track_id {
            return Some(checkpoint);
        }
    }
    if phase != PlaybackPhase::Active {
        return None;
    }
    match position {
        Some(position) => Some(PlaybackCheckpoint { generation, track_id, position }),
        None => None,
    }
}

/// A decoded source, as it was asked for.
#[derive(Clone, Copy, Debug, PartialEq, Eq, Structural)]
pub struct SourceTag {
    pub generation: u64,
    pub track_id: u64,
    /// The output on which playback is restored; `None` for a first start.
    pub sink_epoch: Option<SinkEpoch>,
    /// Where the source begins.
    pub position_base: u128,
}

/// A decoded source still counts.
pub open spec fn source_counts(
    source: SourceTag,
    generation: u64,
    phase: PlaybackPhase,
    desired: DesiredPlayback,
    checkpoint: Option<PlaybackCheckpoint>,
    current_sink_epoch: Option<SinkEpoch>,
) -> bool {
    &&& source.generation == generation
    &&& desired.spec_track_id() == Some(source.track_id)
    &&& match source.sink_epoch {
        Some(sink_epoch) => phase == PlaybackPhase::WaitingForAudio && current_sink_epoch == Some(
            sink_epoch,
        ) && checkpoint == Some(
            PlaybackCheckpoint {
                generation: source.generation,
                track_id: source.track_id,
                position: source.position_base,
            },
        ),
        None => phase == PlaybackPhase::Loading && source.position_base == 0,
    }
}

/// Whether a decoded source still counts: a first start only while it is being loaded, and a
/// restored one only for the checkpoint and the output that it was made for.
pub fn decoded_source_is_current(
    event_generation: u64,
    event_track_id: u64,
    event_sink_epoch: Option<SinkEpoch>,
    event_position_base: u128,
    playback_generation: u64,
    phase: PlaybackPhase,
    desired: DesiredPlayback,
    checkpoint: Option<PlaybackCheckpoint>,
    current_sink_epoch: Option<SinkEpoch>,
) -> (res: bool)
    ensures
        res == source_counts(
            SourceTag {
                generation: event_generation,
                track_id: event_track_id,
                sink_epoch: event_sink_epoch,
                position_base: event_position_base,
            },
            playback_generation,
            phase,
            desired,
            checkpoint,
            current_sink_epoch,
        ),
{
    if event_generation != playback_generation || desired.track_id() != Some(event_track_id) {
        return false;
    }
    if let Some(event_sink_epoch) = event_sink_epoch {
        if phase != PlaybackPhase::WaitingForAudio || current_sink_epoch != Some(event_sink_epoch) {
            return false;
        }
        match checkpoint {
            Some(checkpoint) => checkpoint.generation == event_generation && checkpoint.track_id
                == event_track_id && checkpoint.position == event_position_base,
            None => false,
        }
    } else {
        phase == PlaybackPhase::Loading && event_position_base == 0
    }
}

/// What becomes of an output that was opened or probed.
#[derive(Clone, Copy, Debug, PartialEq, Eq, Structural)]
pub enum AudioCandidate {
    Accept,
    DefaultChanged,
    Failed,
    NoDefault,
}

/// What becomes of an output: `observed` is the default device, nothing where there is none, and
/// an error where that could not be found out, which is no evidence against the output.
pub open spec fn candidate(
    healthy: bool,
    opened: Option<Seq<char>>,
    observed: std::result::Result<Option<Seq<char>>, ()>,
) -> AudioCandidate {
    if !healthy {
        AudioCandidate::Failed
    } else {
        match observed {
            Err(_) => AudioCandidate::Accept,
            Ok(None) => AudioCandidate::NoDefault,
            Ok(Some(current)) => if opened is Some && opened->0 != current {
                AudioCandidate::DefaultChanged
            } else {
                AudioCandidate::Accept
            },
        }
    }
}

pub open spec fn device_view(device: Option<&str>) -> Option<Seq<char>> {
    match device {
        Some(device) => Some(device@),
        None => None,
    }
}

pub open spec fn observed_view(
    observed: std::result::Result<Option<&str>, ()>,
) -> std::result::Result<Option<Seq<char>>, ()> {
    match observed {
        Ok(device) => Ok(device_view(device)),
        Err(_) => Err(()),
    }
}

/// What a probe observed.
pub open spec fn probe_observed(probe: ProbeView) -> std::result::Result<Option<Seq<char>>, ()> {
    match probe {
        ProbeView::Available(device) => Ok(Some(device)),
        ProbeView::Unavailable => Ok(None),
        ProbeView::Failed(_) => Err(()),
    }
}

/// What becomes of an output, from the probe that came with it.
pub fn classify_audio_candidate(
    healthy: bool,
    opened_device: Option<&str>,
    observed_default: &DefaultOutputProbe,
) -> (res: AudioCandidate)
    ensures
        res == candidate(healthy, device_view(opened_device), probe_observed(observed_default@)),
{
    let observed: std::result::Result<Option<&str>, ()> = match observed_default {
        DefaultOutputProbe::Available(device) => Ok(Some(device.as_str())),
        DefaultOutputProbe::Unavailable => Ok(None),
        DefaultOutputProbe::Failed(_) => Err(()),
    };
    classify_audio_candidate_state(healthy, opened_device, observed)
}

/// What becomes of an output. That the default device could not be identified is an error; that
/// there is none is not.
pub fn classify_audio_candidate_state(
    healthy: bool,
    opened_device: Option<&str>,
    observed_default: std::result::Result<Option<&str>, ()>,
) -> (res: AudioCandidate)
    ensures
        res == candidate(healthy, device_view(opened_device), observed_view(observed_default)),
{
    if !healthy {
        return AudioCandidate::Failed;
    }
    match observed_default {
        Ok(None) => AudioCandidate::NoDefault,
        Err(_) => AudioCandidate::Accept,
        Ok(Some(current)) => match opened_device {
            Some(opened) => {
                if same_text(opened, current) {
                    AudioCandidate::Accept
                } else {
                    AudioCandidate::DefaultChanged
                }
            },
            None => AudioCandidate::Accept,
        },
    }
}

/// The retry count of an attempt to open an output, if it is the current one.
pub open spec fn attempt_retries(state: AudioState, attempt: u64) -> Option<u32> {
    match state {
        AudioState::Opening { attempt_id, retry_count } => if attempt_id == attempt {
            Some(retry_count)
        } else {
            None
        },
        _ => None,
    }
}

/// The retry count of an attempt to open an output, if it is the current one.
pub fn open_attempt_retry_count(state: &AudioState, attempt_id: u64) -> (res: Option<u32>)
    ensures
        res == attempt_retries(*state, attempt_id),
{
    match state {
        AudioState::Opening { attempt_id: current, retry_count } => {
            if *current == attempt_id {
                Some(*retry_count)
            } else {
                None
            }
        },
        _ => None,
    }
}

/// The queue goes on to its next track.
pub open spec fn queue_advances(
    phase: PlaybackPhase,
    desired: DesiredPlayback,
    current_track: Option<u64>,
    output_healthy: bool,
    track_finished: bool,
) -> bool {
    phase == PlaybackPhase::Active && current_track is Some && desired.spec_track_id()
        == current_track && output_healthy && track_finished
}

/// Whether the queue goes on to its next track: the wanted track, which is the current one of the
/// queue, has come to its end on a healthy output.
pub fn should_advance_queue(
    phase: PlaybackPhase,
    desired: DesiredPlayback,
    current_track: Option<u64>,
    output_healthy: bool,
    track_finished: bool,
) -> (res: bool)
    ensures
        res == queue_advances(phase, desired, current_track, output_healthy, track_finished),
{
    phase == PlaybackPhase::Active && desired.track_id() == current_track && current_track.is_some()
        && output_healthy && track_finished
}

/// What becomes of the answer to a probe.
#[derive(Clone, Copy, Debug, PartialEq, Eq, Structural)]
pub enum ProbeEventDisposition {
    /// Not the answer that is awaited.
    Ignore,
    /// The answer that is awaited, but its output has been replaced.
    ConsumeStale,
    Apply,
}

pub open spec fn probe_disposition(
    in_flight: Option<(u64, Option<u64>)>,
    probe_id: u64,
    sink_epoch: Option<u64>,
    current_sink_epoch: Option<u64>,
) -> ProbeEventDisposition {
    if in_flight != Some((probe_id, sink_epoch)) {
        ProbeEventDisposition::Ignore
    } else if sink_epoch != current_sink_epoch {
        ProbeEventDisposition::ConsumeStale
    } else {
        ProbeEventDisposition::Apply
    }
}

/// What becomes of the answer to a probe.
pub fn classify_probe_event(
    in_flight: Option<(u64, Option<u64>)>,
    probe_id: u64,
    sink_epoch: Option<u64>,
    current_sink_epoch: Option<u64>,
) -> (res: ProbeEventDisposition)
    ensures
        res == probe_disposition(in_flight, probe_id, sink_epoch, current_sink_epoch),
{
    match in_flight {
        Some((id, epoch)) => {
            if id != probe_id || epoch != sink_epoch {
                ProbeEventDisposition::Ignore
            } else if sink_epoch != current_sink_epoch {
                ProbeEventDisposition::ConsumeStale
            } else {
                ProbeEventDisposition::Apply
            }
        },
        None => ProbeEventDisposition::Ignore,
    }
}

/// The wait before the output is opened again, in milliseconds: half a second, doubled with each
/// retry after the first, and five seconds at most.
pub open spec fn retry_delay(retry_count: u32) -> u64 {
    if retry_count <= 1 {
        500
    } else if retry_count == 2 {
        1_000
    } else if retry_count == 3 {
        2_000
    } else if retry_count == 4 {
        4_000
    } else {
        AUDIO_RETRY_MAX_MILLIS
    }
}

/// The wait before the output is opened again, in milliseconds.
pub fn audio_retry_delay(retry_count: u32) -> (res: u64)
    ensures
        res == retry_delay(retry_count),
{
    let exponent: u32 = if retry_count <= 1 {
        0
    } else if retry_count >= 5 {
        4
    } else {
        retry_count - 1
    };
    let millis: u64 = 500u64 << exponent;
    proof {
        assert(500u64 << 0u32 == 500u64) by (bit_vector);
        assert(500u64 << 1u32 == 1_000u64) by (bit_vector);
        assert(500u64 << 2u32 == 2_000u64) by (bit_vector);
        assert(500u64 << 3u32 == 4_000u64) by (bit_vector);
        assert(500u64 << 4u32 == 8_000u64) by (bit_vector);
    }
    if millis < AUDIO_RETRY_MAX_MILLIS {
        millis
    } else {
        AUDIO_RETRY_MAX_MILLIS
    }
}

/// The wait never shrinks with more retries, doubles until it is five seconds, and is never
/// longer.
pub proof fn law_retry_delay_is_bounded(retry_count: u32)
    requires
        retry_count < u32::MAX,
    ensures
        500 <= retry_delay(retry_count) <= AUDIO_RETRY_MAX_MILLIS,
        retry_delay(retry_count) <= retry_delay((retry_count + 1) as u32),
        1 <= retry_count <= 3 ==> retry_delay((retry_count + 1) as u32) == 2 * retry_delay(
            retry_count,
        ),
        retry_count >= 5 ==> retry_delay(retry_count) == AUDIO_RETRY_MAX_MILLIS,
{
}

/// The latest request wins: what was wanted before a track is asked for, or playback is stopped,
/// leaves no trace.
pub proof fn law_latest_request_wins(
    first: DesiredPlayback,
    second: DesiredPlayback,
    track_id: u64,
)
    ensures
        first.reduced(DesiredPlaybackAction::Play(track_id)) == second.reduced(
            DesiredPlaybackAction::Play(track_id),
        ),
        first.reduced(DesiredPlaybackAction::Stop) == DesiredPlayback::Stopped,
        DesiredPlayback::Stopped.reduced(DesiredPlaybackAction::Pause) == DesiredPlayback::Stopped,
        DesiredPlayback::Stopped.reduced(DesiredPlaybackAction::TogglePause)
            == DesiredPlayback::Stopped,
{
}

/// Pausing is idempotent, toggling twice changes nothing, and neither changes the track.
pub proof fn law_pausing(desired: DesiredPlayback)
    ensures
        desired.reduced(DesiredPlaybackAction::Pause).reduced(DesiredPlaybackAction::Pause)
            == desired.reduced(DesiredPlaybackAction::Pause),
        desired.reduced(DesiredPlaybackAction::TogglePause).reduced(
            DesiredPlaybackAction::TogglePause,
        ) == desired,
        desired.reduced(DesiredPlaybackAction::Pause).spec_track_id() == desired.spec_track_id(),
        desired.reduced(DesiredPlaybackAction::TogglePause).spec_track_id()
            == desired.spec_track_id(),
{
}

/// However often the output is lost in a row, the point that was captured first is kept.
pub proof fn law_first_checkpoint_is_kept(
    phase: PlaybackPhase,
    desired: DesiredPlayback,
    generation: u64,
    first: Option<u128>,
    later_phase: PlaybackPhase,
    later: Option<u128>,
)
    ensures
        ({
            let captured = checkpoint_after(None, phase, desired, generation, first);
            captured is Some ==> checkpoint_after(
                captured,
                later_phase,
                desired.reduced(DesiredPlaybackAction::Pause),
                generation,
                later,
            ) == captured
        }),
        phase != PlaybackPhase::Active ==> checkpoint_after(
            None,
            phase,
            desired,
            generation,
            first,
        ) is None,
{
}

} // verus!
