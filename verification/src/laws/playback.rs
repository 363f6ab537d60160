//! What is wanted and what is heard: pausing, losing the output, and which news still count.

use vstd::prelude::*;

use crate::audio::{lease_after, lease_after_any, WorkerState};
use crate::config::Bitrate;
use crate::downloads::extension_of;
use crate::player::{
    after_error, played_to_end, position_after, source_extension, source_mime, step_after,
    streamed_as, DecodeStep, StreamHealth,
};
use crate::recovery::{
    attempt_retries, candidate, checkpoint_after, probe_disposition, queue_advances,
    retry_delay, source_counts, AudioCandidate, AudioState, DesiredPlayback,
    DesiredPlaybackAction, PlaybackCheckpoint, PlaybackPhase, ProbeEventDisposition, SourceTag,
};
use crate::text::{trim, CharSet};

verus! {

/// A track that is asked for plays from then on, whatever was before. Pausing pauses the wanted
/// track, toggling pauses it or lets it go on, and stopping wants nothing.
pub proof fn law_wishes_are_followed(desired: DesiredPlayback, track_id: u64, paused: bool)
    ensures
        desired.reduced(DesiredPlaybackAction::Play(track_id)).spec_track_id() == Some(track_id),
        !desired.reduced(DesiredPlaybackAction::Play(track_id)).spec_paused(),
        desired.reduced(DesiredPlaybackAction::Stop).spec_track_id() is None,
        ({
            let playing = DesiredPlayback::Track { track_id, paused };
            let halted = playing.reduced(DesiredPlaybackAction::Pause);
            let toggled = playing.reduced(DesiredPlaybackAction::TogglePause);
            &&& halted.spec_paused() && halted.spec_track_id() == Some(track_id)
            &&& toggled.spec_paused() == !paused && toggled.spec_track_id() == Some(track_id)
        }),
        DesiredPlayback::Stopped.spec_track_id() is None,
        !DesiredPlayback::Stopped.spec_paused(),
{
}

/// When the output is lost, an active track is to go on exactly where it was, unless that is known
/// already from an earlier loss of the same playback. What was not playing, and what is no longer
/// wanted, leaves no such point.
pub proof fn law_lost_playback_goes_on_where_it_was(
    existing: Option<PlaybackCheckpoint>,
    phase: PlaybackPhase,
    track_id: u64,
    paused: bool,
    generation: u64,
    position: Option<u128>,
)
    ensures
        ({
            let desired = DesiredPlayback::Track { track_id, paused };
            let point = checkpoint_after(existing, phase, desired, generation, position);
            let known = existing is Some && existing->0.generation == generation
                && existing->0.track_id == track_id;
            &&& known ==> point == existing
            &&& !known && phase == PlaybackPhase::Active && position is Some ==> point is Some
                && point->0.position == position->0 && point->0.track_id == track_id
                && point->0.generation == generation
            &&& !known && phase != PlaybackPhase::Active ==> point is None
            &&& !known && position is None ==> point is None
            &&& checkpoint_after(
                existing,
                phase,
                DesiredPlayback::Stopped,
                generation,
                position,
            ) is None
        }),
{
}

/// A decoded source counts only for the playback and the track that it was made for. A first start
/// counts only while it is awaited and from the beginning; a restored one only on the output that
/// it was made for, and only from the point where playback is to go on.
pub proof fn law_late_sources_do_not_count(
    source: SourceTag,
    generation: u64,
    phase: PlaybackPhase,
    desired: DesiredPlayback,
    checkpoint: Option<PlaybackCheckpoint>,
    epoch: Option<u64>,
)
    ensures
        source_counts(source, generation, phase, desired, checkpoint, epoch) ==> {
            &&& source.generation == generation
            &&& desired.spec_track_id() == Some(source.track_id)
            &&& source.sink_epoch is None ==> phase == PlaybackPhase::Loading
                && source.position_base == 0
            &&& source.sink_epoch is Some ==> phase == PlaybackPhase::WaitingForAudio && epoch
                == source.sink_epoch && checkpoint is Some && checkpoint->0.position
                == source.position_base && checkpoint->0.track_id == source.track_id
                && checkpoint->0.generation == generation
        },
        source.generation == generation && desired.spec_track_id() == Some(source.track_id)
            && source.sink_epoch is None && phase == PlaybackPhase::Loading && source.position_base
            == 0 ==> source_counts(source, generation, phase, desired, checkpoint, epoch),
        source.generation == generation && desired.spec_track_id() == Some(source.track_id)
            && source.sink_epoch is Some && phase == PlaybackPhase::WaitingForAudio && epoch
            == source.sink_epoch && checkpoint == Some(
            PlaybackCheckpoint {
                generation,
                track_id: source.track_id,
                position: source.position_base,
            },
        ) ==> source_counts(source, generation, phase, desired, checkpoint, epoch),
{
}

/// An output is kept exactly where it is healthy and nothing speaks against it: not where there is
/// no default device, and not where another device has become the default. That the default could
/// not be found out speaks against nothing.
pub proof fn law_working_outputs_are_kept(
    healthy: bool,
    opened: Option<Seq<char>>,
    current: Seq<char>,
)
    ensures
        candidate(false, opened, Ok(Some(current))) == AudioCandidate::Failed,
        candidate(false, opened, Ok(None)) == AudioCandidate::Failed,
        candidate(false, opened, Err(())) == AudioCandidate::Failed,
        candidate(true, opened, Err(())) == AudioCandidate::Accept,
        candidate(true, opened, Ok(None)) == AudioCandidate::NoDefault,
        opened is None ==> candidate(true, opened, Ok(Some(current))) == AudioCandidate::Accept,
        opened == Some(current) ==> candidate(true, opened, Ok(Some(current)))
            == AudioCandidate::Accept,
        opened is Some && opened->0 != current ==> candidate(true, opened, Ok(Some(current)))
            == AudioCandidate::DefaultChanged,
{
}

/// Only the attempt that is under way is heard of, with the number of tries before it.
pub proof fn law_only_the_awaited_attempt_is_heard(
    attempt_id: u64,
    retry_count: u32,
    other: u64,
    sink_epoch: u64,
    retry_at: u128,
)
    ensures
        attempt_retries(AudioState::Opening { attempt_id, retry_count }, attempt_id) == Some(
            retry_count,
        ),
        other != attempt_id ==> attempt_retries(
            AudioState::Opening { attempt_id, retry_count },
            other,
        ) is None,
        attempt_retries(AudioState::Ready { sink_epoch }, other) is None,
        attempt_retries(AudioState::Unavailable { retry_at, retry_count }, other) is None,
{
}

/// The answer to a probe counts where it is the awaited one and its output is still there.
pub proof fn law_only_the_awaited_probe_counts(
    probe_id: u64,
    epoch: Option<u64>,
    other_id: u64,
    other_epoch: Option<u64>,
)
    ensures
        probe_disposition(Some((probe_id, epoch)), probe_id, epoch, epoch)
            == ProbeEventDisposition::Apply,
        other_epoch != epoch ==> probe_disposition(
            Some((probe_id, epoch)),
            probe_id,
            epoch,
            other_epoch,
        ) == ProbeEventDisposition::ConsumeStale,
        other_id != probe_id || other_epoch != epoch ==> probe_disposition(
            Some((probe_id, epoch)),
            other_id,
            other_epoch,
            epoch,
        ) == ProbeEventDisposition::Ignore,
        probe_disposition(None, probe_id, epoch, epoch) == ProbeEventDisposition::Ignore,
{
}

/// The queue goes on exactly when its current track is the wanted one, is active, and came to its
/// end on a healthy output.
pub proof fn law_the_queue_goes_on_at_the_end(
    phase: PlaybackPhase,
    desired: DesiredPlayback,
    current: Option<u64>,
    healthy: bool,
    finished: bool,
)
    ensures
        queue_advances(phase, desired, current, healthy, finished) ==> phase
            == PlaybackPhase::Active && healthy && finished && current is Some
            && desired.spec_track_id() == current,
        phase == PlaybackPhase::Active && current is Some && desired.spec_track_id() == current
            ==> queue_advances(phase, desired, current, true, true),
        played_to_end(true, Some(true), true),
        !played_to_end(healthy, None, true),
        !played_to_end(healthy, Some(false), true),
        !played_to_end(false, Some(true), true),
        !played_to_end(true, Some(true), false),
{
}

/// The first two waits are half a second, each later one is twice the one before, and none is
/// longer than five seconds.
pub proof fn law_waits_double_up_to_five_seconds(n: u32)
    requires
        n < u32::MAX,
    ensures
        retry_delay(0) == 500,
        retry_delay(1) == 500,
        n >= 1 && 2 * retry_delay(n) <= 5_000 ==> retry_delay((n + 1) as u32) == 2 * retry_delay(n),
        n >= 1 && 2 * retry_delay(n) > 5_000 ==> retry_delay((n + 1) as u32) == 5_000,
{
}

/// A fatal error makes a stream fail for good, and one that passes does not.
pub proof fn law_fatal_errors_stay(health: StreamHealth, fatal: bool, later: bool)
    ensures
        after_error(health, true).failed,
        after_error(health, false).failed == health.failed,
        after_error(health, false).buffer_underrun,
        after_error(health, true).buffer_underrun == health.buffer_underrun,
        after_error(health, fatal).failed ==> after_error(after_error(health, fatal), later).failed,
{
}

/// The position in a track is where its source began and what was played of it.
pub proof fn law_positions_add_up(base: u128, played: u128, more: u128)
    requires
        base + played + more <= 18_446_744_073_709_551_615_999_999_999,
    ensures
        position_after(base, played) == base + played,
        position_after(base, 0) == base,
        position_after((base + played) as u128, more) == base + played + more,
{
}

/// A source that begins behind the start is sought, and where that fails another one is built that
/// skips what comes before.
pub proof fn law_sources_begin_where_they_should(start_at: int, succeeded: bool)
    ensures
        step_after(DecodeStep::Build, 0, succeeded) == DecodeStep::Ready,
        start_at != 0 ==> step_after(DecodeStep::Build, start_at, succeeded) == DecodeStep::Seek,
        step_after(DecodeStep::Seek, start_at, true) == DecodeStep::Ready,
        step_after(DecodeStep::Seek, start_at, false) == DecodeStep::RebuildAndSkip,
        step_after(DecodeStep::RebuildAndSkip, start_at, succeeded) == DecodeStep::Ready,
        step_after(DecodeStep::Ready, start_at, succeeded) == DecodeStep::Ready,
{
}

/// What is streamed in segments is AAC whatever the track is, and everything else is what the track
/// is. A local file goes by its own ending, and by the track's kind where it has none.
pub proof fn law_kinds_of_sources(
    bitrate: Bitrate,
    mime: Seq<char>,
    extension: Seq<char>,
)
    ensures
        bitrate.rate() is Some && bitrate.rate() != Some(128u64) ==> streamed_as(bitrate, mime) == (
            "audio/aac"@,
            "aac"@,
        ),
        bitrate.rate() is None || bitrate.rate() == Some(128u64) ==> streamed_as(bitrate, mime) == (
            mime,
            extension_of(mime),
        ),
        trim(mime, CharSet::WhiteSpace).len() > 0 ==> source_mime(mime) == mime,
        trim(mime, CharSet::WhiteSpace).len() == 0 ==> source_mime(mime)
            == "application/octet-stream"@,
        trim(extension, CharSet::WhiteSpace).len() > 0 ==> source_extension(Some(extension), mime)
            == extension,
        trim(extension, CharSet::WhiteSpace).len() == 0 ==> source_extension(
            Some(extension),
            mime,
        ) == extension_of(mime),
        source_extension(None, mime) == extension_of(mime),
{
}

/// An output that comes back ends its own lease and no other's. Each output that is opened has a
/// number that no output before it had since the numbers began, and none is opened while the worker
/// shuts down.
pub proof fn law_outputs_are_leased_one_by_one(
    state: WorkerState,
    previous: Option<u64>,
    returned: u64,
)
    requires
        0 < state.next_sink_epoch < u64::MAX,
    ensures
        lease_after(Some(returned), returned) is None,
        lease_after(state.leased_epoch, returned) is Some ==> lease_after(
            state.leased_epoch,
            returned,
        ) == state.leased_epoch,
        state.leased_epoch is Some && state.leased_epoch != Some(returned) ==> lease_after(
            state.leased_epoch,
            returned,
        ) == state.leased_epoch,
        lease_after_any(state.leased_epoch, None) == state.leased_epoch,
        lease_after_any(state.leased_epoch, Some(returned)) == lease_after(
            state.leased_epoch,
            returned,
        ),
        state.opened(previous, true).1 is None,
        state.opened(previous, true).0.next_sink_epoch == state.next_sink_epoch,
        state.opened(previous, false).1 == Some(state.next_sink_epoch),
        state.opened(previous, false).0.next_sink_epoch > state.next_sink_epoch,
        WorkerState::started().leased_epoch is None,
        !WorkerState::started().shutdown_requested,
        WorkerState::started().next_sink_epoch > 0,
        state.can_finish() <==> state.shutdown_requested && state.leased_epoch is None,
{
}

} // verus!
