//! What the engine does with what the user wants and with what happens to the audio output, told
//! by what is asked of the outside and by what comes of it.

use vstd::prelude::*;

use crate::config::Bitrate;
use crate::engine::{
    Effect, EngineView, FactsView, OpenOutcomeView, PlayOutcomeView, PreviousOutput, StreamTag,
};
use crate::player::SinkEpoch;
use crate::recovery::{AudioCandidate, AudioState, DesiredPlayback, PlaybackPhase, SourceTag};
use crate::text::decimal;

verus! {

/// A millisecond, in nanoseconds.
pub const MILLISECOND: u64 = 1_000_000;

/// What stopping the stream in transfer asks for.
pub open spec fn cancelling(engine: EngineView) -> Seq<Effect> {
    if engine.stream is Some {
        seq![Effect::CancelStream]
    } else {
        Seq::empty()
    }
}

/// What stopping the output asks for.
pub open spec fn silencing(engine: EngineView) -> Seq<Effect> {
    if engine.audio is Ready {
        seq![Effect::StopOutput]
    } else {
        Seq::empty()
    }
}

/// A track without a local file is played from a stream: the output falls silent, the address of
/// the track is asked for at the bitrate that is set, what arrives from it is decoded from its
/// beginning and handed to the output, and the track is then active and told of by its label.
pub proof fn law_tracks_are_streamed(
    engine: EngineView,
    track_id: u64,
    facts: FactsView,
    label: Seq<char>,
    now: u64,
)
    requires
        engine.audio is Ready,
        facts.logged_in,
        facts.known,
        !facts.local,
    ensures
        ({
            let asked = engine.playing(track_id, facts, true, now);
            let generation = asked.generation;
            let resolved = asked.stream_resolved(generation, track_id, facts.bitrate, None);
            let source = SourceTag { generation, track_id, sink_epoch: None, position_base: 0 };
            let decoded = resolved.decoded(source, None, true);
            let attached = decoded.source_attached(
                false,
                PlayOutcomeView::Started,
                label,
                true,
                now,
            );
            &&& generation != engine.generation
            &&& asked.desired == (DesiredPlayback::Track { track_id, paused: false })
            &&& asked.phase == PlaybackPhase::Loading
            &&& asked.checkpoint is None
            &&& asked.stream is None
            &&& asked.audio == engine.audio
            &&& asked.status == "Fetching stream for "@ + facts.label
            &&& asked.effects == engine.effects + cancelling(engine) + seq![
                Effect::StopOutput,
                Effect::ResolveStream { generation, track_id, bitrate: facts.bitrate },
            ]
            &&& resolved.effects == asked.effects.push(
                Effect::BeginStream { generation, track_id, bitrate: facts.bitrate },
            )
            &&& resolved.stream == Some(StreamTag { generation, track_id })
            &&& decoded.effects == resolved.effects.push(
                Effect::AttachSource { position_base: 0, paused: false },
            )
            &&& attached.effects == decoded.effects
            &&& attached.phase == PlaybackPhase::Active
            &&& attached.desired == (DesiredPlayback::Track { track_id, paused: false })
            &&& attached.stream == Some(StreamTag { generation, track_id })
            &&& attached.generation == generation
            &&& attached.status == "Playing "@ + label
        }),
{
    let asked = engine.playing(track_id, facts, true, now);
    assert(asked.effects =~= engine.effects + cancelling(engine) + seq![
        Effect::StopOutput,
        Effect::ResolveStream {
            generation: asked.generation,
            track_id,
            bitrate: facts.bitrate,
        },
    ]);
}

/// A track with a local file is played from it: the output falls silent and is asked to play the
/// file, and once it does the track is active and told of by its label.
pub proof fn law_local_tracks_are_played_from_their_files(
    engine: EngineView,
    track_id: u64,
    facts: FactsView,
    label: Seq<char>,
    healthy: bool,
    now: u64,
)
    requires
        engine.audio is Ready,
        facts.logged_in,
        facts.known,
        facts.local,
    ensures
        ({
            let asked = engine.playing(track_id, facts, true, now);
            let played = asked.local_played(PlayOutcomeView::Started, label, healthy, now);
            &&& asked.desired == (DesiredPlayback::Track { track_id, paused: false })
            &&& asked.checkpoint is None
            &&& asked.stream is None
            &&& asked.generation != engine.generation
            &&& asked.effects == engine.effects + cancelling(engine) + seq![
                Effect::StopOutput,
                Effect::PlayLocal { track_id, paused: false },
            ]
            &&& played.phase == PlaybackPhase::Active
            &&& played.desired == asked.desired
            &&& played.generation == asked.generation
            &&& played.effects == asked.effects
            &&& played.status == "Playing local file: "@ + label
        }),
{
    let asked = engine.playing(track_id, facts, true, now);
    assert(asked.effects =~= engine.effects + cancelling(engine) + seq![
        Effect::StopOutput,
        Effect::PlayLocal { track_id, paused: false },
    ]);
}

/// Without a session nothing is played, nor is a track that the library does not have, and the
/// user is told why. Without an output a track is wanted all the same and waits: nothing is asked
/// for but that an earlier stream is given up.
pub proof fn law_tracks_wait_for_what_they_need(
    engine: EngineView,
    track_id: u64,
    facts: FactsView,
    healthy: bool,
    now: u64,
)
    ensures
        ({
            let asked = engine.playing(track_id, facts, healthy, now);
            &&& !facts.logged_in ==> asked.desired == DesiredPlayback::Stopped && asked.phase
                == PlaybackPhase::Idle && asked.status == "Not logged in"@ && asked.effects
                == engine.effects + cancelling(engine) + silencing(engine)
            &&& facts.logged_in && !facts.known ==> asked.desired == DesiredPlayback::Stopped
                && asked.phase == PlaybackPhase::Idle && asked.status == "Unknown track id "@
                + decimal(track_id as nat) && asked.effects == engine.effects + cancelling(engine)
                + silencing(engine)
            &&& facts.logged_in && facts.known && !(engine.audio is Ready) ==> asked.desired == (
            DesiredPlayback::Track { track_id, paused: false }) && asked.phase
                == PlaybackPhase::WaitingForAudio && asked.effects == engine.effects
                + cancelling(engine) && asked.audio == engine.audio
            &&& facts.logged_in && facts.known && engine.audio is Ready && !healthy
                ==> asked.desired == (DesiredPlayback::Track { track_id, paused: false })
                && asked.phase == PlaybackPhase::WaitingForAudio && !(asked.audio is Ready)
        }),
{
    let asked = engine.playing(track_id, facts, healthy, now);
    if !facts.logged_in || !facts.known {
        assert(asked.effects =~= engine.effects + cancelling(engine) + silencing(engine));
    } else if !(engine.audio is Ready) {
        assert(asked.effects =~= engine.effects + cancelling(engine));
    }
}

/// Stopping leaves nothing wanted, nothing frozen and nothing in transfer, and makes everything
/// under way stale: the stream is given up and the output falls silent.
pub proof fn law_stopping_ends_everything(engine: EngineView)
    ensures
        engine.stopped().desired == DesiredPlayback::Stopped,
        engine.stopped().phase == PlaybackPhase::Idle,
        engine.stopped().checkpoint is None,
        engine.stopped().stream is None,
        engine.stopped().generation != engine.generation,
        engine.stopped().audio == engine.audio,
        engine.stopped().warning == engine.warning,
        engine.stopped().effects == engine.effects + cancelling(engine) + silencing(engine),
{
    assert(engine.stopped().effects =~= engine.effects + cancelling(engine) + silencing(engine));
}

/// The pause key turns playing into paused and paused into playing, and tells so. An output that
/// plays the track is told at once; otherwise only the wish changes. Nothing else does.
pub proof fn law_pausing_alternates(
    engine: EngineView,
    track_id: u64,
    paused: bool,
    healthy: bool,
)
    requires
        engine.desired == (DesiredPlayback::Track { track_id, paused }),
    ensures
        ({
            let after = engine.toggled(healthy);
            &&& after.desired == (DesiredPlayback::Track { track_id, paused: !paused })
            &&& after.status == if paused {
                "Playing"@
            } else {
                "Paused"@
            }
            &&& engine.audio is Ready && healthy && engine.phase == PlaybackPhase::Active
                ==> after.effects == engine.effects.push(Effect::PauseOutput { paused: !paused })
            &&& !(engine.audio is Ready && healthy && engine.phase == PlaybackPhase::Active)
                ==> after.effects == engine.effects
            &&& after.phase == engine.phase
            &&& after.generation == engine.generation
            &&& after.stream == engine.stream
            &&& after.checkpoint == engine.checkpoint
            &&& after.audio == engine.audio
            &&& after.toggled(healthy).desired == engine.desired
        }),
{
}

/// A track that cannot be resolved, decoded or started on a working output is given up: nothing is
/// wanted any more, and the user is told what went wrong. A stream that breaks off is told of, and
/// what has arrived is still played.
pub proof fn law_failed_tracks_are_given_up(
    engine: EngineView,
    track_id: u64,
    bitrate: Bitrate,
    source: SourceTag,
    restoring: bool,
    error: Seq<char>,
    label: Seq<char>,
    now: u64,
)
    requires
        engine.audio is Ready,
    ensures
        ({
            let unresolved = engine.stream_resolved(
                engine.generation,
                track_id,
                bitrate,
                Some(error),
            );
            let unfit = engine.decoded(source, Some(error), true);
            let refused = PlayOutcomeView::Failed(error);
            let unplayed = engine.local_played(refused, label, true, now);
            let unattached = engine.source_attached(restoring, refused, label, true, now);
            let broken = engine.interrupted(engine.generation, error);
            &&& engine.phase == PlaybackPhase::Loading ==> unresolved.desired
                == DesiredPlayback::Stopped && unresolved.status == "Stream failed: "@ + error
                && unresolved.effects.last() == Effect::StopOutput
            &&& engine.phase == PlaybackPhase::Loading && source.generation == engine.generation
                && engine.desired.spec_track_id() == Some(source.track_id)
                && source.sink_epoch is None && source.position_base == 0 ==> unfit.desired
                == DesiredPlayback::Stopped && unfit.status == "Playback failed: "@ + error
                && unfit.effects.last() == Effect::StopOutput
            &&& unplayed.desired == DesiredPlayback::Stopped
            &&& unplayed.status == "Playback failed: "@ + error
            &&& unplayed.effects.last() == Effect::StopOutput
            &&& unattached.desired == DesiredPlayback::Stopped
            &&& unattached.status == "Playback failed: "@ + error
            &&& unattached.effects.last() == Effect::StopOutput
            &&& broken.status == "Stream error: "@ + error
            &&& broken.desired == engine.desired
            &&& broken.phase == engine.phase
            &&& broken.stream == engine.stream
            &&& broken.effects == engine.effects
        }),
{
}

/// An output that was awaited and is accepted is used from then on, and nothing is complained of
/// any more; a track that is wanted begins on it, and is paused if it was.
pub proof fn law_accepted_outputs_are_used(
    engine: EngineView,
    attempt_id: u64,
    retry_count: u32,
    sink_epoch: SinkEpoch,
    facts: FactsView,
    now: u64,
)
    requires
        engine.audio == (AudioState::Opening { attempt_id, retry_count }),
        engine.checkpoint is None,
    ensures
        ({
            let outcome = OpenOutcomeView::Opened { sink_epoch, verdict: AudioCandidate::Accept };
            let after = engine.open_finished(attempt_id, outcome, facts, now);
            &&& after.audio == (AudioState::Ready { sink_epoch })
            &&& after.warning is None
            &&& after.ready_since == Some(now)
            &&& after.next_probe_at == now + 750 * MILLISECOND
            &&& after.effects[engine.effects.len() as int] == Effect::InstallCandidate
            &&& engine.desired == DesiredPlayback::Stopped ==> after.phase == PlaybackPhase::Idle
                && after.desired == DesiredPlayback::Stopped && after.effects
                == engine.effects.push(Effect::InstallCandidate)
            &&& engine.desired matches DesiredPlayback::Track { track_id, paused }
                ==> facts.logged_in && facts.known ==> after.desired == engine.desired
                && after.effects.last() == if facts.local {
                Effect::PlayLocal { track_id, paused }
            } else {
                Effect::ResolveStream {
                    generation: after.generation,
                    track_id,
                    bitrate: facts.bitrate,
                }
            }
        }),
{
}

/// An output that was awaited and cannot be used is given back and asked for again after a wait
/// that is told; one that stopped being the default while it was opened is replaced at once. The
/// track that is wanted stays wanted and waits.
pub proof fn law_unfit_outputs_are_given_back(
    engine: EngineView,
    attempt_id: u64,
    retry_count: u32,
    sink_epoch: SinkEpoch,
    error: Seq<char>,
    facts: FactsView,
    now: u64,
)
    requires
        engine.audio == (AudioState::Opening { attempt_id, retry_count }),
        retry_count < u32::MAX,
    ensures
        ({
            let unopened = engine.open_finished(
                attempt_id,
                OpenOutcomeView::Failed(error),
                facts,
                now,
            );
            let failed = engine.open_finished(
                attempt_id,
                OpenOutcomeView::Opened { sink_epoch, verdict: AudioCandidate::Failed },
                facts,
                now,
            );
            let alone = engine.open_finished(
                attempt_id,
                OpenOutcomeView::Opened { sink_epoch, verdict: AudioCandidate::NoDefault },
                facts,
                now,
            );
            let changed = engine.open_finished(
                attempt_id,
                OpenOutcomeView::Opened { sink_epoch, verdict: AudioCandidate::DefaultChanged },
                facts,
                now,
            );
            &&& unopened.audio is Unavailable
            &&& unopened.audio->Unavailable_retry_count == retry_count + 1
            &&& unopened.audio->retry_at >= now + 500 * MILLISECOND
            &&& unopened.effects == engine.effects
            &&& unopened.warning is Some
            &&& ("Audio output unavailable: "@ + error).is_prefix_of(unopened.warning->0)
            &&& failed.audio == unopened.audio
            &&& failed.effects == engine.effects.push(Effect::DisposeCandidate)
            &&& failed.warning is Some
            &&& "Audio output failed while opening"@.is_prefix_of(failed.warning->0)
            &&& alone.audio == unopened.audio
            &&& alone.effects == engine.effects.push(Effect::DisposeCandidate)
            &&& alone.warning is Some
            &&& "No default audio output device available"@.is_prefix_of(alone.warning->0)
            &&& changed.audio is Opening
            &&& changed.audio->attempt_id != attempt_id || attempt_id != engine.next_open_attempt
            &&& changed.audio->Opening_retry_count == retry_count
            &&& changed.effects == engine.effects.push(
                Effect::OpenOutput {
                    attempt_id: changed.audio->attempt_id,
                    previous: PreviousOutput::Candidate,
                },
            )
            &&& changed.warning == Some("Default audio output changed; reconnecting..."@)
            &&& unopened.desired == engine.desired
            &&& failed.desired == engine.desired
            &&& alone.desired == engine.desired
            &&& changed.desired == engine.desired
            &&& engine.desired is Track ==> unopened.phase == PlaybackPhase::WaitingForAudio
                && failed.phase == PlaybackPhase::WaitingForAudio && alone.phase
                == PlaybackPhase::WaitingForAudio && changed.phase
                == PlaybackPhase::WaitingForAudio
        }),
{
}

/// When an output in use is replaced while it plays, it is paused first, the readers of its stream
/// are let go, it falls silent, and only then is another one opened in its place.
pub proof fn law_lost_outputs_are_replaced_in_order(
    engine: EngineView,
    track_id: u64,
    paused: bool,
    position: u128,
    message: Seq<char>,
)
    requires
        engine.wf(),
        engine.audio is Ready,
        engine.phase == PlaybackPhase::Active,
        engine.desired == (DesiredPlayback::Track { track_id, paused }),
    ensures
        ({
            let after = engine.recovering(message, Some(position));
            &&& after.audio is Opening
            &&& after.audio->Opening_retry_count == 0
            &&& after.warning == Some(message)
            &&& after.effects == engine.effects + seq![Effect::PauseOutput { paused: true }] + (
            if engine.stream is Some {
                seq![Effect::CancelReaders]
            } else {
                Seq::empty()
            }) + seq![
                Effect::StopOutput,
                Effect::OpenOutput {
                    attempt_id: after.audio->attempt_id,
                    previous: PreviousOutput::Current,
                },
            ]
        }),
{
    let after = engine.recovering(message, Some(position));
    assert(after.effects =~= engine.effects + seq![Effect::PauseOutput { paused: true }] + (
    if engine.stream is Some {
        seq![Effect::CancelReaders]
    } else {
        Seq::empty()
    }) + seq![
        Effect::StopOutput,
        Effect::OpenOutput {
            attempt_id: after.audio->attempt_id,
            previous: PreviousOutput::Current,
        },
    ]);
}

/// A track that is still being loaded when the output is lost cannot be frozen: its stream is
/// given up, what is under way for it is stale, and it waits, as wanted as before.
pub proof fn law_loading_tracks_begin_anew(
    engine: EngineView,
    message: Seq<char>,
    position: Option<u128>,
)
    requires
        engine.wf(),
        engine.audio is Ready,
        engine.phase == PlaybackPhase::Loading,
        engine.desired is Track,
    ensures
        ({
            let after = engine.recovering(message, position);
            &&& after.checkpoint is None
            &&& after.stream is None
            &&& after.generation != engine.generation
            &&& after.desired.spec_track_id() == engine.desired.spec_track_id()
            &&& after.desired == engine.desired
            &&& after.phase == PlaybackPhase::WaitingForAudio
            &&& engine.stream is Some ==> after.effects.contains(Effect::CancelStream)
            &&& after.effects.contains(Effect::StopOutput)
        }),
{
    let after = engine.recovering(message, position);
    let start = engine.effects.len() as int;
    assert(after.effects[start + 1] == Effect::StopOutput);
    if engine.stream is Some {
        assert(after.effects[start + 2] == Effect::CancelStream);
    }
}

/// An error of the output in use that is fatal replaces it, and the user is told what it was; one
/// that is not, or that another output reports, changes nothing.
pub proof fn law_fatal_errors_replace_the_output(
    engine: EngineView,
    sink_epoch: SinkEpoch,
    fatal: bool,
    message: Seq<char>,
    position: Option<u128>,
    now: u64,
)
    ensures
        ({
            let after = engine.stream_error(sink_epoch, fatal, message, position, now);
            &&& engine.audio == (AudioState::Ready { sink_epoch }) && fatal ==> !(
            after.audio is Ready) && after.warning is Some && (message
                + "; reconnecting..."@).is_prefix_of(after.warning->0)
            &&& !(engine.audio == (AudioState::Ready { sink_epoch }) && fatal) ==> after == engine
        }),
{
}

/// While an output is in use, the default device is asked after every three quarters of a second:
/// never before the time has come nor while an answer is awaited, and with a new number.
pub proof fn law_outputs_are_probed_in_turn(engine: EngineView, sink_epoch: SinkEpoch, now: u64)
    requires
        engine.audio == (AudioState::Ready { sink_epoch }),
    ensures
        ({
            let after = engine.ticked(now);
            let due = engine.probe_in_flight is None && now >= engine.next_probe_at;
            &&& due ==> {
                &&& after.probe_in_flight == Some((after.next_probe, Some(sink_epoch)))
                &&& after.next_probe != engine.next_probe
                &&& after.effects == engine.effects.push(
                    Effect::ProbeOutput {
                        probe_id: after.next_probe,
                        sink_epoch: Some(sink_epoch),
                    },
                )
                &&& after.next_probe_at == now + 750 * MILLISECOND
            }
            &&& !due ==> after.effects == engine.effects && after.probe_in_flight
                == engine.probe_in_flight && after.next_probe_at == engine.next_probe_at
            &&& after.audio == engine.audio
            &&& after.desired == engine.desired
            &&& after.phase == engine.phase
            &&& after.generation == engine.generation
        }),
{
}

/// The answer to the probe in flight decides about the output it was asked for: one that is still
/// the default stays in use, and one that is not, or that has failed, is replaced, with the reason
/// told. While no output is there, a device that appears is opened at once.
pub proof fn law_probes_decide_about_their_output(
    engine: EngineView,
    probe_id: u64,
    sink_epoch: SinkEpoch,
    available: bool,
    position: Option<u128>,
    now: u64,
)
    requires
        engine.audio == (AudioState::Ready { sink_epoch }),
        engine.probe_in_flight == Some((probe_id, Some(sink_epoch))),
    ensures
        ({
            let kept = engine.probe_finished(
                probe_id,
                Some(sink_epoch),
                AudioCandidate::Accept,
                available,
                position,
                now,
            );
            let changed = engine.probe_finished(
                probe_id,
                Some(sink_epoch),
                AudioCandidate::DefaultChanged,
                available,
                position,
                now,
            );
            let alone = engine.probe_finished(
                probe_id,
                Some(sink_epoch),
                AudioCandidate::NoDefault,
                available,
                position,
                now,
            );
            let failed = engine.probe_finished(
                probe_id,
                Some(sink_epoch),
                AudioCandidate::Failed,
                available,
                position,
                now,
            );
            &&& kept.audio == engine.audio
            &&& kept.effects == engine.effects
            &&& kept.desired == engine.desired
            &&& kept.phase == engine.phase
            &&& kept.warning == engine.warning
            &&& kept.probe_in_flight is None
            &&& kept.next_probe_at == now + 750 * MILLISECOND
            &&& changed.audio is Opening
            &&& changed.warning == Some("Default audio output changed; reconnecting..."@)
            &&& changed.probe_in_flight is None
            &&& alone.audio is Opening
            &&& alone.warning == Some("No default audio output device; waiting for one..."@)
            &&& alone.probe_in_flight is None
            &&& !(failed.audio is Ready)
            &&& failed.warning is Some
            &&& "Audio output failed; reconnecting..."@.is_prefix_of(failed.warning->0)
            &&& failed.probe_in_flight is None
        }),
{
}

/// While there is no output, a probe that finds a device has it opened at once, and one that finds
/// none leaves everything waiting.
pub proof fn law_devices_that_appear_are_opened(
    engine: EngineView,
    probe_id: u64,
    retry_at: u128,
    retry_count: u32,
    verdict: AudioCandidate,
    position: Option<u128>,
    now: u64,
)
    requires
        engine.audio == (AudioState::Unavailable { retry_at, retry_count }),
        engine.probe_in_flight == Some((probe_id, None::<SinkEpoch>)),
    ensures
        ({
            let found = engine.probe_finished(probe_id, None, verdict, true, position, now);
            let absent = engine.probe_finished(probe_id, None, verdict, false, position, now);
            &&& found.audio is Opening
            &&& found.audio->Opening_retry_count == retry_count
            &&& found.warning == Some("Audio output detected; reconnecting..."@)
            &&& found.effects.last() == (Effect::OpenOutput {
                attempt_id: found.audio->attempt_id,
                previous: PreviousOutput::Nothing,
            })
            &&& absent.audio == engine.audio
            &&& absent.effects == engine.effects
            &&& absent.probe_in_flight is None
        }),
{
}

/// Ten seconds without a failure makes the count of failures begin anew, and nothing less does.
pub proof fn law_stable_outputs_are_forgiven(engine: EngineView, since: u64, now: u64)
    requires
        engine.audio is Ready,
        engine.ready_since == Some(since),
    ensures
        now - since >= 10_000 * MILLISECOND ==> engine.ticked(now).failure_streak == 0,
        now - since < 10_000 * MILLISECOND ==> engine.ticked(now).failure_streak
            == engine.failure_streak,
{
}

} // verus!
