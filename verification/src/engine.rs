//! Playback and the audio output: what happens when outputs open, fail and change, when streams
//! are resolved, decoded and interrupted, and when the user plays, pauses and stops.
//!
//! The engine only decides. What is to be done outside is put into a list of effects, in order;
//! what comes of them comes back as another call.

use vstd::prelude::*;

use crate::audio::{next_number, successor, DefaultOutputProbe};
use crate::config::Bitrate;
use crate::error::prefixed;
use crate::player::{AudioStreamEvent, SinkEpoch};
use crate::recovery::{
    attempt_retries, audio_retry_delay, candidate, checkpoint_after, checkpoint_after_audio_loss,
    classify_audio_candidate, classify_probe_event, decoded_source_is_current, device_view,
    open_attempt_retry_count, probe_disposition, probe_observed, reduce_desired_playback,
    retry_delay, source_counts, AudioCandidate, AudioState, DesiredPlayback,
    DesiredPlaybackAction, PlaybackCheckpoint, PlaybackPhase, ProbeEventDisposition, SourceTag,
    AUDIO_PROBE_INTERVAL_NANOS, AUDIO_STABLE_RESET_AFTER_NANOS,
};
use crate::text::{decimal, push_decimal};

verus! {

/// The output that is torn down before another one is opened.
#[derive(Clone, Copy, Debug, PartialEq, Eq, Structural)]
pub enum PreviousOutput {
    Nothing,
    /// The output in use.
    Current,
    /// The output that was just opened.
    Candidate,
}

/// What is to be done outside.
#[derive(Clone, Copy, Debug, PartialEq, Eq, Structural)]
pub enum Effect {
    /// Tear down the previous output and open the default one.
    OpenOutput { attempt_id: u64, previous: PreviousOutput },
    /// Give the output in use back to the worker.
    DisposeCurrent,
    /// Give the output that was just opened back to the worker.
    DisposeCandidate,
    /// Use the output that was just opened, at the volume that is set.
    InstallCandidate,
    /// Probe the default output.
    ProbeOutput { probe_id: u64, sink_epoch: Option<SinkEpoch> },
    /// Pause the player or let it go on.
    PauseOutput { paused: bool },
    /// Stop the player.
    StopOutput,
    /// Cancel the readers of the stream, and keep its bytes and its transfer.
    CancelReaders,
    /// Cancel the transfer of the stream and wake its readers.
    CancelStream,
    /// Play the local file of a track, or tell that it is missing.
    PlayLocal { track_id: u64, paused: bool },
    /// Resolve the address that a track is streamed from.
    ResolveStream { generation: u64, track_id: u64, bitrate: Bitrate },
    /// Begin the transfer from the address that was resolved, and decode it.
    BeginStream { generation: u64, track_id: u64, bitrate: Bitrate },
    /// Decode the bytes of the stream again.
    RestoreStream(SourceTag),
    /// Decode the local file again, or tell that it is missing.
    RestoreFile(SourceTag),
    /// Let the output play the source that was decoded.
    AttachSource { position_base: u128, paused: bool },
}

/// The stream that is being transferred.
#[derive(Clone, Copy, Debug, PartialEq, Eq, Structural)]
pub struct StreamTag {
    pub generation: u64,
    pub track_id: u64,
}

/// What is known of the track that is wanted.
#[derive(Debug)]
pub struct TrackFacts<'a> {
    /// There is a session.
    pub logged_in: bool,
    /// The track is in the library.
    pub known: bool,
    /// A local file of it is known.
    pub local: bool,
    pub label: &'a str,
    /// The bitrate for streams.
    pub bitrate: Bitrate,
}

pub struct FactsView {
    pub logged_in: bool,
    pub known: bool,
    pub local: bool,
    pub label: Seq<char>,
    pub bitrate: Bitrate,
}

impl<'a> View for TrackFacts<'a> {
    type V = FactsView;

    open spec fn view(&self) -> FactsView {
        FactsView {
            logged_in: self.logged_in,
            known: self.known,
            local: self.local,
            label: self.label@,
            bitrate: self.bitrate,
        }
    }
}

/// What came of opening an output.
#[derive(Debug)]
pub enum OpenOutcome<'a> {
    Opened {
        sink_epoch: SinkEpoch,
        healthy: bool,
        device: Option<&'a str>,
        observed_default: &'a DefaultOutputProbe,
    },
    Failed(&'a str),
}

pub enum OpenOutcomeView {
    Opened { sink_epoch: SinkEpoch, verdict: AudioCandidate },
    Failed(Seq<char>),
}

impl<'a> View for OpenOutcome<'a> {
    type V = OpenOutcomeView;

    open spec fn view(&self) -> OpenOutcomeView {
        match self {
            OpenOutcome::Opened { sink_epoch, healthy, device, observed_default } =>
            OpenOutcomeView::Opened {
                sink_epoch: *sink_epoch,
                verdict: candidate(
                    *healthy,
                    device_view(*device),
                    probe_observed(observed_default@),
                ),
            },
            OpenOutcome::Failed(error) => OpenOutcomeView::Failed(error@),
        }
    }
}

/// What came of starting a source or a file on the output.
#[derive(Debug)]
pub enum PlayOutcome<'a> {
    Started,
    Failed(&'a str),
    /// There was no healthy output to start it on.
    NoOutput,
}

pub enum PlayOutcomeView {
    Started,
    Failed(Seq<char>),
    NoOutput,
}

impl<'a> View for PlayOutcome<'a> {
    type V = PlayOutcomeView;

    open spec fn view(&self) -> PlayOutcomeView {
        match self {
            PlayOutcome::Started => PlayOutcomeView::Started,
            PlayOutcome::Failed(error) => PlayOutcomeView::Failed(error@),
            PlayOutcome::NoOutput => PlayOutcomeView::NoOutput,
        }
    }
}

/// The number of a playback intent after this one.
pub open spec fn next_generation(generation: u64) -> u64 {
    if generation == u64::MAX {
        0
    } else {
        (generation + 1) as u64
    }
}

/// `count + 1`, not above the largest number.
pub open spec fn one_more(count: u32) -> u32 {
    if count == u32::MAX {
        u32::MAX
    } else {
        (count + 1) as u32
    }
}

/// `count - 1`, not below zero.
pub open spec fn one_less(count: u32) -> u32 {
    if count == 0 {
        0
    } else {
        (count - 1) as u32
    }
}

/// A wait in seconds with one decimal, such as `0.5s`.
pub open spec fn seconds_text(millis: u64) -> Seq<char> {
    decimal((millis / 1000) as nat) + "."@ + decimal((millis % 1000 / 100) as nat) + "s"@
}

fn push_seconds(out: &mut String, millis: u64)
    ensures
        final(out)@ == old(out)@ + seconds_text(millis),
{
    let ghost start = out@;
    push_decimal(out, millis / 1000);
    out.append(".");
    push_decimal(out, millis % 1000 / 100);
    out.append("s");
    assert(out@ =~= start + seconds_text(millis));
}

pub const OUTPUT_FAILED: &'static str = "Audio output failed; reconnecting...";

pub const DEFAULT_CHANGED: &'static str = "Default audio output changed; reconnecting...";

pub const RESTORING: &'static str = "Audio output changed; restoring paused playback...";

/// The state of playback and of the audio output. Times are in nanoseconds.
#[derive(Debug)]
pub struct Engine {
    pub audio: AudioState,
    /// What the user is told about the audio output.
    pub warning: Option<String>,
    pub failure_streak: u32,
    pub ready_since: Option<u64>,
    pub next_open_attempt: u64,
    pub next_probe: u64,
    pub probe_in_flight: Option<(u64, Option<SinkEpoch>)>,
    pub next_probe_at: u128,
    pub desired: DesiredPlayback,
    pub phase: PlaybackPhase,
    /// Changed whenever what is wanted changes; events of another generation are discarded.
    pub generation: u64,
    /// Where playback goes on once the output is replaced.
    pub checkpoint: Option<PlaybackCheckpoint>,
    pub stream: Option<StreamTag>,
    /// What the user is told about playback.
    pub status: String,
    /// What is to be done outside, in order.
    pub effects: Vec<Effect>,
}

pub struct EngineView {
    pub audio: AudioState,
    pub warning: Option<Seq<char>>,
    pub failure_streak: u32,
    pub ready_since: Option<u64>,
    pub next_open_attempt: u64,
    pub next_probe: u64,
    pub probe_in_flight: Option<(u64, Option<SinkEpoch>)>,
    pub next_probe_at: u128,
    pub desired: DesiredPlayback,
    pub phase: PlaybackPhase,
    pub generation: u64,
    pub checkpoint: Option<PlaybackCheckpoint>,
    pub stream: Option<StreamTag>,
    pub status: Seq<char>,
    pub effects: Seq<Effect>,
}

impl View for Engine {
    type V = EngineView;

    open spec fn view(&self) -> EngineView {
        EngineView {
            audio: self.audio,
            warning: match self.warning {
                Some(warning) => Some(warning@),
                None => None,
            },
            failure_streak: self.failure_streak,
            ready_since: self.ready_since,
            next_open_attempt: self.next_open_attempt,
            next_probe: self.next_probe,
            probe_in_flight: self.probe_in_flight,
            next_probe_at: self.next_probe_at,
            desired: self.desired,
            phase: self.phase,
            generation: self.generation,
            checkpoint: self.checkpoint,
            stream: self.stream,
            status: self.status@,
            effects: self.effects@,
        }
    }
}

impl EngineView {
    /// What holds at all times: nothing is loaded, restored or streamed unless a track is wanted,
    /// a checkpoint and a stream belong to the playback that is wanted now, and a checkpoint is
    /// kept only while the output is waited for.
    pub open spec fn wf(self) -> bool {
        &&& self.desired == DesiredPlayback::Stopped ==> self.phase == PlaybackPhase::Idle
            && self.checkpoint is None && self.stream is None
        &&& self.checkpoint matches Some(point) ==> point.generation == self.generation
            && self.desired.spec_track_id() == Some(point.track_id) && self.phase
            == PlaybackPhase::WaitingForAudio
        &&& self.stream matches Some(tag) ==> tag.generation == self.generation
            && self.desired.spec_track_id() == Some(tag.track_id)
    }

    pub open spec fn emit(self, effect: Effect) -> EngineView {
        EngineView { effects: self.effects.push(effect), ..self }
    }

    pub open spec fn emit_if(self, condition: bool, effect: Effect) -> EngineView {
        if condition {
            self.emit(effect)
        } else {
            self
        }
    }

    pub open spec fn with_status(self, status: Seq<char>) -> EngineView {
        EngineView { status, ..self }
    }

    /// The phase of wanted playback without an output.
    pub open spec fn without_output(self) -> PlaybackPhase {
        if self.desired is Track {
            PlaybackPhase::WaitingForAudio
        } else {
            PlaybackPhase::Idle
        }
    }

    /// The transfer of the stream is cancelled, if there is one.
    pub open spec fn stream_cancelled(self) -> EngineView {
        if self.stream is Some {
            (EngineView { stream: None, ..self }).emit(Effect::CancelStream)
        } else {
            self
        }
    }

    /// Nothing is wanted any more.
    pub open spec fn stopped(self) -> EngineView {
        (EngineView {
            desired: DesiredPlayback::Stopped,
            phase: PlaybackPhase::Idle,
            checkpoint: None,
            generation: next_generation(self.generation),
            ..self
        }).stream_cancelled().emit_if(self.audio is Ready, Effect::StopOutput)
    }

    /// Nothing is wanted, and no output is there yet.
    pub open spec fn initial(now: u64) -> EngineView {
        EngineView {
            audio: AudioState::Unavailable { retry_at: now as u128, retry_count: 0 },
            warning: Some("Opening audio output..."@),
            failure_streak: 0,
            ready_since: None,
            next_open_attempt: 0,
            next_probe: 0,
            probe_in_flight: None,
            next_probe_at: now as u128,
            desired: DesiredPlayback::Stopped,
            phase: PlaybackPhase::Idle,
            generation: 0,
            checkpoint: None,
            stream: None,
            status: Seq::empty(),
            effects: Seq::empty(),
        }
    }

    /// An output is being opened.
    pub open spec fn opening(
        self,
        retry_count: u32,
        previous: PreviousOutput,
        message: Seq<char>,
    ) -> EngineView {
        let attempt_id = successor(self.next_open_attempt);
        (EngineView {
            next_open_attempt: attempt_id,
            audio: AudioState::Opening { attempt_id, retry_count },
            ready_since: None,
            warning: Some(message),
            phase: if self.desired is Track {
                PlaybackPhase::WaitingForAudio
            } else {
                self.phase
            },
            ..self
        }).emit(Effect::OpenOutput { attempt_id, previous })
    }

    /// An output is opened again after a while.
    pub open spec fn unavailable(self, retry_count: u32, message: Seq<char>, now: u64) -> EngineView {
        let delay = retry_delay(retry_count);
        EngineView {
            failure_streak: if self.failure_streak < retry_count {
                retry_count
            } else {
                self.failure_streak
            },
            ready_since: None,
            audio: AudioState::Unavailable {
                retry_at: (now + delay * 1_000_000) as u128,
                retry_count,
            },
            warning: Some(message + "; retrying audio output in "@ + seconds_text(delay)),
            phase: self.without_output(),
            next_probe_at: (now + AUDIO_PROBE_INTERVAL_NANOS) as u128,
            ..self
        }
    }

    /// Playback is frozen because the output is lost. Where it can go on, it is wanted paused, and
    /// the bytes of its stream are kept.
    pub open spec fn frozen(self, position: Option<u128>) -> EngineView {
        let ready = self.audio is Ready;
        let checkpoint = checkpoint_after(
            self.checkpoint,
            self.phase,
            self.desired,
            self.generation,
            if ready {
                position
            } else {
                None
            },
        );
        let quiet = (EngineView { checkpoint, ..self }).emit_if(
            ready,
            Effect::PauseOutput { paused: true },
        );
        match checkpoint {
            None => quiet,
            Some(point) => (EngineView {
                desired: self.desired.reduced(DesiredPlaybackAction::Pause),
                phase: PlaybackPhase::WaitingForAudio,
                ..quiet
            }).emit_if(
                self.stream == Some(
                    StreamTag { generation: point.generation, track_id: point.track_id },
                ),
                Effect::CancelReaders,
            ),
        }
    }

    /// What was being played or loaded cannot go on.
    pub open spec fn invalidated(self) -> EngineView {
        (EngineView {
            generation: next_generation(self.generation),
            phase: self.without_output(),
            ..self
        }).stream_cancelled()
    }

    /// Playback is frozen, or given up where it cannot go on, and the output is stopped.
    pub open spec fn detached(self, position: Option<u128>) -> EngineView {
        let frozen = self.frozen(position);
        let quiet = frozen.emit_if(self.audio is Ready, Effect::StopOutput);
        if frozen.checkpoint is Some {
            quiet
        } else {
            quiet.invalidated()
        }
    }

    /// The output is replaced at once, unless one is being opened already.
    pub open spec fn recovering(self, message: Seq<char>, position: Option<u128>) -> EngineView {
        match self.audio {
            AudioState::Opening { .. } => self,
            AudioState::Ready { .. } => self.detached(position).opening(
                0,
                PreviousOutput::Current,
                message,
            ),
            AudioState::Unavailable { retry_count, .. } => self.detached(position).opening(
                retry_count,
                PreviousOutput::Nothing,
                message,
            ),
        }
    }

    /// The number of failures in a row, with the one that happens now. A stable output makes the
    /// count begin anew.
    pub open spec fn streak_with_failure(self, now: u64) -> u32 {
        let stable = self.ready_since matches Some(since) && now - since
            >= AUDIO_STABLE_RESET_AFTER_NANOS;
        one_more(
            if stable {
                0
            } else {
                self.failure_streak
            },
        )
    }

    /// The output failed: it is replaced at once after the first failure, and after a while after
    /// further ones.
    pub open spec fn failure_recovering(
        self,
        message: Seq<char>,
        position: Option<u128>,
        now: u64,
    ) -> EngineView {
        if self.audio is Opening {
            self
        } else {
            let streak = self.streak_with_failure(now);
            let ready = self.audio is Ready;
            let detached = EngineView { failure_streak: streak, ..self.detached(position) };
            if streak == 1 {
                detached.opening(
                    0,
                    if ready {
                        PreviousOutput::Current
                    } else {
                        PreviousOutput::Nothing
                    },
                    message,
                )
            } else {
                detached.emit_if(ready, Effect::DisposeCurrent).unavailable(
                    one_less(streak),
                    message,
                    now,
                )
            }
        }
    }

    /// The stream of the wanted track is resolved.
    pub open spec fn fetching(self, track_id: u64, facts: FactsView) -> EngineView {
        (EngineView {
            phase: PlaybackPhase::Loading,
            status: "Fetching stream for "@ + facts.label,
            ..self
        }).emit(
            Effect::ResolveStream {
                generation: self.generation,
                track_id,
                bitrate: facts.bitrate,
            },
        )
    }

    /// The wanted track is started anew.
    pub open spec fn started(self, facts: FactsView, healthy: bool, now: u64) -> EngineView {
        let fresh = (EngineView {
            checkpoint: None,
            generation: next_generation(self.generation),
            ..self
        }).stream_cancelled();
        match self.desired {
            DesiredPlayback::Stopped => EngineView { phase: PlaybackPhase::Idle, ..fresh },
            DesiredPlayback::Track { track_id, paused } => if !facts.logged_in {
                fresh.stopped().with_status("Not logged in"@)
            } else if !facts.known {
                fresh.stopped().with_status("Unknown track id "@ + decimal(track_id as nat))
            } else if !(self.audio is Ready) {
                EngineView { phase: PlaybackPhase::WaitingForAudio, ..fresh }
            } else if !healthy {
                (EngineView { phase: PlaybackPhase::WaitingForAudio, ..fresh }).failure_recovering(
                    OUTPUT_FAILED@,
                    None,
                    now,
                )
            } else if facts.local {
                fresh.emit(Effect::StopOutput).emit(Effect::PlayLocal { track_id, paused })
            } else {
                fresh.emit(Effect::StopOutput).fetching(track_id, facts)
            },
        }
    }

    /// The given track is wanted and started.
    pub open spec fn playing(
        self,
        track_id: u64,
        facts: FactsView,
        healthy: bool,
        now: u64,
    ) -> EngineView {
        (EngineView {
            desired: self.desired.reduced(DesiredPlaybackAction::Play(track_id)),
            ..self
        }).started(facts, healthy, now)
    }

    /// Playback cannot go on because nothing is left of its source.
    pub open spec fn unrestorable(self) -> EngineView {
        self.stopped().with_status(
            "Cannot resume after audio output change: retained source is unavailable"@,
        )
    }

    /// Playback goes on at the checkpoint on the new output, from what is left of its source.
    pub open spec fn restored(self, facts: FactsView, healthy: bool, now: u64) -> EngineView {
        match self.checkpoint {
            None => self,
            Some(point) => if point.generation != self.generation || self.desired.spec_track_id()
                != Some(point.track_id) {
                let forgotten = EngineView { checkpoint: None, ..self };
                if self.desired is Track {
                    forgotten.started(facts, healthy, now)
                } else {
                    forgotten
                }
            } else if !(self.audio is Ready) || !healthy {
                EngineView { phase: PlaybackPhase::WaitingForAudio, ..self }
            } else {
                let tag = SourceTag {
                    generation: point.generation,
                    track_id: point.track_id,
                    sink_epoch: self.audio.spec_sink_epoch(),
                    position_base: point.position,
                };
                let waiting = EngineView {
                    phase: PlaybackPhase::WaitingForAudio,
                    status: RESTORING@,
                    ..self
                };
                if self.stream == Some(
                    StreamTag { generation: point.generation, track_id: point.track_id },
                ) {
                    waiting.emit(Effect::RestoreStream(tag))
                } else if facts.logged_in && facts.known {
                    waiting.emit(Effect::RestoreFile(tag))
                } else {
                    self.unrestorable()
                }
            },
        }
    }

    /// Opening an output has come to an end.
    pub open spec fn open_finished(
        self,
        attempt_id: u64,
        outcome: OpenOutcomeView,
        facts: FactsView,
        now: u64,
    ) -> EngineView {
        match attempt_retries(self.audio, attempt_id) {
            None => self.emit_if(outcome is Opened, Effect::DisposeCandidate),
            Some(retry_count) => match outcome {
                OpenOutcomeView::Failed(error) => self.unavailable(
                    one_more(retry_count),
                    "Audio output unavailable: "@ + error,
                    now,
                ),
                OpenOutcomeView::Opened { sink_epoch, verdict } => match verdict {
                    AudioCandidate::Accept => {
                        let ready = (EngineView {
                            audio: AudioState::Ready { sink_epoch },
                            warning: None,
                            ready_since: Some(now),
                            next_probe_at: (now + AUDIO_PROBE_INTERVAL_NANOS) as u128,
                            ..self
                        }).emit(Effect::InstallCandidate);
                        if ready.checkpoint is Some {
                            ready.restored(facts, true, now)
                        } else if ready.desired is Track {
                            ready.started(facts, true, now)
                        } else {
                            EngineView { phase: PlaybackPhase::Idle, ..ready }
                        }
                    },
                    AudioCandidate::DefaultChanged => self.opening(
                        retry_count,
                        PreviousOutput::Candidate,
                        DEFAULT_CHANGED@,
                    ),
                    AudioCandidate::Failed => self.emit(Effect::DisposeCandidate).unavailable(
                        one_more(retry_count),
                        "Audio output failed while opening"@,
                        now,
                    ),
                    AudioCandidate::NoDefault => self.emit(Effect::DisposeCandidate).unavailable(
                        one_more(retry_count),
                        "No default audio output device available"@,
                        now,
                    ),
                },
            },
        }
    }

    /// A probe has come to an end. `verdict` says what becomes of the output in use.
    pub open spec fn probe_finished(
        self,
        probe_id: u64,
        sink_epoch: Option<SinkEpoch>,
        verdict: AudioCandidate,
        available: bool,
        position: Option<u128>,
        now: u64,
    ) -> EngineView {
        match probe_disposition(
            self.probe_in_flight,
            probe_id,
            sink_epoch,
            self.audio.spec_sink_epoch(),
        ) {
            ProbeEventDisposition::Ignore => self,
            ProbeEventDisposition::ConsumeStale => self.probe_taken(now),
            ProbeEventDisposition::Apply => match self.audio {
                AudioState::Ready { .. } => match verdict {
                    AudioCandidate::Accept => self.probe_taken(now),
                    AudioCandidate::DefaultChanged => self.probe_taken(now).recovering(
                        DEFAULT_CHANGED@,
                        position,
                    ),
                    AudioCandidate::NoDefault => self.probe_taken(now).recovering(
                        "No default audio output device; waiting for one..."@,
                        position,
                    ),
                    AudioCandidate::Failed => self.probe_taken(now).failure_recovering(
                        OUTPUT_FAILED@,
                        position,
                        now,
                    ),
                },
                AudioState::Unavailable { .. } => if available {
                    self.probe_taken(now).recovering(
                        "Audio output detected; reconnecting..."@,
                        position,
                    )
                } else {
                    self.probe_taken(now)
                },
                AudioState::Opening { .. } => self.probe_taken(now),
            },
        }
    }

    /// The answer to the probe in flight was taken.
    pub open spec fn probe_taken(self, now: u64) -> EngineView {
        EngineView {
            probe_in_flight: None,
            next_probe_at: (now + AUDIO_PROBE_INTERVAL_NANOS) as u128,
            ..self
        }
    }

    /// The stream of an output reported an error.
    pub open spec fn stream_error(
        self,
        sink_epoch: SinkEpoch,
        fatal: bool,
        message: Seq<char>,
        position: Option<u128>,
        now: u64,
    ) -> EngineView {
        if self.audio == (AudioState::Ready { sink_epoch }) && fatal {
            self.failure_recovering(message + "; reconnecting..."@, position, now)
        } else {
            self
        }
    }

    /// Time has passed.
    pub open spec fn ticked(self, now: u64) -> EngineView {
        let stable = self.audio is Ready && self.ready_since is Some && now - self.ready_since->0
            >= AUDIO_STABLE_RESET_AFTER_NANOS;
        let counted = EngineView {
            failure_streak: if stable {
                0
            } else {
                self.failure_streak
            },
            ..self
        };
        match self.audio {
            AudioState::Unavailable { retry_at, retry_count } if now >= retry_at =>
            counted.opening(retry_count, PreviousOutput::Nothing, "Retrying audio output..."@),
            _ => if self.audio is Opening || self.probe_in_flight is Some || now
                < self.next_probe_at {
                counted
            } else {
                let probe_id = successor(self.next_probe);
                let sink_epoch = self.audio.spec_sink_epoch();
                (EngineView {
                    next_probe: probe_id,
                    probe_in_flight: Some((probe_id, sink_epoch)),
                    next_probe_at: (now + AUDIO_PROBE_INTERVAL_NANOS) as u128,
                    ..counted
                }).emit(Effect::ProbeOutput { probe_id, sink_epoch })
            },
        }
    }

    /// A file or a source could not be started.
    pub open spec fn start_failed(self, error: Seq<char>, healthy: bool, now: u64) -> EngineView {
        if self.audio is Ready && !healthy {
            self.failure_recovering(error + "; reconnecting..."@, None, now)
        } else {
            self.stopped().with_status("Playback failed: "@ + error)
        }
    }

    /// The local file was started, or not.
    pub open spec fn local_played(
        self,
        outcome: PlayOutcomeView,
        label: Seq<char>,
        healthy: bool,
        now: u64,
    ) -> EngineView {
        match outcome {
            PlayOutcomeView::NoOutput => EngineView {
                phase: PlaybackPhase::WaitingForAudio,
                ..self
            },
            PlayOutcomeView::Started => (EngineView {
                phase: PlaybackPhase::Active,
                ..self
            }).with_status("Playing local file: "@ + label),
            PlayOutcomeView::Failed(error) => self.start_failed(error, healthy, now),
        }
    }

    /// The address of a stream was resolved, or not.
    pub open spec fn stream_resolved(
        self,
        generation: u64,
        track_id: u64,
        bitrate: Bitrate,
        error: Option<Seq<char>>,
    ) -> EngineView {
        if generation != self.generation || self.phase != PlaybackPhase::Loading {
            self
        } else {
            match error {
                Some(error) => self.stopped().with_status("Stream failed: "@ + error),
                None => if self.desired.spec_track_id() == Some(track_id) {
                    (EngineView { stream: Some(StreamTag { generation, track_id }), ..self }).emit(
                        Effect::BeginStream { generation, track_id, bitrate },
                    )
                } else {
                    self
                },
            }
        }
    }

    /// A source was decoded, or not.
    pub open spec fn decoded(
        self,
        source: SourceTag,
        error: Option<Seq<char>>,
        healthy: bool,
    ) -> EngineView {
        if !source_counts(
            source,
            self.generation,
            self.phase,
            self.desired,
            self.checkpoint,
            self.audio.spec_sink_epoch(),
        ) {
            self
        } else {
            match error {
                Some(error) => self.stopped().with_status("Playback failed: "@ + error),
                None => if self.audio is Ready && healthy {
                    self.emit(
                        Effect::AttachSource {
                            position_base: source.position_base,
                            paused: self.desired.spec_paused(),
                        },
                    )
                } else {
                    EngineView {
                        phase: PlaybackPhase::WaitingForAudio,
                        ..if source.sink_epoch is Some {
                            self
                        } else {
                            self.stream_cancelled()
                        }
                    }
                },
            }
        }
    }

    /// A decoded source was started, or not. A start after which the output has failed counts as
    /// one that did not work.
    pub open spec fn source_attached(
        self,
        restoring: bool,
        outcome: PlayOutcomeView,
        label: Seq<char>,
        healthy: bool,
        now: u64,
    ) -> EngineView {
        let dropped = if restoring {
            self
        } else {
            self.stream_cancelled()
        };
        match outcome {
            PlayOutcomeView::NoOutput => EngineView {
                phase: PlaybackPhase::WaitingForAudio,
                ..dropped
            },
            PlayOutcomeView::Failed(error) => dropped.start_failed(error, healthy, now),
            PlayOutcomeView::Started => if !healthy {
                dropped.start_failed(
                    "playback error: audio output failed while starting playback"@,
                    healthy,
                    now,
                )
            } else {
                EngineView {
                    phase: PlaybackPhase::Active,
                    checkpoint: if restoring {
                        None
                    } else {
                        self.checkpoint
                    },
                    status: if !self.desired.spec_paused() {
                        "Playing "@ + label
                    } else if restoring {
                        "Paused after audio output change: "@ + label + "; press Space to resume"@
                    } else {
                        "Paused "@ + label
                    },
                    ..self
                }
            },
        }
    }

    /// The transfer of a stream failed. What has arrived is still played.
    pub open spec fn interrupted(self, generation: u64, error: Seq<char>) -> EngineView {
        if generation == self.generation {
            self.with_status("Stream error: "@ + error)
        } else {
            self
        }
    }

    /// The user paused playback or let it go on.
    pub open spec fn toggled(self, healthy: bool) -> EngineView {
        if self.desired == DesiredPlayback::Stopped {
            self.with_status("Nothing playing"@)
        } else {
            let desired = self.desired.reduced(DesiredPlaybackAction::TogglePause);
            let paused = desired.spec_paused();
            (EngineView {
                desired,
                status: if paused {
                    "Paused"@
                } else {
                    "Playing"@
                },
                ..self
            }).emit_if(
                self.audio is Ready && healthy && self.phase == PlaybackPhase::Active,
                Effect::PauseOutput { paused },
            )
        }
    }
}

impl Engine {
    pub open spec fn wf(self) -> bool {
        self@.wf()
    }

    /// Nothing is wanted and no output is there yet.
    pub fn new(now: u64) -> (res: Engine)
        ensures
            res.wf(),
            res@ == EngineView::initial(now),
    {
        Engine {
            audio: AudioState::Unavailable { retry_at: now as u128, retry_count: 0 },
            warning: Some("Opening audio output...".to_owned()),
            failure_streak: 0,
            ready_since: None,
            next_open_attempt: 0,
            next_probe: 0,
            probe_in_flight: None,
            next_probe_at: now as u128,
            desired: DesiredPlayback::Stopped,
            phase: PlaybackPhase::Idle,
            generation: 0,
            checkpoint: None,
            stream: None,
            status: String::new(),
            effects: Vec::new(),
        }
    }

    /// The effects since this was last asked, in order.
    pub fn take_effects(&mut self) -> (res: Vec<Effect>)
        ensures
            res@ == old(self)@.effects,
            final(self)@ == (EngineView { effects: Seq::empty(), ..old(self)@ }),
    {
        let mut effects: Vec<Effect> = Vec::new();
        std::mem::swap(&mut effects, &mut self.effects);
        effects
    }

    /// Tells the user something about playback.
    pub fn set_status(&mut self, status: String)
        ensures
            final(self)@ == old(self)@.with_status(status@),
    {
        self.status = status;
    }

    fn advance_generation(&mut self)
        ensures
            final(self)@ == (EngineView {
                generation: next_generation(old(self)@.generation),
                ..old(self)@
            }),
    {
        self.generation = self.generation.wrapping_add(1);
    }

    /// Cancels the transfer of the stream, if there is one.
    pub fn cancel_stream_task(&mut self)
        ensures
            final(self)@ == old(self)@.stream_cancelled(),
    {
        if self.stream.is_some() {
            self.stream = None;
            self.effects.push(Effect::CancelStream);
        }
    }

    /// Stops playback; nothing is wanted any more.
    pub fn stop_requested_playback(&mut self)
        ensures
            final(self)@ == old(self)@.stopped(),
    {
        self.desired = reduce_desired_playback(self.desired, DesiredPlaybackAction::Stop);
        self.phase = PlaybackPhase::Idle;
        self.checkpoint = None;
        self.advance_generation();
        self.cancel_stream_task();
        if let AudioState::Ready { .. } = self.audio {
            self.effects.push(Effect::StopOutput);
        }
    }

    /// Begins to open an output.
    pub fn begin_audio_open(&mut self, retry_count: u32, previous: PreviousOutput, message: &str)
        ensures
            final(self)@ == old(self)@.opening(retry_count, previous, message@),
    {
        self.next_open_attempt = next_number(self.next_open_attempt);
        let attempt_id: u64 = self.next_open_attempt;
        self.audio = AudioState::Opening { attempt_id, retry_count };
        self.ready_since = None;
        self.warning = Some(message.to_owned());
        if self.desired.track_id().is_some() {
            self.phase = PlaybackPhase::WaitingForAudio;
        }
        self.effects.push(Effect::OpenOutput { attempt_id, previous });
    }

    fn phase_without_output(&self) -> (res: PlaybackPhase)
        ensures
            res == self@.without_output(),
    {
        if self.desired.track_id().is_some() {
            PlaybackPhase::WaitingForAudio
        } else {
            PlaybackPhase::Idle
        }
    }

    /// Waits before an output is opened again.
    pub fn set_audio_unavailable(&mut self, retry_count: u32, message: &str, now: u64)
        ensures
            final(self)@ == old(self)@.unavailable(retry_count, message@, now),
    {
        let delay: u64 = audio_retry_delay(retry_count);
        if self.failure_streak < retry_count {
            self.failure_streak = retry_count;
        }
        self.ready_since = None;
        self.audio = AudioState::Unavailable {
            retry_at: now as u128 + delay as u128 * 1_000_000,
            retry_count,
        };
        let mut warning = prefixed(message, "; retrying audio output in ");
        push_seconds(&mut warning, delay);
        self.warning = Some(warning);
        self.phase = self.phase_without_output();
        self.next_probe_at = now as u128 + AUDIO_PROBE_INTERVAL_NANOS as u128;
    }

    /// Freezes playback because the output is lost. Gives `true` where it can go on from what is
    /// left of its source.
    pub fn checkpoint_playback_for_audio_recovery(&mut self, position: Option<u128>) -> (res: bool)
        ensures
            final(self)@ == old(self)@.frozen(position),
            res == (final(self)@.checkpoint is Some),
    {
        let position: Option<u128> = match self.audio {
            AudioState::Ready { .. } => {
                self.effects.push(Effect::PauseOutput { paused: true });
                position
            },
            _ => None,
        };
        self.checkpoint = checkpoint_after_audio_loss(
            self.checkpoint,
            self.phase,
            self.desired,
            self.generation,
            position,
        );
        match self.checkpoint {
            None => false,
            Some(checkpoint) => {
                self.desired = reduce_desired_playback(self.desired, DesiredPlaybackAction::Pause);
                if let Some(tag) = self.stream {
                    if tag.generation == checkpoint.generation && tag.track_id
                        == checkpoint.track_id {
                        self.effects.push(Effect::CancelReaders);
                    }
                }
                self.phase = PlaybackPhase::WaitingForAudio;
                true
            },
        }
    }

    /// Gives up what was being played or loaded.
    pub fn invalidate_playback_pipeline_for_audio_loss(&mut self)
        ensures
            final(self)@ == old(self)@.invalidated(),
    {
        self.advance_generation();
        self.phase = self.phase_without_output();
        self.cancel_stream_task();
    }

    /// Freezes playback or gives it up, and stops the output.
    fn detach(&mut self, position: Option<u128>)
        ensures
            final(self)@ == old(self)@.detached(position),
    {
        let ready = matches!(self.audio, AudioState::Ready { .. });
        let can_resume_in_place = self.checkpoint_playback_for_audio_recovery(position);
        if ready {
            self.effects.push(Effect::StopOutput);
        }
        if !can_resume_in_place {
            self.invalidate_playback_pipeline_for_audio_loss();
        }
    }

    /// Replaces the output at once, unless one is being opened already.
    pub fn begin_audio_recovery(&mut self, message: &str, position: Option<u128>)
        ensures
            final(self)@ == old(self)@.recovering(message@, position),
    {
        match self.audio {
            AudioState::Opening { .. } => {},
            AudioState::Ready { .. } => {
                self.detach(position);
                self.begin_audio_open(0, PreviousOutput::Current, message);
            },
            AudioState::Unavailable { retry_count, .. } => {
                self.detach(position);
                self.begin_audio_open(retry_count, PreviousOutput::Nothing, message);
            },
        }
    }

    /// Replaces an output that failed: at once after the first failure, and after a while after
    /// further ones in a row.
    pub fn begin_audio_failure_recovery(
        &mut self,
        message: &str,
        position: Option<u128>,
        now: u64,
    )
        ensures
            final(self)@ == old(self)@.failure_recovering(message@, position, now),
    {
        let ready = match self.audio {
            AudioState::Opening { .. } => {
                return;
            },
            AudioState::Ready { .. } => true,
            AudioState::Unavailable { .. } => false,
        };
        let stable = match self.ready_since {
            Some(since) => now >= since && now - since >= AUDIO_STABLE_RESET_AFTER_NANOS,
            None => false,
        };
        let before: u32 = if stable {
            0
        } else {
            self.failure_streak
        };
        let streak: u32 = before.saturating_add(1);
        self.detach(position);
        self.failure_streak = streak;
        if streak == 1 {
            self.begin_audio_open(
                0,
                if ready {
                    PreviousOutput::Current
                } else {
                    PreviousOutput::Nothing
                },
                message,
            );
        } else {
            if ready {
                self.effects.push(Effect::DisposeCurrent);
            }
            self.set_audio_unavailable(streak.saturating_sub(1), message, now);
        }
    }

    /// Resolves the stream of the wanted track.
    pub fn fetch_stream(&mut self, track_id: u64, facts: &TrackFacts<'_>)
        ensures
            final(self)@ == old(self)@.fetching(track_id, facts@),
    {
        self.phase = PlaybackPhase::Loading;
        self.status = prefixed("Fetching stream for ", facts.label);
        self.effects.push(
            Effect::ResolveStream {
                generation: self.generation,
                track_id,
                bitrate: facts.bitrate,
            },
        );
    }

    /// Starts the wanted track anew. `healthy` tells whether the output in use is healthy.
    pub fn start_desired_track(&mut self, facts: &TrackFacts<'_>, healthy: bool, now: u64)
        ensures
            final(self)@ == old(self)@.started(facts@, healthy, now),
    {
        self.checkpoint = None;
        self.advance_generation();
        self.cancel_stream_task();
        let (track_id, paused) = match self.desired {
            DesiredPlayback::Stopped => {
                self.phase = PlaybackPhase::Idle;
                return;
            },
            DesiredPlayback::Track { track_id, paused } => (track_id, paused),
        };
        if !facts.logged_in {
            self.stop_requested_playback();
            self.status = "Not logged in".to_owned();
            return;
        }
        if !facts.known {
            self.stop_requested_playback();
            let mut status = "Unknown track id ".to_owned();
            push_decimal(&mut status, track_id);
            self.status = status;
            return;
        }
        let ready = matches!(self.audio, AudioState::Ready { .. });
        if !ready || !healthy {
            self.phase = PlaybackPhase::WaitingForAudio;
            if ready {
                self.begin_audio_failure_recovery(OUTPUT_FAILED, None, now);
            }
            return;
        }
        self.effects.push(Effect::StopOutput);
        if facts.local {
            self.effects.push(Effect::PlayLocal { track_id, paused });
        } else {
            self.fetch_stream(track_id, facts);
        }
    }

    /// Wants the given track and starts it.
    pub fn play_track(&mut self, track_id: u64, facts: &TrackFacts<'_>, healthy: bool, now: u64)
        ensures
            final(self)@ == old(self)@.playing(track_id, facts@, healthy, now),
    {
        self.desired = reduce_desired_playback(
            self.desired,
            DesiredPlaybackAction::Play(track_id),
        );
        self.start_desired_track(facts, healthy, now);
    }

    /// Gives up playback that cannot go on because its source is gone.
    pub fn restore_unavailable(&mut self)
        ensures
            final(self)@ == old(self)@.unrestorable(),
    {
        self.stop_requested_playback();
        self.status = "Cannot resume after audio output change: retained source is unavailable".to_owned();
    }

    /// Lets playback go on at the checkpoint on the new output. The source is tagged with the
    /// playback and with the output, so that it cannot get to another output when outputs change
    /// rapidly.
    pub fn restore_playback_checkpoint(&mut self, facts: &TrackFacts<'_>, healthy: bool, now: u64)
        ensures
            final(self)@ == old(self)@.restored(facts@, healthy, now),
    {
        let checkpoint = match self.checkpoint {
            Some(checkpoint) => checkpoint,
            None => {
                return;
            },
        };
        if checkpoint.generation != self.generation || self.desired.track_id() != Some(
            checkpoint.track_id,
        ) {
            self.checkpoint = None;
            if self.desired.track_id().is_some() {
                self.start_desired_track(facts, healthy, now);
            }
            return;
        }
        let sink_epoch = self.audio.sink_epoch();
        if sink_epoch.is_none() || !healthy {
            self.phase = PlaybackPhase::WaitingForAudio;
            return;
        }
        let tag = SourceTag {
            generation: checkpoint.generation,
            track_id: checkpoint.track_id,
            sink_epoch,
            position_base: checkpoint.position,
        };
        let retained = match self.stream {
            Some(stream) => stream.generation == checkpoint.generation && stream.track_id
                == checkpoint.track_id,
            None => false,
        };
        if retained {
            self.effects.push(Effect::RestoreStream(tag));
        } else if facts.logged_in && facts.known {
            self.effects.push(Effect::RestoreFile(tag));
        } else {
            self.restore_unavailable();
            return;
        }
        self.phase = PlaybackPhase::WaitingForAudio;
        self.status = RESTORING.to_owned();
    }

    /// Takes into account that opening an output has come to an end.
    pub fn handle_audio_open_finished(
        &mut self,
        attempt_id: u64,
        outcome: &OpenOutcome<'_>,
        facts: &TrackFacts<'_>,
        now: u64,
    )
        ensures
            final(self)@ == old(self)@.open_finished(attempt_id, outcome@, facts@, now),
    {
        let retry_count: u32 = match open_attempt_retry_count(&self.audio, attempt_id) {
            Some(retry_count) => retry_count,
            None => {
                if let OpenOutcome::Opened { .. } = outcome {
                    self.effects.push(Effect::DisposeCandidate);
                }
                return;
            },
        };
        match outcome {
            OpenOutcome::Failed(error) => {
                let message = prefixed("Audio output unavailable: ", error);
                self.set_audio_unavailable(
                    retry_count.saturating_add(1),
                    message.as_str(),
                    now,
                );
            },
            OpenOutcome::Opened { sink_epoch, healthy, device, observed_default } => {
                match classify_audio_candidate(*healthy, *device, observed_default) {
                    AudioCandidate::Accept => {
                        self.audio = AudioState::Ready { sink_epoch: *sink_epoch };
                        self.warning = None;
                        self.ready_since = Some(now);
                        self.next_probe_at = now as u128 + AUDIO_PROBE_INTERVAL_NANOS as u128;
                        self.effects.push(Effect::InstallCandidate);
                        if self.checkpoint.is_some() {
                            self.restore_playback_checkpoint(facts, true, now);
                        } else if self.desired.track_id().is_some() {
                            self.start_desired_track(facts, true, now);
                        } else {
                            self.phase = PlaybackPhase::Idle;
                        }
                    },
                    AudioCandidate::DefaultChanged => {
                        self.begin_audio_open(
                            retry_count,
                            PreviousOutput::Candidate,
                            DEFAULT_CHANGED,
                        );
                    },
                    AudioCandidate::Failed => {
                        self.effects.push(Effect::DisposeCandidate);
                        self.set_audio_unavailable(
                            retry_count.saturating_add(1),
                            "Audio output failed while opening",
                            now,
                        );
                    },
                    AudioCandidate::NoDefault => {
                        self.effects.push(Effect::DisposeCandidate);
                        self.set_audio_unavailable(
                            retry_count.saturating_add(1),
                            "No default audio output device available",
                            now,
                        );
                    },
                }
            },
        }
    }

    /// Takes the answer to a probe into account. `healthy`, `device` and `position` are those of
    /// the output in use.
    pub fn handle_audio_probe_finished(
        &mut self,
        probe_id: u64,
        sink_epoch: Option<SinkEpoch>,
        healthy: bool,
        device: Option<&str>,
        result: &DefaultOutputProbe,
        position: Option<u128>,
        now: u64,
    )
        ensures
            final(self)@ == old(self)@.probe_finished(
                probe_id,
                sink_epoch,
                candidate(healthy, device_view(device), probe_observed(result@)),
                result@ is Available,
                position,
                now,
            ),
    {
        let current_epoch = self.audio.sink_epoch();
        match classify_probe_event(self.probe_in_flight, probe_id, sink_epoch, current_epoch) {
            ProbeEventDisposition::Ignore => {
                return;
            },
            ProbeEventDisposition::ConsumeStale => {
                self.take_probe(now);
                return;
            },
            ProbeEventDisposition::Apply => {
                self.take_probe(now);
            },
        }
        match self.audio {
            AudioState::Ready { .. } => {
                match classify_audio_candidate(healthy, device, result) {
                    AudioCandidate::Accept => {},
                    AudioCandidate::DefaultChanged => {
                        self.begin_audio_recovery(DEFAULT_CHANGED, position);
                    },
                    AudioCandidate::NoDefault => {
                        self.begin_audio_recovery(
                            "No default audio output device; waiting for one...",
                            position,
                        );
                    },
                    AudioCandidate::Failed => {
                        self.begin_audio_failure_recovery(OUTPUT_FAILED, position, now);
                    },
                }
            },
            AudioState::Unavailable { .. } => {
                if let DefaultOutputProbe::Available(_) = result {
                    self.begin_audio_recovery("Audio output detected; reconnecting...", position);
                }
            },
            AudioState::Opening { .. } => {},
        }
    }

    fn take_probe(&mut self, now: u64)
        ensures
            final(self)@ == old(self)@.probe_taken(now),
    {
        self.probe_in_flight = None;
        self.next_probe_at = now as u128 + AUDIO_PROBE_INTERVAL_NANOS as u128;
    }

    /// Takes an error of an output's stream into account.
    pub fn handle_audio_stream_event(
        &mut self,
        event: &AudioStreamEvent,
        position: Option<u128>,
        now: u64,
    )
        ensures
            final(self)@ == old(self)@.stream_error(
                event.sink_epoch,
                !(event.error is BufferUnderrun),
                event.error.spec_message(),
                position,
                now,
            ),
    {
        let is_current = match self.audio {
            AudioState::Ready { sink_epoch } => sink_epoch == event.sink_epoch,
            _ => false,
        };
        if is_current && event.error.is_fatal() {
            let error = event.error.message();
            let message = prefixed(error.as_str(), "; reconnecting...");
            self.begin_audio_failure_recovery(message.as_str(), position, now);
        }
    }

    /// Takes into account that time has passed: retries to open an output, and probes it.
    pub fn tick_audio_lifecycle(&mut self, now: u64)
        ensures
            final(self)@ == old(self)@.ticked(now),
    {
        if let AudioState::Ready { .. } = self.audio {
            if let Some(since) = self.ready_since {
                if now >= since && now - since >= AUDIO_STABLE_RESET_AFTER_NANOS {
                    self.failure_streak = 0;
                }
            }
        }
        if let AudioState::Unavailable { retry_at, retry_count } = self.audio {
            if now as u128 >= retry_at {
                self.begin_audio_open(
                    retry_count,
                    PreviousOutput::Nothing,
                    "Retrying audio output...",
                );
                return;
            }
        }
        if let AudioState::Opening { .. } = self.audio {
            return;
        }
        if self.probe_in_flight.is_some() || (now as u128) < self.next_probe_at {
            return;
        }
        self.next_probe = next_number(self.next_probe);
        let probe_id: u64 = self.next_probe;
        let sink_epoch = self.audio.sink_epoch();
        self.probe_in_flight = Some((probe_id, sink_epoch));
        self.next_probe_at = now as u128 + AUDIO_PROBE_INTERVAL_NANOS as u128;
        self.effects.push(Effect::ProbeOutput { probe_id, sink_epoch });
    }

    /// Takes into account that something could not be started: because the output failed, or for
    /// another reason.
    fn handle_start_failure(&mut self, error: &str, healthy: bool, now: u64)
        ensures
            final(self)@ == old(self)@.start_failed(error@, healthy, now),
    {
        let ready = matches!(self.audio, AudioState::Ready { .. });
        if ready && !healthy {
            let message = prefixed(error, "; reconnecting...");
            self.begin_audio_failure_recovery(message.as_str(), None, now);
        } else {
            self.stop_requested_playback();
            self.status = prefixed("Playback failed: ", error);
        }
    }

    /// Takes into account what came of playing the local file. `healthy` tells whether the output
    /// is healthy afterwards.
    pub fn handle_local_played(
        &mut self,
        outcome: &PlayOutcome<'_>,
        label: &str,
        healthy: bool,
        now: u64,
    )
        ensures
            final(self)@ == old(self)@.local_played(outcome@, label@, healthy, now),
    {
        match outcome {
            PlayOutcome::NoOutput => {
                self.phase = PlaybackPhase::WaitingForAudio;
            },
            PlayOutcome::Started => {
                self.phase = PlaybackPhase::Active;
                self.status = prefixed("Playing local file: ", label);
            },
            PlayOutcome::Failed(error) => {
                self.handle_start_failure(error, healthy, now);
            },
        }
    }

    /// Takes into account that the address of a stream was resolved, or why it was not. Events for
    /// playback that is no longer wanted are discarded.
    pub fn handle_stream_resolved(
        &mut self,
        generation: u64,
        track_id: u64,
        bitrate: Bitrate,
        error: Option<&str>,
    )
        ensures
            final(self)@ == old(self)@.stream_resolved(
                generation,
                track_id,
                bitrate,
                device_view(error),
            ),
    {
        if generation != self.generation || self.phase != PlaybackPhase::Loading {
            return;
        }
        match error {
            Some(error) => {
                self.stop_requested_playback();
                self.status = prefixed("Stream failed: ", error);
            },
            None => {
                if self.desired.track_id() == Some(track_id) {
                    self.stream = Some(StreamTag { generation, track_id });
                    self.effects.push(Effect::BeginStream { generation, track_id, bitrate });
                }
            },
        }
    }

    /// Takes into account that a source was decoded, or why it was not.
    pub fn handle_stream_decoded(&mut self, source: SourceTag, error: Option<&str>, healthy: bool)
        ensures
            final(self)@ == old(self)@.decoded(source, device_view(error), healthy),
    {
        if !decoded_source_is_current(
            source.generation,
            source.track_id,
            source.sink_epoch,
            source.position_base,
            self.generation,
            self.phase,
            self.desired,
            self.checkpoint,
            self.audio.sink_epoch(),
        ) {
            return;
        }
        match error {
            Some(error) => {
                self.stop_requested_playback();
                self.status = prefixed("Playback failed: ", error);
            },
            None => {
                let ready = matches!(self.audio, AudioState::Ready { .. });
                if ready && healthy {
                    self.effects.push(
                        Effect::AttachSource {
                            position_base: source.position_base,
                            paused: self.desired.paused(),
                        },
                    );
                } else {
                    if source.sink_epoch.is_none() {
                        self.cancel_stream_task();
                    }
                    self.phase = PlaybackPhase::WaitingForAudio;
                }
            },
        }
    }

    /// Takes into account what came of playing a decoded source. `restoring` tells that it was
    /// decoded to go on after the output was replaced, and `healthy` whether the output is healthy
    /// afterwards.
    pub fn handle_source_attached(
        &mut self,
        restoring: bool,
        outcome: &PlayOutcome<'_>,
        label: &str,
        healthy: bool,
        now: u64,
    )
        ensures
            final(self)@ == old(self)@.source_attached(restoring, outcome@, label@, healthy, now),
    {
        let started = match outcome {
            PlayOutcome::Started => healthy,
            _ => false,
        };
        if !started && !restoring {
            self.cancel_stream_task();
        }
        match outcome {
            PlayOutcome::NoOutput => {
                self.phase = PlaybackPhase::WaitingForAudio;
            },
            PlayOutcome::Failed(error) => {
                self.handle_start_failure(error, healthy, now);
            },
            PlayOutcome::Started => {
                if !healthy {
                    self.handle_start_failure(
                        "playback error: audio output failed while starting playback",
                        healthy,
                        now,
                    );
                    return;
                }
                self.phase = PlaybackPhase::Active;
                if restoring {
                    self.checkpoint = None;
                }
                self.status = if !self.desired.paused() {
                    prefixed("Playing ", label)
                } else if restoring {
                    let mut status = prefixed("Paused after audio output change: ", label);
                    status.append("; press Space to resume");
                    status
                } else {
                    prefixed("Paused ", label)
                };
            },
        }
    }

    /// Takes into account that the transfer of a stream failed.
    pub fn handle_stream_interrupted(&mut self, generation: u64, error: &str)
        ensures
            final(self)@ == old(self)@.interrupted(generation, error@),
    {
        if generation == self.generation {
            self.status = prefixed("Stream error: ", error);
        }
    }

    /// Pauses playback or lets it go on.
    pub fn toggle_pause(&mut self, healthy: bool)
        ensures
            final(self)@ == old(self)@.toggled(healthy),
    {
        if self.desired.track_id().is_none() {
            self.status = "Nothing playing".to_owned();
            return;
        }
        self.desired = reduce_desired_playback(self.desired, DesiredPlaybackAction::TogglePause);
        let paused = self.desired.paused();
        let ready = matches!(self.audio, AudioState::Ready { .. });
        if ready && healthy && self.phase == PlaybackPhase::Active {
            self.effects.push(Effect::PauseOutput { paused });
        }
        self.status = if paused {
            "Paused".to_owned()
        } else {
            "Playing".to_owned()
        };
    }
}

/// What holds at all times is kept when playback is stopped, started, paused, frozen and given up.
pub proof fn law_intents_keep_consistency(
    engine: EngineView,
    track_id: u64,
    facts: FactsView,
    healthy: bool,
    position: Option<u128>,
    now: u64,
)
    requires
        engine.wf(),
    ensures
        engine.stopped().wf(),
        engine.started(facts, healthy, now).wf(),
        engine.playing(track_id, facts, healthy, now).wf(),
        engine.toggled(healthy).wf(),
        engine.frozen(position).wf(),
        engine.invalidated().checkpoint is None ==> engine.invalidated().wf(),
        engine.unrestorable().wf(),
        engine.restored(facts, healthy, now).wf(),
{
}

/// What holds at all times is kept when outputs open, fail, change and are probed.
pub proof fn law_output_events_keep_consistency(
    engine: EngineView,
    attempt_id: u64,
    outcome: OpenOutcomeView,
    facts: FactsView,
    probe_id: u64,
    sink_epoch: Option<SinkEpoch>,
    verdict: AudioCandidate,
    available: bool,
    position: Option<u128>,
    message: Seq<char>,
    now: u64,
)
    requires
        engine.wf(),
    ensures
        engine.recovering(message, position).wf(),
        engine.failure_recovering(message, position, now).wf(),
        engine.open_finished(attempt_id, outcome, facts, now).wf(),
        engine.probe_finished(probe_id, sink_epoch, verdict, available, position, now).wf(),
        engine.stream_error(probe_id, available, message, position, now).wf(),
        engine.ticked(now).wf(),
{
    let probed = engine.probe_taken(now);
    assert(probed.wf());
    assert(probed.recovering(DEFAULT_CHANGED@, position).wf());
    assert(probed.failure_recovering(OUTPUT_FAILED@, position, now).wf());
    law_intents_keep_consistency(engine, attempt_id, facts, true, position, now);
}

/// What holds at all times is kept when streams are resolved, decoded and interrupted, and when
/// what was asked for is started: a file after it was asked to be played, and a source after it
/// counted.
pub proof fn law_stream_events_keep_consistency(
    engine: EngineView,
    generation: u64,
    track_id: u64,
    bitrate: Bitrate,
    source: SourceTag,
    error: Option<Seq<char>>,
    outcome: PlayOutcomeView,
    label: Seq<char>,
    healthy: bool,
    now: u64,
)
    requires
        engine.wf(),
    ensures
        engine.stream_resolved(generation, track_id, bitrate, error).wf(),
        engine.decoded(source, error, healthy).wf(),
        engine.interrupted(generation, label).wf(),
        engine.desired is Track && engine.checkpoint is None ==> engine.local_played(
            outcome,
            label,
            healthy,
            now,
        ).wf(),
        source_counts(
            source,
            engine.generation,
            engine.phase,
            engine.desired,
            engine.checkpoint,
            engine.audio.spec_sink_epoch(),
        ) ==> engine.source_attached(source.sink_epoch is Some, outcome, label, healthy, now).wf(),
{
    assert(engine.stream_cancelled().wf());
}

/// On a healthy output the local file of a track is played where there is one, and no stream of it
/// is resolved.
pub proof fn law_local_files_are_preferred(
    engine: EngineView,
    track_id: u64,
    facts: FactsView,
    now: u64,
)
    requires
        engine.audio is Ready,
        facts.logged_in,
        facts.known,
        facts.local,
    ensures
        engine.playing(track_id, facts, true, now).effects.last() == (Effect::PlayLocal {
            track_id,
            paused: false,
        }),
        forall|i: int|
            engine.effects.len() <= i < engine.playing(track_id, facts, true, now).effects.len()
                ==> !(#[trigger] engine.playing(track_id, facts, true, now).effects[i]
                is ResolveStream),
{
}

/// Events of playback that is no longer wanted change nothing, and nothing is done about them.
pub proof fn law_stale_stream_events_change_nothing(
    engine: EngineView,
    generation: u64,
    track_id: u64,
    bitrate: Bitrate,
    source: SourceTag,
    error: Option<Seq<char>>,
    healthy: bool,
    message: Seq<char>,
)
    requires
        generation != engine.generation,
        source.generation == generation,
    ensures
        engine.stream_resolved(generation, track_id, bitrate, error) == engine,
        engine.decoded(source, error, healthy) == engine,
        engine.interrupted(generation, message) == engine,
{
}

/// Whatever was wanted before, a new intent has a generation of its own: what was under way for
/// the earlier one is stale.
pub proof fn law_intents_change_the_generation(
    engine: EngineView,
    track_id: u64,
    facts: FactsView,
    now: u64,
)
    ensures
        engine.stopped().generation != engine.generation,
        facts.logged_in && facts.known ==> engine.playing(
            track_id,
            facts,
            true,
            now,
        ).generation != engine.generation,
        next_generation(engine.generation) != engine.generation,
{
}

/// An output that was opened for an attempt that is not the current one is given back, and nothing
/// else happens.
pub proof fn law_only_the_current_attempt_counts(
    engine: EngineView,
    attempt_id: u64,
    outcome: OpenOutcomeView,
    facts: FactsView,
    now: u64,
)
    requires
        attempt_retries(engine.audio, attempt_id) is None,
    ensures
        outcome is Opened ==> engine.open_finished(attempt_id, outcome, facts, now) == engine.emit(
            Effect::DisposeCandidate,
        ),
        outcome is Failed ==> engine.open_finished(attempt_id, outcome, facts, now) == engine,
{
}

/// Answers to other probes than the one in flight, and errors of other outputs than the one in
/// use, change nothing. An answer for an output that has been replaced is only taken.
pub proof fn law_stale_output_events_change_nothing(
    engine: EngineView,
    probe_id: u64,
    sink_epoch: Option<SinkEpoch>,
    verdict: AudioCandidate,
    available: bool,
    error_epoch: SinkEpoch,
    message: Seq<char>,
    position: Option<u128>,
    now: u64,
)
    ensures
        engine.probe_in_flight != Some((probe_id, sink_epoch)) ==> engine.probe_finished(
            probe_id,
            sink_epoch,
            verdict,
            available,
            position,
            now,
        ) == engine,
        sink_epoch != engine.audio.spec_sink_epoch() ==> engine.probe_finished(
            probe_id,
            sink_epoch,
            verdict,
            available,
            position,
            now,
        ).audio == engine.audio,
        engine.audio.spec_sink_epoch() != Some(error_epoch) ==> engine.stream_error(
            error_epoch,
            true,
            message,
            position,
            now,
        ) == engine,
{
}

/// The effect starts a track.
pub open spec fn starts_track(effect: Effect) -> bool {
    effect is PlayLocal || effect is ResolveStream || effect is BeginStream || effect
        is RestoreStream || effect is RestoreFile || effect is AttachSource
}

/// No effect that starts a track was added.
pub open spec fn starts_nothing(before: EngineView, after: EngineView) -> bool {
    &&& before.effects.len() <= after.effects.len()
    &&& forall|i: int|
        before.effects.len() <= i < after.effects.len() ==> !starts_track(
            #[trigger] after.effects[i],
        )
}

/// Stopping cancels recovery: while nothing is wanted, no event starts a track, and nothing is
/// wanted afterwards either.
pub proof fn law_nothing_starts_while_stopped(
    engine: EngineView,
    attempt_id: u64,
    outcome: OpenOutcomeView,
    facts: FactsView,
    generation: u64,
    track_id: u64,
    bitrate: Bitrate,
    source: SourceTag,
    error: Option<Seq<char>>,
    healthy: bool,
    now: u64,
)
    requires
        engine.wf(),
        engine.desired == DesiredPlayback::Stopped,
    ensures
        ({
            let opened = engine.open_finished(attempt_id, outcome, facts, now);
            starts_nothing(engine, opened) && opened.desired == DesiredPlayback::Stopped
                && opened.phase == PlaybackPhase::Idle
        }),
        engine.stream_resolved(generation, track_id, bitrate, error) == engine,
        engine.decoded(source, error, healthy) == engine,
        starts_nothing(engine, engine.ticked(now)),
        engine.toggled(healthy) == engine.with_status("Nothing playing"@),
{
}

/// When the output is lost while a track is active, playback is frozen where it is: the position
/// is kept, the track is wanted paused, and its stream is kept with its bytes.
pub proof fn law_lost_output_freezes_playback(
    engine: EngineView,
    track_id: u64,
    paused: bool,
    position: u128,
    message: Seq<char>,
    now: u64,
)
    requires
        engine.wf(),
        engine.audio is Ready,
        engine.phase == PlaybackPhase::Active,
        engine.desired == (DesiredPlayback::Track { track_id, paused }),
    ensures
        ({
            let point = PlaybackCheckpoint { generation: engine.generation, track_id, position };
            let changed = engine.recovering(message, Some(position));
            let failed = engine.failure_recovering(message, Some(position), now);
            &&& changed.checkpoint == Some(point)
            &&& changed.desired == (DesiredPlayback::Track { track_id, paused: true })
            &&& changed.generation == engine.generation
            &&& changed.stream == engine.stream
            &&& changed.phase == PlaybackPhase::WaitingForAudio
            &&& failed.checkpoint == Some(point)
            &&& failed.desired == (DesiredPlayback::Track { track_id, paused: true })
            &&& failed.generation == engine.generation
            &&& failed.stream == engine.stream
            &&& failed.phase == PlaybackPhase::WaitingForAudio
        }),
{
}

/// Playback that was frozen goes on, paused, exactly where it was, on the output that replaces the
/// lost one: when that output is opened and accepted, the source is decoded again from the frozen
/// position, and when it is decoded it is attached there, paused.
pub proof fn law_playback_is_restored_where_it_was(
    engine: EngineView,
    point: PlaybackCheckpoint,
    attempt_id: u64,
    retry_count: u32,
    sink_epoch: SinkEpoch,
    facts: FactsView,
    label: Seq<char>,
    now: u64,
)
    requires
        engine.wf(),
        engine.checkpoint == Some(point),
        engine.desired == (DesiredPlayback::Track { track_id: point.track_id, paused: true }),
        engine.audio == (AudioState::Opening { attempt_id, retry_count }),
        facts.logged_in,
        facts.known,
    ensures
        ({
            let tag = SourceTag {
                generation: point.generation,
                track_id: point.track_id,
                sink_epoch: Some(sink_epoch),
                position_base: point.position,
            };
            let opened = engine.open_finished(
                attempt_id,
                OpenOutcomeView::Opened { sink_epoch, verdict: AudioCandidate::Accept },
                facts,
                now,
            );
            let decoded = opened.decoded(tag, None, true);
            let attached = decoded.source_attached(true, PlayOutcomeView::Started, label, true, now);
            &&& opened.effects.last() == if engine.stream is Some {
                Effect::RestoreStream(tag)
            } else {
                Effect::RestoreFile(tag)
            }
            &&& decoded.effects.last() == (Effect::AttachSource {
                position_base: point.position,
                paused: true,
            })
            &&& attached.phase == PlaybackPhase::Active
            &&& attached.desired == engine.desired
            &&& attached.checkpoint is None
            &&& attached.generation == engine.generation
        }),
{
}

/// A source that was decoded for an output does not get to another one.
pub proof fn law_sources_stay_with_their_output(
    engine: EngineView,
    source: SourceTag,
    error: Option<Seq<char>>,
    healthy: bool,
)
    requires
        source.sink_epoch is Some,
        source.sink_epoch != engine.audio.spec_sink_epoch(),
    ensures
        engine.decoded(source, error, healthy) == engine,
{
}

/// At most one output is being opened: while one is, neither failures nor changes of the default
/// device nor the passing of time open another one.
pub proof fn law_one_output_is_opened_at_a_time(
    engine: EngineView,
    message: Seq<char>,
    position: Option<u128>,
    now: u64,
)
    requires
        engine.audio is Opening,
    ensures
        engine.recovering(message, position) == engine,
        engine.failure_recovering(message, position, now) == engine,
        engine.ticked(now) == engine,
{
}

/// After the first failure the output is replaced at once; after each further failure in a row it
/// is opened again only after the wait that belongs to it. An output that was stable before it
/// failed makes the count begin anew.
pub proof fn law_repeated_failures_wait_longer(
    engine: EngineView,
    message: Seq<char>,
    position: Option<u128>,
    now: u64,
)
    requires
        engine.audio is Ready,
    ensures
        ({
            let streak = engine.streak_with_failure(now);
            let after = engine.failure_recovering(message, position, now);
            &&& streak == 1 ==> after.audio is Opening
            &&& streak > 1 ==> after.audio == (AudioState::Unavailable {
                retry_at: (now + retry_delay(one_less(streak)) * 1_000_000) as u128,
                retry_count: one_less(streak),
            })
            &&& engine.ready_since is Some && now - engine.ready_since->0
                >= AUDIO_STABLE_RESET_AFTER_NANOS ==> streak == 1
        }),
{
}

/// An output that is unavailable is opened again when its wait is over, and not before unless a
/// probe finds a device.
pub proof fn law_retries_wait(engine: EngineView, retry_at: u128, retry_count: u32, now: u64)
    requires
        engine.audio == (AudioState::Unavailable { retry_at, retry_count }),
    ensures
        now >= retry_at <==> engine.ticked(now).audio is Opening,
        now < retry_at ==> engine.ticked(now).audio == engine.audio,
{
}

} // verus!
