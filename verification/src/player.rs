//! The rules by which an audio output is used: what its errors mean, when it counts as failed, and
//! how a decoder is brought to the position where playback goes on.

use vstd::prelude::*;

use crate::config::Bitrate;
use crate::downloads::{extension_from_mime, extension_of};
use crate::error::{prefixed, AppError, Result};
use crate::text::{trim, trimmed, CharSet};

verus! {

/// The number assigned to one physical output stream.
///
/// Every event of a stream carries this number, so that events of an output that has been replaced
/// can be ignored.
pub type SinkEpoch = u64;

pub const DECODE_CANCELLED_MESSAGE: &'static str = "audio decode cancelled";

/// The largest time span, in nanoseconds.
pub const MAX_DURATION_NANOS: u128 = 18_446_744_073_709_551_615_999_999_999;

/// An error reported by the physical output stream.
#[derive(Debug)]
pub enum AudioStreamError {
    /// The device backing the stream is no longer available.
    DeviceNotAvailable,
    /// The configuration of the stream became invalid and the stream must be rebuilt.
    StreamInvalidated,
    /// The backend reported an underrun or overrun, which passes.
    BufferUnderrun,
    /// A failure special to the backend.
    BackendSpecific(String),
}

impl AudioStreamError {
    pub open spec fn spec_message(self) -> Seq<char> {
        match self {
            AudioStreamError::DeviceNotAvailable => "audio device is no longer available"@,
            AudioStreamError::StreamInvalidated => "audio stream was invalidated"@,
            AudioStreamError::BufferUnderrun => "audio buffer underrun or overrun"@,
            AudioStreamError::BackendSpecific(message) => "audio backend error: "@ + message@,
        }
    }

    /// Whether this error invalidates the stream.
    pub fn is_fatal(&self) -> (res: bool)
        ensures
            res == !(self is BufferUnderrun),
    {
        !matches!(self, AudioStreamError::BufferUnderrun)
    }

    /// The message shown to the user.
    pub fn message(&self) -> (res: String)
        ensures
            res@ == self.spec_message(),
    {
        match self {
            AudioStreamError::DeviceNotAvailable => {
                "audio device is no longer available".to_owned()
            },
            AudioStreamError::StreamInvalidated => "audio stream was invalidated".to_owned(),
            AudioStreamError::BufferUnderrun => "audio buffer underrun or overrun".to_owned(),
            AudioStreamError::BackendSpecific(message) => prefixed(
                "audio backend error: ",
                message.as_str(),
            ),
        }
    }
}

/// An error of an open stream.
#[derive(Debug)]
pub struct AudioStreamEvent {
    pub sink_epoch: SinkEpoch,
    pub error: AudioStreamError,
}

/// What is known of the health of a stream.
#[derive(Clone, Copy, Debug, PartialEq, Eq, Structural)]
pub struct StreamHealth {
    pub failed: bool,
    pub buffer_underrun: bool,
}

impl Default for StreamHealth {
    fn default() -> (res: StreamHealth)
        ensures
            res == (StreamHealth { failed: false, buffer_underrun: false }),
    {
        StreamHealth { failed: false, buffer_underrun: false }
    }
}

impl StreamHealth {
    /// Whether no fatal error has been observed.
    pub fn is_healthy(&self) -> (res: bool)
        ensures
            res == !self.failed,
    {
        !self.failed
    }

    /// Records a failure. Gives `true` only for the first one.
    pub fn mark_failed(&mut self) -> (res: bool)
        ensures
            res == !old(self).failed,
            *final(self) == (StreamHealth { failed: true, ..*old(self) }),
    {
        let first = !self.failed;
        self.failed = true;
        first
    }

    pub fn mark_buffer_underrun(&mut self)
        ensures
            *final(self) == (StreamHealth { buffer_underrun: true, ..*old(self) }),
    {
        self.buffer_underrun = true;
    }

    /// Whether there was an underrun since this was last asked.
    pub fn take_buffer_underrun(&mut self) -> (res: bool)
        ensures
            res == old(self).buffer_underrun,
            *final(self) == (StreamHealth { buffer_underrun: false, ..*old(self) }),
    {
        let underrun = self.buffer_underrun;
        self.buffer_underrun = false;
        underrun
    }
}

/// The health after an error.
pub open spec fn after_error(health: StreamHealth, fatal: bool) -> StreamHealth {
    if fatal {
        StreamHealth { failed: true, ..health }
    } else {
        StreamHealth { buffer_underrun: true, ..health }
    }
}

/// Takes an error of a stream into account. Gives the event that the application is to be told:
/// only for the first fatal error. Underruns can come with every callback, so that they are only
/// remembered.
pub fn handle_stream_error(
    sink_epoch: SinkEpoch,
    health: &mut StreamHealth,
    error: AudioStreamError,
) -> (res: Option<AudioStreamEvent>)
    ensures
        *final(health) == after_error(*old(health), !(error is BufferUnderrun)),
        res == if !(error is BufferUnderrun) && !old(health).failed {
            Some(AudioStreamEvent { sink_epoch, error })
        } else {
            None::<AudioStreamEvent>
        },
{
    if !error.is_fatal() {
        health.mark_buffer_underrun();
        return None;
    }
    if !health.mark_failed() {
        return None;
    }
    Some(AudioStreamEvent { sink_epoch, error })
}

/// The health after several errors, each fatal or not, and how many events they gave.
pub open spec fn after_errors(health: StreamHealth, fatal: Seq<bool>) -> (StreamHealth, nat)
    decreases fatal.len(),
{
    if fatal.len() == 0 {
        (health, 0)
    } else {
        let (before, told) = after_errors(health, fatal.drop_last());
        (
            after_error(before, fatal.last()),
            told + if fatal.last() && !before.failed {
                1nat
            } else {
                0nat
            },
        )
    }
}

/// However many errors a stream reports, at most one event comes of them; one if any of them is
/// fatal and the stream was healthy. Underruns alone leave a healthy stream healthy.
pub proof fn law_failures_are_told_once(health: StreamHealth, fatal: Seq<bool>)
    ensures
        ({
            let (after, told) = after_errors(health, fatal);
            &&& after.failed == (health.failed || fatal.contains(true))
            &&& told == if !health.failed && fatal.contains(true) {
                1nat
            } else {
                0nat
            }
        }),
    decreases fatal.len(),
{
    if fatal.len() > 0 {
        let before = fatal.drop_last();
        law_failures_are_told_once(health, before);
        if fatal.contains(true) && !fatal.last() {
            let i = choose|i: int| 0 <= i < fatal.len() && fatal[i];
            assert(before[i]);
        }
        if before.contains(true) {
            let i = choose|i: int| 0 <= i < before.len() && before[i];
            assert(fatal[i]);
        }
        if fatal.last() {
            assert(fatal[fatal.len() - 1]);
        }
    }
}

/// The error for an output that has failed.
pub fn ensure_healthy(healthy: bool) -> (res: Result<()>)
    ensures
        healthy ==> res is Ok,
        !healthy ==> res is Err && res->Err_0 is Playback && res->Err_0->Playback_0@
            == "audio output stream has failed and must be reopened"@,
{
    if healthy {
        Ok(())
    } else {
        Err(AppError::Playback("audio output stream has failed and must be reopened".to_owned()))
    }
}

/// The change that brings a player to the given pause state: `None` where it is in it already, so
/// that the same change can be asked for again without harm.
pub fn pause_change(is_paused: bool, paused: bool) -> (res: Option<bool>)
    ensures
        res == if is_paused == paused {
            None::<bool>
        } else {
            Some(paused)
        },
{
    if is_paused == paused {
        None
    } else {
        Some(paused)
    }
}

/// A track was loaded and has played to its end on an output that did not fail.
pub open spec fn played_to_end(
    healthy: bool,
    player_empty: Option<bool>,
    still_healthy: bool,
) -> bool {
    healthy && player_empty == Some(true) && still_healthy
}

/// Whether a track was loaded and has played to its end on an output that did not fail, neither
/// before nor after its player was looked at. `player_empty` is `None` without a player.
pub fn track_finished(healthy: bool, player_empty: Option<bool>, still_healthy: bool) -> (res: bool)
    ensures
        res == played_to_end(healthy, player_empty, still_healthy),
{
    match player_empty {
        Some(empty) => healthy && empty && still_healthy,
        None => false,
    }
}

/// The position after so much of a source that began at `base` was played.
pub open spec fn position_after(base: u128, played: u128) -> int {
    if base + played <= MAX_DURATION_NANOS {
        base + played
    } else {
        MAX_DURATION_NANOS as int
    }
}

/// The position in the track of a source that began at `base` and has played for `played`
/// nanoseconds; the largest time span where it would be larger.
pub fn track_position(base: u128, played: u128) -> (res: u128)
    ensures
        res == position_after(base, played),
{
    if base <= MAX_DURATION_NANOS && played <= MAX_DURATION_NANOS - base {
        base + played
    } else {
        MAX_DURATION_NANOS
    }
}

/// Whether decoding was cancelled: what a reading of the flag gave. A copy keeps what was read; the
/// flag that threads share is read again before each step.
#[derive(Clone, Copy, Debug, PartialEq, Eq, Structural)]
pub struct DecodeCancellation {
    pub cancelled: bool,
}

impl DecodeCancellation {
    pub fn new() -> (res: DecodeCancellation)
        ensures
            !res.cancelled,
    {
        DecodeCancellation { cancelled: false }
    }

    pub fn cancel(&mut self)
        ensures
            final(self).cancelled,
    {
        self.cancelled = true;
    }

    pub fn is_cancelled(&self) -> (res: bool)
        ensures
            res == self.cancelled,
    {
        self.cancelled
    }

    /// The error of a cancelled decoding.
    pub fn ensure_active(&self) -> (res: Result<()>)
        ensures
            !self.cancelled ==> res is Ok,
            self.cancelled ==> res is Err && res->Err_0 is Playback && res->Err_0->Playback_0@
                == DECODE_CANCELLED_MESSAGE@,
    {
        if self.is_cancelled() {
            Err(AppError::Playback(DECODE_CANCELLED_MESSAGE.to_owned()))
        } else {
            Ok(())
        }
    }
}

/// Why a read or a seek does not take place.
#[derive(Clone, Copy, Debug)]
pub enum ReadRefusal {
    /// The reader is broken. It is not said to be interrupted, since a read that was interrupted is
    /// tried again, which would undo the cancellation.
    BrokenPipe(&'static str),
}

/// A reader that reads and seeks only as long as decoding is not cancelled.
#[derive(Debug)]
pub struct CancellableReader<R> {
    pub inner: R,
    pub cancellation: DecodeCancellation,
}

impl<R> CancellableReader<R> {
    pub fn new(inner: R, cancellation: DecodeCancellation) -> (res: CancellableReader<R>)
        ensures
            res.inner == inner,
            res.cancellation == cancellation,
    {
        CancellableReader { inner, cancellation }
    }

    /// Whether a read or a seek may take place.
    pub fn ensure_active(&self) -> (res: std::result::Result<(), ReadRefusal>)
        ensures
            match res {
                Ok(()) => !self.cancellation.cancelled,
                Err(ReadRefusal::BrokenPipe(message)) => self.cancellation.cancelled && message@
                    == DECODE_CANCELLED_MESSAGE@,
            },
    {
        if self.cancellation.is_cancelled() {
            Err(ReadRefusal::BrokenPipe(DECODE_CANCELLED_MESSAGE))
        } else {
            Ok(())
        }
    }
}

/// The steps by which a source is prepared.
#[derive(Clone, Copy, Debug, PartialEq, Eq, Structural)]
pub enum DecodeStep {
    /// Build a decoder.
    Build,
    /// Ask the decoder to seek.
    Seek,
    /// Build another decoder and skip what it decodes up to the position: a decoder that failed to
    /// seek is not used again.
    RebuildAndSkip,
    /// The source is ready.
    Ready,
}

/// The step that follows one that went well, or a seek that did not.
pub open spec fn step_after(step: DecodeStep, start_at: int, succeeded: bool) -> DecodeStep {
    match step {
        DecodeStep::Build => if start_at == 0 {
            DecodeStep::Ready
        } else {
            DecodeStep::Seek
        },
        DecodeStep::Seek => if succeeded {
            DecodeStep::Ready
        } else {
            DecodeStep::RebuildAndSkip
        },
        DecodeStep::RebuildAndSkip => DecodeStep::Ready,
        DecodeStep::Ready => DecodeStep::Ready,
    }
}

impl DecodeStep {
    /// The step that follows when a source is to begin at `start_at` nanoseconds. `succeeded` tells
    /// whether the decoder could seek. A cancelled decoding ends with an error whatever the step
    /// gave.
    pub fn next(
        self,
        start_at: u128,
        succeeded: bool,
        cancellation: DecodeCancellation,
    ) -> (res: Result<DecodeStep>)
        ensures
            match res {
                Ok(step) => !cancellation.cancelled && step == step_after(
                    self,
                    start_at as int,
                    succeeded,
                ),
                Err(error) => cancellation.cancelled && error is Playback && error->Playback_0@
                    == DECODE_CANCELLED_MESSAGE@,
            },
    {
        match cancellation.ensure_active() {
            Ok(()) => {},
            Err(error) => {
                return Err(error);
            },
        }
        Ok(
            match self {
                DecodeStep::Build => {
                    if start_at == 0 {
                        DecodeStep::Ready
                    } else {
                        DecodeStep::Seek
                    }
                },
                DecodeStep::Seek => {
                    if succeeded {
                        DecodeStep::Ready
                    } else {
                        DecodeStep::RebuildAndSkip
                    }
                },
                DecodeStep::RebuildAndSkip => DecodeStep::Ready,
                DecodeStep::Ready => DecodeStep::Ready,
            },
        )
    }
}

/// A source is ready after three steps at most, and one that begins at the beginning of the track
/// needs no seek.
pub proof fn law_decoding_ends(start_at: int, sought: bool)
    ensures
        start_at == 0 ==> step_after(DecodeStep::Build, start_at, true) == DecodeStep::Ready,
        step_after(
            step_after(step_after(DecodeStep::Build, start_at, true), start_at, sought),
            start_at,
            true,
        ) == DecodeStep::Ready,
{
}

/// The container of a source, as the decoder is told.
#[derive(Debug)]
pub struct SourceFormat {
    pub mime_type: String,
    pub extension_hint: String,
}

/// The media type of a track, where one is given.
pub open spec fn source_mime(mime_type: Seq<char>) -> Seq<char> {
    if trim(mime_type, CharSet::WhiteSpace).len() == 0 {
        "application/octet-stream"@
    } else {
        mime_type
    }
}

/// The extension of the file, where it has one, else that of its media type.
pub open spec fn source_extension(
    extension: Option<Seq<char>>,
    mime_type: Seq<char>,
) -> Seq<char> {
    match extension {
        Some(extension) => if trim(extension, CharSet::WhiteSpace).len() == 0 {
            extension_of(mime_type)
        } else {
            extension
        },
        None => extension_of(mime_type),
    }
}

/// The container of a local file. `extension` is that of the file.
pub fn file_format(mime_type: &str, extension: Option<&str>) -> (res: SourceFormat)
    ensures
        res.mime_type@ == source_mime(mime_type@),
        res.extension_hint@ == source_extension(
            match extension {
                Some(extension) => Some(extension@),
                None => None,
            },
            source_mime(mime_type@),
        ),
{
    let mime_type = if trimmed(mime_type).is_empty() {
        "application/octet-stream"
    } else {
        mime_type
    };
    let from_mime = extension_from_mime(mime_type);
    let extension_hint = match extension {
        Some(extension) => {
            if trimmed(extension).is_empty() {
                from_mime.to_owned()
            } else {
                extension.to_owned()
            }
        },
        None => from_mime.to_owned(),
    };
    SourceFormat { mime_type: mime_type.to_owned(), extension_hint }
}

/// The media type and the extension of a stream.
pub open spec fn streamed_as(bitrate: Bitrate, mime_type: Seq<char>) -> (Seq<char>, Seq<char>) {
    if !bitrate.is_file() {
        ("audio/aac"@, "aac"@)
    } else {
        (mime_type, extension_of(mime_type))
    }
}

/// The container of a stream: transcoded streams come as raw AAC, whatever the track itself is.
pub fn stream_format(bitrate: Bitrate, mime_type: &str) -> (res: SourceFormat)
    ensures
        (res.mime_type@, res.extension_hint@) == streamed_as(bitrate, mime_type@),
{
    if bitrate.is_hls_stream() {
        SourceFormat { mime_type: "audio/aac".to_owned(), extension_hint: "aac".to_owned() }
    } else {
        SourceFormat {
            mime_type: mime_type.to_owned(),
            extension_hint: extension_from_mime(mime_type).to_owned(),
        }
    }
}

} // verus!
