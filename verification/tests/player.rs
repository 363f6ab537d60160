use std::io::{self, Cursor, Read, Seek, SeekFrom};

use ibroadcast_tui::audio::{
    clear_returned_lease, next_number, recovered_identity, shutdown_can_finish, DefaultOutputProbe,
    OutputDeviceProbe, WorkerState,
};
use ibroadcast_tui::config::Bitrate;
use ibroadcast_tui::error::AppError;
use ibroadcast_tui::player::{
    ensure_healthy, file_format, handle_stream_error, pause_change, stream_format, track_finished,
    track_position, AudioStreamError, AudioStreamEvent, CancellableReader, DecodeCancellation,
    DecodeStep, ReadRefusal, StreamHealth, DECODE_CANCELLED_MESSAGE, MAX_DURATION_NANOS,
};

fn kind_of(refusal: ReadRefusal) -> io::ErrorKind {
    match refusal {
        ReadRefusal::BrokenPipe(message) => {
            assert_eq!(message, DECODE_CANCELLED_MESSAGE);
            io::ErrorKind::BrokenPipe
        }
    }
}

fn read<R: Read>(reader: &mut CancellableReader<R>, out: &mut [u8]) -> Result<usize, io::ErrorKind> {
    reader.ensure_active().map_err(kind_of)?;
    reader.inner.read(out).map_err(|error| error.kind())
}

fn seek<R: Seek>(reader: &mut CancellableReader<R>, to: SeekFrom) -> Result<u64, io::ErrorKind> {
    reader.ensure_active().map_err(kind_of)?;
    reader.inner.seek(to).map_err(|error| error.kind())
}

#[test]
fn cancellation_interrupts_reader_reads_and_seeks() {
    let mut cancellation = DecodeCancellation::new();
    let mut reader = CancellableReader::new(Cursor::new(vec![1_u8, 2, 3, 4]), cancellation);
    let mut byte = [0_u8; 1];

    assert_eq!(read(&mut reader, &mut byte), Ok(1));
    assert_eq!(byte, [1]);

    cancellation.cancel();
    reader.cancellation = cancellation;
    assert!(reader.cancellation.is_cancelled());
    assert_eq!(
        read(&mut reader, &mut byte).unwrap_err(),
        io::ErrorKind::BrokenPipe
    );
    assert_eq!(
        seek(&mut reader, SeekFrom::Start(0)).unwrap_err(),
        io::ErrorKind::BrokenPipe
    );
}

#[test]
fn decoding_goes_through_its_steps() {
    let active = DecodeCancellation::new();
    let step = |step: DecodeStep, start_at: u128, succeeded: bool| {
        step.next(start_at, succeeded, active).unwrap()
    };
    assert_eq!(step(DecodeStep::Build, 0, true), DecodeStep::Ready);
    assert_eq!(step(DecodeStep::Build, 5, true), DecodeStep::Seek);
    assert_eq!(step(DecodeStep::Seek, 5, true), DecodeStep::Ready);
    assert_eq!(step(DecodeStep::Seek, 5, false), DecodeStep::RebuildAndSkip);
    assert_eq!(step(DecodeStep::RebuildAndSkip, 5, true), DecodeStep::Ready);

    let mut cancelled = active;
    cancelled.cancel();
    match DecodeStep::Build.next(0, true, cancelled) {
        Err(AppError::Playback(message)) => assert_eq!(message, DECODE_CANCELLED_MESSAGE),
        other => panic!("unexpected {other:?}"),
    }
}

#[test]
fn stream_error_classification_matches_recovery_policy() {
    let cases = [
        (
            AudioStreamError::DeviceNotAvailable,
            "audio device is no longer available",
            true,
        ),
        (
            AudioStreamError::StreamInvalidated,
            "audio stream was invalidated",
            true,
        ),
        (
            AudioStreamError::BufferUnderrun,
            "audio buffer underrun or overrun",
            false,
        ),
        (
            AudioStreamError::BackendSpecific("test backend failure".into()),
            "audio backend error: test backend failure",
            true,
        ),
    ];

    for (error, message, fatal) in cases {
        assert_eq!(error.message(), message);
        assert_eq!(error.is_fatal(), fatal);
    }
}

#[test]
fn fatal_error_marks_failed_before_notifying_and_is_deduplicated() {
    let mut health = StreamHealth::default();
    let mut events: Vec<AudioStreamEvent> = Vec::new();

    for error in [
        AudioStreamError::BufferUnderrun,
        AudioStreamError::DeviceNotAvailable,
        AudioStreamError::StreamInvalidated,
    ] {
        if let Some(event) = handle_stream_error(17, &mut health, error) {
            assert!(!health.is_healthy());
            events.push(event);
        }
    }

    assert!(!health.is_healthy());
    assert!(health.take_buffer_underrun());
    assert_eq!(events.len(), 1);
    assert_eq!(events[0].sink_epoch, 17);
    assert!(matches!(
        events[0].error,
        AudioStreamError::DeviceNotAvailable
    ));
}

#[test]
fn buffer_underruns_are_non_fatal_and_coalesced_without_notification() {
    let mut health = StreamHealth::default();

    for _ in 0..10_000 {
        assert!(handle_stream_error(9, &mut health, AudioStreamError::BufferUnderrun).is_none());
    }

    assert!(health.is_healthy());
    assert!(health.take_buffer_underrun());
    assert!(!health.take_buffer_underrun());

    assert!(handle_stream_error(9, &mut health, AudioStreamError::BufferUnderrun).is_none());
    assert!(health.take_buffer_underrun());
}

#[test]
fn outputs_are_used_by_the_rules() {
    assert!(ensure_healthy(true).is_ok());
    match ensure_healthy(false) {
        Err(AppError::Playback(message)) => assert_eq!(
            message,
            "audio output stream has failed and must be reopened"
        ),
        other => panic!("unexpected {other:?}"),
    }
    assert_eq!(pause_change(true, true), None);
    assert_eq!(pause_change(false, true), Some(true));
    assert_eq!(pause_change(true, false), Some(false));
    assert!(track_finished(true, Some(true), true));
    assert!(!track_finished(true, Some(true), false));
    assert!(!track_finished(true, None, true));
    assert!(!track_finished(true, Some(false), true));
    assert_eq!(track_position(5, 7), 12);
    assert_eq!(track_position(MAX_DURATION_NANOS, 1), MAX_DURATION_NANOS);
}

#[test]
fn containers_are_named_to_the_decoder() {
    let format = file_format("audio/flac", Some("FLAC"));
    assert_eq!(format.mime_type, "audio/flac");
    assert_eq!(format.extension_hint, "FLAC");
    let format = file_format(" ", Some("  "));
    assert_eq!(format.mime_type, "application/octet-stream");
    assert_eq!(format.extension_hint, "audio");
    let format = file_format("audio/mpeg", None);
    assert_eq!(format.extension_hint, "mp3");

    let format = stream_format(Bitrate::Kbps192, "audio/flac");
    assert_eq!(format.mime_type, "audio/aac");
    assert_eq!(format.extension_hint, "aac");
    let format = stream_format(Bitrate::Original, "audio/flac");
    assert_eq!(format.mime_type, "audio/flac");
    assert_eq!(format.extension_hint, "flac");
}

#[test]
fn shutdown_waits_until_the_exact_candidate_lease_is_returned() {
    let mut leased_epoch = Some(41);

    assert!(!shutdown_can_finish(true, leased_epoch));
    clear_returned_lease(&mut leased_epoch, 40);
    assert_eq!(leased_epoch, Some(41));
    assert!(!shutdown_can_finish(true, leased_epoch));

    clear_returned_lease(&mut leased_epoch, 41);
    assert_eq!(leased_epoch, None);
    assert!(shutdown_can_finish(true, leased_epoch));
    assert!(!shutdown_can_finish(false, leased_epoch));
}

#[test]
fn the_worker_numbers_its_outputs_and_waits_for_them() {
    let mut worker = WorkerState::start();
    assert_eq!(worker.on_open(None, false), Some(1));
    worker.on_told(Some(1));
    worker.on_shutdown(None);
    assert!(!worker.can_acknowledge());
    worker.on_dispose(1);
    assert!(worker.can_acknowledge());

    let mut worker = WorkerState::start();
    assert_eq!(worker.on_open(None, true), None);
    assert!(WorkerState::hands_out(false));
    assert!(!WorkerState::hands_out(true));
    assert_eq!(next_number(u64::MAX), 1);
    assert_eq!(next_number(1), 2);
}

#[test]
fn answers_about_the_default_output_are_told_apart() {
    assert!(matches!(
        DefaultOutputProbe::from_answer(Ok(Some("a".to_owned()))),
        DefaultOutputProbe::Available(id) if id == "a"
    ));
    assert!(matches!(
        DefaultOutputProbe::from_answer(Ok(None)),
        DefaultOutputProbe::Unavailable
    ));
    assert!(matches!(
        DefaultOutputProbe::from_answer(Err("x".to_owned())),
        DefaultOutputProbe::Failed(error) if error == "x"
    ));
    let found = || Some(OutputDeviceProbe::Available("b".to_owned()));
    assert_eq!(recovered_identity(false, found()), Some("b".to_owned()));
    assert_eq!(recovered_identity(true, found()), None);
    assert_eq!(
        recovered_identity(false, Some(OutputDeviceProbe::Failed("x".to_owned()))),
        None
    );
    assert_eq!(recovered_identity(false, None), None);
}
