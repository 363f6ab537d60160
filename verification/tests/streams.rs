use ibroadcast_tui::error::AppError;
use ibroadcast_tui::hls::{
    assemble_playlist, parse_bandwidth, parse_playlist, scan_playlist, select_variant, HlsAction,
    HlsStream, Playlist, Variant, MAX_STALLED_POLLS, PLAYLIST_POLL_INTERVAL_MILLIS,
};
use ibroadcast_tui::mpegts::{parse_pat, parse_pmt, pes_payload, psi_section, TsDemuxer};
use ibroadcast_tui::progressive::{
    checked_offset, ProgressiveBuffer, ReadOutcome, SeekOutcome, SeekTarget,
};

const BASE: &str = "https://streaming.ibroadcast.com/hls_96/d0c/6f4/21127414?a=b";

fn count(outcome: ReadOutcome) -> usize {
    match outcome {
        ReadOutcome::Ready(count) => count,
        other => panic!("expected bytes, got {other:?}"),
    }
}

fn path_of(url: &str) -> String {
    reqwest::Url::parse(url).unwrap().path().to_owned()
}

#[test]
fn parses_master_playlists_and_selects_by_bandwidth() {
    let text = "#EXTM3U\n\
        #EXT-X-VERSION:3\n\
        #EXT-X-STREAM-INF:PROGRAM-ID=1,BANDWIDTH=100000\n\
        https://ib064.ibroadcast.com/hls/abc/96/index.m3u8\n\
        #EXT-X-STREAM-INF:PROGRAM-ID=1,BANDWIDTH=200000\n\
        https://ib064.ibroadcast.com/hls/abc/128/index.m3u8\n\
        #EXT-X-IBROADCAST-SAMPLECOUNT:6554624\n";
    let Playlist::Master(variants) = parse_playlist(text, BASE).unwrap() else {
        panic!("expected master playlist");
    };
    assert_eq!(variants.len(), 2);

    let variant = select_variant(variants, 96_000).unwrap();
    assert_eq!(path_of(&variant.url), "/hls/abc/96/index.m3u8");
}

#[test]
fn parses_media_playlists_with_relative_segments() {
    let text = "#EXTM3U\n\
        #EXT-X-PLAYLIST-TYPE: EVENT\n\
        #EXTINF:10.008,\n\
        0.ts\n\
        #EXTINF:4.5,\n\
        https://ib064.ibroadcast.com/hls/abc/96/1.ts\n\
        #EXT-X-ENDLIST\n";
    let Playlist::Media(media) = parse_playlist(text, BASE).unwrap() else {
        panic!("expected media playlist");
    };
    assert!(media.ended);
    assert_eq!(media.segments.len(), 2);
    assert_eq!(
        media.segments[0].as_str(),
        "https://streaming.ibroadcast.com/hls_96/d0c/6f4/0.ts"
    );
    assert_eq!(
        media.segments[1].as_str(),
        "https://ib064.ibroadcast.com/hls/abc/96/1.ts"
    );
}

#[test]
fn unfinished_playlists_are_not_ended() {
    let text = "#EXTM3U\n#EXTINF:10.0,\n0.ts\n";
    let Playlist::Media(media) = parse_playlist(text, BASE).unwrap() else {
        panic!("expected media playlist");
    };
    assert!(!media.ended);
    assert_eq!(media.segments.len(), 1);
}

#[test]
fn rejects_non_playlist_responses() {
    assert!(parse_playlist("<html>nope</html>", BASE).is_err());
}

#[test]
fn addresses_that_cannot_be_resolved_are_rejected() {
    let text = "#EXTM3U\n#EXTINF:1,\nhttps://[broken\n";
    match parse_playlist(text, BASE) {
        Err(AppError::Playback(message)) => assert_eq!(
            message,
            "invalid HLS entry https://[broken: invalid IPv6 address"
        ),
        other => panic!("expected an error, got {other:?}"),
    }
    assert!(HlsStream::begin("not an address", 96_000).is_err());
}

#[test]
fn a_scanned_playlist_is_assembled_from_what_its_lines_resolve_to() {
    let scan = scan_playlist(
        "#EXTM3U\n#EXT-X-STREAM-INF:BANDWIDTH=5\n\n  a  \n#EXT-X-STREAM-INF:CODECS=x\nb\n",
    )
    .unwrap();
    assert_eq!(scan.entries.len(), 2);
    assert_eq!(scan.entries[0].bandwidth, Some(5));
    assert_eq!(scan.entries[0].line, "a");
    assert!(!scan.ended);
    let resolved = vec![Ok("x://a".to_owned()), Ok("x://b".to_owned())];
    match assemble_playlist(&scan, &resolved).unwrap() {
        Playlist::Master(variants) => {
            assert_eq!(variants.len(), 2);
            assert_eq!((variants[0].bandwidth, variants[0].url.as_str()), (5, "x://a"));
            assert_eq!((variants[1].bandwidth, variants[1].url.as_str()), (0, "x://b"));
        }
        Playlist::Media(_) => panic!("expected master playlist"),
    }
    let failed = vec![Ok("x://a".to_owned()), Err("bad".to_owned())];
    assert!(assemble_playlist(&scan, &failed).is_err());
}

#[test]
fn bandwidths_are_read_from_attributes() {
    let chars: Vec<char> = "PROGRAM-ID=1, BANDWIDTH=100000".chars().collect();
    assert_eq!(parse_bandwidth(&chars), Some(100_000));
    let chars: Vec<char> = "BANDWIDTH=fast".chars().collect();
    assert_eq!(parse_bandwidth(&chars), None);
    let chars: Vec<char> = "CODECS=mp4a".chars().collect();
    assert_eq!(parse_bandwidth(&chars), None);
}

#[test]
fn the_rendition_with_the_closest_bandwidth_is_selected() {
    let make = |bandwidths: &[u64]| -> Vec<Variant> {
        bandwidths
            .iter()
            .map(|bandwidth| Variant {
                bandwidth: *bandwidth,
                url: format!("x://{bandwidth}"),
            })
            .collect()
    };
    assert!(select_variant(make(&[]), 1).is_none());
    assert_eq!(select_variant(make(&[10, 30, 50]), 28).unwrap().bandwidth, 30);
    assert_eq!(select_variant(make(&[50, 10]), 30).unwrap().bandwidth, 50);
    assert_eq!(select_variant(make(&[0, 7]), u64::MAX).unwrap().bandwidth, 7);
}

fn fetched(action: &HlsAction) -> &str {
    match action {
        HlsAction::FetchPlaylist(url)
        | HlsAction::WaitThenFetchPlaylist(url)
        | HlsAction::FetchSegment(url) => url,
        other => panic!("expected something to fetch, got {other:?}"),
    }
}

#[test]
fn a_stream_follows_its_playlists_to_the_end() {
    let mut stream = HlsStream::begin("https://a.example/master.m3u8", 96_000).unwrap();
    assert_eq!(fetched(&stream.next_action()), "https://a.example/master.m3u8");

    let action = stream.on_playlist(
        "#EXTM3U\n#EXT-X-STREAM-INF:BANDWIDTH=90000\nlow/index.m3u8\n",
    );
    assert!(matches!(action, HlsAction::FetchPlaylist(_)));
    assert_eq!(fetched(&action), "https://a.example/low/index.m3u8");

    let action = stream.on_playlist("#EXTM3U\n#EXTINF:1,\n0.ts\n");
    assert!(matches!(action, HlsAction::FetchSegment(_)));
    assert_eq!(fetched(&action), "https://a.example/low/0.ts");

    let (audio, action) = stream.on_segment(&transport_stream());
    assert_eq!(audio.len(), (184 - 9) + 184);
    assert!(matches!(action, HlsAction::WaitThenFetchPlaylist(_)));

    let action = stream.on_playlist("#EXTM3U\n#EXTINF:1,\n0.ts\n#EXT-X-ENDLIST\n");
    assert!(matches!(action, HlsAction::Finish));
    assert_eq!(PLAYLIST_POLL_INTERVAL_MILLIS, 750);
}

#[test]
fn a_transfer_over_refreshed_playlists_is_whole() {
    let mut stream = HlsStream::begin("https://a.example/index.m3u8", 96_000).unwrap();
    let mut texts = vec![
        "#EXTM3U\n#EXTINF:1,\n0.ts\n#EXTINF:1,\n1.ts\n#EXTINF:1,\n2.ts\n#EXT-X-ENDLIST\n",
        "#EXTM3U\n#EXTINF:1,\n0.ts\n#EXTINF:1,\n1.ts\n",
        "#EXTM3U\n#EXTINF:1,\n0.ts\n",
        "#EXTM3U\n#EXTINF:1,\n0.ts\n",
    ];
    let mut asked: Vec<String> = Vec::new();
    let mut audio: Vec<u8> = Vec::new();
    let mut action = stream.next_action();
    loop {
        action = match action {
            HlsAction::FetchPlaylist(_) | HlsAction::WaitThenFetchPlaylist(_) => {
                stream.on_playlist(texts.pop().unwrap())
            }
            HlsAction::FetchSegment(url) => {
                asked.push(url);
                let (bytes, next) = stream.on_segment(&transport_stream());
                audio.extend(bytes);
                next
            }
            HlsAction::Finish => break,
            HlsAction::Fail(error) => panic!("unexpected {error:?}"),
        };
    }
    assert_eq!(
        asked,
        vec![
            "https://a.example/0.ts",
            "https://a.example/1.ts",
            "https://a.example/2.ts",
        ]
    );
    assert_eq!(audio.len(), 3 * ((184 - 9) + 184));
    assert!(texts.is_empty());
}

#[test]
fn a_stream_without_audio_fails() {
    let mut stream = HlsStream::begin("https://a.example/index.m3u8", 96_000).unwrap();
    stream.on_playlist("#EXTM3U\n#EXTINF:1,\n0.ts\n#EXT-X-ENDLIST\n");
    let (audio, action) = stream.on_segment(b"nothing");
    assert!(audio.is_empty());
    assert!(matches!(action, HlsAction::Fail(AppError::Playback(_))));
}

#[test]
fn a_master_playlist_within_a_master_playlist_fails() {
    let master = "#EXTM3U\n#EXT-X-STREAM-INF:BANDWIDTH=1\nlow/index.m3u8\n";
    let mut stream = HlsStream::begin("https://a.example/index.m3u8", 96_000).unwrap();
    stream.on_playlist(master);
    assert!(matches!(stream.on_playlist(master), HlsAction::Fail(_)));
}

#[test]
fn a_stalled_stream_fails_at_last() {
    let mut stream = HlsStream::begin("https://a.example/index.m3u8", 96_000).unwrap();
    let mut polls: u32 = 0;
    loop {
        match stream.on_playlist("#EXTM3U\n") {
            HlsAction::WaitThenFetchPlaylist(_) => polls += 1,
            HlsAction::Fail(_) => break,
            other => panic!("unexpected {other:?}"),
        }
        assert!(polls <= MAX_STALLED_POLLS);
    }
    assert!(polls + 1 >= MAX_STALLED_POLLS);
}

fn ts_packet(pid: u16, payload_unit_start: bool, payload: &[u8]) -> Vec<u8> {
    let mut packet = vec![
        0x47,
        ((payload_unit_start as u8) << 6) | (pid >> 8) as u8,
        (pid & 0xFF) as u8,
        0x10, // payload only, continuity 0
    ];
    packet.extend_from_slice(payload);
    packet.resize(188, 0xFF);
    packet
}

/// A table: pointer field and section with a made-up checksum.
fn psi(table_id: u8, body: &[u8]) -> Vec<u8> {
    let section_length = (body.len() + 4) as u16; // body and checksum
    let mut payload = vec![0x00, table_id, 0xB0 | (section_length >> 8) as u8];
    payload.push((section_length & 0xFF) as u8);
    payload.extend_from_slice(body);
    payload.extend_from_slice(&[0, 0, 0, 0]); // checksum
    payload
}

const AUDIO: &[u8] = b"\xFF\xF1\x50\x80fake adts frame";

// Program 1 has its map at 0x1001.
const PAT_BODY: [u8; 9] = [0x00, 0x01, 0xC1, 0x00, 0x00, 0x00, 0x01, 0xF0, 0x01];

// H.264 at 0x0100, ADTS AAC at 0x0101.
const PMT_BODY: [u8; 19] = [
    0x00, 0x01, 0xC1, 0x00, 0x00, // rest of the header
    0xE1, 0x00, // clock
    0xF0, 0x00, // no program info
    0x1B, 0xE1, 0x00, 0xF0, 0x00, // H.264 stream at 0x0100
    0x0F, 0xE1, 0x01, 0xF0, 0x00, // AAC stream at 0x0101
];

fn transport_stream() -> Vec<u8> {
    let mut pes = vec![0x00, 0x00, 0x01, 0xC0, 0x00, 0x00, 0x80, 0x00, 0x00];
    pes.extend_from_slice(AUDIO);

    let mut ts = Vec::new();
    ts.extend(ts_packet(0, true, &psi(0x00, &PAT_BODY)));
    ts.extend(ts_packet(0x1001, true, &psi(0x02, &PMT_BODY)));
    ts.extend(ts_packet(0x0101, true, &pes));
    // A continuation holds raw bytes only.
    ts.extend(ts_packet(0x0101, false, b"more audio"));
    // Other streams are left out.
    ts.extend(ts_packet(0x0100, true, b"\x00\x00\x01\xE0video"));
    ts
}

#[test]
fn demuxes_adts_audio_from_transport_stream() {
    let ts = transport_stream();
    let mut demuxer = TsDemuxer::default();
    let mut out = Vec::new();
    demuxer.extract_audio(&ts, &mut out);

    // A packet carries 184 bytes, and the header takes 9 of the first one.
    assert_eq!(out.len(), (184 - 9) + 184);
    assert!(out.starts_with(AUDIO));
    assert!(out[184 - 9..].starts_with(b"more audio"));
}

#[test]
fn demuxer_survives_garbage_input() {
    let mut demuxer = TsDemuxer::default();
    let mut out = Vec::new();
    demuxer.extract_audio(&[0x47; 400], &mut out);
    demuxer.extract_audio(b"not a transport stream", &mut out);
    assert!(out.is_empty());
}

#[test]
fn segments_may_be_fed_one_after_the_other() {
    let ts = transport_stream();
    let mut whole = Vec::new();
    TsDemuxer::default().extract_audio(&ts, &mut whole);

    let mut parts = Vec::new();
    let mut demuxer = TsDemuxer::default();
    demuxer.extract_audio(&ts[..188 * 3], &mut parts);
    demuxer.extract_audio(&ts[188 * 3..], &mut parts);
    assert_eq!(parts, whole);
}

#[test]
fn audio_comes_only_after_the_tables() {
    let ts = transport_stream();
    let mut out = Vec::new();
    TsDemuxer::default().extract_audio(&ts[188 * 2..], &mut out);
    assert!(out.is_empty());
}

#[test]
fn tables_and_headers_are_read() {
    assert_eq!(parse_pat(&psi(0x00, &PAT_BODY)), Some(0x1001));
    assert_eq!(parse_pat(&psi(0x02, &PAT_BODY)), None);
    assert_eq!(parse_pmt(&psi(0x02, &PMT_BODY)), Some(0x0101));
    assert_eq!(parse_pmt(&psi(0x00, &PMT_BODY)), None);
    assert_eq!(psi_section(&[9], 0), None);
    assert_eq!(
        pes_payload(&[0, 0, 1, 0xC0, 0, 0, 0x80, 0, 1, 0xAA, 7, 8]),
        &[7, 8]
    );
    let none: &[u8] = &[];
    assert_eq!(pes_payload(&[0, 0, 1]), none);
}

#[test]
fn reader_blocks_until_bytes_are_available() {
    let mut buffer = ProgressiveBuffer::new(Some(3));
    let mut reader = buffer.reader();
    let mut out = [0; 2];
    assert!(matches!(reader.read(&buffer, &mut out), ReadOutcome::Wait));
    buffer.push(b"abc");

    assert_eq!(count(reader.read(&buffer, &mut out)), 2);
    assert_eq!(&out, b"ab");
    assert_eq!(count(reader.read(&buffer, &mut out)), 1);
    assert_eq!(out[0], b'c');
}

#[test]
fn reader_can_seek_within_buffered_data() {
    let mut buffer = ProgressiveBuffer::new(Some(5));
    let mut reader = buffer.reader();
    buffer.push(b"hello");
    assert_eq!(reader.seek(&buffer, SeekTarget::End(-2)), SeekOutcome::At(3));

    let mut out = [0; 2];
    assert_eq!(count(reader.read(&buffer, &mut out)), 2);
    assert_eq!(&out, b"lo");
}

#[test]
fn readers_keep_independent_positions() {
    let mut buffer = ProgressiveBuffer::new(Some(6));
    buffer.push(b"abcdef");

    let mut first = buffer.reader();
    let mut second = buffer.reader();
    let mut first_out = [0; 2];
    let mut second_out = [0; 3];

    assert_eq!(count(first.read(&buffer, &mut first_out)), 2);
    assert_eq!(&first_out, b"ab");
    assert_eq!(count(second.read(&buffer, &mut second_out)), 3);
    assert_eq!(&second_out, b"abc");

    assert_eq!(count(first.read(&buffer, &mut first_out)), 2);
    assert_eq!(&first_out, b"cd");
    assert_eq!(count(second.read(&buffer, &mut second_out[..2])), 2);
    assert_eq!(&second_out[..2], b"de");
}

fn read_to_end(buffer: &ProgressiveBuffer) -> Vec<u8> {
    let mut reader = buffer.reader();
    let mut bytes = Vec::new();
    let mut chunk = [0; 5];
    loop {
        let read = count(reader.read(buffer, &mut chunk));
        if read == 0 {
            return bytes;
        }
        bytes.extend_from_slice(&chunk[..read]);
    }
}

#[test]
fn replacement_reader_reuses_already_buffered_bytes() {
    let mut buffer = ProgressiveBuffer::new(Some(6));
    buffer.push(b"cached");
    buffer.finish();

    let mut original = buffer.reader();
    let mut consumed = [0; 4];
    assert_eq!(count(original.read(&buffer, &mut consumed)), 4);
    assert_eq!(&consumed, b"cach");

    // Nothing more is pushed: another reader starts over with the bytes that were kept.
    assert_eq!(read_to_end(&buffer), b"cached");
}

#[test]
fn readers_give_back_what_was_pushed_however_it_was_cut() {
    let mut buffer = ProgressiveBuffer::new(None);
    buffer.push(b"abc");
    buffer.cancel_current_readers();
    let mut reader = buffer.reader();
    buffer.push(b"");
    buffer.push(b"defghij");
    buffer.finish();

    let mut bytes = Vec::new();
    for room in [1, 0, 4, 3, 9] {
        let mut out = vec![0; room];
        let read = count(reader.read(&buffer, &mut out));
        bytes.extend_from_slice(&out[..read]);
        assert_eq!(reader.pos as usize, bytes.len());
    }
    assert_eq!(bytes, b"abcdefghij");
    assert_eq!(count(reader.read(&buffer, &mut [0; 2])), 0);

    let mut whole = ProgressiveBuffer::new(None);
    whole.push(b"abcdefghij");
    whole.finish();
    assert_eq!(read_to_end(&whole), read_to_end(&buffer));
}

#[test]
fn cancelling_old_readers_wakes_them_without_discarding_the_buffer() {
    let mut buffer = ProgressiveBuffer::new(None);
    let mut old_reader = buffer.reader();
    let mut byte = [0; 1];
    assert!(matches!(old_reader.read(&buffer, &mut byte), ReadOutcome::Wait));

    buffer.cancel_current_readers();
    assert!(matches!(
        old_reader.read(&buffer, &mut byte),
        ReadOutcome::Cancelled
    ));
    assert_eq!(
        old_reader.seek(&buffer, SeekTarget::Start(0)),
        SeekOutcome::Cancelled
    );

    // Only the readers are cancelled: the bytes that come are kept for the next one.
    buffer.push(b"still cached");
    buffer.finish();
    assert_eq!(read_to_end(&buffer), b"still cached");
}

#[test]
fn a_failed_buffer_tells_why() {
    let mut buffer = ProgressiveBuffer::new(None);
    buffer.push(b"ab");
    buffer.fail("gone".to_owned());
    let mut reader = buffer.reader();
    let mut out = [0; 4];
    assert_eq!(count(reader.read(&buffer, &mut out)), 2);
    match reader.read(&buffer, &mut out) {
        ReadOutcome::Failed(message) => assert_eq!(message, "gone"),
        other => panic!("expected a failure, got {other:?}"),
    }
}

#[test]
fn seeking_from_the_end_waits_for_the_length() {
    let mut buffer = ProgressiveBuffer::new(None);
    let mut reader = buffer.reader();
    assert_eq!(reader.seek(&buffer, SeekTarget::End(0)), SeekOutcome::Wait);
    buffer.set_content_len(Some(100));
    assert_eq!(
        reader.seek(&buffer, SeekTarget::End(-1)),
        SeekOutcome::At(99)
    );
    assert_eq!(
        reader.seek(&buffer, SeekTarget::Current(-100)),
        SeekOutcome::InvalidOffset
    );
    assert_eq!(
        reader.seek(&buffer, SeekTarget::Current(1)),
        SeekOutcome::At(100)
    );
    assert_eq!(checked_offset(u64::MAX, 1), SeekOutcome::InvalidOffset);
    assert_eq!(checked_offset(5, -5), SeekOutcome::At(0));
}
