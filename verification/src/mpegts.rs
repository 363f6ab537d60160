//! Extraction of the audio elementary stream from MPEG transport stream segments.

use vstd::prelude::*;
use vstd::slice::slice_subrange;

verus! {

pub const TS_PACKET_LEN: usize = 188;

pub const TS_SYNC_BYTE: u8 = 0x47;

/// ISO 13818-7 ADTS AAC.
pub const STREAM_TYPE_ADTS_AAC: u8 = 0x0F;

/// MPEG-1 and MPEG-2 audio (the MP3 family), taken where no AAC stream is listed: the decoder
/// finds out the codec from the byte stream anyway.
pub const STREAM_TYPE_MPEG1_AUDIO: u8 = 0x03;

pub const STREAM_TYPE_MPEG2_AUDIO: u8 = 0x04;

/// The packet identifier in the low thirteen bits of two bytes.
pub open spec fn pid_of(high: u8, low: u8) -> u16 {
    ((high as int % 32) * 256 + low as int) as u16
}

/// The length in the low twelve bits of two bytes.
pub open spec fn length_of(high: u8, low: u8) -> int {
    (high as int % 16) * 256 + low as int
}

fn pid(high: u8, low: u8) -> (res: u16)
    ensures
        res == pid_of(high, low),
{
    ((high % 32) as u16) * 256 + (low as u16)
}

fn length12(high: u8, low: u8) -> (res: usize)
    ensures
        res == length_of(high, low),
        res < 4096,
{
    ((high % 16) as usize) * 256 + (low as usize)
}

/// The section of table `table_id` that begins in `payload`, from its table identifier up to its
/// checksum.
pub open spec fn psi_section_of(payload: Seq<u8>, table_id: u8) -> Option<Seq<u8>> {
    if payload.len() == 0 || 1 + payload[0] > payload.len() {
        None
    } else {
        let section = payload.skip(1 + payload[0]);
        if section.len() < 3 || section[0] != table_id {
            None
        } else {
            let end = 3 + length_of(section[1], section[2]) - 4;
            if 0 <= end <= section.len() {
                Some(section.take(end))
            } else {
                None
            }
        }
    }
}

/// Validates a table header and returns the section, without its checksum.
pub fn psi_section<'a>(payload: &'a [u8], table_id: u8) -> (res: Option<&'a [u8]>)
    ensures
        match res {
            Some(section) => psi_section_of(payload@, table_id) == Some(section@),
            None => psi_section_of(payload@, table_id) is None,
        },
{
    if payload.len() == 0 {
        return None;
    }
    let pointer: usize = payload[0] as usize;
    if 1 + pointer > payload.len() {
        return None;
    }
    let section = slice_subrange(payload, 1 + pointer, payload.len());
    assert(section@ =~= payload@.skip(1 + pointer));
    if section.len() < 3 || section[0] != table_id {
        return None;
    }
    let whole: usize = 3 + length12(section[1], section[2]);
    if whole < 4 || whole - 4 > section.len() {
        return None;
    }
    let body = slice_subrange(section, 0, whole - 4);
    assert(body@ =~= section@.take(whole - 4));
    Some(body)
}

/// The packet identifier in the first entry that names a program. Entries take four bytes.
pub open spec fn first_program(entries: Seq<u8>) -> Option<u16>
    decreases entries.len(),
{
    if entries.len() < 4 {
        None
    } else if entries[0] != 0 || entries[1] != 0 {
        Some(pid_of(entries[2], entries[3]))
    } else {
        first_program(entries.skip(4))
    }
}

/// The packet identifier of the program map of the first program in a program association table.
pub open spec fn pat_program(payload: Seq<u8>) -> Option<u16> {
    match psi_section_of(payload, 0) {
        Some(section) => if section.len() < 8 {
            None
        } else {
            first_program(section.skip(8))
        },
        None => None,
    }
}

/// Returns the packet identifier of the program map of the first program.
pub fn parse_pat(payload: &[u8]) -> (res: Option<u16>)
    ensures
        res == pat_program(payload@),
{
    let section = match psi_section(payload, 0) {
        Some(section) => section,
        None => {
            return None;
        },
    };
    if section.len() < 8 {
        return None;
    }
    let mut index: usize = 8;
    let count: usize = section.len();
    while count - index >= 4
        invariant
            8 <= index <= count == section@.len(),
            psi_section_of(payload@, 0) == Some(section@),
            first_program(section@.skip(8)) == first_program(section@.skip(index as int)),
        decreases count - index,
    {
        if section[index] != 0 || section[index + 1] != 0 {
            return Some(pid(section[index + 2], section[index + 3]));
        }
        assert(section@.skip(index as int).skip(4) =~= section@.skip(index + 4));
        index = index + 4;
    }
    None
}

/// The stream types and packet identifiers listed from `index` on in a program map section.
pub open spec fn elementary_streams(section: Seq<u8>, index: int) -> Seq<(u8, u16)>
    decreases
            if index < section.len() {
                section.len() - index
            } else {
                0
            },
{
    if index < 0 || index + 4 >= section.len() {
        Seq::empty()
    } else {
        seq![(section[index], pid_of(section[index + 1], section[index + 2]))]
            + elementary_streams(
            section,
            index + 5 + length_of(section[index + 3], section[index + 4]),
        )
    }
}

/// The packet identifier of the first stream whose type is among `kinds`.
pub open spec fn first_stream(streams: Seq<(u8, u16)>, kinds: Set<u8>) -> Option<u16>
    decreases streams.len(),
{
    if streams.len() == 0 {
        None
    } else if kinds.contains(streams[0].0) {
        Some(streams[0].1)
    } else {
        first_stream(streams.drop_first(), kinds)
    }
}

pub open spec fn aac_kinds() -> Set<u8> {
    set![STREAM_TYPE_ADTS_AAC]
}

pub open spec fn mpeg_kinds() -> Set<u8> {
    set![STREAM_TYPE_MPEG1_AUDIO, STREAM_TYPE_MPEG2_AUDIO]
}

/// The first AAC stream, or else the first MPEG audio stream.
pub open spec fn preferred_stream(streams: Seq<(u8, u16)>) -> Option<u16> {
    match first_stream(streams, aac_kinds()) {
        Some(found) => Some(found),
        None => first_stream(streams, mpeg_kinds()),
    }
}

/// The packet identifier of the audio stream that a program map lists.
pub open spec fn pmt_audio(payload: Seq<u8>) -> Option<u16> {
    match psi_section_of(payload, 2) {
        Some(section) => if section.len() < 12 {
            None
        } else {
            preferred_stream(
                elementary_streams(section, 12 + length_of(section[10], section[11])),
            )
        },
        None => None,
    }
}

/// Returns the packet identifier of the first supported audio stream.
pub fn parse_pmt(payload: &[u8]) -> (res: Option<u16>)
    ensures
        res == pmt_audio(payload@),
{
    let section = match psi_section(payload, 2) {
        Some(section) => section,
        None => {
            return None;
        },
    };
    let count: usize = section.len();
    if count < 12 {
        return None;
    }
    let mut index: usize = 12 + length12(section[10], section[11]);
    let mut fallback: Option<u16> = None;
    let ghost all = elementary_streams(section@, index as int);
    while index < count && count - index > 4
        invariant
            count == section@.len(),
            pmt_audio(payload@) == preferred_stream(all),
            preferred_stream(all) == match first_stream(
                elementary_streams(section@, index as int),
                aac_kinds(),
            ) {
                Some(found) => Some(found),
                None => match fallback {
                    Some(found) => Some(found),
                    None => first_stream(elementary_streams(section@, index as int), mpeg_kinds()),
                },
            },
        decreases count - index,
    {
        let kind = section[index];
        let elementary_pid = pid(section[index + 1], section[index + 2]);
        let info: usize = length12(section[index + 3], section[index + 4]);
        proof {
            let rest = elementary_streams(section@, index as int);
            let tail = elementary_streams(section@, index + 5 + info);
            assert(rest == seq![(kind, elementary_pid)] + tail);
            assert(rest.drop_first() =~= tail);
            assert(rest[0] == (kind, elementary_pid));
        }
        if kind == STREAM_TYPE_ADTS_AAC {
            return Some(elementary_pid);
        }
        if kind == STREAM_TYPE_MPEG1_AUDIO || kind == STREAM_TYPE_MPEG2_AUDIO {
            if fallback.is_none() {
                fallback = Some(elementary_pid);
            }
        }
        if count - index < 5 + info {
            proof {
                let tail = elementary_streams(section@, index + 5 + info);
                assert(tail =~= Seq::<(u8, u16)>::empty());
                assert(first_stream(tail, aac_kinds()) is None);
                assert(first_stream(tail, mpeg_kinds()) is None);
            }
            return fallback;
        }
        index = index + 5 + info;
    }
    fallback
}

/// The elementary stream bytes behind the header of a packetized stream unit; none where the
/// header is malformed.
pub open spec fn pes_bytes(payload: Seq<u8>) -> Seq<u8> {
    if payload.len() >= 9 && payload[0] == 0 && payload[1] == 0 && payload[2] == 1 && 9 + payload[8]
        <= payload.len() {
        payload.skip(9 + payload[8])
    } else {
        Seq::empty()
    }
}

/// Strips the header of a packetized stream unit.
pub fn pes_payload<'a>(payload: &'a [u8]) -> (res: &'a [u8])
    ensures
        res@ == pes_bytes(payload@),
{
    let count: usize = payload.len();
    if count < 9 || payload[0] != 0 || payload[1] != 0 || payload[2] != 1 {
        return slice_subrange(payload, 0, 0);
    }
    let start: usize = 9 + (payload[8] as usize);
    if start > count {
        return slice_subrange(payload, 0, 0);
    }
    let rest = slice_subrange(payload, start, count);
    assert(rest@ =~= payload@.skip(start as int));
    rest
}

/// Extracts the audio elementary stream from transport stream segments. Stateful so the program
/// tables found in one segment carry over to the next.
#[derive(Clone, Copy, Debug, PartialEq, Eq, Structural)]
pub struct TsDemuxer {
    pub pmt_pid: Option<u16>,
    pub audio_pid: Option<u16>,
}

/// The payload of a packet: nothing where the packet is marked as damaged or carries none.
pub open spec fn packet_payload(packet: Seq<u8>) -> Seq<u8> {
    let control = (packet[3] as int / 16) % 4;
    let start = if control == 3 {
        5 + packet[4]
    } else {
        4int
    };
    if packet[1] >= 0x80 || control == 0 || control == 2 || start > packet.len() {
        Seq::empty()
    } else {
        packet.skip(start)
    }
}

/// Whether a unit of the payload's own format begins in the packet.
pub open spec fn unit_starts(packet: Seq<u8>) -> bool {
    (packet[1] as int / 64) % 2 == 1
}

impl TsDemuxer {
    /// The demuxer after one packet, and the audio bytes that the packet carries.
    pub open spec fn after_packet(self, packet: Seq<u8>) -> (TsDemuxer, Seq<u8>) {
        let payload = packet_payload(packet);
        let pid = pid_of(packet[1], packet[2]);
        let start = unit_starts(packet);
        if payload.len() == 0 {
            (self, Seq::empty())
        } else if pid == 0 {
            match pat_program(payload) {
                Some(found) => if start {
                    (TsDemuxer { pmt_pid: Some(found), ..self }, Seq::empty())
                } else {
                    (self, Seq::empty())
                },
                None => (self, Seq::empty()),
            }
        } else if self.pmt_pid == Some(pid) {
            match pmt_audio(payload) {
                Some(found) => if start {
                    (TsDemuxer { audio_pid: Some(found), ..self }, Seq::empty())
                } else {
                    (self, Seq::empty())
                },
                None => (self, Seq::empty()),
            }
        } else if self.audio_pid == Some(pid) {
            (
                self,
                if start {
                    pes_bytes(payload)
                } else {
                    payload
                },
            )
        } else {
            (self, Seq::empty())
        }
    }

    /// The demuxer after a segment, and the audio bytes of the segment. Bytes before a sync byte
    /// are skipped one by one; a rest shorter than a packet is ignored.
    pub open spec fn after_segment(self, ts: Seq<u8>) -> (TsDemuxer, Seq<u8>)
        decreases ts.len(),
    {
        if ts.len() < TS_PACKET_LEN {
            (self, Seq::empty())
        } else if ts[0] != TS_SYNC_BYTE {
            self.after_segment(ts.skip(1))
        } else {
            let (next, audio) = self.after_packet(ts.take(TS_PACKET_LEN as int));
            let (last, rest) = next.after_segment(ts.skip(TS_PACKET_LEN as int));
            (last, audio + rest)
        }
    }

    /// Appends the audio bytes found in `ts` to `out`. Malformed packets are skipped rather than
    /// treated as fatal.
    pub fn extract_audio(&mut self, ts: &[u8], out: &mut Vec<u8>)
        ensures
            *final(self) == old(self).after_segment(ts@).0,
            final(out)@ == old(out)@ + old(self).after_segment(ts@).1,
    {
        let mut offset: usize = 0;
        let count: usize = ts.len();
        let ghost start = *self;
        let ghost before = out@;
        assert(ts@.skip(0) =~= ts@);
        assert(before + start.after_segment(ts@).1 =~= out@ + self.after_segment(ts@.skip(0)).1);
        while count - offset >= TS_PACKET_LEN
            invariant
                offset <= count == ts@.len(),
                self.after_segment(ts@.skip(offset as int)).0 == start.after_segment(ts@).0,
                before + start.after_segment(ts@).1 == out@ + self.after_segment(
                    ts@.skip(offset as int),
                ).1,
            decreases count - offset,
        {
            let ghost rest = ts@.skip(offset as int);
            if ts[offset] != TS_SYNC_BYTE {
                assert(rest.skip(1) =~= ts@.skip(offset + 1));
                offset = offset + 1;
            } else {
                let ghost held = out@;
                let ghost me = *self;
                let packet = slice_subrange(ts, offset, offset + TS_PACKET_LEN);
                proof {
                    assert(packet@ =~= rest.take(TS_PACKET_LEN as int));
                    assert(rest.skip(TS_PACKET_LEN as int) =~= ts@.skip(offset + TS_PACKET_LEN));
                }
                self.handle_packet(packet, out);
                offset = offset + TS_PACKET_LEN;
                proof {
                    let audio = me.after_packet(packet@).1;
                    let tail = self.after_segment(ts@.skip(offset as int)).1;
                    assert(me.after_segment(rest).1 == audio + tail);
                    assert(held + (audio + tail) =~= (held + audio) + tail);
                }
            }
        }
        proof {
            assert(self.after_segment(ts@.skip(offset as int)).1 =~= Seq::<u8>::empty());
            assert(out@ + Seq::<u8>::empty() =~= out@);
        }
    }

    /// Takes one packet into account.
    pub fn handle_packet(&mut self, packet: &[u8], out: &mut Vec<u8>)
        requires
            packet@.len() == TS_PACKET_LEN,
        ensures
            *final(self) == old(self).after_packet(packet@).0,
            final(out)@ == old(out)@ + old(self).after_packet(packet@).1,
    {
        let ghost held = out@;
        assert(held + Seq::<u8>::empty() =~= held);
        if packet[1] >= 0x80 {
            return;
        }
        let payload_unit_start = (packet[1] / 64) % 2 == 1;
        let pid = pid(packet[1], packet[2]);
        let adaptation_control: u8 = (packet[3] / 16) % 4;
        if adaptation_control == 0 || adaptation_control == 2 {
            return;
        }
        let payload_start: usize = if adaptation_control == 3 {
            5 + (packet[4] as usize)
        } else {
            4
        };
        if payload_start >= packet.len() {
            return;
        }
        let payload = slice_subrange(packet, payload_start, packet.len());
        assert(payload@ =~= packet_payload(packet@));
        if pid == 0 {
            if payload_unit_start {
                if let Some(pmt_pid) = parse_pat(payload) {
                    self.pmt_pid = Some(pmt_pid);
                }
            }
        } else if self.pmt_pid == Some(pid) {
            if payload_unit_start {
                if let Some(audio_pid) = parse_pmt(payload) {
                    self.audio_pid = Some(audio_pid);
                }
            }
        } else if self.audio_pid == Some(pid) {
            if payload_unit_start {
                append_bytes(out, pes_payload(payload));
            } else {
                append_bytes(out, payload);
            }
        }
    }
}

impl Default for TsDemuxer {
    fn default() -> (res: TsDemuxer)
        ensures
            res == (TsDemuxer { pmt_pid: None, audio_pid: None }),
    {
        TsDemuxer { pmt_pid: None, audio_pid: None }
    }
}

/// Appends every byte of `from`.
pub fn append_bytes(out: &mut Vec<u8>, from: &[u8])
    ensures
        final(out)@ == old(out)@ + from@,
{
    out.extend_from_slice(from);
    assert(out@ =~= old(out)@ + from@);
}

/// A segment made of whole packets, each beginning with the sync byte.
pub open spec fn in_sync(ts: Seq<u8>) -> bool {
    &&& ts.len() % (TS_PACKET_LEN as nat) == 0
    &&& forall|i: int|
        0 <= i < ts.len() && i % (TS_PACKET_LEN as int) == 0 ==> #[trigger] ts[i] == TS_SYNC_BYTE
}

/// Demuxing two segments one after the other gives what demuxing them in one piece gives: the
/// program tables found in one segment carry over to the next.
#[verifier::spinoff_prover]
pub proof fn law_segments_concatenate(demuxer: TsDemuxer, first: Seq<u8>, second: Seq<u8>)
    requires
        in_sync(first),
    ensures
        ({
            let (between, head) = demuxer.after_segment(first);
            let (last, tail) = between.after_segment(second);
            demuxer.after_segment(first + second) == (last, head + tail)
        }),
    decreases first.len(),
{
    let n = TS_PACKET_LEN as int;
    let whole = first + second;
    if first.len() == 0 {
        assert(whole =~= second);
        let tail = demuxer.after_segment(second).1;
        assert(Seq::<u8>::empty() + tail =~= tail);
    } else {
        assert(first.len() >= n);
        assert(first[0] == TS_SYNC_BYTE);
        let rest = first.skip(n);
        assert(in_sync(rest)) by {
            assert forall|i: int| 0 <= i < rest.len() && i % n == 0 implies #[trigger] rest[i]
                == TS_SYNC_BYTE by {
                assert(rest[i] == first[i + n]);
                assert((i + n) % n == 0);
            }
        }
        assert(whole.take(n) =~= first.take(n));
        assert(whole.skip(n) =~= rest + second);
        let (next, audio) = demuxer.after_packet(first.take(n));
        law_segments_concatenate(next, rest, second);
        let (between, head) = next.after_segment(rest);
        let (last, tail) = between.after_segment(second);
        assert(audio + (head + tail) =~= (audio + head) + tail);
    }
}

/// The audio of a segment is never longer than the segment.
pub proof fn law_audio_is_bounded(demuxer: TsDemuxer, ts: Seq<u8>)
    ensures
        demuxer.after_segment(ts).1.len() <= ts.len(),
    decreases ts.len(),
{
    if ts.len() >= TS_PACKET_LEN {
        if ts[0] != TS_SYNC_BYTE {
            law_audio_is_bounded(demuxer, ts.skip(1));
        } else {
            let next = demuxer.after_packet(ts.take(TS_PACKET_LEN as int)).0;
            law_audio_is_bounded(next, ts.skip(TS_PACKET_LEN as int));
        }
    }
}

/// Until a program map has named the audio stream, no bytes come out.
pub proof fn law_no_audio_before_tables(demuxer: TsDemuxer, packet: Seq<u8>)
    requires
        demuxer.audio_pid is None,
    ensures
        demuxer.after_packet(packet).1.len() == 0,
{
}

/// What a multiplexer writes into one packet beside the packet identifier.
pub struct Muxed {
    pub priority: bool,
    pub scrambling: nat,
    pub counter: nat,
    /// The adaptation field behind its length, such as a clock reference or mere stuffing.
    pub adaptation: Option<Seq<u8>>,
    pub starts: bool,
    pub payload: Seq<u8>,
}

impl Muxed {
    /// The bytes of the packet.
    pub open spec fn packet(self, pid: u16) -> Seq<u8> {
        let flags = (if self.starts {
            64int
        } else {
            0
        }) + (if self.priority {
            32int
        } else {
            0
        });
        let control = if self.adaptation is Some {
            48int
        } else {
            16
        };
        seq![
            0x47u8,
            (flags + pid / 256) as u8,
            (pid % 256) as u8,
            (self.scrambling * 64 + control + self.counter) as u8,
        ] + (match self.adaptation {
            Some(field) => seq![field.len() as u8] + field,
            None => Seq::empty(),
        }) + self.payload
    }

    /// Every value fits into its bits, and the packet has the length of a packet.
    pub open spec fn fits(self, pid: u16) -> bool {
        &&& pid < 0x2000
        &&& self.scrambling < 4
        &&& self.counter < 16
        &&& self.packet(pid).len() == 188
    }
}

/// A unit of a packetized elementary stream: a start code, the stream and its flags, and behind the
/// rest of the header, whose length is written down, the bytes of the stream.
pub open spec fn pes_unit(fields: Seq<u8>, header: Seq<u8>, bytes: Seq<u8>) -> Seq<u8> {
    seq![0u8, 0u8, 1u8] + fields + seq![header.len() as u8] + header + bytes
}

/// What the packet that was written says: which stream it belongs to, whether a unit starts in it,
/// and its payload, with or without an adaptation field.
proof fn lemma_muxed_packet(muxed: Muxed, pid: u16)
    requires
        muxed.fits(pid),
    ensures
        ({
            let packet = muxed.packet(pid);
            &&& packet[0] == 0x47
            &&& packet[1] < 0x80
            &&& pid_of(packet[1], packet[2]) == pid
            &&& unit_starts(packet) == muxed.starts
            &&& packet_payload(packet) == muxed.payload
        }),
{
    let packet = muxed.packet(pid);
    let payload = muxed.payload;
    assert(packet[1] as int % 32 == pid / 256);
    match muxed.adaptation {
        Some(field) => {
            assert(field.len() <= 183);
            assert(packet[4] == field.len());
            assert((packet[3] as int / 16) % 4 == 3);
            assert(packet.skip(5 + field.len() as int) =~= payload);
        },
        None => {
            assert((packet[3] as int / 16) % 4 == 1);
            assert(packet.skip(4) =~= payload);
        },
    }
}

/// One packet of the audio stream gives the bytes that were put into it, whether or not it carries
/// an adaptation field: the payload, or what stands behind the header of the unit that starts in
/// it.
pub proof fn law_audio_packets_give_their_bytes(
    demuxer: TsDemuxer,
    pid: u16,
    muxed: Muxed,
    fields: Seq<u8>,
    header: Seq<u8>,
    bytes: Seq<u8>,
)
    requires
        demuxer.audio_pid == Some(pid),
        demuxer.pmt_pid != Some(pid),
        pid != 0,
        muxed.fits(pid),
        fields.len() == 5,
        header.len() <= 255,
        muxed.payload == (if muxed.starts {
            pes_unit(fields, header, bytes)
        } else {
            bytes
        }),
    ensures
        demuxer.after_packet(muxed.packet(pid)) == (demuxer, bytes),
{
    lemma_muxed_packet(muxed, pid);
    if muxed.starts {
        let unit = pes_unit(fields, header, bytes);
        assert(unit[0] == 0 && unit[1] == 0 && unit[2] == 1);
        assert(unit[8] == header.len());
        assert(unit.skip(9 + header.len() as int) =~= bytes);
    } else {
        assert(muxed.payload.len() == 0 ==> bytes =~= Seq::<u8>::empty());
    }
}

/// A packet of the audio stream, as it is to be written.
pub struct AudioPacket {
    pub muxed: Muxed,
    /// Where a unit starts, what its header holds.
    pub fields: Seq<u8>,
    pub header: Seq<u8>,
    pub bytes: Seq<u8>,
}

impl AudioPacket {
    pub open spec fn fits(self, pid: u16) -> bool {
        &&& self.muxed.fits(pid)
        &&& self.fields.len() == 5
        &&& self.header.len() <= 255
        &&& self.muxed.payload == (if self.muxed.starts {
            pes_unit(self.fields, self.header, self.bytes)
        } else {
            self.bytes
        })
    }
}

/// The packets one after the other.
pub open spec fn mux(pid: u16, packets: Seq<AudioPacket>) -> Seq<u8>
    decreases packets.len(),
{
    if packets.len() == 0 {
        Seq::empty()
    } else {
        mux(pid, packets.drop_last()) + packets.last().muxed.packet(pid)
    }
}

/// The bytes that were put into the packets.
pub open spec fn muxed_audio(packets: Seq<AudioPacket>) -> Seq<u8>
    decreases packets.len(),
{
    if packets.len() == 0 {
        Seq::empty()
    } else {
        muxed_audio(packets.drop_last()) + packets.last().bytes
    }
}

/// One packet, demuxed as a segment of its own.
proof fn lemma_single_packet(demuxer: TsDemuxer, packet: Seq<u8>)
    requires
        packet.len() == 188,
        packet[0] == 0x47,
    ensures
        in_sync(packet),
        demuxer.after_segment(packet) == demuxer.after_packet(packet),
{
    assert(packet.take(188) =~= packet);
    let (next, audio) = demuxer.after_packet(packet);
    let rest = packet.skip(188);
    assert(next.after_segment(rest) == (next, Seq::<u8>::empty()));
    assert(audio + Seq::<u8>::empty() =~= audio);
    assert forall|i: int| 0 <= i < packet.len() && i % 188 == 0 implies #[trigger] packet[i]
        == TS_SYNC_BYTE by {
        assert(i == 0);
    }
}

/// Segments of whole packets are one.
proof fn lemma_in_sync_together(first: Seq<u8>, second: Seq<u8>)
    requires
        in_sync(first),
        in_sync(second),
    ensures
        in_sync(first + second),
{
    let whole = first + second;
    assert forall|i: int| 0 <= i < whole.len() && i % 188 == 0 implies #[trigger] whole[i]
        == TS_SYNC_BYTE by {
        if i < first.len() {
            assert(whole[i] == first[i]);
        } else {
            let k = i - first.len();
            assert(k % 188 == 0);
            assert(whole[i] == second[k]);
        }
    }
}

/// Demuxing gives back what was multiplexed: whatever adaptation fields the packets of the audio
/// stream carry and wherever units start, the bytes that were put in come out, all of them and in
/// order.
pub proof fn law_demuxing_undoes_muxing(
    demuxer: TsDemuxer,
    pid: u16,
    packets: Seq<AudioPacket>,
)
    requires
        demuxer.audio_pid == Some(pid),
        demuxer.pmt_pid != Some(pid),
        pid != 0,
        forall|i: int| 0 <= i < packets.len() ==> (#[trigger] packets[i]).fits(pid),
    ensures
        demuxer.after_segment(mux(pid, packets)) == (demuxer, muxed_audio(packets)),
        in_sync(mux(pid, packets)),
    decreases packets.len(),
{
    if packets.len() > 0 {
        let before = packets.drop_last();
        let last = packets[packets.len() - 1];
        assert forall|i: int| 0 <= i < before.len() implies (#[trigger] before[i]).fits(pid) by {
            assert(before[i] == packets[i]);
        }
        law_demuxing_undoes_muxing(demuxer, pid, before);
        assert(last.fits(pid));
        law_audio_packets_give_their_bytes(
            demuxer,
            pid,
            last.muxed,
            last.fields,
            last.header,
            last.bytes,
        );
        lemma_muxed_packet(last.muxed, pid);
        let packet = last.muxed.packet(pid);
        lemma_single_packet(demuxer, packet);
        law_segments_concatenate(demuxer, mux(pid, before), packet);
        lemma_in_sync_together(mux(pid, before), packet);
    }
}

/// A table as it is written into a packet: behind the pointer and what it skips, the identifier of
/// the table, the length of what follows, the table itself, its checksum, and stuffing.
pub open spec fn table_payload(
    skipped: Seq<u8>,
    table_id: u8,
    flags: nat,
    table: Seq<u8>,
    checksum: Seq<u8>,
    stuffing: Seq<u8>,
) -> Seq<u8> {
    let len = table.len() + checksum.len();
    seq![skipped.len() as u8] + skipped + seq![
        table_id,
        (flags * 16 + len / 256) as u8,
        (len % 256) as u8,
    ] + table + checksum + stuffing
}

proof fn lemma_table_payload(
    skipped: Seq<u8>,
    table_id: u8,
    flags: nat,
    table: Seq<u8>,
    checksum: Seq<u8>,
    stuffing: Seq<u8>,
)
    requires
        skipped.len() <= 255,
        flags < 16,
        checksum.len() == 4,
        table.len() + 4 < 4096,
    ensures
        ({
            let len = table.len() + 4;
            let section = psi_section_of(
                table_payload(skipped, table_id, flags, table, checksum, stuffing),
                table_id,
            );
            &&& section is Some
            &&& section->0 == seq![
                table_id,
                (flags * 16 + len / 256) as u8,
                (len % 256) as u8,
            ] + table
        }),
{
    let len = table.len() + 4;
    let payload = table_payload(skipped, table_id, flags, table, checksum, stuffing);
    let head = seq![table_id, (flags * 16 + len / 256) as u8, (len % 256) as u8];
    assert(payload[0] == skipped.len());
    let section = payload.skip(1 + skipped.len() as int);
    assert(section =~= head + table + checksum + stuffing);
    assert(section[0] == table_id);
    assert(section[1] == head[1] && section[2] == head[2]);
    assert(section[1] as int % 16 == len / 256);
    assert(length_of(section[1], section[2]) == len);
    assert(section.take(3 + table.len() as int) =~= head + table);
}

/// The programs of an association table: number and packet identifier of each.
pub open spec fn program_entries(programs: Seq<(u16, u16)>) -> Seq<u8>
    decreases programs.len(),
{
    if programs.len() == 0 {
        Seq::empty()
    } else {
        let (number, pid) = programs[0];
        seq![
            (number / 256) as u8,
            (number % 256) as u8,
            (224 + pid / 256) as u8,
            (pid % 256) as u8,
        ] + program_entries(programs.drop_first())
    }
}

proof fn lemma_program_entries(programs: Seq<(u16, u16)>, k: int)
    requires
        0 <= k < programs.len(),
        forall|i: int| 0 <= i < programs.len() ==> (#[trigger] programs[i]).1 < 0x2000,
        forall|i: int| 0 <= i < k ==> (#[trigger] programs[i]).0 == 0,
        programs[k].0 != 0,
    ensures
        first_program(program_entries(programs)) == Some(programs[k].1),
    decreases k,
{
    let entries = program_entries(programs);
    let (number, pid) = programs[0];
    let rest = programs.drop_first();
    assert(entries[0] == number / 256 && entries[1] == number % 256);
    assert(entries[2] as int % 32 == pid / 256);
    assert(entries[3] == pid % 256);
    if k == 0 {
        assert(number != 0);
        assert(entries[0] != 0 || entries[1] != 0);
    } else {
        assert(programs[0].0 == 0);
        assert(entries.skip(4) =~= program_entries(rest));
        assert forall|i: int| 0 <= i < rest.len() implies (#[trigger] rest[i]).1 < 0x2000 by {
            assert(rest[i] == programs[i + 1]);
        }
        assert forall|i: int| 0 <= i < k - 1 implies (#[trigger] rest[i]).0 == 0 by {
            assert(rest[i] == programs[i + 1]);
        }
        lemma_program_entries(rest, k - 1);
    }
}

/// An association table leads to the program map of the first program in it that has a number.
pub proof fn law_the_first_program_is_taken(
    demuxer: TsDemuxer,
    muxed: Muxed,
    skipped: Seq<u8>,
    flags: nat,
    head: Seq<u8>,
    programs: Seq<(u16, u16)>,
    k: int,
    checksum: Seq<u8>,
    stuffing: Seq<u8>,
)
    requires
        muxed.fits(0),
        muxed.starts,
        muxed.payload == table_payload(
            skipped,
            0,
            flags,
            head + program_entries(programs),
            checksum,
            stuffing,
        ),
        skipped.len() <= 255,
        flags < 16,
        head.len() == 5,
        checksum.len() == 4,
        head.len() + program_entries(programs).len() + 4 < 4096,
        0 <= k < programs.len(),
        forall|i: int| 0 <= i < programs.len() ==> (#[trigger] programs[i]).1 < 0x2000,
        forall|i: int| 0 <= i < k ==> (#[trigger] programs[i]).0 == 0,
        programs[k].0 != 0,
    ensures
        demuxer.after_packet(muxed.packet(0)) == (
            TsDemuxer { pmt_pid: Some(programs[k].1), ..demuxer },
            Seq::<u8>::empty(),
        ),
{
    lemma_muxed_packet(muxed, 0);
    let table = head + program_entries(programs);
    lemma_table_payload(skipped, 0, flags, table, checksum, stuffing);
    let section = psi_section_of(muxed.payload, 0)->0;
    assert(section.skip(8) =~= program_entries(programs));
    lemma_program_entries(programs, k);
}

/// The streams of a program map: kind, packet identifier and description of each.
pub open spec fn stream_entries(streams: Seq<(u8, u16, Seq<u8>)>) -> Seq<u8>
    decreases streams.len(),
{
    if streams.len() == 0 {
        Seq::empty()
    } else {
        let (kind, pid, about) = streams[0];
        seq![
            kind,
            (224 + pid / 256) as u8,
            (pid % 256) as u8,
            (240 + about.len() / 256) as u8,
            (about.len() % 256) as u8,
        ] + about + stream_entries(streams.drop_first())
    }
}

/// The kinds and packet identifiers that were written are those that are read.
proof fn lemma_stream_entries(section: Seq<u8>, index: int, streams: Seq<(u8, u16, Seq<u8>)>)
    requires
        0 <= index <= section.len(),
        section.skip(index) == stream_entries(streams),
        forall|i: int|
            0 <= i < streams.len() ==> (#[trigger] streams[i]).1 < 0x2000 && streams[i].2.len()
                < 4096,
    ensures
        elementary_streams(section, index).len() == streams.len(),
        forall|i: int|
            0 <= i < streams.len() ==> #[trigger] elementary_streams(section, index)[i] == (
                streams[i].0,
                streams[i].1,
            ),
    decreases streams.len(),
{
    if streams.len() > 0 {
        let (kind, pid, about) = streams[0];
        let rest = streams.drop_first();
        let entries = section.skip(index);
        assert(streams[0].1 < 0x2000 && streams[0].2.len() < 4096);
        let first = seq![
            kind,
            (224 + pid / 256) as u8,
            (pid % 256) as u8,
            (240 + about.len() / 256) as u8,
            (about.len() % 256) as u8,
        ];
        assert(entries == first + about + stream_entries(rest));
        assert(entries.len() == section.len() - index);
        assert forall|i: int| 0 <= i < 5 implies first[i] == #[trigger] entries[i] && entries[i]
            == section[index + i] by {}
        assert(entries[0] == kind && entries[0] == section[index]);
        assert(entries[1] as int % 32 == pid / 256 && entries[1] == section[index + 1]);
        assert(entries[2] == pid % 256 && entries[2] == section[index + 2]);
        assert(entries[3] as int % 16 == about.len() / 256 && entries[3] == section[index + 3]);
        assert(entries[4] == about.len() % 256 && entries[4] == section[index + 4]);
        let next = index + 5 + about.len();
        let tail = stream_entries(rest);
        let skipped = 5 + about.len() as int;
        assert(entries.len() == skipped + tail.len());
        assert(entries.skip(skipped) =~= tail) by {
            assert forall|i: int| 0 <= i < tail.len() implies entries.skip(skipped)[i]
                == #[trigger] tail[i] by {
                assert(entries[skipped + i] == (first + about + tail)[skipped + i]);
            }
        }
        assert(section.skip(next) =~= entries.skip(skipped));
        assert forall|i: int| 0 <= i < rest.len() implies (#[trigger] rest[i]).1 < 0x2000
            && rest[i].2.len() < 4096 by {
            assert(rest[i] == streams[i + 1]);
        }
        lemma_stream_entries(section, next, rest);
        let found = elementary_streams(section, index);
        let others = elementary_streams(section, next);
        assert(found == seq![(kind, pid)] + others);
        assert forall|i: int| 0 <= i < streams.len() implies #[trigger] found[i] == (
            streams[i].0,
            streams[i].1,
        ) by {
            if i > 0 {
                assert(found[i] == others[i - 1]);
                assert(rest[i - 1] == streams[i]);
            }
        }
    } else {
        assert(section.skip(index).len() == 0);
    }
}

proof fn lemma_first_stream(streams: Seq<(u8, u16)>, kinds: Set<u8>, k: int)
    requires
        0 <= k <= streams.len(),
        forall|i: int| 0 <= i < k ==> !kinds.contains((#[trigger] streams[i]).0),
        k < streams.len() ==> kinds.contains(streams[k].0),
    ensures
        first_stream(streams, kinds) == (if k < streams.len() {
            Some(streams[k].1)
        } else {
            None
        }),
    decreases k,
{
    if k > 0 {
        let rest = streams.drop_first();
        assert(!kinds.contains(streams[0].0));
        assert forall|i: int| 0 <= i < k - 1 implies !kinds.contains((#[trigger] rest[i]).0) by {
            assert(rest[i] == streams[i + 1]);
        }
        lemma_first_stream(rest, kinds, k - 1);
    }
}

/// Which of the streams of a program map is the one to play: the first AAC stream, and where there
/// is none the first MPEG audio stream.
pub open spec fn is_audio_of(streams: Seq<(u8, u16, Seq<u8>)>, k: int) -> bool {
    &&& 0 <= k < streams.len()
    &&& if exists|i: int| 0 <= i < streams.len() && (#[trigger] streams[i]).0 == 0x0F {
        streams[k].0 == 0x0F && (forall|i: int| 0 <= i < k ==> (#[trigger] streams[i]).0 != 0x0F)
    } else {
        (streams[k].0 == 0x03 || streams[k].0 == 0x04) && (forall|i: int|
            0 <= i < k ==> (#[trigger] streams[i]).0 != 0x03 && streams[i].0 != 0x04)
    }
}

proof fn lemma_preferred(streams: Seq<(u8, u16, Seq<u8>)>, found: Seq<(u8, u16)>, k: int)
    requires
        is_audio_of(streams, k),
        found.len() == streams.len(),
        forall|i: int|
            0 <= i < streams.len() ==> #[trigger] found[i] == (streams[i].0, streams[i].1),
    ensures
        preferred_stream(found) == Some(streams[k].1),
{
    assert(found[k] == (streams[k].0, streams[k].1));
    if exists|i: int| 0 <= i < streams.len() && (#[trigger] streams[i]).0 == 0x0F {
        assert forall|i: int| 0 <= i < k implies !aac_kinds().contains((#[trigger] found[i]).0) by {
            assert(streams[i].0 != 0x0F);
        }
        lemma_first_stream(found, aac_kinds(), k);
    } else {
        assert forall|i: int| 0 <= i < found.len() implies !aac_kinds().contains(
            (#[trigger] found[i]).0,
        ) by {
            assert(streams[i].0 != 0x0F);
        }
        lemma_first_stream(found, aac_kinds(), found.len() as int);
        assert forall|i: int| 0 <= i < k implies !mpeg_kinds().contains((#[trigger] found[i]).0) by {
            assert(streams[i].0 != 0x03 && streams[i].0 != 0x04);
        }
        lemma_first_stream(found, mpeg_kinds(), k);
    }
}

/// A program map: behind its head the length of what it says about the program, that itself, and
/// the streams.
pub open spec fn program_map(
    head: Seq<u8>,
    about: Seq<u8>,
    streams: Seq<(u8, u16, Seq<u8>)>,
) -> Seq<u8> {
    head + seq![(240 + about.len() / 256) as u8, (about.len() % 256) as u8] + about
        + stream_entries(streams)
}

proof fn lemma_program_map(
    section: Seq<u8>,
    start: Seq<u8>,
    head: Seq<u8>,
    about: Seq<u8>,
    streams: Seq<(u8, u16, Seq<u8>)>,
)
    requires
        start.len() == 3,
        head.len() == 7,
        about.len() < 4096,
        section == start + program_map(head, about, streams),
    ensures
        section.len() >= 12,
        length_of(section[10], section[11]) == about.len(),
        12 + about.len() <= section.len(),
        section.skip(12 + about.len() as int) == stream_entries(streams),
{
    let lens = seq![(240 + about.len() / 256) as u8, (about.len() % 256) as u8];
    let table = program_map(head, about, streams);
    assert(table[7] == lens[0] && table[8] == lens[1]);
    assert(section[10] == table[7] && section[11] == table[8]);
    assert(section[10] as int % 16 == about.len() / 256);
    assert(section.skip(12 + about.len() as int) =~= stream_entries(streams));
}

/// A program map leads to the first AAC stream in it, and where it lists none to the first MPEG
/// audio stream, whatever other streams and descriptions it holds.
#[verifier::spinoff_prover]
pub proof fn law_the_audio_stream_is_taken(
    demuxer: TsDemuxer,
    pid: u16,
    muxed: Muxed,
    skipped: Seq<u8>,
    flags: nat,
    head: Seq<u8>,
    about: Seq<u8>,
    streams: Seq<(u8, u16, Seq<u8>)>,
    k: int,
    checksum: Seq<u8>,
    stuffing: Seq<u8>,
)
    requires
        demuxer.pmt_pid == Some(pid),
        pid != 0,
        muxed.fits(pid),
        muxed.starts,
        muxed.payload == table_payload(
            skipped,
            2,
            flags,
            program_map(head, about, streams),
            checksum,
            stuffing,
        ),
        skipped.len() <= 255,
        flags < 16,
        head.len() == 7,
        about.len() < 4096,
        checksum.len() == 4,
        program_map(head, about, streams).len() + 4 < 4096,
        forall|i: int|
            0 <= i < streams.len() ==> (#[trigger] streams[i]).1 < 0x2000 && streams[i].2.len()
                < 4096,
        is_audio_of(streams, k),
    ensures
        demuxer.after_packet(muxed.packet(pid)) == (
            TsDemuxer { audio_pid: Some(streams[k].1), ..demuxer },
            Seq::<u8>::empty(),
        ),
{
    lemma_muxed_packet(muxed, pid);
    let table = program_map(head, about, streams);
    lemma_table_payload(skipped, 2, flags, table, checksum, stuffing);
    let len = table.len() + 4;
    let start = seq![2u8, (flags * 16 + len / 256) as u8, (len % 256) as u8];
    let section = psi_section_of(muxed.payload, 2)->0;
    lemma_program_map(section, start, head, about, streams);
    let index = 12 + about.len() as int;
    lemma_stream_entries(section, index, streams);
    lemma_preferred(streams, elementary_streams(section, index), k);
    assert(pmt_audio(muxed.payload) == Some(streams[k].1));
    assert(muxed.payload.len() > 0);
}

/// Packets that are marked as damaged, that carry no payload, or that belong to neither a table nor
/// the audio stream, and parts of tables that do not begin in their packet, change nothing and give
/// nothing.
pub proof fn law_other_packets_are_ignored(demuxer: TsDemuxer, packet: Seq<u8>)
    requires
        packet.len() == 188,
        ({
            let pid = (packet[1] as int % 32) * 256 + packet[2];
            let table = pid == 0 || demuxer.pmt_pid == Some(pid as u16);
            ||| packet[1] >= 0x80
            ||| (packet[3] as int / 16) % 4 == 0
            ||| (packet[3] as int / 16) % 4 == 2
            ||| !table && demuxer.audio_pid != Some(pid as u16)
            ||| table && (packet[1] as int / 64) % 2 == 0
        }),
    ensures
        demuxer.after_packet(packet) == (demuxer, Seq::<u8>::empty()),
{
}

/// What stands before the first sync byte is skipped, and so is a rest that is no whole packet.
pub proof fn law_demuxing_finds_its_place(
    demuxer: TsDemuxer,
    junk: Seq<u8>,
    ts: Seq<u8>,
    rest: Seq<u8>,
)
    requires
        forall|i: int| 0 <= i < junk.len() ==> #[trigger] junk[i] != 0x47,
        in_sync(ts),
        rest.len() < 188,
    ensures
        demuxer.after_segment(junk + ts) == demuxer.after_segment(ts),
        demuxer.after_segment(ts + rest) == demuxer.after_segment(ts),
    decreases junk.len(),
{
    let (between, head) = demuxer.after_segment(ts);
    law_segments_concatenate(demuxer, ts, rest);
    assert(between.after_segment(rest) == (between, Seq::<u8>::empty()));
    assert(head + Seq::<u8>::empty() =~= head);
    if junk.len() > 0 {
        let less = junk.drop_first();
        assert forall|i: int| 0 <= i < less.len() implies #[trigger] less[i] != 0x47 by {
            assert(less[i] == junk[i + 1]);
        }
        law_demuxing_finds_its_place(demuxer, less, ts, rest);
        let whole = junk + ts;
        assert(whole[0] == junk[0]);
        assert(whole.skip(1) =~= less + ts);
    } else {
        assert(junk + ts =~= ts);
    }
}

} // verus!
