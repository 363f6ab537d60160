//! The bytes of a track while they arrive, and the readers that follow them.
//!
//! A decoder reads from the beginning while the transfer still appends at the end. What a reader
//! cannot answer yet is answered by waiting until the buffer changes.

use vstd::prelude::*;

use crate::mpegts::append_bytes;

verus! {

/// The bytes that have arrived so far.
#[derive(Debug)]
pub struct ProgressiveBuffer {
    data: Vec<u8>,
    content_len: Option<u64>,
    finished: bool,
    error: Option<String>,
    /// Readers take this number when they are created. Changing it invalidates the existing
    /// readers and keeps the bytes and the transfer for a replacement.
    reader_epoch: u64,
}

pub struct BufferView {
    pub data: Seq<u8>,
    pub content_len: Option<u64>,
    pub finished: bool,
    pub error: Option<Seq<char>>,
    pub reader_epoch: u64,
}

/// A position in the buffer.
#[derive(Clone, Copy, Debug, PartialEq, Eq, Structural)]
pub struct ProgressiveReader {
    pub pos: u64,
    pub reader_epoch: u64,
}

/// What a read gives.
#[derive(Debug)]
pub enum ReadOutcome {
    /// So many bytes were read; none at the end of the data.
    Ready(usize),
    /// Nothing can be read before the buffer changes.
    Wait,
    /// The reader was replaced.
    Cancelled,
    /// The transfer failed with this message.
    Failed(String),
}

pub enum ReadOutcomeView {
    Ready(nat),
    Wait,
    Cancelled,
    Failed(Seq<char>),
}

/// Where to seek to.
#[derive(Clone, Copy, Debug, PartialEq, Eq, Structural)]
pub enum SeekTarget {
    Start(u64),
    Current(i64),
    End(i64),
}

/// What a seek gives.
#[derive(Clone, Copy, Debug, PartialEq, Eq, Structural)]
pub enum SeekOutcome {
    /// The reader is at this position.
    At(u64),
    /// The length is not known before the buffer changes.
    Wait,
    /// The reader was replaced.
    Cancelled,
    /// The position would be negative or too large.
    InvalidOffset,
}

impl View for ReadOutcome {
    type V = ReadOutcomeView;

    open spec fn view(&self) -> ReadOutcomeView {
        match self {
            ReadOutcome::Ready(count) => ReadOutcomeView::Ready(*count as nat),
            ReadOutcome::Wait => ReadOutcomeView::Wait,
            ReadOutcome::Cancelled => ReadOutcomeView::Cancelled,
            ReadOutcome::Failed(message) => ReadOutcomeView::Failed(message@),
        }
    }
}

impl View for ProgressiveBuffer {
    type V = BufferView;

    closed spec fn view(&self) -> BufferView {
        BufferView {
            data: self.data@,
            content_len: self.content_len,
            finished: self.finished,
            error: match self.error {
                Some(message) => Some(message@),
                None => None,
            },
            reader_epoch: self.reader_epoch,
        }
    }
}

impl BufferView {
    pub open spec fn empty(content_len: Option<u64>) -> BufferView {
        BufferView {
            data: Seq::empty(),
            content_len,
            finished: false,
            error: None,
            reader_epoch: 0,
        }
    }

    /// A new reader.
    pub open spec fn new_reader(self) -> ProgressiveReader {
        ProgressiveReader { pos: 0, reader_epoch: self.reader_epoch }
    }

    pub open spec fn pushed(self, chunk: Seq<u8>) -> BufferView {
        BufferView { data: self.data + chunk, ..self }
    }

    /// Every reader that exists is replaced.
    pub open spec fn readers_cancelled(self) -> BufferView {
        BufferView {
            reader_epoch: if self.reader_epoch == u64::MAX {
                0
            } else {
                (self.reader_epoch + 1) as u64
            },
            ..self
        }
    }

    /// The length, as far as it is known.
    pub open spec fn known_len(self) -> Option<int> {
        match self.content_len {
            Some(len) => Some(len as int),
            None => if self.finished {
                Some(self.data.len() as int)
            } else {
                None
            },
        }
    }
}

/// The smaller of two numbers.
pub open spec fn least(a: int, b: int) -> int {
    if a < b {
        a
    } else {
        b
    }
}

/// What a read of at most `room` bytes gives.
pub open spec fn read_outcome(
    buffer: BufferView,
    reader: ProgressiveReader,
    room: nat,
) -> ReadOutcomeView {
    if room == 0 {
        ReadOutcomeView::Ready(0)
    } else if reader.reader_epoch != buffer.reader_epoch {
        ReadOutcomeView::Cancelled
    } else if reader.pos < buffer.data.len() {
        ReadOutcomeView::Ready(least(buffer.data.len() - reader.pos, room as int) as nat)
    } else {
        match buffer.error {
            Some(message) => ReadOutcomeView::Failed(message),
            None => if buffer.finished {
                ReadOutcomeView::Ready(0)
            } else {
                ReadOutcomeView::Wait
            },
        }
    }
}

/// The number of bytes that were read.
pub open spec fn bytes_read(outcome: ReadOutcomeView) -> nat {
    match outcome {
        ReadOutcomeView::Ready(count) => count,
        _ => 0,
    }
}

/// `out` with the first `count` bytes replaced by those of the data from `pos` on.
pub open spec fn filled(data: Seq<u8>, pos: int, count: nat, out: Seq<u8>) -> Seq<u8> {
    if count == 0 {
        out
    } else {
        data.subrange(pos, pos + count) + out.skip(count as int)
    }
}

/// The reader after a read.
pub open spec fn after_read(
    buffer: BufferView,
    reader: ProgressiveReader,
    room: nat,
) -> ProgressiveReader {
    ProgressiveReader {
        pos: (reader.pos + bytes_read(read_outcome(buffer, reader, room))) as u64,
        ..reader
    }
}

/// The position at `offset` from `base`, if it can be one.
pub open spec fn offset_from(base: int, offset: int) -> SeekOutcome {
    if 0 <= base + offset <= u64::MAX {
        SeekOutcome::At((base + offset) as u64)
    } else {
        SeekOutcome::InvalidOffset
    }
}

/// What a seek gives.
pub open spec fn seek_outcome(
    buffer: BufferView,
    reader: ProgressiveReader,
    target: SeekTarget,
) -> SeekOutcome {
    if reader.reader_epoch != buffer.reader_epoch {
        SeekOutcome::Cancelled
    } else {
        match target {
            SeekTarget::Start(offset) => SeekOutcome::At(offset),
            SeekTarget::Current(offset) => offset_from(reader.pos as int, offset as int),
            SeekTarget::End(offset) => match buffer.known_len() {
                Some(len) => offset_from(len, offset as int),
                None => SeekOutcome::Wait,
            },
        }
    }
}

impl ProgressiveBuffer {
    /// A buffer into which nothing has arrived.
    pub fn new(content_len: Option<u64>) -> (res: ProgressiveBuffer)
        ensures
            res@ == BufferView::empty(content_len),
    {
        ProgressiveBuffer {
            data: Vec::new(),
            content_len,
            finished: false,
            error: None,
            reader_epoch: 0,
        }
    }

    /// A reader at the beginning.
    pub fn reader(&self) -> (res: ProgressiveReader)
        ensures
            res == self@.new_reader(),
    {
        ProgressiveReader { pos: 0, reader_epoch: self.reader_epoch }
    }

    /// Cancels every reader created before this call without failing the transfer. New readers
    /// can use all bytes at once.
    pub fn cancel_current_readers(&mut self)
        ensures
            final(self)@ == old(self)@.readers_cancelled(),
    {
        self.reader_epoch = self.reader_epoch.wrapping_add(1);
    }

    /// Records the length that the server announced.
    pub fn set_content_len(&mut self, content_len: Option<u64>)
        ensures
            final(self)@ == (BufferView { content_len, ..old(self)@ }),
    {
        self.content_len = content_len;
    }

    /// Appends bytes that arrived.
    pub fn push(&mut self, chunk: &[u8])
        ensures
            final(self)@ == old(self)@.pushed(chunk@),
    {
        append_bytes(&mut self.data, chunk);
    }

    /// Records that everything has arrived.
    pub fn finish(&mut self)
        ensures
            final(self)@ == (BufferView { finished: true, ..old(self)@ }),
    {
        self.finished = true;
    }

    /// Records that the transfer failed.
    pub fn fail(&mut self, error: String)
        ensures
            final(self)@ == (BufferView { finished: true, error: Some(error@), ..old(self)@ }),
    {
        self.error = Some(error);
        self.finished = true;
    }
}

impl ProgressiveReader {
    /// Reads as many bytes as there are and fit. They stand at the front of `out`, the rest of
    /// which is unchanged.
    pub fn read(&mut self, buffer: &ProgressiveBuffer, out: &mut [u8]) -> (res: ReadOutcome)
        ensures
            res@ == read_outcome(buffer@, *old(self), old(out)@.len()),
            *final(self) == after_read(buffer@, *old(self), old(out)@.len()),
            final(self).pos == old(self).pos + bytes_read(res@),
            final(out)@ == filled(buffer@.data, old(self).pos as int, bytes_read(res@), old(out)@),
    {
        let room: usize = out.len();
        let len: usize = buffer.data.len();
        let ghost before = out@;
        if room == 0 {
            return ReadOutcome::Ready(0);
        }
        if self.reader_epoch != buffer.reader_epoch {
            return ReadOutcome::Cancelled;
        }
        if self.pos < len as u64 {
            let from: usize = self.pos as usize;
            let available: usize = len - from;
            let count: usize = if available < room {
                available
            } else {
                room
            };
            let mut i: usize = 0;
            assert(out@ =~= buffer.data@.subrange(from as int, from as int) + before.skip(0));
            while i < count
                invariant
                    i <= count,
                    count <= room == before.len() == out@.len(),
                    from + count <= len == buffer.data@.len(),
                    out@ == buffer.data@.subrange(from as int, from + i) + before.skip(i as int),
                decreases count - i,
            {
                out[i] = buffer.data[from + i];
                i = i + 1;
                assert(out@ =~= buffer.data@.subrange(from as int, from + i) + before.skip(
                    i as int,
                ));
            }
            self.pos = self.pos + count as u64;
            return ReadOutcome::Ready(count);
        }
        match &buffer.error {
            Some(message) => ReadOutcome::Failed(message.clone()),
            None => {
                if buffer.finished {
                    ReadOutcome::Ready(0)
                } else {
                    ReadOutcome::Wait
                }
            },
        }
    }

    /// Moves the reader. It stays where it is unless the outcome is a position.
    pub fn seek(&mut self, buffer: &ProgressiveBuffer, target: SeekTarget) -> (res: SeekOutcome)
        ensures
            res == seek_outcome(buffer@, *old(self), target),
            *final(self) == (match res {
                SeekOutcome::At(pos) => ProgressiveReader { pos, ..*old(self) },
                _ => *old(self),
            }),
    {
        if self.reader_epoch != buffer.reader_epoch {
            return SeekOutcome::Cancelled;
        }
        let outcome = match target {
            SeekTarget::Start(offset) => SeekOutcome::At(offset),
            SeekTarget::Current(offset) => checked_offset(self.pos, offset),
            SeekTarget::End(offset) => {
                let known: Option<u64> = match buffer.content_len {
                    Some(len) => Some(len),
                    None => {
                        if buffer.finished {
                            Some(buffer.data.len() as u64)
                        } else {
                            None
                        }
                    },
                };
                match known {
                    Some(len) => checked_offset(len, offset),
                    None => SeekOutcome::Wait,
                }
            },
        };
        if let SeekOutcome::At(pos) = outcome {
            self.pos = pos;
        }
        outcome
    }
}

/// The position at `offset` from `base`.
pub fn checked_offset(base: u64, offset: i64) -> (res: SeekOutcome)
    ensures
        res == offset_from(base as int, offset as int),
{
    if offset >= 0 {
        match base.checked_add(offset as u64) {
            Some(pos) => SeekOutcome::At(pos),
            None => SeekOutcome::InvalidOffset,
        }
    } else {
        let below: u64 = (-(offset + 1)) as u64 + 1;
        match base.checked_sub(below) {
            Some(pos) => SeekOutcome::At(pos),
            None => SeekOutcome::InvalidOffset,
        }
    }
}

/// Cancelling the readers of a buffer reaches every reader it had: each later read for at least
/// one byte, and each seek, is refused. Bytes, length and outcome of the transfer stay, and a new
/// reader begins at the first byte.
pub proof fn law_cancellation_keeps_the_buffer(
    buffer: BufferView,
    reader: ProgressiveReader,
    room: nat,
    target: SeekTarget,
)
    requires
        reader.reader_epoch == buffer.reader_epoch,
        room > 0,
    ensures
        ({
            let after = buffer.readers_cancelled();
            &&& after.data == buffer.data
            &&& after.content_len == buffer.content_len
            &&& after.finished == buffer.finished
            &&& after.error == buffer.error
            &&& read_outcome(after, reader, room) is Cancelled
            &&& seek_outcome(after, reader, target) is Cancelled
            &&& buffer.data.len() > 0 ==> read_outcome(after, after.new_reader(), room)
                == ReadOutcomeView::Ready(least(buffer.data.len() as int, room as int) as nat)
        }),
{
}

/// The buffer stays the same for a reader when more bytes arrive: a read that gave bytes gives at
/// least as many of the same bytes.
pub proof fn law_arriving_bytes_keep_what_was_read(
    buffer: BufferView,
    chunk: Seq<u8>,
    reader: ProgressiveReader,
    room: nat,
)
    requires
        bytes_read(read_outcome(buffer, reader, room)) > 0,
    ensures
        ({
            let count = bytes_read(read_outcome(buffer, reader, room)) as int;
            let after = buffer.pushed(chunk);
            &&& bytes_read(read_outcome(after, reader, room)) >= count
            &&& after.data.subrange(reader.pos as int, reader.pos + count) == buffer.data.subrange(
                reader.pos as int,
                reader.pos + count,
            )
        }),
{
    let count = bytes_read(read_outcome(buffer, reader, room)) as int;
    assert(buffer.pushed(chunk).data.subrange(reader.pos as int, reader.pos + count)
        =~= buffer.data.subrange(reader.pos as int, reader.pos + count));
}

/// Reads follow one another without gap or overlap: what two reads give, one after the other, is
/// what stands in the buffer from the first position on.
pub proof fn law_reads_are_consecutive(
    buffer: BufferView,
    reader: ProgressiveReader,
    first: nat,
    second: nat,
)
    requires
        buffer.data.len() <= u64::MAX,
        reader.pos <= buffer.data.len(),
    ensures
        ({
            let a = bytes_read(read_outcome(buffer, reader, first)) as int;
            let next = after_read(buffer, reader, first);
            let b = bytes_read(read_outcome(buffer, next, second)) as int;
            &&& next.pos == reader.pos + a
            &&& after_read(buffer, next, second).pos == reader.pos + a + b
            &&& buffer.data.subrange(reader.pos as int, reader.pos + a) + buffer.data.subrange(
                next.pos as int,
                next.pos + b,
            ) == buffer.data.subrange(reader.pos as int, reader.pos + a + b)
        }),
{
    let a = bytes_read(read_outcome(buffer, reader, first)) as int;
    let next = after_read(buffer, reader, first);
    let b = bytes_read(read_outcome(buffer, next, second)) as int;
    assert(buffer.data.subrange(reader.pos as int, reader.pos + a) + buffer.data.subrange(
        next.pos as int,
        next.pos + b,
    ) =~= buffer.data.subrange(reader.pos as int, reader.pos + a + b));
}

/// What happens to a buffer.
pub enum BufferEvent {
    Pushed(Seq<u8>),
    LengthSet(Option<u64>),
    ReadersCancelled,
    Finished,
    Failed(Seq<char>),
}

impl BufferView {
    /// The buffer after one event.
    pub open spec fn after_event(self, event: BufferEvent) -> BufferView {
        match event {
            BufferEvent::Pushed(chunk) => self.pushed(chunk),
            BufferEvent::LengthSet(content_len) => BufferView { content_len, ..self },
            BufferEvent::ReadersCancelled => self.readers_cancelled(),
            BufferEvent::Finished => BufferView { finished: true, ..self },
            BufferEvent::Failed(error) => BufferView {
                finished: true,
                error: Some(error),
                ..self
            },
        }
    }

    /// The buffer after events in this order.
    pub open spec fn after_events(self, events: Seq<BufferEvent>) -> BufferView
        decreases events.len(),
    {
        if events.len() == 0 {
            self
        } else {
            self.after_events(events.drop_last()).after_event(events.last())
        }
    }
}

/// The chunks that were pushed, put together in order.
pub open spec fn pushed_bytes(events: Seq<BufferEvent>) -> Seq<u8>
    decreases events.len(),
{
    if events.len() == 0 {
        Seq::empty()
    } else {
        let before = pushed_bytes(events.drop_last());
        match events.last() {
            BufferEvent::Pushed(chunk) => before + chunk,
            _ => before,
        }
    }
}

/// The reader after reads into so much room each, one after the other.
pub open spec fn after_reads(
    buffer: BufferView,
    reader: ProgressiveReader,
    rooms: Seq<nat>,
) -> ProgressiveReader
    decreases rooms.len(),
{
    if rooms.len() == 0 {
        reader
    } else {
        after_read(buffer, after_reads(buffer, reader, rooms.drop_last()), rooms.last())
    }
}

/// What these reads give, put together in order.
pub open spec fn read_bytes(
    buffer: BufferView,
    reader: ProgressiveReader,
    rooms: Seq<nat>,
) -> Seq<u8>
    decreases rooms.len(),
{
    if rooms.len() == 0 {
        Seq::empty()
    } else {
        let at = after_reads(buffer, reader, rooms.drop_last());
        let count = bytes_read(read_outcome(buffer, at, rooms.last()));
        read_bytes(buffer, reader, rooms.drop_last()) + buffer.data.subrange(
            at.pos as int,
            at.pos + count,
        )
    }
}

/// The room of all these reads together.
pub open spec fn total_room(rooms: Seq<nat>) -> nat
    decreases rooms.len(),
{
    if rooms.len() == 0 {
        0
    } else {
        total_room(rooms.drop_last()) + rooms.last()
    }
}

/// A buffer holds what it held before, then what was pushed; its epoch changes only when readers
/// are cancelled, and it has an error only once the transfer failed.
proof fn lemma_after_events(start: BufferView, events: Seq<BufferEvent>)
    ensures
        start.after_events(events).data == start.data + pushed_bytes(events),
        (forall|i: int| 0 <= i < events.len() ==> !(#[trigger] events[i] is ReadersCancelled))
            ==> start.after_events(events).reader_epoch == start.reader_epoch,
        (forall|i: int| 0 <= i < events.len() ==> !(#[trigger] events[i] is Failed))
            ==> start.after_events(events).error == start.error,
        (exists|i: int| 0 <= i < events.len() && #[trigger] events[i] is Finished)
            ==> start.after_events(events).finished,
        start.finished ==> start.after_events(events).finished,
    decreases events.len(),
{
    if events.len() == 0 {
        assert(start.data + pushed_bytes(events) =~= start.data);
    } else {
        let before = events.drop_last();
        lemma_after_events(start, before);
        assert(start.after_events(events).data =~= start.data + pushed_bytes(events));
        assert forall|i: int| 0 <= i < before.len() implies before[i] == #[trigger] events[i] by {}
        if exists|i: int| 0 <= i < events.len() && #[trigger] events[i] is Finished {
            let i = choose|i: int| 0 <= i < events.len() && #[trigger] events[i] is Finished;
            if i < before.len() {
                assert(before[i] is Finished);
            }
        }
        if forall|i: int| 0 <= i < events.len() ==> !(#[trigger] events[i] is ReadersCancelled) {
            assert forall|i: int| 0 <= i < before.len() implies !(
            #[trigger] before[i] is ReadersCancelled) by {
                assert(!(events[i] is ReadersCancelled));
            }
            assert(!(events[events.len() - 1] is ReadersCancelled));
        }
        if forall|i: int| 0 <= i < events.len() ==> !(#[trigger] events[i] is Failed) {
            assert forall|i: int| 0 <= i < before.len() implies !(#[trigger] before[i] is Failed) by {
                assert(!(events[i] is Failed));
            }
            assert(!(events[events.len() - 1] is Failed));
        }
    }
}

/// Events in two parts are those of the first part, then those of the second.
proof fn lemma_events_split(start: BufferView, events: Seq<BufferEvent>, made: int)
    requires
        0 <= made <= events.len(),
    ensures
        start.after_events(events) == start.after_events(events.take(made)).after_events(
            events.skip(made),
        ),
    decreases events.len(),
{
    if made == events.len() {
        assert(events.take(made) =~= events);
    } else {
        lemma_events_split(start, events.drop_last(), made);
        assert(events.drop_last().take(made) =~= events.take(made));
        assert(events.drop_last().skip(made) =~= events.skip(made).drop_last());
        assert(events.skip(made).last() == events.last());
    }
}

/// Reads from the beginning give the data as far as the room goes.
proof fn lemma_reads_from_the_beginning(
    buffer: BufferView,
    reader: ProgressiveReader,
    rooms: Seq<nat>,
)
    requires
        reader == buffer.new_reader(),
        buffer.data.len() <= u64::MAX,
    ensures
        after_reads(buffer, reader, rooms).reader_epoch == buffer.reader_epoch,
        after_reads(buffer, reader, rooms).pos == least(
            buffer.data.len() as int,
            total_room(rooms) as int,
        ),
        read_bytes(buffer, reader, rooms) == buffer.data.take(
            after_reads(buffer, reader, rooms).pos as int,
        ),
    decreases rooms.len(),
{
    if rooms.len() > 0 {
        lemma_reads_from_the_beginning(buffer, reader, rooms.drop_last());
        let at = after_reads(buffer, reader, rooms.drop_last());
        let count = bytes_read(read_outcome(buffer, at, rooms.last()));
        assert(count == least(buffer.data.len() - at.pos, rooms.last() as int));
        assert(buffer.data.take(at.pos as int) + buffer.data.subrange(at.pos as int, at.pos + count)
            =~= buffer.data.take(at.pos + count));
    } else {
        assert(buffer.data.take(0) =~= Seq::<u8>::empty());
    }
}

/// How the bytes were cut into chunks does not matter: pushing two chunks is pushing them as one,
/// and an empty chunk adds nothing.
pub proof fn law_chunks_do_not_matter(buffer: BufferView, first: Seq<u8>, second: Seq<u8>)
    ensures
        buffer.pushed(first).pushed(second) == buffer.pushed(first + second),
        buffer.pushed(Seq::empty()) == buffer,
{
    assert(buffer.data + first + second =~= buffer.data + (first + second));
    assert(buffer.data + Seq::<u8>::empty() =~= buffer.data);
}

/// A reader gives back exactly what was pushed. Once a transfer that never failed has finished,
/// take any reader that was made after the last cancellation and has not read yet. Whatever the
/// sizes of its reads, none of them fails, is refused or waits; together they give the pushed bytes
/// from the first on, as many as there is room for; and the end is reported exactly when all of
/// them were given. What other readers read before does not matter: a read leaves the buffer as it
/// is.
pub proof fn law_readers_give_back_what_was_pushed(
    content_len: Option<u64>,
    events: Seq<BufferEvent>,
    made: int,
    rooms: Seq<nat>,
    room: nat,
)
    requires
        0 <= made <= events.len(),
        exists|i: int| 0 <= i < events.len() && #[trigger] events[i] is Finished,
        forall|i: int| 0 <= i < events.len() ==> !(#[trigger] events[i] is Failed),
        forall|i: int| made <= i < events.len() ==> !(#[trigger] events[i] is ReadersCancelled),
        pushed_bytes(events).len() <= u64::MAX,
        room > 0,
    ensures
        ({
            let empty = BufferView::empty(content_len);
            let reader = empty.after_events(events.take(made)).new_reader();
            let buffer = empty.after_events(events);
            let bytes = pushed_bytes(events);
            let got = read_bytes(buffer, reader, rooms);
            let next = read_outcome(buffer, after_reads(buffer, reader, rooms), room);
            &&& got == bytes.take(least(bytes.len() as int, total_room(rooms) as int))
            &&& total_room(rooms) >= bytes.len() ==> got == bytes
            &&& next is Ready
            &&& next == ReadOutcomeView::Ready(0) <==> got == bytes
        }),
{
    let empty = BufferView::empty(content_len);
    let early = empty.after_events(events.take(made));
    let reader = early.new_reader();
    let buffer = empty.after_events(events);
    let bytes = pushed_bytes(events);
    lemma_after_events(empty, events);
    assert(buffer.data =~= bytes);
    lemma_events_split(empty, events, made);
    let later = events.skip(made);
    assert forall|i: int| 0 <= i < later.len() implies !(
    #[trigger] later[i] is ReadersCancelled) by {
        assert(later[i] == events[made + i]);
    }
    lemma_after_events(early, later);
    lemma_reads_from_the_beginning(buffer, reader, rooms);
    assert(bytes.take(bytes.len() as int) =~= bytes);
}

/// A reader waits only for bytes that may still come: not once the transfer finished or failed.
pub proof fn law_finished_buffers_do_not_block(
    buffer: BufferView,
    reader: ProgressiveReader,
    room: nat,
    target: SeekTarget,
)
    requires
        buffer.finished,
    ensures
        !(read_outcome(buffer, reader, room) is Wait),
        !(seek_outcome(buffer, reader, target) is Wait),
{
}

} // verus!
