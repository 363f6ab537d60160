//! What is kept: the bytes of a stream, the log, the token, and the account of a session.

use std::path::PathBuf;

use vstd::prelude::*;

use crate::api::SettingsView;
use crate::error::AppError;
use crate::logging::BoundedLog;
use crate::progressive::{
    after_read, filled, read_outcome, seek_outcome, BufferView, ProgressiveReader, ReadOutcomeView,
    SeekOutcome, SeekTarget,
};
use crate::session::EstablishingView;
use crate::storage::{TokenPersistence, TokenSource, TokenStore};
use crate::text::{trim_end, CharSet};

verus! {

/// A read takes the bytes that stand next in the buffer, as many as there are and as fit, and goes
/// on behind them. What lay behind them in the target stays.
pub proof fn law_reads_take_what_is_next(
    buffer: BufferView,
    reader: ProgressiveReader,
    out: Seq<u8>,
    i: int,
)
    requires
        reader.reader_epoch == buffer.reader_epoch,
        reader.pos < buffer.data.len() <= u64::MAX,
        out.len() > 0,
    ensures
        ({
            let left = buffer.data.len() - reader.pos;
            let count = if left < out.len() {
                left
            } else {
                out.len() as int
            };
            let after = filled(buffer.data, reader.pos as int, count as nat, out);
            &&& read_outcome(buffer, reader, out.len()) == ReadOutcomeView::Ready(count as nat)
            &&& after_read(buffer, reader, out.len()).pos == reader.pos + count
            &&& after_read(buffer, reader, out.len()).reader_epoch == reader.reader_epoch
            &&& after.len() == out.len()
            &&& 0 <= i < count ==> after[i] == buffer.data[reader.pos + i]
            &&& count <= i < out.len() ==> after[i] == out[i]
        }),
{
}

/// At the end of what has arrived a read waits while more is to come, tells the failure of a
/// transfer that failed, and is at its end when all has arrived. A reader that was replaced gets
/// nothing more.
pub proof fn law_reads_wait_for_more(
    buffer: BufferView,
    reader: ProgressiveReader,
    room: nat,
    error: Seq<char>,
)
    requires
        room > 0,
    ensures
        ({
            let outcome = read_outcome(buffer, reader, room);
            let current = reader.reader_epoch == buffer.reader_epoch;
            let at_end = current && reader.pos >= buffer.data.len();
            &&& !current ==> outcome is Cancelled
            &&& at_end && buffer.error == Some(error) ==> outcome == ReadOutcomeView::Failed(error)
            &&& at_end && buffer.error is None && !buffer.finished ==> outcome is Wait
            &&& at_end && buffer.error is None && buffer.finished ==> outcome
                == ReadOutcomeView::Ready(0)
            &&& reader.pos < buffer.data.len() ==> !(outcome is Wait)
            &&& current ==> read_outcome(buffer.readers_cancelled(), reader, room) is Cancelled
            &&& buffer.new_reader().pos == 0
            &&& !(read_outcome(buffer, buffer.new_reader(), room) is Cancelled)
        }),
{
}

/// Seeking counts from the start, from where the reader is, or from the end. The end is that of
/// the whole content where its length was told, else that of the data once all has arrived, and is
/// waited for otherwise. There is nothing before the start.
pub proof fn law_seeks_count_from_three_places(
    buffer: BufferView,
    reader: ProgressiveReader,
    position: u64,
    offset: i64,
    len: u64,
)
    requires
        reader.reader_epoch == buffer.reader_epoch,
    ensures
        seek_outcome(buffer, reader, SeekTarget::Start(position)) == SeekOutcome::At(position),
        position == reader.pos + offset ==> seek_outcome(
            buffer,
            reader,
            SeekTarget::Current(offset),
        ) == SeekOutcome::At(position),
        reader.pos + offset < 0 ==> seek_outcome(buffer, reader, SeekTarget::Current(offset))
            == SeekOutcome::InvalidOffset,
        buffer.content_len == Some(len) && position == len + offset ==> seek_outcome(
            buffer,
            reader,
            SeekTarget::End(offset),
        ) == SeekOutcome::At(position),
        buffer.content_len is None && buffer.finished && position == buffer.data.len() + offset
            ==> seek_outcome(buffer, reader, SeekTarget::End(offset)) == SeekOutcome::At(position),
        buffer.content_len is None && !buffer.finished ==> seek_outcome(
            buffer,
            reader,
            SeekTarget::End(offset),
        ) == SeekOutcome::Wait,
        buffer.content_len == Some(len) && len + offset < 0 ==> seek_outcome(
            buffer,
            reader,
            SeekTarget::End(offset),
        ) == SeekOutcome::InvalidOffset,
{
}

/// The log goes on where its file ends. A file beyond a mebibyte is emptied when it is opened, and
/// one that a line would take beyond it is emptied before the line; any other line is added.
pub proof fn law_lines_are_added_to_the_log(log: BoundedLog, size: u64, len: usize)
    requires
        log.bytes_written <= 1024 * 1024,
        len <= 1024 * 1024,
    ensures
        size <= 1024 * 1024 ==> BoundedLog::opened(size).bytes_written == size,
        size > 1024 * 1024 ==> BoundedLog::opened(size).bytes_written == 0,
        log.bytes_written + len <= 1024 * 1024 ==> log.after_line(len, len).bytes_written
            == log.bytes_written + len,
        log.bytes_written + len > 1024 * 1024 ==> log.after_line(len, len).bytes_written == len,
{
}

/// A token that is in the keyring or in the file is kept, and it is told where; the user is told
/// of a failure only where neither holds it. Where a plain file is preferred the keyring is left
/// alone.
pub proof fn law_tokens_are_kept_where_they_can_be(
    store: TokenStore,
    path: PathBuf,
    error: AppError,
)
    ensures
        store.prefer_plain_file ==> {
            &&& store.kept(true, Ok(path)) == Ok::<_, AppError>(TokenPersistence::PlainFile(path))
            &&& store.kept(true, Err(error)) == Err::<TokenPersistence, _>(error)
            &&& store.reads_from(true) == TokenSource::PlainFile
        },
        !store.prefer_plain_file ==> {
            &&& store.kept(true, Ok(path)) == Ok::<_, AppError>(
                TokenPersistence::KeyringWithPlainBackup(path),
            )
            &&& store.kept(true, Err(error)) == Ok::<_, AppError>(TokenPersistence::Keyring)
            &&& store.reads_from(true) == TokenSource::Keyring
        },
        store.kept(false, Ok(path)) == Ok::<_, AppError>(TokenPersistence::PlainFile(path)),
        store.kept(false, Err(error)) == Err::<TokenPersistence, _>(error),
        store.reads_from(false) == TokenSource::PlainFile,
{
}

/// A session is that of the user whom the status named, with the token at hand, which is saved
/// from then on, and with the server that the library names or else the one of the status. Its
/// streams are asked for with that user, that token and that server.
pub proof fn law_sessions_belong_to_their_user(
    establishing: EstablishingView,
    user_id: u64,
    status: SettingsView,
    library: SettingsView,
)
    ensures
        ({
            let session = establishing.identified(user_id, status).completed(library);
            let server = if library.streaming_server.len() > 0 {
                library.streaming_server
            } else {
                status.streaming_server
            };
            &&& session.user_id == user_id
            &&& session.api == establishing.api
            &&& session.persistence_enabled
            &&& session.persisted_access_token == establishing.persisted_access_token
            &&& session.settings.streaming_server == server
            &&& session.context().user_id == user_id
            &&& session.context().access_token == establishing.api.token.access_token
            &&& session.context().streaming_server == trim_end(server, CharSet::Slash)
            &&& session.context().platform == establishing.api.client_name
            &&& session.context().version == establishing.api.version
        }),
{
}

/// An error is told by what it concerns and by its detail, and that of a download also by where it
/// was to go.
pub proof fn law_errors_are_told(detail: String, path: String, source: AppError)
    ensures
        AppError::Api(detail).spec_message() == "api error: "@ + detail@,
        AppError::Auth(detail).spec_message() == "authentication error: "@ + detail@,
        AppError::Library(detail).spec_message() == "invalid library response: "@ + detail@,
        AppError::MissingToken.spec_message() == "missing token; log in again"@,
        AppError::Playback(detail).spec_message() == "playback error: "@ + detail@,
        AppError::Http(detail).spec_message() == "http error: "@ + detail@,
        AppError::Io(detail).spec_message() == "io error: "@ + detail@,
        AppError::Json(detail).spec_message() == "json error: "@ + detail@,
        AppError::TomlDecode(detail).spec_message() == "toml decode error: "@ + detail@,
        AppError::TomlEncode(detail).spec_message() == "toml encode error: "@ + detail@,
        (AppError::Download { path, source: Box::new(source) }).spec_message()
            == "download failed for "@ + path@ + ": "@ + source.spec_message(),
{
}

} // verus!
