//! Requests to the iBroadcast servers: what is sent, what a reply means, and the addresses that
//! tracks are streamed from.

use vstd::prelude::*;
use vstd::utf8::encode_utf8;

use crate::config::Bitrate;
use crate::error::{prefixed, AppError, Result};
use crate::json::{
    field_of, parsed_json, referred, unsigned_value, value_to_u64, Json, JsonView,
};
use crate::library::{Library, LibraryView, Track};
use crate::oauth::{TokenSet, TokenView};
use crate::text::{
    chars_of, decimal, extend_chars, join, join_chars, keep_nonempty, nonempty, parse_u64,
    parsed_u64, push_decimal, push_signed_decimal, signed_decimal, split, split_chars, string_of,
    trim, trim_chars, trim_end, trim_end_chars, trim_start, views, CharSet,
};

verus! {

broadcast use vstd::seq_lib::group_seq_properties;

pub const STATUS_URL: &'static str = "https://api.ibroadcast.com/status";

pub const BITRATE_PREF_URL: &'static str = "https://api.ibroadcast.com/getbitratepref";

pub const LIBRARY_URL: &'static str = "https://library.ibroadcast.com";

/// The bytes of a JSON object with the given text fields, of which the last of each name counts;
/// or the message of an error.
pub uninterp spec fn object_bytes(fields: Seq<(Seq<char>, Seq<char>)>) -> std::result::Result<
    Seq<u8>,
    Seq<char>,
>;

pub open spec fn pairs_view(fields: Seq<(String, String)>) -> Seq<(Seq<char>, Seq<char>)> {
    Seq::new(fields.len(), |i: int| (fields[i].0@, fields[i].1@))
}

/// `serde_json::to_vec` on an object of text fields: a function of the fields, named by
/// [`object_bytes`].
#[verifier::external_body]
fn render_object(fields: &Vec<(String, String)>) -> (res: std::result::Result<Vec<u8>, String>)
    ensures
        match res {
            Ok(bytes) => object_bytes(pairs_view(fields@)) == Ok::<Seq<u8>, Seq<char>>(bytes@),
            Err(message) => object_bytes(pairs_view(fields@)) == Err::<Seq<u8>, Seq<char>>(
                message@,
            ),
        },
{
    let object = fields.iter().map(
        |(name, value)| (name.clone(), serde_json::Value::String(value.clone())),
    ).collect::<serde_json::Map<String, serde_json::Value>>();
    match serde_json::to_vec(&object) {
        Ok(bytes) => Ok(bytes),
        Err(error) => Err(error.to_string()),
    }
}

/// The bytes that stand for themselves in a query.
pub open spec fn unreserved(byte: u8) -> bool {
    ||| 0x30 <= byte <= 0x39
    ||| 0x41 <= byte <= 0x5A
    ||| 0x61 <= byte <= 0x7A
    ||| byte == 0x2D || byte == 0x2E || byte == 0x5F || byte == 0x7E
}

/// The digit of a number below sixteen, in upper case.
pub open spec fn hex_digit(digit: int) -> char {
    if digit < 10 {
        (0x30 + digit) as char
    } else {
        (0x41 + digit - 10) as char
    }
}

/// How bytes are written in a query: every byte that does not stand for itself by a percent sign
/// and its two digits.
pub open spec fn percent_encoded(bytes: Seq<u8>) -> Seq<char>
    decreases bytes.len(),
{
    if bytes.len() == 0 {
        Seq::empty()
    } else {
        let byte = bytes.last();
        let before = percent_encoded(bytes.drop_last());
        if unreserved(byte) {
            before.push(byte as char)
        } else {
            before.push('%').push(hex_digit(byte as int / 16)).push(hex_digit(byte as int % 16))
        }
    }
}

/// `urlencoding::encode`: every byte of the text in UTF-8 is written by a percent sign and two
/// digits, except letters, digits and `-`, `_`, `.`, `~`.
#[verifier::external_body]
fn url_encode(text: &str) -> (res: String)
    ensures
        res@ == percent_encoded(encode_utf8(text@)),
{
    urlencoding::encode(text).into_owned()
}

/// `chrono::Utc::now` and `timestamp_millis`: the milliseconds since 1970 that the machine's clock
/// shows. Which number it is, is not stated.
#[verifier::external_body]
fn unix_millis() -> (res: i64) {
    chrono::Utc::now().timestamp_millis()
}

/// The servers that an account is served by.
#[derive(Debug)]
pub struct ApiSettings {
    pub streaming_server: String,
    pub artwork_server: String,
}

pub struct SettingsView {
    pub streaming_server: Seq<char>,
    pub artwork_server: Seq<char>,
}

impl View for ApiSettings {
    type V = SettingsView;

    open spec fn view(&self) -> SettingsView {
        SettingsView {
            streaming_server: self.streaming_server@,
            artwork_server: self.artwork_server@,
        }
    }
}

impl SettingsView {
    pub open spec fn standard() -> SettingsView {
        SettingsView {
            streaming_server: "https://streaming.ibroadcast.com"@,
            artwork_server: "https://artwork.ibroadcast.com"@,
        }
    }

    /// The servers that a reply names, without slashes at the end; the standard ones where it
    /// names none.
    pub open spec fn told(value: JsonView) -> SettingsView {
        let settings = value.field("settings"@);
        SettingsView {
            streaming_server: named_server(
                field_of(settings, "streaming_server"@),
                SettingsView::standard().streaming_server,
            ),
            artwork_server: named_server(
                field_of(settings, "artwork_server"@),
                SettingsView::standard().artwork_server,
            ),
        }
    }

    /// The other servers, where they are named.
    pub open spec fn merged(self, other: SettingsView) -> SettingsView {
        SettingsView {
            streaming_server: if other.streaming_server.len() > 0 {
                other.streaming_server
            } else {
                self.streaming_server
            },
            artwork_server: if other.artwork_server.len() > 0 {
                other.artwork_server
            } else {
                self.artwork_server
            },
        }
    }
}

/// The server that a value names, without slashes at the end.
pub open spec fn named_server(value: Option<JsonView>, default: Seq<char>) -> Seq<char> {
    match value {
        Some(JsonView::Text(server)) => trim_end(server, CharSet::Slash),
        _ => default,
    }
}

/// A text without slashes at the end.
fn without_trailing_slashes(text: &str) -> (res: String)
    ensures
        res@ == trim_end(text@, CharSet::Slash),
{
    let chars = chars_of(text);
    string_of(trim_end_chars(chars.as_slice(), CharSet::Slash))
}

impl Default for ApiSettings {
    fn default() -> (res: ApiSettings)
        ensures
            res@ == SettingsView::standard(),
    {
        ApiSettings {
            streaming_server: "https://streaming.ibroadcast.com".to_owned(),
            artwork_server: "https://artwork.ibroadcast.com".to_owned(),
        }
    }
}

impl ApiSettings {
    /// The servers that a reply names.
    pub fn from_response(value: &Json) -> (res: ApiSettings)
        ensures
            res@ == SettingsView::told(value@),
    {
        let mut settings = ApiSettings::default();
        if let Some(object) = value.get("settings") {
            if let Some(server) = object.get("streaming_server") {
                if let Some(server) = server.as_str() {
                    settings.streaming_server = without_trailing_slashes(server);
                }
            }
            if let Some(server) = object.get("artwork_server") {
                if let Some(server) = server.as_str() {
                    settings.artwork_server = without_trailing_slashes(server);
                }
            }
        }
        settings
    }

    /// Takes over the servers that `other` names.
    pub fn merge_from(&mut self, other: ApiSettings)
        ensures
            final(self)@ == old(self)@.merged(other@),
    {
        if !other.streaming_server.as_str().is_empty() {
            self.streaming_server = other.streaming_server;
        }
        if !other.artwork_server.as_str().is_empty() {
            self.artwork_server = other.artwork_server;
        }
    }
}

/// The reply to a request for the status.
#[derive(Debug)]
pub struct StatusResponse {
    pub user_id: Option<u64>,
    pub settings: ApiSettings,
}

/// The reply to a request for the library.
#[derive(Debug)]
pub struct LibraryResponse {
    pub library: Library,
    pub settings: ApiSettings,
}

/// The number that an optional value stands for.
pub open spec fn number_at(value: Option<JsonView>) -> Option<u64> {
    match value {
        Some(json) => unsigned_value(json),
        None => None,
    }
}

/// The user id, wherever a reply holds it.
pub open spec fn user_id_in(value: JsonView) -> Option<u64> {
    let user = value.field("user"@);
    let status = value.field("status"@);
    if number_at(field_of(user, "id"@)) is Some {
        number_at(field_of(user, "id"@))
    } else if number_at(field_of(user, "user_id"@)) is Some {
        number_at(field_of(user, "user_id"@))
    } else if number_at(field_of(status, "user_id"@)) is Some {
        number_at(field_of(status, "user_id"@))
    } else if number_at(field_of(status, "id"@)) is Some {
        number_at(field_of(status, "id"@))
    } else {
        number_at(value.field("user_id"@))
    }
}

/// The number in a field of an optional value.
fn number_in(value: Option<&Json>, name: &str) -> (res: Option<u64>)
    ensures
        res == number_at(field_of(referred(value), name@)),
{
    match value {
        Some(value) => match value.get(name) {
            Some(field) => value_to_u64(field),
            None => None,
        },
        None => None,
    }
}

/// The user id, wherever a reply holds it.
pub fn find_user_id(value: &Json) -> (res: Option<u64>)
    ensures
        res == user_id_in(value@),
{
    let user = value.get("user");
    let status = value.get("status");
    let found = number_in(user, "id");
    if found.is_some() {
        return found;
    }
    let found = number_in(user, "user_id");
    if found.is_some() {
        return found;
    }
    let found = number_in(status, "user_id");
    if found.is_some() {
        return found;
    }
    let found = number_in(status, "id");
    if found.is_some() {
        return found;
    }
    number_in(Some(value), "user_id")
}

/// The parts of a track's path.
pub open spec fn file_parts(track_file: Seq<char>) -> Seq<Seq<char>> {
    nonempty(split(trim(track_file, CharSet::Slash), CharSet::Slash))
}

/// The path with its first part replaced by a segment.
pub open spec fn path_with_segment(track_file: Seq<char>, segment: Seq<char>) -> Seq<char> {
    seq!['/'] + join(file_parts(track_file).update(0, segment), seq!['/'])
}

/// The number at the end of a track's path.
pub open spec fn file_id(track_file: Seq<char>) -> Option<u64> {
    parsed_u64(split(trim(track_file, CharSet::Slash), CharSet::Slash).last())
}

/// The error for a path that does not name a track.
pub open spec fn is_path_error(error: AppError, track_file: Seq<char>) -> bool {
    error is Api && error->Api_0@ == "invalid track file path: "@ + track_file
}

fn path_error(track_file: &str) -> (res: AppError)
    ensures
        is_path_error(res, track_file@),
{
    AppError::Api(prefixed("invalid track file path: ", track_file))
}

/// The path of a track with its first part replaced by a segment.
fn track_file_with_segment(track_file: &str, segment: &str) -> (res: Result<String>)
    ensures
        match res {
            Ok(path) => file_parts(track_file@).len() >= 2 && path@ == path_with_segment(
                track_file@,
                segment@,
            ),
            Err(error) => file_parts(track_file@).len() < 2 && is_path_error(error, track_file@),
        },
{
    let chars = chars_of(track_file);
    let trimmed = trim_chars(chars.as_slice(), CharSet::Slash);
    let mut parts = keep_nonempty(split_chars(trimmed, CharSet::Slash));
    assert(views(parts@) == file_parts(track_file@));
    if parts.len() < 2 {
        return Err(path_error(track_file));
    }
    parts.set(0, chars_of(segment));
    assert(views(parts@) =~= file_parts(track_file@).update(0, segment@));
    let mut path: Vec<char> = Vec::new();
    path.push('/');
    let joined = join_chars(&parts, '/');
    extend_chars(&mut path, joined.as_slice());
    assert(path@ =~= path_with_segment(track_file@, segment@));
    Ok(string_of(path.as_slice()))
}

/// The path of a track at the given bitrate.
pub fn track_file_with_bitrate(track_file: &str, bitrate: Bitrate) -> (res: Result<String>)
    ensures
        match res {
            Ok(path) => file_parts(track_file@).len() >= 2 && path@ == path_with_segment(
                track_file@,
                bitrate.spec_path_segment(),
            ),
            Err(error) => file_parts(track_file@).len() < 2 && is_path_error(error, track_file@),
        },
{
    track_file_with_segment(track_file, bitrate.as_path_segment())
}

/// The path that a track is streamed from at the given bitrate.
pub fn stream_path(track_file: &str, bitrate: Bitrate) -> (res: Result<String>)
    ensures
        match res {
            Ok(path) => file_parts(track_file@).len() >= 2 && path@ == path_with_segment(
                track_file@,
                bitrate.spec_stream_path_segment(),
            ),
            Err(error) => file_parts(track_file@).len() < 2 && is_path_error(error, track_file@),
        },
{
    track_file_with_segment(track_file, bitrate.stream_path_segment())
}

/// The number at the end of a track's path.
pub fn file_id_from_track_file(track_file: &str) -> (res: Result<u64>)
    ensures
        match res {
            Ok(id) => file_id(track_file@) == Some(id),
            Err(error) => file_id(track_file@) is None && is_path_error(error, track_file@),
        },
{
    let chars = chars_of(track_file);
    let trimmed = trim_chars(chars.as_slice(), CharSet::Slash);
    let parts = split_chars(trimmed, CharSet::Slash);
    let last: usize = parts.len() - 1;
    assert(views(parts@).last() == parts@[last as int]@);
    match parse_u64(parts[last].as_slice()) {
        Some(id) => Ok(id),
        None => Err(path_error(track_file)),
    }
}

/// What the address of a stream is made of.
#[derive(Debug)]
pub struct StreamContext {
    pub streaming_server: String,
    pub access_token: String,
    pub user_id: u64,
    pub platform: String,
    pub version: String,
}

pub struct StreamContextView {
    pub streaming_server: Seq<char>,
    pub access_token: Seq<char>,
    pub user_id: u64,
    pub platform: Seq<char>,
    pub version: Seq<char>,
}

impl View for StreamContext {
    type V = StreamContextView;

    open spec fn view(&self) -> StreamContextView {
        StreamContextView {
            streaming_server: self.streaming_server@,
            access_token: self.access_token@,
            user_id: self.user_id,
            platform: self.platform@,
            version: self.version@,
        }
    }
}

/// A text as it is written in a query.
pub open spec fn query_text(text: Seq<char>) -> Seq<char> {
    percent_encoded(encode_utf8(text))
}

impl StreamContextView {
    /// The address of a track, signed at the given time.
    pub open spec fn url(self, file: Seq<char>, bitrate: Bitrate, millis: int) -> Seq<char> {
        self.streaming_server + path_with_segment(file, bitrate.spec_stream_path_segment())
            + "?Expires="@ + signed_decimal(millis) + "&Signature="@ + query_text(
            self.access_token,
        ) + "&file_id="@ + decimal(file_id(file)->0 as nat) + "&user_id="@ + decimal(
            self.user_id as nat,
        ) + "&platform="@ + query_text(self.platform) + "&version="@ + query_text(self.version)
    }

    /// The path names a track.
    pub open spec fn names_track(file: Seq<char>) -> bool {
        file_parts(file).len() >= 2 && file_id(file) is Some
    }
}

impl StreamContext {
    /// The address of a track, signed at the given number of milliseconds since 1970.
    pub fn build_stream_url_at(&self, file: &str, bitrate: Bitrate, millis: i64) -> (res: Result<
        String,
    >)
        ensures
            match res {
                Ok(url) => StreamContextView::names_track(file@) && url@ == self@.url(
                    file@,
                    bitrate,
                    millis as int,
                ),
                Err(error) => !StreamContextView::names_track(file@) && is_path_error(error, file@),
            },
    {
        let path = match stream_path(file, bitrate) {
            Ok(path) => path,
            Err(error) => {
                return Err(error);
            },
        };
        let id: u64 = match file_id_from_track_file(file) {
            Ok(id) => id,
            Err(error) => {
                return Err(error);
            },
        };
        let mut url = self.streaming_server.clone();
        url.append(path.as_str());
        url.append("?Expires=");
        push_signed_decimal(&mut url, millis);
        url.append("&Signature=");
        url.append(url_encode(self.access_token.as_str()).as_str());
        url.append("&file_id=");
        push_decimal(&mut url, id);
        url.append("&user_id=");
        push_decimal(&mut url, self.user_id);
        url.append("&platform=");
        url.append(url_encode(self.platform.as_str()).as_str());
        url.append("&version=");
        url.append(url_encode(self.version.as_str()).as_str());
        Ok(url)
    }

    /// The address of a track, signed now.
    pub fn build_stream_url(&self, track: &Track, bitrate: Bitrate) -> (res: Result<String>)
        ensures
            match res {
                Ok(url) => StreamContextView::names_track(track.file@) && exists|millis: i64|
                    url@ == #[trigger] self@.url(track.file@, bitrate, millis as int),
                Err(error) => !StreamContextView::names_track(track.file@) && is_path_error(
                    error,
                    track.file@,
                ),
            },
    {
        let millis: i64 = unix_millis();
        let res = self.build_stream_url_at(track.file.as_str(), bitrate, millis);
        if let Ok(url) = &res {
            assert(url@ == self@.url(track.file@, bitrate, millis as int));
        }
        res
    }
}

/// The client of the iBroadcast interface.
#[derive(Debug)]
pub struct ApiClient {
    client_id: String,
    client_secret: Option<String>,
    token: TokenSet,
    client_name: String,
    version: String,
    device_name: String,
    user_agent: String,
    refreshed: bool,
}

pub struct ApiClientView {
    pub client_id: Seq<char>,
    pub client_secret: Option<Seq<char>>,
    pub token: TokenView,
    pub client_name: Seq<char>,
    pub version: Seq<char>,
    pub device_name: Seq<char>,
    pub user_agent: Seq<char>,
    pub refreshed: bool,
}

impl View for ApiClient {
    type V = ApiClientView;

    closed spec fn view(&self) -> ApiClientView {
        ApiClientView {
            client_id: self.client_id@,
            client_secret: crate::config::text_view(self.client_secret),
            token: self.token@,
            client_name: self.client_name@,
            version: self.version@,
            device_name: self.device_name@,
            user_agent: self.user_agent@,
            refreshed: self.refreshed,
        }
    }
}

impl ApiClientView {
    /// The fields of a request, before those that are special to it.
    pub open spec fn common_fields(self, mode: Seq<char>) -> Seq<(Seq<char>, Seq<char>)> {
        seq![
            ("client"@, self.client_name),
            ("version"@, self.version),
            ("device_name"@, self.device_name),
            ("user_agent"@, self.user_agent),
            ("mode"@, mode),
        ]
    }
}

/// What is to be done about a reply.
#[derive(Debug)]
pub enum ReplyStep {
    /// The reply is good.
    Accept,
    /// Refresh the token and send the request once more.
    RefreshAndRetry,
    /// The request failed.
    Fail(AppError),
}

/// The server does not accept the token.
pub open spec fn unauthenticated(value: JsonView) -> bool {
    value.field("authenticated"@) == Some(JsonView::Bool(false))
}

/// The server did not do what was asked.
pub open spec fn unsuccessful(value: JsonView) -> bool {
    value.field("result"@) == Some(JsonView::Bool(false))
}

/// What the server says about a failure.
pub open spec fn failure_message(value: JsonView) -> Seq<char> {
    match value.field("message"@) {
        Some(JsonView::Text(message)) => message,
        _ => "operation failed"@,
    }
}

/// What a reply leads to; a failure by the server's words.
pub enum ReplyVerdict {
    Accept,
    RefreshAndRetry,
    Fail(Seq<char>),
}

/// What a reply leads to. `retried` tells that the token was refreshed for the request.
pub open spec fn reply_verdict(value: JsonView, retried: bool) -> ReplyVerdict {
    if unauthenticated(value) && !retried {
        ReplyVerdict::RefreshAndRetry
    } else if unsuccessful(value) {
        ReplyVerdict::Fail(failure_message(value))
    } else {
        ReplyVerdict::Accept
    }
}

/// Whether a field of the value is `false`.
fn is_false(value: &Json, name: &str) -> (res: bool)
    ensures
        res == (value@.field(name@) == Some(JsonView::Bool(false))),
{
    match value.get(name) {
        Some(field) => match field.as_bool() {
            Some(flag) => !flag,
            None => false,
        },
        None => false,
    }
}

/// What the reply to a request leads to. `retried` tells that the token was refreshed for it.
pub fn reply_step(value: &Json, retried: bool) -> (res: ReplyStep)
    ensures
        match (res, reply_verdict(value@, retried)) {
            (ReplyStep::Accept, ReplyVerdict::Accept) => true,
            (ReplyStep::RefreshAndRetry, ReplyVerdict::RefreshAndRetry) => true,
            (ReplyStep::Fail(error), ReplyVerdict::Fail(message)) => error is Api && error->Api_0@
                == message,
            _ => false,
        },
{
    if !retried && is_false(value, "authenticated") {
        return ReplyStep::RefreshAndRetry;
    }
    if is_false(value, "result") {
        if let Some(field) = value.get("message") {
            if let Some(message) = field.as_str() {
                return ReplyStep::Fail(AppError::Api(message.to_owned()));
            }
        }
        return ReplyStep::Fail(AppError::Api("operation failed".to_owned()));
    }
    ReplyStep::Accept
}

/// The value of a reply whose text was parsed, or the error of one that was refused.
pub fn reply_value(
    success: bool,
    status: &str,
    text: &str,
    parsed: std::result::Result<Json, String>,
) -> (res: Result<Json>)
    ensures
        match res {
            Ok(value) => success && parsed is Ok && parsed->Ok_0@ == value@,
            Err(error) => if success {
                parsed is Err && error is Json && error->Json_0@ == parsed->Err_0@
            } else {
                error is Api && error->Api_0@ == "server returned "@ + status@ + ": "@ + text@
            },
        },
{
    if !success {
        let mut message = prefixed("server returned ", status);
        message.append(": ");
        message.append(text);
        return Err(AppError::Api(message));
    }
    match parsed {
        Ok(value) => Ok(value),
        Err(message) => Err(AppError::Json(message)),
    }
}

/// The value of a reply.
pub fn read_reply(success: bool, status: &str, text: &str) -> (res: Result<Json>)
    ensures
        match res {
            Ok(value) => success && parsed_json(text@) == Ok::<JsonView, Seq<char>>(value@),
            Err(error) => if success {
                error is Json && parsed_json(text@) == Err::<JsonView, Seq<char>>(error->Json_0@)
            } else {
                error is Api && error->Api_0@ == "server returned "@ + status@ + ": "@ + text@
            },
        },
{
    let parsed = if success {
        Json::parse(text)
    } else {
        Err(String::new())
    };
    reply_value(success, status, text, parsed)
}

/// What the reply to a request for the status says.
pub fn status_response(value: &Json) -> (res: StatusResponse)
    ensures
        res.user_id == user_id_in(value@),
        res.settings@ == SettingsView::told(value@),
{
    StatusResponse {
        user_id: find_user_id(value),
        settings: ApiSettings::from_response(value),
    }
}

/// The playback bitrate that the account prefers, if the reply names one.
pub fn bitrate_preference(value: &Json) -> (res: Option<Bitrate>)
    ensures
        match value@.field("bitrate"@) {
            Some(JsonView::Number { unsigned: Some(rate), .. }) => match res {
                Some(bitrate) => bitrate.rate() == Some(rate),
                None => forall|bitrate: Bitrate| #[trigger] bitrate.rate() != Some(rate),
            },
            _ => res is None,
        },
{
    match value.get("bitrate") {
        Some(field) => match field.as_u64() {
            Some(rate) => Bitrate::from_u64(rate),
            None => None,
        },
        None => None,
    }
}

/// What the reply to a request for the library says.
pub fn library_response(value: &Json) -> (res: Result<LibraryResponse>)
    ensures
        match (value@.field("library"@), res) {
            (Some(library), Ok(response)) => library is Object && response.library.wf()
                && response.library@ == LibraryView::decoded(library) && response.settings@
                == SettingsView::told(value@),
            (Some(library), Err(error)) => !(library is Object) && error is Library
                && error->Library_0@ == "library root is not an object"@,
            (None, Err(error)) => error is Library && error->Library_0@
                == "response omitted library"@,
            (None, Ok(_)) => false,
        },
{
    let library = match value.get("library") {
        Some(library) => library,
        None => {
            return Err(AppError::Library("response omitted library".to_owned()));
        },
    };
    match Library::from_value(library) {
        Ok(library) => Ok(
            LibraryResponse { library, settings: ApiSettings::from_response(value) },
        ),
        Err(error) => Err(error),
    }
}

impl ApiClient {
    /// A client with the given token. It calls itself `ibroadcast-tui`.
    pub fn new(
        client_id: String,
        client_secret: Option<String>,
        token: TokenSet,
        version: String,
        device_name: String,
    ) -> (res: ApiClient)
        ensures
            res@ == (ApiClientView {
                client_id: client_id@,
                client_secret: crate::config::text_view(client_secret),
                token: token@,
                client_name: "ibroadcast-tui"@,
                version: version@,
                device_name: device_name@,
                user_agent: "ibroadcast-tui"@ + "/"@ + version@,
                refreshed: false,
            }),
    {
        let mut user_agent = prefixed("ibroadcast-tui", "/");
        user_agent.append(version.as_str());
        ApiClient {
            client_id,
            client_secret,
            token,
            client_name: "ibroadcast-tui".to_owned(),
            version,
            device_name,
            user_agent,
            refreshed: false,
        }
    }

    pub fn token(&self) -> (res: &TokenSet)
        ensures
            res@ == self@.token,
    {
        &self.token
    }

    pub fn client_id(&self) -> (res: &str)
        ensures
            res@ == self@.client_id,
    {
        self.client_id.as_str()
    }

    pub fn client_secret(&self) -> (res: Option<&str>)
        ensures
            match res {
                Some(secret) => self@.client_secret == Some(secret@),
                None => self@.client_secret is None,
            },
    {
        match &self.client_secret {
            Some(secret) => Some(secret.as_str()),
            None => None,
        }
    }

    pub fn user_agent(&self) -> (res: &str)
        ensures
            res@ == self@.user_agent,
    {
        self.user_agent.as_str()
    }

    /// Whether the token was refreshed since this was last asked.
    pub fn take_refreshed(&mut self) -> (res: bool)
        ensures
            res == old(self)@.refreshed,
            final(self)@ == (ApiClientView { refreshed: false, ..old(self)@ }),
    {
        let refreshed = self.refreshed;
        self.refreshed = false;
        refreshed
    }

    /// Whether the token has to be refreshed before the next request.
    pub fn needs_refresh(&self) -> (res: bool)
        ensures
            exists|now: i64|
                0 <= now <= crate::oauth::MAX_UNIX_SECONDS && res
                    == #[trigger] crate::oauth::expired_at(self@.token.expires_at, now as int),
    {
        let res = self.token.is_expired();
        proof {
            let now = choose|now: i64|
                0 <= now <= crate::oauth::MAX_UNIX_SECONDS && res
                    == #[trigger] crate::oauth::expired_at(self.token.expires_at, now as int);
            assert(res == crate::oauth::expired_at(self@.token.expires_at, now as int));
        }
        res
    }

    /// Takes over a refreshed token.
    pub fn set_token(&mut self, token: TokenSet)
        ensures
            final(self)@ == (ApiClientView { token: token@, refreshed: true, ..old(self)@ }),
    {
        self.token = token;
        self.refreshed = true;
    }

    /// What the addresses of streams are made of.
    pub fn stream_context(&self, settings: &ApiSettings, user_id: u64) -> (res: StreamContext)
        ensures
            res@ == (StreamContextView {
                streaming_server: trim_end(settings@.streaming_server, CharSet::Slash),
                access_token: self@.token.access_token,
                user_id,
                platform: self@.client_name,
                version: self@.version,
            }),
    {
        StreamContext {
            streaming_server: without_trailing_slashes(settings.streaming_server.as_str()),
            access_token: self.token.access_token.clone(),
            user_id,
            platform: self.client_name.clone(),
            version: self.version.clone(),
        }
    }

    /// The fields of a request. Of fields with the same name the last one counts, so that those in
    /// `extra` come before the common ones.
    pub fn request_body(&self, mode: &str, extra: Vec<(String, String)>) -> (res: Vec<
        (String, String),
    >)
        ensures
            pairs_view(res@) == self@.common_fields(mode@) + pairs_view(extra@),
    {
        let mut body: Vec<(String, String)> = Vec::new();
        body.push(("client".to_owned(), self.client_name.clone()));
        body.push(("version".to_owned(), self.version.clone()));
        body.push(("device_name".to_owned(), self.device_name.clone()));
        body.push(("user_agent".to_owned(), self.user_agent.clone()));
        body.push(("mode".to_owned(), mode.to_owned()));
        assert(pairs_view(body@) =~= self@.common_fields(mode@));
        let ghost start = body@;
        let mut extra = extra;
        let ghost added = extra@;
        body.append(&mut extra);
        assert(pairs_view(body@) =~= pairs_view(start) + pairs_view(added));
        body
    }

    /// The bytes of a request.
    pub fn request_bytes(&self, mode: &str, extra: Vec<(String, String)>) -> (res: Result<Vec<u8>>)
        ensures
            match res {
                Ok(bytes) => object_bytes(self@.common_fields(mode@) + pairs_view(extra@)) == Ok::<
                    Seq<u8>,
                    Seq<char>,
                >(bytes@),
                Err(error) => error is Json && object_bytes(
                    self@.common_fields(mode@) + pairs_view(extra@),
                ) == Err::<Seq<u8>, Seq<char>>(error->Json_0@),
            },
    {
        let body = self.request_body(mode, extra);
        match render_object(&body) {
            Ok(bytes) => Ok(bytes),
            Err(message) => Err(AppError::Json(message)),
        }
    }
}

/// An encoded text holds only characters that stand for themselves in a query, and percent signs.
pub proof fn law_encoded_text_is_query_safe(bytes: Seq<u8>)
    ensures
        forall|i: int|
            0 <= i < percent_encoded(bytes).len() ==> {
                let c = #[trigger] percent_encoded(bytes)[i];
                c == '%' || (c as u32) < 0x80 && unreserved(c as u8)
            },
    decreases bytes.len(),
{
    if bytes.len() > 0 {
        law_encoded_text_is_query_safe(bytes.drop_last());
        let before = percent_encoded(bytes.drop_last());
        let byte = bytes.last();
        let all = percent_encoded(bytes);
        assert forall|i: int| 0 <= i < all.len() implies ({
            let c = #[trigger] all[i];
            c == '%' || (c as u32) < 0x80 && unreserved(c as u8)
        }) by {
            if i < before.len() {
                assert(all[i] == before[i]);
            }
        }
    }
}

/// Text without a character of `set` behind `head` only makes the last part longer.
proof fn lemma_split_last(head: Seq<char>, tail: Seq<char>, set: CharSet)
    requires
        forall|i: int| 0 <= i < tail.len() ==> !set.spec_has(#[trigger] tail[i]),
    ensures
        split(head, set).len() > 0,
        split(head + tail, set).last() == split(head, set).last() + tail,
    decreases tail.len(), head.len(),
{
    if tail.len() > 0 {
        let whole = head + tail;
        let before = tail.drop_last();
        assert forall|i: int| 0 <= i < before.len() implies !set.spec_has(#[trigger] before[i]) by {
            assert(before[i] == tail[i]);
        }
        lemma_split_last(head, before, set);
        assert(whole.drop_last() =~= head + before);
        assert(whole.last() == tail[tail.len() - 1]);
        assert(split(whole, set).last() =~= split(head, set).last() + tail);
    } else {
        assert(head + tail =~= head);
        assert(split(head, set).last() + tail =~= split(head, set).last());
        if head.len() > 0 {
            lemma_split_last(head.drop_last(), tail, set);
        }
    }
}

/// Trimming at the start stops at the latest where text begins that is not in `set`. What it
/// leaves of the part before is nothing, or still ends as it did.
proof fn lemma_trim_start_before(head: Seq<char>, tail: Seq<char>, set: CharSet)
    requires
        tail.len() > 0,
        !set.spec_has(tail[0]),
    ensures
        trim_start(head + tail, set) == trim_start(head, set) + tail,
        trim_start(head, set).len() > 0 ==> trim_start(head, set).last() == head.last(),
    decreases head.len(),
{
    let whole = head + tail;
    if head.len() == 0 {
        assert(whole =~= tail);
        assert(Seq::<char>::empty() + tail =~= tail);
    } else {
        assert(whole[0] == head[0]);
        if set.spec_has(head[0]) {
            lemma_trim_start_before(head.drop_first(), tail, set);
            assert(whole.drop_first() =~= head.drop_first() + tail);
        }
    }
}

/// Trimming at the end leaves text that ends with a character outside `set`.
proof fn lemma_trim_end_stops(s: Seq<char>, set: CharSet)
    ensures
        trim_end(s, set).len() > 0 ==> !set.spec_has(trim_end(s, set).last()),
    decreases s.len(),
{
    if s.len() > 0 && set.spec_has(s.last()) {
        lemma_trim_end_stops(s.drop_last(), set);
    }
}

/// The parts of a split text hold no character of `set`, and there is at least one.
proof fn lemma_split_parts(s: Seq<char>, set: CharSet)
    ensures
        split(s, set).len() > 0,
        forall|i: int|
            0 <= i < split(s, set).last().len() ==> !set.spec_has(
                #[trigger] split(s, set).last()[i],
            ),
    decreases s.len(),
{
    if s.len() > 0 {
        lemma_split_parts(s.drop_last(), set);
    }
}

/// The last part of a path behind a slash is what is left of it after trimming and splitting.
proof fn lemma_last_part(head: Seq<char>, last: Seq<char>)
    requires
        last.len() > 0,
        forall|i: int| 0 <= i < last.len() ==> !CharSet::Slash.spec_has(#[trigger] last[i]),
    ensures
        split(trim(head + seq!['/'] + last, CharSet::Slash), CharSet::Slash).last() == last,
{
    let set = CharSet::Slash;
    let before = head + seq!['/'];
    lemma_trim_start_before(before, last, set);
    let kept = trim_start(before, set);
    assert(before.last() == '/');
    assert((kept + last).last() == last[last.len() - 1]);
    assert(trim(before + last, set) == kept + last);
    lemma_split_last(kept, last, set);
    assert(split(kept, set).last() =~= Seq::<char>::empty());
    assert(split(kept, set).last() + last =~= last);
}

/// Rewriting the bitrate in a path, or the segment it is streamed from, keeps the number of the
/// file that the path names.
pub proof fn law_rewriting_keeps_the_file(track_file: Seq<char>, bitrate: Bitrate)
    requires
        file_parts(track_file).len() >= 2,
    ensures
        file_id(path_with_segment(track_file, bitrate.spec_path_segment())) == file_id(track_file),
        file_id(path_with_segment(track_file, bitrate.spec_stream_path_segment())) == file_id(
            track_file,
        ),
{
    lemma_segment_keeps_the_file(track_file, bitrate.spec_path_segment());
    lemma_segment_keeps_the_file(track_file, bitrate.spec_stream_path_segment());
}

proof fn lemma_segment_keeps_the_file(track_file: Seq<char>, segment: Seq<char>)
    requires
        file_parts(track_file).len() >= 2,
    ensures
        file_id(path_with_segment(track_file, segment)) == file_id(track_file),
{
    let set = CharSet::Slash;
    let text = trim(track_file, set);
    let all = split(text, set);
    let parts = file_parts(track_file);
    lemma_trim_end_stops(trim_start(track_file, set), set);
    lemma_split_parts(text, set);
    if text.len() == 0 {
        assert(nonempty(all.drop_last()).len() == 0);
    }
    let last = all.last();
    assert(last.len() > 0);
    assert(parts.last() == last);
    let rewritten = parts.update(0, segment);
    assert(rewritten.last() == last);
    let joined = join(rewritten.drop_last(), seq!['/']);
    assert(path_with_segment(track_file, segment) =~= (seq!['/'] + joined) + seq!['/'] + last);
    lemma_last_part(seq!['/'] + joined, last);
}

/// A rejected token is refreshed at most once per request: after that the reply is accepted or
/// the request fails.
pub proof fn law_request_is_retried_once(value: JsonView)
    ensures
        reply_verdict(value, false) == ReplyVerdict::RefreshAndRetry <==> unauthenticated(value),
        reply_verdict(value, true) != ReplyVerdict::RefreshAndRetry,
{
}

} // verus!
