//! What can go wrong, in words that can be shown to the user.

use vstd::prelude::*;

verus! {

pub type Result<T> = std::result::Result<T, AppError>;

/// A failure of the client. The variants that stand for failures of other libraries carry the
/// message of the underlying error.
#[derive(Debug)]
pub enum AppError {
    Api(String),
    Auth(String),
    Download { path: String, source: Box<AppError> },
    Library(String),
    MissingToken,
    Playback(String),
    Http(String),
    Io(String),
    Json(String),
    TomlDecode(String),
    TomlEncode(String),
}

/// The text `prefix` followed by the text `detail`.
pub fn prefixed(prefix: &str, detail: &str) -> (res: String)
    ensures
        res@ == prefix@ + detail@,
{
    let mut text = prefix.to_owned();
    text.append(detail);
    text
}

impl AppError {
    /// The message shown to the user.
    pub open spec fn spec_message(self) -> Seq<char>
        decreases self,
    {
        match self {
            AppError::Api(detail) => "api error: "@ + detail@,
            AppError::Auth(detail) => "authentication error: "@ + detail@,
            AppError::Download { path, source } => "download failed for "@ + path@ + ": "@
                + source.spec_message(),
            AppError::Library(detail) => "invalid library response: "@ + detail@,
            AppError::MissingToken => "missing token; log in again"@,
            AppError::Playback(detail) => "playback error: "@ + detail@,
            AppError::Http(detail) => "http error: "@ + detail@,
            AppError::Io(detail) => "io error: "@ + detail@,
            AppError::Json(detail) => "json error: "@ + detail@,
            AppError::TomlDecode(detail) => "toml decode error: "@ + detail@,
            AppError::TomlEncode(detail) => "toml encode error: "@ + detail@,
        }
    }

    /// The message shown to the user.
    pub fn message(&self) -> (res: String)
        ensures
            res@ == self.spec_message(),
        decreases self,
    {
        match self {
            AppError::Api(detail) => prefixed("api error: ", detail.as_str()),
            AppError::Auth(detail) => prefixed("authentication error: ", detail.as_str()),
            AppError::Download { path, source } => {
                let mut text = prefixed("download failed for ", path.as_str());
                text.append(": ");
                let inner = source.message();
                text.append(inner.as_str());
                text
            },
            AppError::Library(detail) => prefixed("invalid library response: ", detail.as_str()),
            AppError::MissingToken => "missing token; log in again".to_owned(),
            AppError::Playback(detail) => prefixed("playback error: ", detail.as_str()),
            AppError::Http(detail) => prefixed("http error: ", detail.as_str()),
            AppError::Io(detail) => prefixed("io error: ", detail.as_str()),
            AppError::Json(detail) => prefixed("json error: ", detail.as_str()),
            AppError::TomlDecode(detail) => prefixed("toml decode error: ", detail.as_str()),
            AppError::TomlEncode(detail) => prefixed("toml encode error: ", detail.as_str()),
        }
    }

    /// The failure of a request that the authorization server answered with `status`.
    pub fn auth_response(status: &str, body: &str) -> (res: AppError)
        ensures
            res is Auth,
            res->Auth_0@ == "server returned "@ + status@ + ": "@ + body@,
    {
        let mut text = prefixed("server returned ", status);
        text.append(": ");
        text.append(body);
        AppError::Auth(text)
    }

    /// The failure of the download to `path`.
    pub fn download_path(path: String, source: AppError) -> (res: AppError)
        ensures
            res == (AppError::Download { path, source: Box::new(source) }),
    {
        AppError::Download { path, source: Box::new(source) }
    }
}

} // verus!
