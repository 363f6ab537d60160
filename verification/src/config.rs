//! The configuration of the client: what the command line and the configuration file say.

use std::path::PathBuf;

use vstd::prelude::*;

use crate::queue::PlaybackMode;
use crate::text::{trim, trimmed, CharSet};

verus! {

/// A path of the standard library, which is only carried through.
#[verifier::external_type_specification]
#[verifier::external_body]
pub struct ExPathBuf(std::path::PathBuf);

/// `PathBuf::clone`: the same path.
pub assume_specification[ <std::path::PathBuf as Clone>::clone ](path: &PathBuf) -> (res: PathBuf)
    ensures
        res == *path,
;

/// What the command line says.
#[derive(Debug)]
pub struct Cli {
    /// The client id of the iBroadcast application.
    pub client_id: Option<String>,
    /// The client secret, if the application requires one. Never persisted.
    pub client_secret: Option<String>,
    pub download_dir: Option<PathBuf>,
    /// The playback bitrate. Overrides the account preference reported by the server.
    pub bitrate: Option<Bitrate>,
    pub log_level: String,
}

/// The configuration on disk. Every field is optional so that an absent value can fall back to a
/// default.
#[derive(Debug)]
pub struct ConfigFile {
    pub client_id: Option<String>,
    pub download_dir: Option<PathBuf>,
    pub playback_bitrate: Option<Bitrate>,
    pub playback_mode: Option<PlaybackMode>,
    pub download_bitrate: Option<Bitrate>,
    pub plain_token_file: Option<bool>,
}

/// The configuration in use.
#[derive(Debug)]
pub struct Config {
    pub config_dir: PathBuf,
    pub config_file: PathBuf,
    pub client_id: Option<String>,
    /// Kept in memory only; never written to disk.
    pub client_secret: Option<String>,
    pub download_dir: PathBuf,
    /// `None` means that the account preference reported by the server is followed.
    pub playback_bitrate: Option<Bitrate>,
    pub playback_mode: PlaybackMode,
    pub download_bitrate: Bitrate,
    pub plain_token_file: bool,
}

#[derive(Clone, Copy, Debug, PartialEq, Eq, Structural)]
pub enum Bitrate {
    Kbps96,
    Kbps128,
    Kbps192,
    Kbps256,
    Kbps320,
    Original,
}

impl Default for Bitrate {
    fn default() -> (res: Bitrate)
        ensures
            res == Bitrate::Kbps128,
    {
        Bitrate::Kbps128
    }
}

impl Bitrate {
    pub const VALUES: [Bitrate; 6] = [
        Bitrate::Kbps96,
        Bitrate::Kbps128,
        Bitrate::Kbps192,
        Bitrate::Kbps256,
        Bitrate::Kbps320,
        Bitrate::Original,
    ];

    /// The bitrates the server stores as complete files. All others exist only as streams of
    /// segments.
    pub const DOWNLOAD_VALUES: [Bitrate; 2] = [Bitrate::Kbps128, Bitrate::Original];

    /// The bitrate in kilobits per second; `None` for the original format.
    pub open spec fn rate(self) -> Option<u64> {
        match self {
            Bitrate::Kbps96 => Some(96),
            Bitrate::Kbps128 => Some(128),
            Bitrate::Kbps192 => Some(192),
            Bitrate::Kbps256 => Some(256),
            Bitrate::Kbps320 => Some(320),
            Bitrate::Original => None,
        }
    }

    /// The server stores complete files at this bitrate.
    pub open spec fn is_file(self) -> bool {
        self == Bitrate::Kbps128 || self == Bitrate::Original
    }

    pub open spec fn spec_path_segment(self) -> Seq<char> {
        match self {
            Bitrate::Kbps96 => "96"@,
            Bitrate::Kbps128 => "128"@,
            Bitrate::Kbps192 => "192"@,
            Bitrate::Kbps256 => "256"@,
            Bitrate::Kbps320 => "320"@,
            Bitrate::Original => "orig"@,
        }
    }

    pub open spec fn spec_stream_path_segment(self) -> Seq<char> {
        match self {
            Bitrate::Kbps96 => "hls_96"@,
            Bitrate::Kbps128 => "128"@,
            Bitrate::Kbps192 => "hls_192"@,
            Bitrate::Kbps256 => "hls_256"@,
            Bitrate::Kbps320 => "hls_320"@,
            Bitrate::Original => "orig"@,
        }
    }

    pub open spec fn spec_target_bandwidth(self) -> u64 {
        match self.rate() {
            Some(rate) => (rate * 1000) as u64,
            None => u64::MAX,
        }
    }

    pub open spec fn spec_next_download(self) -> Bitrate {
        if self == Bitrate::Kbps128 {
            Bitrate::Original
        } else {
            Bitrate::Kbps128
        }
    }

    pub open spec fn spec_nearest_download(self) -> Bitrate {
        if self.is_file() {
            self
        } else {
            Bitrate::Kbps128
        }
    }

    pub open spec fn spec_next(self) -> Bitrate {
        match self {
            Bitrate::Kbps96 => Bitrate::Kbps128,
            Bitrate::Kbps128 => Bitrate::Kbps192,
            Bitrate::Kbps192 => Bitrate::Kbps256,
            Bitrate::Kbps256 => Bitrate::Kbps320,
            Bitrate::Kbps320 => Bitrate::Original,
            Bitrate::Original => Bitrate::Kbps96,
        }
    }

    /// How the bitrate is written in paths, in the configuration and on screen.
    pub fn as_path_segment(self) -> (res: &'static str)
        ensures
            res@ == self.spec_path_segment(),
    {
        match self {
            Bitrate::Kbps96 => "96",
            Bitrate::Kbps128 => "128",
            Bitrate::Kbps192 => "192",
            Bitrate::Kbps256 => "256",
            Bitrate::Kbps320 => "320",
            Bitrate::Original => "orig",
        }
    }

    /// The path segment of a streaming address. The server only serves complete files at 128 kbps
    /// and in the original format; the other bitrates are published as playlists of segments.
    pub fn stream_path_segment(self) -> (res: &'static str)
        ensures
            res@ == self.spec_stream_path_segment(),
    {
        match self {
            Bitrate::Kbps96 => "hls_96",
            Bitrate::Kbps128 => "128",
            Bitrate::Kbps192 => "hls_192",
            Bitrate::Kbps256 => "hls_256",
            Bitrate::Kbps320 => "hls_320",
            Bitrate::Original => "orig",
        }
    }

    /// Whether streaming at this bitrate goes through a playlist rather than a single file.
    pub fn is_hls_stream(self) -> (res: bool)
        ensures
            res == !self.is_file(),
    {
        !matches!(self, Bitrate::Kbps128 | Bitrate::Original)
    }

    /// The bandwidth in bits per second by which a rendition is picked from a master playlist.
    pub fn target_bandwidth(self) -> (res: u64)
        ensures
            res == self.spec_target_bandwidth(),
    {
        match self {
            Bitrate::Kbps96 => 96_000,
            Bitrate::Kbps128 => 128_000,
            Bitrate::Kbps192 => 192_000,
            Bitrate::Kbps256 => 256_000,
            Bitrate::Kbps320 => 320_000,
            Bitrate::Original => 0xFFFF_FFFF_FFFF_FFFF,
        }
    }

    /// The bitrate at which the server can serve a complete file: transcoded bitrates fall back
    /// to 128 kbps.
    pub fn nearest_download(self) -> (res: Bitrate)
        ensures
            res == self.spec_nearest_download(),
    {
        match self {
            Bitrate::Original => Bitrate::Original,
            _ => Bitrate::Kbps128,
        }
    }

    /// The other bitrate for downloads.
    pub fn next_download(self) -> (res: Bitrate)
        ensures
            res == self.spec_next_download(),
    {
        match self {
            Bitrate::Kbps128 => Bitrate::Original,
            _ => Bitrate::Kbps128,
        }
    }

    /// The bitrate of the given number of kilobits per second.
    pub fn from_u64(value: u64) -> (res: Option<Bitrate>)
        ensures
            res is Some <==> value == 96 || value == 128 || value == 192 || value == 256 || value
                == 320,
            res is Some ==> res->0.rate() == Some(value),
    {
        match value {
            96 => Some(Bitrate::Kbps96),
            128 => Some(Bitrate::Kbps128),
            192 => Some(Bitrate::Kbps192),
            256 => Some(Bitrate::Kbps256),
            320 => Some(Bitrate::Kbps320),
            _ => None,
        }
    }

    /// The bitrate that follows in the order of [`Bitrate::VALUES`], from the last one the first.
    pub fn next(self) -> (res: Bitrate)
        ensures
            res == self.spec_next(),
    {
        match self {
            Bitrate::Kbps96 => Bitrate::Kbps128,
            Bitrate::Kbps128 => Bitrate::Kbps192,
            Bitrate::Kbps192 => Bitrate::Kbps256,
            Bitrate::Kbps256 => Bitrate::Kbps320,
            Bitrate::Kbps320 => Bitrate::Original,
            Bitrate::Original => Bitrate::Kbps96,
        }
    }
}

/// Stepping through the bitrates visits all six in the listed order and then begins again.
pub proof fn law_bitrates_cycle(i: int)
    requires
        0 <= i < 6,
    ensures
        Bitrate::VALUES@[i].spec_next() == Bitrate::VALUES@[(i + 1) % 6],
{
}

/// A bitrate for downloads is one of those that the server stores as complete files, and one that
/// is already such stays what it is.
pub proof fn law_downloads_are_files(bitrate: Bitrate)
    ensures
        Bitrate::DOWNLOAD_VALUES@.contains(bitrate) <==> bitrate.is_file(),
        bitrate.spec_nearest_download().is_file(),
        bitrate.is_file() ==> bitrate.spec_nearest_download() == bitrate,
{
    let values = Bitrate::DOWNLOAD_VALUES@;
    assert(values[0] == Bitrate::Kbps128);
    assert(values[1] == Bitrate::Original);
}

/// The value without surrounding white space, if anything is left of it.
pub open spec fn trimmed_value(value: Option<Seq<char>>) -> Option<Seq<char>> {
    match value {
        Some(text) => if trim(text, CharSet::WhiteSpace).len() > 0 {
            Some(trim(text, CharSet::WhiteSpace))
        } else {
            None
        },
        None => None,
    }
}

pub open spec fn text_view(value: Option<String>) -> Option<Seq<char>> {
    match value {
        Some(text) => Some(text@),
        None => None,
    }
}

/// The value without surrounding white space, if anything is left of it.
pub fn nonempty_trimmed(value: &str) -> (res: Option<&str>)
    ensures
        match res {
            Some(text) => trimmed_value(Some(value@)) == Some(text@),
            None => trimmed_value(Some(value@)) is None,
        },
{
    let text = trimmed(value);
    if text.is_empty() {
        None
    } else {
        Some(text)
    }
}

/// An owned copy of [`nonempty_trimmed`], of an optional value.
fn owned_trimmed(value: &Option<String>) -> (res: Option<String>)
    ensures
        text_view(res) == trimmed_value(text_view(*value)),
{
    match value {
        Some(value) => match nonempty_trimmed(value.as_str()) {
            Some(text) => Some(text.to_owned()),
            None => None,
        },
        None => None,
    }
}

/// What a configuration says.
pub struct ConfigView {
    pub config_dir: PathBuf,
    pub config_file: PathBuf,
    pub client_id: Option<Seq<char>>,
    pub client_secret: Option<Seq<char>>,
    pub download_dir: PathBuf,
    pub playback_bitrate: Option<Bitrate>,
    pub playback_mode: PlaybackMode,
    pub download_bitrate: Bitrate,
    pub plain_token_file: bool,
}

impl View for Config {
    type V = ConfigView;

    open spec fn view(&self) -> ConfigView {
        ConfigView {
            config_dir: self.config_dir,
            config_file: self.config_file,
            client_id: text_view(self.client_id),
            client_secret: text_view(self.client_secret),
            download_dir: self.download_dir,
            playback_bitrate: self.playback_bitrate,
            playback_mode: self.playback_mode,
            download_bitrate: self.download_bitrate,
            plain_token_file: self.plain_token_file,
        }
    }
}

impl Default for ConfigFile {
    fn default() -> (res: ConfigFile)
        ensures
            res == (ConfigFile {
                client_id: None,
                download_dir: None,
                playback_bitrate: None,
                playback_mode: None,
                download_bitrate: None,
                plain_token_file: None,
            }),
    {
        ConfigFile {
            client_id: None,
            download_dir: None,
            playback_bitrate: None,
            playback_mode: None,
            download_bitrate: None,
            plain_token_file: None,
        }
    }
}

/// The first of two values that is there.
pub open spec fn preferred<T>(first: Option<T>, second: Option<T>) -> Option<T> {
    match first {
        Some(value) => Some(value),
        None => second,
    }
}

/// The value, or the default where there is none.
pub open spec fn or_default<T>(value: Option<T>, default: T) -> T {
    match value {
        Some(value) => value,
        None => default,
    }
}

impl Config {
    /// This is the configuration that the command line and the file resolve to. The command line
    /// comes first; blank values on it count as absent.
    pub open spec fn resolves(
        self,
        cli: Cli,
        file: ConfigFile,
        config_dir: PathBuf,
        config_file: PathBuf,
        default_download_dir: PathBuf,
    ) -> bool {
        &&& self.config_dir == config_dir
        &&& self.config_file == config_file
        &&& text_view(self.client_id) == preferred(
            trimmed_value(text_view(cli.client_id)),
            text_view(file.client_id),
        )
        &&& text_view(self.client_secret) == trimmed_value(text_view(cli.client_secret))
        &&& self.download_dir == or_default(
            preferred(cli.download_dir, file.download_dir),
            default_download_dir,
        )
        &&& self.playback_bitrate == preferred(cli.bitrate, file.playback_bitrate)
        &&& self.playback_mode == or_default(file.playback_mode, PlaybackMode::Sequential)
        &&& self.download_bitrate == or_default(
            file.download_bitrate,
            Bitrate::Original,
        ).spec_nearest_download()
        &&& self.plain_token_file == or_default(file.plain_token_file, false)
    }

    /// This is what the configuration is saved as.
    pub open spec fn saved_as(self, file: ConfigFile) -> bool {
        &&& text_view(file.client_id) == text_view(self.client_id)
        &&& file.download_dir == Some(self.download_dir)
        &&& file.playback_bitrate == self.playback_bitrate
        &&& file.playback_mode == Some(self.playback_mode)
        &&& file.download_bitrate == Some(self.download_bitrate)
        &&& file.plain_token_file == Some(self.plain_token_file)
    }

    /// Combines the command line with the file. `default_download_dir` is used where neither
    /// names a download directory.
    pub fn resolve(
        cli: &Cli,
        file: ConfigFile,
        config_dir: PathBuf,
        config_file: PathBuf,
        default_download_dir: PathBuf,
    ) -> (res: Config)
        ensures
            res.resolves(*cli, file, config_dir, config_file, default_download_dir),
    {
        let client_id = match owned_trimmed(&cli.client_id) {
            Some(value) => Some(value),
            None => file.client_id,
        };
        let client_secret = owned_trimmed(&cli.client_secret);
        let download_dir = match &cli.download_dir {
            Some(dir) => dir.clone(),
            None => match file.download_dir {
                Some(dir) => dir,
                None => default_download_dir,
            },
        };
        let playback_bitrate = match cli.bitrate {
            Some(bitrate) => Some(bitrate),
            None => file.playback_bitrate,
        };
        let playback_mode = match file.playback_mode {
            Some(mode) => mode,
            None => PlaybackMode::default(),
        };
        let download_bitrate = match file.download_bitrate {
            Some(bitrate) => bitrate.nearest_download(),
            None => Bitrate::Original,
        };
        let plain_token_file = match file.plain_token_file {
            Some(plain) => plain,
            None => false,
        };
        Config {
            config_dir,
            config_file,
            client_id,
            client_secret,
            download_dir,
            playback_bitrate,
            playback_mode,
            download_bitrate,
            plain_token_file,
        }
    }

    /// What is saved to disk.
    pub fn to_file(&self) -> (res: ConfigFile)
        ensures
            self.saved_as(res),
    {
        ConfigFile {
            client_id: match &self.client_id {
                Some(client_id) => Some(client_id.clone()),
                None => None,
            },
            download_dir: Some(self.download_dir.clone()),
            playback_bitrate: self.playback_bitrate,
            playback_mode: Some(self.playback_mode),
            download_bitrate: Some(self.download_bitrate),
            plain_token_file: Some(self.plain_token_file),
        }
    }
}

/// What is saved does not depend on the client secret.
pub proof fn law_secret_is_not_saved(config: Config, secret: Option<String>, file: ConfigFile)
    ensures
        config.saved_as(file) == (Config { client_secret: secret, ..config }).saved_as(file),
{
}

/// A configuration that was saved and is read again with an empty command line is the same, but
/// for the secret, which is gone.
pub proof fn law_saved_config_is_read_back(
    config: Config,
    file: ConfigFile,
    cli: Cli,
    default_download_dir: PathBuf,
    again: Config,
)
    requires
        config.download_bitrate.is_file(),
        config.saved_as(file),
        cli.client_id is None,
        cli.client_secret is None,
        cli.download_dir is None,
        cli.bitrate is None,
        again.resolves(
            cli,
            file,
            config.config_dir,
            config.config_file,
            default_download_dir,
        ),
    ensures
        again.config_dir == config.config_dir,
        again.config_file == config.config_file,
        text_view(again.client_id) == text_view(config.client_id),
        again.client_secret is None,
        again.download_dir == config.download_dir,
        again.playback_bitrate == config.playback_bitrate,
        again.playback_mode == config.playback_mode,
        again.download_bitrate == config.download_bitrate,
        again.plain_token_file == config.plain_token_file,
{
}

/// A resolved configuration always downloads complete files.
pub proof fn law_resolved_downloads_are_files(
    config: Config,
    cli: Cli,
    file: ConfigFile,
    config_dir: PathBuf,
    config_file: PathBuf,
    default_download_dir: PathBuf,
)
    requires
        config.resolves(cli, file, config_dir, config_file, default_download_dir),
    ensures
        config.download_bitrate.is_file(),
{
}

} // verus!
