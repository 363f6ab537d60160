//! An authenticated session.
//!
//! The session alone is responsible for keeping refreshed tokens: after every call that may refresh
//! the token it tells whether the token has to be saved, so that a rotated refresh token is not
//! lost when a later step fails.

use vstd::prelude::*;

use crate::api::{
    is_path_error, reply_step, reply_verdict, ApiClient, ApiClientView, ApiSettings,
    LibraryResponse, ReplyStep, ReplyVerdict, SettingsView, StatusResponse, StreamContextView,
    BITRATE_PREF_URL, LIBRARY_URL, STATUS_URL,
};
use crate::config::Bitrate;
use crate::error::{AppError, Result};
use crate::json::{Json, JsonView};
use crate::library::{Library, Track};
use crate::oauth::TokenSet;
use crate::text::{same_text, trim_end, CharSet};

verus! {

/// A session with its account's settings.
#[derive(Debug)]
pub struct Session {
    api: ApiClient,
    settings: ApiSettings,
    user_id: u64,
    persisted_access_token: String,
    /// Cleared at logout so that tasks in the background cannot save a token again after it has
    /// been deleted.
    persistence_enabled: bool,
}

pub struct SessionView {
    pub api: ApiClientView,
    pub settings: SettingsView,
    pub user_id: u64,
    pub persisted_access_token: Seq<char>,
    pub persistence_enabled: bool,
}

impl View for Session {
    type V = SessionView;

    closed spec fn view(&self) -> SessionView {
        SessionView {
            api: self.api@,
            settings: self.settings@,
            user_id: self.user_id,
            persisted_access_token: self.persisted_access_token@,
            persistence_enabled: self.persistence_enabled,
        }
    }
}

impl SessionView {
    /// The token has to be saved.
    pub open spec fn unsaved(self) -> bool {
        self.persistence_enabled && self.api.token.access_token != self.persisted_access_token
    }

    /// The token was saved.
    pub open spec fn saved(self) -> SessionView {
        SessionView { persisted_access_token: self.api.token.access_token, ..self }
    }

    /// What the addresses of streams are made of.
    pub open spec fn context(self) -> StreamContextView {
        StreamContextView {
            streaming_server: trim_end(self.settings.streaming_server, CharSet::Slash),
            access_token: self.api.token.access_token,
            user_id: self.user_id,
            platform: self.api.client_name,
            version: self.api.version,
        }
    }
}

/// Everything that a login and a sync of the library give.
#[derive(Debug)]
pub struct EstablishedSession {
    pub session: Session,
    pub library: Library,
    /// The playback bitrate that the account prefers, if the server reports one.
    pub server_bitrate: Option<Bitrate>,
}

/// What is asked of the servers to establish a session.
#[derive(Clone, Copy, Debug, PartialEq, Eq, Structural)]
pub enum AccountRequest {
    Status,
    BitratePreference,
    Library,
}

impl AccountRequest {
    pub open spec fn spec_mode(self) -> Seq<char> {
        match self {
            AccountRequest::Status => "status"@,
            AccountRequest::BitratePreference => "getbitratepref"@,
            AccountRequest::Library => "library"@,
        }
    }

    /// The mode that the request names.
    pub fn mode(self) -> (res: &'static str)
        ensures
            res@ == self.spec_mode(),
    {
        match self {
            AccountRequest::Status => "status",
            AccountRequest::BitratePreference => "getbitratepref",
            AccountRequest::Library => "library",
        }
    }

    pub open spec fn spec_url(self) -> Seq<char> {
        match self {
            AccountRequest::Status => STATUS_URL@,
            AccountRequest::BitratePreference => BITRATE_PREF_URL@,
            AccountRequest::Library => LIBRARY_URL@,
        }
    }

    /// The address that the request is sent to.
    pub fn url(self) -> (res: &'static str)
        ensures
            res@ == self.spec_url(),
    {
        match self {
            AccountRequest::Status => STATUS_URL,
            AccountRequest::BitratePreference => BITRATE_PREF_URL,
            AccountRequest::Library => LIBRARY_URL,
        }
    }
}

/// A session that is being established: the status is asked for first, then the preferred bitrate,
/// and then the library.
#[derive(Debug)]
pub struct Establishing {
    api: ApiClient,
    persisted_access_token: String,
    user_id: Option<u64>,
    settings: ApiSettings,
    preference_asked: bool,
    server_bitrate: Option<Bitrate>,
    retried: bool,
}

pub struct EstablishingView {
    pub api: ApiClientView,
    pub persisted_access_token: Seq<char>,
    /// The user id that the status names, once it has been asked for.
    pub user_id: Option<u64>,
    pub settings: SettingsView,
    /// Whether the preferred bitrate has been asked for.
    pub preference_asked: bool,
    pub server_bitrate: Option<Bitrate>,
    /// Whether the token was refreshed because the server did not accept it for the request that
    /// is under way.
    pub retried: bool,
}

impl View for Establishing {
    type V = EstablishingView;

    closed spec fn view(&self) -> EstablishingView {
        EstablishingView {
            api: self.api@,
            persisted_access_token: self.persisted_access_token@,
            user_id: self.user_id,
            settings: self.settings@,
            preference_asked: self.preference_asked,
            server_bitrate: self.server_bitrate,
            retried: self.retried,
        }
    }
}

impl EstablishingView {
    /// What is to be asked for.
    pub open spec fn request(self) -> AccountRequest {
        if self.user_id is None {
            AccountRequest::Status
        } else if !self.preference_asked {
            AccountRequest::BitratePreference
        } else {
            AccountRequest::Library
        }
    }

    /// After the server replied.
    pub open spec fn replied(self, value: JsonView) -> EstablishingView {
        EstablishingView {
            retried: self.retried || reply_verdict(value, self.retried)
                == ReplyVerdict::RefreshAndRetry,
            ..self
        }
    }

    /// After the status named a user id.
    pub open spec fn identified(self, user_id: u64, settings: SettingsView) -> EstablishingView {
        EstablishingView { user_id: Some(user_id), settings, retried: false, ..self }
    }

    /// After the preferred bitrate was asked for.
    pub open spec fn preferring(self, server_bitrate: Option<Bitrate>) -> EstablishingView {
        EstablishingView { preference_asked: true, server_bitrate, retried: false, ..self }
    }

    /// The token has to be saved.
    pub open spec fn unsaved(self) -> bool {
        self.api.token.access_token != self.persisted_access_token
    }

    /// The token was saved.
    pub open spec fn saved(self) -> EstablishingView {
        EstablishingView { persisted_access_token: self.api.token.access_token, ..self }
    }

    /// The session that the reply to the request for the library completes.
    pub open spec fn completed(self, settings: SettingsView) -> SessionView {
        SessionView {
            api: self.api,
            settings: self.settings.merged(settings),
            user_id: self.user_id->0,
            persisted_access_token: self.persisted_access_token,
            persistence_enabled: true,
        }
    }
}

impl Establishing {
    /// Begins with a token that is stored already.
    pub fn begin(api: ApiClient) -> (res: Establishing)
        ensures
            res@ == (EstablishingView {
                api: api@,
                persisted_access_token: api@.token.access_token,
                user_id: None,
                settings: SettingsView::standard(),
                preference_asked: false,
                server_bitrate: None,
                retried: false,
            }),
    {
        let persisted_access_token = api.token().access_token.clone();
        Establishing {
            api,
            persisted_access_token,
            user_id: None,
            settings: ApiSettings::default(),
            preference_asked: false,
            server_bitrate: None,
            retried: false,
        }
    }

    /// What is to be asked for next.
    pub fn request(&self) -> (res: AccountRequest)
        ensures
            res == self@.request(),
    {
        if self.user_id.is_none() {
            AccountRequest::Status
        } else if !self.preference_asked {
            AccountRequest::BitratePreference
        } else {
            AccountRequest::Library
        }
    }

    /// What the reply to the request that is under way leads to.
    pub fn on_reply(&mut self, value: &Json) -> (res: ReplyStep)
        ensures
            final(self)@ == old(self)@.replied(value@),
            match (res, reply_verdict(value@, old(self)@.retried)) {
                (ReplyStep::Accept, ReplyVerdict::Accept) => true,
                (ReplyStep::RefreshAndRetry, ReplyVerdict::RefreshAndRetry) => true,
                (ReplyStep::Fail(error), ReplyVerdict::Fail(message)) => error is Api
                    && error->Api_0@ == message,
                _ => false,
            },
    {
        let step = reply_step(value, self.retried);
        if let ReplyStep::RefreshAndRetry = &step {
            self.retried = true;
        }
        step
    }

    pub fn api(&self) -> (res: &ApiClient)
        ensures
            res@ == self@.api,
    {
        &self.api
    }

    /// Takes over a refreshed token.
    pub fn set_token(&mut self, token: TokenSet)
        ensures
            final(self)@ == (EstablishingView {
                api: ApiClientView { token: token@, refreshed: true, ..old(self)@.api },
                ..old(self)@
            }),
    {
        self.api.set_token(token);
    }

    /// Whether the token was refreshed and has to be saved.
    pub fn unsaved(&self) -> (res: bool)
        ensures
            res == self@.unsaved(),
    {
        !same_text(self.api.token().access_token.as_str(), self.persisted_access_token.as_str())
    }

    /// Records that the token was saved.
    pub fn mark_saved(&mut self)
        ensures
            final(self)@ == old(self)@.saved(),
    {
        self.persisted_access_token = self.api.token().access_token.clone();
    }

    /// Takes the status into account. Without it, or without a user id in it, there is no session.
    pub fn on_status(&mut self, status: Result<StatusResponse>) -> (res: Result<()>)
        ensures
            match status {
                Ok(response) => match response.user_id {
                    Some(user_id) => res is Ok && final(self)@ == old(self)@.identified(
                        user_id,
                        response.settings@,
                    ),
                    None => res is Err && res->Err_0 is Api && res->Err_0->Api_0@
                        == "status response omitted user id"@ && final(self)@ == old(self)@,
                },
                Err(error) => res == Err::<(), AppError>(error) && final(self)@ == old(self)@,
            },
    {
        match status {
            Ok(response) => match response.user_id {
                Some(user_id) => {
                    self.user_id = Some(user_id);
                    self.settings = response.settings;
                    self.retried = false;
                    Ok(())
                },
                None => Err(AppError::Api("status response omitted user id".to_owned())),
            },
            Err(error) => Err(error),
        }
    }

    /// Takes the preferred bitrate into account. That it could not be asked for is no failure.
    pub fn on_bitrate_preference(&mut self, preference: Result<Option<Bitrate>>)
        ensures
            final(self)@ == old(self)@.preferring(
                match preference {
                    Ok(bitrate) => bitrate,
                    Err(_) => None,
                },
            ),
    {
        self.preference_asked = true;
        self.retried = false;
        self.server_bitrate = match preference {
            Ok(bitrate) => bitrate,
            Err(_) => None,
        };
    }

    /// Takes the library into account, which completes the session.
    pub fn on_library(self, library: Result<LibraryResponse>) -> (res: Result<EstablishedSession>)
        requires
            self@.user_id is Some,
        ensures
            match library {
                Ok(response) => res is Ok && res->Ok_0.session@ == self@.completed(
                    response.settings@,
                ) && res->Ok_0.library == response.library && res->Ok_0.server_bitrate
                    == self@.server_bitrate,
                Err(error) => res == Err::<EstablishedSession, AppError>(error),
            },
    {
        let response = match library {
            Ok(response) => response,
            Err(error) => {
                return Err(error);
            },
        };
        let user_id: u64 = match self.user_id {
            Some(user_id) => user_id,
            None => 0,
        };
        let mut settings = self.settings;
        settings.merge_from(response.settings);
        Ok(
            EstablishedSession {
                session: Session {
                    api: self.api,
                    settings,
                    user_id,
                    persisted_access_token: self.persisted_access_token,
                    persistence_enabled: true,
                },
                library: response.library,
                server_bitrate: self.server_bitrate,
            },
        )
    }
}

impl Session {
    pub fn api(&self) -> (res: &ApiClient)
        ensures
            res@ == self@.api,
    {
        &self.api
    }

    /// Takes over a refreshed token.
    pub fn set_token(&mut self, token: TokenSet)
        ensures
            final(self)@ == (SessionView {
                api: ApiClientView { token: token@, refreshed: true, ..old(self)@.api },
                ..old(self)@
            }),
    {
        self.api.set_token(token);
    }

    /// Whether the token was refreshed and has to be saved.
    pub fn unsaved(&self) -> (res: bool)
        ensures
            res == self@.unsaved(),
    {
        self.persistence_enabled && !same_text(
            self.api.token().access_token.as_str(),
            self.persisted_access_token.as_str(),
        )
    }

    /// Records that the token was saved.
    pub fn mark_saved(&mut self)
        ensures
            final(self)@ == old(self)@.saved(),
    {
        self.persisted_access_token = self.api.token().access_token.clone();
    }

    /// The address of a track, signed now. The token has to be fresh.
    pub fn stream_url(&self, track: &Track, bitrate: Bitrate) -> (res: Result<String>)
        ensures
            match res {
                Ok(url) => StreamContextView::names_track(track.file@) && exists|millis: i64|
                    url@ == #[trigger] self@.context().url(track.file@, bitrate, millis as int),
                Err(error) => !StreamContextView::names_track(track.file@) && is_path_error(
                    error,
                    track.file@,
                ),
            },
    {
        let context = self.api.stream_context(&self.settings, self.user_id);
        let res = context.build_stream_url(track, bitrate);
        proof {
            if res is Ok {
                let url = res->Ok_0;
                let millis = choose|millis: i64|
                    url@ == #[trigger] context@.url(track.file@, bitrate, millis as int);
                assert(url@ == self@.context().url(track.file@, bitrate, millis as int));
            }
        }
        res
    }

    pub fn refresh_token(&self) -> (res: &str)
        ensures
            res@ == self@.api.token.refresh_token,
    {
        self.api.token().refresh_token.as_str()
    }

    /// Stops the session from saving tokens. Called at logout, before the stored token is deleted
    /// and revoked.
    pub fn disable_persistence(&mut self)
        ensures
            final(self)@ == (SessionView { persistence_enabled: false, ..old(self)@ }),
    {
        self.persistence_enabled = false;
    }
}

/// Once persistence is disabled no token is saved again, however often it is refreshed.
pub proof fn law_no_token_is_saved_after_logout(
    session: SessionView,
    token: crate::oauth::TokenView,
)
    requires
        !session.persistence_enabled,
    ensures
        !session.unsaved(),
        !(SessionView {
            api: ApiClientView { token, refreshed: true, ..session.api },
            ..session
        }).unsaved(),
{
}

/// A refreshed token has to be saved until it is: one with another access token is reported at
/// once, and saving it settles that.
pub proof fn law_refreshed_tokens_are_saved(
    session: SessionView,
    token: crate::oauth::TokenView,
)
    requires
        session.persistence_enabled,
        token.access_token != session.persisted_access_token,
    ensures
        ({
            let refreshed = SessionView {
                api: ApiClientView { token, refreshed: true, ..session.api },
                ..session
            };
            refreshed.unsaved() && !refreshed.saved().unsaved()
        }),
{
}

/// A session is established by three requests in this order: for the status, for the preferred
/// bitrate and for the library. A reply alone does not change what is asked for, and no request
/// counts as repeated because one before it was.
pub proof fn law_requests_follow_in_order(
    begun: EstablishingView,
    user_id: u64,
    settings: SettingsView,
    bitrate: Option<Bitrate>,
    value: JsonView,
)
    requires
        begun.user_id is None,
        !begun.preference_asked,
    ensures
        ({
            let identified = begun.identified(user_id, settings);
            let preferring = identified.replied(value).preferring(bitrate);
            &&& begun.request() == AccountRequest::Status
            &&& identified.request() == AccountRequest::BitratePreference
            &&& preferring.request() == AccountRequest::Library
            &&& begun.replied(value).request() == begun.request()
            &&& identified.replied(value).request() == identified.request()
            &&& preferring.replied(value).request() == preferring.request()
            &&& !identified.retried
            &&& !preferring.retried
        }),
{
}

/// A request is repeated at most once with a refreshed token: once a reply led to that, no later
/// reply to the same request does.
pub proof fn law_requests_are_repeated_once(
    establishing: EstablishingView,
    value: JsonView,
    again: JsonView,
)
    requires
        reply_verdict(value, establishing.retried) == ReplyVerdict::RefreshAndRetry,
    ensures
        reply_verdict(again, establishing.replied(value).retried) != ReplyVerdict::RefreshAndRetry,
        establishing.replied(value).replied(again) == establishing.replied(value),
{
}

/// The servers that the library names win over those that the status names.
pub proof fn law_library_settings_win(establishing: EstablishingView, settings: SettingsView)
    requires
        settings.streaming_server.len() > 0,
        settings.artwork_server.len() > 0,
    ensures
        establishing.completed(settings).settings == settings,
{
}

} // verus!
