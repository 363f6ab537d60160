use ibroadcast_tui::api::{
    bitrate_preference, file_id_from_track_file, find_user_id, library_response, read_reply,
    reply_step, status_response, stream_path, track_file_with_bitrate, ApiClient, ApiSettings,
    LibraryResponse, ReplyStep, StatusResponse, StreamContext,
};
use ibroadcast_tui::config::Bitrate;
use ibroadcast_tui::error::AppError;
use ibroadcast_tui::json::Json;
use ibroadcast_tui::library::{Library, Track};
use ibroadcast_tui::oauth::{
    add_client_secret, is_invalid_grant_type, joined_scopes, oauth_error_from_text, refresh_form,
    revoke_form, token_form, DeviceCode, DevicePoll, OAuthErrorResponse, PollStep,
    RawTokenResponse, ScopeField, TokenSet, IBROADCAST_DEVICE_GRANT_TYPE,
    RFC8628_DEVICE_GRANT_TYPE,
};
use ibroadcast_tui::session::{AccountRequest, EstablishedSession, Establishing};

fn token(access: &str, expires_at: i64) -> TokenSet {
    TokenSet {
        access_token: access.to_owned(),
        refresh_token: "r".to_owned(),
        expires_at,
        scope: vec![],
    }
}

fn client(access: &str) -> ApiClient {
    ApiClient::new(
        "id".to_owned(),
        Some("secret".to_owned()),
        token(access, i64::MAX),
        "0.1.0".to_owned(),
        "desk".to_owned(),
    )
}

fn json(text: &str) -> Json {
    Json::parse(text).unwrap()
}

#[test]
fn rewrites_track_file_bitrate() {
    assert_eq!(
        track_file_with_bitrate("/128/d0c/6f4/21127414", Bitrate::Kbps320).unwrap(),
        "/320/d0c/6f4/21127414"
    );
    assert_eq!(
        track_file_with_bitrate("/128/d0c/6f4/21127414", Bitrate::Original).unwrap(),
        "/orig/d0c/6f4/21127414"
    );
}

#[test]
fn extracts_file_id() {
    assert_eq!(
        file_id_from_track_file("/128/d0c/6f4/21127414").unwrap(),
        21127414
    );
}

fn context() -> StreamContext {
    StreamContext {
        streaming_server: "https://streaming.ibroadcast.com".to_owned(),
        access_token: "abc def".to_owned(),
        user_id: 42,
        platform: "ibroadcast-tui".to_owned(),
        version: "0.1.0".to_owned(),
    }
}

#[test]
fn builds_stream_url() {
    let context = context();
    let track = Track {
        file: "/128/d0c/6f4/21127414".to_owned(),
        ..Track::default()
    };
    let url = context.build_stream_url(&track, Bitrate::Kbps128).unwrap();
    assert!(url.starts_with("https://streaming.ibroadcast.com/128/d0c/6f4/21127414?"));
    assert!(url.contains("Signature=abc%20def"));
    assert!(url.contains("file_id=21127414"));
    assert!(url.contains("user_id=42"));

    // The address is signed with the time at which it was built.
    let expires = url.split("Expires=").nth(1).unwrap();
    let expires: i64 = expires.split('&').next().unwrap().parse().unwrap();
    assert!((chrono::Utc::now().timestamp_millis() - expires).abs() < 60_000);
}

#[test]
fn addresses_are_made_of_all_their_parts() {
    let mut context = context();
    context.access_token = "ä/+~".to_owned();
    assert_eq!(
        context
            .build_stream_url_at("//128//a/7/", Bitrate::Kbps192, -5)
            .unwrap(),
        "https://streaming.ibroadcast.com/hls_192/a/7?Expires=-5&Signature=%C3%A4%2F%2B~\
         &file_id=7&user_id=42&platform=ibroadcast-tui&version=0.1.0"
    );
    assert_eq!(stream_path("/128/a/7", Bitrate::Kbps96).unwrap(), "/hls_96/a/7");
}

#[test]
fn paths_that_name_no_track_are_refused() {
    match track_file_with_bitrate("/128", Bitrate::Kbps128) {
        Err(AppError::Api(message)) => assert_eq!(message, "invalid track file path: /128"),
        other => panic!("unexpected {other:?}"),
    }
    match file_id_from_track_file("/128/x") {
        Err(AppError::Api(message)) => assert_eq!(message, "invalid track file path: /128/x"),
        other => panic!("unexpected {other:?}"),
    }
    assert!(file_id_from_track_file("").is_err());
    assert!(file_id_from_track_file("/1/99999999999999999999").is_err());
    assert!(context()
        .build_stream_url_at("7", Bitrate::Kbps128, 0)
        .is_err());
}

#[test]
fn user_ids_are_found_where_they_are() {
    assert_eq!(find_user_id(&json(r#"{"user": {"id": "12"}}"#)), Some(12));
    assert_eq!(
        find_user_id(&json(r#"{"user": {"user_id": 3}, "user_id": 4}"#)),
        Some(3)
    );
    assert_eq!(find_user_id(&json(r#"{"status": {"id": 5}}"#)), Some(5));
    assert_eq!(find_user_id(&json(r#"{"user": 9, "user_id": 6}"#)), Some(6));
    assert_eq!(find_user_id(&json(r#"{"user_id": -6}"#)), None);
}

#[test]
fn settings_are_read_and_merged() {
    let value = json(r#"{"settings": {"streaming_server": "https://s.example//"}}"#);
    let told = ApiSettings::from_response(&value);
    assert_eq!(told.streaming_server, "https://s.example");
    assert_eq!(told.artwork_server, "https://artwork.ibroadcast.com");

    let mut settings = ApiSettings::default();
    settings.merge_from(ApiSettings {
        streaming_server: String::new(),
        artwork_server: "https://a.example".to_owned(),
    });
    assert_eq!(settings.streaming_server, "https://streaming.ibroadcast.com");
    assert_eq!(settings.artwork_server, "https://a.example");

    let status = status_response(&json(r#"{"user": {"id": 1}}"#));
    assert_eq!(status.user_id, Some(1));
    assert_eq!(
        status.settings.streaming_server,
        "https://streaming.ibroadcast.com"
    );
}

#[test]
fn replies_are_accepted_retried_or_refused() {
    assert!(matches!(
        reply_step(&json(r#"{"authenticated": false}"#), false),
        ReplyStep::RefreshAndRetry
    ));
    assert!(matches!(
        reply_step(&json(r#"{"authenticated": false}"#), true),
        ReplyStep::Accept
    ));
    assert!(matches!(
        reply_step(&json(r#"{"result": false, "message": "no"}"#), false),
        ReplyStep::Fail(AppError::Api(message)) if message == "no"
    ));
    assert!(matches!(
        reply_step(&json(r#"{"result": false}"#), true),
        ReplyStep::Fail(AppError::Api(message)) if message == "operation failed"
    ));
    assert!(matches!(reply_step(&json("{}"), false), ReplyStep::Accept));

    match read_reply(false, "500 Internal Server Error", "oops") {
        Err(AppError::Api(message)) => {
            assert_eq!(message, "server returned 500 Internal Server Error: oops")
        }
        other => panic!("unexpected {other:?}"),
    }
    assert!(matches!(
        read_reply(true, "200 OK", "oops"),
        Err(AppError::Json(_))
    ));
    assert!(read_reply(true, "200 OK", "{}").is_ok());
}

#[test]
fn preferred_bitrates_and_libraries_are_read() {
    assert_eq!(
        bitrate_preference(&json(r#"{"bitrate": 192}"#)),
        Some(Bitrate::Kbps192)
    );
    assert_eq!(bitrate_preference(&json(r#"{"bitrate": "192"}"#)), None);
    assert_eq!(bitrate_preference(&json(r#"{"bitrate": 1}"#)), None);
    assert!(matches!(
        library_response(&json("{}")),
        Err(AppError::Library(message)) if message == "response omitted library"
    ));
    let response = library_response(&json(
        r#"{"library": {}, "settings": {"artwork_server": "https://a.example/"}}"#,
    ))
    .unwrap();
    assert_eq!(response.settings.artwork_server, "https://a.example");
}

#[test]
fn requests_carry_their_fields() {
    let client = client("a");
    let bytes = client
        .request_bytes(
            "status",
            vec![
                ("mode".to_owned(), "other".to_owned()),
                ("x".to_owned(), "\"".to_owned()),
            ],
        )
        .unwrap();
    let value = json(std::str::from_utf8(&bytes).unwrap());
    let field = |name: &str| value.get(name).unwrap().as_str().unwrap().to_owned();
    assert_eq!(field("client"), "ibroadcast-tui");
    assert_eq!(field("version"), "0.1.0");
    assert_eq!(field("device_name"), "desk");
    assert_eq!(field("user_agent"), "ibroadcast-tui/0.1.0");
    assert_eq!(field("mode"), "other");
    assert_eq!(field("x"), "\"");
    assert_eq!(value.as_object().unwrap().len(), 6);
    assert_eq!(client.user_agent(), "ibroadcast-tui/0.1.0");
    assert_eq!(client.client_secret(), Some("secret"));
    assert_eq!(client.client_id(), "id");
}

#[test]
fn refreshed_tokens_are_told_once() {
    let mut client = client("a");
    assert!(!client.needs_refresh());
    assert!(!client.take_refreshed());
    client.set_token(token("b", 0));
    assert!(client.needs_refresh());
    assert!(client.take_refreshed());
    assert!(!client.take_refreshed());
    assert_eq!(client.token().access_token, "b");
}

#[test]
fn expired_tokens_use_a_clock_skew() {
    let token = token("a", chrono::Utc::now().timestamp() + 30);
    assert!(token.is_expired());
    assert!(token.is_expired_at(token.expires_at - 60));
    assert!(!token.is_expired_at(token.expires_at - 61));
}

#[test]
fn client_secret_is_added_only_when_present() {
    let mut form = vec![("grant_type", "device_code"), ("client_id", "id")];
    add_client_secret(&mut form, Some(" secret "));
    assert_eq!(form.last(), Some(&("client_secret", "secret")));

    let mut form = vec![("grant_type", "device_code"), ("client_id", "id")];
    add_client_secret(&mut form, Some("   "));
    assert!(!form.iter().any(|(key, _)| *key == "client_secret"));
}

#[test]
fn oauth_pending_error_can_be_detected_from_plain_text() {
    let error = oauth_error_from_text(None, "authorization_pending").unwrap();
    assert_eq!(error.error.as_deref(), Some("authorization_pending"));
}

#[test]
fn oauth_errors_that_were_parsed_go_before_the_text() {
    let parsed = OAuthErrorResponse {
        error: Some("slow_down".to_owned()),
        error_description: None,
    };
    let error = oauth_error_from_text(Some(parsed), "access_denied").unwrap();
    assert_eq!(error.error.as_deref(), Some("slow_down"));
    let error = oauth_error_from_text(None, "so: access_denied!").unwrap();
    assert_eq!(error.error.as_deref(), Some("access_denied"));
    assert!(oauth_error_from_text(None, "what?").is_none());
}

#[test]
fn invalid_grant_type_errors_are_detected_from_description() {
    let error = OAuthErrorResponse {
        error: Some("invalid_request".to_owned()),
        error_description: Some("grant_type is invalid".to_owned()),
    };
    assert!(is_invalid_grant_type(Some(&error), ""));
    assert!(is_invalid_grant_type(
        None,
        r#"{"error":"grant_type is invalid"}"#
    ));
    assert!(!is_invalid_grant_type(None, "grant_type is missing"));
}

#[test]
fn forms_hold_what_the_server_asks_for() {
    assert_eq!(
        token_form("g", "id", Some("s"), "code"),
        vec![
            ("grant_type", "g"),
            ("client_id", "id"),
            ("device_code", "code"),
            ("client_secret", "s"),
        ]
    );
    assert_eq!(
        refresh_form("id", None, "old"),
        vec![
            ("grant_type", "refresh_token"),
            ("client_id", "id"),
            ("refresh_token", "old"),
        ]
    );
    assert_eq!(
        revoke_form("id", Some(""), "old"),
        vec![("refresh_token", "old"), ("client_id", "id")]
    );
    assert_eq!(joined_scopes(&["a", "b"]), "a b");
    assert_eq!(joined_scopes(&[]), "");
}

fn response(refresh: Option<&str>, scope: Option<ScopeField>) -> RawTokenResponse {
    RawTokenResponse {
        access_token: "a".to_owned(),
        refresh_token: refresh.map(str::to_owned),
        expires_in: 100,
        scope,
    }
}

#[test]
fn tokens_are_made_from_responses() {
    let scope = ScopeField::SpaceDelimited(" x  y ".to_owned());
    let token = TokenSet::from_response_at(response(Some("new"), Some(scope)), Some("old"), 50)
        .unwrap();
    assert_eq!(token.refresh_token, "new");
    assert_eq!(token.expires_at, 150);
    assert_eq!(token.scope, vec!["x".to_owned(), "y".to_owned()]);

    let scope = ScopeField::List(vec!["x y".to_owned()]);
    let token =
        TokenSet::from_response_at(response(None, Some(scope)), Some("old"), 50).unwrap();
    assert_eq!(token.refresh_token, "old");
    assert_eq!(token.scope, vec!["x y".to_owned()]);

    match TokenSet::from_response_at(response(None, None), None, 50) {
        Err(AppError::Auth(message)) => {
            assert_eq!(message, "token response omitted refresh_token")
        }
        other => panic!("unexpected {other:?}"),
    }

    let now = chrono::Utc::now().timestamp();
    let token = TokenSet::from_response(response(Some("r"), None), None).unwrap();
    assert!((token.expires_at - now - 100).abs() < 60);
}

fn refusal(code: &str) -> OAuthErrorResponse {
    OAuthErrorResponse {
        error: Some(code.to_owned()),
        error_description: Some("d".to_owned()),
    }
}

#[test]
fn polling_goes_by_the_servers_words() {
    let code = DeviceCode {
        device_code: "d".to_owned(),
        user_code: "u".to_owned(),
        verification_uri: "v".to_owned(),
        verification_uri_complete: None,
        interval: None,
        expires_in: Some(10),
    };
    assert_eq!(code.poll_interval(), 5);
    let mut poll = DevicePoll::begin(code.poll_interval(), code.expires_in);
    assert_eq!(poll.grant_type(), RFC8628_DEVICE_GRANT_TYPE);
    assert_eq!(poll.next_step(0), PollStep::Poll { wait_seconds: 5 });

    // The other grant type is tried at once.
    assert!(poll
        .on_refusal(Some(&refusal("invalid grant_type")), "400", "")
        .is_none());
    assert_eq!(poll.grant_type(), IBROADCAST_DEVICE_GRANT_TYPE);
    assert_eq!(poll.next_step(0), PollStep::Poll { wait_seconds: 0 });

    assert!(poll
        .on_refusal(Some(&refusal("authorization_pending")), "400", "")
        .is_none());
    assert!(poll
        .on_refusal(Some(&refusal("slow_down")), "400", "")
        .is_none());
    assert_eq!(poll.next_step(0), PollStep::Poll { wait_seconds: 10 });
    assert_eq!(poll.next_step(10_000_000_000), PollStep::Expired);
    assert_eq!(
        DevicePoll::expired_error().message(),
        "authentication error: device code expired before authorization completed"
    );

    let mut fails = |code: &str| {
        poll.on_refusal(Some(&refusal(code)), "400", "text")
            .unwrap()
            .message()
    };
    assert_eq!(
        fails("expired_token"),
        "authentication error: device code expired; restart login"
    );
    assert_eq!(
        fails("access_denied"),
        "authentication error: authorization was denied"
    );
    assert_eq!(fails("other"), "authentication error: other: d");
    assert!(fails("invalid_client").contains("IBROADCAST_CLIENT_SECRET"));
    // A second rejection of the grant type is an error.
    assert_eq!(
        fails("invalid grant_type"),
        "authentication error: invalid grant_type: d"
    );
    assert!(poll.on_refusal(None, "400", "text").is_some());
    assert_eq!(
        DevicePoll::begin(0, None).next_step(0),
        PollStep::Poll { wait_seconds: 1 }
    );
}

fn established(mut establishing: Establishing) -> EstablishedSession {
    establishing
        .on_status(Ok(StatusResponse {
            user_id: Some(9),
            settings: ApiSettings::default(),
        }))
        .unwrap();
    establishing.on_bitrate_preference(Ok(Some(Bitrate::Kbps96)));
    establishing
        .on_library(Ok(LibraryResponse {
            library: Library::default(),
            settings: ApiSettings {
                streaming_server: "https://s.example/".to_owned(),
                artwork_server: String::new(),
            },
        }))
        .unwrap()
}

#[test]
fn sessions_are_established_step_by_step() {
    let session = established(Establishing::begin(client("a")));
    assert_eq!(session.server_bitrate, Some(Bitrate::Kbps96));
    let track = Track {
        file: "/128/a/7".to_owned(),
        ..Track::default()
    };
    let url = session
        .session
        .stream_url(&track, Bitrate::Original)
        .unwrap();
    assert!(url.starts_with("https://s.example/orig/a/7?Expires="));
    assert!(url.contains("user_id=9"));
    assert_eq!(session.session.refresh_token(), "r");
}

#[test]
fn requests_follow_in_order_and_are_repeated_once() {
    let refused = json(r#"{"authenticated": false}"#);
    let mut establishing = Establishing::begin(client("a"));
    assert_eq!(establishing.request(), AccountRequest::Status);
    assert_eq!(establishing.request().mode(), "status");
    assert_eq!(
        establishing.request().url(),
        "https://api.ibroadcast.com/status"
    );
    assert!(matches!(
        establishing.on_reply(&refused),
        ReplyStep::RefreshAndRetry
    ));
    assert!(matches!(establishing.on_reply(&refused), ReplyStep::Accept));
    assert_eq!(establishing.request(), AccountRequest::Status);

    establishing
        .on_status(Ok(StatusResponse {
            user_id: Some(9),
            settings: ApiSettings::default(),
        }))
        .unwrap();
    assert_eq!(establishing.request(), AccountRequest::BitratePreference);
    assert_eq!(establishing.request().mode(), "getbitratepref");
    assert!(matches!(
        establishing.on_reply(&refused),
        ReplyStep::RefreshAndRetry
    ));

    establishing.on_bitrate_preference(Err(AppError::MissingToken));
    assert_eq!(establishing.request(), AccountRequest::Library);
    assert_eq!(establishing.request().mode(), "library");
    assert_eq!(
        establishing.request().url(),
        "https://library.ibroadcast.com"
    );
    assert!(matches!(
        establishing.on_reply(&refused),
        ReplyStep::RefreshAndRetry
    ));
    match establishing.on_reply(&json(r#"{"result": false, "message": "no"}"#)) {
        ReplyStep::Fail(AppError::Api(message)) => assert_eq!(message, "no"),
        other => panic!("unexpected {other:?}"),
    }
}

#[test]
fn rewriting_the_bitrate_keeps_the_file() {
    for file in ["/128/d0c/6f4/21127414", "128//a///7//", "/x/12"] {
        let id = file_id_from_track_file(file).unwrap();
        for bitrate in Bitrate::VALUES {
            let path = track_file_with_bitrate(file, bitrate).unwrap();
            assert_eq!(file_id_from_track_file(&path).unwrap(), id);
            let path = stream_path(file, bitrate).unwrap();
            assert_eq!(file_id_from_track_file(&path).unwrap(), id);
        }
    }
}

#[test]
fn a_status_without_a_user_is_an_error() {
    let mut establishing = Establishing::begin(client("a"));
    match establishing.on_status(Ok(StatusResponse {
        user_id: None,
        settings: ApiSettings::default(),
    })) {
        Err(AppError::Api(message)) => assert_eq!(message, "status response omitted user id"),
        other => panic!("unexpected {other:?}"),
    }
    // That the preferred bitrate is unknown is no error.
    establishing.on_bitrate_preference(Err(AppError::MissingToken));
}

#[test]
fn tokens_are_saved_until_the_user_logs_out() {
    let mut establishing = Establishing::begin(client("a"));
    assert!(!establishing.unsaved());
    establishing.set_token(token("b", i64::MAX));
    assert!(establishing.unsaved());
    establishing.mark_saved();
    assert!(!establishing.unsaved());

    let mut session = established(establishing).session;
    session.set_token(token("c", i64::MAX));
    assert!(session.unsaved());
    session.disable_persistence();
    assert!(!session.unsaved());
}
