//! What is sent to log in, how long a token is good for, what the server's replies mean, and what
//! the settings come to.

use std::path::PathBuf;

use vstd::prelude::*;

use crate::api::{reply_verdict, user_id_in, ApiClientView, ReplyVerdict, SettingsView};
use crate::config::{text_view, Bitrate, Cli, Config, ConfigFile};
use crate::json::{field_of, JsonView};
use crate::laws::library::{first_is, lacks, stands_for};
use crate::oauth::{
    code_in, expired_at, refresh_fields, refusal_of, rejects_grant_type, revoke_fields,
    token_fields, token_of, DevicePoll, PollStep, PollVerdict, RawTokenResponse, RefusalView,
};
use crate::queue::PlaybackMode;
use crate::text::{ascii_lowercase, contains_text, decimal, trim, trim_end, CharSet};

verus! {

/// The form holds this value under this name, and the name once.
pub open spec fn names_once(
    form: Seq<(Seq<char>, Seq<char>)>,
    name: Seq<char>,
    value: Seq<char>,
) -> bool {
    exists|k: int|
        0 <= k < form.len() && #[trigger] form[k] == (name, value) && forall|j: int|
            0 <= j < form.len() && j != k ==> (#[trigger] form[j]).0 != name
}

/// The form does not hold the name.
pub open spec fn never_names(form: Seq<(Seq<char>, Seq<char>)>, name: Seq<char>) -> bool {
    forall|j: int| 0 <= j < form.len() ==> (#[trigger] form[j]).0 != name
}

/// The secret that is worth sending: without blanks around it, and not blank.
pub open spec fn secret_in(
    form: Seq<(Seq<char>, Seq<char>)>,
    secret: Option<&str>,
) -> bool {
    match secret {
        Some(text) => if trim(text@, CharSet::WhiteSpace).len() > 0 {
            names_once(form, "client_secret"@, trim(text@, CharSet::WhiteSpace))
        } else {
            never_names(form, "client_secret"@)
        },
        None => never_names(form, "client_secret"@),
    }
}

/// A request for a token names the kind of the grant, the client and the device code; one to
/// refresh a token names the client and the refresh token and says so; one to revoke it names both.
/// Each names the client's secret where there is one, and nothing else.
pub proof fn law_forms_name_what_is_needed(
    grant: Seq<char>,
    client: Seq<char>,
    secret: Option<&str>,
    code: Seq<char>,
)
    ensures
        ({
            let form = token_fields(grant, client, secret, code);
            &&& names_once(form, "grant_type"@, grant)
            &&& names_once(form, "client_id"@, client)
            &&& names_once(form, "device_code"@, code)
            &&& secret_in(form, secret)
            &&& form.len() <= 4
        }),
        ({
            let form = refresh_fields(client, secret, code);
            &&& names_once(form, "grant_type"@, "refresh_token"@)
            &&& names_once(form, "client_id"@, client)
            &&& names_once(form, "refresh_token"@, code)
            &&& secret_in(form, secret)
            &&& form.len() <= 4
        }),
        ({
            let form = revoke_fields(client, secret, code);
            &&& names_once(form, "client_id"@, client)
            &&& names_once(form, "refresh_token"@, code)
            &&& secret_in(form, secret)
            &&& form.len() <= 3
        }),
{
    reveal_strlit("grant_type");
    reveal_strlit("client_id");
    reveal_strlit("device_code");
    reveal_strlit("refresh_token");
    reveal_strlit("client_secret");
    assert("device_code"@[0] == 'd');
    assert("client_id"@.len() == 9 && "grant_type"@.len() == 10 && "device_code"@.len() == 11);
    assert("refresh_token"@.len() == 13 && "client_secret"@.len() == 13);
    assert("refresh_token"@[0] == 'r' && "client_secret"@[0] == 'c');
    let form = token_fields(grant, client, secret, code);
    assert(form[0] == ("grant_type"@, grant));
    assert(form[1] == ("client_id"@, client));
    assert(form[2] == ("device_code"@, code));
    let form = refresh_fields(client, secret, code);
    assert(form[0] == ("grant_type"@, "refresh_token"@));
    assert(form[1] == ("client_id"@, client));
    assert(form[2] == ("refresh_token"@, code));
    let form = revoke_fields(client, secret, code);
    assert(form[0] == ("refresh_token"@, code));
    assert(form[1] == ("client_id"@, client));
    if secret is Some && trim(secret->0@, CharSet::WhiteSpace).len() > 0 {
        let text = trim(secret->0@, CharSet::WhiteSpace);
        assert(token_fields(grant, client, secret, code)[3] == ("client_secret"@, text));
        assert(refresh_fields(client, secret, code)[3] == ("client_secret"@, text));
        assert(revoke_fields(client, secret, code)[2] == ("client_secret"@, text));
    }
}

/// A token is used until a minute before the time that the server gave it, counted from the reply,
/// and not after. Where the reply brings no refresh token the one before is kept.
pub proof fn law_tokens_are_good_until_a_minute_before(
    response: RawTokenResponse,
    previous: Option<&str>,
    now: int,
    later: int,
)
    requires
        0 <= now <= 0x1_0000_0000_0000,
        -0x1_0000_0000_0000 <= response.expires_in <= 0x1_0000_0000_0000,
    ensures
        ({
            let token = token_of(response, previous, now);
            &&& token is Some <==> response.refresh_token is Some || previous is Some
            &&& token is Some ==> {
                &&& token->0.access_token == response.access_token@
                &&& response.refresh_token is Some ==> token->0.refresh_token
                    == response.refresh_token->0@
                &&& response.refresh_token is None ==> token->0.refresh_token == previous->0@
                &&& expired_at(token->0.expires_at, later) <==> later >= now + response.expires_in
                    - 60
                &&& response.scope is None ==> token->0.scope.len() == 0
                &&& response.scope is Some ==> token->0.scope == response.scope->0.scopes()
            }
        }),
{
}

/// While the user has not decided, polling goes on as before, and five seconds more slowly where
/// the server asks for that. A denial, an expired code and any other refusal end it, each with its
/// own words.
pub proof fn law_refusals_are_told_apart(
    poll: DevicePoll,
    description: Option<Seq<char>>,
    status: Seq<char>,
    text: Seq<char>,
    code: Seq<char>,
)
    requires
        poll.interval <= u64::MAX - 5,
        poll.fallback_used || !rejects_grant_type(
            Some(RefusalView { error: Some(code), description }),
            text,
        ),
    ensures
        ({
            let told = poll.refused(
                Some(RefusalView { error: Some(code), description }),
                status,
                text,
            );
            let said = match description {
                Some(words) => words,
                None => ""@,
            };
            let known = code == "authorization_pending"@ || code == "slow_down"@ || code
                == "expired_token"@ || code == "access_denied"@;
            &&& code == "authorization_pending"@ ==> told == PollVerdict::Again(poll)
            &&& code == "slow_down"@ ==> told == PollVerdict::Again(
                DevicePoll { interval: (poll.interval + 5) as u64, ..poll },
            )
            &&& code == "expired_token"@ ==> told == PollVerdict::Fail(
                "device code expired; restart login"@,
            )
            &&& code == "access_denied"@ ==> told == PollVerdict::Fail("authorization was denied"@)
            &&& code == "invalid_client"@ ==> told == PollVerdict::Fail(
                code + ": "@ + said
                    + ". Check your client_id; if your iBroadcast app requires a secret, set IBROADCAST_CLIENT_SECRET."@,
            )
            &&& !known && code != "invalid_client"@ ==> told == PollVerdict::Fail(
                code + ": "@ + said,
            )
        }),
        poll.fallback_used || !rejects_grant_type(None, text) ==> poll.refused(None, status, text)
            == PollVerdict::Fail("server returned "@ + status + ": "@ + text),
{
    reveal_strlit("authorization_pending");
    reveal_strlit("slow_down");
    reveal_strlit("expired_token");
    reveal_strlit("access_denied");
    reveal_strlit("invalid_client");
    assert("authorization_pending"@.len() == 21 && "slow_down"@.len() == 9);
    assert("expired_token"@.len() == 13 && "access_denied"@.len() == 13);
    assert("expired_token"@[0] == 'e' && "access_denied"@[0] == 'a');
    assert("invalid_client"@.len() == 14);
}

/// The kind of the grant is refused where the words of the refusal speak of an invalid grant type,
/// in whatever letter case.
pub proof fn law_refused_grants_are_recognised(text: Seq<char>)
    ensures
        rejects_grant_type(None, text) <==> contains_text(ascii_lowercase(text), "grant_type"@)
            && contains_text(ascii_lowercase(text), "invalid"@),
{
}

/// The server is asked every so many seconds, at once only where the other kind of grant is tried,
/// and no more once the code has expired. The standard kind of grant is tried first.
pub proof fn law_polling_keeps_its_pace(
    interval: u64,
    expires_in: Option<u64>,
    poll: DevicePoll,
    elapsed: int,
)
    requires
        elapsed >= 0,
    ensures
        ({
            let begun = DevicePoll::started(interval, expires_in);
            let waits = begun.stepped(elapsed).1;
            &&& begun.interval == (if interval == 0 {
                1
            } else {
                interval
            })
            &&& expires_in is None ==> waits == (PollStep::Poll { wait_seconds: begun.interval })
            &&& expires_in is Some && elapsed < expires_in->0 * 1_000_000_000 ==> waits == (
            PollStep::Poll { wait_seconds: begun.interval })
            &&& expires_in is Some && elapsed >= expires_in->0 * 1_000_000_000 ==> waits
                == PollStep::Expired
            &&& begun.spec_grant_type() == "urn:ietf:params:oauth:grant-type:device_code"@
            &&& (DevicePoll { fallback_used: true, ..begun }).spec_grant_type() == "device_code"@
        }),
        poll.timeout is None && !poll.sleep_before_poll ==> poll.stepped(elapsed).1 == (
        PollStep::Poll { wait_seconds: 0 }) && poll.stepped(elapsed).0.sleep_before_poll,
        poll.timeout is None && poll.sleep_before_poll ==> poll.stepped(elapsed) == (
            poll,
            PollStep::Poll { wait_seconds: poll.interval },
        ),
{
}

/// A refusal that could not be read is recognised by the word that it holds.
pub proof fn law_refusals_are_found_in_text(text: Seq<char>)
    ensures
        match refusal_of(None, text) {
            Some(refusal) => refusal.description is None && refusal.error is Some && contains_text(
                text,
                refusal.error->0,
            ),
            None => !contains_text(text, "authorization_pending"@) && !contains_text(
                text,
                "slow_down"@,
            ) && !contains_text(text, "expired_token"@) && !contains_text(text, "access_denied"@)
                && !contains_text(text, "invalid_client"@),
        },
        contains_text(text, "authorization_pending"@) ==> code_in(text) == Some(
            "authorization_pending"@,
        ),
        contains_text(text, "slow_down"@) && !contains_text(text, "authorization_pending"@)
            ==> code_in(text) == Some("slow_down"@),
{
}

/// The reply holds a number under this name in the object of that name.
pub open spec fn number_under(
    reply: Seq<(Seq<char>, JsonView)>,
    object: Seq<char>,
    name: Seq<char>,
    n: u64,
) -> bool {
    exists|inner: Seq<(Seq<char>, JsonView)>, value: JsonView|
        #[trigger] first_is(reply, object, JsonView::Object(inner)) && #[trigger] first_is(
            inner,
            name,
            value,
        ) && stands_for(value, n)
}

proof fn lemma_number_under(
    reply: Seq<(Seq<char>, JsonView)>,
    object: Seq<char>,
    name: Seq<char>,
    n: u64,
)
    requires
        number_under(reply, object, name, n),
    ensures
        crate::api::number_at(field_of(JsonView::Object(reply).field(object), name)) == Some(n),
{
    let (inner, value) = choose|inner: Seq<(Seq<char>, JsonView)>, value: JsonView|
        #[trigger] first_is(reply, object, JsonView::Object(inner)) && #[trigger] first_is(
            inner,
            name,
            value,
        ) && stands_for(value, n);
    crate::laws::library::lemma_first_is(reply, object, JsonView::Object(inner));
    crate::laws::library::lemma_first_is(inner, name, value);
}

/// The user is who the reply names: as `id` or `user_id` of `user`, then as `user_id` or `id` of
/// `status`, then as `user_id` of the reply itself.
pub proof fn law_the_user_is_found(reply: Seq<(Seq<char>, JsonView)>, value: JsonView, n: u64)
    ensures
        number_under(reply, "user"@, "id"@, n) ==> user_id_in(JsonView::Object(reply)) == Some(n),
        lacks(reply, "user"@) && number_under(reply, "status"@, "user_id"@, n) ==> user_id_in(
            JsonView::Object(reply),
        ) == Some(n),
        lacks(reply, "user"@) && lacks(reply, "status"@) && first_is(reply, "user_id"@, value)
            && stands_for(value, n) ==> user_id_in(JsonView::Object(reply)) == Some(n),
        lacks(reply, "user"@) && lacks(reply, "status"@) && lacks(reply, "user_id"@)
            ==> user_id_in(JsonView::Object(reply)) is None,
{
    if number_under(reply, "user"@, "id"@, n) {
        lemma_number_under(reply, "user"@, "id"@, n);
    }
    if lacks(reply, "user"@) {
        crate::laws::library::lemma_lacks(reply, "user"@);
    }
    if lacks(reply, "status"@) {
        crate::laws::library::lemma_lacks(reply, "status"@);
    }
    if lacks(reply, "user_id"@) {
        crate::laws::library::lemma_lacks(reply, "user_id"@);
    }
    if number_under(reply, "status"@, "user_id"@, n) {
        lemma_number_under(reply, "status"@, "user_id"@, n);
    }
    if first_is(reply, "user_id"@, value) {
        crate::laws::library::lemma_first_is(reply, "user_id"@, value);
    }
}

/// The servers are those that the reply names, without slashes behind them, and the standard ones
/// where it names none.
pub proof fn law_servers_are_as_told(
    reply: Seq<(Seq<char>, JsonView)>,
    inner: Seq<(Seq<char>, JsonView)>,
    server: Seq<char>,
)
    ensures
        ({
            let told = SettingsView::told(JsonView::Object(reply));
            let named = first_is(reply, "settings"@, JsonView::Object(inner));
            &&& named && first_is(inner, "streaming_server"@, JsonView::Text(server))
                ==> told.streaming_server == trim_end(server, CharSet::Slash)
            &&& named && first_is(inner, "artwork_server"@, JsonView::Text(server))
                ==> told.artwork_server == trim_end(server, CharSet::Slash)
            &&& named && lacks(inner, "streaming_server"@) ==> told.streaming_server
                == "https://streaming.ibroadcast.com"@
            &&& named && lacks(inner, "artwork_server"@) ==> told.artwork_server
                == "https://artwork.ibroadcast.com"@
            &&& lacks(reply, "settings"@) ==> told.streaming_server
                == "https://streaming.ibroadcast.com"@ && told.artwork_server
                == "https://artwork.ibroadcast.com"@
        }),
{
    if first_is(reply, "settings"@, JsonView::Object(inner)) {
        crate::laws::library::lemma_first_is(reply, "settings"@, JsonView::Object(inner));
        if first_is(inner, "streaming_server"@, JsonView::Text(server)) {
            crate::laws::library::lemma_first_is(
                inner,
                "streaming_server"@,
                JsonView::Text(server),
            );
        }
        if first_is(inner, "artwork_server"@, JsonView::Text(server)) {
            crate::laws::library::lemma_first_is(inner, "artwork_server"@, JsonView::Text(server));
        }
        if lacks(inner, "streaming_server"@) {
            crate::laws::library::lemma_lacks(inner, "streaming_server"@);
        }
        if lacks(inner, "artwork_server"@) {
            crate::laws::library::lemma_lacks(inner, "artwork_server"@);
        }
    }
    if lacks(reply, "settings"@) {
        crate::laws::library::lemma_lacks(reply, "settings"@);
    }
}

/// A request names the client, its version, the device, the agent and what is asked for.
pub proof fn law_requests_name_the_client(client: ApiClientView, mode: Seq<char>)
    ensures
        ({
            let fields = client.common_fields(mode);
            &&& names_once(fields, "client"@, client.client_name)
            &&& names_once(fields, "version"@, client.version)
            &&& names_once(fields, "device_name"@, client.device_name)
            &&& names_once(fields, "user_agent"@, client.user_agent)
            &&& names_once(fields, "mode"@, mode)
            &&& fields.len() == 5
        }),
{
    reveal_strlit("client");
    reveal_strlit("version");
    reveal_strlit("device_name");
    reveal_strlit("user_agent");
    reveal_strlit("mode");
    assert("client"@.len() == 6 && "version"@.len() == 7 && "device_name"@.len() == 11);
    assert("user_agent"@.len() == 10 && "mode"@.len() == 4);
    let fields = client.common_fields(mode);
    assert(fields[0] == ("client"@, client.client_name));
    assert(fields[1] == ("version"@, client.version));
    assert(fields[2] == ("device_name"@, client.device_name));
    assert(fields[3] == ("user_agent"@, client.user_agent));
    assert(fields[4] == ("mode"@, mode));
}

/// A reply is accepted unless it says that the request failed, and then the server's own words are
/// told; that the user is not authenticated leads to a new token first.
pub proof fn law_replies_are_understood(
    reply: Seq<(Seq<char>, JsonView)>,
    words: Seq<char>,
    retried: bool,
)
    ensures
        ({
            let value = JsonView::Object(reply);
            let refused = first_is(reply, "authenticated"@, JsonView::Bool(false));
            let good = lacks(reply, "authenticated"@) || first_is(
                reply,
                "authenticated"@,
                JsonView::Bool(true),
            );
            let failed = first_is(reply, "result"@, JsonView::Bool(false));
            let done = lacks(reply, "result"@) || first_is(reply, "result"@, JsonView::Bool(true));
            &&& refused && !retried ==> reply_verdict(value, retried)
                == ReplyVerdict::RefreshAndRetry
            &&& (good || retried) && done ==> reply_verdict(value, retried) == ReplyVerdict::Accept
            &&& (good || retried) && failed && first_is(
                reply,
                "message"@,
                JsonView::Text(words),
            ) ==> reply_verdict(value, retried) == ReplyVerdict::Fail(words)
            &&& (good || retried) && failed && lacks(reply, "message"@) ==> reply_verdict(
                value,
                retried,
            ) == ReplyVerdict::Fail("operation failed"@)
        }),
{
    let no = JsonView::Bool(false);
    let yes = JsonView::Bool(true);
    if first_is(reply, "authenticated"@, no) {
        crate::laws::library::lemma_first_is(reply, "authenticated"@, no);
    }
    if first_is(reply, "authenticated"@, yes) {
        crate::laws::library::lemma_first_is(reply, "authenticated"@, yes);
    }
    if lacks(reply, "authenticated"@) {
        crate::laws::library::lemma_lacks(reply, "authenticated"@);
    }
    if first_is(reply, "result"@, no) {
        crate::laws::library::lemma_first_is(reply, "result"@, no);
    }
    if first_is(reply, "result"@, yes) {
        crate::laws::library::lemma_first_is(reply, "result"@, yes);
    }
    if lacks(reply, "result"@) {
        crate::laws::library::lemma_lacks(reply, "result"@);
    }
    if first_is(reply, "message"@, JsonView::Text(words)) {
        crate::laws::library::lemma_first_is(reply, "message"@, JsonView::Text(words));
    }
    if lacks(reply, "message"@) {
        crate::laws::library::lemma_lacks(reply, "message"@);
    }
}

/// What the command line says goes before what the file says, and that before the default. Blank
/// texts on the command line say nothing, and the secret comes from there alone.
pub proof fn law_the_command_line_goes_first(
    config: Config,
    cli: Cli,
    file: ConfigFile,
    config_dir: PathBuf,
    config_file: PathBuf,
    default_download_dir: PathBuf,
)
    requires
        config.resolves(cli, file, config_dir, config_file, default_download_dir),
    ensures
        cli.bitrate is Some ==> config.playback_bitrate == cli.bitrate,
        cli.bitrate is None ==> config.playback_bitrate == file.playback_bitrate,
        cli.download_dir is Some ==> config.download_dir == cli.download_dir->0,
        cli.download_dir is None && file.download_dir is Some ==> config.download_dir
            == file.download_dir->0,
        cli.download_dir is None && file.download_dir is None ==> config.download_dir
            == default_download_dir,
        cli.client_id is Some && trim(cli.client_id->0@, CharSet::WhiteSpace).len() > 0
            ==> text_view(config.client_id) == Some(trim(cli.client_id->0@, CharSet::WhiteSpace)),
        cli.client_id is None || trim(cli.client_id->0@, CharSet::WhiteSpace).len() == 0
            ==> text_view(config.client_id) == text_view(file.client_id),
        cli.client_secret is Some && trim(cli.client_secret->0@, CharSet::WhiteSpace).len() > 0
            ==> text_view(config.client_secret) == Some(
            trim(cli.client_secret->0@, CharSet::WhiteSpace),
        ),
        cli.client_secret is None || trim(cli.client_secret->0@, CharSet::WhiteSpace).len() == 0
            ==> config.client_secret is None,
        file.playback_mode is Some ==> config.playback_mode == file.playback_mode->0,
        file.playback_mode is None ==> config.playback_mode == PlaybackMode::Sequential,
        file.download_bitrate is None || file.download_bitrate == Some(Bitrate::Original)
            ==> config.download_bitrate == Bitrate::Original,
        file.download_bitrate is Some && file.download_bitrate != Some(Bitrate::Original)
            ==> config.download_bitrate == Bitrate::Kbps128,
        config.plain_token_file <==> file.plain_token_file == Some(true),
        config.config_dir == config_dir,
        config.config_file == config_file,
{
}

/// A bitrate is written as its number of kilobits per second, and as `orig` where the file is
/// served as it is. What is served in segments says so before the number. The wanted bandwidth is
/// the bitrate in bits per second, and the largest where the file is served as it is. Downloads are
/// at 128 kilobits per second or as the file is, and alternate between the two.
pub proof fn law_bitrates_are_what_they_say(bitrate: Bitrate)
    ensures
        bitrate.rate() is Some ==> bitrate.spec_path_segment() == decimal(bitrate.rate()->0 as nat),
        bitrate.rate() is None <==> bitrate == Bitrate::Original,
        bitrate.rate() is None ==> bitrate.spec_path_segment() == "orig"@,
        bitrate.is_file() ==> bitrate.spec_stream_path_segment() == bitrate.spec_path_segment(),
        !bitrate.is_file() ==> bitrate.spec_stream_path_segment() == "hls_"@
            + bitrate.spec_path_segment(),
        bitrate.is_file() <==> bitrate.rate() is None || bitrate.rate() == Some(128u64),
        bitrate.rate() is Some ==> bitrate.spec_target_bandwidth() == bitrate.rate()->0 * 1000,
        bitrate.rate() is None ==> bitrate.spec_target_bandwidth() == u64::MAX,
        bitrate.spec_next_download().is_file(),
        bitrate.spec_next_download() != bitrate,
        bitrate.is_file() ==> bitrate.spec_next_download().spec_next_download() == bitrate,
        bitrate != Bitrate::Original ==> bitrate.spec_nearest_download() == Bitrate::Kbps128,
        bitrate == Bitrate::Original ==> bitrate.spec_nearest_download() == bitrate,
        Bitrate::Kbps96.rate() == Some(96u64),
        Bitrate::Kbps128.rate() == Some(128u64),
        Bitrate::Kbps192.rate() == Some(192u64),
        Bitrate::Kbps256.rate() == Some(256u64),
        Bitrate::Kbps320.rate() == Some(320u64),
{
    reveal_strlit("96");
    reveal_strlit("128");
    reveal_strlit("192");
    reveal_strlit("256");
    reveal_strlit("320");
    reveal_strlit("hls_");
    reveal_strlit("hls_96");
    reveal_strlit("hls_192");
    reveal_strlit("hls_256");
    reveal_strlit("hls_320");
    reveal_with_fuel(decimal, 3);
    if bitrate.rate() is Some {
        assert(bitrate.spec_path_segment() =~= decimal(bitrate.rate()->0 as nat));
    }
    if !bitrate.is_file() {
        assert(bitrate.spec_stream_path_segment() =~= "hls_"@ + bitrate.spec_path_segment());
    }
}

} // verus!
