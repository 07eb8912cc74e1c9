//! The credential service: configuration, the two Twitch requests, and the
//! login orchestration.
//!
//! Each network call is split into a verified request builder, the transport
//! (performed by the host application), and a verified handler of the
//! transport's outcome.  A login runs the two calls in order and persists
//! the resulting credential; any failure propagates unchanged and persists
//! nothing.

use vstd::prelude::*;

verus! {

use vstd::string::StrSliceExecFns;
use vstd::utf8::encode_utf8;

use crate::config::{AppDir, Config, ConfigV, spec_encode_config};
use crate::errors::Error;
use crate::twitch::{
    TwitchTokenResponse, TwitchUserData, parse_token_response, parse_users_response, resolve_user,
    spec_parse_token_response, spec_parse_users_response,
};

// ---------------------------------------------------------------------------
// Process configuration
// ---------------------------------------------------------------------------

/// The three configuration values the service needs, loaded once at startup
/// by the host and passed in explicitly.  A missing value surfaces as a
/// `ConfigError`, never as a crash.
pub struct AppConfig {
    pub client_id: Option<String>,
    pub client_secret: Option<String>,
    pub redirect_uri: Option<String>,
}

// ---------------------------------------------------------------------------
// Form encoding
// ---------------------------------------------------------------------------

/// Bytes that stand for themselves in a form-urlencoded value.
pub open spec fn is_unreserved(b: u8) -> bool {
    (48 <= b && b <= 57) || (65 <= b && b <= 90) || (97 <= b && b <= 122) || b == 45 || b == 46
        || b == 95 || b == 126
}

/// The ASCII code of the hexadecimal digit for `n < 16`, upper case.
pub open spec fn hex_digit(n: u8) -> u8 {
    if n < 10 {
        (48 + n) as u8
    } else {
        (55 + n) as u8
    }
}

/// The percent-encoded form of one byte.
pub open spec fn form_byte(b: u8) -> Seq<u8> {
    if is_unreserved(b) {
        seq![b]
    } else {
        seq![37u8, hex_digit(b / 16), hex_digit(b % 16)]
    }
}

/// The percent-encoded form of a byte string.
pub open spec fn form_encode(s: Seq<u8>) -> Seq<u8>
    decreases s.len(),
{
    if s.len() == 0 {
        Seq::empty()
    } else {
        form_byte(s[0]) + form_encode(s.drop_first())
    }
}

proof fn lemma_form_encode_snoc(a: Seq<u8>, b: u8)
    ensures
        form_encode(a.push(b)) == form_encode(a) + form_byte(b),
    decreases a.len(),
{
    if a.len() == 0 {
        assert(a.push(b)[0] == b);
        assert(a.push(b).drop_first() =~= Seq::<u8>::empty());
        assert(form_encode(Seq::<u8>::empty()) =~= Seq::<u8>::empty());
        assert(form_encode(a) =~= Seq::<u8>::empty());
        assert(form_encode(a.push(b)) =~= form_encode(a) + form_byte(b));
    } else {
        lemma_form_encode_snoc(a.drop_first(), b);
        assert(a.push(b)[0] == a[0]);
        assert(a.push(b).drop_first() =~= a.drop_first().push(b));
        assert(form_encode(a.push(b)) =~= form_encode(a) + form_byte(b));
    }
}

/// Append the percent-encoded UTF-8 bytes of `v` to `out`.
fn append_form_encoded(out: &mut Vec<u8>, v: &str)
    ensures
        final(out)@ == old(out)@ + form_encode(encode_utf8(v@)),
{
    let bytes = v.as_bytes_vec();
    let mut i: usize = 0;
    proof {
        assert(bytes@.take(0) =~= Seq::<u8>::empty());
        assert(form_encode(Seq::<u8>::empty()) =~= Seq::<u8>::empty());
        assert(old(out)@ + form_encode(bytes@.take(0)) =~= old(out)@);
    }
    while i < bytes.len()
        invariant
            bytes@ == encode_utf8(v@),
            i <= bytes.len(),
            out@ == old(out)@ + form_encode(bytes@.take(i as int)),
        decreases bytes.len() - i,
    {
        let b = bytes[i];
        if (48 <= b && b <= 57) || (65 <= b && b <= 90) || (97 <= b && b <= 122) || b == 45
            || b == 46 || b == 95 || b == 126 {
            out.push(b);
        } else {
            out.push(37);
            let hi = b / 16;
            let lo = b % 16;
            out.push(if hi < 10 { 48 + hi } else { 55 + hi });
            out.push(if lo < 10 { 48 + lo } else { 55 + lo });
        }
        proof {
            lemma_form_encode_snoc(bytes@.take(i as int), b);
            assert(bytes@.take(i as int).push(b) =~= bytes@.take(i as int + 1));
        }
        i += 1;
    }
    proof {
        assert(bytes@.take(bytes@.len() as int) =~= bytes@);
    }
}

/// Append the UTF-8 bytes of the literal `lit` to `out`.
fn append_bytes(out: &mut Vec<u8>, lit: &str)
    ensures
        final(out)@ == old(out)@ + encode_utf8(lit@),
{
    let mut tmp = lit.as_bytes_vec();
    out.append(&mut tmp);
}

// ---------------------------------------------------------------------------
// The two requests
// ---------------------------------------------------------------------------

/// The one POST of the OAuth `authorization_code` grant, ready to send:
/// the token endpoint and the form-urlencoded body.
pub struct TokenRequest {
    pub url: String,
    pub body: Vec<u8>,
}

/// The one GET of identity resolution, ready to send: the Users endpoint
/// and the two headers it needs.
pub struct UsersRequest {
    pub url: String,
    pub client_id: String,
    pub bearer: String,
}

/// The body of the token-exchange POST, field by field.
pub open spec fn spec_token_body(
    client_id: Seq<char>,
    client_secret: Seq<char>,
    code: Seq<char>,
    redirect_uri: Seq<char>,
) -> Seq<u8> {
    encode_utf8("client_id="@) + form_encode(encode_utf8(client_id)) + encode_utf8(
        "&client_secret="@,
    ) + form_encode(encode_utf8(client_secret)) + encode_utf8("&code="@) + form_encode(
        encode_utf8(code),
    ) + encode_utf8("&grant_type=authorization_code&redirect_uri="@) + form_encode(
        encode_utf8(redirect_uri),
    )
}

/// Build the token-exchange request.  A missing configuration value is
/// detected here, before anything is sent; `client_id` is checked first.
pub fn exchange_request(cfg: &AppConfig, code: &str) -> (r: Result<TokenRequest, Error>)
    ensures
        match (cfg.client_id, cfg.client_secret, cfg.redirect_uri) {
            (Some(ci), Some(cs), Some(ru)) => r matches Ok(req)
                && req.url@ == "https://id.twitch.tv/oauth2/token"@
                && req.body@ == spec_token_body(ci@, cs@, code@, ru@),
            _ => r == Err::<TokenRequest, Error>(Error::ConfigError),
        },
{
    let ci = match &cfg.client_id {
        Some(x) => x,
        None => {
            return Err(Error::ConfigError);
        },
    };
    let cs = match &cfg.client_secret {
        Some(x) => x,
        None => {
            return Err(Error::ConfigError);
        },
    };
    let ru = match &cfg.redirect_uri {
        Some(x) => x,
        None => {
            return Err(Error::ConfigError);
        },
    };
    let mut body: Vec<u8> = Vec::new();
    append_bytes(&mut body, "client_id=");
    append_form_encoded(&mut body, ci.as_str());
    append_bytes(&mut body, "&client_secret=");
    append_form_encoded(&mut body, cs.as_str());
    append_bytes(&mut body, "&code=");
    append_form_encoded(&mut body, code);
    append_bytes(&mut body, "&grant_type=authorization_code&redirect_uri=");
    append_form_encoded(&mut body, ru.as_str());
    Ok(TokenRequest { url: String::from_str("https://id.twitch.tv/oauth2/token"), body })
}

/// Build the identity-resolution request for an access token.
pub fn resolve_user_request(cfg: &AppConfig, access_token: &str) -> (r: Result<UsersRequest, Error>)
    ensures
        match cfg.client_id {
            Some(ci) => r matches Ok(req) && req.url@ == "https://api.twitch.tv/helix/users"@
                && req.client_id@ == ci@ && req.bearer@ == "Bearer "@ + access_token@,
            None => r == Err::<UsersRequest, Error>(Error::ConfigError),
        },
{
    let ci = match &cfg.client_id {
        Some(x) => x.clone(),
        None => {
            return Err(Error::ConfigError);
        },
    };
    let bearer = String::from_str("Bearer ").concat(access_token);
    Ok(UsersRequest {
        url: String::from_str("https://api.twitch.tv/helix/users"),
        client_id: ci,
        bearer,
    })
}

// ---------------------------------------------------------------------------
// The outcome handlers
// ---------------------------------------------------------------------------

/// Handle the transport's outcome for the token exchange: no body at all is
/// a `TransportError`; a body outside the schema is a `DecodeError`.  The
/// HTTP status is never inspected separately from decoding.
pub fn exchange_outcome(outcome: Option<String>) -> (r: Result<TwitchTokenResponse, Error>)
    ensures
        match outcome {
            None => r == Err::<TwitchTokenResponse, Error>(Error::TransportError),
            Some(body) => match spec_parse_token_response(body@) {
                Some(tv) => r matches Ok(t) && t@ == tv,
                None => r == Err::<TwitchTokenResponse, Error>(Error::DecodeError),
            },
        },
{
    match outcome {
        None => Err(Error::TransportError),
        Some(body) => parse_token_response(body.as_str()),
    }
}

/// Handle the transport's outcome for identity resolution, applying the
/// exactly-one policy to the decoded envelope.
pub fn resolve_user_outcome(outcome: Option<String>) -> (r: Result<TwitchUserData, Error>)
    ensures
        match outcome {
            None => r == Err::<TwitchUserData, Error>(Error::TransportError),
            Some(body) => match spec_parse_users_response(body@) {
                None => r == Err::<TwitchUserData, Error>(Error::DecodeError),
                Some(l) => if l.len() == 1 {
                    r matches Ok(u) && u@ == l[0]
                } else {
                    r == Err::<TwitchUserData, Error>(Error::AmbiguousIdentityError)
                },
            },
        },
{
    match outcome {
        None => Err(Error::TransportError),
        Some(body) => match parse_users_response(body.as_str()) {
            Err(e) => Err(e),
            Ok(resp) => resolve_user(&resp),
        },
    }
}

/// Persist the credential built from a resolved identity and its token.
pub fn persist_credential(user: &TwitchUserData, access_token: String, dir: &mut AppDir) -> (r:
    Result<(), Error>)
    ensures
        r is Ok,
        final(dir)@ == Some(
            encode_utf8(
                spec_encode_config(
                    ConfigV {
                        username: user@.login,
                        display_name: user@.display_name,
                        token: access_token@,
                    },
                ),
            ),
        ),
{
    let config = Config::new(user.get_login(), user.get_display_name(), access_token);
    config.write(dir)
}

// ---------------------------------------------------------------------------
// Orchestration
// ---------------------------------------------------------------------------

/// What a whole login yields from the configuration and the two transport
/// outcomes: either the credential that must be on disk afterwards, or the
/// error of the first step that failed.
pub open spec fn spec_complete_login(
    client_id: Option<Seq<char>>,
    client_secret: Option<Seq<char>>,
    redirect_uri: Option<Seq<char>>,
    token_outcome: Option<Seq<char>>,
    users_outcome: Option<Seq<char>>,
) -> Result<ConfigV, Error> {
    if client_id is None || client_secret is None || redirect_uri is None {
        Err(Error::ConfigError)
    } else {
        match token_outcome {
            None => Err(Error::TransportError),
            Some(tb) => match spec_parse_token_response(tb) {
                None => Err(Error::DecodeError),
                Some(tv) => match users_outcome {
                    None => Err(Error::TransportError),
                    Some(ub) => match spec_parse_users_response(ub) {
                        None => Err(Error::DecodeError),
                        Some(l) => if l.len() == 1 {
                            Ok(
                                ConfigV {
                                    username: l[0].login,
                                    display_name: l[0].display_name,
                                    token: tv.access_token,
                                },
                            )
                        } else {
                            Err(Error::AmbiguousIdentityError)
                        },
                    },
                },
            },
        }
    }
}

/// Run a whole login over the two transport outcomes: exchange the code,
/// resolve the identity, persist the credential.  Every failure propagates
/// unchanged and leaves the directory exactly as it was — nothing is
/// partially persisted.
pub fn complete_login(
    cfg: &AppConfig,
    token_outcome: Option<String>,
    users_outcome: Option<String>,
    dir: &mut AppDir,
) -> (r: Result<(), Error>)
    ensures
        match spec_complete_login(
            cfg.client_id.deep_view(),
            cfg.client_secret.deep_view(),
            cfg.redirect_uri.deep_view(),
            token_outcome.deep_view(),
            users_outcome.deep_view(),
        ) {
            Ok(cv) => r is Ok && final(dir)@ == Some(encode_utf8(spec_encode_config(cv))),
            Err(e) => r == Err::<(), Error>(e) && final(dir)@ == old(dir)@,
        },
{
    if cfg.client_id.is_none() || cfg.client_secret.is_none() || cfg.redirect_uri.is_none() {
        return Err(Error::ConfigError);
    }
    let tok = match exchange_outcome(token_outcome) {
        Ok(t) => t,
        Err(e) => {
            return Err(e);
        },
    };
    let user = match resolve_user_outcome(users_outcome) {
        Ok(u) => u,
        Err(e) => {
            return Err(e);
        },
    };
    persist_credential(&user, tok.get_access_token(), dir)
}

/// True exactly when a credential is remembered in the directory.
pub fn logged(dir: &AppDir) -> (r: bool)
    ensures
        r == (dir@ is Some),
{
    Config::exists_in(dir)
}

} // verus!
