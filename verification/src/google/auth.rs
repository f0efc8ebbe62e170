//! OAuth2 credentials and tokens for Google Contacts, where they are kept,
//! and the authorization URL.

use vstd::prelude::*;
use vstd::string::*;
use crate::config::Config;
use crate::text::{join_path, path_join};

verus! {

/// OAuth2 client credentials of a user key.
#[derive(Debug, Clone)]
pub struct Credentials {
    pub client_id: String,
    pub client_secret: String,
    pub redirect_uri: String,
}

/// An OAuth2 access token and when it was obtained (seconds since the epoch).
#[derive(Debug, Clone)]
pub struct Token {
    pub access_token: String,
    pub refresh_token: Option<String>,
    pub token_type: String,
    pub expires_in: u64,
    pub obtained_at: u64,
}

/// `a - b`, or 0 when `b > a`.
pub open spec fn saturating_sub(a: u64, b: u64) -> nat {
    if a >= b {
        (a - b) as nat
    } else {
        0
    }
}

/// The moment from which a token counts as expired: a minute before its
/// lifetime runs out.
pub open spec fn expiry_moment(t: Token) -> nat {
    t.obtained_at as nat + saturating_sub(t.expires_in, 60)
}

/// Trusted: `SystemTime::now().duration_since(UNIX_EPOCH)` in whole seconds
/// (0 for a clock before the epoch). Nothing is claimed of the value.
#[verifier::external_body]
fn unix_now_secs() -> (now: u64) {
    std::time::SystemTime::now().duration_since(std::time::UNIX_EPOCH).unwrap_or_default().as_secs()
}

impl Token {
    /// Whether the token counts as expired at time `now`.
    pub fn is_expired_at(&self, now: u64) -> (expired: bool)
        requires
            expiry_moment(*self) <= u64::MAX,
        ensures
            expired == (now >= expiry_moment(*self)),
    {
        let margin = if self.expires_in >= 60 {
            self.expires_in - 60
        } else {
            0
        };
        now >= self.obtained_at + margin
    }

    /// Whether the token counts as expired now (it does at least from a
    /// minute before its lifetime runs out).
    pub fn is_expired(&self) -> (expired: bool)
        requires
            expiry_moment(*self) <= u64::MAX,
        ensures
            expiry_moment(*self) == 0 ==> expired,
    {
        let now = unix_now_secs();
        self.is_expired_at(now)
    }
}

/// A token counts as expired at the latest when its lifetime runs out.
pub proof fn lemma_expired_when_lifetime_ends(t: Token, now: u64)
    requires
        now >= t.obtained_at + t.expires_in,
    ensures
        now >= expiry_moment(t),
{
}

/// Once expired, a token stays expired.
pub proof fn lemma_expiry_is_monotone(t: Token, now: u64, later: u64)
    requires
        now <= later,
        now >= expiry_moment(t),
    ensures
        later >= expiry_moment(t),
{
}

pub const CREDENTIALS_FILE: &'static str = "credentials.json";
pub const TOKEN_FILE: &'static str = "token.json";

/// The directory of a user key.
pub open spec fn user_dir_path(token_dir: Seq<char>, user_key: Seq<char>) -> Seq<char> {
    path_join(token_dir, user_key)
}

/// The directory of a user key under the token directory.
pub fn user_dir(token_dir: &str, user_key: &str) -> (dir: String)
    ensures
        dir@ == user_dir_path(token_dir@, user_key@),
{
    join_path(token_dir, user_key)
}

/// Where a user key's credentials are stored.
pub fn credentials_path(token_dir: &str, user_key: &str) -> (path: String)
    ensures
        path@ == path_join(user_dir_path(token_dir@, user_key@), CREDENTIALS_FILE@),
{
    let dir = user_dir(token_dir, user_key);
    join_path(dir.as_str(), CREDENTIALS_FILE)
}

/// Where a user key's token is stored.
pub fn token_path(token_dir: &str, user_key: &str) -> (path: String)
    ensures
        path@ == path_join(user_dir_path(token_dir@, user_key@), TOKEN_FILE@),
{
    let dir = user_dir(token_dir, user_key);
    join_path(dir.as_str(), TOKEN_FILE)
}

/// The credentials configured in the environment (no file needed).
pub fn credentials_from_config(config: &Config) -> (c: Credentials)
    ensures
        c.client_id@ == config.google_client_id@,
        c.client_secret@ == config.google_client_secret@,
        c.redirect_uri@ == config.google_redirect_uri@,
{
    Credentials {
        client_id: config.google_client_id.clone(),
        client_secret: config.google_client_secret.clone(),
        redirect_uri: config.google_redirect_uri.clone(),
    }
}

/// The fields of a token endpoint reply: each the string (or unsigned
/// number) under its key, `None` when missing or of another type.
pub struct TokenReply {
    pub access_token: Option<String>,
    pub refresh_token: Option<String>,
    pub token_type: Option<String>,
    pub expires_in: Option<u64>,
}

/// Why a token reply was refused.
#[derive(PartialEq, Eq, Debug, Clone, Copy)]
pub enum TokenReplyError {
    /// The reply has no `access_token` string.
    MissingAccessToken,
}

/// The token a reply stands for when obtained at `now`: the refresh token of
/// the reply, else the one held before; type `Bearer` and a lifetime of an
/// hour unless the reply says otherwise.
pub open spec fn token_of_reply(t: Token, reply: TokenReply, existing_refresh: Option<String>, now: u64) -> bool {
    &&& reply.access_token matches Some(a) && t.access_token@ == a@
    &&& t.refresh_token == (match reply.refresh_token {
        Some(r) => Some(r),
        None => existing_refresh,
    })
    &&& t.token_type@ == (match reply.token_type {
        Some(s) => s@,
        None => "Bearer"@,
    })
    &&& t.expires_in == (match reply.expires_in {
        Some(e) => e,
        None => 3600u64,
    })
    &&& t.obtained_at == now
}

/// Builds the token a reply stands for, obtained at `now`.
pub fn token_from_reply_at(reply: TokenReply, existing_refresh: Option<String>, now: u64) -> (r: Result<Token, TokenReplyError>)
    ensures
        reply.access_token is None ==> r == Err::<Token, TokenReplyError>(TokenReplyError::MissingAccessToken),
        r matches Ok(t) ==> token_of_reply(t, reply, existing_refresh, now),
        reply.access_token is Some ==> r is Ok,
{
    let access_token = match reply.access_token {
        Some(a) => a,
        None => {
            return Err(TokenReplyError::MissingAccessToken);
        },
    };
    let refresh_token = match reply.refresh_token {
        Some(r) => Some(r),
        None => existing_refresh,
    };
    let token_type = match reply.token_type {
        Some(s) => s,
        None => "Bearer".to_owned(),
    };
    let expires_in = match reply.expires_in {
        Some(e) => e,
        None => 3600,
    };
    Ok(Token { access_token, refresh_token, token_type, expires_in, obtained_at: now })
}

/// Builds the token a reply stands for, obtained now.
pub fn token_from_reply(reply: TokenReply, existing_refresh: Option<String>) -> (r: Result<Token, TokenReplyError>)
    ensures
        reply.access_token is None ==> r == Err::<Token, TokenReplyError>(TokenReplyError::MissingAccessToken),
        reply.access_token is Some ==> (r matches Ok(t) && token_of_reply(
            t,
            reply,
            existing_refresh,
            t.obtained_at,
        )),
{
    let now = unix_now_secs();
    token_from_reply_at(reply, existing_refresh, now)
}

/// The form that exchanges an authorization code for a token.
pub open spec fn exchange_form(creds: Credentials, code: Seq<char>) -> Seq<(Seq<char>, Seq<char>)> {
    seq![
        ("code"@, code),
        ("client_id"@, creds.client_id@),
        ("client_secret"@, creds.client_secret@),
        ("redirect_uri"@, creds.redirect_uri@),
        ("grant_type"@, "authorization_code"@),
    ]
}

/// The form that asks for a fresh access token with a refresh token.
pub open spec fn refresh_form(creds: Credentials, refresh: Seq<char>) -> Seq<(Seq<char>, Seq<char>)> {
    seq![
        ("refresh_token"@, refresh),
        ("client_id"@, creds.client_id@),
        ("client_secret"@, creds.client_secret@),
        ("grant_type"@, "refresh_token"@),
    ]
}

/// The fields of the authorization-code exchange.
pub fn exchange_params(creds: &Credentials, code: &str) -> (form: Vec<(String, String)>)
    ensures
        form.deep_view() == exchange_form(*creds, code@),
{
    let mut form: Vec<(String, String)> = Vec::new();
    form.push(("code".to_owned(), code.to_owned()));
    form.push(("client_id".to_owned(), creds.client_id.clone()));
    form.push(("client_secret".to_owned(), creds.client_secret.clone()));
    form.push(("redirect_uri".to_owned(), creds.redirect_uri.clone()));
    form.push(("grant_type".to_owned(), "authorization_code".to_owned()));
    proof {
        assert(form.deep_view() =~= exchange_form(*creds, code@));
    }
    form
}

/// Why a token cannot be refreshed.
#[derive(PartialEq, Eq, Debug, Clone, Copy)]
pub enum RefreshError {
    /// The token holds no refresh token.
    NoRefreshToken,
}

/// The fields of a refresh request for a token; an error when the token
/// holds no refresh token.
pub fn refresh_params(creds: &Credentials, token: &Token) -> (r: Result<Vec<(String, String)>, RefreshError>)
    ensures
        token.refresh_token is None ==> r == Err::<Vec<(String, String)>, RefreshError>(RefreshError::NoRefreshToken),
        token.refresh_token matches Some(t) ==> (r matches Ok(form) && form.deep_view() == refresh_form(
            *creds,
            t@,
        )),
{
    let refresh = match &token.refresh_token {
        Some(t) => t.clone(),
        None => {
            return Err(RefreshError::NoRefreshToken);
        },
    };
    let mut form: Vec<(String, String)> = Vec::new();
    form.push(("refresh_token".to_owned(), refresh));
    form.push(("client_id".to_owned(), creds.client_id.clone()));
    form.push(("client_secret".to_owned(), creds.client_secret.clone()));
    form.push(("grant_type".to_owned(), "refresh_token".to_owned()));
    proof {
        assert(form.deep_view() =~= refresh_form(*creds, token.refresh_token->0@));
    }
    Ok(form)
}

pub const GOOGLE_AUTH_ENDPOINT: &'static str = "https://accounts.google.com/o/oauth2/v2/auth";
pub const CONTACTS_SCOPE: &'static str = "https://www.googleapis.com/auth/contacts";

/// The URL `reqwest::Url` renders for `base` with the pairs appended to its
/// query in order, form-urlencoded.
pub uninterp spec fn url_with_query(base: Seq<char>, pairs: Seq<(Seq<char>, Seq<char>)>) -> Seq<char>;

/// Trusted: `reqwest::Url::parse(base)` (the Google endpoint, a valid
/// URL), `query_pairs_mut().append_pair(name, value)` for each pair in
/// order, then `to_string()`. Claims only that the URL depends on the base
/// and the pairs alone.
#[verifier::external_body]
fn encode_query_url(base: &str, pairs: &Vec<(String, String)>) -> (url: String)
    requires
        base@ == GOOGLE_AUTH_ENDPOINT@,
    ensures
        url@ == url_with_query(base@, pairs.deep_view()),
{
    let mut url = reqwest::Url::parse(base).expect("static URL is valid");
    {
        let mut query = url.query_pairs_mut();
        for (name, value) in pairs.iter() {
            query.append_pair(name, value);
        }
    }
    url.to_string()
}

/// The query of the authorization URL: client, redirect, the contacts
/// scope, an authorization code, offline access, and the consent prompt.
pub open spec fn auth_query(creds: Credentials) -> Seq<(Seq<char>, Seq<char>)> {
    seq![
        ("client_id"@, creds.client_id@),
        ("redirect_uri"@, creds.redirect_uri@),
        ("scope"@, CONTACTS_SCOPE@),
        ("response_type"@, "code"@),
        ("access_type"@, "offline"@),
        ("prompt"@, "consent"@),
    ]
}

/// The Google OAuth2 authorization URL for a user key's credentials.
pub fn build_auth_url(creds: &Credentials) -> (url: String)
    ensures
        url@ == url_with_query(GOOGLE_AUTH_ENDPOINT@, auth_query(*creds)),
{
    let mut pairs: Vec<(String, String)> = Vec::new();
    pairs.push(("client_id".to_owned(), creds.client_id.clone()));
    pairs.push(("redirect_uri".to_owned(), creds.redirect_uri.clone()));
    pairs.push(("scope".to_owned(), CONTACTS_SCOPE.to_owned()));
    pairs.push(("response_type".to_owned(), "code".to_owned()));
    pairs.push(("access_type".to_owned(), "offline".to_owned()));
    pairs.push(("prompt".to_owned(), "consent".to_owned()));
    proof {
        assert(pairs.deep_view() =~= auth_query(*creds));
    }
    encode_query_url(GOOGLE_AUTH_ENDPOINT, &pairs)
}

/// Whether the token of a user key counts as expired at time `now`, for the
/// status endpoint: not when there is no token file; yes when the file
/// cannot be read; otherwise as the token says.
pub open spec fn token_expired_at(token_exists: bool, loaded: Option<&Token>, now: u64) -> bool {
    token_exists && match loaded {
        Some(t) => now >= expiry_moment(*t),
        None => true,
    }
}

/// Whether the token of a user key counts as expired at time `now`.
pub fn token_expired_flag_at(token_exists: bool, loaded: Option<&Token>, now: u64) -> (expired: bool)
    requires
        loaded matches Some(t) ==> expiry_moment(*t) <= u64::MAX,
    ensures
        expired == token_expired_at(token_exists, loaded, now),
{
    if !token_exists {
        return false;
    }
    match loaded {
        Some(t) => t.is_expired_at(now),
        None => true,
    }
}

/// Whether the token of a user key counts as expired now.
pub fn token_expired_flag(token_exists: bool, loaded: Option<&Token>) -> (expired: bool)
    requires
        loaded matches Some(t) ==> expiry_moment(*t) <= u64::MAX,
    ensures
        !token_exists ==> !expired,
        token_exists && loaded is None ==> expired,
        token_exists && (loaded matches Some(t) && expiry_moment(*t) == 0) ==> expired,
{
    let now = unix_now_secs();
    token_expired_flag_at(token_exists, loaded, now)
}


/// A refresh token that the reply carries is the one the token holds; when
/// the reply carries none, the one held before is kept.
pub proof fn lemma_reply_refresh_token_kept(t: Token, reply: TokenReply, existing_refresh: Option<String>, now: u64)
    requires
        token_of_reply(t, reply, existing_refresh, now),
    ensures
        reply.refresh_token matches Some(r) ==> t.refresh_token == Some(r),
        reply.refresh_token is None ==> t.refresh_token == existing_refresh,
{
}

/// The refresh token obtained with an authorization code survives a later
/// refresh whose reply carries no new refresh token.
pub proof fn lemma_refresh_token_survives_refresh(
    t1: Token,
    exchange: TokenReply,
    now1: u64,
    t2: Token,
    refresh: TokenReply,
    now2: u64,
)
    requires
        token_of_reply(t1, exchange, None, now1),
        exchange.refresh_token is Some,
        token_of_reply(t2, refresh, t1.refresh_token, now2),
        refresh.refresh_token is None,
    ensures
        t2.refresh_token == exchange.refresh_token,
        t2.refresh_token is Some,
{
}


/// A token built from a reply holds the reply's access token, its type or
/// `Bearer`, its lifetime or an hour, and the time it was built at.
pub proof fn lemma_reply_token_fields(t: Token, reply: TokenReply, existing_refresh: Option<String>, now: u64)
    requires
        token_of_reply(t, reply, existing_refresh, now),
    ensures
        reply.access_token matches Some(a) && t.access_token@ == a@,
        reply.token_type matches Some(ty) ==> t.token_type@ == ty@,
        reply.token_type is None ==> t.token_type@ == seq!['B', 'e', 'a', 'r', 'e', 'r'],
        reply.expires_in matches Some(e) ==> t.expires_in == e,
        reply.expires_in is None ==> t.expires_in == 3600,
        t.obtained_at == now,
{
    reveal_strlit("Bearer");
}

} // verus!
