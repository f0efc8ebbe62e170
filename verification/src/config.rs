//! Server configuration and the rules that derive it from environment
//! variables.

use vstd::prelude::*;
use crate::text::{chars_of, digit_char};

verus! {

/// Server configuration.
#[derive(Debug, Clone)]
pub struct Config {
    /// HTTP port to bind (default: 21465, matching the wppconnect default)
    pub port: u16,
    /// Master secret used to verify/generate session tokens
    pub secret_key: String,
    /// Base directory where per-session SQLite databases are stored
    pub sessions_dir: String,
    /// Oracle DB username
    pub db_user: String,
    /// Oracle DB password
    pub db_pass: String,
    /// Oracle DB connect string (e.g. `//host:1521/service`)
    pub db_url: String,
    /// Secret key for Google Contacts API endpoints (plain comparison)
    pub google_contacts_secret_key: String,
    /// OpenAI API key for message generation/rewriting (validate-lexical-similarity)
    pub openai_api_key: String,
    /// OpenAI model name (default: gpt-3.5-turbo)
    pub openai_model: String,
    /// Directory for storing per-userKey Google OAuth2 credentials and tokens
    pub google_contacts_token_dir: String,
    /// Google OAuth2 client ID (from Google Cloud Console)
    pub google_client_id: String,
    /// Google OAuth2 client secret (from Google Cloud Console)
    pub google_client_secret: String,
    /// Google OAuth2 redirect URI (must match Google Cloud Console)
    pub google_redirect_uri: String,
}

/// The environment variables the configuration reads; `None` when a
/// variable is unset (or not valid Unicode).
pub struct EnvVars {
    pub port: Option<String>,
    pub secret_key: Option<String>,
    pub sessions_dir: Option<String>,
    pub db_user: Option<String>,
    pub db_pass: Option<String>,
    pub db_url: Option<String>,
    pub google_contacts_secret_key: Option<String>,
    pub openai_api_key: Option<String>,
    pub openai_model: Option<String>,
    pub google_contacts_token_dir: Option<String>,
    pub google_client_id: Option<String>,
    pub google_client_secret: Option<String>,
    pub google_redirect_uri: Option<String>,
}

/// Why the configuration cannot be built.
#[derive(PartialEq, Eq, Debug, Clone, Copy)]
pub enum ConfigError {
    /// `PORT` is not a number from 0 to 65535.
    InvalidPort,
    /// `SECRET_KEY` is not set.
    MissingSecretKey,
}

/// Whether `c` is an ASCII digit.
pub open spec fn is_digit(c: char) -> bool {
    '0' <= c && c <= '9'
}

/// The value of an ASCII digit.
pub open spec fn digit_value(c: char) -> nat {
    (c as u32 - '0' as u32) as nat
}

/// The number a string of digits denotes.
pub open spec fn digits_value(s: Seq<char>) -> nat
    decreases s.len(),
{
    if s.len() == 0 {
        0
    } else {
        digits_value(s.drop_last()) * 10 + digit_value(s.last())
    }
}

/// Every character is an ASCII digit.
pub open spec fn all_digits(d: Seq<char>) -> bool {
    forall|k: int| 0 <= k < d.len() ==> is_digit(#[trigger] d[k])
}

/// `s` without a leading `+`, unless `s` is just `+`.
pub open spec fn plus_stripped(s: Seq<char>) -> Seq<char> {
    if s.len() > 1 && s[0] == '+' {
        s.drop_first()
    } else {
        s
    }
}

/// What `str::parse::<u16>` gives: an optional `+` (not alone), then one or
/// more ASCII digits whose value fits in 16 bits.
pub open spec fn parsed_u16(s: Seq<char>) -> Option<u16> {
    let d = plus_stripped(s);
    if d.len() == 0 || !all_digits(d) {
        None
    } else if digits_value(d) > 65535 {
        None
    } else {
        Some(digits_value(d) as u16)
    }
}

proof fn lemma_digits_value_grows(s: Seq<char>, i: int)
    requires
        0 <= i <= s.len(),
        forall|k: int| 0 <= k < s.len() ==> is_digit(#[trigger] s[k]),
    ensures
        digits_value(s) >= digits_value(s.take(i)),
    decreases s.len() - i,
{
    if i < s.len() {
        lemma_digits_value_grows(s, i + 1);
        assert(s.take(i + 1).drop_last() =~= s.take(i));
    } else {
        assert(s.take(i) =~= s);
    }
}

/// Parses a port number as `str::parse::<u16>` does.
pub fn parse_u16(s: &str) -> (r: Option<u16>)
    ensures
        r == parsed_u16(s@),
{
    let cs = chars_of(s);
    let start: usize = if cs.len() > 1 && cs[0] == '+' {
        1
    } else {
        0
    };
    let ghost d = plus_stripped(s@);
    assert(d =~= cs@.subrange(start as int, cs@.len() as int));
    if start == cs.len() {
        return None;
    }
    let mut acc: u32 = 0;
    let mut i: usize = start;
    while i < cs.len()
        invariant
            cs@ == s@,
            d == plus_stripped(s@),
            start <= i <= cs@.len(),
            d =~= cs@.subrange(start as int, cs@.len() as int),
            forall|k: int| 0 <= k < i - start ==> is_digit(#[trigger] d[k]),
            acc as nat == digits_value(d.take(i - start)),
            acc <= 65535,
        decreases cs@.len() - i,
    {
        let c = cs[i];
        if !('0' <= c && c <= '9') {
            proof {
                let k = (i - start) as int;
                assert(d[k] == c);
                assert(!is_digit(d[k]));
                assert(!all_digits(d));
                assert(parsed_u16(s@) is None);
            }
            return None;
        }
        let v = (c as u32) - ('0' as u32);
        proof {
            assert(d.take(i - start + 1).drop_last() =~= d.take(i - start));
            assert(d.take(i - start + 1).last() == c);
        }
        acc = acc * 10 + v;
        if acc > 65535 {
            proof {
                assert(digits_value(d.take(i - start + 1)) == acc);
                if all_digits(d) {
                    lemma_digits_value_grows(d, i - start + 1);
                    assert(digits_value(d) > 65535);
                }
                assert(parsed_u16(s@) is None);
            }
            return None;
        }
        i = i + 1;
    }
    proof {
        assert(d.take(d.len() as int) =~= d);
    }
    Some(acc as u16)
}

pub const DEFAULT_PORT: &'static str = "21465";
pub const DEFAULT_SESSIONS_DIR: &'static str = "./sessions";
pub const DEFAULT_OPENAI_MODEL: &'static str = "gpt-3.5-turbo";
pub const DEFAULT_TOKEN_DIR: &'static str = "./google-tokens";

/// A variable's value, or `d` when unset.
pub open spec fn var_or(v: Option<String>, d: Seq<char>) -> Seq<char> {
    match v {
        Some(s) => s@,
        None => d,
    }
}

fn var_or_exec(v: Option<String>, d: &str) -> (r: String)
    ensures
        r@ == var_or(v, d@),
{
    match v {
        Some(s) => s,
        None => d.to_owned(),
    }
}

fn var_or_empty(v: Option<String>) -> (r: String)
    ensures
        r@ == var_or(v, Seq::empty()),
{
    match v {
        Some(s) => s,
        None => String::new(),
    }
}

impl Config {
    /// Builds the configuration from the environment variables: `PORT`
    /// defaults to 21465 and must parse as a 16-bit number; `SECRET_KEY` is
    /// required; the directories and model have defaults; the rest default
    /// to empty.
    pub fn from_vars(vars: EnvVars) -> (r: Result<Config, ConfigError>)
        ensures
            parsed_u16(var_or(vars.port, DEFAULT_PORT@)) is None ==> r == Err::<Config, ConfigError>(ConfigError::InvalidPort),
            parsed_u16(var_or(vars.port, DEFAULT_PORT@)) is Some && vars.secret_key is None ==> r == Err::<Config, ConfigError>(ConfigError::MissingSecretKey),
            parsed_u16(var_or(vars.port, DEFAULT_PORT@)) is Some && vars.secret_key is Some ==> r is Ok,
            r matches Ok(c) ==> {
                &&& Some(c.port) == parsed_u16(var_or(vars.port, DEFAULT_PORT@))
                &&& vars.secret_key == Some(c.secret_key)
                &&& c.sessions_dir@ == var_or(vars.sessions_dir, DEFAULT_SESSIONS_DIR@)
                &&& c.db_user@ == var_or(vars.db_user, Seq::empty())
                &&& c.db_pass@ == var_or(vars.db_pass, Seq::empty())
                &&& c.db_url@ == var_or(vars.db_url, Seq::empty())
                &&& c.google_contacts_secret_key@ == var_or(vars.google_contacts_secret_key, Seq::empty())
                &&& c.openai_api_key@ == var_or(vars.openai_api_key, Seq::empty())
                &&& c.openai_model@ == var_or(vars.openai_model, DEFAULT_OPENAI_MODEL@)
                &&& c.google_contacts_token_dir@ == var_or(vars.google_contacts_token_dir, DEFAULT_TOKEN_DIR@)
                &&& c.google_client_id@ == var_or(vars.google_client_id, Seq::empty())
                &&& c.google_client_secret@ == var_or(vars.google_client_secret, Seq::empty())
                &&& c.google_redirect_uri@ == var_or(vars.google_redirect_uri, Seq::empty())
            },
    {
        let port_text = var_or_exec(vars.port, DEFAULT_PORT);
        let port = match parse_u16(port_text.as_str()) {
            Some(p) => p,
            None => {
                return Err(ConfigError::InvalidPort);
            },
        };
        let secret_key = match vars.secret_key {
            Some(s) => s,
            None => {
                return Err(ConfigError::MissingSecretKey);
            },
        };
        Ok(Config {
            port,
            secret_key,
            sessions_dir: var_or_exec(vars.sessions_dir, DEFAULT_SESSIONS_DIR),
            db_user: var_or_empty(vars.db_user),
            db_pass: var_or_empty(vars.db_pass),
            db_url: var_or_empty(vars.db_url),
            google_contacts_secret_key: var_or_empty(vars.google_contacts_secret_key),
            openai_api_key: var_or_empty(vars.openai_api_key),
            openai_model: var_or_exec(vars.openai_model, DEFAULT_OPENAI_MODEL),
            google_contacts_token_dir: var_or_exec(vars.google_contacts_token_dir, DEFAULT_TOKEN_DIR),
            google_client_id: var_or_empty(vars.google_client_id),
            google_client_secret: var_or_empty(vars.google_client_secret),
            google_redirect_uri: var_or_empty(vars.google_redirect_uri),
        })
    }
}

} // verus!
