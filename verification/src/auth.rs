//! Session tokens: how they are generated, carried in URLs and headers, and
//! checked; and the shared-secret check of the contacts endpoints.

use vstd::prelude::*;
use vstd::string::*;
use crate::text::{chars_of, digit_char, string_of};

verus! {

/// Whether `bcrypt::verify(password, hash)` returns `Ok(true)`.
pub uninterp spec fn bcrypt_verifies(password: Seq<char>, hash: Seq<char>) -> bool;

/// The shape of a bcrypt hash string: it starts with `$`, and its other
/// characters come from `$`, decimal digits and the bcrypt base-64 alphabet
/// (`./A-Za-z0-9`); in particular it holds no `_`, `-` or `+`.
pub open spec fn bcrypt_shaped(h: Seq<char>) -> bool {
    &&& h.len() > 0
    &&& h[0] == '$'
    &&& forall|k: int| 0 <= k < h.len() ==> #[trigger] h[k] != '_' && h[k] != '-' && h[k] != '+'
}

/// Trusted: `bcrypt::verify(password, hash)`, an error counting as a
/// mismatch. Claims only that the answer depends on the two strings alone.
#[verifier::external_body]
fn bcrypt_verify(password: &str, hash: &str) -> (ok: bool)
    ensures
        ok == bcrypt_verifies(password@, hash@),
{
    bcrypt::verify(password, hash).unwrap_or(false)
}

/// How a bcrypt hash of the given cost starts: `$2b$`, the cost in two
/// decimal digits, and `$`.
pub open spec fn bcrypt_prefix(cost: int) -> Seq<char> {
    seq!['$', '2', 'b', '$', digit_char(cost / 10), digit_char(cost % 10), '$']
}

/// Trusted: `bcrypt::hash(password, cost)`. The salt is random, so nothing
/// is claimed of which hash comes back, nor that one comes back at all (the
/// OS random source may fail); a hash that comes back is formatted as
/// `$2b$CC$` followed by bcrypt base-64 text (`HashParts::format`), and
/// `bcrypt::verify` accepts the same password against it (it rehashes with
/// the salt and cost read from the hash).
#[verifier::external_body]
fn bcrypt_hash(password: &str, cost: u32) -> (r: Option<String>)
    requires
        4 <= cost <= 31,
    ensures
        r matches Some(h) ==> bcrypt_shaped(h@) && bcrypt_verifies(password@, h@),
        r matches Some(h) ==> h@.len() >= 7 && h@.subrange(0, 7) == bcrypt_prefix(cost as int),
{
    bcrypt::hash(password, cost).ok()
}

/// `s` with every `from` replaced by `to`.
pub open spec fn replace_char(s: Seq<char>, from: char, to: char) -> Seq<char> {
    s.map_values(|c: char| if c == from { to } else { c })
}

/// A bcrypt hash made safe for URLs: `/` becomes `_` and `+` becomes `-`.
pub open spec fn sanitized(h: Seq<char>) -> Seq<char> {
    replace_char(replace_char(h, '/', '_'), '+', '-')
}

/// A URL-safe token turned back into the hash: `_` becomes `/` and `-`
/// becomes `+`.
pub open spec fn restored(t: Seq<char>) -> Seq<char> {
    replace_char(replace_char(t, '_', '/'), '-', '+')
}

fn replace_chars(s: &str, from: char, to: char) -> (r: String)
    ensures
        r@ == replace_char(s@, from, to),
{
    let cs = chars_of(s);
    let mut out: Vec<char> = Vec::new();
    let mut i: usize = 0;
    while i < cs.len()
        invariant
            i <= cs@.len(),
            out@ =~= replace_char(cs@, from, to).subrange(0, i as int),
        decreases cs@.len() - i,
    {
        if cs[i] == from {
            out.push(to);
        } else {
            out.push(cs[i]);
        }
        i = i + 1;
    }
    string_of(out.as_slice())
}

/// Makes a bcrypt hash URL-safe (`/` to `_`, `+` to `-`).
pub fn sanitize_token(hash: &str) -> (token: String)
    ensures
        token@ == sanitized(hash@),
{
    let a = replace_chars(hash, '/', '_');
    replace_chars(a.as_str(), '+', '-')
}

/// Turns a URL-safe token back into the bcrypt hash (`_` to `/`, `-` to `+`).
pub fn restore_token(token: &str) -> (hash: String)
    ensures
        hash@ == restored(token@),
{
    let a = replace_chars(token, '_', '/');
    replace_chars(a.as_str(), '-', '+')
}

/// Restoring a sanitized hash gives the hash back when it holds no `_` or
/// `-` (true of every bcrypt hash).
pub proof fn lemma_restore_sanitized(h: Seq<char>)
    requires
        forall|k: int| 0 <= k < h.len() ==> #[trigger] h[k] != '_' && h[k] != '-',
    ensures
        restored(sanitized(h)) == h,
{
    assert(restored(sanitized(h)) =~= h);
}

/// Sanitizing a restored token gives the token back when it holds no `/`
/// or `+`.
pub proof fn lemma_sanitize_restored(t: Seq<char>)
    requires
        forall|k: int| 0 <= k < t.len() ==> #[trigger] t[k] != '/' && t[k] != '+',
    ensures
        sanitized(restored(t)) == t,
{
    assert(sanitized(restored(t)) =~= t);
}

/// Why a generate-token request was refused.
#[derive(PartialEq, Eq, Debug, Clone, Copy)]
pub enum TokenError {
    /// The secret key in the path is not the configured one.
    InvalidSecretKey,
    /// bcrypt could not produce a hash.
    HashFailed,
}

/// A freshly generated session token.
pub struct GeneratedToken {
    /// The URL-safe token.
    pub token: String,
    /// `session:token`.
    pub full: String,
}

/// The password a session's token is a bcrypt hash of: the session name
/// followed by the master secret.
pub open spec fn token_password(session: Seq<char>, secret: Seq<char>) -> Seq<char> {
    session + secret
}

/// The bcrypt cost used for session tokens.
pub const TOKEN_COST: u32 = 10;

/// Generates the token of a session when the secret key in the request is
/// the configured one: a bcrypt hash of session name and secret, made
/// URL-safe.
pub fn generate_token(session: &str, secretkey: &str, secret_key: &str) -> (r: Result<GeneratedToken, TokenError>)
    ensures
        secretkey@ != secret_key@ ==> r == Err::<GeneratedToken, TokenError>(TokenError::InvalidSecretKey),
        r matches Err(e) ==> (e == TokenError::InvalidSecretKey <==> secretkey@ != secret_key@),
        r matches Ok(g) ==> g.token@.len() >= 7 && g.token@.subrange(0, 7) == bcrypt_prefix(TOKEN_COST as int),
        r matches Ok(g) ==> secretkey@ == secret_key@ && exists|h: Seq<char>|
            #![trigger sanitized(h)]
            bcrypt_shaped(h) && bcrypt_verifies(token_password(session@, secret_key@), h)
                && g.token@ == sanitized(h) && g.full@ == session@ + seq![':'] + sanitized(h),
{
    let given = secretkey.to_owned();
    let configured = secret_key.to_owned();
    if given != configured {
        return Err(TokenError::InvalidSecretKey);
    }
    let mut plain = session.to_owned();
    plain.append(secret_key);
    let hash = match bcrypt_hash(plain.as_str(), TOKEN_COST) {
        Some(h) => h,
        None => {
            return Err(TokenError::HashFailed);
        },
    };
    let token = sanitize_token(hash.as_str());
    proof {
        assert(token@.subrange(0, 7) =~= hash@.subrange(0, 7));
    }
    let mut full = session.to_owned();
    full.append(":");
    proof {
        assert(":"@ =~= seq![':']) by {
            reveal_strlit(":");
        }
    }
    full.append(token.as_str());
    proof {
        assert(full@ =~= session@ + seq![':'] + sanitized(hash@));
    }
    Ok(GeneratedToken { token, full })
}


/// Index of the first `c` in `s` at or after `i`, or `s.len()`.
pub open spec fn index_of(s: Seq<char>, c: char, i: int) -> int
    decreases s.len() - i,
{
    if i < 0 || i >= s.len() {
        s.len() as int
    } else if s[i] == c {
        i
    } else {
        index_of(s, c, i + 1)
    }
}

/// Field `n` (from 0) of `s` split at `/`, when there are that many.
pub open spec fn path_field(s: Seq<char>, n: nat) -> Option<Seq<char>>
    decreases n,
{
    let e = index_of(s, '/', 0);
    if n == 0 {
        Some(s.subrange(0, e))
    } else if e >= s.len() {
        None
    } else {
        path_field(s.subrange(e + 1, s.len() as int), (n - 1) as nat)
    }
}

/// The session segment of a request path `/api/{session}/...`: its third
/// `/`-separated field, or empty.
pub open spec fn session_segment(path: Seq<char>) -> Seq<char> {
    match path_field(path, 2) {
        Some(f) => f,
        None => Seq::empty(),
    }
}

/// `s` cut at its first `:`: the part before, and the part after when there is a `:`.
pub open spec fn split_colon(s: Seq<char>) -> (Seq<char>, Option<Seq<char>>) {
    let i = index_of(s, ':', 0);
    if i < s.len() {
        (s.subrange(0, i), Some(s.subrange(i + 1, s.len() as int)))
    } else {
        (s, None)
    }
}

/// The text of a header that may be absent (`None`) or present but not
/// visible ASCII (`Some(None)`).
pub open spec fn header_text(h: Option<Option<String>>) -> Option<Option<Seq<char>>> {
    match h {
        Some(Some(s)) => Some(Some(s@)),
        Some(None) => Some(None),
        None => None,
    }
}

/// The credential header in use: `token` when present, else
/// `Authorization`; empty when the chosen header is missing or not text.
pub open spec fn chosen_header(token: Option<Option<Seq<char>>>, authorization: Option<Option<Seq<char>>>) -> Seq<char> {
    let h = match token {
        Some(v) => Some(v),
        None => authorization,
    };
    match h {
        Some(Some(s)) => s,
        _ => Seq::empty(),
    }
}

/// The `Bearer ` prefix, its letters matched in either case.
pub open spec fn has_bearer_prefix(s: Seq<char>) -> bool {
    &&& s.len() >= 7
    &&& (s[0] == 'b' || s[0] == 'B')
    &&& (s[1] == 'e' || s[1] == 'E')
    &&& (s[2] == 'a' || s[2] == 'A')
    &&& (s[3] == 'r' || s[3] == 'R')
    &&& (s[4] == 'e' || s[4] == 'E')
    &&& (s[5] == 'r' || s[5] == 'R')
    &&& s[6] == ' '
}

/// `s` without a leading `Bearer ` (any case).
pub open spec fn without_bearer(s: Seq<char>) -> Seq<char> {
    if has_bearer_prefix(s) {
        s.subrange(7, s.len() as int)
    } else {
        s
    }
}

/// Why a session-scoped request was refused.
#[derive(PartialEq, Eq, Debug, Clone, Copy)]
pub enum SessionAuthError {
    /// No session name in the path.
    SessionNotInformed,
    /// No token in the path segment or the headers.
    TokenMissing,
    /// The token is not the bcrypt hash of session name and secret.
    InvalidToken,
}

/// The outcome of the token check of a session-scoped request: the session
/// segment (which may carry `session:token`), else the `token` or
/// `Authorization` header with an optional `Bearer ` prefix; the token is
/// restored and verified against session name and secret.
pub open spec fn session_auth(
    path: Seq<char>,
    token: Option<Option<Seq<char>>>,
    authorization: Option<Option<Seq<char>>>,
    secret: Seq<char>,
) -> Result<(), SessionAuthError> {
    let (name, embedded) = split_colon(session_segment(path));
    let tok = match embedded {
        Some(t) => t,
        None => without_bearer(chosen_header(token, authorization)),
    };
    if name.len() == 0 {
        Err(SessionAuthError::SessionNotInformed)
    } else if tok.len() == 0 {
        Err(SessionAuthError::TokenMissing)
    } else if bcrypt_verifies(token_password(name, secret), restored(tok)) {
        Ok(())
    } else {
        Err(SessionAuthError::InvalidToken)
    }
}

proof fn lemma_index_of(s: Seq<char>, c: char, i: int, j: int)
    requires
        0 <= i <= j <= s.len(),
        forall|k: int| i <= k < j ==> #[trigger] s[k] != c,
        j == s.len() || s[j] == c,
    ensures
        index_of(s, c, i) == j,
    decreases j - i,
{
    if i < j {
        lemma_index_of(s, c, i + 1, j);
    }
}

fn index_of_exec(s: &Vec<char>, c: char, start: usize) -> (r: usize)
    requires
        start <= s@.len(),
    ensures
        r as int == index_of(s@, c, start as int),
        start <= r <= s@.len(),
{
    let mut i = start;
    while i < s.len() && s[i] != c
        invariant
            start <= i <= s@.len(),
            forall|k: int| start <= k < i ==> #[trigger] s@[k] != c,
        decreases s@.len() - i,
    {
        i = i + 1;
    }
    proof {
        lemma_index_of(s@, c, start as int, i as int);
    }
    i
}

fn slice_chars(s: &Vec<char>, from: usize, to: usize) -> (r: Vec<char>)
    requires
        from <= to <= s@.len(),
    ensures
        r@ == s@.subrange(from as int, to as int),
{
    let mut r: Vec<char> = Vec::new();
    let mut i = from;
    while i < to
        invariant
            from <= i <= to <= s@.len(),
            r@ =~= s@.subrange(from as int, i as int),
        decreases to - i,
    {
        r.push(s[i]);
        i = i + 1;
    }
    r
}

/// The session segment of a request path.
pub fn session_segment_of(path: &str) -> (seg: Vec<char>)
    ensures
        seg@ == session_segment(path@),
{
    let s = chars_of(path);
    let e0 = index_of_exec(&s, '/', 0);
    if e0 >= s.len() {
        assert(path_field(s@, 2) is None);
        return Vec::new();
    }
    let e1 = index_of_exec(&s, '/', e0 + 1);
    proof {
        let r1 = s@.subrange(e0 + 1, s@.len() as int);
        assert forall|k: int| 0 <= k < e1 - e0 - 1 implies #[trigger] r1[k] != '/' by {
            assert(r1[k] == s@[k + e0 + 1]);
            lemma_index_bound(s@, '/', e0 + 1, k + e0 + 1);
        }
        if e1 < s@.len() {
            assert(r1[e1 - e0 - 1] == s@[e1 as int]);
            lemma_index_hit(s@, '/', e0 + 1);
        }
        lemma_index_of(r1, '/', 0, e1 - e0 - 1);
        assert(path_field(s@, 2) == path_field(r1, 1));
        if e1 >= s@.len() {
            assert(path_field(r1, 1) is None);
        }
    }
    if e1 >= s.len() {
        return Vec::new();
    }
    let e2 = index_of_exec(&s, '/', e1 + 1);
    proof {
        let r1 = s@.subrange(e0 + 1, s@.len() as int);
        let r2 = r1.subrange(e1 - e0, r1.len() as int);
        assert(r2 =~= s@.subrange(e1 + 1, s@.len() as int));
        assert forall|k: int| 0 <= k < e2 - e1 - 1 implies #[trigger] r2[k] != '/' by {
            assert(r2[k] == s@[k + e1 + 1]);
            lemma_index_bound(s@, '/', e1 + 1, k + e1 + 1);
        }
        if e2 < s@.len() {
            assert(r2[e2 - e1 - 1] == s@[e2 as int]);
            lemma_index_hit(s@, '/', e1 + 1);
        }
        lemma_index_of(r2, '/', 0, e2 - e1 - 1);
        assert(r2.subrange(0, e2 - e1 - 1) =~= s@.subrange(e1 + 1, e2 as int));
        assert(path_field(s@, 2) == path_field(r1, 1));
        assert(path_field(r1, 1) == path_field(r2, 0));
    }
    slice_chars(&s, e1 + 1, e2)
}

proof fn lemma_index_bound(s: Seq<char>, c: char, i: int, k: int)
    requires
        0 <= i <= k < index_of(s, c, i),
        index_of(s, c, i) <= s.len(),
    ensures
        s[k] != c,
    decreases k - i,
{
    if i < k {
        lemma_index_bound(s, c, i + 1, k);
    }
}

proof fn lemma_index_hit(s: Seq<char>, c: char, i: int)
    requires
        0 <= i,
        index_of(s, c, i) < s.len(),
    ensures
        s[index_of(s, c, i)] == c,
        index_of(s, c, i) >= i,
    decreases s.len() - i,
{
    if i < s.len() && s[i] != c {
        lemma_index_hit(s, c, i + 1);
    }
}


fn chosen_header_exec(token: &Option<Option<String>>, authorization: &Option<Option<String>>) -> (r: Vec<char>)
    ensures
        r@ == chosen_header(header_text(*token), header_text(*authorization)),
{
    let h = match token {
        Some(v) => v,
        None => match authorization {
            Some(v) => v,
            None => {
                return Vec::new();
            },
        },
    };
    match h {
        Some(s) => chars_of(s.as_str()),
        None => Vec::new(),
    }
}

fn without_bearer_exec(s: Vec<char>) -> (r: Vec<char>)
    ensures
        r@ == without_bearer(s@),
{
    if s.len() >= 7 && (s[0] == 'b' || s[0] == 'B') && (s[1] == 'e' || s[1] == 'E') && (s[2] == 'a'
        || s[2] == 'A') && (s[3] == 'r' || s[3] == 'R') && (s[4] == 'e' || s[4] == 'E') && (s[5]
        == 'r' || s[5] == 'R') && s[6] == ' ' {
        let n = s.len();
        slice_chars(&s, 7, n)
    } else {
        s
    }
}

/// Checks the token of a session-scoped request (the guard in front of the
/// session and messaging endpoints). Headers are given as absent (`None`),
/// present but not text (`Some(None)`), or their text.
pub fn check_session_token(
    path: &str,
    token_header: &Option<Option<String>>,
    authorization_header: &Option<Option<String>>,
    secret_key: &str,
) -> (r: Result<(), SessionAuthError>)
    ensures
        r == session_auth(path@, header_text(*token_header), header_text(*authorization_header), secret_key@),
{
    let seg = session_segment_of(path);
    let i = index_of_exec(&seg, ':', 0);
    let n = seg.len();
    let name = if i < n {
        slice_chars(&seg, 0, i)
    } else {
        slice_chars(&seg, 0, n)
    };
    let tok = if i < n {
        slice_chars(&seg, i + 1, n)
    } else {
        without_bearer_exec(chosen_header_exec(token_header, authorization_header))
    };
    proof {
        assert(seg@.subrange(0, n as int) =~= seg@);
    }
    if name.len() == 0 {
        return Err(SessionAuthError::SessionNotInformed);
    }
    if tok.len() == 0 {
        return Err(SessionAuthError::TokenMissing);
    }
    let tok_s = string_of(tok.as_slice());
    let hash = restore_token(tok_s.as_str());
    let mut plain = string_of(name.as_slice());
    plain.append(secret_key);
    if bcrypt_verify(plain.as_str(), hash.as_str()) {
        Ok(())
    } else {
        Err(SessionAuthError::InvalidToken)
    }
}

/// Checks the token carried in a QR-code URL: it must restore to a bcrypt
/// hash of session name and secret.
pub fn verify_path_token(session: &str, raw_token: &str, secret_key: &str) -> (ok: bool)
    ensures
        ok == bcrypt_verifies(token_password(session@, secret_key@), restored(raw_token@)),
{
    let hash = restore_token(raw_token);
    let mut plain = session.to_owned();
    plain.append(secret_key);
    bcrypt_verify(plain.as_str(), hash.as_str())
}

/// The session segment of `/api/{seg}/{rest}` is `seg`, when `seg` holds no `/`.
proof fn lemma_api_segment(seg: Seq<char>, rest: Seq<char>)
    requires
        forall|k: int| 0 <= k < seg.len() ==> #[trigger] seg[k] != '/',
    ensures
        session_segment(seq!['/', 'a', 'p', 'i', '/'] + seg + seq!['/'] + rest) == seg,
{
    let path = seq!['/', 'a', 'p', 'i', '/'] + seg + seq!['/'] + rest;
    let ls = seg.len() as int;
    lemma_index_of(path, '/', 0, 0);
    let r1 = path.subrange(1, path.len() as int);
    assert(r1 =~= seq!['a', 'p', 'i', '/'] + seg + seq!['/'] + rest);
    lemma_index_of(r1, '/', 0, 3);
    let r2 = r1.subrange(4, r1.len() as int);
    assert(r2 =~= seg + seq!['/'] + rest);
    assert forall|k: int| 0 <= k < ls implies #[trigger] r2[k] != '/' by {
        assert(r2[k] == seg[k]);
    }
    assert(r2[ls] == '/');
    lemma_index_of(r2, '/', 0, ls);
    assert(path_field(path, 2) == path_field(r1, 1));
    assert(path_field(r1, 1) == path_field(r2, 0));
    assert(r2.subrange(0, ls) =~= seg);
}

/// The conditions under which a generated token opens its session: the
/// session name is non-empty and holds no `/` or `:`, and the hash is a
/// bcrypt hash of session name and secret.
pub open spec fn token_fits_session(session: Seq<char>, secret: Seq<char>, h: Seq<char>) -> bool {
    &&& session.len() > 0
    &&& forall|k: int| 0 <= k < session.len() ==> #[trigger] session[k] != '/' && session[k] != ':'
    &&& bcrypt_shaped(h)
    &&& bcrypt_verifies(token_password(session, secret), h)
}

proof fn lemma_session_has_no_colon(session: Seq<char>)
    requires
        forall|k: int| 0 <= k < session.len() ==> #[trigger] session[k] != '/' && session[k] != ':',
    ensures
        split_colon(session) == (session, None::<Seq<char>>),
{
    assert forall|k: int| 0 <= k < session.len() implies #[trigger] session[k] != ':' by {}
    lemma_index_of(session, ':', 0, session.len() as int);
}

/// A token made by `generate_token` opens every session-scoped path of its
/// session when sent in the `token` header.
pub proof fn lemma_generated_token_accepted(
    session: Seq<char>,
    secret: Seq<char>,
    h: Seq<char>,
    rest: Seq<char>,
    authorization: Option<Option<Seq<char>>>,
)
    requires
        token_fits_session(session, secret, h),
    ensures
        session_auth(
            seq!['/', 'a', 'p', 'i', '/'] + session + seq!['/'] + rest,
            Some(Some(sanitized(h))),
            authorization,
            secret,
        ) == Ok::<(), SessionAuthError>(()),
{
    lemma_api_segment(session, rest);
    lemma_session_has_no_colon(session);
    let t = sanitized(h);
    assert(t[0] == '$');
    assert(!has_bearer_prefix(t));
    assert(chosen_header(Some(Some(t)), authorization) == t);
    lemma_restore_sanitized(h);
}

/// It opens them too when sent as `Authorization: Bearer {token}` with no
/// `token` header.
pub proof fn lemma_generated_token_accepted_as_bearer(
    session: Seq<char>,
    secret: Seq<char>,
    h: Seq<char>,
    rest: Seq<char>,
)
    requires
        token_fits_session(session, secret, h),
    ensures
        session_auth(
            seq!['/', 'a', 'p', 'i', '/'] + session + seq!['/'] + rest,
            None,
            Some(Some(seq!['B', 'e', 'a', 'r', 'e', 'r', ' '] + sanitized(h))),
            secret,
        ) == Ok::<(), SessionAuthError>(()),
{
    lemma_api_segment(session, rest);
    lemma_session_has_no_colon(session);
    let t = sanitized(h);
    let b = seq!['B', 'e', 'a', 'r', 'e', 'r', ' '] + t;
    assert(has_bearer_prefix(b));
    assert(b.subrange(7, b.len() as int) =~= t);
    assert(t[0] == '$');
    lemma_restore_sanitized(h);
}

/// It opens them too when carried in the path as `/api/{session}:{token}/...`,
/// whatever the headers.
pub proof fn lemma_generated_token_accepted_in_path(
    session: Seq<char>,
    secret: Seq<char>,
    h: Seq<char>,
    rest: Seq<char>,
    token: Option<Option<Seq<char>>>,
    authorization: Option<Option<Seq<char>>>,
)
    requires
        token_fits_session(session, secret, h),
    ensures
        session_auth(
            seq!['/', 'a', 'p', 'i', '/'] + session + seq![':'] + sanitized(h) + seq!['/'] + rest,
            token,
            authorization,
            secret,
        ) == Ok::<(), SessionAuthError>(()),
{
    let t = sanitized(h);
    let seg = session + seq![':'] + t;
    assert(t.len() == h.len());
    assert forall|k: int| 0 <= k < seg.len() implies #[trigger] seg[k] != '/' by {
        if k < session.len() {
            assert(seg[k] == session[k]);
        } else if k > session.len() {
            assert(seg[k] == t[k - session.len() - 1]);
        }
    }
    assert(seq!['/', 'a', 'p', 'i', '/'] + session + seq![':'] + t + seq!['/'] + rest
        =~= seq!['/', 'a', 'p', 'i', '/'] + seg + seq!['/'] + rest);
    lemma_api_segment(seg, rest);
    let ls = session.len() as int;
    assert forall|k: int| 0 <= k < ls implies #[trigger] seg[k] != ':' by {
        assert(seg[k] == session[k]);
    }
    lemma_index_of(seg, ':', 0, ls);
    assert(seg.subrange(0, ls) =~= session);
    assert(seg.subrange(ls + 1, seg.len() as int) =~= t);
    assert(t[0] == '$');
    lemma_restore_sanitized(h);
}

/// A token made by `generate_token` also opens the QR-code URL of its session.
pub proof fn lemma_generated_token_opens_qr_url(session: Seq<char>, secret: Seq<char>, h: Seq<char>)
    requires
        bcrypt_shaped(h),
        bcrypt_verifies(token_password(session, secret), h),
    ensures
        bcrypt_verifies(token_password(session, secret), restored(sanitized(h))),
{
    lemma_restore_sanitized(h);
}

/// Why a contacts request was refused.
#[derive(PartialEq, Eq, Debug, Clone, Copy)]
pub enum GoogleAuthError {
    /// Neither the `token` nor the `Authorization` header carries text.
    TokenNotProvided,
    /// The token is not the configured secret.
    InvalidToken,
}

/// The outcome of the shared-secret check of the contacts endpoints: the
/// header value, without an optional `Bearer ` prefix, must equal the secret.
pub open spec fn google_auth(
    token: Option<Option<Seq<char>>>,
    authorization: Option<Option<Seq<char>>>,
    secret: Seq<char>,
) -> Result<(), GoogleAuthError> {
    let raw = chosen_header(token, authorization);
    if raw.len() == 0 {
        Err(GoogleAuthError::TokenNotProvided)
    } else if without_bearer(raw) == secret {
        Ok(())
    } else {
        Err(GoogleAuthError::InvalidToken)
    }
}

/// Checks the shared secret of a contacts request.
pub fn check_google_token(
    token_header: &Option<Option<String>>,
    authorization_header: &Option<Option<String>>,
    secret: &str,
) -> (r: Result<(), GoogleAuthError>)
    ensures
        r == google_auth(header_text(*token_header), header_text(*authorization_header), secret@),
{
    let raw = chosen_header_exec(token_header, authorization_header);
    if raw.len() == 0 {
        return Err(GoogleAuthError::TokenNotProvided);
    }
    let value = string_of(without_bearer_exec(raw).as_slice());
    let expected = secret.to_owned();
    if value == expected {
        Ok(())
    } else {
        Err(GoogleAuthError::InvalidToken)
    }
}

/// Whether a secret key given in a request path is the configured one.
pub fn secret_matches(given: &str, secret_key: &str) -> (ok: bool)
    ensures
        ok == (given@ == secret_key@),
{
    let a = given.to_owned();
    let b = secret_key.to_owned();
    a == b
}

} // verus!
