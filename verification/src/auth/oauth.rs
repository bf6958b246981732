//! OAuth 2.1 + PKCE: the URLs the flow visits, the callback it waits for,
//! the claims it reads from the token, and how each server's token is
//! recorded. The HTTP exchanges themselves happen outside the library.

use vstd::prelude::*;

use crate::auth::session::{lookup, AuthSession, CredentialMap, ServerCredentials};
use crate::auth::token_store::{token_lookup, StoredToken, TokenStore};
use crate::encoding::{
    base64url, base64url_decode, base64url_decoded, base64url_encode, form_urlencoded,
    is_ascii_alphanumeric, random_alphanumeric, sha256, sha256_digest, urlencoded,
};
use crate::json::{is_json, json_str_member, json_valid, str_member};
use crate::mcp::types::{ServerId, ServerRegistry, ServerView};
use crate::text::{
    append, chars_of, decimal_digits, push_decimal, contains_seq, encode_utf8_spec, find_char, is_first_index, lacks, owned,
    split_chars, split_seq, str_contains, str_eq, string_from_chars, string_from_range,
    ws_tokens, ws_tokens_chars,
};

verus! {

/// The authorization server.
pub const AUTH_BASE: &'static str = "https://auth.aussierobots.com.au";

/// Where the browser is sent back after login.
pub const REDIRECT_URI: &'static str = "http://127.0.0.1:19876/callback";

/// The address the callback listener binds.
pub const CALLBACK_ADDR: &'static str = "127.0.0.1:19876";

/// A preflight `/authorize` answer means the cached client is still known
/// unless it is not a redirect and its body reports `invalid_client`.
pub fn preflight_indicates_valid(is_redirect: bool, body: &str) -> (r: bool)
    ensures
        r == (is_redirect || !contains_seq(body@, "invalid_client"@)),
{
    is_redirect || !str_contains(body, "invalid_client")
}

/// The form-urlencoding of a text's UTF-8 bytes.
pub open spec fn enc(s: Seq<char>) -> Seq<char> {
    form_urlencoded(encode_utf8_spec(s))
}

/// The `/authorize` URL that starts a login for one audience.
pub open spec fn authorize_url_spec(
    client_id: Seq<char>,
    challenge: Seq<char>,
    scope: Seq<char>,
    state: Seq<char>,
    audience: Seq<char>,
) -> Seq<char> {
    AUTH_BASE@ + "/authorize?response_type=code&client_id="@ + client_id + "&redirect_uri="@ + enc(
        REDIRECT_URI@,
    ) + "&code_challenge="@ + challenge + "&code_challenge_method=S256&scope="@ + enc(scope)
        + "&state="@ + state + "&resource="@ + enc(audience)
}

/// The `/authorize` URL for the browser login.
pub fn authorize_url(client_id: &str, challenge: &str, scope: &str, state: &str, audience: &str) -> (r: String)
    ensures
        r@ == authorize_url_spec(client_id@, challenge@, scope@, state@, audience@),
{
    let mut u = owned(AUTH_BASE);
    append(&mut u, "/authorize?response_type=code&client_id=");
    append(&mut u, client_id);
    append(&mut u, "&redirect_uri=");
    append(&mut u, urlencoded(REDIRECT_URI).as_str());
    append(&mut u, "&code_challenge=");
    append(&mut u, challenge);
    append(&mut u, "&code_challenge_method=S256&scope=");
    append(&mut u, urlencoded(scope).as_str());
    append(&mut u, "&state=");
    append(&mut u, state);
    append(&mut u, "&resource=");
    append(&mut u, urlencoded(audience).as_str());
    u
}

/// The `/authorize` URL that probes whether a cached client id is known.
pub open spec fn preflight_url_spec(client_id: Seq<char>, resource: Seq<char>) -> Seq<char> {
    AUTH_BASE@ + "/authorize?response_type=code&client_id="@ + enc(client_id) + "&redirect_uri="@
        + enc(REDIRECT_URI@)
        + "&code_challenge=E9Melhoa2OwvFrEMTJguCHaoeK1t8URWbuGJSstw-cM&code_challenge_method=S256&scope=mcp%3Aread&state=preflight&resource="@
        + enc(resource)
}

/// The preflight URL for a cached client id.
pub fn preflight_url(client_id: &str, resource: &str) -> (r: String)
    ensures
        r@ == preflight_url_spec(client_id@, resource@),
{
    let mut u = owned(AUTH_BASE);
    append(&mut u, "/authorize?response_type=code&client_id=");
    append(&mut u, urlencoded(client_id).as_str());
    append(&mut u, "&redirect_uri=");
    append(&mut u, urlencoded(REDIRECT_URI).as_str());
    append(
        &mut u,
        "&code_challenge=E9Melhoa2OwvFrEMTJguCHaoeK1t8URWbuGJSstw-cM&code_challenge_method=S256&scope=mcp%3Aread&state=preflight&resource=",
    );
    append(&mut u, urlencoded(resource).as_str());
    u
}

/// A PKCE S256 pair: a random 128-character alphanumeric verifier and the
/// base64url (unpadded) SHA-256 of it.
pub fn generate_pkce() -> (r: (String, String))
    ensures
        r.0@.len() == 128,
        forall|i: int| 0 <= i < 128 ==> is_ascii_alphanumeric(#[trigger] r.0@[i]),
        r.1@ == base64url(sha256(encode_utf8_spec(r.0@))),
{
    let verifier = random_alphanumeric(128);
    let digest = sha256_digest(verifier.as_str().as_bytes());
    let challenge = base64url_encode(digest.as_slice());
    (verifier, challenge)
}

/// A random 32-character alphanumeric state for CSRF protection.
pub fn generate_state() -> (r: String)
    ensures
        r@.len() == 32,
        forall|i: int| 0 <= i < 32 ==> is_ascii_alphanumeric(#[trigger] r@[i]),
{
    random_alphanumeric(32)
}

// ---------------------------------------------------------------------------
// Token claims and registration
// ---------------------------------------------------------------------------

/// The `sub` claim of a JWT, read without checking the signature, or the
/// reason it cannot be read.
pub open spec fn jwt_sub(token: Seq<char>) -> Result<Seq<char>, Seq<char>> {
    let parts = split_seq(token, '.');
    if parts.len() != 3 {
        Err("invalid JWT structure"@)
    } else {
        match base64url_decoded(parts[1]) {
            None => Err("failed to base64-decode JWT payload"@),
            Some(payload) => if !json_valid(payload) {
                Err("failed to parse JWT payload JSON"@)
            } else {
                match json_str_member(payload, "sub"@) {
                    Some(sub) => Ok(sub),
                    None => Err("JWT payload missing sub claim"@),
                }
            },
        }
    }
}

/// Extracts the `sub` claim from a JWT without verifying the signature.
pub fn extract_sub_from_jwt(token: &str) -> (r: Result<String, String>)
    ensures
        match jwt_sub(token@) {
            Ok(s) => r matches Ok(x) && x@ == s,
            Err(m) => r matches Err(e) && e@ == m,
        },
{
    let chars = chars_of(token);
    let parts = split_chars(&chars, '.');
    assert(parts@.map_values(|p: Vec<char>| p@).len() == parts@.len());
    if parts.len() != 3 {
        return Err(owned("invalid JWT structure"));
    }
    let payload_text = string_from_chars(&parts[1]);
    assert(payload_text@ == split_seq(token@, '.')[1]);
    match base64url_decode(payload_text.as_str()) {
        Some(payload) => {
            let parsed = is_json(payload.as_slice());
            let sub = str_member(payload.as_slice(), "sub");
            sub_claim_outcome(true, parsed, sub)
        },
        None => sub_claim_outcome(false, false, None),
    }
}

/// The `sub` claim, or the first step that failed: decoding the payload,
/// parsing it as JSON, finding a string `sub`.
pub fn sub_claim_outcome(decoded: bool, parsed: bool, sub: Option<String>) -> (r: Result<String, String>)
    ensures
        !decoded ==> (r matches Err(m) && m@ == "failed to base64-decode JWT payload"@),
        decoded && !parsed ==> (r matches Err(m) && m@ == "failed to parse JWT payload JSON"@),
        decoded && parsed ==> match sub {
            Some(s) => r == Ok::<String, String>(s),
            None => r matches Err(m) && m@ == "JWT payload missing sub claim"@,
        },
{
    if !decoded {
        return Err(owned("failed to base64-decode JWT payload"));
    }
    if !parsed {
        return Err(owned("failed to parse JWT payload JSON"));
    }
    match sub {
        Some(s) => Ok(s),
        None => Err(owned("JWT payload missing sub claim")),
    }
}

/// The client id a dynamic-registration response carries, or why it does not.
pub open spec fn registered_client_id(body: Seq<char>) -> Result<Seq<char>, Seq<char>> {
    let doc = encode_utf8_spec(body);
    if !json_valid(doc) {
        Err("DCR response parse failed"@)
    } else {
        match json_str_member(doc, "client_id"@) {
            Some(id) => Ok(id),
            None => Err("DCR response missing client_id"@),
        }
    }
}

/// Reads the `client_id` from a dynamic client registration response body.
pub fn client_id_from_registration(body: &str) -> (r: Result<String, String>)
    ensures
        match registered_client_id(body@) {
            Ok(s) => r matches Ok(x) && x@ == s,
            Err(m) => r matches Err(e) && e@ == m,
        },
{
    let parsed = is_json(body.as_bytes());
    registration_outcome(parsed, str_member(body.as_bytes(), "client_id"))
}

/// The client id of a registration response, or why there is none: the
/// body is not JSON, or has no string `client_id`.
pub fn registration_outcome(parsed: bool, client_id: Option<String>) -> (r: Result<String, String>)
    ensures
        !parsed ==> (r matches Err(m) && m@ == "DCR response parse failed"@),
        parsed ==> match client_id {
            Some(id) => r == Ok::<String, String>(id),
            None => r matches Err(m) && m@ == "DCR response missing client_id"@,
        },
{
    if !parsed {
        return Err(owned("DCR response parse failed"));
    }
    match client_id {
        Some(id) => Ok(id),
        None => Err(owned("DCR response missing client_id")),
    }
}

// ---------------------------------------------------------------------------
// The browser callback
// ---------------------------------------------------------------------------

/// What a request on the callback listener turned out to be.
#[derive(Debug)]
pub enum CallbackOutcome {
    /// Not an OAuth callback (a favicon, a stale tab): dismissed.
    NotCallback,
    /// A callback from an earlier login: dismissed.
    Stale,
    /// The current login was refused.
    Denied { error: String, description: String },
    /// The authorization code of the current login.
    Code(String),
}

/// The first line of a text (`str::lines().next()`): up to the first
/// newline, without a `\r` just before it; none for an empty text.
pub open spec fn first_line(s: Seq<char>) -> Option<Seq<char>> {
    if s.len() == 0 {
        None
    } else if exists|i: int| is_first_index(s, '\n', i) {
        let i = choose|i: int| is_first_index(s, '\n', i);
        let l = s.take(i);
        if l.len() > 0 && l.last() == '\r' {
            Some(l.drop_last())
        } else {
            Some(l)
        }
    } else {
        Some(s)
    }
}

/// The query of a request: the part after the first `?` (up to a second
/// `?`) of the request line's second token; empty when any step is missing.
pub open spec fn request_query(request: Seq<char>) -> Seq<char> {
    match first_line(request) {
        None => Seq::empty(),
        Some(line) => {
            let tokens = ws_tokens(line);
            if tokens.len() < 2 {
                Seq::empty()
            } else {
                let pieces = split_seq(tokens[1], '?');
                if pieces.len() < 2 {
                    Seq::empty()
                } else {
                    pieces[1]
                }
            }
        },
    }
}

/// The `name=value` pairs of a query, split at `&` and at the first `=`;
/// pieces without `=` are dropped.
pub open spec fn query_pairs(pieces: Seq<Seq<char>>) -> Seq<(Seq<char>, Seq<char>)>
    decreases pieces.len(),
{
    if pieces.len() == 0 {
        Seq::empty()
    } else {
        let rest = query_pairs(pieces.drop_last());
        let p = pieces.last();
        if exists|i: int| is_first_index(p, '=', i) {
            let i = choose|i: int| is_first_index(p, '=', i);
            rest.push((p.take(i), p.skip(i + 1)))
        } else {
            rest
        }
    }
}

/// The value of the last pair named `name` (a later pair wins).
pub open spec fn last_value(pairs: Seq<(Seq<char>, Seq<char>)>, name: Seq<char>) -> Option<Seq<char>>
    decreases pairs.len(),
{
    if pairs.len() == 0 {
        None
    } else if pairs.last().0 == name {
        Some(pairs.last().1)
    } else {
        last_value(pairs.drop_last(), name)
    }
}

/// The parameter `name` of a callback request.
pub open spec fn callback_param(request: Seq<char>, name: Seq<char>) -> Option<Seq<char>> {
    last_value(query_pairs(split_seq(request_query(request), '&')), name)
}

/// How a callback request is classified: no `state` means not a callback; a
/// different state is stale; a `code` completes the login; otherwise the
/// login was refused with `error` (default "unknown") and
/// `error_description` (default empty).
pub open spec fn callback_outcome_matches(r: CallbackOutcome, request: Seq<char>, expected_state: Seq<char>) -> bool {
    match callback_param(request, "state"@) {
        None => r is NotCallback,
        Some(st) => if st != expected_state {
            r is Stale
        } else {
            match callback_param(request, "code"@) {
                Some(code) => r matches CallbackOutcome::Code(c) && c@ == code,
                None => r matches CallbackOutcome::Denied { error, description } && error@ == (
                match callback_param(request, "error"@) {
                    Some(e) => e,
                    None => "unknown"@,
                }) && description@ == (match callback_param(request, "error_description"@) {
                    Some(d) => d,
                    None => Seq::empty(),
                }),
            }
        },
    }
}

/// The first line of `v`.
fn first_line_chars(v: &Vec<char>) -> (r: Option<Vec<char>>)
    ensures
        match first_line(v@) {
            Some(l) => r matches Some(x) && x@ == l,
            None => r is None,
        },
{
    if v.len() == 0 {
        return None;
    }
    match find_char(v, '\n') {
        Some(i) => {
            proof {
                let c = choose|j: int| is_first_index(v@, '\n', j);
                assert(c == i) by {
                    if c < i {
                    } else if c > i {
                    }
                }
            }
            let end = if i > 0 && v[i - 1] == '\r' {
                i - 1
            } else {
                i
            };
            let mut l: Vec<char> = Vec::new();
            let mut k: usize = 0;
            while k < end
                invariant
                    end <= i < v.len(),
                    k <= end,
                    l@ == v@.take(k as int),
                decreases end - k,
            {
                l.push(v[k]);
                k = k + 1;
                assert(l@ =~= v@.take(k as int));
            }
            proof {
                if end < i {
                    assert(l@ =~= v@.take(i as int).drop_last());
                } else {
                    assert(l@ =~= v@.take(i as int));
                }
            }
            Some(l)
        },
        None => {
            let mut l: Vec<char> = Vec::new();
            let mut k: usize = 0;
            while k < v.len()
                invariant
                    k <= v.len(),
                    l@ == v@.take(k as int),
                decreases v.len() - k,
            {
                l.push(v[k]);
                k = k + 1;
                assert(l@ =~= v@.take(k as int));
            }
            assert(l@ =~= v@);
            Some(l)
        },
    }
}

/// The query of a request, as characters.
fn request_query_chars(request: &str) -> (r: Vec<char>)
    ensures
        r@ == request_query(request@),
{
    let chars = chars_of(request);
    match first_line_chars(&chars) {
        None => Vec::new(),
        Some(line) => {
            let tokens = ws_tokens_chars(&line);
            assert(tokens@.map_values(|t: Vec<char>| t@).len() == tokens@.len());
            if tokens.len() < 2 {
                Vec::new()
            } else {
                assert(tokens@.map_values(|t: Vec<char>| t@)[1] == tokens@[1]@);
                let pieces = split_chars(&tokens[1], '?');
                assert(pieces@.map_values(|t: Vec<char>| t@).len() == pieces@.len());
                if pieces.len() < 2 {
                    Vec::new()
                } else {
                    assert(pieces@.map_values(|t: Vec<char>| t@)[1] == pieces@[1]@);
                    let mut q: Vec<char> = Vec::new();
                    let mut k: usize = 0;
                    while k < pieces[1].len()
                        invariant
                            pieces@.len() >= 2,
                            k <= pieces@[1]@.len(),
                            q@ == pieces@[1]@.take(k as int),
                        decreases pieces@[1]@.len() - k,
                    {
                        q.push(pieces[1][k]);
                        k = k + 1;
                        assert(q@ =~= pieces@[1]@.take(k as int));
                    }
                    assert(q@ =~= pieces@[1]@);
                    q
                }
            }
        },
    }
}

/// The `name=value` pairs of a callback request.
fn callback_pairs(request: &str) -> (r: Vec<(String, String)>)
    ensures
        r@.map_values(|e: (String, String)| (e.0@, e.1@)) == query_pairs(split_seq(request_query(request@), '&')),
{
    let query = request_query_chars(request);
    let pieces = split_chars(&query, '&');
    let ghost ps = pieces@.map_values(|t: Vec<char>| t@);
    let mut pairs: Vec<(String, String)> = Vec::new();
    let mut i: usize = 0;
    while i < pieces.len()
        invariant
            i <= pieces.len(),
            ps == pieces@.map_values(|t: Vec<char>| t@),
            ps == split_seq(request_query(request@), '&'),
            pairs@.map_values(|e: (String, String)| (e.0@, e.1@)) == query_pairs(ps.take(i as int)),
        decreases pieces.len() - i,
    {
        let p = &pieces[i];
        proof {
            assert(ps.take(i + 1).drop_last() =~= ps.take(i as int));
            assert(ps.take(i + 1).last() == p@);
        }
        match find_char(p, '=') {
            Some(eq) => {
                proof {
                    let c = choose|j: int| is_first_index(p@, '=', j);
                    assert(c == eq) by {
                        if c < eq {
                        } else if c > eq {
                        }
                    }
                    assert(p@.take(eq as int) =~= p@.subrange(0, eq as int));
                    assert(p@.skip(eq + 1) =~= p@.subrange(eq + 1, p@.len() as int));
                }
                let name = string_from_range(p, 0, eq);
                let value = string_from_range(p, eq + 1, p.len());
                let ghost before = pairs@.map_values(|e: (String, String)| (e.0@, e.1@));
                pairs.push((name, value));
                assert(pairs@.map_values(|e: (String, String)| (e.0@, e.1@)) =~= before.push((p@.take(eq as int), p@.skip(eq + 1))));
            },
            None => {},
        }
        i = i + 1;
    }
    assert(ps.take(pieces.len() as int) =~= ps);
    pairs
}

/// The value of the last pair named `name`.
fn last_value_of(pairs: &Vec<(String, String)>, name: &str) -> (r: Option<String>)
    ensures
        match last_value(pairs@.map_values(|e: (String, String)| (e.0@, e.1@)), name@) {
            Some(v) => r matches Some(x) && x@ == v,
            None => r is None,
        },
{
    let ghost ps = pairs@.map_values(|e: (String, String)| (e.0@, e.1@));
    let mut found: Option<String> = None;
    let mut i: usize = 0;
    while i < pairs.len()
        invariant
            i <= pairs.len(),
            ps == pairs@.map_values(|e: (String, String)| (e.0@, e.1@)),
            match last_value(ps.take(i as int), name@) {
                Some(v) => found matches Some(x) && x@ == v,
                None => found is None,
            },
        decreases pairs.len() - i,
    {
        proof {
            assert(ps.take(i + 1).drop_last() =~= ps.take(i as int));
            assert(ps.take(i + 1).last() == (pairs@[i as int].0@, pairs@[i as int].1@));
        }
        if str_eq(pairs[i].0.as_str(), name) {
            found = Some(pairs[i].1.clone());
        }
        i = i + 1;
    }
    assert(ps.take(pairs.len() as int) =~= ps);
    found
}

/// Classifies a request received on the callback listener.
pub fn parse_callback(request: &str, expected_state: &str) -> (r: CallbackOutcome)
    ensures
        callback_outcome_matches(r, request@, expected_state@),
{
    let pairs = callback_pairs(request);
    match last_value_of(&pairs, "state") {
        None => CallbackOutcome::NotCallback,
        Some(state) => {
            if !str_eq(state.as_str(), expected_state) {
                CallbackOutcome::Stale
            } else {
                match last_value_of(&pairs, "code") {
                    Some(code) => CallbackOutcome::Code(code),
                    None => {
                        let error = match last_value_of(&pairs, "error") {
                            Some(e) => e,
                            None => owned("unknown"),
                        };
                        let description = match last_value_of(&pairs, "error_description") {
                            Some(d) => d,
                            None => String::new(),
                        };
                        CallbackOutcome::Denied { error, description }
                    },
                }
            }
        },
    }
}

/// The HTTP response sent back to the browser tab.
pub open spec fn html_response_spec(body_content: Seq<char>) -> Seq<char> {
    let body = "<html><body>"@ + body_content + "</body></html>"@;
    "HTTP/1.1 200 OK\r\nContent-Type: text/html\r\nContent-Length: "@ + decimal_digits(
        (encode_utf8_spec(body).len() as usize) as nat,
    ) + "\r\nConnection: close\r\n\r\n"@ + body
}

/// Frames an HTML page as an HTTP/1.1 response whose Content-Length is the
/// byte length of the page (`str::len` of the page).
pub fn html_response(body_content: &str) -> (r: String)
    ensures
        r@ == html_response_spec(body_content@),
{
    let mut body = owned("<html><body>");
    append(&mut body, body_content);
    append(&mut body, "</body></html>");
    let n = body.as_str().len();
    let mut r = owned("HTTP/1.1 200 OK\r\nContent-Type: text/html\r\nContent-Length: ");
    push_decimal(&mut r, n);
    append(&mut r, "\r\nConnection: close\r\n\r\n");
    append(&mut r, body.as_str());
    assert(r@ =~= html_response_spec(body_content@));
    r
}

// ---------------------------------------------------------------------------
// Recording tokens
// ---------------------------------------------------------------------------

/// A token endpoint response.
#[derive(Debug)]
pub struct TokenResponse {
    pub access_token: String,
    pub refresh_token: Option<String>,
    pub expires_in: i64,
}

/// The state the OAuth flow builds up, one server at a time.
#[derive(Debug)]
pub struct OAuthProgress {
    pub credentials: CredentialMap,
    pub account_id: String,
    pub store: TokenStore,
}

/// `creds` is an OAuth credential with exactly these parts.
pub open spec fn is_oauth(
    creds: Option<ServerCredentials>,
    access: Seq<char>,
    refresh: Seq<char>,
    expires: int,
    audience: Seq<char>,
) -> bool {
    creds matches Some(ServerCredentials::OAuth { access_token, refresh_token, expires_at, audience: a })
        && access_token@ == access && refresh_token@ == refresh && expires_at == expires && a@ == audience
}

/// `t` is a stored token with exactly these parts.
pub open spec fn is_stored(t: Option<StoredToken>, refresh: Seq<char>, expires: int, account: Seq<char>) -> bool {
    t matches Some(st) && st.refresh_token@ == refresh && st.expires_at == expires && st.account_id@ == account
}

/// The refresh token kept after a response: the new one if sent, else `fallback`.
pub open spec fn kept_refresh(resp: TokenResponse, fallback: Seq<char>) -> Seq<char> {
    match resp.refresh_token {
        Some(t) => t@,
        None => fallback,
    }
}

/// `new` is `old` after a successful refresh for `server` of the stored
/// token `stored`: the account id is the stored one, the server's credential
/// is the new access token (bound to the server's URL) with the new refresh
/// token or the stored one, the store keeps that refresh token and expiry
/// under the server's URL, and nothing else changes.
pub open spec fn refresh_recorded(
    old: OAuthProgress,
    new: OAuthProgress,
    server: ServerView,
    stored: StoredToken,
    resp: TokenResponse,
    now: int,
) -> bool {
    &&& new.account_id@ == stored.account_id@
    &&& is_oauth(
        lookup(new.credentials@, server.key),
        resp.access_token@,
        kept_refresh(resp, stored.refresh_token@),
        now + resp.expires_in,
        server.url,
    )
    &&& forall|k: Seq<char>| k != server.key ==> #[trigger] lookup(new.credentials@, k) == lookup(old.credentials@, k)
    &&& is_stored(
        token_lookup(new.store.tokens@, server.url),
        kept_refresh(resp, stored.refresh_token@),
        now + resp.expires_in,
        stored.account_id@,
    )
    &&& forall|a: Seq<char>| a != server.url ==> #[trigger] token_lookup(new.store.tokens@, a) == token_lookup(old.store.tokens@, a)
    &&& new.store.dcr_client_id == old.store.dcr_client_id
}

/// `new` is `old` after a completed authorization for `server` whose token
/// names the account `sub`: the account id is `sub` unless one is already
/// known, the server's credential is the access token (bound to the server's
/// URL) with the refresh token or an empty one, the store keeps that refresh
/// token, expiry and `sub` under the server's URL, and nothing else changes.
pub open spec fn authorization_recorded(
    old: OAuthProgress,
    new: OAuthProgress,
    server: ServerView,
    resp: TokenResponse,
    now: int,
    sub: Seq<char>,
) -> bool {
    &&& new.account_id@ == (if old.account_id@.len() == 0 {
        sub
    } else {
        old.account_id@
    })
    &&& is_oauth(
        lookup(new.credentials@, server.key),
        resp.access_token@,
        kept_refresh(resp, Seq::empty()),
        now + resp.expires_in,
        server.url,
    )
    &&& forall|k: Seq<char>| k != server.key ==> #[trigger] lookup(new.credentials@, k) == lookup(old.credentials@, k)
    &&& is_stored(token_lookup(new.store.tokens@, server.url), kept_refresh(resp, Seq::empty()), now + resp.expires_in, sub)
    &&& forall|a: Seq<char>| a != server.url ==> #[trigger] token_lookup(new.store.tokens@, a) == token_lookup(old.store.tokens@, a)
    &&& new.store.dcr_client_id == old.store.dcr_client_id
}

/// What the login loop reports back about one server.
#[derive(Debug)]
pub enum LoginEvent {
    /// The server's turn begins.
    Start,
    /// The stored refresh token was exchanged for this response.
    Refreshed(TokenResponse),
    /// The refresh request failed.
    RefreshFailed,
    /// The browser authorization produced this response.
    Authorized(TokenResponse),
    /// The authorization was declined or failed.
    Declined,
}

/// What the login loop does next for the server.
#[derive(Debug)]
pub enum LoginStep {
    /// Refresh this stored token silently.
    Refresh(StoredToken),
    /// Run the browser authorization.
    Authorize,
    /// This server is done; go on with the next one.
    Next,
    /// The whole login fails with this message.
    Fail(String),
}

/// The expiry that an event's response leads to fits in an `i64`.
pub open spec fn lifetime_fits(event: LoginEvent, now: i64) -> bool {
    match event {
        LoginEvent::Refreshed(resp) => i64::MIN <= now + resp.expires_in <= i64::MAX,
        LoginEvent::Authorized(resp) => i64::MIN <= now + resp.expires_in <= i64::MAX,
        _ => true,
    }
}

impl OAuthProgress {
    /// The start of a login: no credentials, no account, the loaded store.
    pub fn new(store: TokenStore) -> (r: Self)
        ensures
            r.credentials@.len() == 0,
            r.account_id@.len() == 0,
            r.store == store,
    {
        OAuthProgress { credentials: CredentialMap::new(), account_id: String::new(), store }
    }

    /// Records a successful refresh for `server`: the new access token (bound
    /// to the server's URL), the new refresh token or the stored one, and the
    /// stored account id.
    pub fn record_refresh(&mut self, server: &ServerId, stored: &StoredToken, resp: TokenResponse, now: i64)
        requires
            i64::MIN <= now + resp.expires_in <= i64::MAX,
        ensures
            refresh_recorded(*old(self), *final(self), server@, *stored, resp, now as int),
    {
        let expires_at = now + resp.expires_in;
        self.account_id = stored.account_id.clone();
        let refresh = match &resp.refresh_token {
            Some(t) => t.clone(),
            None => stored.refresh_token.clone(),
        };
        self.credentials.insert(
            server.clone(),
            ServerCredentials::OAuth {
                access_token: resp.access_token,
                refresh_token: refresh.clone(),
                expires_at,
                audience: owned(server.url()),
            },
        );
        self.store.tokens.insert(
            owned(server.url()),
            StoredToken { refresh_token: refresh, expires_at, account_id: self.account_id.clone() },
        );
    }

    /// Records a completed authorization for `server`: the account id from
    /// the token's `sub` claim (kept if one is already known), the access
    /// token bound to the server's URL, and the refresh token (empty if
    /// none). A token whose `sub` cannot be read fails the login and
    /// changes nothing.
    pub fn record_authorization(&mut self, server: &ServerId, resp: TokenResponse, now: i64) -> (r: Result<(), String>)
        requires
            i64::MIN <= now + resp.expires_in <= i64::MAX,
        ensures
            match jwt_sub(resp.access_token@) {
                Err(m) => r matches Err(e) && e@ == m && *final(self) == *old(self),
                Ok(sub) => r is Ok && authorization_recorded(*old(self), *final(self), server@, resp, now as int, sub),
            },
    {
        let expires_at = now + resp.expires_in;
        let jwt_account_id = match extract_sub_from_jwt(resp.access_token.as_str()) {
            Ok(s) => s,
            Err(e) => return Err(e),
        };
        if self.account_id.as_str().is_empty() {
            self.account_id = jwt_account_id.clone();
        }
        let refresh = match &resp.refresh_token {
            Some(t) => t.clone(),
            None => String::new(),
        };
        self.credentials.insert(
            server.clone(),
            ServerCredentials::OAuth {
                access_token: resp.access_token,
                refresh_token: refresh.clone(),
                expires_at,
                audience: owned(server.url()),
            },
        );
        self.store.tokens.insert(
            owned(server.url()),
            StoredToken { refresh_token: refresh, expires_at, account_id: jwt_account_id },
        );
        Ok(())
    }

    /// One decision of the login for `server`. A stored token is refreshed
    /// silently before any browser authorization; a failed refresh falls
    /// back to the browser; a declined authorization skips the server and
    /// leaves it without a credential; a token whose `sub` cannot be read
    /// fails the whole login. A refresh response when no token is stored
    /// for the server (there was nothing to refresh) is treated as a failed
    /// refresh.
    pub fn step(&mut self, server: &ServerId, event: LoginEvent, now: i64) -> (r: LoginStep)
        requires
            lifetime_fits(event, now),
        ensures
            match event {
                LoginEvent::Start => *final(self) == *old(self) && match token_lookup(
                    old(self).store.tokens@,
                    server@.url,
                ) {
                    Some(t) => r matches LoginStep::Refresh(s) && s == t,
                    None => r is Authorize,
                },
                LoginEvent::RefreshFailed => r is Authorize && *final(self) == *old(self),
                LoginEvent::Declined => r is Next && *final(self) == *old(self),
                LoginEvent::Refreshed(resp) => match token_lookup(old(self).store.tokens@, server@.url) {
                    Some(t) => r is Next && refresh_recorded(*old(self), *final(self), server@, t, resp, now as int),
                    None => r is Authorize && *final(self) == *old(self),
                },
                LoginEvent::Authorized(resp) => match jwt_sub(resp.access_token@) {
                    Ok(sub) => r is Next && authorization_recorded(
                        *old(self),
                        *final(self),
                        server@,
                        resp,
                        now as int,
                        sub,
                    ),
                    Err(m) => (r matches LoginStep::Fail(e) && e@ == m) && *final(self) == *old(self),
                },
            },
    {
        match event {
            LoginEvent::Start => match self.store.tokens.get(server.url()) {
                Some(t) => LoginStep::Refresh(t.clone()),
                None => LoginStep::Authorize,
            },
            LoginEvent::RefreshFailed => LoginStep::Authorize,
            LoginEvent::Declined => LoginStep::Next,
            LoginEvent::Refreshed(resp) => {
                let stored = match self.store.tokens.get(server.url()) {
                    Some(t) => t.clone(),
                    None => return LoginStep::Authorize,
                };
                self.record_refresh(server, &stored, resp, now);
                LoginStep::Next
            },
            LoginEvent::Authorized(resp) => match self.record_authorization(server, resp, now) {
                Ok(()) => LoginStep::Next,
                Err(m) => LoginStep::Fail(m),
            },
        }
    }

    /// The session the login produced, and the store to persist. Identity
    /// beyond the account id is resolved once a server is connected.
    pub fn finish(self) -> (r: (AuthSession, TokenStore))
        ensures
            r.0.account_id == self.account_id,
            r.0.display_name@.len() == 0,
            r.0.entity_type@.len() == 0,
            r.0.credentials == self.credentials,
            r.1 == self.store,
    {
        (
            AuthSession {
                account_id: self.account_id,
                display_name: String::new(),
                entity_type: String::new(),
                credentials: self.credentials,
            },
            self.store,
        )
    }
}


// ---------------------------------------------------------------------------
// Answering the browser, and the requests to the auth server
// ---------------------------------------------------------------------------

/// The page shown once the login succeeded.
pub const SUCCESS_PAGE: &'static str = "<script>window.close();</script><h2>Authentication successful</h2><p>This tab should close automatically. If not, you may close it.</p>";

/// What the callback listener does after answering a request.
#[derive(Debug)]
pub enum CallbackStep {
    /// Keep listening for the real callback.
    KeepWaiting,
    /// The login produced this authorization code.
    Finished(String),
    /// The login was refused; the flow fails with this message.
    Failed(String),
}

/// The page sent back for a callback outcome, and what happens next: other
/// requests and stale callbacks are dismissed, a refusal ends the flow with
/// an error, a code ends it with success.
pub fn callback_reply(outcome: CallbackOutcome) -> (r: (String, CallbackStep))
    ensures
        match outcome {
            CallbackOutcome::NotCallback => r.0@ == "Not an OAuth callback. You may close this tab."@
                && r.1 is KeepWaiting,
            CallbackOutcome::Stale => r.0@ == "Stale session. Waiting for current login..."@ && r.1 is KeepWaiting,
            CallbackOutcome::Denied { error, description } => r.0@ == "Authorization failed: "@ + error@ + " "@
                + description@ && (r.1 matches CallbackStep::Failed(m) && m@ == "OAuth authorization denied: "@
                + error@ + " "@ + description@),
            CallbackOutcome::Code(code) => r.0@ == SUCCESS_PAGE@ && (r.1 matches CallbackStep::Finished(c) && c
                == code),
        },
{
    match outcome {
        CallbackOutcome::NotCallback => (owned("Not an OAuth callback. You may close this tab."), CallbackStep::KeepWaiting),
        CallbackOutcome::Stale => (owned("Stale session. Waiting for current login..."), CallbackStep::KeepWaiting),
        CallbackOutcome::Denied { error, description } => {
            let mut page = owned("Authorization failed: ");
            append(&mut page, error.as_str());
            append(&mut page, " ");
            append(&mut page, description.as_str());
            let mut message = owned("OAuth authorization denied: ");
            append(&mut message, error.as_str());
            append(&mut message, " ");
            append(&mut message, description.as_str());
            (page, CallbackStep::Failed(message))
        },
        CallbackOutcome::Code(code) => (owned(SUCCESS_PAGE), CallbackStep::Finished(code)),
    }
}

/// The body of the dynamic client registration request (RFC 7591): a public
/// client using the loopback redirect, the code and refresh grants.
pub const REGISTRATION_BODY: &'static str = "{\"client_name\":\"GPS Trust MCP TUI\",\"grant_types\":[\"authorization_code\",\"refresh_token\"],\"redirect_uris\":[\"http://127.0.0.1:19876/callback\"],\"response_types\":[\"code\"],\"token_endpoint_auth_method\":\"none\"}";

/// The form of the request that exchanges an authorization code for tokens.
pub fn code_exchange_form(code: &str, client_id: &str, verifier: &str) -> (r: Vec<(String, String)>)
    ensures
        r@.map_values(|p: (String, String)| (p.0@, p.1@)) == seq![
            ("grant_type"@, "authorization_code"@),
            ("code"@, code@),
            ("client_id"@, client_id@),
            ("redirect_uri"@, REDIRECT_URI@),
            ("code_verifier"@, verifier@),
        ],
{
    let mut r: Vec<(String, String)> = Vec::new();
    r.push((owned("grant_type"), owned("authorization_code")));
    r.push((owned("code"), owned(code)));
    r.push((owned("client_id"), owned(client_id)));
    r.push((owned("redirect_uri"), owned(REDIRECT_URI)));
    r.push((owned("code_verifier"), owned(verifier)));
    assert(r@.map_values(|p: (String, String)| (p.0@, p.1@)) =~= seq![
        ("grant_type"@, "authorization_code"@),
        ("code"@, code@),
        ("client_id"@, client_id@),
        ("redirect_uri"@, REDIRECT_URI@),
        ("code_verifier"@, verifier@),
    ]);
    r
}

/// The form of the request that refreshes an access token.
pub fn refresh_form(refresh_token: &str, client_id: &str) -> (r: Vec<(String, String)>)
    ensures
        r@.map_values(|p: (String, String)| (p.0@, p.1@)) == seq![
            ("grant_type"@, "refresh_token"@),
            ("refresh_token"@, refresh_token@),
            ("client_id"@, client_id@),
        ],
{
    let mut r: Vec<(String, String)> = Vec::new();
    r.push((owned("grant_type"), owned("refresh_token")));
    r.push((owned("refresh_token"), owned(refresh_token)));
    r.push((owned("client_id"), owned(client_id)));
    assert(r@.map_values(|p: (String, String)| (p.0@, p.1@)) =~= seq![
        ("grant_type"@, "refresh_token"@),
        ("refresh_token"@, refresh_token@),
        ("client_id"@, client_id@),
    ]);
    r
}

/// The cached client id to check with the auth server before reusing it,
/// together with the audience to probe with (the first registered
/// server's URL); none when there is no cached id or no server.
pub fn client_id_probe(cached: &Option<String>, registry: &ServerRegistry) -> (r: Option<(String, String)>)
    ensures
        match cached {
            Some(id) => if registry@.len() > 0 {
                r matches Some((i, u)) && i@ == id@ && u@ == registry@[0].url
            } else {
                r is None
            },
            None => r is None,
        },
{
    match cached {
        Some(id) => {
            match registry.first() {
                Some(first) => Some((id.clone(), owned(first.url()))),
                None => None,
            }
        },
        None => None,
    }
}


/// A login completes only through the current login's callback: an
/// authorization code is taken from a request exactly when it carries the
/// expected `state` and a `code`; any other request never yields one.
pub proof fn lemma_code_only_with_expected_state(r: CallbackOutcome, request: Seq<char>, expected_state: Seq<char>)
    requires
        callback_outcome_matches(r, request, expected_state),
    ensures
        r is Code <==> (callback_param(request, "state"@) == Some(expected_state) && callback_param(
            request,
            "code"@,
        ) is Some),
        r matches CallbackOutcome::Code(c) ==> callback_param(request, "code"@) == Some(c@),
{
}

} // verus!
