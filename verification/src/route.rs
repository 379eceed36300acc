//! Per-route policy of the gateway router.
//!
//! The router looks only at the method and the path: auth routes are
//! exact-match POSTs, the challenge-token route is an exact-match GET,
//! the static site is a path prefix, and everything else is proxied to
//! the official or the unofficial upstream by a path-prefix table —
//! public paths without prior authorization, the rest behind it. The
//! router also decides which inbound headers may travel upstream (an
//! allow-list holding the authorization header, so hop-by-hop and
//! user-agent headers never leak through) and when a request body is owed
//! the enrichment token: only a POST on a conversation-creation path
//! whose body carries a recognisable model selector, and even then only
//! best-effort.

use vstd::prelude::*;

use crate::bytestr::{bytes_eq, contains, contains_seq, is_prefix_of, starts_with};

verus! {

/// An HTTP method, as far as the gateway distinguishes them.
#[derive(Clone, Copy, Debug, PartialEq, Eq, Structural)]
pub enum Method {
    Get,
    Post,
    Patch,
    Put,
    Delete,
}

/// The two upstream surfaces.
#[derive(Clone, Copy, Debug, PartialEq, Eq, Structural)]
pub enum Upstream {
    Official,
    Unofficial,
}

/// What the router decides for one inbound request.
#[derive(Clone, Copy, Debug, PartialEq, Eq, Structural)]
pub enum Route {
    AccessToken,
    RefreshToken,
    RevokeToken,
    ChallengeToken,
    StaticAsset,
    Proxy { upstream: Upstream, requires_auth: bool },
    NotFound,
}

/// `/auth/token`
pub open spec fn auth_token_path() -> Seq<u8> {
    seq![
        '/' as u8, 'a' as u8, 'u' as u8, 't' as u8, 'h' as u8, '/' as u8, 't' as u8, 'o' as u8,
        'k' as u8, 'e' as u8, 'n' as u8,
    ]
}

/// `/auth/refresh_token`
pub open spec fn auth_refresh_path() -> Seq<u8> {
    auth_token_path().take(6) + seq![
        'r' as u8, 'e' as u8, 'f' as u8, 'r' as u8, 'e' as u8, 's' as u8, 'h' as u8, '_' as u8,
        't' as u8, 'o' as u8, 'k' as u8, 'e' as u8, 'n' as u8,
    ]
}

/// `/auth/revoke_token`
pub open spec fn auth_revoke_path() -> Seq<u8> {
    auth_token_path().take(6) + seq![
        'r' as u8, 'e' as u8, 'v' as u8, 'o' as u8, 'k' as u8, 'e' as u8, '_' as u8, 't' as u8,
        'o' as u8, 'k' as u8, 'e' as u8, 'n' as u8,
    ]
}

/// `/arkose/token`
pub open spec fn challenge_path() -> Seq<u8> {
    seq![
        '/' as u8, 'a' as u8, 'r' as u8, 'k' as u8, 'o' as u8, 's' as u8, 'e' as u8, '/' as u8,
        't' as u8, 'o' as u8, 'k' as u8, 'e' as u8, 'n' as u8,
    ]
}

/// `/site/`
pub open spec fn site_prefix() -> Seq<u8> {
    seq!['/' as u8, 's' as u8, 'i' as u8, 't' as u8, 'e' as u8, '/' as u8]
}

/// `/public-api/`
pub open spec fn public_api_prefix() -> Seq<u8> {
    seq![
        '/' as u8, 'p' as u8, 'u' as u8, 'b' as u8, 'l' as u8, 'i' as u8, 'c' as u8, '-' as u8,
        'a' as u8, 'p' as u8, 'i' as u8, '/' as u8,
    ]
}

/// `/dashboard/`
pub open spec fn dashboard_prefix() -> Seq<u8> {
    seq![
        '/' as u8, 'd' as u8, 'a' as u8, 's' as u8, 'h' as u8, 'b' as u8, 'o' as u8, 'a' as u8,
        'r' as u8, 'd' as u8, '/' as u8,
    ]
}

/// `/backend-api/`
pub open spec fn backend_api_prefix() -> Seq<u8> {
    seq![
        '/' as u8, 'b' as u8, 'a' as u8, 'c' as u8, 'k' as u8, 'e' as u8, 'n' as u8, 'd' as u8,
        '-' as u8, 'a' as u8, 'p' as u8, 'i' as u8, '/' as u8,
    ]
}

/// `/api/`
pub open spec fn api_prefix() -> Seq<u8> {
    seq!['/' as u8, 'a' as u8, 'p' as u8, 'i' as u8, '/' as u8]
}

/// `/v1/`
pub open spec fn v1_prefix() -> Seq<u8> {
    seq!['/' as u8, 'v' as u8, '1' as u8, '/' as u8]
}

/// `/backend-api/conversation` — the conversation-creation pattern whose
/// POST bodies are offered the enrichment token.
pub open spec fn enrichment_needle() -> Seq<u8> {
    backend_api_prefix().take(12) + seq![
        '/' as u8, 'c' as u8, 'o' as u8, 'n' as u8, 'v' as u8, 'e' as u8, 'r' as u8, 's' as u8,
        'a' as u8, 't' as u8, 'i' as u8, 'o' as u8, 'n' as u8,
    ]
}

/// `authorization` — the one inbound header forwarded upstream.
pub open spec fn authorization_header() -> Seq<u8> {
    seq![
        'a' as u8, 'u' as u8, 't' as u8, 'h' as u8, 'o' as u8, 'r' as u8, 'i' as u8, 'z' as u8,
        'a' as u8, 't' as u8, 'i' as u8, 'o' as u8, 'n' as u8,
    ]
}

/// `Bearer ` — the scheme tag in front of a bearer token.
pub open spec fn bearer_tag() -> Seq<u8> {
    seq!['B' as u8, 'e' as u8, 'a' as u8, 'r' as u8, 'e' as u8, 'r' as u8, ' ' as u8]
}

/// The route owed to a method and path.
pub open spec fn spec_route(m: Method, path: Seq<u8>) -> Route {
    if m is Post && path == auth_token_path() {
        Route::AccessToken
    } else if m is Post && path == auth_refresh_path() {
        Route::RefreshToken
    } else if m is Post && path == auth_revoke_path() {
        Route::RevokeToken
    } else if m is Get && path == challenge_path() {
        Route::ChallengeToken
    } else if is_prefix_of(site_prefix(), path) {
        Route::StaticAsset
    } else if is_prefix_of(public_api_prefix(), path) {
        Route::Proxy { upstream: Upstream::Unofficial, requires_auth: false }
    } else if is_prefix_of(dashboard_prefix(), path) {
        Route::Proxy { upstream: Upstream::Official, requires_auth: true }
    } else if is_prefix_of(backend_api_prefix(), path) {
        Route::Proxy { upstream: Upstream::Unofficial, requires_auth: true }
    } else if is_prefix_of(api_prefix(), path) {
        Route::Proxy { upstream: Upstream::Unofficial, requires_auth: true }
    } else if is_prefix_of(v1_prefix(), path) {
        Route::Proxy { upstream: Upstream::Official, requires_auth: true }
    } else {
        Route::NotFound
    }
}

fn auth_token_vec() -> (v: Vec<u8>)
    ensures
        v@ == auth_token_path(),
{
    let mut v: Vec<u8> = Vec::new();
    v.push('/' as u8);
    v.push('a' as u8);
    v.push('u' as u8);
    v.push('t' as u8);
    v.push('h' as u8);
    v.push('/' as u8);
    v.push('t' as u8);
    v.push('o' as u8);
    v.push('k' as u8);
    v.push('e' as u8);
    v.push('n' as u8);
    proof {
        assert(v@ =~= auth_token_path());
    }
    v
}

fn auth_refresh_vec() -> (v: Vec<u8>)
    ensures
        v@ == auth_refresh_path(),
{
    let mut v: Vec<u8> = Vec::new();
    v.push('/' as u8);
    v.push('a' as u8);
    v.push('u' as u8);
    v.push('t' as u8);
    v.push('h' as u8);
    v.push('/' as u8);
    v.push('r' as u8);
    v.push('e' as u8);
    v.push('f' as u8);
    v.push('r' as u8);
    v.push('e' as u8);
    v.push('s' as u8);
    v.push('h' as u8);
    v.push('_' as u8);
    v.push('t' as u8);
    v.push('o' as u8);
    v.push('k' as u8);
    v.push('e' as u8);
    v.push('n' as u8);
    proof {
        assert(v@ =~= auth_refresh_path());
    }
    v
}

fn auth_revoke_vec() -> (v: Vec<u8>)
    ensures
        v@ == auth_revoke_path(),
{
    let mut v: Vec<u8> = Vec::new();
    v.push('/' as u8);
    v.push('a' as u8);
    v.push('u' as u8);
    v.push('t' as u8);
    v.push('h' as u8);
    v.push('/' as u8);
    v.push('r' as u8);
    v.push('e' as u8);
    v.push('v' as u8);
    v.push('o' as u8);
    v.push('k' as u8);
    v.push('e' as u8);
    v.push('_' as u8);
    v.push('t' as u8);
    v.push('o' as u8);
    v.push('k' as u8);
    v.push('e' as u8);
    v.push('n' as u8);
    proof {
        assert(v@ =~= auth_revoke_path());
    }
    v
}

fn challenge_vec() -> (v: Vec<u8>)
    ensures
        v@ == challenge_path(),
{
    let mut v: Vec<u8> = Vec::new();
    v.push('/' as u8);
    v.push('a' as u8);
    v.push('r' as u8);
    v.push('k' as u8);
    v.push('o' as u8);
    v.push('s' as u8);
    v.push('e' as u8);
    v.push('/' as u8);
    v.push('t' as u8);
    v.push('o' as u8);
    v.push('k' as u8);
    v.push('e' as u8);
    v.push('n' as u8);
    proof {
        assert(v@ =~= challenge_path());
    }
    v
}

fn site_vec() -> (v: Vec<u8>)
    ensures
        v@ == site_prefix(),
{
    let mut v: Vec<u8> = Vec::new();
    v.push('/' as u8);
    v.push('s' as u8);
    v.push('i' as u8);
    v.push('t' as u8);
    v.push('e' as u8);
    v.push('/' as u8);
    proof {
        assert(v@ =~= site_prefix());
    }
    v
}

fn public_api_vec() -> (v: Vec<u8>)
    ensures
        v@ == public_api_prefix(),
{
    let mut v: Vec<u8> = Vec::new();
    v.push('/' as u8);
    v.push('p' as u8);
    v.push('u' as u8);
    v.push('b' as u8);
    v.push('l' as u8);
    v.push('i' as u8);
    v.push('c' as u8);
    v.push('-' as u8);
    v.push('a' as u8);
    v.push('p' as u8);
    v.push('i' as u8);
    v.push('/' as u8);
    proof {
        assert(v@ =~= public_api_prefix());
    }
    v
}

fn dashboard_vec() -> (v: Vec<u8>)
    ensures
        v@ == dashboard_prefix(),
{
    let mut v: Vec<u8> = Vec::new();
    v.push('/' as u8);
    v.push('d' as u8);
    v.push('a' as u8);
    v.push('s' as u8);
    v.push('h' as u8);
    v.push('b' as u8);
    v.push('o' as u8);
    v.push('a' as u8);
    v.push('r' as u8);
    v.push('d' as u8);
    v.push('/' as u8);
    proof {
        assert(v@ =~= dashboard_prefix());
    }
    v
}

fn backend_api_vec() -> (v: Vec<u8>)
    ensures
        v@ == backend_api_prefix(),
{
    let mut v: Vec<u8> = Vec::new();
    v.push('/' as u8);
    v.push('b' as u8);
    v.push('a' as u8);
    v.push('c' as u8);
    v.push('k' as u8);
    v.push('e' as u8);
    v.push('n' as u8);
    v.push('d' as u8);
    v.push('-' as u8);
    v.push('a' as u8);
    v.push('p' as u8);
    v.push('i' as u8);
    v.push('/' as u8);
    proof {
        assert(v@ =~= backend_api_prefix());
    }
    v
}

fn api_vec() -> (v: Vec<u8>)
    ensures
        v@ == api_prefix(),
{
    let mut v: Vec<u8> = Vec::new();
    v.push('/' as u8);
    v.push('a' as u8);
    v.push('p' as u8);
    v.push('i' as u8);
    v.push('/' as u8);
    proof {
        assert(v@ =~= api_prefix());
    }
    v
}

fn v1_vec() -> (v: Vec<u8>)
    ensures
        v@ == v1_prefix(),
{
    let mut v: Vec<u8> = Vec::new();
    v.push('/' as u8);
    v.push('v' as u8);
    v.push('1' as u8);
    v.push('/' as u8);
    proof {
        assert(v@ =~= v1_prefix());
    }
    v
}

fn enrichment_needle_vec() -> (v: Vec<u8>)
    ensures
        v@ == enrichment_needle(),
{
    let mut v: Vec<u8> = Vec::new();
    v.push('/' as u8);
    v.push('b' as u8);
    v.push('a' as u8);
    v.push('c' as u8);
    v.push('k' as u8);
    v.push('e' as u8);
    v.push('n' as u8);
    v.push('d' as u8);
    v.push('-' as u8);
    v.push('a' as u8);
    v.push('p' as u8);
    v.push('i' as u8);
    v.push('/' as u8);
    v.push('c' as u8);
    v.push('o' as u8);
    v.push('n' as u8);
    v.push('v' as u8);
    v.push('e' as u8);
    v.push('r' as u8);
    v.push('s' as u8);
    v.push('a' as u8);
    v.push('t' as u8);
    v.push('i' as u8);
    v.push('o' as u8);
    v.push('n' as u8);
    proof {
        assert(v@ =~= enrichment_needle());
    }
    v
}

fn authorization_vec() -> (v: Vec<u8>)
    ensures
        v@ == authorization_header(),
{
    let mut v: Vec<u8> = Vec::new();
    v.push('a' as u8);
    v.push('u' as u8);
    v.push('t' as u8);
    v.push('h' as u8);
    v.push('o' as u8);
    v.push('r' as u8);
    v.push('i' as u8);
    v.push('z' as u8);
    v.push('a' as u8);
    v.push('t' as u8);
    v.push('i' as u8);
    v.push('o' as u8);
    v.push('n' as u8);
    proof {
        assert(v@ =~= authorization_header());
    }
    v
}

fn bearer_tag_vec() -> (v: Vec<u8>)
    ensures
        v@ == bearer_tag(),
{
    let mut v: Vec<u8> = Vec::new();
    v.push('B' as u8);
    v.push('e' as u8);
    v.push('a' as u8);
    v.push('r' as u8);
    v.push('e' as u8);
    v.push('r' as u8);
    v.push(' ' as u8);
    proof {
        assert(v@ =~= bearer_tag());
    }
    v
}

/// Decide the route for one inbound request.
pub fn route_of(m: Method, path: &[u8]) -> (r: Route)
    ensures
        r == spec_route(m, path@),
{
    if m == Method::Post && bytes_eq(path, auth_token_vec().as_slice()) {
        Route::AccessToken
    } else if m == Method::Post && bytes_eq(path, auth_refresh_vec().as_slice()) {
        Route::RefreshToken
    } else if m == Method::Post && bytes_eq(path, auth_revoke_vec().as_slice()) {
        Route::RevokeToken
    } else if m == Method::Get && bytes_eq(path, challenge_vec().as_slice()) {
        Route::ChallengeToken
    } else if starts_with(path, site_vec().as_slice()) {
        Route::StaticAsset
    } else if starts_with(path, public_api_vec().as_slice()) {
        Route::Proxy { upstream: Upstream::Unofficial, requires_auth: false }
    } else if starts_with(path, dashboard_vec().as_slice()) {
        Route::Proxy { upstream: Upstream::Official, requires_auth: true }
    } else if starts_with(path, backend_api_vec().as_slice()) {
        Route::Proxy { upstream: Upstream::Unofficial, requires_auth: true }
    } else if starts_with(path, api_vec().as_slice()) {
        Route::Proxy { upstream: Upstream::Unofficial, requires_auth: true }
    } else if starts_with(path, v1_vec().as_slice()) {
        Route::Proxy { upstream: Upstream::Official, requires_auth: true }
    } else {
        Route::NotFound
    }
}

/// The header allow-list: only the authorization header travels upstream,
/// so connection-management and user-agent headers are replaced by the
/// gateway's own.
pub fn forward_header(name: &[u8]) -> (r: bool)
    ensures
        r == (name@ == authorization_header()),
{
    bytes_eq(name, authorization_vec().as_slice())
}

/// Whether a request body is owed the enrichment token: only a POST on a
/// conversation-creation path whose body carries a model selector.
pub fn should_enrich(m: Method, path: &[u8], has_model_selector: bool) -> (r: bool)
    ensures
        r == (m is Post && contains_seq(enrichment_needle(), path@) && has_model_selector),
{
    m == Method::Post && contains(path, enrichment_needle_vec().as_slice()) && has_model_selector
}

/// The token carried by an `Authorization: Bearer <token>` header value,
/// or nothing when the value does not carry the bearer scheme.
pub fn bearer_of(header_value: &[u8]) -> (r: Option<Vec<u8>>)
    ensures
        is_prefix_of(bearer_tag(), header_value@) ==> (r matches Some(t) && t@ == header_value@.skip(
            7,
        )),
        !is_prefix_of(bearer_tag(), header_value@) ==> r is None,
{
    let tag = bearer_tag_vec();
    if starts_with(header_value, tag.as_slice()) {
        let rest = vstd::slice::slice_to_vec(
            vstd::slice::slice_subrange(header_value, 7, header_value.len()),
        );
        proof {
            assert(header_value@.subrange(7, header_value@.len() as int) =~= header_value@.skip(7));
        }
        Some(rest)
    } else {
        None
    }
}

} // verus!
