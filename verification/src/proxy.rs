//! Reverse-proxy request decisions: ACME challenge answers, the HTTP to
//! HTTPS redirect, routing to an app, and the path forwarded upstream.
use vstd::prelude::*;

use crate::app::opt_view;
use crate::namemap::NameMap;
use crate::supervisor::{ManagedApp, Supervisor, RouteView, route_winner, no_route, opt_str_view};
use crate::text::{
    chars_of, contains_seq, decimal, eq_ignore_ascii_case, is_prefix, lower, occurs_in,
    push_chars, push_decimal, push_str, starts_with, to_ascii_lowercase, before_first,
    before_first_char, str_eq,
};

verus! {

/// Pending ACME HTTP-01 challenge responses, keyed by token.
pub struct ChallengeStore {
    responses: NameMap<String>,
}

impl ChallengeStore {
    pub open spec fn wf(&self) -> bool {
        self.store().wf()
    }

    pub closed spec fn store(&self) -> NameMap<String> {
        self.responses
    }

    /// The pending challenges: token to key authorization.
    pub open spec fn map(&self) -> Map<Seq<char>, Seq<char>> {
        self.store().map().map_values(|v: String| v@)
    }

    pub fn new() -> (r: ChallengeStore)
        ensures
            r.wf(),
            r.map() == Map::<Seq<char>, Seq<char>>::empty(),
    {
        let r = ChallengeStore { responses: NameMap::new() };
        assert(r.map() =~= Map::<Seq<char>, Seq<char>>::empty());
        r
    }

    /// The key authorization for `token`, if a challenge is pending.
    pub fn get(&self, token: &str) -> (r: Option<String>)
        requires
            self.wf(),
        ensures
            match r {
                Some(v) => self.map().dom().contains(token@) && v@ == self.map()[token@],
                None => !self.map().dom().contains(token@),
            },
    {
        match self.responses.get(token) {
            Some(v) => Some(v.clone()),
            None => None,
        }
    }

    /// Places (or replaces) the response for `token`.
    pub fn insert(&mut self, token: String, key_authorization: String)
        requires
            old(self).wf(),
        ensures
            final(self).wf(),
            final(self).map() == old(self).map().insert(token@, key_authorization@),
    {
        let ghost k = token@;
        let ghost v = key_authorization@;
        self.responses.insert(token, key_authorization);
        assert(self.map() =~= old(self).map().insert(k, v));
    }

    /// Withdraws the response for `token`, if any.
    pub fn remove(&mut self, token: &str)
        requires
            old(self).wf(),
        ensures
            final(self).wf(),
            final(self).map() == old(self).map().remove(token@),
    {
        self.responses.remove(token);
        assert(self.map() =~= old(self).map().remove(token@));
    }
}

} // verus!

verus! {

/// The path under which ACME HTTP-01 challenge tokens are requested.
pub open spec fn acme_challenge_prefix() -> Seq<char> {
    "/.well-known/acme-challenge/"@
}

/// Whether a request asks for a WebSocket upgrade: an `Upgrade: websocket`
/// header (any case) and a `Connection` header mentioning `upgrade`.
pub open spec fn wants_upgrade(upgrade: Option<Seq<char>>, connection: Option<Seq<char>>) -> bool {
    &&& upgrade matches Some(u) && lower(u) == lower("websocket"@)
    &&& connection matches Some(c) && occurs_in("upgrade"@, lower(c))
}

/// The path forwarded upstream: with a matched prefix removed (when the
/// path starts with it), and always beginning with `/`.
pub open spec fn forward_path(path: Seq<char>, strip: Option<Seq<char>>) -> Seq<char> {
    match strip {
        Some(p) => {
            let rest = if is_prefix(p, path) {
                path.subrange(p.len() as int, path.len() as int)
            } else {
                path
            };
            if rest.len() == 0 {
                "/"@
            } else if rest[0] == '/' {
                rest
            } else {
                "/"@ + rest
            }
        },
        None => path,
    }
}

/// The request target forwarded upstream: the forwarded path and the
/// request's query.
pub open spec fn forward_uri(path: Seq<char>, strip: Option<Seq<char>>, query: Option<Seq<char>>) -> Seq<char> {
    match query {
        Some(q) => forward_path(path, strip) + "?"@ + q,
        None => forward_path(path, strip),
    }
}

/// Where a plain-HTTP request is redirected: the same host (without any
/// port) on the HTTPS port, omitted when it is 443, and the same path and
/// query.
pub open spec fn redirect_location(host: Seq<char>, https_port: u16, path_and_query: Seq<char>) -> Seq<char> {
    let h = before_first(host, ':');
    let hp = if https_port == 443 {
        h
    } else {
        h + ":"@ + decimal(https_port as nat)
    };
    "https://"@ + hp + path_and_query
}

/// An incoming request, as far as routing reads it.
#[derive(Debug, Clone)]
pub struct ProxyRequest {
    /// The request arrived on the TLS listener.
    pub is_https: bool,
    pub path: String,
    pub query: Option<String>,
    /// The path and query of the request target, if it has one.
    pub path_and_query: Option<String>,
    /// The `Host` header, when present and readable.
    pub host: Option<String>,
    pub upgrade: Option<String>,
    pub connection: Option<String>,
}

/// Settings of the listener a request arrived on.
#[derive(Debug, Clone, Copy)]
pub struct ListenerSettings {
    pub https_redirect: bool,
    /// Port of the running HTTPS listener, if any.
    pub https_port: Option<u16>,
}

/// What to do with a request.
#[derive(Debug, Clone, PartialEq, Eq)]
pub enum ProxyDecision {
    /// Answer an ACME HTTP-01 challenge with this key authorization.
    Challenge(String),
    /// Redirect permanently to this location.
    Redirect(String),
    /// No app is configured for the host or path.
    NoRoute,
    /// Forward to an app on the local host.
    Forward { app_name: String, target_port: u16, uri: String, upgrade: bool },
}

/// The request is routed to `app` on `port`, with request target `uri`: some
/// entry wins the route, and the target is the forwarded path and query.
pub open spec fn routed(s: Seq<ManagedApp>, req: ProxyRequest, app: Seq<char>, port: u16, uri: Seq<char>) -> bool {
    exists|i: int, m: RouteView|
        #[trigger] route_winner(s, opt_view(req.host), req.path@, i, m) && m.app_name == app
            && m.target_port == port && uri == forward_uri(req.path@, m.strip_prefix, opt_view(req.query))
}

/// The ACME challenge token a path asks for, if any.
pub open spec fn challenge_token(path: Seq<char>) -> Option<Seq<char>> {
    if is_prefix(acme_challenge_prefix(), path) {
        Some(path.subrange(acme_challenge_prefix().len() as int, path.len() as int))
    } else {
        None
    }
}

/// The request gets a challenge answer: plain HTTP, a challenge path, and a
/// pending challenge for its token.
pub open spec fn answers_challenge(req: ProxyRequest, store: Map<Seq<char>, Seq<char>>) -> bool {
    &&& !req.is_https
    &&& challenge_token(req.path@) matches Some(t) && store.dom().contains(t)
}

/// The request gets redirected to HTTPS.
pub open spec fn redirects(req: ProxyRequest, settings: ListenerSettings, store: Map<Seq<char>, Seq<char>>) -> bool {
    &&& !answers_challenge(req, store)
    &&& !req.is_https
    &&& settings.https_redirect
    &&& settings.https_port is Some
    &&& req.host is Some
}

pub open spec fn pq_or_root(pq: Option<String>) -> Seq<char> {
    match pq {
        Some(s) => s@,
        None => "/"@,
    }
}

fn challenge_token_of(path: &str) -> (r: Option<String>)
    ensures
        match r {
            Some(t) => challenge_token(path@) == Some(t@),
            None => challenge_token(path@) is None,
        },
{
    let prefix = "/.well-known/acme-challenge/";
    if starts_with(path, prefix) {
        let v = chars_of(path);
        let n = prefix.unicode_len();
        let mut t = String::new();
        push_chars(&mut t, v.as_slice(), n, v.len());
        assert(t@ =~= path@.subrange(n as int, path@.len() as int));
        Some(t)
    } else {
        None
    }
}

/// Whether the request asks for a WebSocket upgrade.
pub fn is_upgrade_request(upgrade: Option<&str>, connection: Option<&str>) -> (r: bool)
    ensures
        r == wants_upgrade(opt_str_view(upgrade), opt_str_view(connection)),
{
    let has_upgrade = match upgrade {
        Some(u) => eq_ignore_ascii_case(u, "websocket"),
        None => false,
    };
    let says_upgrade = match connection {
        Some(c) => {
            let l = to_ascii_lowercase(c);
            let lv = chars_of(l.as_str());
            let needle = chars_of("upgrade");
            contains_seq(&lv, &needle)
        },
        None => false,
    };
    has_upgrade && says_upgrade
}

/// The forwarded request target.
pub fn forward_target(path: &str, strip: Option<&str>, query: Option<&str>) -> (r: String)
    ensures
        r@ == forward_uri(path@, opt_str_view(strip), opt_str_view(query)),
{
    let mut out = match strip {
        Some(p) => {
            let v = chars_of(path);
            let from = if starts_with(path, p) {
                p.unicode_len()
            } else {
                0
            };
            let ghost rest = v@.subrange(from as int, v@.len() as int);
            assert(from == 0 ==> rest =~= path@);
            let r = if from == v.len() {
                "/".to_string()
            } else if v[from] == '/' {
                let mut s = String::new();
                push_chars(&mut s, v.as_slice(), from, v.len());
                assert(s@ =~= rest);
                s
            } else {
                let mut s = "/".to_string();
                push_chars(&mut s, v.as_slice(), from, v.len());
                s
            };
            assert(r@ =~= forward_path(path@, opt_str_view(strip)));
            r
        },
        None => path.to_string(),
    };
    assert(out@ =~= forward_path(path@, opt_str_view(strip)));
    match query {
        Some(q) => {
            proof {
                reveal_strlit("?");
            }
            out.push('?');
            push_str(&mut out, q);
            assert(out@ =~= forward_path(path@, opt_str_view(strip)) + "?"@ + q@);
        },
        None => {},
    }
    out
}

/// The redirect target for a plain-HTTP request.
pub fn redirect_target(host: &str, https_port: u16, path_and_query: &str) -> (r: String)
    ensures
        r@ == redirect_location(host@, https_port, path_and_query@),
{
    proof {
        reveal_strlit(":");
    }
    let h = before_first_char(host, ':');
    let mut out = "https://".to_string();
    push_str(&mut out, h.as_str());
    if https_port != 443 {
        out.push(':');
        push_decimal(&mut out, https_port as u128);
    }
    push_str(&mut out, path_and_query);
    assert(out@ =~= redirect_location(host@, https_port, path_and_query@));
    out
}

/// Decides how to handle one request: a pending ACME challenge on plain
/// HTTP is answered first; otherwise plain HTTP is redirected to HTTPS when
/// redirects are on, an HTTPS listener runs and the request names a host;
/// otherwise the request is routed to an app, or answered "not found".
pub fn plan_request(
    req: &ProxyRequest,
    settings: &ListenerSettings,
    challenges: &ChallengeStore,
    sup: &Supervisor,
) -> (r: ProxyDecision)
    requires
        challenges.wf(),
        sup.wf(),
    ensures
        answers_challenge(*req, challenges.map()) ==> (r matches ProxyDecision::Challenge(k)
            && k@ == challenges.map()[challenge_token(req.path@)->0]),
        redirects(*req, *settings, challenges.map()) ==> (r matches ProxyDecision::Redirect(loc)
            && loc@ == redirect_location(
                req.host->0@,
                settings.https_port->0,
                pq_or_root(req.path_and_query),
            )),
        !answers_challenge(*req, challenges.map()) && !redirects(*req, *settings, challenges.map())
            ==> match r {
            ProxyDecision::NoRoute => no_route(sup@, opt_view(req.host), req.path@),
            ProxyDecision::Forward { app_name, target_port, uri, upgrade } => {
                &&& routed(sup@, *req, app_name@, target_port, uri@)
                &&& upgrade == wants_upgrade(opt_view(req.upgrade), opt_view(req.connection))
            },
            _ => false,
        },
{
    if !req.is_https {
        if let Some(token) = challenge_token_of(req.path.as_str()) {
            if let Some(key_auth) = challenges.get(token.as_str()) {
                return ProxyDecision::Challenge(key_auth);
            }
        }
        if settings.https_redirect {
            if let Some(port) = settings.https_port {
                if let Some(host) = &req.host {
                    let pq: &str = match &req.path_and_query {
                        Some(pq) => pq.as_str(),
                        None => "/",
                    };
                    return ProxyDecision::Redirect(redirect_target(host.as_str(), port, pq));
                }
            }
        }
    }
    let host: Option<&str> = match &req.host {
        Some(h) => Some(h.as_str()),
        None => None,
    };
    match sup.resolve_route(host, req.path.as_str()) {
        None => ProxyDecision::NoRoute,
        Some(m) => {
            let strip: Option<&str> = match &m.strip_prefix {
                Some(p) => Some(p.as_str()),
                None => None,
            };
            let query: Option<&str> = match &req.query {
                Some(q) => Some(q.as_str()),
                None => None,
            };
            let uri = forward_target(req.path.as_str(), strip, query);
            let up: Option<&str> = match &req.upgrade {
                Some(u) => Some(u.as_str()),
                None => None,
            };
            let conn: Option<&str> = match &req.connection {
                Some(c) => Some(c.as_str()),
                None => None,
            };
            let upgrade = is_upgrade_request(up, conn);
            ProxyDecision::Forward { app_name: m.app_name, target_port: m.target_port, uri, upgrade }
        },
    }
}

} // verus!

verus! {

/// One access-log line: time, client address, quoted method and path,
/// status and latency in milliseconds.
pub open spec fn access_line(
    time: Seq<char>,
    client: Seq<char>,
    method: Seq<char>,
    path: Seq<char>,
    status: u16,
    elapsed_ms: u128,
) -> Seq<char> {
    time + " "@ + client + " \""@ + method + " "@ + path + "\" "@ + decimal(status as nat) + " "@
        + decimal(elapsed_ms as nat) + "ms\n"@
}

/// Formats one access-log line.
pub fn access_log_line(
    time: &str,
    client: &str,
    method: &str,
    path: &str,
    status: u16,
    elapsed_ms: u128,
) -> (r: String)
    ensures
        r@ == access_line(time@, client@, method@, path@, status, elapsed_ms),
{
    let mut out = time.to_string();
    push_str(&mut out, " ");
    push_str(&mut out, client);
    push_str(&mut out, " \"");
    push_str(&mut out, method);
    push_str(&mut out, " ");
    push_str(&mut out, path);
    push_str(&mut out, "\" ");
    push_decimal(&mut out, status as u128);
    push_str(&mut out, " ");
    push_decimal(&mut out, elapsed_ms);
    push_str(&mut out, "ms\n");
    out
}

/// Requests on the TLS listener are never answered with a challenge nor
/// redirected.
pub proof fn law_https_is_never_redirected(
    req: ProxyRequest,
    settings: ListenerSettings,
    store: Map<Seq<char>, Seq<char>>,
)
    requires
        req.is_https,
    ensures
        !answers_challenge(req, store),
        !redirects(req, settings, store),
{
}

/// A pending ACME challenge is answered even when plain HTTP is redirected.
pub proof fn law_challenge_before_redirect(
    req: ProxyRequest,
    settings: ListenerSettings,
    store: Map<Seq<char>, Seq<char>>,
)
    requires
        answers_challenge(req, store),
    ensures
        !redirects(req, settings, store),
{
}

/// A path forwarded after stripping a prefix is never empty and starts
/// with `/`.
pub proof fn law_forward_path_is_rooted(path: Seq<char>, prefix: Seq<char>)
    ensures
        forward_path(path, Some(prefix)).len() > 0,
        forward_path(path, Some(prefix))[0] == '/',
{
    reveal_strlit("/");
}

/// Stripping a matched prefix loses nothing: when the rest of the path
/// starts with `/`, the prefix followed by the forwarded path is the
/// requested path.
pub proof fn law_strip_prefix_roundtrip(path: Seq<char>, prefix: Seq<char>)
    requires
        is_prefix(prefix, path),
        path.len() > prefix.len(),
        path[prefix.len() as int] == '/',
    ensures
        prefix + forward_path(path, Some(prefix)) == path,
{
    assert(prefix + path.subrange(prefix.len() as int, path.len() as int) =~= path);
}

/// The redirect keeps the host and target, and names the HTTPS port only
/// when it is not the standard one.
pub proof fn law_redirect_port(host: Seq<char>, port: u16, pq: Seq<char>)
    ensures
        port == 443 ==> redirect_location(host, port, pq) == "https://"@ + before_first(host, ':')
            + pq,
        port != 443 ==> redirect_location(host, port, pq) == "https://"@ + before_first(host, ':')
            + ":"@ + decimal(port as nat) + pq,
{
}

/// The forwarded request target: without a prefix to strip, the request's
/// own path; with one, the rest of the path after it (starting with `/`,
/// or `/` alone when nothing is left), and a path that does not start with
/// the prefix kept whole (rooted); the query, when there is one, follows
/// after `?`.
pub proof fn law_forward_target(path: Seq<char>, prefix: Seq<char>, rest: Seq<char>, query: Seq<char>)
    ensures
        forward_uri(path, None, None) == path,
        forward_uri(path, None, Some(query)) == path + "?"@ + query,
        forward_uri(prefix, Some(prefix), None) == "/"@,
        rest.len() > 0 && rest[0] == '/' ==> forward_uri(prefix + rest, Some(prefix), None) == rest,
        rest.len() > 0 && rest[0] != '/' ==> forward_uri(prefix + rest, Some(prefix), None) == "/"@ + rest,
        !is_prefix(prefix, path) && path.len() > 0 && path[0] == '/' ==> forward_uri(path, Some(prefix), None)
            == path,
{
    assert((prefix + rest).subrange(0, prefix.len() as int) =~= prefix);
    assert((prefix + rest).subrange(prefix.len() as int, (prefix + rest).len() as int) =~= rest);
    assert(prefix.subrange(0, prefix.len() as int) =~= prefix);
    assert(prefix.subrange(prefix.len() as int, prefix.len() as int) =~= Seq::<char>::empty());
}

/// Plain HTTP is redirected exactly when redirects are on, an HTTPS
/// listener runs, the request names a host, and it is not a pending ACME
/// challenge; a pending challenge is one on the challenge path whose token
/// has a published answer.
pub proof fn law_redirect_conditions(req: ProxyRequest, settings: ListenerSettings, store: Map<Seq<char>, Seq<char>>, token: Seq<char>)
    ensures
        redirects(req, settings, store) <==> (!req.is_https && settings.https_redirect && settings.https_port is Some
            && req.host is Some && !answers_challenge(req, store)),
        req.path@ == "/.well-known/acme-challenge/"@ + token && !req.is_https ==> (answers_challenge(req, store)
            <==> store.dom().contains(token)),
{
    reveal_strlit("/.well-known/acme-challenge/");
    let p = "/.well-known/acme-challenge/"@ + token;
    assert(p.subrange(0, 28) =~= "/.well-known/acme-challenge/"@);
    assert(p.subrange(28, p.len() as int) =~= token);
}

} // verus!
