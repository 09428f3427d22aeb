//! The edge proxy's request decisions: authenticate, rate-limit, route.
//!
//! A caller is identified by the `dmtr-api-key` header when present, else
//! by the leftmost label of the `Host` header.  Preflight requests and the
//! health path are answered locally.  An unknown key is refused; a known
//! consumer is rate-limited under its tier's declared rates, and an
//! admitted request is forwarded to its network's shard backend at
//! `balius-{network}.{dns}:{port}`, with the network name normalized first.

use vstd::prelude::*;
use vstd::string::StrSliceExecFns;
use vstd::string::StringExecFns;
use crate::network::{normalize_spec, handle_legacy_networks};
use crate::ratelimit::{RateLimiter, RateSpec, admits, observed_from, fresh_for};
use crate::strmap::StrMap;
use crate::strutil::{dec_digits, str_eq, u64_to_dec};

verus! {

/// The proxy's view of a tenant: its key, target network, and tier.
pub struct Consumer {
    pub key: String,
    pub network: String,
    pub tier: String,
}

/// The proxy's fixed configuration.
pub struct ProxyConfig {
    /// The path answered locally with a health response.
    pub health_endpoint: String,
    /// The backend domain under which shard pods are reachable.
    pub balius_dns: String,
    /// The backend port.
    pub balius_port: u16,
}

/// How one request is handled.
pub enum RouteDecision {
    /// A preflight request, answered locally with the CORS headers.
    CorsPreflight,
    /// The health path, answered locally.
    Health,
    /// No consumer under the effective key: refused.
    Unauthorized,
    /// The consumer's rate was exceeded: refused.
    TooManyRequests,
    /// Forward to this upstream host.
    Forward(String),
}

/// May this character stand in a host label?
pub open spec fn is_label_char(c: char) -> bool {
    ('a' <= c && c <= 'z') || ('A' <= c && c <= 'Z') || ('0' <= c && c <= '9') || c == '-'
}

/// The length of the leading host label: the longest prefix of label
/// characters.
pub open spec fn label_len(s: Seq<char>) -> int
    decreases s.len(),
{
    if s.len() == 0 || !is_label_char(s[0]) {
        0
    } else {
        1 + label_len(s.drop_first())
    }
}

proof fn lemma_label_len_at(s: Seq<char>, i: int)
    requires
        0 <= i <= s.len(),
        forall|j: int| 0 <= j < i ==> is_label_char(#[trigger] s[j]),
        i < s.len() ==> !is_label_char(s[i]),
    ensures
        label_len(s) == i,
    decreases s.len(),
{
    if i == 0 {
    } else {
        lemma_label_len_at(s.drop_first(), i - 1);
    }
}

/// The key that identifies the caller: the api-key header when present,
/// else the leading label of the host.
pub open spec fn effective_key(header_key: Option<&String>, host: Seq<char>) -> Seq<char> {
    match header_key {
        Some(h) => h@,
        None => host.take(label_len(host)),
    }
}

/// Is the character at `i` a label character?
fn label_char_at(host: &str, i: usize) -> (r: bool)
    requires
        i < host@.len(),
    ensures
        r == is_label_char(host@[i as int]),
{
    let c = host.get_char(i);
    ('a' <= c && c <= 'z') || ('A' <= c && c <= 'Z') || ('0' <= c && c <= '9') || c == '-'
}

/// Extracts the caller's key from the api-key header and the host.
pub fn extract_key(header_key: Option<&String>, host: &str) -> (k: String)
    ensures
        k@ == effective_key(header_key, host@),
{
    match header_key {
        Some(h) => String::from_str(h.as_str()),
        None => {
            let len: usize = host.unicode_len();
            let mut i: usize = 0;
            while i < len && label_char_at(host, i)
                invariant
                    0 <= i <= len,
                    len == host@.len(),
                    forall|j: int| 0 <= j < i ==> is_label_char(#[trigger] host@[j]),
                decreases len - i,
            {
                i = i + 1;
            }
            proof {
                lemma_label_len_at(host@, i as int);
            }
            String::from_str(host.substring_char(0, i))
        },
    }
}

/// The upstream host for a network: the shard backend under the configured
/// domain and port, with the network name normalized.
pub open spec fn upstream_spec(network: Seq<char>, dns: Seq<char>, port: u16) -> Seq<char> {
    "balius-"@ + normalize_spec(network) + "."@ + dns + ":"@ + dec_digits(port as nat)
}

/// Renders the upstream host for a consumer's network.
pub fn upstream_host(network: &str, dns: &str, port: u16) -> (r: String)
    ensures
        r@ == upstream_spec(network@, dns@, port),
{
    let normalized = handle_legacy_networks(network);
    let mut s = String::from_str("balius-");
    s.append(normalized.as_str());
    s.append(".");
    s.append(dns);
    s.append(":");
    let port_text = u64_to_dec(port as u64);
    s.append(port_text.as_str());
    proof {
        assert(s@ =~= upstream_spec(network@, dns@, port));
    }
    s
}

/// The headers of the locally answered preflight response: any origin may
/// send a `POST` carrying a content type and the api-key header.
pub fn cors_headers() -> (r: Vec<(String, String)>)
    ensures
        r@.len() == 3,
        r@[0].0@ == "Access-Control-Allow-Origin"@ && r@[0].1@ == "*"@,
        r@[1].0@ == "Access-Control-Allow-Methods"@ && r@[1].1@ == "POST"@,
        r@[2].0@ == "Access-Control-Allow-Headers"@ && r@[2].1@
            == "Content-Type,dmtr-api-key"@,
{
    let mut headers: Vec<(String, String)> = Vec::new();
    headers.push(
        (String::from_str("Access-Control-Allow-Origin"), String::from_str("*")),
    );
    headers.push(
        (String::from_str("Access-Control-Allow-Methods"), String::from_str("POST")),
    );
    headers.push(
        (
            String::from_str("Access-Control-Allow-Headers"),
            String::from_str("Content-Type,dmtr-api-key"),
        ),
    );
    headers
}

/// Decides one request.  Preflight and health are answered locally; an
/// unknown key is refused; a known consumer is rate-limited under its
/// tier's rates — no tier means allow — and otherwise forwarded to its
/// network's backend.
pub fn request_filter(
    limiter: &mut RateLimiter,
    consumers: &StrMap<Consumer>,
    tiers: &StrMap<Vec<RateSpec>>,
    is_preflight: bool,
    path: &str,
    header_key: Option<&String>,
    host: &str,
    now_ms: u64,
    config: &ProxyConfig,
) -> (d: RouteDecision)
    requires
        old(limiter).wf(),
        consumers.wf(),
        tiers.wf(),
        forall|t: Seq<char>, j: int|
            tiers.view().contains_key(t) && 0 <= j < (#[trigger] tiers.view()[t])@.len()
                ==> (#[trigger] tiers.view()[t]@[j]).interval_ms >= 1,
    ensures
        final(limiter).wf(),
        ({
            let k = effective_key(header_key, host@);
            if is_preflight {
                d is CorsPreflight && final(limiter).view() == old(limiter).view()
            } else if path@ == config.health_endpoint@ {
                d is Health && final(limiter).view() == old(limiter).view()
            } else if !consumers.view().contains_key(k) {
                d is Unauthorized && final(limiter).view() == old(limiter).view()
            } else {
                let c = consumers.view()[k];
                if !tiers.view().contains_key(c.tier@) {
                    d matches RouteDecision::Forward(u) && u@ == upstream_spec(
                        c.network@,
                        config.balius_dns@,
                        config.balius_port,
                    ) && final(limiter).view() == old(limiter).view()
                } else {
                    ({
                        &&& final(limiter).view().contains_key(k)
                        &&& forall|k2: Seq<char>|
                            k2 != k ==> (#[trigger] final(limiter).view().contains_key(k2)
                                <==> old(limiter).view().contains_key(k2)) && (old(
                                limiter,
                            ).view().contains_key(k2) ==> final(limiter).view()[k2] == old(
                                limiter,
                            ).view()[k2])
                        &&& if old(limiter).view().contains_key(k) {
                            observed_from(
                                old(limiter).view()[k]@,
                                final(limiter).view()[k]@,
                                now_ms,
                            ) && (d is TooManyRequests <==> !admits(
                                old(limiter).view()[k]@,
                                now_ms,
                            ))
                        } else {
                            exists|pre: Seq<crate::ratelimit::WindowCounter>|
                                fresh_for(pre, tiers.view()[c.tier@]@) && observed_from(
                                    pre,
                                    #[trigger] final(limiter).view()[k]@,
                                    now_ms,
                                ) && (d is TooManyRequests <==> !admits(pre, now_ms))
                        }
                        &&& (!(d is TooManyRequests) ==> (d matches RouteDecision::Forward(u)
                            && u@ == upstream_spec(
                            c.network@,
                            config.balius_dns@,
                            config.balius_port,
                        )))
                    })
                }
            }
        }),
{
    if is_preflight {
        return RouteDecision::CorsPreflight;
    }
    if str_eq(path, config.health_endpoint.as_str()) {
        return RouteDecision::Health;
    }
    let key = extract_key(header_key, host);
    let consumer = match consumers.get(key.as_str()) {
        None => {
            return RouteDecision::Unauthorized;
        },
        Some(c) => c,
    };
    let upstream = upstream_host(
        consumer.network.as_str(),
        config.balius_dns.as_str(),
        config.balius_port,
    );
    match tiers.get(consumer.tier.as_str()) {
        None => RouteDecision::Forward(upstream),
        Some(rates) => {
            let allowed = limiter.check(key.as_str(), Some(rates), now_ms);
            if !allowed {
                RouteDecision::TooManyRequests
            } else {
                RouteDecision::Forward(upstream)
            }
        },
    }
}

} // verus!
