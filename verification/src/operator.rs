//! Tenant endpoint computation for the operator's status writeback.
//!
//! For each worker resource the operator computes the tenant's endpoint
//! URLs — a shared one under the extension domain and an authenticated one
//! under the token's own subdomain — and patches them into the resource's
//! status.  The computation is a pure function of the resource, so the
//! patch is idempotent: writing it again changes nothing.

use vstd::prelude::*;
use vstd::string::StringExecFns;

verus! {

/// A worker resource's status: the endpoints computed for the tenant, its
/// token, and any error text.
pub struct BaliusWorkerStatus {
    pub endpoint_url: String,
    pub authenticated_endpoint_url: Option<String>,
    pub auth_token: String,
    pub error: Option<String>,
}

/// The two hostnames a tenant is served under: the bare extension domain,
/// and the key's own subdomain of it.
pub fn build_hostname(key: &str, extension_domain: &str) -> (r: (String, String))
    ensures
        r.0@ == extension_domain@,
        r.1@ == key@ + "."@ + extension_domain@,
{
    let hostname = String::from_str(extension_domain);
    let mut hostname_key = String::from_str(key);
    hostname_key.append(".");
    hostname_key.append(extension_domain);
    proof {
        assert(hostname_key@ =~= key@ + "."@ + extension_domain@);
    }
    (hostname, hostname_key)
}

/// The shared endpoint URL of a worker.
pub open spec fn endpoint_url_spec(name: Seq<char>, domain: Seq<char>) -> Seq<char> {
    "https://"@ + domain + "/"@ + name
}

/// The authenticated endpoint URL of a worker: the token's subdomain.
pub open spec fn authenticated_url_spec(
    name: Seq<char>,
    token: Seq<char>,
    domain: Seq<char>,
) -> Seq<char> {
    "https://"@ + token + "."@ + domain + "/"@ + name
}

/// Computes the status to patch onto a worker resource: both endpoint
/// URLs and the token, with no error.  A pure function of its inputs, so
/// patching it twice is the same as patching it once.
pub fn worker_status(name: &str, auth_token: &str, extension_domain: &str) -> (s:
    BaliusWorkerStatus)
    ensures
        s.endpoint_url@ == endpoint_url_spec(name@, extension_domain@),
        s.authenticated_endpoint_url matches Some(u) && u@ == authenticated_url_spec(
            name@,
            auth_token@,
            extension_domain@,
        ),
        s.auth_token@ == auth_token@,
        s.error is None,
{
    let (hostname, hostname_key) = build_hostname(auth_token, extension_domain);
    let mut endpoint_url = String::from_str("https://");
    endpoint_url.append(hostname.as_str());
    endpoint_url.append("/");
    endpoint_url.append(name);
    let mut authenticated = String::from_str("https://");
    authenticated.append(hostname_key.as_str());
    authenticated.append("/");
    authenticated.append(name);
    proof {
        assert(endpoint_url@ =~= endpoint_url_spec(name@, extension_domain@));
        assert(authenticated@ =~= authenticated_url_spec(name@, auth_token@, extension_domain@));
    }
    BaliusWorkerStatus {
        endpoint_url,
        authenticated_endpoint_url: Some(authenticated),
        auth_token: String::from_str(auth_token),
        error: None,
    }
}

} // verus!
