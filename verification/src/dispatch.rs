//! Per-tenant JSON-RPC dispatch.
//!
//! A request names a worker and carries `{id?, method, params}`.  Dispatch
//! first consults the failed-worker registry: a worker that failed to load
//! is answered with an error naming the reason.  A body that did not parse
//! is answered with the parse error.  Otherwise the runtime is invoked, and
//! its reply is translated: an acknowledgement becomes the empty object,
//! JSON passes through, CBOR and partial transactions are rendered as
//! lowercase hexadecimal under their own keys.  All of these travel back as
//! ordinary responses; only transport-level problems use HTTP status codes.

use vstd::prelude::*;
use vstd::string::StringExecFns;
use crate::hexstr::{hex_of, hex_encode};
use crate::reconcile::FailedWorkers;
use crate::strutil::str_concat;

verus! {

/// A parsed JSON-RPC request body.
pub struct RpcRequest {
    pub id: Option<String>,
    pub method: String,
    pub params: Vec<u8>,
}

/// What the worker runtime replied.
pub enum RuntimeReply {
    Acknowledge,
    Json(Vec<u8>),
    Cbor(Vec<u8>),
    PartialTx(Vec<u8>),
}

/// The first dispatch decision, before the runtime is invoked.
pub enum DispatchStep {
    /// Answer with this error text; the runtime is not invoked.
    Reject(String),
    /// Invoke the runtime with this method and these serialized parameters.
    Invoke(String, Vec<u8>),
}

/// The response to send: either an error object or a payload.
pub enum RpcResponse {
    /// `{"error": <text>}`.
    Error(String),
    /// `{}` — the runtime acknowledged.
    Empty,
    /// The runtime's JSON, passed through as-is.
    JsonBody(Vec<u8>),
    /// `{"cbor": <hex>}`.
    CborHex(String),
    /// `{"tx": <hex>}`.
    TxHex(String),
}

/// Decides a request against the failed-worker registry and the parse
/// outcome: a failed worker is rejected with a message naming the reason, a
/// parse failure is rejected with its error, anything else goes to the
/// runtime.
pub fn pre_dispatch(failed: &FailedWorkers, worker: &str, parsed: Result<RpcRequest, String>) -> (r:
    DispatchStep)
    requires
        failed.wf(),
    ensures
        failed.view().contains_key(worker@) ==> (r matches DispatchStep::Reject(m) && m@
            == "failed to load into runtime: "@ + failed.view()[worker@]),
        !failed.view().contains_key(worker@) ==> match parsed {
            Err(e) => r matches DispatchStep::Reject(m) && m@ == e@,
            Ok(req) => r matches DispatchStep::Invoke(m, p) && m@ == req.method@ && p@
                == req.params@,
        },
{
    match failed.read(worker) {
        Some(reason) => DispatchStep::Reject(
            str_concat("failed to load into runtime: ", reason.as_str()),
        ),
        None => match parsed {
            Err(e) => DispatchStep::Reject(e),
            Ok(req) => DispatchStep::Invoke(req.method, req.params),
        },
    }
}

/// Translates the runtime's reply, or its error, into the response to
/// send: acknowledgements become the empty object, JSON passes through,
/// CBOR and partial transactions are rendered as lowercase hexadecimal.
pub fn translate_reply(reply: Result<RuntimeReply, String>) -> (r: RpcResponse)
    ensures
        match reply {
            Err(e) => r matches RpcResponse::Error(m) && m@ == e@,
            Ok(RuntimeReply::Acknowledge) => r is Empty,
            Ok(RuntimeReply::Json(b)) => r matches RpcResponse::JsonBody(p) && p@ == b@,
            Ok(RuntimeReply::Cbor(b)) => r matches RpcResponse::CborHex(h) && h@ == hex_of(b@),
            Ok(RuntimeReply::PartialTx(b)) => r matches RpcResponse::TxHex(h) && h@ == hex_of(
                b@,
            ),
        },
{
    match reply {
        Err(e) => RpcResponse::Error(e),
        Ok(RuntimeReply::Acknowledge) => RpcResponse::Empty,
        Ok(RuntimeReply::Json(b)) => RpcResponse::JsonBody(b),
        Ok(RuntimeReply::Cbor(b)) => RpcResponse::CborHex(hex_encode(&b)),
        Ok(RuntimeReply::PartialTx(b)) => RpcResponse::TxHex(hex_encode(&b)),
    }
}

impl RpcResponse {
    /// The exact wire body for the shapes this module fully determines:
    /// the empty object and the two hexadecimal payloads.  JSON
    /// pass-through and error objects are serialized by the HTTP layer.
    pub fn wire_body(&self) -> (r: Option<String>)
        ensures
            match self {
                RpcResponse::Empty => r matches Some(s) && s@ == "{}"@,
                RpcResponse::CborHex(h) => r matches Some(s) && s@ == "{\"cbor\":\""@ + h@
                    + "\"}"@,
                RpcResponse::TxHex(h) => r matches Some(s) && s@ == "{\"tx\":\""@ + h@ + "\"}"@,
                RpcResponse::Error(_) => r is None,
                RpcResponse::JsonBody(_) => r is None,
            },
    {
        match self {
            RpcResponse::Empty => Some(String::from_str("{}")),
            RpcResponse::CborHex(h) => {
                let mut s = String::from_str("{\"cbor\":\"");
                s.append(h.as_str());
                s.append("\"}");
                Some(s)
            },
            RpcResponse::TxHex(h) => {
                let mut s = String::from_str("{\"tx\":\"");
                s.append(h.as_str());
                s.append("\"}");
                Some(s)
            },
            RpcResponse::Error(_) => None,
            RpcResponse::JsonBody(_) => None,
        }
    }
}

} // verus!
