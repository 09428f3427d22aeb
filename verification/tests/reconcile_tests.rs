use baliusd::dispatch::{pre_dispatch, translate_reply, DispatchStep, RpcRequest, RpcResponse,
    RuntimeReply};
use baliusd::hexstr::hex_encode;
use baliusd::reconcile::{is_s3_url, plan_event, registration_source, FailedWorkers,
    ReconcileAction, RegistrationSource, WatchEvent, WorkerLifecycle, WorkerResource};

fn resource(name: &str, network: &str, url: &str) -> WorkerResource {
    WorkerResource {
        name: String::from(name),
        network: String::from(network),
        url: String::from(url),
        config_json: b"{}".to_vec(),
        throughput_tier: String::from("t0"),
        auth_token: String::from("tok"),
        version: String::from("1"),
        display_name: String::from(name),
        active: Some(true),
    }
}

#[test]
fn apply_on_matching_network_registers() {
    let cr = resource("w1", "preprod", "https://example.com/w1.wasm");
    match plan_event(WatchEvent::Apply(cr), "cardano-preprod") {
        ReconcileAction::Register(cr) => assert_eq!(cr.name, "w1"),
        _ => panic!("expected a registration"),
    }
}

#[test]
fn apply_on_foreign_network_is_ignored() {
    let cr = resource("w1", "mainnet", "https://example.com/w1.wasm");
    assert!(matches!(
        plan_event(WatchEvent::Apply(cr), "cardano-preprod"),
        ReconcileAction::Ignore
    ));
}

#[test]
fn init_apply_behaves_like_apply() {
    let cr = resource("w1", "cardano-preview", "https://example.com/w1.wasm");
    assert!(matches!(
        plan_event(WatchEvent::InitApply(cr), "cardano-preview"),
        ReconcileAction::Register(_)
    ));
}

#[test]
fn delete_removes_unconditionally() {
    let cr = resource("w9", "mainnet", "s3://bucket/key");
    match plan_event(WatchEvent::Delete(cr), "cardano-preprod") {
        ReconcileAction::Remove(name) => assert_eq!(name, "w9"),
        _ => panic!("expected a removal"),
    }
}

#[test]
fn markers_are_ignored_and_stream_failure_is_fatal() {
    assert!(matches!(plan_event(WatchEvent::Init, "n"), ReconcileAction::Ignore));
    assert!(matches!(plan_event(WatchEvent::InitDone, "n"), ReconcileAction::Ignore));
    assert!(matches!(plan_event(WatchEvent::Empty, "n"), ReconcileAction::Ignore));
    assert!(matches!(plan_event(WatchEvent::StreamFailure, "n"), ReconcileAction::Exit));
}

#[test]
fn s3_urls_are_split_into_bucket_and_key() {
    assert!(is_s3_url("s3://bucket/key"));
    assert!(!is_s3_url("https://bucket/key"));
    match registration_source("s3://my-bucket/path/to/code.wasm") {
        RegistrationSource::ObjectStore { bucket, key } => {
            assert_eq!(bucket, "my-bucket");
            assert_eq!(key, "path/to/code.wasm");
        },
        _ => panic!("expected an object-store source"),
    }
}

#[test]
fn s3_url_without_bucket_is_invalid() {
    assert!(matches!(registration_source("s3://"), RegistrationSource::Invalid { .. }));
    assert!(matches!(registration_source("s3:///key"), RegistrationSource::Invalid { .. }));
}

#[test]
fn web_urls_must_parse() {
    match registration_source("https://example.com/w.wasm") {
        RegistrationSource::Web { url } => assert_eq!(url, "https://example.com/w.wasm"),
        _ => panic!("expected a web source"),
    }
    assert!(matches!(
        registration_source("not a url at all"),
        RegistrationSource::Invalid { .. }
    ));
}

#[test]
fn registration_failure_is_visible_until_a_later_success() {
    let mut lifecycle = WorkerLifecycle::new();
    let err = String::from("failed to get from s3");
    lifecycle.apply_register_outcome("w1", Some(&err));
    let reason = lifecycle.failed().read("w1").expect("the failure must be recorded");
    assert_eq!(reason, "failed to get from s3");

    let parsed: Result<RpcRequest, String> = Ok(RpcRequest {
        id: None,
        method: String::from("ping"),
        params: b"null".to_vec(),
    });
    match pre_dispatch(lifecycle.failed(), "w1", parsed) {
        DispatchStep::Reject(msg) => {
            assert_eq!(msg, "failed to load into runtime: failed to get from s3");
        },
        _ => panic!("a failed worker must be rejected"),
    }

    lifecycle.apply_register_outcome("w1", None);
    assert!(lifecycle.failed().read("w1").is_none());
    let parsed: Result<RpcRequest, String> = Ok(RpcRequest {
        id: None,
        method: String::from("ping"),
        params: b"null".to_vec(),
    });
    match pre_dispatch(lifecycle.failed(), "w1", parsed) {
        DispatchStep::Invoke(method, params) => {
            assert_eq!(method, "ping");
            assert_eq!(params, b"null".to_vec());
        },
        _ => panic!("a registered worker must be invoked"),
    }
}

#[test]
fn delete_clears_runtime_and_failure_registry() {
    let mut lifecycle = WorkerLifecycle::new();
    let err = String::from("boom");
    lifecycle.apply_register_outcome("w1", Some(&err));
    lifecycle.apply_delete("w1");
    assert!(lifecycle.failed().read("w1").is_none());
}

#[test]
fn parse_errors_are_rejected_with_their_message() {
    let failed = FailedWorkers::new();
    let parsed: Result<RpcRequest, String> = Err(String::from("missing field `method`"));
    match pre_dispatch(&failed, "w1", parsed) {
        DispatchStep::Reject(msg) => assert_eq!(msg, "missing field `method`"),
        _ => panic!("a parse error must be rejected"),
    }
}

#[test]
fn runtime_replies_are_translated() {
    assert!(matches!(
        translate_reply(Ok(RuntimeReply::Acknowledge)),
        RpcResponse::Empty
    ));
    match translate_reply(Ok(RuntimeReply::Json(b"{\"a\":1}".to_vec()))) {
        RpcResponse::JsonBody(b) => assert_eq!(b, b"{\"a\":1}".to_vec()),
        _ => panic!("json must pass through"),
    }
    match translate_reply(Ok(RuntimeReply::Cbor(vec![0xDE, 0xAD]))) {
        RpcResponse::CborHex(h) => assert_eq!(h, "dead"),
        _ => panic!("cbor must become hex"),
    }
    match translate_reply(Ok(RuntimeReply::PartialTx(vec![0x01, 0x2F]))) {
        RpcResponse::TxHex(h) => assert_eq!(h, "012f"),
        _ => panic!("a partial tx must become hex"),
    }
    match translate_reply(Err(String::from("worker panicked"))) {
        RpcResponse::Error(m) => assert_eq!(m, "worker panicked"),
        _ => panic!("a runtime error must surface"),
    }
}

#[test]
fn wire_bodies_are_exact() {
    assert_eq!(
        translate_reply(Ok(RuntimeReply::Acknowledge)).wire_body().unwrap(),
        "{}"
    );
    assert_eq!(
        translate_reply(Ok(RuntimeReply::Cbor(vec![0xDE, 0xAD]))).wire_body().unwrap(),
        "{\"cbor\":\"dead\"}"
    );
    assert_eq!(
        translate_reply(Ok(RuntimeReply::PartialTx(vec![0xBE, 0xEF]))).wire_body().unwrap(),
        "{\"tx\":\"beef\"}"
    );
}

#[test]
fn hex_rendering_is_lowercase_two_digits_per_byte() {
    assert_eq!(hex_encode(&vec![0x00, 0xFF, 0x1A]), "00ff1a");
    assert_eq!(hex_encode(&Vec::new()), "");
}
