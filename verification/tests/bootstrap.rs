use kitsune_core::bootstrap::{
    default_bootstrap_url, now_plan, now_response, put_plan, put_response, random_disabled_sample,
    random_plan, random_response, select_url, BootstrapConfig, HttpOutcome, NowPlan, PutPlan,
    RandomPlan,
};
use kitsune_core::codec::{enc_agent_info_signed, enc_agents, enc_uint};
use kitsune_core::error::KitsuneError;
use kitsune_core::types::{
    AgentInfoSigned, KitsuneAgent, KitsuneSignature, KitsuneSpace, RandomQuery,
};

fn unset() -> BootstrapConfig {
    BootstrapConfig { url_setting: None }
}

fn disabled() -> BootstrapConfig {
    BootstrapConfig { url_setting: Some(String::new()) }
}

fn configured(url: &str) -> BootstrapConfig {
    BootstrapConfig { url_setting: Some(url.to_string()) }
}

fn sample_record(tag: u8) -> AgentInfoSigned {
    AgentInfoSigned {
        agent: KitsuneAgent(vec![tag; 36]),
        signature: KitsuneSignature(vec![tag ^ 0xff; 64]),
        agent_info: vec![tag, 9, 9],
    }
}

#[test]
fn url_override_always_wins() {
    let picked = select_url(Some("http://o.example".to_string()), &configured("http://c.example"));
    assert_eq!(picked.unwrap(), "http://o.example");
    let picked = select_url(Some("http://o.example".to_string()), &disabled());
    assert_eq!(picked.unwrap(), "http://o.example");
}

#[test]
fn unset_url_falls_back_to_default() {
    let picked = select_url(None, &unset());
    assert_eq!(picked.unwrap(), default_bootstrap_url());
    assert_eq!(default_bootstrap_url(), "https://bootstrap.holo.host");
}

#[test]
fn empty_url_disables_discovery() {
    assert!(select_url(None, &disabled()).is_none());
}

#[test]
fn configured_url_used_verbatim() {
    let picked = select_url(None, &configured("http://127.0.0.1:3030"));
    assert_eq!(picked.unwrap(), "http://127.0.0.1:3030");
}

#[test]
fn put_disabled_is_silent_noop() {
    // Explicitly empty setting: no request is even formed, so no network
    // traffic can happen, and the operation counts as success.
    let plan = put_plan(None, &disabled(), &sample_record(1));
    assert!(matches!(plan, PutPlan::Skip));
}

#[test]
fn put_plan_carries_encoded_record() {
    let record = sample_record(2);
    let plan = put_plan(None, &configured("http://c.example"), &record);
    match plan {
        PutPlan::Send(req) => {
            assert_eq!(req.url, "http://c.example");
            assert_eq!(req.op, "put");
            let mut expected = Vec::new();
            enc_agent_info_signed(&mut expected, &record);
            assert_eq!(req.body, expected);
        }
        PutPlan::Skip => panic!("discovery is configured, a request was owed"),
    }
}

#[test]
fn put_response_accepts_acknowledgement() {
    assert_eq!(put_response(HttpOutcome::Success(vec![0xc0])), Ok(()));
}

#[test]
fn put_response_rejected_record_is_an_error() {
    // A record whose signature does not verify comes back from the server
    // as a non-success status; that must surface as an error, not success.
    let r = put_response(HttpOutcome::Failure("signature verification failed".to_string()));
    assert_eq!(
        r.unwrap_err(),
        KitsuneError::Bootstrap("signature verification failed".to_string())
    );
}

#[test]
fn put_response_rejects_garbage_body() {
    assert_eq!(
        put_response(HttpOutcome::Success(vec![0x01])).unwrap_err(),
        KitsuneError::EncodingError
    );
}

#[test]
fn now_disabled_falls_back_to_local_clock() {
    // Even with no network reachable, the operation succeeds locally.
    match now_plan(None, &disabled()) {
        NowPlan::Local(r) => {
            let ms = r.unwrap();
            // Sometime after 2020 on any sane clock.
            assert!(ms > 1_577_836_800_000);
        }
        NowPlan::Send(_) => panic!("disabled discovery must not plan a request"),
    }
}

#[test]
fn now_plan_sends_nil_body() {
    match now_plan(None, &configured("http://c.example")) {
        NowPlan::Send(req) => {
            assert_eq!(req.op, "now");
            assert_eq!(req.url, "http://c.example");
            assert_eq!(req.body, vec![0xc0]);
        }
        NowPlan::Local(_) => panic!("configured discovery must plan a request"),
    }
}

#[test]
fn now_response_decodes_milliseconds() {
    let mut body = Vec::new();
    enc_uint(&mut body, 1_600_000_000_123);
    assert_eq!(now_response(HttpOutcome::Success(body)), Ok(1_600_000_000_123));
    assert_eq!(
        now_response(HttpOutcome::Failure("oops".to_string())).unwrap_err(),
        KitsuneError::Bootstrap("oops".to_string())
    );
    assert_eq!(
        now_response(HttpOutcome::Success(vec![0xc0])).unwrap_err(),
        KitsuneError::EncodingError
    );
}

#[test]
fn random_disabled_returns_empty_sample() {
    // "No discovery configured" reads as "no information", never an error.
    let plan = random_plan(
        None,
        &disabled(),
        &RandomQuery { space: KitsuneSpace(vec![5; 36]), limit: 16 },
    );
    assert!(matches!(plan, RandomPlan::Empty));
    assert!(random_disabled_sample().is_empty());
}

#[test]
fn random_plan_carries_space_and_limit() {
    let query = RandomQuery { space: KitsuneSpace(vec![5; 36]), limit: 256 };
    match random_plan(None, &configured("http://c.example"), &query) {
        RandomPlan::Send(req) => {
            assert_eq!(req.op, "random");
            // A two-element array: the namespace bytes, then the limit.
            assert_eq!(req.body[0], 0x92);
            assert!(req.body.ends_with(&[0xcd, 0x01, 0x00]));
        }
        RandomPlan::Empty => panic!("configured discovery must plan a request"),
    }
}

#[test]
fn random_round_trip_returns_published_records() {
    // Two distinct agents published in one namespace; a success response
    // carrying their encodings decodes to exactly those records.
    let alice = sample_record(1);
    let bob = sample_record(2);
    let published = vec![alice.clone(), bob.clone()];
    let mut body = Vec::new();
    enc_agents(&mut body, &published);
    let sampled = random_response(HttpOutcome::Success(body)).unwrap();
    assert_eq!(sampled.len(), 2);
    assert_eq!(sampled, published);
    // A sample of one is a subset of what was published.
    let mut body_one = Vec::new();
    enc_agents(&mut body_one, &vec![bob.clone()]);
    let single = random_response(HttpOutcome::Success(body_one)).unwrap();
    assert_eq!(single.len(), 1);
    assert!(single[0] == alice || single[0] == bob);
}

#[test]
fn random_response_server_error_propagates() {
    assert_eq!(
        random_response(HttpOutcome::Failure("bad query".to_string())).unwrap_err(),
        KitsuneError::Bootstrap("bad query".to_string())
    );
}

#[test]
fn bytes_to_sign_track_every_field() {
    let info = kitsune_core::types::AgentInfo {
        space: KitsuneSpace(vec![3; 36]),
        agent: KitsuneAgent(vec![4; 36]),
        urls: vec![b"wss://a.example".to_vec()],
        signed_at_ms: 1_600_000_000_000,
        expires_after_ms: 3_600_000,
    };
    let bytes = kitsune_core::bootstrap::agent_info_bytes_to_sign(&info);
    // Any field mutation changes the bytes, and with them what is signed.
    let mut later = info.clone();
    later.signed_at_ms += 1;
    assert_ne!(bytes, kitsune_core::bootstrap::agent_info_bytes_to_sign(&later));
    let mut moved = info.clone();
    moved.urls = vec![b"wss://b.example".to_vec()];
    assert_ne!(bytes, kitsune_core::bootstrap::agent_info_bytes_to_sign(&moved));
}
