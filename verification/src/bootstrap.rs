//! The bootstrap discovery client: before a peer has any mesh
//! connectivity it must be able to announce itself ("put"), find a time
//! reference ("now") and fetch a random sample of other peers in its
//! namespace ("random"), each as one POST exchange against a single
//! configured URL.
//!
//! The exchange itself is plain network I/O and happens outside the
//! verified core.  The core decides everything around it: which URL (if
//! any) to contact, the operation tag, the exact request bytes, the
//! local result when discovery is disabled, and what every possible
//! response means.  Each operation is therefore a `*_plan` function (what
//! to send, or the local outcome) and a `*_response` function (what the
//! server's answer means).

use vstd::prelude::*;

use crate::codec::{
    agent_info_wf,
    agents_wf,
    ais_wf,
    dec_agents,
    dec_nil,
    dec_uint,
    enc_agent_info,
    enc_agent_info_signed,
    enc_nil,
    enc_random_query,
    spec_dec_agents,
    spec_dec_nil,
    spec_dec_uint,
    lemma_dec_enc_agents,
    spec_enc_agent_info,
    spec_enc_agent_info_signed,
    spec_enc_agents,
    spec_enc_nil,
    spec_enc_random_query,
    views_of_agents,
};
use crate::error::{KitsuneError, KitsuneResult};
use crate::timeout::sys_now_ms;
use crate::types::{AgentInfo, AgentInfoSigned, AgentInfoSignedView, RandomQuery};

verus! {

/// The built-in default discovery host, used when no URL is configured.
pub open spec fn default_url() -> Seq<char> {
    "https://bootstrap.holo.host"@
}

/// The built-in default discovery host as a value.
pub fn default_bootstrap_url() -> (r: String)
    ensures
        r@ == default_url(),
{
    "https://bootstrap.holo.host".to_owned()
}

/// The configured discovery URL, threaded in explicitly rather than read
/// from ambient process state.  `None`: unset, fall back to the built-in
/// default.  `Some("")`: discovery disabled entirely.  Any other value:
/// used verbatim.
pub struct BootstrapConfig {
    pub url_setting: Option<String>,
}

/// Three-way URL resolution: an explicit per-call override first,
/// otherwise the configured value, where an explicitly empty
/// configuration means "disabled" (`None`) and an unset one means the
/// built-in default.
pub open spec fn spec_select_url(url_override: Option<String>, setting: Option<String>) -> Option<
    Seq<char>,
> {
    match url_override {
        Some(u) => Some(u@),
        None => match setting {
            None => Some(default_url()),
            Some(s) => if s@.len() == 0 {
                None
            } else {
                Some(s@)
            },
        },
    }
}

/// Resolve the discovery URL for one call; `None` means discovery is
/// disabled and no request may be made.
pub fn select_url(url_override: Option<String>, config: &BootstrapConfig) -> (r: Option<String>)
    ensures
        spec_select_url(url_override, config.url_setting) matches Some(v) ==> (r matches Some(u)
            && u@ == v),
        spec_select_url(url_override, config.url_setting) is None ==> r is None,
{
    match url_override {
        Some(u) => Some(u),
        None => match &config.url_setting {
            None => Some(default_bootstrap_url()),
            Some(s) => {
                if s.as_str().is_empty() {
                    None
                } else {
                    Some(s.clone())
                }
            },
        },
    }
}

/// The resolution rules, stated once: a per-call override always wins;
/// with no override, an unset configuration resolves to the built-in
/// default, an explicitly empty one disables discovery, and any other
/// value is used verbatim.
pub proof fn lemma_url_resolution(url_override: Option<String>, setting: Option<String>)
    ensures
        url_override matches Some(u) ==> spec_select_url(url_override, setting) == Some(u@),
        url_override is None && setting is None ==> spec_select_url(url_override, setting) == Some(
            default_url(),
        ),
        setting matches Some(s) ==> (url_override is None && s@.len() == 0 ==> spec_select_url(
            url_override,
            setting,
        ) is None),
        setting matches Some(s) ==> (url_override is None && s@.len() > 0 ==> spec_select_url(
            url_override,
            setting,
        ) == Some(s@)),
{
}

/// One discovery exchange, ready to send: POST `body` to `url` with the
/// operation tag `op` carried out of band (a request header).
pub struct BootstrapRequest {
    pub url: String,
    pub op: String,
    pub body: Vec<u8>,
}

/// What one HTTP exchange with the discovery server produced: a success
/// status with the response body bytes, or a non-success status with the
/// raw server-provided text.  Transport failures (refused connection,
/// timeout) never reach the response functions; they propagate as-is.
pub enum HttpOutcome {
    Success(Vec<u8>),
    Failure(String),
}

/// How a "put" starts: nothing at all when discovery is disabled (a
/// silent no-op success, not an error), otherwise exactly one request.
pub enum PutPlan {
    Skip,
    Send(BootstrapRequest),
}

/// Plan a "put": publish the signed record `info`.  Disabled discovery
/// plans no request, so it can produce no network traffic; otherwise the
/// request carries the record's canonical encoding, tagged "put".
pub fn put_plan(url_override: Option<String>, config: &BootstrapConfig, info: &AgentInfoSigned) -> (r:
    PutPlan)
    requires
        ais_wf(info@),
    ensures
        spec_select_url(url_override, config.url_setting) is None ==> r is Skip,
        spec_select_url(url_override, config.url_setting) matches Some(v) ==> (r matches
            PutPlan::Send(req) && req.url@ == v && req.op@ == "put"@ && req.body@
            == spec_enc_agent_info_signed(info@)),
{
    match select_url(url_override, config) {
        None => PutPlan::Skip,
        Some(url) => {
            let mut body: Vec<u8> = Vec::new();
            enc_agent_info_signed(&mut body, info);
            assert(body@ =~= spec_enc_agent_info_signed(info@));
            PutPlan::Send(BootstrapRequest { url, op: "put".to_owned(), body })
        },
    }
}

/// What a "put" response means: the server acknowledged (an encoded "no
/// value") or rejected the record, in which case the server's own text is
/// the error detail.  A record whose signature the server could not
/// verify comes back as that `Bootstrap` error, never as success.
#[verifier::rlimit(100)]
pub fn put_response(outcome: HttpOutcome) -> (r: KitsuneResult<()>)
    ensures
        outcome matches HttpOutcome::Failure(text) ==> r == Err::<(), KitsuneError>(
            KitsuneError::Bootstrap(text),
        ),
        outcome matches HttpOutcome::Success(body) && spec_dec_nil(body@) is Some ==> r == Ok::<
            (),
            KitsuneError,
        >(()),
        outcome matches HttpOutcome::Success(body) && spec_dec_nil(body@) is None ==> r == Err::<
            (),
            KitsuneError,
        >(KitsuneError::EncodingError),
{
    match outcome {
        HttpOutcome::Failure(text) => Err(KitsuneError::Bootstrap(text)),
        HttpOutcome::Success(body) => {
            assert(body@.skip(0) =~= body@);
            match dec_nil(&body, 0) {
                Ok(_) => Ok(()),
                Err(e) => Err(e),
            }
        },
    }
}

/// How a "now" starts: the local wall clock when discovery is disabled
/// (the operation still succeeds with no network), otherwise exactly one
/// request with an empty (nil) body, tagged "now".
pub enum NowPlan {
    Local(KitsuneResult<u64>),
    Send(BootstrapRequest),
}

/// Plan a "now": fetch the server time in milliseconds.  Disabled
/// discovery falls back to the local clock, whose only failure is
/// `ClockError`.
pub fn now_plan(url_override: Option<String>, config: &BootstrapConfig) -> (r: NowPlan)
    ensures
        spec_select_url(url_override, config.url_setting) is None ==> (r matches NowPlan::Local(t)
            && (t matches Err(e) ==> e == KitsuneError::ClockError)),
        spec_select_url(url_override, config.url_setting) matches Some(v) ==> (r matches
            NowPlan::Send(req) && req.url@ == v && req.op@ == "now"@ && req.body@
            == spec_enc_nil()),
{
    match select_url(url_override, config) {
        None => match sys_now_ms() {
            Ok(ms) => NowPlan::Local(Ok(ms)),
            Err(_) => NowPlan::Local(Err(KitsuneError::ClockError)),
        },
        Some(url) => {
            let mut body: Vec<u8> = Vec::new();
            enc_nil(&mut body);
            assert(body@ =~= spec_enc_nil());
            NowPlan::Send(BootstrapRequest { url, op: "now".to_owned(), body })
        },
    }
}

/// What a "now" response means: the milliseconds the server encoded, or
/// the server's text as a `Bootstrap` error.
#[verifier::rlimit(100)]
pub fn now_response(outcome: HttpOutcome) -> (r: KitsuneResult<u64>)
    ensures
        outcome matches HttpOutcome::Failure(text) ==> r == Err::<u64, KitsuneError>(
            KitsuneError::Bootstrap(text),
        ),
        outcome matches HttpOutcome::Success(body) ==> (spec_dec_uint(body@) matches Some(p)
            ==> r == Ok::<u64, KitsuneError>(p.0)),
        outcome matches HttpOutcome::Success(body) && spec_dec_uint(body@) is None ==> r == Err::<
            u64,
            KitsuneError,
        >(KitsuneError::EncodingError),
{
    match outcome {
        HttpOutcome::Failure(text) => Err(KitsuneError::Bootstrap(text)),
        HttpOutcome::Success(body) => {
            assert(body@.skip(0) =~= body@);
            match dec_uint(&body, 0) {
                Ok((v, _)) => Ok(v),
                Err(e) => Err(e),
            }
        },
    }
}

/// How a "random" starts: an empty sample when discovery is disabled
/// ("no discovery configured" is indistinguishable from "no peers", by
/// design), otherwise exactly one request carrying the query, tagged
/// "random".
pub enum RandomPlan {
    Empty,
    Send(BootstrapRequest),
}

/// Plan a "random": sample up to `query.limit` peers of the namespace
/// `query.space`.
pub fn random_plan(url_override: Option<String>, config: &BootstrapConfig, query: &RandomQuery) -> (r:
    RandomPlan)
    requires
        query.space@.len() <= 0xffff_ffff,
    ensures
        spec_select_url(url_override, config.url_setting) is None ==> r is Empty,
        spec_select_url(url_override, config.url_setting) matches Some(v) ==> (r matches
            RandomPlan::Send(req) && req.url@ == v && req.op@ == "random"@ && req.body@
            == spec_enc_random_query(query.space@, query.limit)),
{
    match select_url(url_override, config) {
        None => RandomPlan::Empty,
        Some(url) => {
            let mut body: Vec<u8> = Vec::new();
            enc_random_query(&mut body, query);
            assert(body@ =~= spec_enc_random_query(query.space@, query.limit));
            RandomPlan::Send(BootstrapRequest { url, op: "random".to_owned(), body })
        },
    }
}

/// The empty sample a disabled "random" resolves to.
pub fn random_disabled_sample() -> (r: Vec<AgentInfoSigned>)
    ensures
        r@.len() == 0,
{
    Vec::new()
}

/// What a "random" response means: exactly the records the server
/// encoded, or the server's text as a `Bootstrap` error.
#[verifier::rlimit(100)]
pub fn random_response(outcome: HttpOutcome) -> (r: KitsuneResult<Vec<AgentInfoSigned>>)
    ensures
        outcome matches HttpOutcome::Failure(text) ==> r == Err::<Vec<AgentInfoSigned>, KitsuneError>(
            KitsuneError::Bootstrap(text),
        ),
        outcome matches HttpOutcome::Success(body) ==> (spec_dec_agents(body@) matches Some(p)
            ==> r matches Ok(list) && views_of_agents(list@) == p.0),
        outcome matches HttpOutcome::Success(body) && spec_dec_agents(body@) is None ==> r == Err::<
            Vec<AgentInfoSigned>,
            KitsuneError,
        >(KitsuneError::EncodingError),
{
    match outcome {
        HttpOutcome::Failure(text) => Err(KitsuneError::Bootstrap(text)),
        HttpOutcome::Success(body) => {
            assert(body@.skip(0) =~= body@);
            match dec_agents(&body, 0) {
                Ok((list, _)) => Ok(list),
                Err(e) => Err(e),
            }
        },
    }
}

/// Produce the exact bytes an external keystore signs for a peer's
/// self-description.
pub fn agent_info_bytes_to_sign(info: &AgentInfo) -> (r: Vec<u8>)
    requires
        agent_info_wf(info@),
    ensures
        r@ == spec_enc_agent_info(info@),
{
    let mut out: Vec<u8> = Vec::new();
    enc_agent_info(&mut out, info);
    assert(out@ =~= spec_enc_agent_info(info@));
    out
}


/// Sampling inverts publication, on the client side: a success response
/// whose body is the canonical encoding of a record list decodes to
/// exactly those records — no more, no fewer, in order.
pub proof fn lemma_sample_round_trip(l: Seq<AgentInfoSignedView>)
    requires
        agents_wf(l),
        l.len() <= 0xffff_ffff,
    ensures
        spec_dec_agents(spec_enc_agents(l)) == Some((l, spec_enc_agents(l).len() as int)),
{
    lemma_dec_enc_agents(l, Seq::empty());
    assert(spec_enc_agents(l) + Seq::<u8>::empty() =~= spec_enc_agents(l));
}

} // verus!
