//! The data the bootstrap discovery protocol speaks about: namespaces,
//! agent identities, signatures, and the signed record a peer publishes
//! to advertise itself.

use vstd::prelude::*;

verus! {

/// A namespace ("space"): the partitioning key scoping which peers'
/// discovery records are relevant to each other.
#[derive(Clone, Debug, PartialEq, Eq)]
pub struct KitsuneSpace(pub Vec<u8>);

impl View for KitsuneSpace {
    type V = Seq<u8>;

    open spec fn view(&self) -> Seq<u8> {
        self.0@
    }
}

/// A logical peer identity.
#[derive(Clone, Debug, PartialEq, Eq)]
pub struct KitsuneAgent(pub Vec<u8>);

impl View for KitsuneAgent {
    type V = Seq<u8>;

    open spec fn view(&self) -> Seq<u8> {
        self.0@
    }
}

/// A signature produced by an external keystore.
#[derive(Clone, Debug, PartialEq, Eq)]
pub struct KitsuneSignature(pub Vec<u8>);

impl View for KitsuneSignature {
    type V = Seq<u8>;

    open spec fn view(&self) -> Seq<u8> {
        self.0@
    }
}

/// A peer's self-description: identity bound to a namespace, candidate
/// addresses (as their UTF-8 bytes), a creation time and an expiry
/// window, both in milliseconds.  Its binary encoding is exactly what is
/// signed, so any field mutation invalidates the signature.
#[derive(Clone, Debug, PartialEq, Eq)]
pub struct AgentInfo {
    pub space: KitsuneSpace,
    pub agent: KitsuneAgent,
    pub urls: Vec<Vec<u8>>,
    pub signed_at_ms: u64,
    pub expires_after_ms: u64,
}

/// Mathematical model of an `AgentInfo`.
pub struct AgentInfoView {
    pub space: Seq<u8>,
    pub agent: Seq<u8>,
    pub urls: Seq<Seq<u8>>,
    pub signed_at_ms: u64,
    pub expires_after_ms: u64,
}

impl View for AgentInfo {
    type V = AgentInfoView;

    open spec fn view(&self) -> AgentInfoView {
        AgentInfoView {
            space: self.space@,
            agent: self.agent@,
            urls: self.urls@.map_values(|u: Vec<u8>| u@),
            signed_at_ms: self.signed_at_ms,
            expires_after_ms: self.expires_after_ms,
        }
    }
}

/// The signed, immutable record a peer publishes: the agent identity,
/// the keystore's signature over `agent_info`, and the encoded
/// `AgentInfo` bytes themselves.  Signing and verification belong to an
/// external keystore; this core only carries the bytes.
#[derive(Clone, Debug, PartialEq, Eq)]
pub struct AgentInfoSigned {
    pub agent: KitsuneAgent,
    pub signature: KitsuneSignature,
    pub agent_info: Vec<u8>,
}

/// Mathematical model of an `AgentInfoSigned`.
pub struct AgentInfoSignedView {
    pub agent: Seq<u8>,
    pub signature: Seq<u8>,
    pub agent_info: Seq<u8>,
}

impl View for AgentInfoSigned {
    type V = AgentInfoSignedView;

    open spec fn view(&self) -> AgentInfoSignedView {
        AgentInfoSignedView {
            agent: self.agent@,
            signature: self.signature@,
            agent_info: self.agent_info@,
        }
    }
}

/// A random-sample discovery request: namespace plus a maximum result
/// count; ephemeral, constructed per request.
#[derive(Clone, Debug, PartialEq, Eq)]
pub struct RandomQuery {
    pub space: KitsuneSpace,
    pub limit: u32,
}

} // verus!
