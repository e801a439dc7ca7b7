//! What peers say to each other.
use crate::audio::codec::EncodedChunk;
use vstd::prelude::*;

verus! {

/// The number and bytes of a chunk; its format is understood.
#[derive(Debug, Clone)]
pub struct AudioFrame {
    pub sequence_number: u128,
    pub payload: Vec<u8>,
}

impl From<EncodedChunk> for AudioFrame {
    fn from(chunk: EncodedChunk) -> (frame: Self) {
        AudioFrame { sequence_number: chunk.sequence_number, payload: chunk.payload }
    }
}

impl vstd::std_specs::convert::FromSpecImpl<EncodedChunk> for AudioFrame {
    open spec fn obeys_from_spec() -> bool {
        true
    }

    open spec fn from_spec(chunk: EncodedChunk) -> Self {
        AudioFrame { sequence_number: chunk.sequence_number, payload: chunk.payload }
    }
}

#[derive(Debug, Clone)]
pub enum ProtocolMessage {
    AudioFrame(AudioFrame),
    IdentityDeclaration(PeerIdentity),
    PeerDiscovery(Vec<PeerIdentity>),
    ChatMessage(String),
    Encoded(EncodedChunk),
}

/// Who a peer is and where it can be found.
#[derive(Debug, Clone)]
pub struct PeerIdentity {
    pub canonical_name: String,
    pub display_name: Option<String>,
    pub addresses: Vec<String>,
}

impl PeerIdentity {
    pub fn new(canonical_name: String) -> (identity: PeerIdentity)
        ensures
            identity.canonical_name == canonical_name,
            identity.display_name is None,
            identity.addresses@.len() == 0,
    {
        PeerIdentity { canonical_name, display_name: None, addresses: Vec::new() }
    }
}

} // verus!
