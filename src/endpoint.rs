//! The node's network endpoint and the payloads the worker signs about itself.
use vstd::prelude::*;
use crate::codec::{copy_bytes, encode_bytes, le_bytes, scale_bytes_of, u64_le};
use crate::error::PflixServiceError;
use crate::pflix::Pflix;
use crate::storage::stored_timestamp;

verus! {

broadcast use crate::codec::lemma_bytes_deep_view;

/// Largest endpoint payload that is signed, in bytes.
pub const MAX_PAYLOAD_SIZE: usize = 512;

/// The endpoint payload: the worker's public key, the endpoint as an optional byte string and
/// the signing time in milliseconds.
pub open spec fn endpoint_payload_bytes(pubkey: Seq<u8>, endpoint: Option<Seq<u8>>, signing_time: u64) -> Seq<u8> {
    scale_bytes_of(pubkey) + match endpoint {
        Some(e) => seq![1u8] + scale_bytes_of(e),
        None => seq![0u8],
    } + le_bytes(signing_time as nat, 8)
}

/// The master key application payload: the worker's public key, its key-agreement public key
/// and the signing time in milliseconds.
pub open spec fn master_key_apply_bytes(pubkey: Seq<u8>, ecdh_pubkey: Seq<u8>, signing_time: u64) -> Seq<u8> {
    scale_bytes_of(pubkey) + scale_bytes_of(ecdh_pubkey) + le_bytes(signing_time as nat, 8)
}

/// What `get_endpoint_info` hands back.
pub enum EndpointInfo {
    /// No endpoint was set.
    NotSet,
    /// The cached signed payload and its signature.
    Signed { payload: Vec<u8>, signature: Vec<u8> },
    /// The payload to sign before it can be recorded.
    NeedsSigning { payload: Vec<u8> },
}

impl<Platform> Pflix<Platform> {
    /// The endpoint payload for the current block time; refused above `MAX_PAYLOAD_SIZE` bytes.
    pub fn sign_endpoint(&self) -> (r: Result<Vec<u8>, PflixServiceError>)
        requires
            self.wf(),
        ensures
            self.runtime_state is None ==> r == Err::<Vec<u8>, PflixServiceError>(PflixServiceError::Uninitialized),
            self.runtime_state is Some ==> {
                let payload = endpoint_payload_bytes(
                    self.identity.unwrap().public_key@,
                    self.endpoint.deep_view(),
                    stored_timestamp(self.state().chain_storage@),
                );
                &&& payload.len() > MAX_PAYLOAD_SIZE ==> r == Err::<Vec<u8>, PflixServiceError>(
                    PflixServiceError::PayloadTooLarge,
                )
                &&& payload.len() <= MAX_PAYLOAD_SIZE ==> (r matches Ok(p) && p@ == payload)
            },
    {
        let (pubkey, now_ms) = match (&self.runtime_state, &self.identity) {
            (Some(state), Some(id)) => (&id.public_key, state.chain_storage.timestamp_now()),
            _ => {
                return Err(PflixServiceError::Uninitialized);
            },
        };
        let mut out = encode_bytes(pubkey);
        match &self.endpoint {
            Some(e) => {
                out.push(1u8);
                let mut b = encode_bytes(e);
                out.append(&mut b);
            },
            None => {
                out.push(0u8);
            },
        }
        let mut t = u64_le(now_ms);
        out.append(&mut t);
        assert(out@ =~= endpoint_payload_bytes(pubkey@, self.endpoint.deep_view(), now_ms));
        if out.len() > MAX_PAYLOAD_SIZE {
            return Err(PflixServiceError::PayloadTooLarge);
        }
        Ok(out)
    }

    /// Records a new endpoint, drops the signature of the old one, and returns the payload to
    /// sign.
    pub fn set_endpoint(&mut self, endpoint: Vec<u8>) -> (r: Result<Vec<u8>, PflixServiceError>)
        requires
            old(self).wf(),
        ensures
            final(self).wf(),
            final(self).endpoint.deep_view() == Some(endpoint@),
            final(self).signed_endpoint is None,
            final(self).runtime_state == old(self).runtime_state,
            final(self).identity == old(self).identity,
            old(self).runtime_state is None ==> r == Err::<Vec<u8>, PflixServiceError>(
                PflixServiceError::Uninitialized,
            ),
            old(self).runtime_state is Some ==> {
                let payload = endpoint_payload_bytes(
                    old(self).identity.unwrap().public_key@,
                    Some(endpoint@),
                    stored_timestamp(old(self).state().chain_storage@),
                );
                &&& payload.len() > MAX_PAYLOAD_SIZE ==> r == Err::<Vec<u8>, PflixServiceError>(
                    PflixServiceError::PayloadTooLarge,
                )
                &&& payload.len() <= MAX_PAYLOAD_SIZE ==> (r matches Ok(p) && p@ == payload)
            },
    {
        self.endpoint = Some(endpoint);
        self.signed_endpoint = None;
        self.sign_endpoint()
    }

    /// Records a signed endpoint payload.
    pub fn record_signed_endpoint(&mut self, payload: Vec<u8>, signature: Vec<u8>)
        requires
            old(self).wf(),
        ensures
            final(self).wf(),
            final(self).signed_endpoint.deep_view() == Some((payload@, signature@)),
            final(self).endpoint == old(self).endpoint,
            final(self).runtime_state == old(self).runtime_state,
            final(self).identity == old(self).identity,
    {
        self.signed_endpoint = Some((payload, signature));
    }

    /// The signed endpoint: none where no endpoint was set, the cached one where there is one,
    /// else the payload to sign.
    pub fn get_endpoint_info(&self) -> (r: Result<EndpointInfo, PflixServiceError>)
        requires
            self.wf(),
        ensures
            self.endpoint is None ==> r matches Ok(EndpointInfo::NotSet),
            self.endpoint is Some && self.signed_endpoint is Some ==> (r matches Ok(EndpointInfo::Signed { payload, signature })
                && (payload@, signature@) == self.signed_endpoint.deep_view().unwrap()),
            self.endpoint is Some && self.signed_endpoint is None && self.runtime_state is None ==> r == Err::<
                EndpointInfo,
                PflixServiceError,
            >(PflixServiceError::Uninitialized),
            self.endpoint is Some && self.signed_endpoint is None && self.runtime_state is Some ==> {
                let payload = endpoint_payload_bytes(
                    self.identity.unwrap().public_key@,
                    self.endpoint.deep_view(),
                    stored_timestamp(self.state().chain_storage@),
                );
                &&& payload.len() > MAX_PAYLOAD_SIZE ==> r == Err::<EndpointInfo, PflixServiceError>(
                    PflixServiceError::PayloadTooLarge,
                )
                &&& payload.len() <= MAX_PAYLOAD_SIZE ==> (r matches Ok(EndpointInfo::NeedsSigning { payload: p })
                    && p@ == payload)
            },
    {
        if self.endpoint.is_none() {
            return Ok(EndpointInfo::NotSet);
        }
        match &self.signed_endpoint {
            Some((payload, signature)) => Ok(
                EndpointInfo::Signed { payload: copy_bytes(payload.as_slice()), signature: copy_bytes(signature.as_slice()) },
            ),
            None => match self.sign_endpoint() {
                Ok(payload) => Ok(EndpointInfo::NeedsSigning { payload }),
                Err(e) => Err(e),
            },
        }
    }

    /// The master key application payload for the current block time.
    pub fn get_master_key_apply(&self) -> (r: Result<Vec<u8>, PflixServiceError>)
        requires
            self.wf(),
        ensures
            self.runtime_state is None ==> r == Err::<Vec<u8>, PflixServiceError>(PflixServiceError::Uninitialized),
            self.runtime_state is Some ==> (r matches Ok(p) && p@ == master_key_apply_bytes(
                self.identity.unwrap().public_key@,
                self.identity.unwrap().ecdh_public_key@,
                stored_timestamp(self.state().chain_storage@),
            )),
    {
        match (&self.runtime_state, &self.identity) {
            (Some(state), Some(id)) => {
                let now_ms = state.chain_storage.timestamp_now();
                let mut out = encode_bytes(&id.public_key);
                let mut b = encode_bytes(&id.ecdh_public_key);
                out.append(&mut b);
                let mut t = u64_le(now_ms);
                out.append(&mut t);
                assert(out@ =~= master_key_apply_bytes(id.public_key@, id.ecdh_public_key@, now_ms));
                Ok(out)
            },
            _ => Err(PflixServiceError::Uninitialized),
        }
    }
}

} // verus!
