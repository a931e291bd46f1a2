//! The worker key handover between an old enclave (server, holds the key) and a new one
//! (client, asks for it).
use vstd::prelude::*;
use crate::attestation::{validate_attestation_report, validation_outcome, AttestationProvider, AttestationReport};
use crate::codec::{blake2_256, blake2_256_of, bytes_eq, copy_bytes, encode_bytes, le_bytes, random_32, scale_bytes_of, u32_le, u64_le, wipe};
use crate::error::{PflixServiceError, ProtocolError};
use crate::pflix::{Pflix, WorkerIdentity};
use crate::storage::stored_bin_added_at;
use crate::sync::BlockNumber;

verus! {

broadcast use crate::codec::lemma_bytes_deep_view;

/// How many blocks a challenge stays valid.
pub const CHALLENGE_MAX_AGE_BLOCKS: u32 = 150;

/// A single-use challenge issued by a handover server.
pub struct HandoverChallenge {
    pub sgx_target_info: Vec<u8>,
    pub block_number: BlockNumber,
    pub now: u64,
    pub dev_mode: bool,
    pub nonce: Vec<u8>,
}

impl HandoverChallenge {
    pub open spec fn view(&self) -> (Seq<u8>, u32, u64, bool, Seq<u8>) {
        (self.sgx_target_info@, self.block_number, self.now, self.dev_mode, self.nonce@)
    }

    pub fn duplicate(&self) -> (r: HandoverChallenge)
        ensures
            r@ == self@,
    {
        HandoverChallenge {
            sgx_target_info: copy_bytes(self.sgx_target_info.as_slice()),
            block_number: self.block_number,
            now: self.now,
            dev_mode: self.dev_mode,
            nonce: copy_bytes(self.nonce.as_slice()),
        }
    }

    pub fn same_as(&self, other: &HandoverChallenge) -> (r: bool)
        ensures
            r == (self@ == other@),
    {
        bytes_eq(self.sgx_target_info.as_slice(), other.sgx_target_info.as_slice()) && self.block_number
            == other.block_number && self.now == other.now && self.dev_mode == other.dev_mode && bytes_eq(
            self.nonce.as_slice(),
            other.nonce.as_slice(),
        )
    }
}

/// The client's answer to a challenge.
pub struct ChallengeHandlerInfo {
    pub challenge: HandoverChallenge,
    pub sgx_local_report: Vec<u8>,
    pub ecdh_pubkey: Vec<u8>,
}

/// The bytes a challenge answer is hashed over: its fields in order as SCALE lays them out.
/// Variable-length byte strings (target info, local report) carry a length prefix; the fixed
/// 32-byte nonce and key-agreement key stand as they are; numbers are little-endian and the flag
/// is one byte.
pub open spec fn handler_bytes(h: ChallengeHandlerInfo) -> Seq<u8> {
    scale_bytes_of(h.challenge.sgx_target_info@) + le_bytes(h.challenge.block_number as nat, 4) + le_bytes(
        h.challenge.now as nat,
        8,
    ) + seq![if h.challenge.dev_mode { 1u8 } else { 0u8 }] + h.challenge.nonce@
        + scale_bytes_of(h.sgx_local_report@) + h.ecdh_pubkey@
}

pub fn encode_handler(h: &ChallengeHandlerInfo) -> (r: Vec<u8>)
    ensures
        r@ == handler_bytes(*h),
{
    let mut out = encode_bytes(&h.challenge.sgx_target_info);
    let mut b = u32_le(h.challenge.block_number);
    out.append(&mut b);
    let mut c = u64_le(h.challenge.now);
    out.append(&mut c);
    out.push(if h.challenge.dev_mode { 1u8 } else { 0u8 });
    let mut d = copy_bytes(h.challenge.nonce.as_slice());
    out.append(&mut d);
    let mut e = encode_bytes(&h.sgx_local_report);
    out.append(&mut e);
    let mut f = copy_bytes(h.ecdh_pubkey.as_slice());
    out.append(&mut f);
    assert(out@ =~= handler_bytes(*h));
    out
}

/// A worker key encrypted for a handover client.
pub struct EncryptedKey {
    pub ecdh_pubkey: Vec<u8>,
    pub encrypted_key: Vec<u8>,
    pub iv: Vec<u8>,
}

pub struct EncryptedWorkerKey {
    pub genesis_block_hash: Vec<u8>,
    pub dev_mode: bool,
    pub encrypted_key: EncryptedKey,
}

/// The bytes an encrypted worker key is hashed over, as SCALE lays them out: the fixed-length
/// genesis hash, key-agreement key and IV as they are, the flag as one byte, the ciphertext with
/// a length prefix.
pub open spec fn worker_key_bytes(k: EncryptedWorkerKey) -> Seq<u8> {
    k.genesis_block_hash@ + seq![if k.dev_mode { 1u8 } else { 0u8 }] + k.encrypted_key.ecdh_pubkey@
        + scale_bytes_of(k.encrypted_key.encrypted_key@) + k.encrypted_key.iv@
}

pub fn encode_worker_key(k: &EncryptedWorkerKey) -> (r: Vec<u8>)
    ensures
        r@ == worker_key_bytes(*k),
{
    let mut out = copy_bytes(k.genesis_block_hash.as_slice());
    out.push(if k.dev_mode { 1u8 } else { 0u8 });
    let mut b = copy_bytes(k.encrypted_key.ecdh_pubkey.as_slice());
    out.append(&mut b);
    let mut c = encode_bytes(&k.encrypted_key.encrypted_key);
    out.append(&mut c);
    let mut d = copy_bytes(k.encrypted_key.iv.as_slice());
    out.append(&mut d);
    assert(out@ =~= worker_key_bytes(*k));
    out
}

/// The hash that the server's attestation over an encrypted worker key binds.
pub fn worker_key_hash(k: &EncryptedWorkerKey) -> (r: Vec<u8>)
    ensures
        r@ == blake2_256_of(worker_key_bytes(*k)),
{
    let bytes = encode_worker_key(k);
    blake2_256(bytes.as_slice())
}

/// Checking a challenge against the last issued one: the answer, and the slot afterwards.
pub open spec fn challenge_check(
    last: Option<(Seq<u8>, u32, u64, bool, Seq<u8>)>,
    c: (Seq<u8>, u32, u64, bool, Seq<u8>),
) -> (bool, Option<(Seq<u8>, u32, u64, bool, Seq<u8>)>) {
    (last == Some(c), None)
}

pub open spec fn challenge_slot(last: Option<HandoverChallenge>) -> Option<(Seq<u8>, u32, u64, bool, Seq<u8>)> {
    match last {
        Some(c) => Some(c@),
        None => None,
    }
}

/// A challenge passes at most once: checking it again after a check finds the slot empty.
pub proof fn lemma_challenge_single_use(
    last: Option<(Seq<u8>, u32, u64, bool, Seq<u8>)>,
    c: (Seq<u8>, u32, u64, bool, Seq<u8>),
)
    ensures
        !(challenge_check(last, c).0 && challenge_check(challenge_check(last, c).1, c).0),
{
}

/// The challenge was issued at most `CHALLENGE_MAX_AGE_BLOCKS` blocks before `current`.
pub open spec fn challenge_recent(challenge_block: u32, current: u32) -> bool {
    challenge_block <= current && current - challenge_block <= CHALLENGE_MAX_AGE_BLOCKS
}

/// What a handover server hands out once every check passed: the key to encrypt, for whom, and
/// the context it travels with.
pub struct HandoverGrant {
    pub client_ecdh_pubkey: Vec<u8>,
    pub secret_key: Vec<u8>,
    pub genesis_block_hash: Vec<u8>,
    pub dev_mode: bool,
    /// The encrypted key must be attested before it is sent.
    pub attest: bool,
}

/// What a handover client sends back to a challenge.
pub struct AcceptedChallenge {
    pub handler: ChallengeHandlerInfo,
    /// Where the client is attested: the provider and the hash the report must bind.
    pub attest: Option<(AttestationProvider, Vec<u8>)>,
}

/// The runtime attests in hardware and checks its counterpart: neither in development mode nor
/// without an enclave attestation provider.
pub open spec fn secure_mode(dev_mode: bool, provider: Option<AttestationProvider>) -> bool {
    !dev_mode && (provider == Some(AttestationProvider::Ias) || provider == Some(AttestationProvider::Dcap))
}

/// The outcome of the handover server's checks, in order: the client's remote attestation,
/// the challenge, the local attestation, the challenge's age, and the build times on chain.
pub open spec fn handover_checks(
    secure: bool,
    report: Option<AttestationReport>,
    payload_hash: Seq<u8>,
    block_sec: u64,
    challenge_ok: bool,
    local_report_valid: bool,
    challenge_block: u32,
    current_block: u32,
    server_added_at: Option<u64>,
    client_added_at: Option<u64>,
) -> Result<(), ProtocolError> {
    if secure && report is None {
        Err(ProtocolError::MissingAttestation)
    } else if secure && validation_outcome(report.unwrap().payload_hash@, report.unwrap().timestamp, payload_hash, block_sec) is Err {
        validation_outcome(report.unwrap().payload_hash@, report.unwrap().timestamp, payload_hash, block_sec)
    } else if !challenge_ok {
        Err(ProtocolError::Replay)
    } else if secure && !local_report_valid {
        Err(ProtocolError::WrongMachine)
    } else if !challenge_recent(challenge_block, current_block) {
        Err(ProtocolError::OutdatedChallenge)
    } else if secure && (server_added_at is None || client_added_at is None) {
        Err(ProtocolError::NotAllowedOnChain)
    } else if secure && server_added_at.unwrap() >= client_added_at.unwrap() {
        Err(ProtocolError::Rollback)
    } else {
        Ok(())
    }
}

/// A handover server's checks fail on a rollback, an old challenge or a report bound to other
/// bytes.
pub proof fn lemma_handover_rejections(
    report: AttestationReport,
    payload_hash: Seq<u8>,
    block_sec: u64,
    challenge_ok: bool,
    local_report_valid: bool,
    challenge_block: u32,
    current_block: u32,
    server_added_at: Option<u64>,
    client_added_at: Option<u64>,
)
    ensures
        server_added_at matches Some(s) && client_added_at matches Some(c) && c <= s ==> handover_checks(
            true,
            Some(report),
            payload_hash,
            block_sec,
            challenge_ok,
            local_report_valid,
            challenge_block,
            current_block,
            server_added_at,
            client_added_at,
        ) is Err,
        current_block as int - challenge_block as int > CHALLENGE_MAX_AGE_BLOCKS ==> forall|secure: bool|
            #![auto]
            handover_checks(
                secure,
                Some(report),
                payload_hash,
                block_sec,
                challenge_ok,
                local_report_valid,
                challenge_block,
                current_block,
                server_added_at,
                client_added_at,
            ) is Err,
        report.payload_hash@ != payload_hash ==> handover_checks(
            true,
            Some(report),
            payload_hash,
            block_sec,
            challenge_ok,
            local_report_valid,
            challenge_block,
            current_block,
            server_added_at,
            client_added_at,
        ) == Err::<(), ProtocolError>(ProtocolError::HashMismatch),
{
}

/// Issuing a challenge on a runtime `p0`: it is for the last applied block and the chain time,
/// carries the target info outside development mode, and becomes the last issued challenge.
pub open spec fn create_challenge_post<P>(
    p0: Pflix<P>,
    p1: Pflix<P>,
    sgx_target_info: Seq<u8>,
    r: Result<HandoverChallenge, PflixServiceError>,
) -> bool {
    if p0.runtime_state is None {
        r == Err::<HandoverChallenge, PflixServiceError>(PflixServiceError::Uninitialized) && p1 == p0
    } else {
        r matches Ok(c) && {
            &&& c.block_number == (p0.state().storage_synchronizer.next_block() - 1) as BlockNumber
            &&& c.now == crate::storage::stored_timestamp(p0.state().chain_storage@)
            &&& c.dev_mode == p0.dev_mode
            &&& c.sgx_target_info@ == if p0.dev_mode {
                Seq::<u8>::empty()
            } else {
                sgx_target_info
            }
            &&& c.nonce@.len() == 32
            &&& challenge_slot(p1.handover_last_challenge) == Some(c@)
            &&& p1 == (Pflix { handover_last_challenge: p1.handover_last_challenge, ..p0 })
        }
    }
}

impl<Platform> Pflix<Platform> {
    /// Issues a new challenge for the current block, replacing any earlier one. Outside
    /// development mode it carries the enclave's target info.
    pub fn get_worker_key_challenge(&mut self, block_number: BlockNumber, now: u64, sgx_target_info: Vec<u8>) -> (r:
        HandoverChallenge)
        ensures
            r.block_number == block_number,
            r.now == now,
            r.dev_mode == old(self).dev_mode,
            r.sgx_target_info@ == if old(self).dev_mode {
                Seq::<u8>::empty()
            } else {
                sgx_target_info@
            },
            r.nonce@.len() == 32,
            challenge_slot(final(self).handover_last_challenge) == Some(r@),
            *final(self) == (Pflix { handover_last_challenge: final(self).handover_last_challenge, ..*old(self) }),
    {
        let target = if self.dev_mode {
            Vec::new()
        } else {
            sgx_target_info
        };
        let challenge = HandoverChallenge {
            sgx_target_info: target,
            block_number,
            now,
            dev_mode: self.dev_mode,
            nonce: random_32(),
        };
        self.handover_last_challenge = Some(challenge.duplicate());
        challenge
    }

    /// Key handover server: a challenge for the current block.
    pub fn handover_create_challenge(&mut self, sgx_target_info: Vec<u8>) -> (r: Result<
        HandoverChallenge,
        PflixServiceError,
    >)
        requires
            old(self).wf(),
        ensures
            final(self).wf(),
            create_challenge_post(*old(self), *final(self), sgx_target_info@, r),
    {
        let (block, now) = match self.current_block() {
            Ok(v) => v,
            Err(e) => {
                return Err(e);
            },
        };
        Ok(self.get_worker_key_challenge(block, now, sgx_target_info))
    }

    /// Takes the last issued challenge out and tells whether it is `challenge`.
    pub fn verify_worker_key_challenge(&mut self, challenge: &HandoverChallenge) -> (r: bool)
        ensures
            (r, challenge_slot(final(self).handover_last_challenge)) == challenge_check(
                challenge_slot(old(self).handover_last_challenge),
                challenge@,
            ),
            *final(self) == (Pflix { handover_last_challenge: None, ..*old(self) }),
    {
        let last = self.handover_last_challenge.take();
        match last {
            Some(c) => c.same_as(challenge),
            None => false,
        }
    }

    /// Key handover server: checks a client's answer to a challenge and, where every check
    /// passes, grants it the worker key. Outside development mode and with an enclave provider,
    /// the client must bring a remote attestation bound to its answer, prove by
    /// `local_report_valid` that it runs on this machine, and run a build that the chain accepted
    /// after the server's (`server_measurement_hash`). The challenge must be the last one issued,
    /// which is used up by the check, and at most 150 blocks old.
    pub fn handover_start(
        &mut self,
        handler: &ChallengeHandlerInfo,
        attestation: Option<AttestationReport>,
        local_report_valid: bool,
        server_measurement_hash: &[u8],
    ) -> (r: Result<HandoverGrant, PflixServiceError>)
        requires
            old(self).wf(),
        ensures
            final(self).wf(),
            old(self).runtime_state is None ==> r == Err::<HandoverGrant, PflixServiceError>(
                PflixServiceError::Uninitialized,
            ) && *final(self) == *old(self),
            old(self).runtime_state is Some ==> {
                let st = old(self).state();
                let secure = secure_mode(old(self).dev_mode, old(self).attestation_provider);
                let current = (st.storage_synchronizer.next_block() - 1) as u32;
                let outcome = handover_checks(
                    secure,
                    attestation,
                    blake2_256_of(handler_bytes(*handler)),
                    crate::storage::stored_timestamp(st.chain_storage@) / 1000,
                    challenge_slot(old(self).handover_last_challenge) == Some(handler.challenge@),
                    local_report_valid,
                    handler.challenge.block_number,
                    current,
                    stored_bin_added_at(st.chain_storage@, server_measurement_hash@),
                    match attestation {
                        Some(a) => stored_bin_added_at(st.chain_storage@, a.measurement_hash@),
                        None => None,
                    },
                );
                &&& (r is Ok <==> outcome is Ok)
                &&& (r matches Err(e) ==> e == PflixServiceError::Protocol(outcome->Err_0))
                &&& (r matches Ok(g) ==> {
                    &&& g.client_ecdh_pubkey@ == handler.ecdh_pubkey@
                    &&& g.secret_key@ == old(self).identity.unwrap().secret_key@
                    &&& g.genesis_block_hash@ == st.genesis_block_hash@
                    &&& g.dev_mode == old(self).dev_mode
                    &&& g.attest == secure
                })
                &&& *final(self) == (Pflix {
                    handover_last_challenge: final(self).handover_last_challenge,
                    ..*old(self)
                })
                &&& if secure && (attestation matches Some(a) ==> validation_outcome(
                    a.payload_hash@,
                    a.timestamp,
                    blake2_256_of(handler_bytes(*handler)),
                    crate::storage::stored_timestamp(st.chain_storage@) / 1000,
                ) is Err) {
                    final(self).handover_last_challenge == old(self).handover_last_challenge
                } else {
                    final(self).handover_last_challenge is None
                }
            },
    {
        let (block_number, now_ms) = match self.current_block() {
            Ok(v) => v,
            Err(e) => {
                return Err(e);
            },
        };
        let dev_mode = self.dev_mode;
        let secure = !dev_mode && (self.attestation_provider == Some(AttestationProvider::Ias)
            || self.attestation_provider == Some(AttestationProvider::Dcap));
        let block_sec = now_ms / 1000;
        let handler_bytes_v = encode_handler(handler);
        let payload_hash = blake2_256(handler_bytes_v.as_slice());
        // 1. the client's remote attestation, bound to its answer
        if secure {
            match &attestation {
                None => {
                    return Err(PflixServiceError::Protocol(ProtocolError::MissingAttestation));
                },
                Some(report) => match validate_attestation_report(report, payload_hash.as_slice(), block_sec) {
                    Ok(()) => {},
                    Err(e) => {
                        return Err(PflixServiceError::Protocol(e));
                    },
                },
            }
        }
        // 2. the challenge, used up here
        if !self.verify_worker_key_challenge(&handler.challenge) {
            return Err(PflixServiceError::Protocol(ProtocolError::Replay));
        }
        // 3. the local attestation: both enclaves on one machine
        if secure && !local_report_valid {
            return Err(PflixServiceError::Protocol(ProtocolError::WrongMachine));
        }
        // 4. the challenge's age
        let challenge_height = handler.challenge.block_number;
        if !(challenge_height <= block_number && block_number - challenge_height <= CHALLENGE_MAX_AGE_BLOCKS) {
            return Err(PflixServiceError::Protocol(ProtocolError::OutdatedChallenge));
        }
        // 5. never hand over to an older or the same build
        if secure {
            let (server_ts, client_ts) = match (&self.runtime_state, &attestation) {
                (Some(state), Some(report)) => (
                    state.chain_storage.get_pflix_bin_added_at(server_measurement_hash),
                    state.chain_storage.get_pflix_bin_added_at(report.measurement_hash.as_slice()),
                ),
                _ => (None, None),
            };
            match (server_ts, client_ts) {
                (Some(s), Some(c)) => {
                    if s >= c {
                        return Err(PflixServiceError::Protocol(ProtocolError::Rollback));
                    }
                },
                _ => {
                    return Err(PflixServiceError::Protocol(ProtocolError::NotAllowedOnChain));
                },
            }
        }
        match (&self.runtime_state, &self.identity) {
            (Some(state), Some(id)) => Ok(
                HandoverGrant {
                    client_ecdh_pubkey: copy_bytes(handler.ecdh_pubkey.as_slice()),
                    secret_key: copy_bytes(id.secret_key.as_slice()),
                    genesis_block_hash: copy_bytes(state.genesis_block_hash.as_slice()),
                    dev_mode,
                    attest: secure,
                },
            ),
            _ => Err(PflixServiceError::Uninitialized),
        }
    }

    /// Key handover client: answers a challenge. Keeps the ephemeral key-agreement secret,
    /// wiping any earlier one. Outside a development-mode challenge the answer carries the local
    /// report and must be attested over its hash with the configured provider (IAS unless DCAP
    /// is configured).
    pub fn handover_accept_challenge(
        &mut self,
        challenge: HandoverChallenge,
        ecdh_secret: Vec<u8>,
        ecdh_pubkey: Vec<u8>,
        sgx_local_report: Vec<u8>,
    ) -> (r: AcceptedChallenge)
        ensures
            r.handler.challenge@ == challenge@,
            r.handler.ecdh_pubkey@ == ecdh_pubkey@,
            r.handler.sgx_local_report@ == if challenge.dev_mode {
                Seq::<u8>::empty()
            } else {
                sgx_local_report@
            },
            challenge.dev_mode ==> r.attest is None,
            !challenge.dev_mode ==> (r.attest matches Some((p, h)) && h@ == blake2_256_of(handler_bytes(r.handler))
                && p == if old(self).args.ra_type == Some(AttestationProvider::Dcap) {
                AttestationProvider::Dcap
            } else {
                AttestationProvider::Ias
            }),
            final(self).handover_ecdh_key matches Some(k) && k@ == ecdh_secret@,
            *final(self) == (Pflix { handover_ecdh_key: final(self).handover_ecdh_key, ..*old(self) }),
    {
        match &mut self.handover_ecdh_key {
            Some(k) => wipe(k),
            None => {},
        }
        self.handover_ecdh_key = Some(ecdh_secret);
        let dev_mode = challenge.dev_mode;
        let local_report = if dev_mode {
            Vec::new()
        } else {
            sgx_local_report
        };
        let handler = ChallengeHandlerInfo { challenge, sgx_local_report: local_report, ecdh_pubkey };
        let attest = if dev_mode {
            None
        } else {
            let provider = match self.args.ra_type {
                Some(AttestationProvider::Dcap) => AttestationProvider::Dcap,
                _ => AttestationProvider::Ias,
            };
            let bytes = encode_handler(&handler);
            Some((provider, blake2_256(bytes.as_slice())))
        };
        AcceptedChallenge { handler, attest }
    }

    /// Key handover client: checks a received worker key. Outside development mode it must come
    /// with a server attestation bound to it and fresh at `now_secs`. Returns the ephemeral
    /// secret to decrypt it with.
    pub fn handover_receive(
        &self,
        key: &EncryptedWorkerKey,
        attestation: Option<AttestationReport>,
        now_secs: u64,
    ) -> (r: Result<Vec<u8>, PflixServiceError>)
        ensures
            r is Ok <==> (key.dev_mode || (attestation matches Some(a) && validation_outcome(
                a.payload_hash@,
                a.timestamp,
                blake2_256_of(worker_key_bytes(*key)),
                now_secs,
            ) is Ok)) && self.handover_ecdh_key is Some,
            r matches Ok(k) ==> k@ == self.handover_ecdh_key.unwrap()@,
            !key.dev_mode ==> match attestation {
                None => r == Err::<Vec<u8>, PflixServiceError>(
                    PflixServiceError::Protocol(ProtocolError::MissingAttestation),
                ),
                Some(a) => match validation_outcome(
                    a.payload_hash@,
                    a.timestamp,
                    blake2_256_of(worker_key_bytes(*key)),
                    now_secs,
                ) {
                    Err(e) => r == Err::<Vec<u8>, PflixServiceError>(PflixServiceError::Protocol(e)),
                    Ok(_) => true,
                },
            },
            (key.dev_mode || (attestation matches Some(a) && validation_outcome(
                a.payload_hash@,
                a.timestamp,
                blake2_256_of(worker_key_bytes(*key)),
                now_secs,
            ) is Ok)) && self.handover_ecdh_key is None ==> r == Err::<Vec<u8>, PflixServiceError>(
                PflixServiceError::Protocol(ProtocolError::NoHandoverKey),
            ),
    {
        if !key.dev_mode {
            let hash = worker_key_hash(key);
            match &attestation {
                None => {
                    return Err(PflixServiceError::Protocol(ProtocolError::MissingAttestation));
                },
                Some(report) => match validate_attestation_report(report, hash.as_slice(), now_secs) {
                    Ok(()) => {},
                    Err(e) => {
                        return Err(PflixServiceError::Protocol(e));
                    },
                },
            }
        }
        match &self.handover_ecdh_key {
            Some(k) => Ok(copy_bytes(k.as_slice())),
            None => Err(PflixServiceError::Protocol(ProtocolError::NoHandoverKey)),
        }
    }

    /// Key handover client: gives up a handover, wiping the ephemeral key-agreement secret.
    pub fn handover_abandon(&mut self)
        ensures
            final(self).handover_ecdh_key is None,
            *final(self) == (Pflix { handover_ecdh_key: None, ..*old(self) }),
    {
        match &mut self.handover_ecdh_key {
            Some(k) => wipe(k),
            None => {},
        }
        self.handover_ecdh_key = None;
    }

    /// Key handover client: adopts the decrypted worker key as its identity, marked as not
    /// generated here, then wipes the ephemeral secret and drops the cached registration response
    /// so that nothing of this exchange can be replayed.
    pub fn handover_adopt_key(&mut self, identity: WorkerIdentity, dev_mode: bool)
        requires
            old(self).wf(),
        ensures
            final(self).wf(),
            final(self).identity == Some(identity),
            !final(self).trusted_sk,
            final(self).dev_mode == dev_mode,
            final(self).handover_ecdh_key is None,
            final(self).runtime_info is None,
            final(self).runtime_state == old(self).runtime_state,
            final(self).handover_last_challenge == old(self).handover_last_challenge,
    {
        self.identity = Some(identity);
        self.trusted_sk = false;
        self.dev_mode = dev_mode;
        match &mut self.handover_ecdh_key {
            Some(k) => wipe(k),
            None => {},
        }
        self.handover_ecdh_key = None;
        self.runtime_info = None;
    }
}

/// Key handover server: the encrypted worker key to send, and the hash that its attestation
/// must bind.
pub fn seal_worker_key(grant: &HandoverGrant, encrypted_key: EncryptedKey) -> (r: (EncryptedWorkerKey, Vec<u8>))
    ensures
        r.0.genesis_block_hash@ == grant.genesis_block_hash@,
        r.0.dev_mode == grant.dev_mode,
        r.0.encrypted_key == encrypted_key,
        r.1@ == blake2_256_of(worker_key_bytes(r.0)),
{
    let key = EncryptedWorkerKey {
        genesis_block_hash: copy_bytes(grant.genesis_block_hash.as_slice()),
        dev_mode: grant.dev_mode,
        encrypted_key,
    };
    let hash = worker_key_hash(&key);
    (key, hash)
}

} // verus!
