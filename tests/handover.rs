use pflix::attestation::{
    retry_after_failure, validate_attestation_report, AttestationProvider, AttestationReport,
    RetryStep,
};
use pflix::codec::blake2_256;
use pflix::error::{PflixServiceError, ProtocolError};
use pflix::handover::{
    encode_handler, seal_worker_key, worker_key_hash, ChallengeHandlerInfo, EncryptedKey,
    EncryptedWorkerKey,
};
use pflix::pflix::{Pflix, PflixArgs, WorkerIdentity};
use pflix::storage::ChainStorage;
use pflix::sync::{hash_header, AuthoritySetChange, GenesisBlockInfo, Header, HeaderToSync};

const NOW_MS: u64 = 1_700_000_000_000;
const SERVER: [u8; 32] = [0x11; 32];
const CLIENT: [u8; 32] = [0x22; 32];

fn args() -> PflixArgs {
    PflixArgs {
        safe_mode_level: 0,
        enable_checkpoint: false,
        checkpoint_interval: 0,
        ra_timeout_secs: 8,
        ra_max_retries: 3,
        ra_type: Some(AttestationProvider::Dcap),
    }
}

fn bin_key(m: &[u8]) -> Vec<u8> {
    let mut k = b":bin:".to_vec();
    k.extend_from_slice(m);
    k
}

fn pairs(server_at: u64, client_at: u64) -> Vec<(Vec<u8>, Vec<u8>)> {
    vec![
        (b":time".to_vec(), NOW_MS.to_le_bytes().to_vec()),
        (bin_key(&SERVER), server_at.to_le_bytes().to_vec()),
        (bin_key(&CLIENT), client_at.to_le_bytes().to_vec()),
    ]
}

/// A runtime attesting with IAS, with `n` headers synced and the state loaded at block `at`.
fn server(server_at: u64, client_at: u64, n: u32, at: u32) -> Pflix<()> {
    let ps = pairs(server_at, client_at);
    let root = ChainStorage::from_pairs(ps.clone()).root();
    let g = GenesisBlockInfo {
        block_header: Header { number: 0, parent_hash: vec![0u8; 32], state_root: root },
        authority_set: AuthoritySetChange { set_id: 0, authorities: vec![] },
    };
    let mut parent = hash_header(&g.block_header);
    let identity = WorkerIdentity { public_key: vec![5u8; 32], ecdh_public_key: vec![6u8; 32], secret_key: vec![7u8; 32] };
    let mut p = Pflix::new((), args(), vec![]);
    p.init_runtime(g, ps.clone(), None, None, identity, Some(AttestationProvider::Ias), 1, 1).unwrap();
    if n > 0 {
        let mut headers = Vec::new();
        for number in 1..=n {
            let header = Header { number, parent_hash: parent.clone(), state_root: vec![] };
            parent = hash_header(&header);
            headers.push(HeaderToSync { header, justification_set_id: 0 });
        }
        p.sync_header(headers, None).unwrap();
        p.load_chain_state(at, ps).unwrap();
    }
    p
}

fn answer(p: &mut Pflix<()>) -> ChallengeHandlerInfo {
    let challenge = p.handover_create_challenge(vec![3u8; 16]).unwrap();
    ChallengeHandlerInfo { challenge, sgx_local_report: vec![4u8; 8], ecdh_pubkey: vec![9u8; 32] }
}

fn report_for(h: &ChallengeHandlerInfo) -> AttestationReport {
    AttestationReport {
        provider: AttestationProvider::Ias,
        payload_hash: blake2_256(&encode_handler(h)),
        timestamp: NOW_MS / 1000,
        measurement_hash: CLIENT.to_vec(),
    }
}

#[test]
fn handover_grants_the_key_to_a_newer_build() {
    let mut p = server(100, 200, 0, 0);
    let h = answer(&mut p);
    assert_eq!(h.challenge.sgx_target_info, vec![3u8; 16]);
    assert_eq!(h.challenge.nonce.len(), 32);
    let grant = p.handover_start(&h, Some(report_for(&h)), true, &SERVER).unwrap();
    assert_eq!(grant.secret_key, vec![7u8; 32]);
    assert_eq!(grant.client_ecdh_pubkey, vec![9u8; 32]);
    assert!(grant.attest);
    assert!(!grant.dev_mode);
    assert_eq!(grant.genesis_block_hash, p.runtime_state.as_ref().unwrap().genesis_block_hash);
}

#[test]
fn handover_refuses_a_replayed_challenge() {
    let mut p = server(100, 200, 0, 0);
    let h = answer(&mut p);
    assert!(p.handover_start(&h, Some(report_for(&h)), true, &SERVER).is_ok());
    assert_eq!(
        p.handover_start(&h, Some(report_for(&h)), true, &SERVER).err(),
        Some(PflixServiceError::Protocol(ProtocolError::Replay))
    );
}

#[test]
fn challenge_is_single_use() {
    let mut p = server(100, 200, 0, 0);
    let c = p.get_worker_key_challenge(3, 4, vec![]);
    assert!(p.verify_worker_key_challenge(&c));
    assert!(!p.verify_worker_key_challenge(&c));
    // a new challenge replaces the one before
    let c1 = p.get_worker_key_challenge(3, 4, vec![]);
    let c2 = p.get_worker_key_challenge(3, 4, vec![]);
    assert!(p.verify_worker_key_challenge(&c2));
    assert!(!p.verify_worker_key_challenge(&c1));
}

#[test]
fn handover_refuses_rollback_and_same_build() {
    for (s, c) in [(200u64, 100u64), (150, 150)] {
        let mut p = server(s, c, 0, 0);
        let h = answer(&mut p);
        assert_eq!(
            p.handover_start(&h, Some(report_for(&h)), true, &SERVER).err(),
            Some(PflixServiceError::Protocol(ProtocolError::Rollback))
        );
    }
}

#[test]
fn handover_refuses_builds_unknown_on_chain() {
    let mut p = server(100, 200, 0, 0);
    let h = answer(&mut p);
    assert_eq!(
        p.handover_start(&h, Some(report_for(&h)), true, &[0x33; 32]).err(),
        Some(PflixServiceError::Protocol(ProtocolError::NotAllowedOnChain))
    );
}

#[test]
fn handover_refuses_an_old_challenge() {
    // current block 200; a challenge from block 49 is 151 blocks old
    let mut p = server(100, 200, 200, 200);
    assert_eq!(p.current_block().unwrap().0, 200);
    let challenge = p.get_worker_key_challenge(49, NOW_MS, vec![]);
    let h = ChallengeHandlerInfo { challenge, sgx_local_report: vec![], ecdh_pubkey: vec![9u8; 32] };
    assert_eq!(
        p.handover_start(&h, Some(report_for(&h)), true, &SERVER).err(),
        Some(PflixServiceError::Protocol(ProtocolError::OutdatedChallenge))
    );
    // 150 blocks old is still accepted
    let challenge = p.get_worker_key_challenge(50, NOW_MS, vec![]);
    let h = ChallengeHandlerInfo { challenge, sgx_local_report: vec![], ecdh_pubkey: vec![9u8; 32] };
    assert!(p.handover_start(&h, Some(report_for(&h)), true, &SERVER).is_ok());
    // a challenge from a later block is refused too
    let challenge = p.get_worker_key_challenge(201, NOW_MS, vec![]);
    let h = ChallengeHandlerInfo { challenge, sgx_local_report: vec![], ecdh_pubkey: vec![9u8; 32] };
    assert_eq!(
        p.handover_start(&h, Some(report_for(&h)), true, &SERVER).err(),
        Some(PflixServiceError::Protocol(ProtocolError::OutdatedChallenge))
    );
}

#[test]
fn handover_refuses_a_report_over_other_bytes() {
    let mut p = server(100, 200, 0, 0);
    let h = answer(&mut p);
    let mut report = report_for(&h);
    report.payload_hash[0] ^= 1;
    assert_eq!(
        p.handover_start(&h, Some(report), true, &SERVER).err(),
        Some(PflixServiceError::Protocol(ProtocolError::HashMismatch))
    );
    // the challenge was not used up by the failed attempt
    assert!(p.handover_start(&h, Some(report_for(&h)), true, &SERVER).is_ok());
}

#[test]
fn handover_needs_attestation_and_the_same_machine() {
    let mut p = server(100, 200, 0, 0);
    let h = answer(&mut p);
    assert_eq!(
        p.handover_start(&h, None, true, &SERVER).err(),
        Some(PflixServiceError::Protocol(ProtocolError::MissingAttestation))
    );
    assert_eq!(
        p.handover_start(&h, Some(report_for(&h)), false, &SERVER).err(),
        Some(PflixServiceError::Protocol(ProtocolError::WrongMachine))
    );
}

#[test]
fn handover_in_development_mode_skips_attestation() {
    let mut p = server(200, 100, 0, 0);
    p.dev_mode = true;
    let h = answer(&mut p);
    assert!(h.challenge.sgx_target_info.is_empty());
    let grant = p.handover_start(&h, None, false, &[]).unwrap();
    assert!(!grant.attest);
    assert!(grant.dev_mode);
}

#[test]
fn handover_client_side() {
    let mut client: Pflix<()> = Pflix::new((), args(), vec![]);
    let mut srv = server(100, 200, 0, 0);
    let challenge = srv.handover_create_challenge(vec![3u8; 16]).unwrap();
    let accepted = client.handover_accept_challenge(challenge, vec![0xEE; 32], vec![9u8; 32], vec![4u8; 8]);
    assert_eq!(accepted.handler.sgx_local_report, vec![4u8; 8]);
    let (provider, hash) = accepted.attest.unwrap();
    assert_eq!(provider, AttestationProvider::Dcap);
    assert_eq!(hash, blake2_256(&encode_handler(&accepted.handler)));
    assert_eq!(client.handover_ecdh_key, Some(vec![0xEE; 32]));

    let grant = srv.handover_start(&accepted.handler, Some(report_for(&accepted.handler)), true, &SERVER).unwrap();
    let (key, key_hash) = seal_worker_key(&grant, EncryptedKey { ecdh_pubkey: vec![1; 32], encrypted_key: vec![2; 48], iv: vec![3; 12] });
    assert_eq!(key_hash, worker_key_hash(&key));
    let now = NOW_MS / 1000;
    let server_report = AttestationReport {
        provider: AttestationProvider::Ias,
        payload_hash: key_hash.clone(),
        timestamp: now,
        measurement_hash: SERVER.to_vec(),
    };
    assert_eq!(client.handover_receive(&key, None, now), Err(PflixServiceError::Protocol(ProtocolError::MissingAttestation)));
    let stale = AttestationReport { timestamp: now - 36001, ..server_report.clone_report() };
    assert_eq!(client.handover_receive(&key, Some(stale), now), Err(PflixServiceError::Protocol(ProtocolError::StaleReport)));
    assert_eq!(client.handover_receive(&key, Some(server_report.clone_report()), now), Ok(vec![0xEE; 32]));

    client.handover_adopt_key(WorkerIdentity { public_key: vec![1], ecdh_public_key: vec![2], secret_key: vec![7u8; 32] }, false);
    assert!(client.handover_ecdh_key.is_none());
    assert!(client.runtime_info.is_none());
    assert!(!client.trusted_sk);
    assert_eq!(client.handover_receive(&key, Some(server_report), now), Err(PflixServiceError::Protocol(ProtocolError::NoHandoverKey)));
}

trait CloneReport {
    fn clone_report(&self) -> AttestationReport;
}

impl CloneReport for AttestationReport {
    fn clone_report(&self) -> AttestationReport {
        AttestationReport {
            provider: self.provider,
            payload_hash: self.payload_hash.clone(),
            timestamp: self.timestamp,
            measurement_hash: self.measurement_hash.clone(),
        }
    }
}

#[test]
fn development_mode_key_needs_no_attestation() {
    let mut client: Pflix<()> = Pflix::new((), args(), vec![]);
    let key = EncryptedWorkerKey {
        genesis_block_hash: vec![0; 32],
        dev_mode: true,
        encrypted_key: EncryptedKey { ecdh_pubkey: vec![], encrypted_key: vec![], iv: vec![] },
    };
    assert_eq!(client.handover_receive(&key, None, 0), Err(PflixServiceError::Protocol(ProtocolError::NoHandoverKey)));
    let mut challenge_source = server(100, 200, 0, 0);
    let mut c = challenge_source.handover_create_challenge(vec![]).unwrap();
    c.dev_mode = true;
    let accepted = client.handover_accept_challenge(c, vec![1], vec![2], vec![3]);
    assert!(accepted.attest.is_none());
    assert!(accepted.handler.sgx_local_report.is_empty());
    assert_eq!(client.handover_receive(&key, None, 0), Ok(vec![1]));
}

#[test]
fn report_validation() {
    let r = AttestationReport { provider: AttestationProvider::Dcap, payload_hash: vec![1; 32], timestamp: 1000, measurement_hash: vec![] };
    assert_eq!(validate_attestation_report(&r, &[1; 32], 1000), Ok(()));
    assert_eq!(validate_attestation_report(&r, &[1; 32], 1000 + 36000), Ok(()));
    assert_eq!(validate_attestation_report(&r, &[1; 32], 1000 + 36001), Err(ProtocolError::StaleReport));
    assert_eq!(validate_attestation_report(&r, &[1; 32], 999), Err(ProtocolError::StaleReport));
    assert_eq!(validate_attestation_report(&r, &[2; 32], 1000), Err(ProtocolError::HashMismatch));
}

#[test]
fn retry_back_off() {
    assert_eq!(retry_after_failure(0, 5), RetryStep::Retry { sleep_secs: 1 });
    assert_eq!(retry_after_failure(1, 5), RetryStep::Retry { sleep_secs: 2 });
    assert_eq!(retry_after_failure(2, 5), RetryStep::Retry { sleep_secs: 4 });
    assert_eq!(retry_after_failure(3, 5), RetryStep::Retry { sleep_secs: 8 });
    assert_eq!(retry_after_failure(4, 5), RetryStep::Retry { sleep_secs: 8 });
    assert_eq!(retry_after_failure(5, 5), RetryStep::GiveUp);
    assert_eq!(retry_after_failure(0, 0), RetryStep::GiveUp);
}

#[test]
fn abandoning_a_handover_wipes_the_ephemeral_key() {
    let mut client: Pflix<()> = Pflix::new((), args(), vec![]);
    let mut srv = server(100, 200, 0, 0);
    let challenge = srv.handover_create_challenge(vec![]).unwrap();
    client.handover_accept_challenge(challenge, vec![0xEE; 32], vec![9u8; 32], vec![]);
    assert!(client.handover_ecdh_key.is_some());
    client.handover_abandon();
    assert!(client.handover_ecdh_key.is_none());
}

#[test]
fn handler_bytes_keep_fixed_arrays_unprefixed() {
    let mut p = server(100, 200, 0, 0);
    let h = answer(&mut p);
    let bytes = encode_handler(&h);
    // target info (16, prefixed), block, time, flag, nonce (32), report (8, prefixed), key (32)
    assert_eq!(bytes.len(), (1 + 16) + 4 + 8 + 1 + 32 + (1 + 8) + 32);
    assert_eq!(&bytes[bytes.len() - 32..], &[9u8; 32]);
}
