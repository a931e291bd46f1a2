use pflix::attestation::{new_attestation, AttestationProvider};
use pflix::endpoint::EndpointInfo;
use pflix::codec::blake2_256;
use pflix::error::PflixServiceError;
use pflix::pflix::{Pflix, PflixArgs, RuntimeInfoStep, WorkerIdentity};
use pflix::service::{PflixSafeBox, RpcService};
use pflix::error::PflixLockError;
use pflix::storage::ChainStorage;
use pflix::sync::{
    hash_header, AuthoritySetChange, BlockHeaderWithChanges, GenesisBlockInfo, Header,
    HeaderToSync, SyncError,
};

fn args(level: u8) -> PflixArgs {
    PflixArgs {
        safe_mode_level: level,
        enable_checkpoint: true,
        checkpoint_interval: 10,
        ra_timeout_secs: 8,
        ra_max_retries: 3,
        ra_type: None,
    }
}

fn identity() -> WorkerIdentity {
    WorkerIdentity { public_key: vec![5u8; 32], ecdh_public_key: vec![6u8; 32], secret_key: vec![7u8; 32] }
}

fn genesis_pairs() -> Vec<(Vec<u8>, Vec<u8>)> {
    vec![
        (b":time".to_vec(), 1_000_000u64.to_le_bytes().to_vec()),
        (b"balance".to_vec(), vec![1, 2, 3]),
    ]
}

fn genesis_for(pairs: &[(Vec<u8>, Vec<u8>)]) -> GenesisBlockInfo {
    let root = ChainStorage::from_pairs(pairs.to_vec()).root();
    GenesisBlockInfo {
        block_header: Header { number: 0, parent_hash: vec![0u8; 32], state_root: root },
        authority_set: AuthoritySetChange { set_id: 0, authorities: vec![vec![1u8; 32]] },
    }
}

fn started(level: u8) -> (Pflix<()>, GenesisBlockInfo) {
    let mut p = Pflix::new((), args(level), b"machine".to_vec());
    let g = genesis_for(&genesis_pairs());
    let g2 = genesis_for(&genesis_pairs());
    p.init_runtime(g, genesis_pairs(), None, None, identity(), None, 4, 2).unwrap();
    (p, g2)
}

fn mq_value(msgs: &[(&[u8], &[u8], &[u8])]) -> Vec<u8> {
    let v: Vec<(Vec<u8>, Vec<u8>, Vec<u8>)> =
        msgs.iter().map(|(s, d, p)| (s.to_vec(), d.to_vec(), p.to_vec())).collect();
    parity_scale_codec::Encode::encode(&v)
}

/// Syncs the header of a block making `changes` on top of `base`, and returns the block.
fn next_block(
    p: &mut Pflix<()>,
    base: &mut ChainStorage,
    parent: &[u8],
    number: u32,
    changes: Vec<(Vec<u8>, Option<Vec<u8>>)>,
) -> (BlockHeaderWithChanges, Vec<u8>) {
    base.apply_changes(&changes);
    let header = Header { number, parent_hash: parent.to_vec(), state_root: base.root() };
    let hash = hash_header(&header);
    let h2 = Header { number, parent_hash: parent.to_vec(), state_root: base.root() };
    assert_eq!(p.sync_header(vec![HeaderToSync { header: h2, justification_set_id: 0 }], None), Ok(number));
    (BlockHeaderWithChanges { block_header: header, storage_changes: changes }, hash)
}

#[test]
fn init_runtime_builds_the_runtime() {
    let (p, g) = started(0);
    let info = p.get_info();
    assert!(info.initialized);
    assert_eq!(info.headernum, 1);
    assert_eq!(info.blocknum, 1);
    assert_eq!(info.current_block_time, 1_000_000);
    assert_eq!(info.genesis_block_hash.unwrap().len(), 64);
    assert_eq!(info.state_root, pflix::codec::to_hex(&g.block_header.state_root));
    assert!(info.can_load_chain_state);
    let resp = p.runtime_info.as_ref().unwrap();
    assert_eq!(resp.runtime_info.features, vec![4, 2]);
    assert_eq!(resp.genesis_block_hash, hash_header(&g.block_header));
    assert!(resp.attestation.is_none());
    assert!(p.trusted_sk);
    assert!(!p.dev_mode);
}

#[test]
fn init_runtime_refuses_tampered_genesis_state() {
    let mut p = Pflix::new((), args(0), vec![]);
    let g = genesis_for(&genesis_pairs());
    let mut tampered = genesis_pairs();
    tampered[1].1 = vec![9, 9, 9];
    let r = p.init_runtime(g, tampered, None, None, identity(), None, 1, 1);
    assert!(matches!(r, Err(PflixServiceError::StateRootMismatch)));
    assert!(p.runtime_state.is_none());
    assert!(p.identity.is_none());
    assert!(p.runtime_info.is_none());
    assert!(!p.get_info().initialized);
}

#[test]
fn init_runtime_refuses_debug_key_with_attestation_and_a_second_init() {
    let mut p = Pflix::new((), args(0), vec![]);
    let r = p.init_runtime(
        genesis_for(&genesis_pairs()),
        genesis_pairs(),
        None,
        Some(vec![1u8; 32]),
        identity(),
        Some(AttestationProvider::Ias),
        1,
        1,
    );
    assert!(matches!(r, Err(PflixServiceError::DebugKeyWithAttestation)));
    let r = p.init_runtime(genesis_for(&genesis_pairs()), genesis_pairs(), None, Some(vec![1u8; 32]), identity(), None, 1, 1);
    assert!(r.is_ok());
    assert!(p.dev_mode);
    assert!(!p.trusted_sk);
    let r = p.init_runtime(genesis_for(&genesis_pairs()), genesis_pairs(), None, None, identity(), None, 1, 1);
    assert!(matches!(r, Err(PflixServiceError::AlreadyInitialized)));
}

#[test]
fn dispatch_applies_blocks_and_routes_messages() {
    let (mut p, g) = started(0);
    p.runtime_state.as_mut().unwrap().recv_mq.subscribe(b"topic/a".to_vec());
    let mut base = ChainStorage::from_pairs(genesis_pairs());
    let msgs = mq_value(&[(b"s1", b"topic/a", b"hello"), (b"s2", b"topic/b", b"lost")]);
    let (b1, _) = next_block(&mut p, &mut base, &hash_header(&g.block_header), 1, vec![
        (b":mq".to_vec(), Some(msgs)),
        (b"balance".to_vec(), None),
    ]);
    let out = p.dispatch_blocks(vec![b1], 100).unwrap();
    assert_eq!(out.synced_to, 1);
    assert!(out.checkpoint_due);
    let state = p.runtime_state.as_mut().unwrap();
    assert_eq!(state.dropped_messages, 1);
    assert!(state.chain_storage.get(b"balance").is_none());
    assert_eq!(state.chain_storage.root(), base.root());
    let inbox = state.recv_mq.take_inbox();
    assert_eq!(inbox.len(), 1);
    assert_eq!(inbox[0].payload, b"hello".to_vec());
    assert_eq!(inbox[0].sender, b"s1".to_vec());
    assert!(state.storage_synchronizer.state_validated());
}

#[test]
fn dispatch_skips_blocks_already_applied() {
    let (mut p, g) = started(0);
    let mut base = ChainStorage::from_pairs(genesis_pairs());
    let (b1, _) = next_block(&mut p, &mut base, &hash_header(&g.block_header), 1, vec![(b"x".to_vec(), Some(vec![1]))]);
    let again = BlockHeaderWithChanges {
        block_header: Header {
            number: 1,
            parent_hash: b1.block_header.parent_hash.clone(),
            state_root: b1.block_header.state_root.clone(),
        },
        storage_changes: vec![(b"x".to_vec(), Some(vec![2]))],
    };
    assert_eq!(p.dispatch_blocks(vec![b1], 5).unwrap().synced_to, 1);
    let root = p.runtime_state.as_ref().unwrap().chain_storage.root();
    let out = p.dispatch_blocks(vec![again], 50).unwrap();
    assert_eq!(out.synced_to, 1);
    assert!(!out.checkpoint_due);
    let state = p.runtime_state.as_ref().unwrap();
    assert_eq!(state.chain_storage.root(), root);
    assert_eq!(state.chain_storage.get(b"x").unwrap(), &vec![1u8]);
    assert_eq!(state.storage_synchronizer.counters().next_block_number, 2);
    // nothing new at all
    assert_eq!(p.dispatch_blocks(vec![], 50).unwrap().synced_to, 1);
}

#[test]
fn dispatch_refuses_a_wrong_state_root_and_unsynced_blocks() {
    let (mut p, g) = started(0);
    let mut base = ChainStorage::from_pairs(genesis_pairs());
    let (b1, _) = next_block(&mut p, &mut base, &hash_header(&g.block_header), 1, vec![(b"x".to_vec(), Some(vec![1]))]);
    let forged = BlockHeaderWithChanges {
        block_header: Header {
            number: 1,
            parent_hash: b1.block_header.parent_hash.clone(),
            state_root: b1.block_header.state_root.clone(),
        },
        storage_changes: vec![(b"x".to_vec(), Some(vec![2]))],
    };
    let r = p.dispatch_blocks(vec![forged], 5);
    assert!(matches!(r, Err(PflixServiceError::Sync(SyncError::StateRootMismatch))));
    assert!(p.runtime_state.as_ref().unwrap().chain_storage.get(b"x").is_none());
    let ahead = BlockHeaderWithChanges {
        block_header: Header { number: 2, parent_hash: vec![], state_root: vec![] },
        storage_changes: vec![],
    };
    assert!(matches!(p.dispatch_blocks(vec![ahead], 5), Err(PflixServiceError::Sync(SyncError::UnexpectedBlock))));
    assert_eq!(p.dispatch_blocks(vec![b1], 5).unwrap().synced_to, 1);
}

#[test]
fn safe_mode_two_skips_dispatch_and_checkpoints() {
    let (mut p, g) = started(2);
    p.runtime_state.as_mut().unwrap().recv_mq.subscribe(b"topic/a".to_vec());
    let mut base = ChainStorage::from_pairs(genesis_pairs());
    let msgs = mq_value(&[(b"s1", b"topic/a", b"hello")]);
    let (mut b1, _) = next_block(&mut p, &mut base, &hash_header(&g.block_header), 1, vec![(b":mq".to_vec(), Some(msgs))]);
    // proofs are dropped: a block whose changes do not give its root is still applied
    b1.storage_changes.push((b"extra".to_vec(), Some(vec![1])));
    let out = p.dispatch_blocks(vec![b1], 1000).unwrap();
    assert_eq!(out.synced_to, 1);
    assert!(!out.checkpoint_due);
    let state = p.runtime_state.as_mut().unwrap();
    assert_eq!(state.recv_mq.take_inbox().len(), 0);
    assert_eq!(state.dropped_messages, 0);
    assert!(state.chain_storage.get(b"extra").is_some());
    assert_eq!(p.load_storage_proof(vec![vec![1, 2, 3]]), Ok(()));
}

#[test]
fn storage_proofs_need_safe_mode_two() {
    for level in [0u8, 1u8] {
        let (mut p, _) = started(level);
        assert_eq!(p.load_storage_proof(vec![vec![1]]), Err(PflixServiceError::NotPermitted));
    }
    let mut p = Pflix::new((), args(2), vec![]);
    assert_eq!(p.load_storage_proof(vec![vec![1]]), Err(PflixServiceError::Uninitialized));
}

#[test]
fn checkpoint_gate_and_record() {
    let (mut p, _) = started(0);
    assert!(!p.maybe_take_checkpoint(9));
    assert!(p.maybe_take_checkpoint(10));
    assert_eq!(p.take_checkpoint(10), Ok(0));
    assert!(!p.maybe_take_checkpoint(19));
    assert!(p.maybe_take_checkpoint(20));
    p.args.enable_checkpoint = false;
    assert!(!p.maybe_take_checkpoint(1000));
}

#[test]
fn runtime_info_attestation_cache() {
    let (mut p, g) = started(0);
    // not validated by a block yet: no attestation is made
    match p.get_runtime_info(false, None, 1000).unwrap() {
        RuntimeInfoStep::Ready(r) => assert!(r.attestation.is_none()),
        _ => panic!("no attestation expected"),
    }
    let mut base = ChainStorage::from_pairs(genesis_pairs());
    let (b1, _) = next_block(&mut p, &mut base, &hash_header(&g.block_header), 1, vec![]);
    p.dispatch_blocks(vec![b1], 5).unwrap();
    let encoded = p.runtime_info.as_ref().unwrap().encoded_runtime_info.clone();
    match p.get_runtime_info(false, None, 1000).unwrap() {
        RuntimeInfoStep::NeedsAttestation { payload_hash } => assert_eq!(payload_hash, blake2_256(&encoded)),
        _ => panic!("an attestation is due"),
    }
    let resp = p.attach_runtime_attestation(new_attestation(None, vec![1, 2, 3], 1000)).unwrap();
    assert_eq!(resp.attestation.as_ref().unwrap().timestamp, 1000);
    // reused within the hour
    match p.get_runtime_info(false, None, 1000 + 3600).unwrap() {
        RuntimeInfoStep::Ready(r) => {
            let a = r.attestation.unwrap();
            assert_eq!(a.encoded_report, vec![1, 2, 3]);
            assert_eq!(a.timestamp, 1000);
            assert_eq!(a.version, 1);
        },
        _ => panic!("the cached attestation is fresh"),
    }
    // a forced refresh drops it
    assert!(matches!(p.get_runtime_info(true, None, 1001), Ok(RuntimeInfoStep::NeedsAttestation { .. })));
    p.attach_runtime_attestation(new_attestation(None, vec![4], 2000)).unwrap();
    // so does age
    assert!(matches!(p.get_runtime_info(false, None, 2000 + 3601), Ok(RuntimeInfoStep::NeedsAttestation { .. })));
    p.attach_runtime_attestation(new_attestation(None, vec![5], 3000)).unwrap();
    // and a new operator, which is recorded and re-encoded
    match p.get_runtime_info(false, Some(vec![8u8; 32]), 3001).unwrap() {
        RuntimeInfoStep::NeedsAttestation { payload_hash } => {
            let c = p.runtime_info.as_ref().unwrap();
            assert_eq!(c.runtime_info.operator, Some(vec![8u8; 32]));
            assert_ne!(c.encoded_runtime_info, encoded);
            assert_eq!(payload_hash, blake2_256(&c.encoded_runtime_info));
        },
        _ => panic!("an operator change drops the attestation"),
    }
}

#[test]
fn runtime_info_needs_a_runtime() {
    let mut p: Pflix<()> = Pflix::new((), args(0), vec![]);
    assert!(matches!(p.get_runtime_info(false, None, 1), Err(PflixServiceError::Uninitialized)));
}

#[test]
fn load_chain_state_rules() {
    let (mut p, g) = started(0);
    let mut parent = hash_header(&g.block_header);
    let mut headers = Vec::new();
    for n in 1..=10u32 {
        let header = Header { number: n, parent_hash: parent.clone(), state_root: vec![n as u8; 32] };
        parent = hash_header(&header);
        headers.push(HeaderToSync { header, justification_set_id: 0 });
    }
    p.sync_header(headers, None).unwrap();
    assert_eq!(p.load_chain_state(0, vec![]), Err(PflixServiceError::NotPermitted));
    let mut registered = b":wk:".to_vec();
    registered.extend_from_slice(&[5u8; 32]);
    assert_eq!(p.load_chain_state(5, vec![(registered, vec![])]), Err(PflixServiceError::NotPermitted));
    assert_eq!(p.load_chain_state(11, vec![]), Err(PflixServiceError::Sync(SyncError::CannotAssume)));
    assert_eq!(p.load_chain_state(5, vec![(b"k".to_vec(), b"v".to_vec())]), Ok(()));
    assert_eq!(p.genesis_block, 5);
    assert_eq!(p.current_block().unwrap().0, 5);
    assert_eq!(p.runtime_state.as_ref().unwrap().chain_storage.get(b"k").unwrap(), &b"v".to_vec());
}

#[test]
fn egress_queue_numbers_per_origin_and_purges() {
    let (mut p, g) = started(0);
    {
        let q = &mut p.runtime_state.as_mut().unwrap().send_mq;
        assert_eq!(q.push(b"a".to_vec(), b"m0".to_vec()), Some(0));
        assert_eq!(q.push(b"b".to_vec(), b"n0".to_vec()), Some(0));
        assert_eq!(q.push(b"a".to_vec(), b"m1".to_vec()), Some(1));
        assert_eq!(q.count_messages(), 3);
    }
    let all = p.get_egress_messages();
    assert_eq!(all[2], (b"a".to_vec(), 1, b"m1".to_vec()));
    // the chain has received the first message of `a`
    let mut base = ChainStorage::from_pairs(genesis_pairs());
    let (b1, _) = next_block(&mut p, &mut base, &hash_header(&g.block_header), 1, vec![(b":seq:a".to_vec(), Some(1u64.to_le_bytes().to_vec()))]);
    p.dispatch_blocks(vec![b1], 1).unwrap();
    let left = p.get_egress_messages();
    assert_eq!(left, vec![(b"b".to_vec(), 0, b"n0".to_vec()), (b"a".to_vec(), 1, b"m1".to_vec())]);
}

#[test]
fn guard_policy() {
    let mut s = RpcService::new_with(PflixSafeBox::new((), Some(args(1))));
    assert!(matches!(s.lock_pflix(false, false), Err(PflixLockError::SafeMode)));
    assert!(s.lock_pflix(false, true).is_ok());
    s.lock_pflix(true, true).unwrap().rcu_dispatching = true;
    assert!(matches!(s.lock_pflix(false, true), Err(PflixLockError::StatePending)));
    assert!(matches!(s.lock_pflix(false, false), Err(PflixLockError::SafeMode)));
    assert!(s.lock_pflix(true, true).is_ok());
    assert_eq!(s.load_storage_proof(vec![]), Err(PflixServiceError::PflixLock(PflixLockError::StatePending)));
    let mut plain = RpcService::new(());
    assert!(plain.lock_pflix(false, false).is_ok());
    assert!(!plain.get_info().initialized);
    assert_eq!(plain.load_storage_proof(vec![]), Err(PflixServiceError::NotPermitted));
}

#[test]
fn endpoint_payloads() {
    let (mut p, _) = started(0);
    assert!(matches!(p.get_endpoint_info(), Ok(EndpointInfo::NotSet)));
    let payload = p.set_endpoint(b"http://node:8000".to_vec()).unwrap();
    let mut expected = parity_scale_codec::Encode::encode(&vec![5u8; 32]);
    expected.push(1);
    expected.extend(parity_scale_codec::Encode::encode(&b"http://node:8000".to_vec()));
    expected.extend_from_slice(&1_000_000u64.to_le_bytes());
    assert_eq!(payload, expected);
    match p.get_endpoint_info().unwrap() {
        EndpointInfo::NeedsSigning { payload: again } => assert_eq!(again, expected),
        _ => panic!("not signed yet"),
    }
    p.record_signed_endpoint(expected.clone(), vec![0xAA; 64]);
    match p.get_endpoint_info().unwrap() {
        EndpointInfo::Signed { payload, signature } => {
            assert_eq!(payload, expected);
            assert_eq!(signature, vec![0xAA; 64]);
        },
        _ => panic!("signed"),
    }
    assert_eq!(p.set_endpoint(vec![b'x'; 600]), Err(PflixServiceError::PayloadTooLarge));
    assert!(p.signed_endpoint.is_none());
    let apply = p.get_master_key_apply().unwrap();
    assert_eq!(apply.len(), 33 + 33 + 8);
    assert_eq!(&apply[66..], &1_000_000u64.to_le_bytes());
}

#[test]
fn guard_modes_of_requests() {
    let mut safe = RpcService::new_with(PflixSafeBox::new((), Some(args(1))));
    let r = safe.init_runtime(genesis_for(&genesis_pairs()), genesis_pairs(), None, None, identity(), None, 1, 1);
    assert!(matches!(r, Err(PflixServiceError::PflixLock(PflixLockError::SafeMode))));
    assert!(matches!(safe.get_runtime_info(false, None, 0), Err(PflixServiceError::PflixLock(PflixLockError::SafeMode))));
    assert!(matches!(safe.get_egress_messages(), Err(PflixServiceError::PflixLock(PflixLockError::SafeMode))));
    assert!(matches!(safe.take_checkpoint(0), Err(PflixServiceError::PflixLock(PflixLockError::SafeMode))));
    // header sync, block dispatch and handover pass the guard in safe mode
    assert!(matches!(safe.sync_header(vec![], None), Err(PflixServiceError::Uninitialized)));
    assert!(matches!(safe.handover_create_challenge(vec![]), Err(PflixServiceError::Uninitialized)));

    let mut s = RpcService::new(());
    let r = s.init_runtime(genesis_for(&genesis_pairs()), genesis_pairs(), None, None, identity(), None, 1, 1);
    assert!(r.is_ok());
    assert_eq!(s.get_egress_messages().unwrap().len(), 0);
    assert_eq!(s.take_checkpoint(0), Ok(0));
    assert!(s.handover_create_challenge(vec![]).is_ok());
    assert_eq!(s.get_info().blocknum, 1);
    assert!(matches!(s.dispatch_blocks(vec![], 0), Ok(o) if o.synced_to == 0));
    assert_eq!(s.load_chain_state(0, vec![]), Err(PflixServiceError::NotPermitted));
}

#[test]
fn genesis_above_block_zero() {
    let mut p = Pflix::new((), args(0), vec![]);
    let root = ChainStorage::from_pairs(genesis_pairs()).root();
    let g = GenesisBlockInfo {
        block_header: Header { number: 5, parent_hash: vec![3u8; 32], state_root: root },
        authority_set: AuthoritySetChange { set_id: 0, authorities: vec![] },
    };
    let g_hash = hash_header(&g.block_header);
    let resp = p.init_runtime(g, genesis_pairs(), None, None, identity(), None, 1, 1).unwrap();
    assert_eq!(resp.genesis_block_hash, g_hash);
    assert_eq!(p.genesis_block, 5);
    assert_eq!(p.current_block().unwrap().0, 5);
    let header = Header { number: 6, parent_hash: g_hash, state_root: vec![] };
    assert_eq!(p.sync_header(vec![HeaderToSync { header, justification_set_id: 0 }], None), Ok(6));
}

#[test]
fn dispatch_keeps_blocks_before_a_failing_one() {
    let (mut p, g) = started(0);
    let mut base = ChainStorage::from_pairs(genesis_pairs());
    let (b1, h1) = next_block(&mut p, &mut base, &hash_header(&g.block_header), 1, vec![(b"a".to_vec(), Some(vec![1]))]);
    let (mut b2, _) = next_block(&mut p, &mut base, &h1, 2, vec![(b"b".to_vec(), Some(vec![2]))]);
    b2.storage_changes.push((b"c".to_vec(), Some(vec![3])));
    let r = p.dispatch_blocks(vec![b1, b2], 5);
    assert!(matches!(r, Err(PflixServiceError::Sync(SyncError::StateRootMismatch))));
    let state = p.runtime_state.as_ref().unwrap();
    assert_eq!(state.storage_synchronizer.counters().next_block_number, 2);
    assert_eq!(state.chain_storage.get(b"a").unwrap(), &vec![1u8]);
    assert!(state.chain_storage.get(b"b").is_none());
    assert!(state.chain_storage.get(b"c").is_none());
    assert_eq!(p.last_checkpoint_secs, 0);
}
