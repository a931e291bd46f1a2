use pflix::codec::{blake2_256, to_hex};
use pflix::storage::ChainStorage;
use pflix::sync::{
    hash_header, AuthoritySetChange, GenesisBlockInfo, Header, HeaderToSync, StorageSynchronizer,
    SyncError,
};

fn genesis(root: Vec<u8>) -> GenesisBlockInfo {
    GenesisBlockInfo {
        block_header: Header { number: 0, parent_hash: vec![0u8; 32], state_root: root },
        authority_set: AuthoritySetChange { set_id: 0, authorities: vec![vec![1u8; 32]] },
    }
}

fn chain_of(parent: Vec<u8>, from: u32, n: u32, set_id: u64) -> Vec<HeaderToSync> {
    let mut out = Vec::new();
    let mut parent = parent;
    for number in from..from + n {
        let header = Header { number, parent_hash: parent.clone(), state_root: vec![number as u8; 32] };
        parent = hash_header(&header);
        out.push(HeaderToSync { header, justification_set_id: set_id });
    }
    out
}

#[test]
fn storage_set_get_remove() {
    let mut s = ChainStorage::new();
    s.set(b"b".to_vec(), b"2".to_vec());
    s.set(b"a".to_vec(), b"1".to_vec());
    s.set(b"c".to_vec(), b"3".to_vec());
    s.set(b"b".to_vec(), b"22".to_vec());
    assert_eq!(s.get(b"a").unwrap(), &b"1".to_vec());
    assert_eq!(s.get(b"b").unwrap(), &b"22".to_vec());
    s.remove(b"a");
    assert!(s.get(b"a").is_none());
    s.remove(b"zz");
    assert_eq!(s.get(b"c").unwrap(), &b"3".to_vec());
}

#[test]
fn storage_root_depends_on_content_only() {
    let a = ChainStorage::from_pairs(vec![
        (b"k1".to_vec(), b"v1".to_vec()),
        (b"k2".to_vec(), b"v2".to_vec()),
    ]);
    let mut b = ChainStorage::new();
    b.set(b"k2".to_vec(), b"v2".to_vec());
    b.set(b"k9".to_vec(), b"x".to_vec());
    b.set(b"k1".to_vec(), b"v1".to_vec());
    b.remove(b"k9");
    assert_eq!(a.root(), b.root());
    assert_eq!(a.root().len(), 32);
    // the root is blake2-256 of the SCALE-encoded sorted pairs
    let pairs = vec![(b"k1".to_vec(), b"v1".to_vec()), (b"k2".to_vec(), b"v2".to_vec())];
    let encoded = parity_scale_codec::Encode::encode(&pairs);
    assert_eq!(a.root(), blake2_256(&encoded));
    let c = ChainStorage::from_pairs(vec![(b"k1".to_vec(), b"other".to_vec())]);
    assert_ne!(a.root(), c.root());
}

#[test]
fn storage_later_pair_wins() {
    let s = ChainStorage::from_pairs(vec![
        (b"k".to_vec(), b"first".to_vec()),
        (b"k".to_vec(), b"second".to_vec()),
    ]);
    assert_eq!(s.get(b"k").unwrap(), &b"second".to_vec());
}

#[test]
fn storage_well_known_values() {
    let mut s = ChainStorage::new();
    assert_eq!(s.timestamp_now(), 0);
    s.set(b":time".to_vec(), 1_700_000_000_123u64.to_le_bytes().to_vec());
    assert_eq!(s.timestamp_now(), 1_700_000_000_123);
    s.set(b":time".to_vec(), vec![1, 2, 3]);
    assert_eq!(s.timestamp_now(), 0);
    let mut key = b":bin:".to_vec();
    key.extend_from_slice(&[7u8; 32]);
    s.set(key, 42u64.to_le_bytes().to_vec());
    assert_eq!(s.get_pflix_bin_added_at(&[7u8; 32]), Some(42));
    assert_eq!(s.get_pflix_bin_added_at(&[8u8; 32]), None);
    let mut wk = b":wk:".to_vec();
    wk.extend_from_slice(&[5u8; 32]);
    s.set(wk, vec![]);
    assert!(s.is_worker_registered(&[5u8; 32]));
    assert!(!s.is_worker_registered(&[6u8; 32]));
}

#[test]
fn hex_is_lower_case_two_digits_per_byte() {
    assert_eq!(to_hex(&[0x00, 0xab, 0x0f, 0xff]), "00ab0fff");
    assert_eq!(to_hex(&[]), "");
}

#[test]
fn sync_header_accepts_a_contiguous_batch() {
    let g = genesis(vec![9u8; 32]);
    let mut s = StorageSynchronizer::new(&g);
    let batch = chain_of(hash_header(&g.block_header), 1, 5, 0);
    assert_eq!(s.sync_header(batch, None), Ok(5));
    assert_eq!(s.counters().next_header_number, 6);
    assert_eq!(s.counters().next_block_number, 1);
}

#[test]
fn sync_header_in_two_chunks_matches_one_batch() {
    let g = genesis(vec![9u8; 32]);
    let all = chain_of(hash_header(&g.block_header), 1, 6, 0);
    let change = || Some(AuthoritySetChange { set_id: 1, authorities: vec![vec![2u8; 32]] });

    let mut whole = StorageSynchronizer::new(&g);
    assert_eq!(whole.sync_header(chain_of(hash_header(&g.block_header), 1, 6, 0), change()), Ok(6));

    let mut split = StorageSynchronizer::new(&g);
    let mut first = all;
    let second = first.split_off(2);
    assert_eq!(split.sync_header(first, None), Ok(2));
    assert_eq!(split.sync_header(second, change()), Ok(6));

    assert_eq!(whole.counters().next_header_number, split.counters().next_header_number);
    // both now follow set 1: a header justified by set 0 is refused by both
    let next_parent = {
        let h = chain_of(hash_header(&g.block_header), 1, 6, 0);
        hash_header(&h[5].header)
    };
    let stale = chain_of(next_parent.clone(), 7, 1, 0);
    assert_eq!(whole.sync_header(stale, None), Err(SyncError::UnknownAuthoritySet));
    let stale = chain_of(next_parent.clone(), 7, 1, 0);
    assert_eq!(split.sync_header(stale, None), Err(SyncError::UnknownAuthoritySet));
    assert_eq!(whole.sync_header(chain_of(next_parent.clone(), 7, 1, 1), None), Ok(7));
    assert_eq!(split.sync_header(chain_of(next_parent, 7, 1, 1), None), Ok(7));
}

#[test]
fn sync_header_rejects_and_keeps_state() {
    let g = genesis(vec![9u8; 32]);
    let mut s = StorageSynchronizer::new(&g);
    assert_eq!(s.sync_header(vec![], None), Err(SyncError::EmptyHeaders));
    // a gap in the numbers
    let gap = chain_of(hash_header(&g.block_header), 2, 1, 0);
    assert_eq!(s.sync_header(gap, None), Err(SyncError::UnexpectedHeader));
    // a wrong parent
    let wrong = chain_of(vec![1u8; 32], 1, 1, 0);
    assert_eq!(s.sync_header(wrong, None), Err(SyncError::UnexpectedHeader));
    // an unknown authority set
    let unknown = chain_of(hash_header(&g.block_header), 1, 2, 3);
    assert_eq!(s.sync_header(unknown, None), Err(SyncError::UnknownAuthoritySet));
    // a change that skips a set id
    let batch = chain_of(hash_header(&g.block_header), 1, 1, 0);
    let skip = Some(AuthoritySetChange { set_id: 5, authorities: vec![] });
    assert_eq!(s.sync_header(batch, skip), Err(SyncError::BadAuthoritySetChange));
    assert_eq!(s.counters().next_header_number, 1);
    // the state is unchanged, so the right batch still goes through
    let batch = chain_of(hash_header(&g.block_header), 1, 1, 0);
    assert_eq!(s.sync_header(batch, None), Ok(1));
}

#[test]
fn assume_at_block_bounds() {
    let g = genesis(vec![9u8; 32]);
    let mut s = StorageSynchronizer::new(&g);
    s.sync_header(chain_of(hash_header(&g.block_header), 1, 4, 0), None).unwrap();
    assert_eq!(s.assume_at_block(5), Err(SyncError::CannotAssume));
    assert_eq!(s.assume_at_block(3), Ok(()));
    assert_eq!(s.counters().next_block_number, 4);
    assert!(!s.state_validated());
    assert_eq!(s.assume_at_block(1), Err(SyncError::CannotAssume));
}
