//! Light-client header tracking and block application.
use vstd::prelude::*;
use crate::codec::{blake2_256, blake2_256_of, copy_bytes, bytes_eq, encode_bytes, le_bytes, scale_bytes_of, u32_le};
use crate::storage::{ChainStorage, changes_applied};

verus! {

broadcast use crate::codec::lemma_bytes_deep_view;

pub type BlockNumber = u32;

/// A block header: its number, its parent's hash and the storage root after the block.
pub struct Header {
    pub number: BlockNumber,
    pub parent_hash: Vec<u8>,
    pub state_root: Vec<u8>,
}

impl Header {
    pub open spec fn view(&self) -> (nat, Seq<u8>, Seq<u8>) {
        (self.number as nat, self.parent_hash@, self.state_root@)
    }
}

/// A finalized header with the id of the authority set whose justification covers it.
pub struct HeaderToSync {
    pub header: Header,
    pub justification_set_id: u64,
}

/// A header as the contracts see it: (number, parent hash, state root, justifying set id).
pub open spec fn header_to_sync_view(h: HeaderToSync) -> (nat, Seq<u8>, Seq<u8>, u64) {
    (h.header.number as nat, h.header.parent_hash@, h.header.state_root@, h.justification_set_id)
}

pub open spec fn headers_view(hs: Seq<HeaderToSync>) -> Seq<(nat, Seq<u8>, Seq<u8>, u64)> {
    hs.map_values(|h: HeaderToSync| header_to_sync_view(h))
}

/// A new authority set taking over after the last header of a batch.
pub struct AuthoritySetChange {
    pub set_id: u64,
    pub authorities: Vec<Vec<u8>>,
}

/// A block's header with the storage changes it makes.
pub struct BlockHeaderWithChanges {
    pub block_header: Header,
    pub storage_changes: Vec<(Vec<u8>, Option<Vec<u8>>)>,
}

/// The genesis block's header and its authority set.
pub struct GenesisBlockInfo {
    pub block_header: Header,
    pub authority_set: AuthoritySetChange,
}

#[derive(Debug, PartialEq, Eq, Structural)]
pub enum SyncError {
    /// A header batch held no header.
    EmptyHeaders,
    /// A header does not follow the last synced one (number or parent hash).
    UnexpectedHeader,
    /// A header's justification comes from an authority set other than the current one.
    UnknownAuthoritySet,
    /// An authority set change does not name the set that follows the current one.
    BadAuthoritySetChange,
    /// A block is not the next one to apply.
    UnexpectedBlock,
    /// A block's header was not synced.
    HeaderNotSynced,
    /// The storage root after a block differs from the one its header declares.
    StateRootMismatch,
    /// A block to assume lies outside the synced, not yet applied headers.
    CannotAssume,
}

/// The hash of a header: blake2-256 over the SCALE-encoded parent hash, the number as four
/// little-endian bytes and the SCALE-encoded state root.
pub open spec fn header_hash(number: nat, parent_hash: Seq<u8>, state_root: Seq<u8>) -> Seq<u8> {
    blake2_256_of(scale_bytes_of(parent_hash) + le_bytes(number, 4) + scale_bytes_of(state_root))
}

/// What the synchroniser tracks of the header chain.
pub struct HeaderChain {
    pub next_header: nat,
    pub last_hash: Seq<u8>,
    pub set_id: u64,
    /// Hashes of the synced headers whose blocks are not yet applied, lowest first.
    pub pending: Seq<Seq<u8>>,
}

/// One header accepted onto the chain: it must carry the next number and the last hash as
/// its parent, and be justified by the current authority set.
pub open spec fn header_step(c: HeaderChain, h: (nat, Seq<u8>, Seq<u8>, u64)) -> Result<HeaderChain, SyncError> {
    if h.0 != c.next_header || h.1 != c.last_hash {
        Err(SyncError::UnexpectedHeader)
    } else if h.3 != c.set_id {
        Err(SyncError::UnknownAuthoritySet)
    } else {
        let hash = header_hash(h.0, h.1, h.2);
        Ok(HeaderChain { next_header: c.next_header + 1, last_hash: hash, pending: c.pending.push(hash), ..c })
    }
}

/// The headers accepted one after another, stopping at the first refused.
pub open spec fn headers_step(c: HeaderChain, hs: Seq<(nat, Seq<u8>, Seq<u8>, u64)>) -> Result<HeaderChain, SyncError>
    decreases hs.len(),
{
    if hs.len() == 0 {
        Ok(c)
    } else {
        match headers_step(c, hs.drop_last()) {
            Ok(c1) => header_step(c1, hs.last()),
            Err(e) => Err(e),
        }
    }
}

/// Accepting a concatenation is accepting the first part, then the second.
pub proof fn lemma_headers_step_append(
    c: HeaderChain,
    a: Seq<(nat, Seq<u8>, Seq<u8>, u64)>,
    b: Seq<(nat, Seq<u8>, Seq<u8>, u64)>,
)
    ensures
        headers_step(c, a + b) == match headers_step(c, a) {
            Ok(c1) => headers_step(c1, b),
            Err(e) => Err(e),
        },
    decreases b.len(),
{
    if b.len() == 0 {
        assert(a + b =~= a);
    } else {
        lemma_headers_step_append(c, a, b.drop_last());
        assert((a + b).drop_last() =~= a + b.drop_last());
        assert((a + b).last() == b.last());
    }
}

/// Storage synchroniser: the header chain, the authority set and the block counter.
pub struct StorageSynchronizer {
    next_header_number: u64,
    last_header_hash: Vec<u8>,
    authority_set_id: u64,
    authorities: Vec<Vec<u8>>,
    pending_hashes: Vec<Vec<u8>>,
    next_block_number: u64,
    state_validated: bool,
}

/// The header numbers and block counters of the synchroniser.
pub struct Counters {
    pub next_header_number: u64,
    pub next_block_number: u64,
}

impl StorageSynchronizer {
    pub closed spec fn chain(self) -> HeaderChain {
        HeaderChain {
            next_header: self.next_header_number as nat,
            last_hash: self.last_header_hash@,
            set_id: self.authority_set_id,
            pending: self.pending_hashes.deep_view(),
        }
    }

    pub closed spec fn authorities_spec(self) -> Seq<Seq<u8>> {
        self.authorities.deep_view()
    }

    pub closed spec fn next_block(self) -> nat {
        self.next_block_number as nat
    }

    pub closed spec fn validated(self) -> bool {
        self.state_validated
    }

    /// Blocks never outrun headers; the pending hashes are those of the headers from the next
    /// block up to the last synced header.
    pub open spec fn wf(self) -> bool {
        &&& 1 <= self.next_block() <= self.chain().next_header
        &&& self.chain().pending.len() == self.chain().next_header - self.next_block()
        &&& self.chain().next_header <= u32::MAX as nat + 1
    }

    /// A synchroniser at genesis: the genesis header is synced and its block applied.
    pub fn new(genesis: &GenesisBlockInfo) -> (r: StorageSynchronizer)
        ensures
            r.wf(),
            r.chain() == (HeaderChain {
                next_header: (genesis.block_header.number + 1) as nat,
                last_hash: header_hash(
                    genesis.block_header.number as nat,
                    genesis.block_header.parent_hash@,
                    genesis.block_header.state_root@,
                ),
                set_id: genesis.authority_set.set_id,
                pending: Seq::empty(),
            }),
            r.authorities_spec() == genesis.authority_set.authorities.deep_view(),
            r.next_block() == genesis.block_header.number + 1,
            !r.validated(),
    {
        let hash = hash_header(&genesis.block_header);
        let next = genesis.block_header.number as u64 + 1;
        let r = StorageSynchronizer {
            next_header_number: next,
            last_header_hash: hash,
            authority_set_id: genesis.authority_set.set_id,
            authorities: copy_authorities(&genesis.authority_set.authorities),
            pending_hashes: Vec::new(),
            next_block_number: next,
            state_validated: false,
        };
        assert(r.pending_hashes.deep_view() =~= Seq::<Seq<u8>>::empty());
        r
    }

    pub fn counters(&self) -> (r: Counters)
        ensures
            r.next_header_number == self.chain().next_header,
            r.next_block_number == self.next_block(),
    {
        Counters { next_header_number: self.next_header_number, next_block_number: self.next_block_number }
    }

    pub fn state_validated(&self) -> (r: bool)
        ensures
            r == self.validated(),
    {
        self.state_validated
    }

    /// Accepts a batch of finalized headers, then the authority set change, if any. Returns
    /// the number of the last header. On error nothing changes.
    pub fn sync_header(
        &mut self,
        headers: Vec<HeaderToSync>,
        authority_set_change: Option<AuthoritySetChange>,
    ) -> (r: Result<BlockNumber, SyncError>)
        requires
            old(self).wf(),
        ensures
            final(self).wf(),
            final(self).next_block() == old(self).next_block(),
            final(self).validated() == old(self).validated(),
            r is Ok <==> sync_outcome(old(self).chain(), headers_view(headers@), authority_set_change) is Ok,
            r matches Err(e) ==> sync_outcome(old(self).chain(), headers_view(headers@), authority_set_change)
                == Err::<(HeaderChain, Option<Seq<Seq<u8>>>), SyncError>(e),
            r is Ok ==> ({
                let (c, set) = sync_outcome(old(self).chain(), headers_view(headers@), authority_set_change)->Ok_0;
                &&& final(self).chain() == c
                &&& r.unwrap() as nat == headers@.last().header.number
                &&& final(self).authorities_spec() == match set {
                    Some(a) => a,
                    None => old(self).authorities_spec(),
                }
            }),
            r is Err ==> *final(self) == *old(self),
    {
        let ghost hv = headers_view(headers@);
        if headers.len() == 0 {
            return Err(SyncError::EmptyHeaders);
        }
        let mut next = self.next_header_number;
        let mut last_hash = copy_bytes(self.last_header_hash.as_slice());
        let mut new_hashes: Vec<Vec<u8>> = Vec::new();
        let mut i: usize = 0;
        let ghost c0 = self.chain();
        while i < headers.len()
            invariant
                old(self).wf(),
                *self == *old(self),
                c0 == self.chain(),
                hv == headers_view(headers@),
                0 < headers@.len(),
                i <= headers@.len(),
                headers_step(c0, hv.subrange(0, i as int)) == Ok::<HeaderChain, SyncError>(HeaderChain {
                    next_header: next as nat,
                    last_hash: last_hash@,
                    set_id: c0.set_id,
                    pending: c0.pending + new_hashes.deep_view(),
                }),
                next as nat == c0.next_header + i,
            decreases headers@.len() - i,
        {
            let h = &headers[i];
            assert(hv.subrange(0, i + 1).drop_last() =~= hv.subrange(0, i as int));
            assert(hv[i as int] == header_to_sync_view(headers@[i as int]));
            if h.header.number as u64 != next {
                proof {
                    lemma_headers_step_err(c0, hv, i as int + 1);
                }
                return Err(SyncError::UnexpectedHeader);
            }
            if !bytes_eq(h.header.parent_hash.as_slice(), last_hash.as_slice()) {
                proof {
                    lemma_headers_step_err(c0, hv, i as int + 1);
                }
                return Err(SyncError::UnexpectedHeader);
            }
            if h.justification_set_id != self.authority_set_id {
                proof {
                    lemma_headers_step_err(c0, hv, i as int + 1);
                }
                return Err(SyncError::UnknownAuthoritySet);
            }
            let hash = hash_header(&h.header);
            let ghost before = new_hashes.deep_view();
            new_hashes.push(copy_bytes(hash.as_slice()));
            assert(new_hashes.deep_view() =~= before.push(hash@));
            assert(c0.pending + new_hashes.deep_view() =~= (c0.pending + before).push(hash@));
            last_hash = hash;
            next = next + 1;
            i += 1;
        }
        assert(hv.subrange(0, hv.len() as int) =~= hv);
        let ghost chain_after = headers_step(c0, hv)->Ok_0;
        let mut new_set: Option<Vec<Vec<u8>>> = None;
        match &authority_set_change {
            Some(change) => {
                if self.authority_set_id == u64::MAX || change.set_id != self.authority_set_id + 1 {
                    return Err(SyncError::BadAuthoritySetChange);
                }
                new_set = Some(copy_authorities(&change.authorities));
            },
            None => {},
        }
        let last_number = headers[headers.len() - 1].header.number;
        assert(hv.last() == header_to_sync_view(headers@.last()));
        proof {
            lemma_headers_step_numbers(c0, hv);
        }
        self.next_header_number = next;
        self.last_header_hash = last_hash;
        self.pending_hashes.append(&mut new_hashes);
        match authority_set_change {
            Some(change) => {
                self.authority_set_id = change.set_id;
            },
            None => {},
        }
        match new_set {
            Some(a) => {
                self.authorities = a;
            },
            None => {},
        }
        assert(self.chain().pending =~= chain_after.pending);
        Ok(last_number)
    }

    /// Applies the next block's storage changes to `storage`. Unless `drop_proofs`, the root
    /// after the changes must be the one the block's header declares; on any error neither the
    /// synchroniser nor the storage changes.
    pub fn feed_block(
        &mut self,
        block: &BlockHeaderWithChanges,
        storage: &mut ChainStorage,
        drop_proofs: bool,
    ) -> (r: Result<(), SyncError>)
        requires
            old(self).wf(),
            old(storage).wf(),
        ensures
            final(self).wf(),
            final(storage).wf(),
            r == feed_outcome(
                old(self).next_block(),
                old(self).chain().pending,
                old(storage)@,
                block.block_header@,
                block.storage_changes.deep_view(),
                drop_proofs,
            ),
            r is Ok ==> {
                &&& final(storage)@ == changes_applied(old(storage)@, block.storage_changes.deep_view())
                &&& final(storage).proofs() == old(storage).proofs()
                &&& final(self).next_block() == old(self).next_block() + 1
                &&& final(self).chain() == (HeaderChain { pending: old(self).chain().pending.drop_first(), ..old(self).chain() })
                &&& final(self).authorities_spec() == old(self).authorities_spec()
                &&& final(self).validated()
            },
            r is Err ==> *final(self) == *old(self) && *final(storage) == *old(storage),
    {
        if block.block_header.number as u64 != self.next_block_number {
            return Err(SyncError::UnexpectedBlock);
        }
        if self.pending_hashes.len() == 0 {
            return Err(SyncError::HeaderNotSynced);
        }
        let hash = hash_header(&block.block_header);
        if !bytes_eq(hash.as_slice(), self.pending_hashes[0].as_slice()) {
            return Err(SyncError::HeaderNotSynced);
        }
        let mut updated = storage.duplicate();
        updated.apply_changes(&block.storage_changes);
        if !drop_proofs {
            let root = updated.root();
            proof {
                ChainStorage::lemma_root_of_map(updated);
            }
            if !bytes_eq(root.as_slice(), block.block_header.state_root.as_slice()) {
                return Err(SyncError::StateRootMismatch);
            }
        }
        *storage = updated;
        let ghost p = self.pending_hashes.deep_view();
        self.pending_hashes.remove(0);
        assert(self.pending_hashes.deep_view() =~= p.drop_first());
        self.next_block_number = self.next_block_number + 1;
        self.state_validated = true;
        Ok(())
    }

    /// Takes blocks up to `block` as applied without checking them, for storage loaded from
    /// elsewhere. Fails unless `block` lies between the last applied block and the last synced
    /// header.
    pub fn assume_at_block(&mut self, block: BlockNumber) -> (r: Result<(), SyncError>)
        requires
            old(self).wf(),
        ensures
            final(self).wf(),
            r is Ok <==> old(self).next_block() <= block as nat + 1 <= old(self).chain().next_header,
            r is Err ==> r == Err::<(), SyncError>(SyncError::CannotAssume),
            r is Ok ==> {
                &&& final(self).next_block() == block as nat + 1
                &&& final(self).chain() == (HeaderChain {
                    pending: old(self).chain().pending.subrange(
                        block as nat + 1 - old(self).next_block(),
                        old(self).chain().pending.len() as int,
                    ),
                    ..old(self).chain()
                })
                &&& final(self).authorities_spec() == old(self).authorities_spec()
                &&& !final(self).validated()
            },
            r is Err ==> *final(self) == *old(self),
    {
        let target = block as u64 + 1;
        if target < self.next_block_number || target > self.next_header_number {
            return Err(SyncError::CannotAssume);
        }
        let skip = (target - self.next_block_number) as usize;
        let ghost p = self.pending_hashes.deep_view();
        let mut kept: Vec<Vec<u8>> = Vec::new();
        let mut i: usize = skip;
        while i < self.pending_hashes.len()
            invariant
                p == self.pending_hashes.deep_view(),
                skip <= i <= p.len(),
                kept@.len() == i - skip,
                kept.deep_view() == p.subrange(skip as int, i as int),
            decreases p.len() - i,
        {
            let ghost before = kept.deep_view();
            kept.push(copy_bytes(self.pending_hashes[i].as_slice()));
            assert(kept@[i - skip].deep_view() == p[i as int]);
            assert(kept.deep_view() =~= p.subrange(skip as int, i + 1));
            i += 1;
        }
        self.pending_hashes = kept;
        self.next_block_number = target;
        self.state_validated = false;
        Ok(())
    }
}

/// The header chain and the new authority set, if any, after a batch and an optional change;
/// an empty batch, a refused header or a change that does not name the next set fails.
pub open spec fn sync_outcome(
    c: HeaderChain,
    hs: Seq<(nat, Seq<u8>, Seq<u8>, u64)>,
    change: Option<AuthoritySetChange>,
) -> Result<(HeaderChain, Option<Seq<Seq<u8>>>), SyncError> {
    if hs.len() == 0 {
        Err(SyncError::EmptyHeaders)
    } else {
        match headers_step(c, hs) {
            Err(e) => Err(e),
            Ok(c1) => match change {
                None => Ok((c1, None)),
                Some(ch) => if c1.set_id < u64::MAX && ch.set_id == c1.set_id + 1 {
                    Ok((HeaderChain { set_id: ch.set_id, ..c1 }, Some(ch.authorities.deep_view())))
                } else {
                    Err(SyncError::BadAuthoritySetChange)
                },
            },
        }
    }
}

/// Syncing a batch in two non-empty parts, the authority set change going with the second,
/// ends in the same header chain and authority set as syncing it whole, and reports the same
/// last header.
pub proof fn lemma_sync_in_two_chunks(
    c: HeaderChain,
    a: Seq<(nat, Seq<u8>, Seq<u8>, u64)>,
    b: Seq<(nat, Seq<u8>, Seq<u8>, u64)>,
    change: Option<AuthoritySetChange>,
)
    requires
        a.len() > 0,
        b.len() > 0,
    ensures
        sync_outcome(c, a + b, change) == match sync_outcome(c, a, None) {
            Ok((c1, _)) => sync_outcome(c1, b, change),
            Err(e) => Err(e),
        },
        (a + b).last() == b.last(),
{
    lemma_headers_step_append(c, a, b);
    assert((a + b).last() == b.last());
}

/// What feeding one block gives.
pub open spec fn feed_outcome(
    next_block: nat,
    pending: Seq<Seq<u8>>,
    m: Map<Seq<u8>, Seq<u8>>,
    h: (nat, Seq<u8>, Seq<u8>),
    changes: Seq<(Seq<u8>, Option<Seq<u8>>)>,
    drop_proofs: bool,
) -> Result<(), SyncError> {
    if h.0 != next_block {
        Err(SyncError::UnexpectedBlock)
    } else if pending.len() == 0 || header_hash(h.0, h.1, h.2) != pending[0] {
        Err(SyncError::HeaderNotSynced)
    } else if !drop_proofs && crate::storage::root_of_map(changes_applied(m, changes)) != h.2 {
        Err(SyncError::StateRootMismatch)
    } else {
        Ok(())
    }
}

proof fn lemma_headers_step_err(c: HeaderChain, hv: Seq<(nat, Seq<u8>, Seq<u8>, u64)>, n: int)
    requires
        0 < n <= hv.len(),
        headers_step(c, hv.subrange(0, n)) is Err,
    ensures
        headers_step(c, hv) == headers_step(c, hv.subrange(0, n)),
{
    lemma_headers_step_append(c, hv.subrange(0, n), hv.subrange(n, hv.len() as int));
    assert(hv.subrange(0, n) + hv.subrange(n, hv.len() as int) =~= hv);
}

/// After an accepted batch the next header number is one past the last header's number.
proof fn lemma_headers_step_numbers(c: HeaderChain, hv: Seq<(nat, Seq<u8>, Seq<u8>, u64)>)
    requires
        hv.len() > 0,
        headers_step(c, hv) is Ok,
    ensures
        headers_step(c, hv)->Ok_0.next_header == hv.last().0 + 1,
        headers_step(c, hv)->Ok_0.next_header == c.next_header + hv.len(),
        headers_step(c, hv)->Ok_0.set_id == c.set_id,
        headers_step(c, hv)->Ok_0.pending.len() == c.pending.len() + hv.len(),
    decreases hv.len(),
{
    reveal_with_fuel(headers_step, 2);
    if hv.len() > 1 {
        lemma_headers_step_numbers(c, hv.drop_last());
    } else {
        assert(hv.drop_last().len() == 0);
    }
}

/// Hashes a header as `header_hash` says.
pub fn hash_header(h: &Header) -> (r: Vec<u8>)
    ensures
        r@ == header_hash(h.number as nat, h.parent_hash@, h.state_root@),
        r@.len() == 32,
{
    let mut data = encode_bytes(&h.parent_hash);
    let mut n = u32_le(h.number);
    let mut root = encode_bytes(&h.state_root);
    let ghost a = data@;
    let ghost b = n@;
    let ghost c = root@;
    data.append(&mut n);
    data.append(&mut root);
    assert(data@ =~= a + b + c);
    blake2_256(data.as_slice())
}

fn copy_authorities(a: &Vec<Vec<u8>>) -> (r: Vec<Vec<u8>>)
    ensures
        r.deep_view() == a.deep_view(),
{
    let mut r: Vec<Vec<u8>> = Vec::new();
    let mut i: usize = 0;
    while i < a.len()
        invariant
            i <= a@.len(),
            r@.len() == i,
            r.deep_view() == a.deep_view().subrange(0, i as int),
        decreases a@.len() - i,
    {
        r.push(copy_bytes(a[i].as_slice()));
        assert(r@[i as int].deep_view() == a.deep_view()[i as int]);
        assert(r.deep_view() =~= a.deep_view().subrange(0, i + 1));
        i += 1;
    }
    assert(a.deep_view().subrange(0, a@.len() as int) =~= a.deep_view());
    r
}

} // verus!
