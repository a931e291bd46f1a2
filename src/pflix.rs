//! The worker runtime: its aggregate state, block dispatch, initialization and the cached
//! registration response.
use vstd::prelude::*;
use crate::attestation::{
    attestation_expired, cache_expired, Attestation, AttestationProvider,
};
use crate::codec::{blake2_256, blake2_256_of, copy_bytes, to_hex, hex_of};
use crate::error::PflixServiceError;
use crate::handover::HandoverChallenge;
use crate::mq::{claimed_messages, purged, unclaimed_count, MessageDispatcher, MessageSendQueue};
use crate::storage::{
    changes_applied, pairs_map, root_of_map, stored_ingress_sequence, stored_messages, stored_timestamp, worker_key,
    ChainStorage,
};
use crate::sync::{
    feed_outcome, header_hash, headers_view, sync_outcome, AuthoritySetChange,
    BlockHeaderWithChanges, BlockNumber, GenesisBlockInfo, HeaderToSync, StorageSynchronizer,
    SyncError,
};

verus! {

broadcast use crate::codec::lemma_bytes_deep_view;

/// The version of the registration format this runtime reports.
pub const COMPAT_APP_VERSION: u32 = 1;

/// Configuration of a runtime.
pub struct PflixArgs {
    /// 0: full block processing; 1 and up: storage only; 2 and up: block proofs are dropped and
    /// storage proofs may be loaded.
    pub safe_mode_level: u8,
    pub enable_checkpoint: bool,
    /// Seconds between two checkpoints.
    pub checkpoint_interval: u64,
    pub ra_timeout_secs: u64,
    pub ra_max_retries: u32,
    /// The attestation provider that a handover client reports with.
    pub ra_type: Option<AttestationProvider>,
}

/// The worker's long-term keys.
pub struct WorkerIdentity {
    pub public_key: Vec<u8>,
    pub ecdh_public_key: Vec<u8>,
    pub secret_key: Vec<u8>,
}

/// The live aggregate state.
pub struct RuntimeState {
    pub genesis_block_hash: Vec<u8>,
    pub chain_storage: ChainStorage,
    pub storage_synchronizer: StorageSynchronizer,
    pub send_mq: MessageSendQueue,
    pub recv_mq: MessageDispatcher,
    /// Inbound messages that no topic took, dropped so far.
    pub dropped_messages: u64,
}

impl RuntimeState {
    pub open spec fn wf(&self) -> bool {
        &&& self.chain_storage.wf()
        &&& self.storage_synchronizer.wf()
        &&& self.send_mq.wf()
    }
}

/// What a worker registers with on chain.
pub struct WorkerRegistrationInfo {
    pub version: u32,
    pub machine_id: Vec<u8>,
    pub pubkey: Vec<u8>,
    pub ecdh_pubkey: Vec<u8>,
    pub genesis_block_hash: Vec<u8>,
    pub features: Vec<u32>,
    pub operator: Option<Vec<u8>>,
}

/// The SCALE encoding of a registration record's fields, as a tuple in declaration order.
pub uninterp spec fn scale_registration_of(
    version: u32,
    machine_id: Seq<u8>,
    pubkey: Seq<u8>,
    ecdh_pubkey: Seq<u8>,
    genesis_block_hash: Seq<u8>,
    features: Seq<u32>,
    operator: Option<Seq<u8>>,
) -> Seq<u8>;

pub open spec fn registration_bytes(info: WorkerRegistrationInfo) -> Seq<u8> {
    scale_registration_of(
        info.version,
        info.machine_id@,
        info.pubkey@,
        info.ecdh_pubkey@,
        info.genesis_block_hash@,
        info.features@,
        info.operator.deep_view(),
    )
}

/// Relies on parity_scale_codec's `Encode` for the tuple of the record's fields.
#[verifier::external_body]
fn encode_registration(info: &WorkerRegistrationInfo) -> (r: Vec<u8>)
    ensures
        r@ == scale_registration_of(
            info.version,
            info.machine_id@,
            info.pubkey@,
            info.ecdh_pubkey@,
            info.genesis_block_hash@,
            info.features@,
            info.operator.deep_view(),
        ),
{
    parity_scale_codec::Encode::encode(
        &(
            info.version,
            &info.machine_id,
            &info.pubkey,
            &info.ecdh_pubkey,
            &info.genesis_block_hash,
            &info.features,
            &info.operator,
        ),
    )
}

/// The response to runtime initialization, cached for later registration requests.
pub struct InitRuntimeResponse {
    pub runtime_info: WorkerRegistrationInfo,
    pub encoded_runtime_info: Vec<u8>,
    pub genesis_block_hash: Vec<u8>,
    pub public_key: Vec<u8>,
    pub ecdh_public_key: Vec<u8>,
    pub attestation: Option<Attestation>,
}

pub open spec fn info_view(i: WorkerRegistrationInfo) -> (u32, Seq<u8>, Seq<u8>, Seq<u8>, Seq<u8>, Seq<u32>, Option<Seq<u8>>) {
    (i.version, i.machine_id@, i.pubkey@, i.ecdh_pubkey@, i.genesis_block_hash@, i.features@, i.operator.deep_view())
}

pub open spec fn attestation_view(a: Option<Attestation>) -> Option<(u32, Option<AttestationProvider>, Seq<u8>, u64)> {
    match a {
        Some(a) => Some((a.version, a.provider, a.encoded_report@, a.timestamp)),
        None => None,
    }
}

impl InitRuntimeResponse {
    /// Everything the response says, as plain values.
    pub open spec fn view(&self) -> (
        (u32, Seq<u8>, Seq<u8>, Seq<u8>, Seq<u8>, Seq<u32>, Option<Seq<u8>>),
        Seq<u8>,
        Seq<u8>,
        Seq<u8>,
        Seq<u8>,
        Option<(u32, Option<AttestationProvider>, Seq<u8>, u64)>,
    ) {
        (
            info_view(self.runtime_info),
            self.encoded_runtime_info@,
            self.genesis_block_hash@,
            self.public_key@,
            self.ecdh_public_key@,
            attestation_view(self.attestation),
        )
    }

    pub fn duplicate(&self) -> (r: InitRuntimeResponse)
        ensures
            r@ == self@,
    {
        let i = &self.runtime_info;
        let mut features: Vec<u32> = Vec::new();
        let mut k: usize = 0;
        while k < i.features.len()
            invariant
                k <= i.features@.len(),
                features@ == i.features@.subrange(0, k as int),
            decreases i.features@.len() - k,
        {
            features.push(i.features[k]);
            assert(features@ =~= i.features@.subrange(0, k + 1));
            k += 1;
        }
        assert(i.features@.subrange(0, k as int) =~= i.features@);
        let operator = match &i.operator {
            Some(o) => Some(copy_bytes(o.as_slice())),
            None => None,
        };
        let attestation = match &self.attestation {
            Some(a) => Some(
                Attestation {
                    version: a.version,
                    provider: a.provider,
                    encoded_report: copy_bytes(a.encoded_report.as_slice()),
                    timestamp: a.timestamp,
                },
            ),
            None => None,
        };
        InitRuntimeResponse {
            runtime_info: WorkerRegistrationInfo {
                version: i.version,
                machine_id: copy_bytes(i.machine_id.as_slice()),
                pubkey: copy_bytes(i.pubkey.as_slice()),
                ecdh_pubkey: copy_bytes(i.ecdh_pubkey.as_slice()),
                genesis_block_hash: copy_bytes(i.genesis_block_hash.as_slice()),
                features,
                operator,
            },
            encoded_runtime_info: copy_bytes(self.encoded_runtime_info.as_slice()),
            genesis_block_hash: copy_bytes(self.genesis_block_hash.as_slice()),
            public_key: copy_bytes(self.public_key.as_slice()),
            ecdh_public_key: copy_bytes(self.ecdh_public_key.as_slice()),
            attestation,
        }
    }
}

/// The worker runtime.
pub struct Pflix<Platform> {
    pub platform: Platform,
    pub args: PflixArgs,
    pub dev_mode: bool,
    /// The identity key was generated inside this enclave (not injected).
    pub trusted_sk: bool,
    pub attestation_provider: Option<AttestationProvider>,
    pub machine_id: Vec<u8>,
    pub identity: Option<WorkerIdentity>,
    pub runtime_state: Option<RuntimeState>,
    pub runtime_info: Option<InitRuntimeResponse>,
    /// The block at which the runtime's chain state starts.
    pub genesis_block: BlockNumber,
    /// Secret of the ephemeral key-agreement key held by a handover client.
    pub handover_ecdh_key: Option<Vec<u8>>,
    /// The challenge a handover server issued last and that was not yet checked.
    pub handover_last_challenge: Option<HandoverChallenge>,
    /// When the last checkpoint was taken, in seconds.
    pub last_checkpoint_secs: u64,
    /// A state-replacing operation is in progress.
    pub rcu_dispatching: bool,
    /// The node's network address, as set by its operator.
    pub endpoint: Option<Vec<u8>>,
    /// The last signed endpoint payload and its signature.
    pub signed_endpoint: Option<(Vec<u8>, Vec<u8>)>,
}

/// A block as the contracts see it: (number, parent hash, state root, storage changes).
pub open spec fn block_view(b: BlockHeaderWithChanges) -> (nat, Seq<u8>, Seq<u8>, Seq<(Seq<u8>, Option<Seq<u8>>)>) {
    (b.block_header.number as nat, b.block_header.parent_hash@, b.block_header.state_root@, b.storage_changes.deep_view())
}

pub open spec fn blocks_view(bs: Seq<BlockHeaderWithChanges>) -> Seq<(nat, Seq<u8>, Seq<u8>, Seq<(Seq<u8>, Option<Seq<u8>>)>)> {
    bs.map_values(|b: BlockHeaderWithChanges| block_view(b))
}

/// The blocks numbered `next` or above, in order.
pub open spec fn blocks_from(
    bs: Seq<(nat, Seq<u8>, Seq<u8>, Seq<(Seq<u8>, Option<Seq<u8>>)>)>,
    next: nat,
) -> Seq<(nat, Seq<u8>, Seq<u8>, Seq<(Seq<u8>, Option<Seq<u8>>)>)>
    decreases bs.len(),
{
    if bs.len() == 0 {
        bs
    } else if bs.last().0 >= next {
        blocks_from(bs.drop_last(), next).push(bs.last())
    } else {
        blocks_from(bs.drop_last(), next)
    }
}

/// What block application tracks: the next block, the pending header hashes, the storage, the
/// delivered inbound messages and the queued outbound ones.
pub struct ApplyState {
    pub next_block: nat,
    pub pending: Seq<Seq<u8>>,
    pub storage: Map<Seq<u8>, Seq<u8>>,
    pub inbox: Seq<(Seq<u8>, Seq<u8>, Seq<u8>)>,
    pub queued: Seq<(Seq<u8>, u64, Seq<u8>)>,
    /// Inbound messages dropped so far, counting up to `u64::MAX`.
    pub dropped: u64,
}

/// `a + b`, or `u64::MAX` where that does not fit.
pub open spec fn saturating_add(a: u64, b: nat) -> u64 {
    if a + b > u64::MAX {
        u64::MAX
    } else {
        (a + b) as u64
    }
}

/// One block applied: fed to the synchroniser, then, when `dispatch`, the messages it stores
/// routed to the topics (those no topic takes counted as dropped) and the outbound messages
/// the chain has received dropped.
pub open spec fn apply_block(
    s: ApplyState,
    b: (nat, Seq<u8>, Seq<u8>, Seq<(Seq<u8>, Option<Seq<u8>>)>),
    drop_proofs: bool,
    dispatch: bool,
    topics: Seq<Seq<u8>>,
    origins: Seq<Seq<u8>>,
) -> Result<ApplyState, SyncError> {
    match feed_outcome(s.next_block, s.pending, s.storage, (b.0, b.1, b.2), b.3, drop_proofs) {
        Err(e) => Err(e),
        Ok(_) => {
            let m = changes_applied(s.storage, b.3);
            Ok(
                ApplyState {
                    next_block: s.next_block + 1,
                    pending: s.pending.drop_first(),
                    storage: m,
                    inbox: if dispatch {
                        s.inbox + claimed_messages(topics, stored_messages(m))
                    } else {
                        s.inbox
                    },
                    queued: if dispatch {
                        purge_all(s.queued, origins, m)
                    } else {
                        s.queued
                    },
                    dropped: if dispatch {
                        saturating_add(s.dropped, unclaimed_count(topics, stored_messages(m)))
                    } else {
                        s.dropped
                    },
                },
            )
        },
    }
}

/// The outbound messages left once, for each origin in turn, those below the sequence number
/// the storage records for it are dropped.
pub open spec fn purge_all(
    q: Seq<(Seq<u8>, u64, Seq<u8>)>,
    origins: Seq<Seq<u8>>,
    m: Map<Seq<u8>, Seq<u8>>,
) -> Seq<(Seq<u8>, u64, Seq<u8>)>
    decreases origins.len(),
{
    if origins.len() == 0 {
        q
    } else {
        purged(purge_all(q, origins.drop_last(), m), origins.last(), stored_ingress_sequence(m, origins.last()))
    }
}

/// Blocks applied in order, stopping at the first error.
pub open spec fn apply_blocks(
    s: ApplyState,
    bs: Seq<(nat, Seq<u8>, Seq<u8>, Seq<(Seq<u8>, Option<Seq<u8>>)>)>,
    drop_proofs: bool,
    dispatch: bool,
    topics: Seq<Seq<u8>>,
    origins: Seq<Seq<u8>>,
) -> Result<ApplyState, SyncError>
    decreases bs.len(),
{
    if bs.len() == 0 {
        Ok(s)
    } else {
        match apply_blocks(s, bs.drop_last(), drop_proofs, dispatch, topics, origins) {
            Ok(s1) => apply_block(s1, bs.last(), drop_proofs, dispatch, topics, origins),
            Err(e) => Err(e),
        }
    }
}

/// Blocks applied in order up to the first that fails: the state after the last that applied.
pub open spec fn apply_until(
    s: ApplyState,
    bs: Seq<(nat, Seq<u8>, Seq<u8>, Seq<(Seq<u8>, Option<Seq<u8>>)>)>,
    drop_proofs: bool,
    dispatch: bool,
    topics: Seq<Seq<u8>>,
    origins: Seq<Seq<u8>>,
) -> ApplyState
    decreases bs.len(),
{
    if bs.len() == 0 {
        s
    } else {
        match apply_blocks(s, bs.drop_last(), drop_proofs, dispatch, topics, origins) {
            Ok(s1) => match apply_block(s1, bs.last(), drop_proofs, dispatch, topics, origins) {
                Ok(s2) => s2,
                Err(_) => s1,
            },
            Err(_) => apply_until(s, bs.drop_last(), drop_proofs, dispatch, topics, origins),
        }
    }
}

/// The result of dispatching blocks.
pub struct DispatchOutcome {
    /// The last block applied, or the one before the next where none was new.
    pub synced_to: BlockNumber,
    /// A checkpoint is due.
    pub checkpoint_due: bool,
}

/// What `get_runtime_info` hands back: the cached response, or the hash that a fresh
/// attestation must bind before it can be attached.
pub enum RuntimeInfoStep {
    Ready(InitRuntimeResponse),
    NeedsAttestation { payload_hash: Vec<u8> },
}

/// What dispatching `blocks` at `now` does to a runtime `p0`, ending in `p1` with `r`: the
/// blocks not applied yet are applied in order up to the first that fails, which is reported;
/// nothing outside the runtime state changes.
pub open spec fn dispatch_post<P>(
    p0: Pflix<P>,
    p1: Pflix<P>,
    blocks: Seq<BlockHeaderWithChanges>,
    now: u64,
    r: Result<DispatchOutcome, PflixServiceError>,
) -> bool {
    if p0.runtime_state is None {
        r == Err::<DispatchOutcome, PflixServiceError>(PflixServiceError::Uninitialized) && p1 == p0
    } else {
        let next = p0.state().storage_synchronizer.next_block();
        let todo = blocks_from(blocks_view(blocks), next);
        let dispatch = p0.args.safe_mode_level == 0;
        let drop_proofs = p0.args.safe_mode_level > 1;
        let topics = p0.state().recv_mq.topics_spec();
        let origins = p0.state().send_mq.origins_spec();
        let out = apply_blocks(p0.apply_start(), todo, drop_proofs, dispatch, topics, origins);
        &&& (r is Ok <==> out is Ok)
        &&& (r matches Err(e) ==> e == PflixServiceError::Sync(out->Err_0))
        &&& p1.runtime_state is Some
        &&& p1 == (Pflix { runtime_state: p1.runtime_state, ..p0 })
        &&& p1.apply_start() == apply_until(p0.apply_start(), todo, drop_proofs, dispatch, topics, origins)
        &&& p1.state().genesis_block_hash == p0.state().genesis_block_hash
        &&& p1.state().recv_mq.topics_spec() == topics
        &&& p1.state().send_mq.origins_spec() == origins
        &&& (!dispatch ==> p1.state().send_mq == p0.state().send_mq && p1.state().recv_mq == p0.state().recv_mq)
        &&& (r matches Ok(o) ==> {
            &&& p1.apply_start() == out->Ok_0
            &&& o.synced_to as nat == if todo.len() == 0 {
                (next - 1) as nat
            } else {
                todo.last().0
            }
            &&& o.checkpoint_due == (dispatch && todo.len() > 0 && p0.checkpoint_gate(now))
        })
        &&& (todo.len() == 0 ==> p1 == p0)
    }
}

/// What initializing a runtime `p0` does, ending in `p1` with `r`: it fails, changing nothing,
/// where the runtime runs already, where a debug key comes with an attestation provider, or
/// where the genesis storage does not have the root the genesis header declares; else the runtime
/// starts after the genesis block with the genesis storage and the given identity.
pub open spec fn init_post<P>(
    p0: Pflix<P>,
    p1: Pflix<P>,
    genesis: GenesisBlockInfo,
    genesis_state: Seq<(Seq<u8>, Seq<u8>)>,
    operator: Option<Vec<u8>>,
    debug_set_key: Option<Vec<u8>>,
    identity: WorkerIdentity,
    attestation_provider: Option<AttestationProvider>,
    cpu_core_num: u32,
    cpu_feature_level: u32,
    r: Result<InitRuntimeResponse, PflixServiceError>,
) -> bool {
    let pairs = genesis_state;
    let g = genesis.block_header.number as nat;
    let gh = header_hash(g, genesis.block_header.parent_hash@, genesis.block_header.state_root@);
    &&& (r is Err ==> p1 == p0)
    &&& (p0.runtime_state is Some ==> r == Err::<InitRuntimeResponse, PflixServiceError>(
        PflixServiceError::AlreadyInitialized,
    ))
    &&& (p0.runtime_state is None && debug_set_key is Some && attestation_provider is Some ==> r
        == Err::<InitRuntimeResponse, PflixServiceError>(PflixServiceError::DebugKeyWithAttestation))
    &&& (p0.runtime_state is None && !(debug_set_key is Some && attestation_provider is Some)
        && root_of_map(pairs_map(pairs)) != genesis.block_header.state_root@ ==> r == Err::<
        InitRuntimeResponse,
        PflixServiceError,
    >(PflixServiceError::StateRootMismatch))
    &&& (r is Ok <==> p0.runtime_state is None && !(debug_set_key is Some && attestation_provider is Some)
        && root_of_map(pairs_map(pairs)) == genesis.block_header.state_root@)
    &&& (r matches Ok(resp) ==> {
        let st = p1.state();
        &&& p1 == (Pflix {
            dev_mode: p1.dev_mode,
            trusted_sk: p1.trusted_sk,
            attestation_provider: p1.attestation_provider,
            identity: p1.identity,
            runtime_state: p1.runtime_state,
            runtime_info: p1.runtime_info,
            genesis_block: p1.genesis_block,
            ..p0
        })
        &&& p1.runtime_state is Some
        &&& p1.genesis_block == genesis.block_header.number
        &&& st.genesis_block_hash@ == gh
        &&& st.chain_storage@ == pairs_map(pairs)
        &&& st.storage_synchronizer.next_block() == g + 1
        &&& st.storage_synchronizer.chain().next_header == g + 1
        &&& st.storage_synchronizer.chain().pending.len() == 0
        &&& st.storage_synchronizer.authorities_spec() == genesis.authority_set.authorities.deep_view()
        &&& !st.storage_synchronizer.validated()
        &&& st.send_mq.queued().len() == 0
        &&& st.recv_mq.inbox_spec().len() == 0
        &&& p1.dev_mode == debug_set_key is Some
        &&& p1.trusted_sk == debug_set_key is None
        &&& p1.attestation_provider == attestation_provider
        &&& p1.identity == Some(identity)
        &&& p1.runtime_info matches Some(c) && c@ == resp@
        &&& resp.attestation is None
        &&& resp.genesis_block_hash@ == gh
        &&& resp.public_key@ == identity.public_key@
        &&& resp.ecdh_public_key@ == identity.ecdh_public_key@
        &&& info_view(resp.runtime_info) == (
            COMPAT_APP_VERSION,
            p0.machine_id@,
            identity.public_key@,
            identity.ecdh_public_key@,
            gh,
            seq![cpu_core_num, cpu_feature_level],
            operator.deep_view(),
        )
        &&& resp.encoded_runtime_info@ == registration_bytes(resp.runtime_info)
    })
}

/// Recording a checkpoint at `now_secs`: it holds the last applied block, and the time is kept
/// for the checkpoint gate.
pub open spec fn checkpoint_post<P>(p0: Pflix<P>, p1: Pflix<P>, now_secs: u64, r: Result<BlockNumber, PflixServiceError>) -> bool {
    if p0.runtime_state is None {
        r == Err::<BlockNumber, PflixServiceError>(PflixServiceError::Uninitialized) && p1 == p0
    } else {
        &&& r == Ok::<BlockNumber, PflixServiceError>((p0.state().storage_synchronizer.next_block() - 1) as BlockNumber)
        &&& p1 == (Pflix { last_checkpoint_secs: now_secs, ..p0 })
    }
}

/// Loading storage proof nodes: only from safe-mode level 2 on a running runtime, keeping the
/// nodes and the contents.
pub open spec fn load_proof_post<P>(p0: Pflix<P>, p1: Pflix<P>, proof: Seq<Seq<u8>>, r: Result<(), PflixServiceError>) -> bool {
    &&& (p0.args.safe_mode_level < 2 ==> r == Err::<(), PflixServiceError>(PflixServiceError::NotPermitted))
    &&& (p0.args.safe_mode_level >= 2 && p0.runtime_state is None ==> r == Err::<(), PflixServiceError>(
        PflixServiceError::Uninitialized,
    ))
    &&& (p0.args.safe_mode_level >= 2 && p0.runtime_state is Some ==> {
        &&& r is Ok
        &&& p1.runtime_state is Some
        &&& p1.state().chain_storage@ == p0.state().chain_storage@
        &&& p1.state().chain_storage.proofs() == p0.state().chain_storage.proofs() + proof
    })
    &&& (r is Err ==> p1 == p0)
}

/// Replacing the chain state by storage loaded at `block`: refused where the worker is registered
/// (before or in the new state), at block 0, or outside the synced headers; on success the
/// runtime continues after `block` from the new storage.
pub open spec fn load_chain_state_post<P>(
    p0: Pflix<P>,
    p1: Pflix<P>,
    block: BlockNumber,
    storage: Seq<(Seq<u8>, Seq<u8>)>,
    r: Result<(), PflixServiceError>,
) -> bool {
    let refused = !p0.can_load_spec() || block == 0 || pairs_map(storage).dom().contains(
        worker_key(p0.identity.unwrap().public_key@),
    );
    &&& (r is Ok <==> {
        &&& !refused
        &&& p0.state().storage_synchronizer.next_block() <= block as nat + 1
        &&& block as nat + 1 <= p0.state().storage_synchronizer.chain().next_header
    })
    &&& (refused ==> r == Err::<(), PflixServiceError>(PflixServiceError::NotPermitted))
    &&& (!refused && r is Err ==> r == Err::<(), PflixServiceError>(PflixServiceError::Sync(SyncError::CannotAssume)))
    &&& (r is Ok ==> {
        &&& p1.runtime_state is Some
        &&& p1.state().chain_storage@ == pairs_map(storage)
        &&& p1.state().storage_synchronizer.next_block() == block as nat + 1
        &&& p1.genesis_block == block
        &&& p1 == (Pflix { runtime_state: p1.runtime_state, genesis_block: p1.genesis_block, ..p0 })
    })
    &&& (r is Err ==> p1 == p0)
}

/// Reading the cached registration response: a new operator replaces the recorded one; the cached
/// attestation is kept only without a forced refresh, a new operator or its expiry; where none is
/// left and one is allowed, the hash a fresh one must bind is handed back instead.
pub open spec fn runtime_info_post<P>(
    p0: Pflix<P>,
    p1: Pflix<P>,
    refresh_ra: bool,
    operator: Option<Vec<u8>>,
    now_secs: u64,
    r: Result<RuntimeInfoStep, PflixServiceError>,
) -> bool {
    &&& (r is Err <==> p0.runtime_state is None || p0.runtime_info is None)
    &&& (r is Err ==> r == Err::<RuntimeInfoStep, PflixServiceError>(PflixServiceError::Uninitialized) && p1 == p0)
    &&& (r is Ok ==> {
        let c0 = p0.runtime_info.unwrap();
        let i0 = info_view(c0.runtime_info);
        let info = match operator {
            Some(o) => (i0.0, i0.1, i0.2, i0.3, i0.4, i0.5, Some(o@)),
            None => i0,
        };
        let kept = c0.attestation matches Some(a) && !cache_expired(refresh_ra, operator is Some, now_secs, a.timestamp);
        &&& p1.runtime_info matches Some(c) && {
            &&& info_view(c.runtime_info) == info
            &&& c.encoded_runtime_info@ == if operator is Some {
                registration_bytes(c.runtime_info)
            } else {
                c0.encoded_runtime_info@
            }
            &&& c.genesis_block_hash@ == c0.genesis_block_hash@
            &&& c.public_key@ == c0.public_key@
            &&& c.ecdh_public_key@ == c0.ecdh_public_key@
            &&& attestation_view(c.attestation) == if kept {
                attestation_view(c0.attestation)
            } else {
                None
            }
            &&& match r->Ok_0 {
                RuntimeInfoStep::NeedsAttestation { payload_hash } => p0.attestation_allowed() && !kept
                    && payload_hash@ == blake2_256_of(c.encoded_runtime_info@),
                RuntimeInfoStep::Ready(resp) => !(p0.attestation_allowed() && !kept) && resp@ == c@,
            }
        }
        &&& p1 == (Pflix { runtime_info: p1.runtime_info, ..p0 })
    })
}

/// Syncing a batch of headers: on a running runtime exactly what the synchroniser's
/// `sync_outcome` gives, touching nothing but the header chain and the authority set; on an error
/// nothing changes.
pub open spec fn sync_post<P>(
    p0: Pflix<P>,
    p1: Pflix<P>,
    headers: Seq<HeaderToSync>,
    authority_set_change: Option<AuthoritySetChange>,
    r: Result<BlockNumber, PflixServiceError>,
) -> bool {
    if p0.runtime_state is None {
        r == Err::<BlockNumber, PflixServiceError>(PflixServiceError::Uninitialized) && p1 == p0
    } else {
        let s0 = p0.state().storage_synchronizer;
        let out = sync_outcome(s0.chain(), headers_view(headers), authority_set_change);
        &&& (r is Ok <==> out is Ok)
        &&& (r matches Err(e) ==> e == PflixServiceError::Sync(out->Err_0) && p1 == p0)
        &&& (r is Ok ==> {
            let s1 = p1.state().storage_synchronizer;
            &&& p1.runtime_state is Some
            &&& p1 == (Pflix { runtime_state: p1.runtime_state, ..p0 })
            &&& p1.state() == (RuntimeState { storage_synchronizer: s1, ..p0.state() })
            &&& s1.chain() == out->Ok_0.0
            &&& s1.authorities_spec() == match out->Ok_0.1 {
                Some(a) => a,
                None => s0.authorities_spec(),
            }
            &&& s1.next_block() == s0.next_block()
            &&& s1.validated() == s0.validated()
            &&& r->Ok_0 as nat == headers.last().header.number
        })
    }
}

/// The status snapshot of a runtime `p`.
pub open spec fn info_post<P>(p: Pflix<P>, r: PflixInfo) -> bool {
    &&& r.initialized == p.runtime_state is Some
    &&& r.dev_mode == p.dev_mode
    &&& r.safe_mode_level == p.args.safe_mode_level
    &&& r.can_load_chain_state == p.can_load_spec()
    &&& (p.runtime_state is None ==> r.genesis_block_hash is None && r.headernum == 0 && r.blocknum == 0
        && r.state_root@.len() == 0 && r.pending_messages == 0 && r.current_block_time == 0)
    &&& (p.runtime_state is Some ==> {
        let st = p.state();
        &&& r.genesis_block_hash matches Some(h) && h@ == hex_of(st.genesis_block_hash@)
        &&& r.headernum == st.storage_synchronizer.chain().next_header
        &&& r.blocknum == st.storage_synchronizer.next_block()
        &&& r.state_root@ == hex_of(st.chain_storage.root_spec())
        &&& r.pending_messages == st.send_mq.queued().len()
        &&& r.current_block_time == if p.args.safe_mode_level <= 1 {
            stored_timestamp(st.chain_storage@)
        } else {
            0
        }
    })
}

/// What the runtime reports of itself.
pub struct PflixInfo {
    pub initialized: bool,
    pub genesis_block_hash: Option<String>,
    pub headernum: u64,
    pub blocknum: u64,
    pub state_root: String,
    pub dev_mode: bool,
    pub pending_messages: u64,
    pub can_load_chain_state: bool,
    pub safe_mode_level: u8,
    pub current_block_time: u64,
}

impl<Platform> Pflix<Platform> {
    pub open spec fn wf(&self) -> bool {
        &&& (self.runtime_state matches Some(st) ==> st.wf())
        &&& (self.runtime_state is Some ==> self.identity is Some)
    }

    pub open spec fn state(&self) -> RuntimeState {
        self.runtime_state.unwrap()
    }

    pub open spec fn apply_start(&self) -> ApplyState {
        ApplyState {
            next_block: self.state().storage_synchronizer.next_block(),
            pending: self.state().storage_synchronizer.chain().pending,
            storage: self.state().chain_storage@,
            inbox: self.state().recv_mq.inbox_spec(),
            queued: self.state().send_mq.queued(),
            dropped: self.state().dropped_messages,
        }
    }

    /// The checkpoint gate: enabled and the interval elapsed since the last one at `now`.
    pub open spec fn checkpoint_gate(&self, now: u64) -> bool {
        self.args.enable_checkpoint && now >= self.last_checkpoint_secs && now - self.last_checkpoint_secs
            >= self.args.checkpoint_interval
    }

    /// The chain state may be replaced: the runtime runs and the chain does not record this
    /// worker as registered.
    pub open spec fn can_load_spec(&self) -> bool {
        &&& self.runtime_state is Some
        &&& self.identity is Some
        &&& !self.state().chain_storage@.dom().contains(worker_key(self.identity.unwrap().public_key@))
    }

    /// A runtime that is not initialized yet.
    pub fn new(platform: Platform, args: PflixArgs, machine_id: Vec<u8>) -> (r: Pflix<Platform>)
        ensures
            r.wf(),
            r.runtime_state is None,
            r.identity is None,
            r.runtime_info is None,
            r.handover_ecdh_key is None,
            r.handover_last_challenge is None,
            r.args == args,
            !r.rcu_dispatching,
            r.endpoint is None,
            r.signed_endpoint is None,
    {
        Pflix {
            platform,
            args,
            dev_mode: false,
            trusted_sk: false,
            attestation_provider: None,
            machine_id,
            identity: None,
            runtime_state: None,
            runtime_info: None,
            genesis_block: 0,
            handover_ecdh_key: None,
            handover_last_challenge: None,
            last_checkpoint_secs: 0,
            rcu_dispatching: false,
            endpoint: None,
            signed_endpoint: None,
        }
    }

    /// The block most recently applied and the chain time in milliseconds.
    pub fn current_block(&self) -> (r: Result<(BlockNumber, u64), PflixServiceError>)
        requires
            self.wf(),
        ensures
            self.runtime_state is None ==> r == Err::<(BlockNumber, u64), PflixServiceError>(
                PflixServiceError::Uninitialized,
            ),
            self.runtime_state is Some ==> r == Ok::<(BlockNumber, u64), PflixServiceError>(
                (
                    (self.state().storage_synchronizer.next_block() - 1) as BlockNumber,
                    stored_timestamp(self.state().chain_storage@),
                ),
            ),
    {
        match &self.runtime_state {
            None => Err(PflixServiceError::Uninitialized),
            Some(state) => {
                let now_ms = state.chain_storage.timestamp_now();
                let counters = state.storage_synchronizer.counters();
                Ok(((counters.next_block_number - 1) as BlockNumber, now_ms))
            },
        }
    }

    /// Syncs a batch of finalized headers.
    pub fn sync_header(
        &mut self,
        headers: Vec<HeaderToSync>,
        authority_set_change: Option<AuthoritySetChange>,
    ) -> (r: Result<BlockNumber, PflixServiceError>)
        requires
            old(self).wf(),
        ensures
            final(self).wf(),
            sync_post(*old(self), *final(self), headers@, authority_set_change, r),
    {
        match &mut self.runtime_state {
            None => Err(PflixServiceError::Uninitialized),
            Some(state) => match state.storage_synchronizer.sync_header(headers, authority_set_change) {
                Ok(n) => Ok(n),
                Err(e) => Err(PflixServiceError::Sync(e)),
            },
        }
    }

    /// Applies the blocks not applied yet, in order. Below safe-mode level 1 each applied block
    /// also routes the messages it stores to the topics and may make a checkpoint due; from
    /// level 2 the blocks' state roots are not checked. Blocks below the next one are skipped.
    pub fn dispatch_blocks(&mut self, blocks: Vec<BlockHeaderWithChanges>, now_secs: u64) -> (r: Result<
        DispatchOutcome,
        PflixServiceError,
    >)
        requires
            old(self).wf(),
        ensures
            final(self).wf(),
            dispatch_post(*old(self), *final(self), blocks@, now_secs, r),
    {
        if self.runtime_state.is_none() {
            return Err(PflixServiceError::Uninitialized);
        }
        let ghost bv = blocks_view(blocks@);
        let safe_mode_level = self.args.safe_mode_level;
        let drop_proofs = safe_mode_level > 1;
        let dispatch = safe_mode_level == 0;
        let due = self.maybe_take_checkpoint(now_secs);
        let ghost s0 = self.apply_start();
        let ghost topics = self.state().recv_mq.topics_spec();
        let ghost origins = self.state().send_mq.origins_spec();
        let next = match &self.runtime_state {
            Some(state) => state.storage_synchronizer.counters().next_block_number,
            None => 0,
        };
        let mut synced_to: BlockNumber = (next - 1) as BlockNumber;
        let mut any = false;
        let mut i: usize = 0;
        while i < blocks.len()
            invariant
                old(self).wf(),
                self.wf(),
                self.runtime_state is Some,
                old(self).runtime_state is Some,
                bv == blocks_view(blocks@),
                i <= blocks@.len(),
                s0 == old(self).apply_start(),
                topics == old(self).state().recv_mq.topics_spec(),
                topics == self.state().recv_mq.topics_spec(),
                origins == old(self).state().send_mq.origins_spec(),
                origins == self.state().send_mq.origins_spec(),
                next as nat == old(self).state().storage_synchronizer.next_block(),
                apply_blocks(s0, blocks_from(bv.subrange(0, i as int), next as nat), drop_proofs, dispatch, topics, origins)
                    == Ok::<ApplyState, SyncError>(self.apply_start()),
                any == (blocks_from(bv.subrange(0, i as int), next as nat).len() > 0),
                any ==> synced_to as nat == blocks_from(bv.subrange(0, i as int), next as nat).last().0,
                !any ==> synced_to as nat == next - 1 && *self == *old(self),
                !dispatch ==> self.state().send_mq == old(self).state().send_mq,
                !dispatch ==> self.state().recv_mq == old(self).state().recv_mq,
                *self == (Pflix { runtime_state: self.runtime_state, ..*old(self) }),
                self.state().genesis_block_hash == old(self).state().genesis_block_hash,
                drop_proofs == (old(self).args.safe_mode_level > 1),
                dispatch == (old(self).args.safe_mode_level == 0),
            decreases blocks@.len() - i,
        {
            let block = &blocks[i];
            let ghost prefix = bv.subrange(0, i as int);
            assert(bv.subrange(0, i + 1).drop_last() =~= prefix);
            assert(bv.subrange(0, i + 1).last() == block_view(*block));
            proof {
                assert(bv.subrange(0, i + 1) =~= prefix.push(block_view(*block)));
                lemma_blocks_from_push(prefix, block_view(*block), next as nat);
                lemma_apply_blocks_push(s0, blocks_from(prefix, next as nat), block_view(*block), drop_proofs, dispatch, topics, origins);
            }
            if (block.block_header.number as u64) < next {
                i += 1;
                continue;
            }
            let fed = match &mut self.runtime_state {
                Some(state) => state.storage_synchronizer.feed_block(block, &mut state.chain_storage, drop_proofs),
                None => Ok(()),
            };
            match fed {
                Err(e) => {
                    proof {
                        lemma_apply_until_stops(s0, blocks_from(prefix, next as nat), block_view(*block), blocks_from(bv.subrange(i + 1, bv.len() as int), next as nat), drop_proofs, dispatch, topics, origins);
                        lemma_apply_blocks_err_tail(s0, blocks_from(bv.subrange(0, i + 1), next as nat), bv.subrange(i + 1, bv.len() as int), next as nat, drop_proofs, dispatch, topics, origins);
                        lemma_blocks_from_append(bv.subrange(0, i + 1), bv.subrange(i + 1, bv.len() as int), next as nat);
                        assert(bv.subrange(0, i + 1) + bv.subrange(i + 1, bv.len() as int) =~= bv);
                    }
                    return Err(PflixServiceError::Sync(e));
                },
                Ok(()) => {},
            }
            if dispatch {
                self.handle_inbound_messages();
                self.purge_mq();
            }
            synced_to = block.block_header.number;
            any = true;
            i += 1;
        }
        assert(bv.subrange(0, bv.len() as int) =~= bv);
        proof {
            lemma_apply_until_ok(s0, blocks_from(bv, next as nat), drop_proofs, dispatch, topics, origins);
        }
        Ok(DispatchOutcome { synced_to, checkpoint_due: dispatch && any && due })
    }

    /// Routes the messages stored at this block to the topics; those no topic takes are counted
    /// and dropped.
    fn handle_inbound_messages(&mut self)
        requires
            old(self).wf(),
            old(self).runtime_state is Some,
        ensures
            final(self).wf(),
            final(self).runtime_state is Some,
            final(self).apply_start() == (ApplyState {
                inbox: old(self).apply_start().inbox + claimed_messages(
                    old(self).state().recv_mq.topics_spec(),
                    stored_messages(old(self).state().chain_storage@),
                ),
                dropped: saturating_add(
                    old(self).state().dropped_messages,
                    unclaimed_count(
                        old(self).state().recv_mq.topics_spec(),
                        stored_messages(old(self).state().chain_storage@),
                    ),
                ),
                ..old(self).apply_start()
            }),
            *final(self) == (Pflix { runtime_state: final(self).runtime_state, ..*old(self) }),
            final(self).state().genesis_block_hash == old(self).state().genesis_block_hash,
            final(self).state().recv_mq.topics_spec() == old(self).state().recv_mq.topics_spec(),
            final(self).state().send_mq == old(self).state().send_mq,
            final(self).args == old(self).args,
            final(self).identity == old(self).identity,
    {
        match &mut self.runtime_state {
            Some(state) => {
                let messages = state.chain_storage.mq_messages();
                let unhandled = state.recv_mq.dispatch_all(messages);
                state.dropped_messages = if state.dropped_messages > u64::MAX - unhandled {
                    u64::MAX
                } else {
                    state.dropped_messages + unhandled
                };
            },
            None => {},
        }
    }

    /// Drops the outbound messages that the chain has received: those numbered below the
    /// sequence the chain stores for their origin.
    fn purge_mq(&mut self)
        requires
            old(self).wf(),
            old(self).runtime_state is Some,
        ensures
            final(self).wf(),
            final(self).runtime_state is Some,
            final(self).apply_start() == (ApplyState {
                queued: purge_all(
                    old(self).state().send_mq.queued(),
                    old(self).state().send_mq.origins_spec(),
                    old(self).state().chain_storage@,
                ),
                ..old(self).apply_start()
            }),
            final(self).state().send_mq.origins_spec() == old(self).state().send_mq.origins_spec(),
            final(self).state().recv_mq == old(self).state().recv_mq,
            *final(self) == (Pflix { runtime_state: final(self).runtime_state, ..*old(self) }),
            final(self).state().genesis_block_hash == old(self).state().genesis_block_hash,
            final(self).args == old(self).args,
            final(self).identity == old(self).identity,
    {
        match &mut self.runtime_state {
            Some(state) => {
                let origins = state.send_mq.origins();
                let ghost ov = origins.deep_view();
                let ghost q0 = state.send_mq.queued();
                let mut i: usize = 0;
                while i < origins.len()
                    invariant
                        state.wf(),
                        i <= origins@.len(),
                        ov == origins.deep_view(),
                        ov == state.send_mq.origins_spec(),
                        ov == old(self).state().send_mq.origins_spec(),
                        q0 == old(self).state().send_mq.queued(),
                        state.send_mq.queued() == purge_all(q0, ov.subrange(0, i as int), state.chain_storage@),
                        state.chain_storage == old(self).state().chain_storage,
                        state.storage_synchronizer == old(self).state().storage_synchronizer,
                        state.recv_mq == old(self).state().recv_mq,
                        state.dropped_messages == old(self).state().dropped_messages,
                        state.genesis_block_hash == old(self).state().genesis_block_hash,
                    decreases origins@.len() - i,
                {
                    let next = state.chain_storage.get_ingress_sequence(origins[i].as_slice());
                    state.send_mq.purge(origins[i].as_slice(), next);
                    assert(ov.subrange(0, i + 1).drop_last() =~= ov.subrange(0, i as int));
                    assert(ov[i as int] == origins@[i as int]@);
                    i += 1;
                }
                assert(ov.subrange(0, ov.len() as int) =~= ov);
            },
            None => {},
        }
    }

    /// Whether a checkpoint is due at `now_secs`.
    pub fn maybe_take_checkpoint(&self, now_secs: u64) -> (r: bool)
        ensures
            r == self.checkpoint_gate(now_secs),
    {
        self.args.enable_checkpoint && now_secs >= self.last_checkpoint_secs && now_secs
            - self.last_checkpoint_secs >= self.args.checkpoint_interval
    }

    /// Records a checkpoint taken at `now_secs` and returns the block it holds.
    pub fn take_checkpoint(&mut self, now_secs: u64) -> (r: Result<BlockNumber, PflixServiceError>)
        requires
            old(self).wf(),
        ensures
            final(self).wf(),
            checkpoint_post(*old(self), *final(self), now_secs, r),
    {
        match &self.runtime_state {
            None => Err(PflixServiceError::Uninitialized),
            Some(state) => {
                let n = state.storage_synchronizer.counters().next_block_number;
                self.last_checkpoint_secs = now_secs;
                Ok((n - 1) as BlockNumber)
            },
        }
    }

    /// Keeps the nodes of a storage proof; only from safe-mode level 2.
    pub fn load_storage_proof(&mut self, proof: Vec<Vec<u8>>) -> (r: Result<(), PflixServiceError>)
        requires
            old(self).wf(),
        ensures
            final(self).wf(),
            load_proof_post(*old(self), *final(self), proof.deep_view(), r),
    {
        if self.args.safe_mode_level < 2 {
            return Err(PflixServiceError::NotPermitted);
        }
        match &mut self.runtime_state {
            None => Err(PflixServiceError::Uninitialized),
            Some(state) => {
                state.chain_storage.load_proof(proof);
                Ok(())
            },
        }
    }

    /// Whether the chain state may be replaced.
    pub fn can_load_chain_state(&self) -> (r: bool)
        requires
            self.wf(),
        ensures
            r == self.can_load_spec(),
    {
        match (&self.runtime_state, &self.identity) {
            (Some(state), Some(id)) => !state.chain_storage.is_worker_registered(id.public_key.as_slice()),
            _ => false,
        }
    }

    /// Replaces the chain state by storage loaded at `block`, taken as applied without checks.
    pub fn load_chain_state(&mut self, block: BlockNumber, storage: Vec<(Vec<u8>, Vec<u8>)>) -> (r: Result<
        (),
        PflixServiceError,
    >)
        requires
            old(self).wf(),
        ensures
            final(self).wf(),
            load_chain_state_post(*old(self), *final(self), block, storage.deep_view(), r),
    {
        if !self.can_load_chain_state() {
            return Err(PflixServiceError::NotPermitted);
        }
        if block == 0 {
            return Err(PflixServiceError::NotPermitted);
        }
        let chain_storage = ChainStorage::from_pairs(storage);
        let registered = match &self.identity {
            Some(id) => chain_storage.is_worker_registered(id.public_key.as_slice()),
            None => true,
        };
        if registered {
            return Err(PflixServiceError::NotPermitted);
        }
        match &mut self.runtime_state {
            Some(state) => {
                match state.storage_synchronizer.assume_at_block(block) {
                    Ok(()) => {},
                    Err(e) => {
                        return Err(PflixServiceError::Sync(e));
                    },
                }
                state.chain_storage = chain_storage;
            },
            None => {
                return Err(PflixServiceError::Uninitialized);
            },
        }
        self.genesis_block = block;
        Ok(())
    }

    /// A snapshot of the outbound messages as (sender, sequence, payload); empty before
    /// initialization.
    pub fn get_egress_messages(&self) -> (r: Vec<(Vec<u8>, u64, Vec<u8>)>)
        requires
            self.wf(),
        ensures
            self.runtime_state is None ==> r@.len() == 0,
            self.runtime_state is Some ==> r.deep_view() == self.state().send_mq.queued(),
    {
        match &self.runtime_state {
            Some(state) => state.send_mq.all_messages(),
            None => Vec::new(),
        }
    }

    /// The identity key may be attested: it was made here, or the chain registered it.
    pub open spec fn identity_validated(&self) -> bool {
        self.trusted_sk || self.state().chain_storage@.dom().contains(worker_key(self.identity.unwrap().public_key@))
    }

    /// A registration attestation may be produced: the chain state was validated by a block,
    /// and the identity is validated or no attestation provider is configured.
    pub open spec fn attestation_allowed(&self) -> bool {
        self.state().storage_synchronizer.validated() && (self.identity_validated()
            || self.attestation_provider is None)
    }

    /// Initializes the runtime from the genesis block, the genesis storage and the worker's
    /// identity. A debug key marks the runtime as in development mode and cannot go with an
    /// attestation provider. The genesis storage must have the root the genesis header declares.
    /// On error nothing changes.
    pub fn init_runtime(
        &mut self,
        genesis: GenesisBlockInfo,
        genesis_state: Vec<(Vec<u8>, Vec<u8>)>,
        operator: Option<Vec<u8>>,
        debug_set_key: Option<Vec<u8>>,
        identity: WorkerIdentity,
        attestation_provider: Option<AttestationProvider>,
        cpu_core_num: u32,
        cpu_feature_level: u32,
    ) -> (r: Result<InitRuntimeResponse, PflixServiceError>)
        requires
            old(self).wf(),
        ensures
            final(self).wf(),
            init_post(
                *old(self),
                *final(self),
                genesis,
                genesis_state.deep_view(),
                operator,
                debug_set_key,
                identity,
                attestation_provider,
                cpu_core_num,
                cpu_feature_level,
                r,
            ),
    {
        if self.runtime_state.is_some() {
            return Err(PflixServiceError::AlreadyInitialized);
        }
        let dev_mode = debug_set_key.is_some();
        if dev_mode && attestation_provider.is_some() {
            return Err(PflixServiceError::DebugKeyWithAttestation);
        }
        let chain_storage = ChainStorage::from_pairs(genesis_state);
        let root = chain_storage.root();
        proof {
            ChainStorage::lemma_root_of_map(chain_storage);
        }
        if !crate::codec::bytes_eq(root.as_slice(), genesis.block_header.state_root.as_slice()) {
            return Err(PflixServiceError::StateRootMismatch);
        }
        let genesis_block_hash = crate::sync::hash_header(&genesis.block_header);
        let storage_synchronizer = StorageSynchronizer::new(&genesis);
        let runtime_info = WorkerRegistrationInfo {
            version: COMPAT_APP_VERSION,
            machine_id: copy_bytes(self.machine_id.as_slice()),
            pubkey: copy_bytes(identity.public_key.as_slice()),
            ecdh_pubkey: copy_bytes(identity.ecdh_public_key.as_slice()),
            genesis_block_hash: copy_bytes(genesis_block_hash.as_slice()),
            features: vec![cpu_core_num, cpu_feature_level],
            operator,
        };
        assert(runtime_info.features@ =~= seq![cpu_core_num, cpu_feature_level]);
        let encoded_runtime_info = encode_registration(&runtime_info);
        let resp = InitRuntimeResponse {
            runtime_info,
            encoded_runtime_info,
            genesis_block_hash: copy_bytes(genesis_block_hash.as_slice()),
            public_key: copy_bytes(identity.public_key.as_slice()),
            ecdh_public_key: copy_bytes(identity.ecdh_public_key.as_slice()),
            attestation: None,
        };
        let runtime_state = RuntimeState {
            genesis_block_hash,
            chain_storage,
            storage_synchronizer,
            send_mq: MessageSendQueue::new(),
            recv_mq: MessageDispatcher::new(),
            dropped_messages: 0,
        };
        self.dev_mode = dev_mode;
        self.trusted_sk = !dev_mode;
        self.attestation_provider = attestation_provider;
        self.runtime_info = Some(resp.duplicate());
        self.runtime_state = Some(runtime_state);
        self.identity = Some(identity);
        self.genesis_block = genesis.block_header.number;
        Ok(resp)
    }

    /// The cached registration response. A new operator replaces the recorded one. The cached
    /// attestation is dropped on a forced refresh, a new operator, or once it is too old; where
    /// none is left and one is allowed, the hash a fresh one must bind is handed back instead.
    pub fn get_runtime_info(&mut self, refresh_ra: bool, operator: Option<Vec<u8>>, now_secs: u64) -> (r:
        Result<RuntimeInfoStep, PflixServiceError>)
        requires
            old(self).wf(),
        ensures
            final(self).wf(),
            runtime_info_post(*old(self), *final(self), refresh_ra, operator, now_secs, r),
    {
        let (validated_identity, validated_state) = match (&self.runtime_state, &self.identity) {
            (Some(state), Some(id)) => (
                self.trusted_sk || state.chain_storage.is_worker_registered(id.public_key.as_slice()),
                state.storage_synchronizer.state_validated(),
            ),
            _ => {
                return Err(PflixServiceError::Uninitialized);
            },
        };
        if self.runtime_info.is_none() {
            return Err(PflixServiceError::Uninitialized);
        }
        let allow_attestation = validated_state && (validated_identity || self.attestation_provider.is_none());
        let reset_operator = operator.is_some();
        match &mut self.runtime_info {
            Some(cached) => {
                match operator {
                    Some(o) => {
                        cached.runtime_info.operator = Some(o);
                        cached.encoded_runtime_info = encode_registration(&cached.runtime_info);
                    },
                    None => {},
                }
                let expired = match &cached.attestation {
                    Some(a) => attestation_expired(refresh_ra, reset_operator, now_secs, a.timestamp),
                    None => false,
                };
                if expired {
                    cached.attestation = None;
                }
                if allow_attestation && cached.attestation.is_none() {
                    let payload_hash = blake2_256(cached.encoded_runtime_info.as_slice());
                    Ok(RuntimeInfoStep::NeedsAttestation { payload_hash })
                } else {
                    Ok(RuntimeInfoStep::Ready(cached.duplicate()))
                }
            },
            None => Err(PflixServiceError::Uninitialized),
        }
    }

    /// Attaches a freshly made attestation to the cached registration response and returns it.
    pub fn attach_runtime_attestation(&mut self, attestation: Attestation) -> (r: Result<
        InitRuntimeResponse,
        PflixServiceError,
    >)
        requires
            old(self).wf(),
        ensures
            final(self).wf(),
            old(self).runtime_info is None ==> r == Err::<InitRuntimeResponse, PflixServiceError>(
                PflixServiceError::Uninitialized,
            ) && *final(self) == *old(self),
            old(self).runtime_info matches Some(c0) ==> {
                &&& final(self).runtime_info matches Some(c) && c == (InitRuntimeResponse {
                    attestation: Some(attestation),
                    ..c0
                })
                &&& r matches Ok(resp) && resp@ == final(self).runtime_info.unwrap()@
                &&& *final(self) == (Pflix { runtime_info: final(self).runtime_info, ..*old(self) })
            },
    {
        match &mut self.runtime_info {
            Some(cached) => {
                cached.attestation = Some(attestation);
                Ok(cached.duplicate())
            },
            None => Err(PflixServiceError::Uninitialized),
        }
    }

    /// A status snapshot.
    pub fn get_info(&self) -> (r: PflixInfo)
        requires
            self.wf(),
        ensures
            info_post(*self, r),
    {
        let can_load = self.can_load_chain_state();
        match &self.runtime_state {
            None => PflixInfo {
                initialized: false,
                genesis_block_hash: None,
                headernum: 0,
                blocknum: 0,
                state_root: String::new(),
                dev_mode: self.dev_mode,
                pending_messages: 0,
                can_load_chain_state: can_load,
                safe_mode_level: self.args.safe_mode_level,
                current_block_time: 0,
            },
            Some(state) => {
                let counters = state.storage_synchronizer.counters();
                let root = state.chain_storage.root();
                let current_block_time = if self.args.safe_mode_level <= 1 {
                    state.chain_storage.timestamp_now()
                } else {
                    0
                };
                PflixInfo {
                    initialized: true,
                    genesis_block_hash: Some(to_hex(state.genesis_block_hash.as_slice())),
                    headernum: counters.next_header_number,
                    blocknum: counters.next_block_number,
                    state_root: to_hex(root.as_slice()),
                    dev_mode: self.dev_mode,
                    pending_messages: state.send_mq.count_messages() as u64,
                    can_load_chain_state: can_load,
                    safe_mode_level: self.args.safe_mode_level,
                    current_block_time,
                }
            },
        }
    }
}

/// Without message dispatch, applying blocks delivers no inbound message.
pub proof fn lemma_no_dispatch_keeps_inbox(
    s: ApplyState,
    bs: Seq<(nat, Seq<u8>, Seq<u8>, Seq<(Seq<u8>, Option<Seq<u8>>)>)>,
    drop_proofs: bool,
    topics: Seq<Seq<u8>>,
    origins: Seq<Seq<u8>>,
)
    ensures
        apply_blocks(s, bs, drop_proofs, false, topics, origins) matches Ok(s1) ==> s1.inbox == s.inbox,
    decreases bs.len(),
{
    if bs.len() > 0 {
        lemma_no_dispatch_keeps_inbox(s, bs.drop_last(), drop_proofs, topics, origins);
    }
}

/// Blocks all below the next one leave nothing to apply.
pub proof fn lemma_old_blocks_skipped(
    bs: Seq<(nat, Seq<u8>, Seq<u8>, Seq<(Seq<u8>, Option<Seq<u8>>)>)>,
    next: nat,
)
    requires
        forall|i: int| 0 <= i < bs.len() ==> #[trigger] bs[i].0 < next,
    ensures
        blocks_from(bs, next).len() == 0,
    decreases bs.len(),
{
    if bs.len() > 0 {
        assert(bs.last() == bs[bs.len() - 1]);
        lemma_old_blocks_skipped(bs.drop_last(), next);
    }
}

/// Where all blocks apply, applying up to the first failure applies them all.
proof fn lemma_apply_until_ok(
    s: ApplyState,
    bs: Seq<(nat, Seq<u8>, Seq<u8>, Seq<(Seq<u8>, Option<Seq<u8>>)>)>,
    drop_proofs: bool,
    dispatch: bool,
    topics: Seq<Seq<u8>>,
    origins: Seq<Seq<u8>>,
)
    requires
        apply_blocks(s, bs, drop_proofs, dispatch, topics, origins) is Ok,
    ensures
        apply_until(s, bs, drop_proofs, dispatch, topics, origins) == apply_blocks(s, bs, drop_proofs, dispatch, topics, origins)->Ok_0,
{
}

/// Once a block fails after `done` applied, nothing after it changes the state reached.
proof fn lemma_apply_until_stops(
    s: ApplyState,
    done: Seq<(nat, Seq<u8>, Seq<u8>, Seq<(Seq<u8>, Option<Seq<u8>>)>)>,
    b: (nat, Seq<u8>, Seq<u8>, Seq<(Seq<u8>, Option<Seq<u8>>)>),
    tail: Seq<(nat, Seq<u8>, Seq<u8>, Seq<(Seq<u8>, Option<Seq<u8>>)>)>,
    drop_proofs: bool,
    dispatch: bool,
    topics: Seq<Seq<u8>>,
    origins: Seq<Seq<u8>>,
)
    requires
        apply_blocks(s, done, drop_proofs, dispatch, topics, origins) is Ok,
        apply_block(apply_blocks(s, done, drop_proofs, dispatch, topics, origins)->Ok_0, b, drop_proofs, dispatch, topics, origins) is Err,
    ensures
        apply_until(s, done.push(b) + tail, drop_proofs, dispatch, topics, origins) == apply_blocks(s, done, drop_proofs, dispatch, topics, origins)->Ok_0,
    decreases tail.len(),
{
    let d = done.push(b);
    assert(d.drop_last() =~= done);
    if tail.len() == 0 {
        assert(d + tail =~= d);
    } else {
        lemma_apply_until_stops(s, done, b, tail.drop_last(), drop_proofs, dispatch, topics, origins);
        lemma_apply_blocks_extend_err(s, d, tail.drop_last(), drop_proofs, dispatch, topics, origins);
        assert((d + tail).drop_last() =~= d + tail.drop_last());
    }
}

/// Once applying a sequence failed, applying it with more blocks after fails the same way.
proof fn lemma_apply_blocks_extend_err(
    s: ApplyState,
    d: Seq<(nat, Seq<u8>, Seq<u8>, Seq<(Seq<u8>, Option<Seq<u8>>)>)>,
    x: Seq<(nat, Seq<u8>, Seq<u8>, Seq<(Seq<u8>, Option<Seq<u8>>)>)>,
    drop_proofs: bool,
    dispatch: bool,
    topics: Seq<Seq<u8>>,
    origins: Seq<Seq<u8>>,
)
    requires
        apply_blocks(s, d, drop_proofs, dispatch, topics, origins) is Err,
    ensures
        apply_blocks(s, d + x, drop_proofs, dispatch, topics, origins) == apply_blocks(s, d, drop_proofs, dispatch, topics, origins),
    decreases x.len(),
{
    if x.len() == 0 {
        assert(d + x =~= d);
    } else {
        lemma_apply_blocks_extend_err(s, d, x.drop_last(), drop_proofs, dispatch, topics, origins);
        assert((d + x).drop_last() =~= d + x.drop_last());
    }
}

proof fn lemma_blocks_from_push(
    prefix: Seq<(nat, Seq<u8>, Seq<u8>, Seq<(Seq<u8>, Option<Seq<u8>>)>)>,
    b: (nat, Seq<u8>, Seq<u8>, Seq<(Seq<u8>, Option<Seq<u8>>)>),
    next: nat,
)
    ensures
        blocks_from(prefix.push(b), next) == if b.0 >= next {
            blocks_from(prefix, next).push(b)
        } else {
            blocks_from(prefix, next)
        },
{
    assert(prefix.push(b).drop_last() =~= prefix);
}

proof fn lemma_blocks_from_append(
    a: Seq<(nat, Seq<u8>, Seq<u8>, Seq<(Seq<u8>, Option<Seq<u8>>)>)>,
    b: Seq<(nat, Seq<u8>, Seq<u8>, Seq<(Seq<u8>, Option<Seq<u8>>)>)>,
    next: nat,
)
    ensures
        blocks_from(a + b, next) == blocks_from(a, next) + blocks_from(b, next),
    decreases b.len(),
{
    if b.len() == 0 {
        assert(a + b =~= a);
        assert(blocks_from(a, next) + blocks_from(b, next) =~= blocks_from(a, next));
    } else {
        lemma_blocks_from_append(a, b.drop_last(), next);
        assert((a + b).drop_last() =~= a + b.drop_last());
        assert((a + b).last() == b.last());
        if b.last().0 >= next {
            assert(blocks_from(a, next) + blocks_from(b, next) =~= (blocks_from(a, next) + blocks_from(
                b.drop_last(),
                next,
            )).push(b.last()));
        }
    }
}

proof fn lemma_apply_blocks_push(
    s: ApplyState,
    done: Seq<(nat, Seq<u8>, Seq<u8>, Seq<(Seq<u8>, Option<Seq<u8>>)>)>,
    b: (nat, Seq<u8>, Seq<u8>, Seq<(Seq<u8>, Option<Seq<u8>>)>),
    drop_proofs: bool,
    dispatch: bool,
    topics: Seq<Seq<u8>>,
    origins: Seq<Seq<u8>>,
)
    ensures
        apply_blocks(s, done.push(b), drop_proofs, dispatch, topics, origins) == match apply_blocks(s, done, drop_proofs, dispatch, topics, origins) {
            Ok(s1) => apply_block(s1, b, drop_proofs, dispatch, topics, origins),
            Err(e) => Err(e),
        },
{
    assert(done.push(b).drop_last() =~= done);
}

/// Once applying a prefix failed, applying any extension fails with the same error.
proof fn lemma_apply_blocks_err_tail(
    s: ApplyState,
    done: Seq<(nat, Seq<u8>, Seq<u8>, Seq<(Seq<u8>, Option<Seq<u8>>)>)>,
    rest: Seq<(nat, Seq<u8>, Seq<u8>, Seq<(Seq<u8>, Option<Seq<u8>>)>)>,
    next: nat,
    drop_proofs: bool,
    dispatch: bool,
    topics: Seq<Seq<u8>>,
    origins: Seq<Seq<u8>>,
)
    requires
        apply_blocks(s, done, drop_proofs, dispatch, topics, origins) is Err,
    ensures
        apply_blocks(s, done + blocks_from(rest, next), drop_proofs, dispatch, topics, origins) == apply_blocks(s, done, drop_proofs, dispatch, topics, origins),
    decreases rest.len(),
{
    if rest.len() == 0 {
        assert(done + blocks_from(rest, next) =~= done);
    } else {
        lemma_apply_blocks_err_tail(s, done, rest.drop_last(), next, drop_proofs, dispatch, topics, origins);
        let t = done + blocks_from(rest.drop_last(), next);
        if rest.last().0 >= next {
            assert(done + blocks_from(rest, next) =~= t.push(rest.last()));
            assert(t.push(rest.last()).drop_last() =~= t);
        } else {
            assert(done + blocks_from(rest, next) =~= t);
        }
    }
}

} // verus!
