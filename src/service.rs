//! The runtime guard and the service calls that pass through it.
use vstd::prelude::*;
use crate::error::{PflixLockError, PflixServiceError};
use crate::attestation::AttestationProvider;
use crate::handover::{create_challenge_post, HandoverChallenge};
use crate::pflix::{
    checkpoint_post, dispatch_post, info_post, init_post, load_chain_state_post, load_proof_post,
    runtime_info_post, sync_post, DispatchOutcome, InitRuntimeResponse, Pflix, PflixArgs, PflixInfo,
    RuntimeInfoStep, WorkerIdentity,
};
use crate::sync::GenesisBlockInfo;
use crate::sync::{AuthoritySetChange, BlockHeaderWithChanges, BlockNumber, HeaderToSync};

verus! {

/// Seconds an attestation request may take by default.
pub const DEFAULT_RA_TIMEOUT_SECS: u64 = 8;

/// Retries of a failed attestation request by default.
pub const DEFAULT_RA_MAX_RETRIES: u32 = 3;

/// The configuration a runtime gets where none is given: full block processing, no
/// checkpoints, IAS attestation.
pub fn default_args() -> (r: PflixArgs)
    ensures
        r.safe_mode_level == 0,
        !r.enable_checkpoint,
        r.ra_type is None,
{
    PflixArgs {
        safe_mode_level: 0,
        enable_checkpoint: false,
        checkpoint_interval: 0,
        ra_timeout_secs: DEFAULT_RA_TIMEOUT_SECS,
        ra_max_retries: DEFAULT_RA_MAX_RETRIES,
        ra_type: None,
    }
}

/// Why a caller may not pass the guard: `SafeMode` where the runtime is in safe mode and the
/// caller does not allow it, else `StatePending` where a state replacement is in progress and
/// the caller does not allow it.
pub open spec fn lock_refusal<P>(p: Pflix<P>, allow_rcu: bool, allow_safemode: bool) -> Option<PflixLockError> {
    if !allow_safemode && p.args.safe_mode_level > 0 {
        Some(PflixLockError::SafeMode)
    } else if !allow_rcu && p.rcu_dispatching {
        Some(PflixLockError::StatePending)
    } else {
        None
    }
}

/// The one owner of the runtime: every access goes through `lock`.
pub struct PflixSafeBox<Platform> {
    pfx: Pflix<Platform>,
}

impl<Platform> PflixSafeBox<Platform> {
    pub closed spec fn inner(self) -> Pflix<Platform> {
        self.pfx
    }

    pub open spec fn wf(self) -> bool {
        self.inner().wf()
    }

    /// A runtime that is not initialized yet, with the given configuration or the default one.
    pub fn new(platform: Platform, args: Option<PflixArgs>) -> (r: PflixSafeBox<Platform>)
        ensures
            r.wf(),
            r.inner().runtime_state is None,
            r.inner().args.safe_mode_level == match args {
                Some(a) => a.safe_mode_level,
                None => 0,
            },
            args matches Some(a) ==> r.inner().args == a,
            !r.inner().rcu_dispatching,
            r.inner().handover_last_challenge is None,
            r.inner().handover_ecdh_key is None,
    {
        let args = match args {
            Some(a) => a,
            None => default_args(),
        };
        PflixSafeBox { pfx: Pflix::new(platform, args, Vec::new()) }
    }

    /// Admits a caller to the runtime, or says why not.
    pub fn lock(&mut self, allow_rcu: bool, allow_safemode: bool) -> (r: Result<&mut Pflix<Platform>, PflixLockError>)
        ensures
            r is Err <==> lock_refusal(old(self).inner(), allow_rcu, allow_safemode) is Some,
            r matches Err(e) ==> lock_refusal(old(self).inner(), allow_rcu, allow_safemode) == Some(e)
                && *final(self) == *old(self),
            r matches Ok(p) ==> *p == old(self).inner() && final(self).inner() == *final(p),
    {
        if !allow_safemode && self.pfx.args.safe_mode_level > 0 {
            return Err(PflixLockError::SafeMode);
        }
        if !allow_rcu && self.pfx.rcu_dispatching {
            return Err(PflixLockError::StatePending);
        }
        Ok(&mut self.pfx)
    }
}

/// The service: requests reach the runtime through its guard.
pub struct RpcService<Platform> {
    pub pfx: PflixSafeBox<Platform>,
}

impl<Platform> RpcService<Platform> {
    pub fn new_with(pfx: PflixSafeBox<Platform>) -> (r: RpcService<Platform>)
        ensures
            r.pfx == pfx,
    {
        RpcService { pfx }
    }

    pub fn new(platform: Platform) -> (r: RpcService<Platform>)
        ensures
            r.pfx.wf(),
            r.pfx.inner().runtime_state is None,
            r.pfx.inner().args.safe_mode_level == 0,
            !r.pfx.inner().rcu_dispatching,
    {
        RpcService { pfx: PflixSafeBox::new(platform, None) }
    }

    /// Admits a caller to the runtime, or says why not.
    pub fn lock_pflix(&mut self, allow_rcu: bool, allow_safemode: bool) -> (r: Result<
        &mut Pflix<Platform>,
        PflixLockError,
    >)
        ensures
            r is Err <==> lock_refusal(old(self).pfx.inner(), allow_rcu, allow_safemode) is Some,
            r matches Err(e) ==> lock_refusal(old(self).pfx.inner(), allow_rcu, allow_safemode) == Some(e)
                && *final(self) == *old(self),
            r matches Ok(p) ==> *p == old(self).pfx.inner() && final(self).pfx.inner() == *final(p),
    {
        self.pfx.lock(allow_rcu, allow_safemode)
    }

    /// A status snapshot; admitted in every mode.
    pub fn get_info(&mut self) -> (r: PflixInfo)
        requires
            old(self).pfx.wf(),
        ensures
            info_post(old(self).pfx.inner(), r),
            *final(self) == *old(self),
    {
        match self.lock_pflix(true, true) {
            Ok(pfx) => pfx.get_info(),
            Err(_) => PflixInfo {
                initialized: false,
                genesis_block_hash: None,
                headernum: 0,
                blocknum: 0,
                state_root: String::new(),
                dev_mode: false,
                pending_messages: 0,
                can_load_chain_state: false,
                safe_mode_level: 0,
                current_block_time: 0,
            },
        }
    }

    /// Syncs headers; refused while a state replacement is pending.
    pub fn sync_header(
        &mut self,
        headers: Vec<HeaderToSync>,
        authority_set_change: Option<AuthoritySetChange>,
    ) -> (r: Result<BlockNumber, PflixServiceError>)
        requires
            old(self).pfx.wf(),
        ensures
            final(self).pfx.wf(),
            match lock_refusal(old(self).pfx.inner(), false, true) {
                Some(e) => r == Err::<BlockNumber, PflixServiceError>(PflixServiceError::PflixLock(e))
                    && *final(self) == *old(self),
                None => sync_post(old(self).pfx.inner(), final(self).pfx.inner(), headers@, authority_set_change, r),
            },
    {
        match self.lock_pflix(false, true) {
            Ok(pfx) => pfx.sync_header(headers, authority_set_change),
            Err(e) => Err(PflixServiceError::PflixLock(e)),
        }
    }

    /// Applies blocks; refused while a state replacement is pending.
    pub fn dispatch_blocks(&mut self, blocks: Vec<BlockHeaderWithChanges>, now_secs: u64) -> (r: Result<
        DispatchOutcome,
        PflixServiceError,
    >)
        requires
            old(self).pfx.wf(),
        ensures
            final(self).pfx.wf(),
            match lock_refusal(old(self).pfx.inner(), false, true) {
                Some(e) => r == Err::<DispatchOutcome, PflixServiceError>(PflixServiceError::PflixLock(e))
                    && *final(self) == *old(self),
                None => dispatch_post(old(self).pfx.inner(), final(self).pfx.inner(), blocks@, now_secs, r),
            },
    {
        match self.lock_pflix(false, true) {
            Ok(pfx) => pfx.dispatch_blocks(blocks, now_secs),
            Err(e) => Err(PflixServiceError::PflixLock(e)),
        }
    }

    /// Loads storage proof nodes; passes the guard in safe mode, and succeeds only from
    /// safe-mode level 2.
    pub fn load_storage_proof(&mut self, proof: Vec<Vec<u8>>) -> (r: Result<(), PflixServiceError>)
        requires
            old(self).pfx.wf(),
        ensures
            final(self).pfx.wf(),
            match lock_refusal(old(self).pfx.inner(), false, true) {
                Some(e) => r == Err::<(), PflixServiceError>(PflixServiceError::PflixLock(e))
                    && *final(self) == *old(self),
                None => load_proof_post(old(self).pfx.inner(), final(self).pfx.inner(), proof.deep_view(), r),
            },
    {
        match self.lock_pflix(false, true) {
            Ok(pfx) => pfx.load_storage_proof(proof),
            Err(e) => Err(PflixServiceError::PflixLock(e)),
        }
    }

    /// Initializes the runtime; refused in safe mode and while a state replacement is pending.
    pub fn init_runtime(
        &mut self,
        genesis: GenesisBlockInfo,
        genesis_state: Vec<(Vec<u8>, Vec<u8>)>,
        operator: Option<Vec<u8>>,
        debug_set_key: Option<Vec<u8>>,
        identity: WorkerIdentity,
        attestation_provider: Option<AttestationProvider>,
        cpu_core_num: u32,
        cpu_feature_level: u32,
    ) -> (r: Result<InitRuntimeResponse, PflixServiceError>)
        requires
            old(self).pfx.wf(),
        ensures
            final(self).pfx.wf(),
            match lock_refusal(old(self).pfx.inner(), false, false) {
                Some(e) => r == Err::<InitRuntimeResponse, PflixServiceError>(PflixServiceError::PflixLock(e))
                    && *final(self) == *old(self),
                None => init_post(
                    old(self).pfx.inner(),
                    final(self).pfx.inner(),
                    genesis,
                    genesis_state.deep_view(),
                    operator,
                    debug_set_key,
                    identity,
                    attestation_provider,
                    cpu_core_num,
                    cpu_feature_level,
                    r,
                ),
            },
    {
        match self.lock_pflix(false, false) {
            Ok(pfx) => pfx.init_runtime(
                genesis,
                genesis_state,
                operator,
                debug_set_key,
                identity,
                attestation_provider,
                cpu_core_num,
                cpu_feature_level,
            ),
            Err(e) => Err(PflixServiceError::PflixLock(e)),
        }
    }

    /// The cached registration response; admitted while a state replacement is pending, not in
    /// safe mode.
    pub fn get_runtime_info(&mut self, refresh_ra: bool, operator: Option<Vec<u8>>, now_secs: u64) -> (r: Result<
        RuntimeInfoStep,
        PflixServiceError,
    >)
        requires
            old(self).pfx.wf(),
        ensures
            final(self).pfx.wf(),
            match lock_refusal(old(self).pfx.inner(), true, false) {
                Some(e) => r == Err::<RuntimeInfoStep, PflixServiceError>(PflixServiceError::PflixLock(e))
                    && *final(self) == *old(self),
                None => runtime_info_post(old(self).pfx.inner(), final(self).pfx.inner(), refresh_ra, operator, now_secs, r),
            },
    {
        match self.lock_pflix(true, false) {
            Ok(pfx) => pfx.get_runtime_info(refresh_ra, operator, now_secs),
            Err(e) => Err(PflixServiceError::PflixLock(e)),
        }
    }

    /// The outbound messages; admitted while a state replacement is pending, not in safe mode.
    pub fn get_egress_messages(&mut self) -> (r: Result<Vec<(Vec<u8>, u64, Vec<u8>)>, PflixServiceError>)
        requires
            old(self).pfx.wf(),
        ensures
            *final(self) == *old(self),
            match lock_refusal(old(self).pfx.inner(), true, false) {
                Some(e) => r == Err::<Vec<(Vec<u8>, u64, Vec<u8>)>, PflixServiceError>(PflixServiceError::PflixLock(e)),
                None => r matches Ok(ms) && (old(self).pfx.inner().runtime_state is Some ==> ms.deep_view()
                    == old(self).pfx.inner().state().send_mq.queued()) && (old(self).pfx.inner().runtime_state is None
                    ==> ms@.len() == 0),
            },
    {
        match self.lock_pflix(true, false) {
            Ok(pfx) => Ok(pfx.get_egress_messages()),
            Err(e) => Err(PflixServiceError::PflixLock(e)),
        }
    }

    /// Replaces the chain state; refused in safe mode and while a state replacement is pending.
    pub fn load_chain_state(&mut self, block: BlockNumber, storage: Vec<(Vec<u8>, Vec<u8>)>) -> (r: Result<
        (),
        PflixServiceError,
    >)
        requires
            old(self).pfx.wf(),
        ensures
            final(self).pfx.wf(),
            match lock_refusal(old(self).pfx.inner(), false, false) {
                Some(e) => r == Err::<(), PflixServiceError>(PflixServiceError::PflixLock(e))
                    && *final(self) == *old(self),
                None => load_chain_state_post(old(self).pfx.inner(), final(self).pfx.inner(), block, storage.deep_view(), r),
            },
    {
        match self.lock_pflix(false, false) {
            Ok(pfx) => pfx.load_chain_state(block, storage),
            Err(e) => Err(PflixServiceError::PflixLock(e)),
        }
    }

    /// Records a checkpoint taken now; refused in safe mode and while a state replacement is
    /// pending.
    pub fn take_checkpoint(&mut self, now_secs: u64) -> (r: Result<BlockNumber, PflixServiceError>)
        requires
            old(self).pfx.wf(),
        ensures
            final(self).pfx.wf(),
            match lock_refusal(old(self).pfx.inner(), false, false) {
                Some(e) => r == Err::<BlockNumber, PflixServiceError>(PflixServiceError::PflixLock(e))
                    && *final(self) == *old(self),
                None => checkpoint_post(old(self).pfx.inner(), final(self).pfx.inner(), now_secs, r),
            },
    {
        match self.lock_pflix(false, false) {
            Ok(pfx) => pfx.take_checkpoint(now_secs),
            Err(e) => Err(PflixServiceError::PflixLock(e)),
        }
    }

    /// Key handover server: a new challenge; refused while a state replacement is pending.
    pub fn handover_create_challenge(&mut self, sgx_target_info: Vec<u8>) -> (r: Result<
        HandoverChallenge,
        PflixServiceError,
    >)
        requires
            old(self).pfx.wf(),
        ensures
            final(self).pfx.wf(),
            match lock_refusal(old(self).pfx.inner(), false, true) {
                Some(e) => r == Err::<HandoverChallenge, PflixServiceError>(PflixServiceError::PflixLock(e))
                    && *final(self) == *old(self),
                None => create_challenge_post(old(self).pfx.inner(), final(self).pfx.inner(), sgx_target_info@, r),
            },
    {
        match self.lock_pflix(false, true) {
            Ok(pfx) => pfx.handover_create_challenge(sgx_target_info),
            Err(e) => Err(PflixServiceError::PflixLock(e)),
        }
    }
}

} // verus!
