//! Remote-attestation reports: validation, retry back-off and cache freshness.
use vstd::prelude::*;
use crate::codec::bytes_eq;
use crate::error::ProtocolError;

verus! {

/// Who produced an attestation report.
#[derive(Debug, Clone, Copy, PartialEq, Eq, Structural)]
pub enum AttestationProvider {
    Root,
    Ias,
    Dcap,
}

/// What the validator reads of a decoded remote-attestation report.
pub struct AttestationReport {
    pub provider: AttestationProvider,
    /// The payload hash the report binds.
    pub payload_hash: Vec<u8>,
    /// When the attestation service issued the report, in seconds.
    pub timestamp: u64,
    /// Hash of the reported enclave measurement.
    pub measurement_hash: Vec<u8>,
}

/// An attestation as attached to responses.
pub struct Attestation {
    pub version: u32,
    pub provider: Option<AttestationProvider>,
    pub encoded_report: Vec<u8>,
    /// When the report was made, in seconds.
    pub timestamp: u64,
}

/// How long a report from the attestation service stays acceptable, in seconds.
pub const REPORT_VALIDITY_SECS: u64 = 36000;

/// How long a cached registration attestation is reused, in seconds.
pub const MAX_ATTESTATION_AGE: u64 = 3600;

/// The report was issued no later than `now` and at most `REPORT_VALIDITY_SECS` before it.
pub open spec fn report_fresh(timestamp: u64, now: u64) -> bool {
    timestamp <= now && now - timestamp <= REPORT_VALIDITY_SECS
}

/// The outcome of validating a report against a payload hash at time `now`.
pub open spec fn validation_outcome(payload_hash: Seq<u8>, timestamp: u64, expected: Seq<u8>, now: u64) -> Result<
    (),
    ProtocolError,
> {
    if payload_hash != expected {
        Err(ProtocolError::HashMismatch)
    } else if !report_fresh(timestamp, now) {
        Err(ProtocolError::StaleReport)
    } else {
        Ok(())
    }
}

/// Checks that a report binds `expected_hash` and is fresh at `now` (seconds).
pub fn validate_attestation_report(report: &AttestationReport, expected_hash: &[u8], now: u64) -> (r: Result<
    (),
    ProtocolError,
>)
    ensures
        r == validation_outcome(report.payload_hash@, report.timestamp, expected_hash@, now),
{
    if !bytes_eq(report.payload_hash.as_slice(), expected_hash) {
        return Err(ProtocolError::HashMismatch);
    }
    if report.timestamp > now || now - report.timestamp > REPORT_VALIDITY_SECS {
        return Err(ProtocolError::StaleReport);
    }
    Ok(())
}

/// What to do after a failed attempt to create a report.
#[derive(Debug, PartialEq, Eq, Structural)]
pub enum RetryStep {
    /// Wait this many seconds, then try again.
    Retry { sleep_secs: u64 },
    /// Fail for good.
    GiveUp,
}

/// Seconds to wait after failed attempt number `tried` (from 0): 1, 2, 4, then 8.
pub open spec fn backoff_secs(tried: u32) -> u64 {
    if tried == 0 {
        1
    } else if tried == 1 {
        2
    } else if tried == 2 {
        4
    } else {
        8
    }
}

/// The retry policy: after `tried` earlier retries, retry with back-off while fewer than
/// `max_retries` were made.
pub fn retry_after_failure(tried: u32, max_retries: u32) -> (r: RetryStep)
    ensures
        tried >= max_retries ==> r == RetryStep::GiveUp,
        tried < max_retries ==> r == (RetryStep::Retry { sleep_secs: backoff_secs(tried) }),
{
    if tried >= max_retries {
        return RetryStep::GiveUp;
    }
    let sleep_secs: u64 = if tried >= 3 {
        8
    } else if tried == 2 {
        4
    } else if tried == 1 {
        2
    } else {
        1
    };
    RetryStep::Retry { sleep_secs }
}

/// The attestation record for a freshly created report.
pub fn new_attestation(provider: Option<AttestationProvider>, encoded_report: Vec<u8>, now: u64) -> (r:
    Attestation)
    ensures
        r.version == 1,
        r.provider == provider,
        r.encoded_report@ == encoded_report@,
        r.timestamp == now,
{
    Attestation { version: 1, provider, encoded_report, timestamp: now }
}

/// A cached attestation must be dropped: on a forced refresh, an operator change, or once it is
/// older than `MAX_ATTESTATION_AGE`.
pub open spec fn cache_expired(refresh: bool, reset_operator: bool, now: u64, cached_at: u64) -> bool {
    refresh || reset_operator || now as int > cached_at as int + MAX_ATTESTATION_AGE as int
}

/// A forced refresh always drops a cached attestation; without a refresh or an operator change
/// it is kept until `MAX_ATTESTATION_AGE` seconds after it was made.
pub proof fn lemma_attestation_cache(reset_operator: bool, now: u64, cached_at: u64)
    ensures
        cache_expired(true, reset_operator, now, cached_at),
        now as int <= cached_at as int + MAX_ATTESTATION_AGE as int ==> !cache_expired(false, false, now, cached_at),
{
}

pub fn attestation_expired(refresh: bool, reset_operator: bool, now: u64, cached_at: u64) -> (r: bool)
    ensures
        r == cache_expired(refresh, reset_operator, now, cached_at),
{
    refresh || reset_operator || (now > cached_at && now - cached_at > MAX_ATTESTATION_AGE)
}

} // verus!
