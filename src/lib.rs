//! The trusted runtime core of an enclave worker: runtime guard, chain storage, header and
//! block synchronisation, message routing, attestation caching and the worker key handover;
//! and the secret keys of the BFV encryption scheme.
pub mod attestation;
pub mod codec;
pub mod endpoint;
pub mod error;
pub mod handover;
pub mod mq;
pub mod pflix;
pub mod secret_key;
pub mod service;
pub mod storage;
pub mod sync;
