//! KeyMint provisioning: the verified logic of the provisioning tool (UDS certificate
//! files, certificate chains, attestation IDs) and the scheduling policies of
//! libprocessgroup.

pub mod attestation;
pub mod attestation_ids;
pub mod cbor;
pub mod certs;
pub mod error;
pub mod sched_policy;
pub mod uds_certs;
