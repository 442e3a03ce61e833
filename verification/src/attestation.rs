//! Attestation keys to provision.

use vstd::prelude::*;
use vstd::string::*;
use crate::error::ProvisioningError;

verus! {

/// An attestation key: its algorithm, the key, and its certificate chain.
#[derive(Debug)]
pub struct AttestationKey {
    /// The key's algorithm.
    pub algorithm: String,
    /// The key.
    pub key: Vec<u8>,
    /// The certificates of the key, each DER-encoded.
    pub certs: Vec<Vec<u8>>,
}

/// The attestation keys to provision.
///
/// The keys file is not read yet: the result is one RSA key with no key material and
/// no certificates.
pub fn get_attestation_keys() -> (r: Result<Vec<AttestationKey>, ProvisioningError>)
    ensures
        r matches Ok(keys) && keys@.len() == 1 && keys@[0].algorithm@ == "rsa"@
            && keys@[0].key@.len() == 0 && keys@[0].certs@.len() == 0,
{
    let keys = vec![AttestationKey { algorithm: String::from_str("rsa"), key: Vec::new(), certs: Vec::new() }];
    Ok(keys)
}

} // verus!
