//! Verification rules a profile can carry: which signature schemes, under
//! which keys and permissions, attest to it.

use vstd::prelude::*;

verus! {

/// A permission named by a profile rule.
#[derive(Debug)]
pub struct ProfilePermission {
    pub name: Vec<u8>,
}

/// Verification under an Ed25519 key.
#[derive(Debug)]
pub struct ProfileRuleEd25519Verification {
    pub public_key: Vec<u8>,
    pub permissions: Vec<ProfilePermission>,
}

/// Verification under an ECDSA P-256 key.
#[derive(Debug)]
pub struct ProfileRuleEcdsaP256Verification {
    pub public_key: Vec<u8>,
    pub permissions: Vec<ProfilePermission>,
}

/// A profile verification rule.
#[derive(Debug)]
pub enum ProfileRule {
    Ed25519Verification(ProfileRuleEd25519Verification),
    EcdsaP256Verification(ProfileRuleEcdsaP256Verification),
}

} // verus!
