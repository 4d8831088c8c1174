//! The signature scheme as a capability: any scheme that answers whether a
//! signature fits a message can be plugged into the batch validator.

use vstd::prelude::*;
use crate::types::Sig;
use crate::types::Msg;

verus! {

/// A scheme that decides whether a signature fits a message.
pub trait Verifier {
    /// The scheme's verdict as a mathematical function of signature and
    /// message.
    spec fn accepts(&self, sig: Sig, msg: Msg) -> bool;

    /// Decides whether the signature fits the message.
    fn verify(&self, sig: &Sig, msg: &Msg) -> (ok: bool)
        ensures
            ok == self.accepts(*sig, *msg),
    ;
}

/// Whether a public key can be recovered from the 65 bytes of an ECDSA
/// signature over secp256k1 and the 32 bytes of a message digest.
pub uninterp spec fn secp256k1_recovers(sig: Seq<u8>, msg: Seq<u8>) -> bool;

/// Calls `sp_io::crypto::secp256k1_ecdsa_recover` and tells whether it
/// returned a public key. The call computes from its two arguments alone, so
/// the answer is the named function of them; nothing is claimed about which
/// signatures recover.
#[verifier::external_body]
fn recover_succeeds(sig: &[u8; 65], msg: &[u8; 32]) -> (ok: bool)
    ensures
        ok == secp256k1_recovers(sig@, msg@),
{
    sp_io::crypto::secp256k1_ecdsa_recover(sig, msg).is_ok()
}

/// ECDSA over secp256k1: a signature is accepted when a public key can be
/// recovered from it and the message.
#[derive(Clone, Copy, Debug)]
pub struct Secp256k1Recover;

impl Verifier for Secp256k1Recover {
    open spec fn accepts(&self, sig: Sig, msg: Msg) -> bool {
        secp256k1_recovers(sig.0@, msg.0@)
    }

    fn verify(&self, sig: &Sig, msg: &Msg) -> (ok: bool) {
        recover_succeeds(&sig.0, &msg.0)
    }
}

/// A scheme with one answer for every signature: it accepts all of them or
/// none. It serves hosts that verify signatures before they commit, and
/// fixtures.
#[derive(Clone, Copy, Debug)]
pub struct FixedVerdict(pub bool);

impl Verifier for FixedVerdict {
    open spec fn accepts(&self, sig: Sig, msg: Msg) -> bool {
        self.0
    }

    fn verify(&self, sig: &Sig, msg: &Msg) -> (ok: bool) {
        self.0
    }
}

} // verus!
