//! Identities on the ledger, and who authorized a call.

use vstd::prelude::*;

verus! {

/// A short name: up to thirty-two ASCII characters, the first sixteen in
/// `head` and the rest in `tail`, each word big-endian and padded with zero
/// bytes at its end.
#[derive(Clone, Copy, Debug, PartialEq, Eq, Structural)]
pub struct Symbol {
    pub head: u128,
    pub tail: u128,
}

/// An account or a contract on the ledger: its thirty-two byte id, sixteen
/// bytes to a word, big-endian.
#[derive(Clone, Copy, Debug, PartialEq, Eq, Structural)]
pub struct Address {
    pub is_contract: bool,
    pub head: u128,
    pub tail: u128,
}

/// The addresses whose authorization the ledger has checked for the current
/// call.
pub struct Authorization {
    pub granted: Vec<Address>,
}

impl Authorization {
    /// The call carries the authorization of `who`.
    pub open spec fn covers(&self, who: Address) -> bool {
        self.granted@.contains(who)
    }
}

/// A call carries the authorization of those that the ledger granted it for,
/// and of nobody else.
pub proof fn law_authorization_is_granted(auth: &Authorization, who: Address)
    ensures
        auth.covers(who) <==> exists|i: int|
            0 <= i < auth.granted@.len() && #[trigger] auth.granted@[i] == who,
{
}

} // verus!
