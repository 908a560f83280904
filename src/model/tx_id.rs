use vstd::prelude::*;

verus! {

/// Transaction identifier: a `u32` newtype.
#[derive(Clone, Copy, Debug, PartialEq, Eq, Structural, Hash)]
pub struct TxId(u32);

impl View for TxId {
    type V = u32;

    closed spec fn view(&self) -> u32 {
        self.0
    }
}

/// Two identifiers with the same number are the same identifier.
pub proof fn lemma_tx_id_ext(a: TxId, b: TxId)
    requires
        a@ == b@,
    ensures
        a == b,
{
}

impl TxId {
    /// Returns a new `TxId`.
    pub fn new(tx_id: u32) -> (r: Self)
        ensures
            r@ == tx_id,
    {
        Self(tx_id)
    }

    /// Returns the inner `u32`.
    pub fn into_inner(self) -> (r: u32)
        ensures
            r == self@,
    {
        self.0
    }
}

impl From<u32> for TxId {
    fn from(tx_id: u32) -> (r: Self) {
        Self(tx_id)
    }
}

impl vstd::std_specs::convert::FromSpecImpl<u32> for TxId {
    open spec fn obeys_from_spec() -> bool {
        true
    }

    closed spec fn from_spec(v: u32) -> Self {
        TxId(v)
    }
}

} // verus!
