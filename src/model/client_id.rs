use vstd::prelude::*;

verus! {

/// Client identifier: a `u16` newtype.
#[derive(Clone, Copy, Debug, PartialEq, Eq, Structural, Hash)]
pub struct ClientId(u16);

impl View for ClientId {
    type V = u16;

    closed spec fn view(&self) -> u16 {
        self.0
    }
}

impl ClientId {
    /// Returns a new `ClientId`.
    pub fn new(client_id: u16) -> (r: Self)
        ensures
            r@ == client_id,
    {
        Self(client_id)
    }

    /// Returns the inner `u16`.
    pub fn into_inner(self) -> (r: u16)
        ensures
            r == self@,
    {
        self.0
    }
}

impl From<u16> for ClientId {
    fn from(client_id: u16) -> (r: Self) {
        Self(client_id)
    }
}

impl vstd::std_specs::convert::FromSpecImpl<u16> for ClientId {
    open spec fn obeys_from_spec() -> bool {
        true
    }

    closed spec fn from_spec(v: u16) -> Self {
        ClientId(v)
    }
}

} // verus!
