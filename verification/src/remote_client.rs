//! Identity and metadata for one connected session.

use vstd::prelude::*;

use crate::protocol::Address;

verus! {

/// Identity attached to one live connection. Created on an accepted Connect,
/// destroyed on Disconnect; every field is immutable for the client's
/// lifetime.
pub struct RemoteClient {
    /// Process-unique identifier minted by the engine at connect time.
    pub user_id: u128,
    /// Network origin the client connected from.
    pub addr: Address,
    /// Display name supplied by the client at connect time.
    pub user_name: String,
}

/// Mathematical value of a [`RemoteClient`].
#[verifier::ext_equal]
pub struct ClientView {
    pub user_id: u128,
    pub addr: Address,
    pub user_name: Seq<char>,
}

impl View for RemoteClient {
    type V = ClientView;

    open spec fn view(&self) -> ClientView {
        ClientView { user_id: self.user_id, addr: self.addr, user_name: self.user_name@ }
    }
}

} // verus!
