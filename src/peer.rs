//! The identity of a node on the network.

use crate::blockchain::fresh_id;
use vstd::prelude::*;

verus! {

/// A node's identity: a unique id and the resolved socket address it listens
/// on, written as `ip:port`. Two peers are the same when both parts are.
#[derive(Debug)]
pub struct PeerInfo {
    id: String,
    address: String,
}

pub struct PeerView {
    pub id: Seq<char>,
    pub address: Seq<char>,
}

impl View for PeerInfo {
    type V = PeerView;

    closed spec fn view(&self) -> PeerView {
        PeerView { id: self.id@, address: self.address@ }
    }
}

/// The views of a sequence of peers.
pub open spec fn peer_views(peers: Seq<PeerInfo>) -> Seq<PeerView> {
    peers.map_values(|p: PeerInfo| p@)
}

impl PartialEq for PeerInfo {
    fn eq(&self, other: &PeerInfo) -> (r: bool)
        ensures
            r == (self@ == other@),
    {
        self.id == other.id && self.address == other.address
    }
}

impl vstd::std_specs::cmp::PartialEqSpecImpl for PeerInfo {
    open spec fn obeys_eq_spec() -> bool {
        true
    }

    open spec fn eq_spec(&self, other: &PeerInfo) -> bool {
        self@ == other@
    }
}

impl Clone for PeerInfo {
    fn clone(&self) -> (r: Self)
        ensures
            r@ == self@,
    {
        PeerInfo { id: self.id.clone(), address: self.address.clone() }
    }
}

impl PeerInfo {
    /// A peer at an already resolved `address`, with a freshly generated id.
    pub fn new(address: String) -> (r: Self)
        ensures
            r@.address == address@,
    {
        PeerInfo { id: fresh_id(), address }
    }

    /// A peer with the given id and address.
    pub fn from_parts(id: String, address: String) -> (r: Self)
        ensures
            r@.id == id@,
            r@.address == address@,
    {
        PeerInfo { id, address }
    }

    pub fn get_address(&self) -> (r: &str)
        ensures
            r@ == self@.address,
    {
        self.address.as_str()
    }

    pub fn get_id(&self) -> (r: &str)
        ensures
            r@ == self@.id,
    {
        self.id.as_str()
    }
}

} // verus!
