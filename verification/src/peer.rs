//! Peer identity as the node logic sees it: an opaque, stable name with
//! byte equality. The transport supplies the actual identity text.

use vstd::prelude::*;

verus! {

/// The stable identity of a peer, carried as its textual form.
#[derive(Debug)]
pub struct PeerId {
    pub id: String,
}

impl View for PeerId {
    type V = Seq<char>;

    open spec fn view(&self) -> Seq<char> {
        self.id@
    }
}

impl PeerId {
    /// Wraps an identity string.
    pub fn new(id: String) -> (peer: PeerId)
        ensures
            peer@ == id@,
    {
        PeerId { id }
    }

    /// An owned copy of this identity.
    pub fn duplicate(&self) -> (peer: PeerId)
        ensures
            peer@ == self@,
    {
        PeerId { id: self.id.clone() }
    }

    /// Whether two identities name the same peer.
    pub fn equals(&self, other: &PeerId) -> (r: bool)
        ensures
            r == (self@ == other@),
    {
        self.id.eq(&other.id)
    }
}

} // verus!
