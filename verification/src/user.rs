//! User records as the persistence boundary sees them.  Storage itself is an
//! external collaborator; these are the plain values that cross it.

use vstd::prelude::*;

use crate::peer::{PeerId, Secret};

verus! {

/// A stored user: a display name, the peer identity, and, for local users,
/// the secret key.
pub struct User {
    pub id: i32,
    pub name: String,
    pub peer_id: PeerId,
    pub online: i32,
    pub secret: Option<Secret>,
}

/// A user record to be inserted.
pub struct NewUser {
    name: String,
    peer_id: PeerId,
    online: i32,
    secret: Option<Secret>,
}

/// A partial update to a user record.
pub struct UpdateUser {
    pub name: Option<String>,
    pub online: Option<i32>,
}

impl NewUser {
    pub closed spec fn name_spec(&self) -> Seq<char> {
        self.name@
    }

    pub closed spec fn peer_spec(&self) -> Seq<u8> {
        self.peer_id@
    }

    pub closed spec fn online_spec(&self) -> i32 {
        self.online
    }

    pub closed spec fn secret_spec(&self) -> Option<Seq<u8>> {
        match self.secret {
            Some(ref s) => Some(s@),
            None => None,
        }
    }

    /// A local user: it owns the secret of a generated keypair.
    pub fn new(name: String, secret: Secret, peer_id: PeerId) -> (r: Self)
        ensures
            r.name_spec() == name@,
            r.peer_spec() == peer_id@,
            r.online_spec() == 0,
            r.secret_spec() == Some(secret@),
    {
        NewUser { name, peer_id, online: 0, secret: Some(secret) }
    }

    /// A peer record: another participant, known only by identity and name.
    pub fn new_peer(name: String, peer_id: PeerId) -> (r: Self)
        ensures
            r.name_spec() == name@,
            r.peer_spec() == peer_id@,
            r.online_spec() == 0,
            r.secret_spec() is None,
    {
        NewUser { name, peer_id, online: 0, secret: None }
    }

    pub fn name(&self) -> (r: &String)
        ensures
            r@ == self.name_spec(),
    {
        &self.name
    }

    pub fn peer_id(&self) -> (r: &PeerId)
        ensures
            r@ == self.peer_spec(),
    {
        &self.peer_id
    }

    pub fn online(&self) -> (r: i32)
        ensures
            r == self.online_spec(),
    {
        self.online
    }

    pub fn secret(&self) -> (r: &Option<Secret>)
        ensures
            match r {
                Some(s) => self.secret_spec() == Some(s@),
                None => self.secret_spec() is None,
            },
    {
        &self.secret
    }
}

} // verus!
