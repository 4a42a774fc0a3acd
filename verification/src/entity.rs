//! The data model: a managed key record and a delete-vote ledger row.

use vstd::prelude::*;

use crate::sign::KeyType;

verus! {

/// Lifecycle state of a key record. `Deleted` is absorbing: once a record
/// reaches it, no conditional write mutates the record again.
#[derive(Clone, Copy, Debug, PartialEq, Eq, Structural)]
pub enum KeyState {
    Enabled,
    Disabled,
    PendingDelete,
    Deleted,
}

impl KeyState {
    /// The canonical storage string of the variant.
    pub open spec fn spec_str(self) -> Seq<char> {
        match self {
            KeyState::Enabled => "enabled"@,
            KeyState::Disabled => "disabled"@,
            KeyState::PendingDelete => "pending_delete"@,
            KeyState::Deleted => "deleted"@,
        }
    }

    pub fn fmt(&self) -> (r: String)
        ensures
            r@ == self.spec_str(),
    {
        match self {
            KeyState::Enabled => "enabled".to_owned(),
            KeyState::Disabled => "disabled".to_owned(),
            KeyState::PendingDelete => "pending_delete".to_owned(),
            KeyState::Deleted => "deleted".to_owned(),
        }
    }
}

/// Visibility class of a key record; immutable after creation.
#[derive(Clone, Copy, Debug, PartialEq, Eq, Structural)]
pub enum Visibility {
    Public,
    Private,
}

impl Visibility {
    /// The canonical storage string of the variant.
    pub open spec fn spec_str(self) -> Seq<char> {
        match self {
            Visibility::Public => "public"@,
            Visibility::Private => "private"@,
        }
    }

    pub fn fmt(&self) -> (r: String)
        ensures
            r@ == self.spec_str(),
    {
        match self {
            Visibility::Public => "public".to_owned(),
            Visibility::Private => "private".to_owned(),
        }
    }
}

/// A managed key record. `id` is assigned by the store on creation;
/// `key_type` and `visibility` are immutable afterwards. Timestamps are
/// seconds since the Unix epoch.
pub struct DataKey {
    pub id: i32,
    pub name: String,
    pub description: String,
    pub user: i32,
    pub attributes: String,
    pub key_type: KeyType,
    pub fingerprint: String,
    pub private_key: String,
    pub public_key: String,
    pub certificate: String,
    pub create_at: i64,
    pub expire_at: Option<i64>,
    pub key_state: KeyState,
    pub visibility: Visibility,
}

impl Clone for DataKey {
    fn clone(&self) -> (r: Self)
        ensures
            r == *self,
    {
        DataKey {
            id: self.id,
            name: self.name.clone(),
            description: self.description.clone(),
            user: self.user,
            attributes: self.attributes.clone(),
            key_type: self.key_type,
            fingerprint: self.fingerprint.clone(),
            private_key: self.private_key.clone(),
            public_key: self.public_key.clone(),
            certificate: self.certificate.clone(),
            create_at: self.create_at,
            expire_at: self.expire_at,
            key_state: self.key_state,
            visibility: self.visibility,
        }
    }
}

/// One delete vote: at most one row exists per `(user_id, key_id)` pair.
#[derive(Clone, Copy, Debug, PartialEq, Eq, Structural)]
pub struct RequestDelete {
    pub user_id: i32,
    pub key_id: i32,
    pub create_at: i64,
}

} // verus!
