//! The key lifecycle manager: create/read/list and the state-machine
//! transitions, including the quorum-delete protocol.
//!
//! Every transition is an atomic conditional write: the guard is evaluated
//! against the current row as part of the same mutation, never as a separate
//! read followed by a blind write. Each operation's contract states the
//! resulting store as a function of the previous store, so that the
//! state-machine laws can be proved once over those functions.

use vstd::prelude::*;

use crate::entity::{DataKey, KeyState, RequestDelete, Visibility};
use crate::errors::Error;
use crate::model::{
    count_enabled_matches, count_votes_for, enabled_match, has_key, has_vote,
    lemma_key_index_of, lemma_unique_match, lemma_vote_index_of, lemma_wf_add_vote,
    lemma_wf_keys_update, lemma_wf_remove_vote, materialize, private_list, public_list,
    spec_add_vote, spec_cancel_delete, spec_delete_private, spec_disable_if_unvoted,
    spec_finalize_delete, spec_get_by_id, spec_get_enabled, spec_mark_pending, spec_remove_vote,
    spec_request_delete, spec_update_state, valid_create_input, vote_matches,
    StoreModel,
};

verus! {

/// Relies on chrono::Utc::now for the current wall-clock time in seconds;
/// nothing is assumed of the returned value.
#[verifier::external_body]
fn now_timestamp() -> i64 {
    chrono::Utc::now().timestamp()
}

/// The store of key records and delete votes, with the id counter the store
/// uses to assign record ids.
pub struct DataKeyRepository {
    data_keys: Vec<DataKey>,
    request_deletes: Vec<RequestDelete>,
    next_id: i32,
}

impl View for DataKeyRepository {
    type V = StoreModel;

    closed spec fn view(&self) -> StoreModel {
        StoreModel {
            keys: self.data_keys@,
            votes: self.request_deletes@,
            next_id: self.next_id as int,
        }
    }
}

impl DataKeyRepository {
    pub open spec fn wf(&self) -> bool {
        self@.wf()
    }

    /// An empty store; the first created record receives id 1.
    pub fn new() -> (r: DataKeyRepository)
        ensures
            r.wf(),
            r@.keys.len() == 0,
            r@.votes.len() == 0,
            r@.next_id == 1,
    {
        DataKeyRepository { data_keys: Vec::new(), request_deletes: Vec::new(), next_id: 1 }
    }

    /// Index of the record with the given id, if any.
    fn find_key_index(&self, id: i32) -> (r: Option<usize>)
        ensures
            match r {
                Some(i) => i < self@.keys.len() && self@.keys[i as int].id == id,
                None => !has_key(self@.keys, id),
            },
    {
        let n = self.data_keys.len();
        let mut i: usize = 0;
        while i < n
            invariant
                i <= n,
                n == self.data_keys@.len(),
                forall|j: int| 0 <= j < i ==> (#[trigger] self.data_keys@[j]).id != id,
            decreases n - i,
        {
            if self.data_keys[i].id == id {
                return Some(i);
            }
            i = i + 1;
        }
        None
    }

    /// Index of the vote cast by the pair, if any.
    fn find_vote_index(&self, user_id: i32, key_id: i32) -> (r: Option<usize>)
        ensures
            match r {
                Some(i) => i < self@.votes.len() && vote_matches(
                    self@.votes[i as int],
                    user_id,
                    key_id,
                ),
                None => !has_vote(self@.votes, user_id, key_id),
            },
    {
        let n = self.request_deletes.len();
        let mut i: usize = 0;
        while i < n
            invariant
                i <= n,
                n == self.request_deletes@.len(),
                forall|j: int|
                    0 <= j < i ==> !vote_matches(#[trigger] self.request_deletes@[j], user_id, key_id),
            decreases n - i,
        {
            if self.request_deletes[i].user_id == user_id && self.request_deletes[i].key_id == key_id {
                return Some(i);
            }
            i = i + 1;
        }
        None
    }

    /// Number of delete votes currently cast for the key.
    pub fn request_delete_count(&self, key_id: i32) -> (r: usize)
        ensures
            r == count_votes_for(self@.votes, key_id),
    {
        let n = self.request_deletes.len();
        let mut i: usize = 0;
        let mut cnt: usize = 0;
        while i < n
            invariant
                i <= n,
                n == self.request_deletes@.len(),
                cnt <= i,
                cnt == count_votes_for(self.request_deletes@.take(i as int), key_id),
            decreases n - i,
        {
            if self.request_deletes[i].key_id == key_id {
                cnt = cnt + 1;
            }
            proof {
                let pre = self.request_deletes@.take(i as int);
                let post = self.request_deletes@.take(i as int + 1);
                assert(post.drop_last() =~= pre);
                assert(post.last() == self.request_deletes@[i as int]);
            }
            i = i + 1;
        }
        proof {
            assert(self.request_deletes@.take(n as int) =~= self.request_deletes@);
        }
        cnt
    }

    /// Whether the approver currently has a delete vote for the key.
    pub fn has_request_delete(&self, user_id: i32, key_id: i32) -> (r: bool)
        ensures
            r == has_vote(self@.votes, user_id, key_id),
    {
        match self.find_vote_index(user_id, key_id) {
            Some(i) => {
                proof {
                    assert(vote_matches(self@.votes[i as int], user_id, key_id));
                }
                true
            },
            None => false,
        }
    }

    /// Conditionally set the record's state. The guard `state != Deleted` is
    /// part of the write itself, so a record that is already `Deleted` or
    /// absent is left untouched without an error.
    pub fn update_state(&mut self, id: i32, state: KeyState) -> (r: Result<(), Error>)
        requires
            old(self).wf(),
        ensures
            final(self).wf(),
            final(self)@ == spec_update_state(old(self)@, id, state),
            r == Ok::<(), Error>(()),
    {
        let ghost s0 = self@;
        let ghost t = spec_update_state(s0, id, state);
        match self.find_key_index(id) {
            Some(i) => {
                proof {
                    lemma_key_index_of(s0.keys, id, i as int);
                }
                if self.data_keys[i].key_state != KeyState::Deleted {
                    self.data_keys[i].key_state = state;
                }
                proof {
                    assert forall|j: int| 0 <= j < s0.keys.len() implies self@.keys[j] == t.keys[j] by {
                        if j != i as int {
                            assert(s0.keys[j].id != s0.keys[i as int].id);
                        }
                    }
                    assert(self@ =~= t);
                }
            },
            None => {
                proof {
                    assert forall|j: int| 0 <= j < s0.keys.len() implies self@.keys[j] == t.keys[j] by {
                        assert(s0.keys[j].id != id);
                    }
                    assert(self@ =~= t);
                }
            },
        }
        proof {
            lemma_wf_keys_update(s0, t);
        }
        Ok(())
    }

    /// Conditionally delete a private record: the guard requires the caller
    /// to be the owner and the record to be private and not yet deleted.
    /// No quorum is involved.
    pub fn delete_private_key(&mut self, id: i32, user_id: i32) -> (r: Result<(), Error>)
        requires
            old(self).wf(),
        ensures
            final(self).wf(),
            final(self)@ == spec_delete_private(old(self)@, id, user_id),
            r == Ok::<(), Error>(()),
    {
        let ghost s0 = self@;
        let ghost t = spec_delete_private(s0, id, user_id);
        match self.find_key_index(id) {
            Some(i) => {
                proof {
                    lemma_key_index_of(s0.keys, id, i as int);
                }
                if self.data_keys[i].visibility == Visibility::Private && self.data_keys[i].user
                    == user_id && self.data_keys[i].key_state != KeyState::Deleted {
                    self.data_keys[i].key_state = KeyState::Deleted;
                }
                proof {
                    assert forall|j: int| 0 <= j < s0.keys.len() implies self@.keys[j] == t.keys[j] by {
                        if j != i as int {
                            assert(s0.keys[j].id != s0.keys[i as int].id);
                        }
                    }
                    assert(self@ =~= t);
                }
            },
            None => {
                proof {
                    assert forall|j: int| 0 <= j < s0.keys.len() implies self@.keys[j] == t.keys[j] by {
                        assert(s0.keys[j].id != id);
                    }
                    assert(self@ =~= t);
                }
            },
        }
        proof {
            lemma_wf_keys_update(s0, t);
        }
        Ok(())
    }

    /// Step one of the quorum delete: conditionally move a public record
    /// that is neither pending deletion nor deleted to `PendingDelete`.
    fn mark_pending(&mut self, id: i32)
        requires
            old(self).wf(),
        ensures
            final(self).wf(),
            final(self)@ == spec_mark_pending(old(self)@, id),
    {
        let ghost s0 = self@;
        let ghost t = spec_mark_pending(s0, id);
        match self.find_key_index(id) {
            Some(i) => {
                proof {
                    lemma_key_index_of(s0.keys, id, i as int);
                }
                if self.data_keys[i].visibility == Visibility::Public && self.data_keys[i].key_state
                    != KeyState::PendingDelete && self.data_keys[i].key_state != KeyState::Deleted {
                    self.data_keys[i].key_state = KeyState::PendingDelete;
                }
                proof {
                    assert forall|j: int| 0 <= j < s0.keys.len() implies self@.keys[j] == t.keys[j] by {
                        if j != i as int {
                            assert(s0.keys[j].id != s0.keys[i as int].id);
                        }
                    }
                    assert(self@ =~= t);
                }
            },
            None => {
                proof {
                    assert forall|j: int| 0 <= j < s0.keys.len() implies self@.keys[j] == t.keys[j] by {
                        assert(s0.keys[j].id != id);
                    }
                    assert(self@ =~= t);
                }
            },
        }
        proof {
            lemma_wf_keys_update(s0, t);
        }
    }

    /// Step three of the quorum delete: conditionally delete a public record
    /// once the votes for it reach the quorum threshold.
    fn finalize_delete(&mut self, id: i32)
        requires
            old(self).wf(),
        ensures
            final(self).wf(),
            final(self)@ == spec_finalize_delete(old(self)@, id),
    {
        let ghost s0 = self@;
        let ghost t = spec_finalize_delete(s0, id);
        let cnt = self.request_delete_count(id);
        match self.find_key_index(id) {
            Some(i) => {
                proof {
                    lemma_key_index_of(s0.keys, id, i as int);
                }
                if self.data_keys[i].visibility == Visibility::Public && self.data_keys[i].key_state
                    != KeyState::Deleted && cnt >= crate::DELETE_THRESHOLD {
                    self.data_keys[i].key_state = KeyState::Deleted;
                }
                proof {
                    assert forall|j: int| 0 <= j < s0.keys.len() implies self@.keys[j] == t.keys[j] by {
                        if j != i as int {
                            assert(s0.keys[j].id != s0.keys[i as int].id);
                        }
                    }
                    assert(self@ =~= t);
                }
            },
            None => {
                proof {
                    assert forall|j: int| 0 <= j < s0.keys.len() implies self@.keys[j] == t.keys[j] by {
                        assert(s0.keys[j].id != id);
                    }
                    assert(self@ =~= t);
                }
            },
        }
        proof {
            lemma_wf_keys_update(s0, t);
        }
    }

    /// Second half of the cancellation: conditionally move a public record
    /// with no remaining votes to `Disabled`.
    fn disable_if_unvoted(&mut self, id: i32)
        requires
            old(self).wf(),
        ensures
            final(self).wf(),
            final(self)@ == spec_disable_if_unvoted(old(self)@, id),
    {
        let ghost s0 = self@;
        let ghost t = spec_disable_if_unvoted(s0, id);
        let cnt = self.request_delete_count(id);
        match self.find_key_index(id) {
            Some(i) => {
                proof {
                    lemma_key_index_of(s0.keys, id, i as int);
                }
                if self.data_keys[i].visibility == Visibility::Public && self.data_keys[i].key_state
                    != KeyState::Deleted && cnt == 0 {
                    self.data_keys[i].key_state = KeyState::Disabled;
                }
                proof {
                    assert forall|j: int| 0 <= j < s0.keys.len() implies self@.keys[j] == t.keys[j] by {
                        if j != i as int {
                            assert(s0.keys[j].id != s0.keys[i as int].id);
                        }
                    }
                    assert(self@ =~= t);
                }
            },
            None => {
                proof {
                    assert forall|j: int| 0 <= j < s0.keys.len() implies self@.keys[j] == t.keys[j] by {
                        assert(s0.keys[j].id != id);
                    }
                    assert(self@ =~= t);
                }
            },
        }
        proof {
            lemma_wf_keys_update(s0, t);
        }
    }

    /// Step two of the quorum delete: register the approver's vote,
    /// idempotently. A pair that already voted is left as it is.
    fn create_request_delete(&mut self, user_id: i32, id: i32) -> (r: Result<(), Error>)
        requires
            old(self).wf(),
        ensures
            final(self).wf(),
            exists|t: i64| final(self)@ == #[trigger] spec_add_vote(old(self)@, user_id, id, t),
            r == Ok::<(), Error>(()),
    {
        let ghost s0 = self@;
        match self.find_vote_index(user_id, id) {
            Some(i) => {
                proof {
                    assert(vote_matches(s0.votes[i as int], user_id, id));
                    assert(has_vote(s0.votes, user_id, id));
                    assert(self@ == spec_add_vote(s0, user_id, id, 0i64));
                }
            },
            None => {
                let ts = now_timestamp();
                self.request_deletes.push(RequestDelete { user_id, key_id: id, create_at: ts });
                proof {
                    assert(self@ =~= spec_add_vote(s0, user_id, id, ts));
                    lemma_wf_add_vote(s0, user_id, id, ts);
                }
            },
        }
        Ok(())
    }

    /// Retract the approver's vote for the key, if one is present.
    fn delete_request_delete(&mut self, user_id: i32, id: i32) -> (r: Result<(), Error>)
        requires
            old(self).wf(),
        ensures
            final(self).wf(),
            final(self)@ == spec_remove_vote(old(self)@, user_id, id),
            r == Ok::<(), Error>(()),
    {
        let ghost s0 = self@;
        match self.find_vote_index(user_id, id) {
            Some(i) => {
                proof {
                    lemma_vote_index_of(s0.votes, user_id, id, i as int);
                }
                self.request_deletes.remove(i);
                proof {
                    assert(self@ =~= spec_remove_vote(s0, user_id, id));
                    lemma_wf_remove_vote(s0, user_id, id);
                }
            },
            None => {},
        }
        Ok(())
    }

    /// The quorum-delete request: three independent conditional writes.
    /// The record is moved to `PendingDelete` unless it already is or is
    /// deleted; the approver's vote is registered idempotently; the record
    /// is deleted once the quorum threshold of votes is reached.
    pub fn request_delete_public_key(&mut self, user_id: i32, id: i32) -> (r: Result<(), Error>)
        requires
            old(self).wf(),
        ensures
            final(self).wf(),
            exists|t: i64|
                final(self)@ == #[trigger] spec_request_delete(old(self)@, user_id, id, t),
            r == Ok::<(), Error>(()),
    {
        let ghost s0 = self@;
        self.mark_pending(id);
        let ghost s1 = self@;
        let _ = self.create_request_delete(user_id, id);
        let ghost s2 = self@;
        self.finalize_delete(id);
        proof {
            let t = choose|t: i64| s2 == #[trigger] spec_add_vote(s1, user_id, id, t);
            assert(self@ == spec_request_delete(s0, user_id, id, t));
        }
        Ok(())
    }

    /// Cancel a delete request: retract the approver's vote, then move the
    /// record to `Disabled` if no votes remain. Cancellation always lands on
    /// `Disabled`, never back on the state the record had before the delete
    /// request began.
    pub fn cancel_delete_public_key(&mut self, user_id: i32, id: i32) -> (r: Result<(), Error>)
        requires
            old(self).wf(),
        ensures
            final(self).wf(),
            final(self)@ == spec_cancel_delete(old(self)@, user_id, id),
            r == Ok::<(), Error>(()),
    {
        let _ = self.delete_request_delete(user_id, id);
        self.disable_if_unvoted(id);
        Ok(())
    }

    /// Create a key record: validate the identifying fields, persist the
    /// input with the store-assigned id and the initial `Enabled` state, and
    /// return the materialized record as a post-creation re-read.
    pub fn create(&mut self, data_key: DataKey) -> (r: Result<DataKey, Error>)
        requires
            old(self).wf(),
        ensures
            final(self).wf(),
            !valid_create_input(data_key) ==> final(self)@ == old(self)@ && (r matches Err(e)
                && e is ValidationError),
            valid_create_input(data_key) && old(self)@.next_id == i32::MAX ==> final(self)@ == old(
                self,
            )@ && (r matches Err(e) && e is StoreError),
            valid_create_input(data_key) && old(self)@.next_id < i32::MAX ==> r == Ok::<
                DataKey,
                Error,
            >(materialize(data_key, old(self)@.next_id as i32)),
            valid_create_input(data_key) && old(self)@.next_id < i32::MAX ==> final(self)@.keys
                == old(self)@.keys.push(materialize(data_key, old(self)@.next_id as i32)),
            valid_create_input(data_key) && old(self)@.next_id < i32::MAX ==> final(self)@.votes
                == old(self)@.votes && final(self)@.next_id == old(self)@.next_id + 1,
    {
        if data_key.name.as_str().is_empty() || data_key.fingerprint.as_str().is_empty() {
            return Err(Error::ValidationError("name and fingerprint are required".to_owned()));
        }
        if self.next_id == i32::MAX {
            return Err(Error::StoreError("record id space is exhausted".to_owned()));
        }
        let ghost s0 = self@;
        let id = self.next_id;
        let mut rec = data_key;
        rec.id = id;
        rec.key_state = KeyState::Enabled;
        self.next_id = self.next_id + 1;
        self.data_keys.push(rec);
        proof {
            assert(self@.keys == s0.keys.push(materialize(data_key, id)));
            let n = s0.keys.len() as int;
            assert forall|i: int, j: int|
                #![trigger self@.keys[i], self@.keys[j]]
                0 <= i < self@.keys.len() && 0 <= j < self@.keys.len() && i != j implies self@.keys[i].id
                != self@.keys[j].id by {
                if i < n && j < n {
                    assert(s0.keys[i].id != s0.keys[j].id);
                } else if i < n {
                    assert(s0.keys[i].id < s0.next_id);
                } else {
                    assert(s0.keys[j].id < s0.next_id);
                }
            }
            assert forall|i: int| 0 <= i < self@.keys.len() implies (#[trigger] self@.keys[i]).id
                < self@.next_id by {
                if i < n {
                    assert(s0.keys[i].id < s0.next_id);
                }
            }
            assert(self.wf());
            lemma_key_index_of(self@.keys, id, n);
        }
        self.get_by_id(id)
    }

    /// Read a record by id; a `Deleted` record is permanently invisible.
    pub fn get_by_id(&self, id: i32) -> (r: Result<DataKey, Error>)
        requires
            self.wf(),
        ensures
            r == spec_get_by_id(self@, id),
    {
        match self.find_key_index(id) {
            Some(i) => {
                proof {
                    lemma_key_index_of(self@.keys, id, i as int);
                }
                if self.data_keys[i].key_state != KeyState::Deleted {
                    Ok(self.data_keys[i].clone())
                } else {
                    Err(Error::NotFound)
                }
            },
            None => Err(Error::NotFound),
        }
    }

    /// All non-deleted public records, in store order.
    pub fn get_public_keys(&self) -> (r: Result<Vec<DataKey>, Error>)
        ensures
            r matches Ok(v) && v@ == public_list(self@.keys),
    {
        let mut out: Vec<DataKey> = Vec::new();
        let n = self.data_keys.len();
        let mut i: usize = 0;
        while i < n
            invariant
                i <= n,
                n == self.data_keys@.len(),
                out@ == public_list(self.data_keys@.take(i as int)),
            decreases n - i,
        {
            if self.data_keys[i].key_state != KeyState::Deleted && self.data_keys[i].visibility
                == Visibility::Public {
                out.push(self.data_keys[i].clone());
            }
            proof {
                let pre = self.data_keys@.take(i as int);
                let post = self.data_keys@.take(i as int + 1);
                assert(post.drop_last() =~= pre);
                assert(post.last() == self.data_keys@[i as int]);
            }
            i = i + 1;
        }
        proof {
            assert(self.data_keys@.take(n as int) =~= self.data_keys@);
        }
        Ok(out)
    }

    /// The caller's non-deleted private records, in store order.
    pub fn get_private_keys(&self, user_id: i32) -> (r: Result<Vec<DataKey>, Error>)
        ensures
            r matches Ok(v) && v@ == private_list(self@.keys, user_id),
    {
        let mut out: Vec<DataKey> = Vec::new();
        let n = self.data_keys.len();
        let mut i: usize = 0;
        while i < n
            invariant
                i <= n,
                n == self.data_keys@.len(),
                out@ == private_list(self.data_keys@.take(i as int), user_id),
            decreases n - i,
        {
            if self.data_keys[i].key_state != KeyState::Deleted && self.data_keys[i].visibility
                == Visibility::Private && self.data_keys[i].user == user_id {
                out.push(self.data_keys[i].clone());
            }
            proof {
                let pre = self.data_keys@.take(i as int);
                let post = self.data_keys@.take(i as int + 1);
                assert(post.drop_last() =~= pre);
                assert(post.last() == self.data_keys@[i as int]);
            }
            i = i + 1;
        }
        proof {
            assert(self.data_keys@.take(n as int) =~= self.data_keys@);
        }
        Ok(out)
    }

    /// The unique `Enabled` record matching the type string and name;
    /// `NotFound` when there is no match or the match is ambiguous.
    pub fn get_enabled_key_by_type_and_name(&self, key_type: String, name: String) -> (r: Result<
        DataKey,
        Error,
    >)
        ensures
            r == spec_get_enabled(self@, key_type@, name@),
    {
        let n = self.data_keys.len();
        let mut i: usize = 0;
        let mut cnt: usize = 0;
        let mut first: Option<usize> = None;
        while i < n
            invariant
                i <= n,
                n == self.data_keys@.len(),
                cnt <= i,
                cnt == count_enabled_matches(self.data_keys@.take(i as int), key_type@, name@),
                match first {
                    Some(f) => f < i && enabled_match(self.data_keys@[f as int], key_type@, name@),
                    None => cnt == 0,
                },
            decreases n - i,
        {
            if self.data_keys[i].key_state == KeyState::Enabled
                && self.data_keys[i].key_type.matches_str(&key_type) && self.data_keys[i].name
                == name {
                cnt = cnt + 1;
                if first.is_none() {
                    first = Some(i);
                }
            }
            proof {
                let pre = self.data_keys@.take(i as int);
                let post = self.data_keys@.take(i as int + 1);
                assert(post.drop_last() =~= pre);
                assert(post.last() == self.data_keys@[i as int]);
            }
            i = i + 1;
        }
        proof {
            assert(self.data_keys@.take(n as int) =~= self.data_keys@);
        }
        if cnt == 1 {
            match first {
                Some(f) => {
                    proof {
                        lemma_unique_match(self@.keys, key_type@, name@, f as int);
                    }
                    Ok(self.data_keys[f].clone())
                },
                None => {
                    proof {
                        assert(false);
                    }
                    Err(Error::NotFound)
                },
            }
        } else {
            Err(Error::NotFound)
        }
    }
}

} // verus!
