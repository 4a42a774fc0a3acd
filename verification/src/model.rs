//! The mathematical model of the store: the key table, the delete-vote
//! ledger, and the id counter, together with every lifecycle transition as a
//! function on that model. Each transition applies a guarded mutation: a
//! record changes only where the guard predicate holds of its current row,
//! and every guard excludes `Deleted` rows, which makes `Deleted` absorbing.

use vstd::prelude::*;

use crate::entity::{DataKey, KeyState, RequestDelete, Visibility};
use crate::errors::Error;

verus! {

/// Abstract state of the backing store.
#[verifier::ext_equal]
pub ghost struct StoreModel {
    pub keys: Seq<DataKey>,
    pub votes: Seq<RequestDelete>,
    pub next_id: int,
}

/// Record ids are pairwise distinct.
pub open spec fn unique_ids(keys: Seq<DataKey>) -> bool {
    forall|i: int, j: int|
        #![trigger keys[i], keys[j]]
        0 <= i < keys.len() && 0 <= j < keys.len() && i != j ==> keys[i].id != keys[j].id
}

pub open spec fn vote_matches(v: RequestDelete, user_id: i32, key_id: i32) -> bool {
    v.user_id == user_id && v.key_id == key_id
}

/// At most one vote per `(user_id, key_id)` pair.
pub open spec fn unique_votes(votes: Seq<RequestDelete>) -> bool {
    forall|i: int, j: int|
        #![trigger votes[i], votes[j]]
        0 <= i < votes.len() && 0 <= j < votes.len() && i != j ==> !(votes[i].user_id
            == votes[j].user_id && votes[i].key_id == votes[j].key_id)
}

impl StoreModel {
    /// Well-formedness: unique record ids below the id counter and a unique
    /// vote per approver and key.
    pub open spec fn wf(self) -> bool {
        &&& unique_ids(self.keys)
        &&& unique_votes(self.votes)
        &&& 1 <= self.next_id <= i32::MAX
        &&& forall|i: int| 0 <= i < self.keys.len() ==> (#[trigger] self.keys[i]).id < self.next_id
    }
}

pub open spec fn has_key(keys: Seq<DataKey>, id: i32) -> bool {
    exists|i: int| 0 <= i < keys.len() && (#[trigger] keys[i]).id == id
}

pub open spec fn key_index(keys: Seq<DataKey>, id: i32) -> int {
    choose|i: int| 0 <= i < keys.len() && (#[trigger] keys[i]).id == id
}

/// The record with the given id (meaningful under `unique_ids` when
/// `has_key` holds).
pub open spec fn key_of(keys: Seq<DataKey>, id: i32) -> DataKey {
    keys[key_index(keys, id)]
}

pub open spec fn has_vote(votes: Seq<RequestDelete>, user_id: i32, key_id: i32) -> bool {
    exists|i: int| 0 <= i < votes.len() && vote_matches(#[trigger] votes[i], user_id, key_id)
}

pub open spec fn vote_index(votes: Seq<RequestDelete>, user_id: i32, key_id: i32) -> int {
    choose|i: int| 0 <= i < votes.len() && vote_matches(#[trigger] votes[i], user_id, key_id)
}

/// Number of votes cast for a key.
pub open spec fn count_votes_for(votes: Seq<RequestDelete>, key_id: i32) -> nat
    decreases votes.len(),
{
    if votes.len() == 0 {
        0
    } else {
        count_votes_for(votes.drop_last(), key_id) + if votes.last().key_id == key_id {
            1nat
        } else {
            0nat
        }
    }
}

/// The record with `key_state` replaced and every other field kept.
pub open spec fn with_state(k: DataKey, st: KeyState) -> DataKey {
    DataKey {
        id: k.id,
        name: k.name,
        description: k.description,
        user: k.user,
        attributes: k.attributes,
        key_type: k.key_type,
        fingerprint: k.fingerprint,
        private_key: k.private_key,
        public_key: k.public_key,
        certificate: k.certificate,
        create_at: k.create_at,
        expire_at: k.expire_at,
        key_state: st,
        visibility: k.visibility,
    }
}

/// Conditional write: set the state of the record with `id` unless it is
/// already `Deleted`.
pub open spec fn spec_update_state(s: StoreModel, id: i32, st: KeyState) -> StoreModel {
    StoreModel {
        keys: Seq::new(
            s.keys.len(),
            |i: int|
                if s.keys[i].id == id && s.keys[i].key_state != KeyState::Deleted {
                    with_state(s.keys[i], st)
                } else {
                    s.keys[i]
                },
        ),
        votes: s.votes,
        next_id: s.next_id,
    }
}

/// Conditional write: delete a private record owned by the caller.
pub open spec fn spec_delete_private(s: StoreModel, id: i32, user_id: i32) -> StoreModel {
    StoreModel {
        keys: Seq::new(
            s.keys.len(),
            |i: int|
                if s.keys[i].id == id && s.keys[i].visibility == Visibility::Private && s.keys[i].user
                    == user_id && s.keys[i].key_state != KeyState::Deleted {
                    with_state(s.keys[i], KeyState::Deleted)
                } else {
                    s.keys[i]
                },
        ),
        votes: s.votes,
        next_id: s.next_id,
    }
}

/// Conditional write: move a public record that is neither pending deletion
/// nor deleted to `PendingDelete`.
pub open spec fn spec_mark_pending(s: StoreModel, id: i32) -> StoreModel {
    StoreModel {
        keys: Seq::new(
            s.keys.len(),
            |i: int|
                if s.keys[i].id == id && s.keys[i].visibility == Visibility::Public && s.keys[i].key_state
                    != KeyState::PendingDelete && s.keys[i].key_state != KeyState::Deleted {
                    with_state(s.keys[i], KeyState::PendingDelete)
                } else {
                    s.keys[i]
                },
        ),
        votes: s.votes,
        next_id: s.next_id,
    }
}

/// Idempotent vote registration: insert unless the pair already voted.
pub open spec fn spec_add_vote(s: StoreModel, user_id: i32, key_id: i32, cast_at: i64) -> StoreModel {
    if has_vote(s.votes, user_id, key_id) {
        s
    } else {
        StoreModel {
            keys: s.keys,
            votes: s.votes.push(RequestDelete { user_id, key_id, create_at: cast_at }),
            next_id: s.next_id,
        }
    }
}

/// Vote retraction: remove the pair's vote if it is present.
pub open spec fn spec_remove_vote(s: StoreModel, user_id: i32, key_id: i32) -> StoreModel {
    if has_vote(s.votes, user_id, key_id) {
        StoreModel {
            keys: s.keys,
            votes: s.votes.remove(vote_index(s.votes, user_id, key_id)),
            next_id: s.next_id,
        }
    } else {
        s
    }
}

/// Conditional write: delete a public record once the votes for it reach the
/// quorum threshold.
pub open spec fn spec_finalize_delete(s: StoreModel, id: i32) -> StoreModel {
    StoreModel {
        keys: Seq::new(
            s.keys.len(),
            |i: int|
                if s.keys[i].id == id && s.keys[i].visibility == Visibility::Public && s.keys[i].key_state
                    != KeyState::Deleted && count_votes_for(s.votes, id)
                    >= crate::DELETE_THRESHOLD {
                    with_state(s.keys[i], KeyState::Deleted)
                } else {
                    s.keys[i]
                },
        ),
        votes: s.votes,
        next_id: s.next_id,
    }
}

/// Conditional write: move a public record with no remaining votes to
/// `Disabled`.
pub open spec fn spec_disable_if_unvoted(s: StoreModel, id: i32) -> StoreModel {
    StoreModel {
        keys: Seq::new(
            s.keys.len(),
            |i: int|
                if s.keys[i].id == id && s.keys[i].visibility == Visibility::Public && s.keys[i].key_state
                    != KeyState::Deleted && count_votes_for(s.votes, id) == 0 {
                    with_state(s.keys[i], KeyState::Disabled)
                } else {
                    s.keys[i]
                },
        ),
        votes: s.votes,
        next_id: s.next_id,
    }
}

/// The quorum-delete request: mark pending, register the vote, then delete
/// if the quorum is reached. Three independent conditional writes.
pub open spec fn spec_request_delete(s: StoreModel, user_id: i32, id: i32, cast_at: i64) -> StoreModel {
    spec_finalize_delete(spec_add_vote(spec_mark_pending(s, id), user_id, id, cast_at), id)
}

/// The cancellation: retract the vote, then move the record to `Disabled`
/// if no votes remain.
pub open spec fn spec_cancel_delete(s: StoreModel, user_id: i32, id: i32) -> StoreModel {
    spec_disable_if_unvoted(spec_remove_vote(s, user_id, id), id)
}

/// Soft-delete read: a record is visible only while its state is not
/// `Deleted`.
pub open spec fn spec_get_by_id(s: StoreModel, id: i32) -> Result<DataKey, Error> {
    if has_key(s.keys, id) && key_of(s.keys, id).key_state != KeyState::Deleted {
        Ok(key_of(s.keys, id))
    } else {
        Err(Error::NotFound)
    }
}

pub open spec fn visible_public(k: DataKey) -> bool {
    k.key_state != KeyState::Deleted && k.visibility == Visibility::Public
}

pub open spec fn visible_private_of(k: DataKey, user_id: i32) -> bool {
    k.key_state != KeyState::Deleted && k.visibility == Visibility::Private && k.user == user_id
}

/// The non-deleted public records, in store order.
pub open spec fn public_list(keys: Seq<DataKey>) -> Seq<DataKey>
    decreases keys.len(),
{
    if keys.len() == 0 {
        Seq::empty()
    } else {
        let rest = public_list(keys.drop_last());
        if visible_public(keys.last()) {
            rest.push(keys.last())
        } else {
            rest
        }
    }
}

/// The caller's non-deleted private records, in store order.
pub open spec fn private_list(keys: Seq<DataKey>, user_id: i32) -> Seq<DataKey>
    decreases keys.len(),
{
    if keys.len() == 0 {
        Seq::empty()
    } else {
        let rest = private_list(keys.drop_last(), user_id);
        if visible_private_of(keys.last(), user_id) {
            rest.push(keys.last())
        } else {
            rest
        }
    }
}

/// An `Enabled` record matching the requested type string and name.
pub open spec fn enabled_match(k: DataKey, key_type: Seq<char>, name: Seq<char>) -> bool {
    k.key_state == KeyState::Enabled && k.key_type.spec_str() == key_type && k.name@ == name
}

pub open spec fn count_enabled_matches(keys: Seq<DataKey>, key_type: Seq<char>, name: Seq<char>) -> nat
    decreases keys.len(),
{
    if keys.len() == 0 {
        0
    } else {
        count_enabled_matches(keys.drop_last(), key_type, name) + if enabled_match(
            keys.last(),
            key_type,
            name,
        ) {
            1nat
        } else {
            0nat
        }
    }
}

pub open spec fn match_index(keys: Seq<DataKey>, key_type: Seq<char>, name: Seq<char>) -> int {
    choose|i: int| 0 <= i < keys.len() && enabled_match(#[trigger] keys[i], key_type, name)
}

/// The lookup by type and name: the unique `Enabled` match, or `NotFound`
/// when there is none or the match is ambiguous.
pub open spec fn spec_get_enabled(s: StoreModel, key_type: Seq<char>, name: Seq<char>) -> Result<
    DataKey,
    Error,
> {
    if count_enabled_matches(s.keys, key_type, name) == 1 {
        Ok(s.keys[match_index(s.keys, key_type, name)])
    } else {
        Err(Error::NotFound)
    }
}

/// The record materialized by `create`: the input with the store-assigned id
/// and the initial `Enabled` state.
pub open spec fn materialize(k: DataKey, id: i32) -> DataKey {
    with_state(
        DataKey {
            id,
            name: k.name,
            description: k.description,
            user: k.user,
            attributes: k.attributes,
            key_type: k.key_type,
            fingerprint: k.fingerprint,
            private_key: k.private_key,
            public_key: k.public_key,
            certificate: k.certificate,
            create_at: k.create_at,
            expire_at: k.expire_at,
            key_state: k.key_state,
            visibility: k.visibility,
        },
        KeyState::Enabled,
    )
}

/// Input validation for `create`: the identifying fields must be present.
pub open spec fn valid_create_input(k: DataKey) -> bool {
    k.name@.len() > 0 && k.fingerprint@.len() > 0
}

// ---------------------------------------------------------------------------
// Helper lemmas about the model.
// ---------------------------------------------------------------------------

/// Under unique ids, an index holding `id` is the index `key_index` picks.
pub proof fn lemma_key_index_of(keys: Seq<DataKey>, id: i32, i: int)
    requires
        unique_ids(keys),
        0 <= i < keys.len(),
        keys[i].id == id,
    ensures
        has_key(keys, id),
        key_index(keys, id) == i,
        key_of(keys, id) == keys[i],
{
    assert(has_key(keys, id));
    let ci = key_index(keys, id);
    assert(0 <= ci < keys.len() && keys[ci].id == id);
    if ci != i {
        assert(keys[ci].id != keys[i].id);
    }
}

/// Under unique votes, an index matching the pair is the one `vote_index`
/// picks.
pub proof fn lemma_vote_index_of(votes: Seq<RequestDelete>, user_id: i32, key_id: i32, i: int)
    requires
        unique_votes(votes),
        0 <= i < votes.len(),
        vote_matches(votes[i], user_id, key_id),
    ensures
        has_vote(votes, user_id, key_id),
        vote_index(votes, user_id, key_id) == i,
{
    assert(has_vote(votes, user_id, key_id));
    let ci = vote_index(votes, user_id, key_id);
    assert(0 <= ci < votes.len() && vote_matches(votes[ci], user_id, key_id));
    if ci != i {
        assert(!(votes[ci].user_id == votes[i].user_id && votes[ci].key_id == votes[i].key_id));
    }
}

/// A key has no votes exactly when the count is zero.
pub proof fn lemma_count_votes_zero(votes: Seq<RequestDelete>, key_id: i32)
    ensures
        (count_votes_for(votes, key_id) == 0) <==> (forall|i: int|
            0 <= i < votes.len() ==> (#[trigger] votes[i]).key_id != key_id),
    decreases votes.len(),
{
    if votes.len() > 0 {
        lemma_count_votes_zero(votes.drop_last(), key_id);
        assert(forall|i: int|
            0 <= i < votes.len() - 1 ==> votes.drop_last()[i] == #[trigger] votes[i]);
        assert(votes.last() == votes[votes.len() - 1]);
    }
}

/// Appending a vote adds one to the count of its key and nothing to others.
pub proof fn lemma_count_votes_push(votes: Seq<RequestDelete>, v: RequestDelete, key_id: i32)
    ensures
        count_votes_for(votes.push(v), key_id) == count_votes_for(votes, key_id) + if v.key_id
            == key_id {
            1nat
        } else {
            0nat
        },
{
    assert(votes.push(v).drop_last() =~= votes);
    assert(votes.push(v).last() == v);
}

/// Removing a vote subtracts its contribution from the count.
pub proof fn lemma_count_votes_remove(votes: Seq<RequestDelete>, i: int, key_id: i32)
    requires
        0 <= i < votes.len(),
    ensures
        count_votes_for(votes, key_id) == count_votes_for(votes.remove(i), key_id) + if votes[i].key_id
            == key_id {
            1nat
        } else {
            0nat
        },
    decreases votes.len(),
{
    if i == votes.len() - 1 {
        assert(votes.remove(i) =~= votes.drop_last());
    } else {
        lemma_count_votes_remove(votes.drop_last(), i, key_id);
        assert(votes.remove(i).drop_last() =~= votes.drop_last().remove(i));
        assert(votes.remove(i).last() == votes.last());
        assert(votes.drop_last()[i] == votes[i]);
    }
}

/// Two distinct matching indices force the match count to at least two.
pub proof fn lemma_two_matches(
    keys: Seq<DataKey>,
    key_type: Seq<char>,
    name: Seq<char>,
    i: int,
    j: int,
)
    requires
        0 <= i < j < keys.len(),
        enabled_match(keys[i], key_type, name),
        enabled_match(keys[j], key_type, name),
    ensures
        count_enabled_matches(keys, key_type, name) >= 2,
    decreases keys.len(),
{
    lemma_one_match(keys.drop_last(), key_type, name, i);
    if j == keys.len() - 1 {
        assert(keys.drop_last()[i] == keys[i]);
    } else {
        lemma_two_matches(keys.drop_last(), key_type, name, i, j);
    }
}

/// One matching index forces the match count to at least one.
pub proof fn lemma_one_match(keys: Seq<DataKey>, key_type: Seq<char>, name: Seq<char>, i: int)
    requires
        0 <= i < keys.len(),
        enabled_match(keys[i], key_type, name),
    ensures
        count_enabled_matches(keys, key_type, name) >= 1,
    decreases keys.len(),
{
    if i < keys.len() - 1 {
        lemma_one_match(keys.drop_last(), key_type, name, i);
        assert(keys.drop_last()[i] == keys[i]);
    } else {
        assert(keys.last() == keys[i]);
    }
}

/// A transition that only rewrites states keeps the store well-formed.
pub proof fn lemma_wf_keys_update(s: StoreModel, t: StoreModel)
    requires
        s.wf(),
        t.votes == s.votes,
        t.next_id == s.next_id,
        t.keys.len() == s.keys.len(),
        forall|i: int| 0 <= i < s.keys.len() ==> (#[trigger] t.keys[i]).id == s.keys[i].id,
    ensures
        t.wf(),
{
    assert forall|i: int, j: int|
        #![trigger t.keys[i], t.keys[j]]
        0 <= i < t.keys.len() && 0 <= j < t.keys.len() && i != j implies t.keys[i].id
        != t.keys[j].id by {
        assert(s.keys[i].id != s.keys[j].id);
    }
    assert forall|i: int| 0 <= i < t.keys.len() implies (#[trigger] t.keys[i]).id < t.next_id by {
        assert(s.keys[i].id < s.next_id);
    }
}

/// Registering a vote keeps the ledger free of duplicate pairs.
pub proof fn lemma_wf_add_vote(s: StoreModel, user_id: i32, key_id: i32, cast_at: i64)
    requires
        s.wf(),
    ensures
        spec_add_vote(s, user_id, key_id, cast_at).wf(),
{
    let t = spec_add_vote(s, user_id, key_id, cast_at);
    if !has_vote(s.votes, user_id, key_id) {
        let v = RequestDelete { user_id, key_id, create_at: cast_at };
        assert forall|i: int, j: int|
            #![trigger t.votes[i], t.votes[j]]
            0 <= i < t.votes.len() && 0 <= j < t.votes.len() && i != j implies !(t.votes[i].user_id
            == t.votes[j].user_id && t.votes[i].key_id == t.votes[j].key_id) by {
            if i < s.votes.len() && j < s.votes.len() {
                assert(!(s.votes[i].user_id == s.votes[j].user_id && s.votes[i].key_id
                    == s.votes[j].key_id));
            } else if i < s.votes.len() {
                assert(t.votes[j] == v);
                assert(!vote_matches(s.votes[i], user_id, key_id));
            } else {
                assert(t.votes[i] == v);
                assert(!vote_matches(s.votes[j], user_id, key_id));
            }
        }
    }
}

/// Retracting a vote keeps the ledger free of duplicate pairs.
pub proof fn lemma_wf_remove_vote(s: StoreModel, user_id: i32, key_id: i32)
    requires
        s.wf(),
    ensures
        spec_remove_vote(s, user_id, key_id).wf(),
{
    let t = spec_remove_vote(s, user_id, key_id);
    if has_vote(s.votes, user_id, key_id) {
        let vi = vote_index(s.votes, user_id, key_id);
        assert(0 <= vi < s.votes.len() && vote_matches(s.votes[vi], user_id, key_id));
        assert forall|i: int, j: int|
            #![trigger t.votes[i], t.votes[j]]
            0 <= i < t.votes.len() && 0 <= j < t.votes.len() && i != j implies !(t.votes[i].user_id
            == t.votes[j].user_id && t.votes[i].key_id == t.votes[j].key_id) by {
            let oi: int = if i < vi { i } else { i + 1 };
            let oj: int = if j < vi { j } else { j + 1 };
            assert(t.votes[i] == s.votes[oi]);
            assert(t.votes[j] == s.votes[oj]);
            assert(!(s.votes[oi].user_id == s.votes[oj].user_id && s.votes[oi].key_id
                == s.votes[oj].key_id));
        }
    }
}

/// The whole quorum-delete request keeps the store well-formed.
pub proof fn lemma_wf_request_delete(s: StoreModel, user_id: i32, id: i32, t: i64)
    requires
        s.wf(),
    ensures
        spec_request_delete(s, user_id, id, t).wf(),
{
    let s1 = spec_mark_pending(s, id);
    lemma_wf_keys_update(s, s1);
    lemma_wf_add_vote(s1, user_id, id, t);
    let s2 = spec_add_vote(s1, user_id, id, t);
    let s3 = spec_finalize_delete(s2, id);
    lemma_wf_keys_update(s2, s3);
}

/// When the match count is one, any matching index is the one
/// `match_index` picks.
pub proof fn lemma_unique_match(keys: Seq<DataKey>, key_type: Seq<char>, name: Seq<char>, i: int)
    requires
        0 <= i < keys.len(),
        enabled_match(keys[i], key_type, name),
        count_enabled_matches(keys, key_type, name) <= 1,
    ensures
        match_index(keys, key_type, name) == i,
{
    assert(exists|k: int| 0 <= k < keys.len() && enabled_match(#[trigger] keys[k], key_type, name));
    let mi = match_index(keys, key_type, name);
    assert(0 <= mi < keys.len() && enabled_match(keys[mi], key_type, name));
    if mi < i {
        lemma_two_matches(keys, key_type, name, mi, i);
    } else if i < mi {
        lemma_two_matches(keys, key_type, name, i, mi);
    }
}

} // verus!
