//! State-machine laws of the key lifecycle, proved over the store model
//! that the operations' contracts use: idempotence of the delete request,
//! the absorbing `Deleted` state, quorum correctness, cancellation
//! correctness, visibility isolation of the enabled-key lookup, and the
//! invisibility of soft-deleted records.

use vstd::prelude::*;

use crate::entity::{KeyState, RequestDelete, Visibility};
use crate::errors::Error;
use crate::model::{
    count_votes_for, enabled_match, has_key, has_vote, key_index, key_of, lemma_count_votes_push,
    lemma_count_votes_remove, lemma_count_votes_zero, lemma_key_index_of, lemma_unique_match,
    lemma_wf_keys_update, lemma_wf_request_delete, spec_add_vote,
    spec_cancel_delete, spec_delete_private, spec_finalize_delete, spec_get_by_id,
    spec_get_enabled, spec_mark_pending, spec_remove_vote, spec_request_delete, spec_update_state,
    vote_matches, with_state, StoreModel,
};

verus! {

/// Requesting deletion is idempotent: after one request the approver holds a
/// vote for the key — exactly one, since the resulting ledger stays free of
/// duplicate pairs — and a second request by the same approver leaves the
/// store exactly as the first left it.
pub proof fn lemma_request_delete_idempotent(
    s: StoreModel,
    user_id: i32,
    id: i32,
    t1: i64,
    t2: i64,
)
    requires
        s.wf(),
    ensures
        spec_request_delete(s, user_id, id, t1).wf(),
        has_vote(spec_request_delete(s, user_id, id, t1).votes, user_id, id),
        spec_request_delete(spec_request_delete(s, user_id, id, t1), user_id, id, t2)
            == spec_request_delete(s, user_id, id, t1),
{
    lemma_wf_request_delete(s, user_id, id, t1);
    let s1 = spec_mark_pending(s, id);
    let s2 = spec_add_vote(s1, user_id, id, t1);
    let r1 = spec_finalize_delete(s2, id);
    assert(r1 == spec_request_delete(s, user_id, id, t1));

    if has_vote(s1.votes, user_id, id) {
        assert(has_vote(s2.votes, user_id, id));
    } else {
        let n = s1.votes.len() as int;
        assert(s2.votes[n] == RequestDelete { user_id, key_id: id, create_at: t1 });
        assert(vote_matches(s2.votes[n], user_id, id));
        assert(has_vote(s2.votes, user_id, id));
    }
    assert(r1.votes == s2.votes);

    let m2 = spec_mark_pending(r1, id);
    assert forall|j: int| 0 <= j < r1.keys.len() implies m2.keys[j] == r1.keys[j] by {
        if r1.keys[j].id == id && r1.keys[j].visibility == Visibility::Public && r1.keys[j].key_state
            != KeyState::PendingDelete && r1.keys[j].key_state != KeyState::Deleted {
            assert(s2.keys[j] == s1.keys[j]);
            if s.keys[j].id == id && s.keys[j].visibility == Visibility::Public && s.keys[j].key_state
                != KeyState::PendingDelete && s.keys[j].key_state != KeyState::Deleted {
                assert(s1.keys[j].key_state == KeyState::PendingDelete);
                assert(r1.keys[j].key_state == KeyState::PendingDelete || r1.keys[j].key_state
                    == KeyState::Deleted);
                assert(false);
            } else {
                assert(s1.keys[j] == s.keys[j]);
                assert(false);
            }
        }
    }
    assert(m2 =~= r1);

    let a2 = spec_add_vote(m2, user_id, id, t2);
    assert(has_vote(m2.votes, user_id, id));
    assert(a2 == m2);

    let f2 = spec_finalize_delete(a2, id);
    assert forall|j: int| 0 <= j < r1.keys.len() implies f2.keys[j] == r1.keys[j] by {
        if a2.keys[j].id == id && a2.keys[j].visibility == Visibility::Public && a2.keys[j].key_state
            != KeyState::Deleted && count_votes_for(a2.votes, id) >= crate::DELETE_THRESHOLD {
            assert(s2.keys[j].id == id && s2.keys[j].visibility == Visibility::Public);
            assert(count_votes_for(s2.votes, id) >= crate::DELETE_THRESHOLD);
            if s2.keys[j].key_state != KeyState::Deleted {
                assert(r1.keys[j].key_state == KeyState::Deleted);
                assert(false);
            } else {
                assert(r1.keys[j] == s2.keys[j]);
                assert(false);
            }
        }
    }
    assert(f2 =~= r1);
    assert(f2 == spec_request_delete(r1, user_id, id, t2));
}

/// `Deleted` is absorbing: once a record's state is `Deleted`, no lifecycle
/// transition changes the record in any way.
pub proof fn lemma_deleted_is_absorbing(
    s: StoreModel,
    i: int,
    id: i32,
    user_id: i32,
    st: KeyState,
    t: i64,
)
    requires
        s.wf(),
        0 <= i < s.keys.len(),
        s.keys[i].key_state == KeyState::Deleted,
    ensures
        spec_update_state(s, id, st).keys[i] == s.keys[i],
        spec_delete_private(s, id, user_id).keys[i] == s.keys[i],
        spec_request_delete(s, user_id, id, t).keys[i] == s.keys[i],
        spec_cancel_delete(s, user_id, id).keys[i] == s.keys[i],
{
    let s1 = spec_mark_pending(s, id);
    assert(s1.keys[i] == s.keys[i]);
    let s2 = spec_add_vote(s1, user_id, id, t);
    assert(s2.keys[i] == s.keys[i]);
    assert(spec_finalize_delete(s2, id).keys[i] == s.keys[i]);
    let c1 = spec_remove_vote(s, user_id, id);
    assert(c1.keys[i] == s.keys[i]);
    assert(spec_cancel_delete(s, user_id, id).keys[i] == s.keys[i]);
}

/// Quorum correctness: starting from a public record with no votes, three
/// distinct approvers requesting deletion move it to `PendingDelete` after
/// the first vote, keep it there after the second, and delete it exactly at
/// the third.
pub proof fn lemma_quorum(
    s: StoreModel,
    id: i32,
    u1: i32,
    u2: i32,
    u3: i32,
    t1: i64,
    t2: i64,
    t3: i64,
)
    requires
        s.wf(),
        has_key(s.keys, id),
        key_of(s.keys, id).visibility == Visibility::Public,
        key_of(s.keys, id).key_state == KeyState::Enabled || key_of(s.keys, id).key_state
            == KeyState::Disabled,
        count_votes_for(s.votes, id) == 0,
        u1 != u2,
        u1 != u3,
        u2 != u3,
    ensures
        ({
            let r1 = spec_request_delete(s, u1, id, t1);
            let r2 = spec_request_delete(r1, u2, id, t2);
            let r3 = spec_request_delete(r2, u3, id, t3);
            &&& key_of(r1.keys, id).key_state == KeyState::PendingDelete
            &&& count_votes_for(r1.votes, id) == 1
            &&& key_of(r2.keys, id).key_state == KeyState::PendingDelete
            &&& count_votes_for(r2.votes, id) == 2
            &&& key_of(r3.keys, id).key_state == KeyState::Deleted
            &&& count_votes_for(r3.votes, id) == 3
        }),
{
    let k = key_index(s.keys, id);
    assert(0 <= k < s.keys.len() && s.keys[k].id == id);
    lemma_count_votes_zero(s.votes, id);

    // first request: the record becomes pending and holds one vote
    let m1 = spec_mark_pending(s, id);
    assert(m1.keys[k] == with_state(s.keys[k], KeyState::PendingDelete));
    assert(!has_vote(s.votes, u1, id)) by {
        if has_vote(s.votes, u1, id) {
            let i = choose|i: int|
                0 <= i < s.votes.len() && vote_matches(#[trigger] s.votes[i], u1, id);
            assert(s.votes[i].key_id == id);
        }
    }
    let a1 = spec_add_vote(m1, u1, id, t1);
    let v1 = RequestDelete { user_id: u1, key_id: id, create_at: t1 };
    assert(a1.votes == s.votes.push(v1));
    lemma_count_votes_push(s.votes, v1, id);
    assert(count_votes_for(a1.votes, id) == 1);
    let r1 = spec_finalize_delete(a1, id);
    assert(r1.keys[k] == a1.keys[k]);
    assert(r1.keys[k].key_state == KeyState::PendingDelete);
    assert(r1.keys[k].id == id);
    assert forall|j: int| 0 <= j < r1.keys.len() implies (#[trigger] r1.keys[j]).id
        == s.keys[j].id by {}
    lemma_wf_keys_update(
        StoreModel { keys: s.keys, votes: r1.votes, next_id: s.next_id },
        r1,
    );
    lemma_key_index_of(r1.keys, id, k);
    assert(key_of(r1.keys, id).key_state == KeyState::PendingDelete);

    // second request: still pending, two votes
    let m2 = spec_mark_pending(r1, id);
    assert(m2.keys[k] == r1.keys[k]);
    assert forall|j: int| 0 <= j < m2.keys.len() implies m2.keys[j] == r1.keys[j] by {
        if j != k {
            assert(r1.keys[j].id == s.keys[j].id);
            assert(s.keys[j].id != s.keys[k].id);
        }
    }
    assert(m2.keys =~= r1.keys);
    assert(!has_vote(m2.votes, u2, id)) by {
        if has_vote(m2.votes, u2, id) {
            let i = choose|i: int|
                0 <= i < m2.votes.len() && vote_matches(#[trigger] m2.votes[i], u2, id);
            if i < s.votes.len() {
                assert(s.votes[i].key_id == id);
            } else {
                assert(m2.votes[i] == v1);
            }
        }
    }
    let a2 = spec_add_vote(m2, u2, id, t2);
    let v2 = RequestDelete { user_id: u2, key_id: id, create_at: t2 };
    assert(a2.votes == m2.votes.push(v2));
    lemma_count_votes_push(m2.votes, v2, id);
    assert(count_votes_for(a2.votes, id) == 2);
    let r2 = spec_request_delete(r1, u2, id, t2);
    assert(r2 == spec_finalize_delete(a2, id));
    assert(r2.keys[k] == a2.keys[k]);
    assert(r2.keys[k].key_state == KeyState::PendingDelete);
    assert forall|j: int| 0 <= j < r2.keys.len() implies (#[trigger] r2.keys[j]).id
        == s.keys[j].id by {}
    lemma_wf_keys_update(
        StoreModel { keys: s.keys, votes: r2.votes, next_id: s.next_id },
        r2,
    );
    lemma_key_index_of(r2.keys, id, k);
    assert(key_of(r2.keys, id).key_state == KeyState::PendingDelete);

    // third request: the quorum is reached and the record is deleted
    let m3 = spec_mark_pending(r2, id);
    assert(m3.keys[k] == r2.keys[k]);
    assert forall|j: int| 0 <= j < m3.keys.len() implies m3.keys[j] == r2.keys[j] by {
        if j != k {
            assert(r2.keys[j].id == s.keys[j].id);
            assert(s.keys[j].id != s.keys[k].id);
        }
    }
    assert(m3.keys =~= r2.keys);
    assert(!has_vote(m3.votes, u3, id)) by {
        if has_vote(m3.votes, u3, id) {
            let i = choose|i: int|
                0 <= i < m3.votes.len() && vote_matches(#[trigger] m3.votes[i], u3, id);
            if i < s.votes.len() {
                assert(s.votes[i].key_id == id);
            } else if i == s.votes.len() {
                assert(m3.votes[i] == v1);
            } else {
                assert(m3.votes[i] == v2);
            }
        }
    }
    let a3 = spec_add_vote(m3, u3, id, t3);
    let v3 = RequestDelete { user_id: u3, key_id: id, create_at: t3 };
    assert(a3.votes == m3.votes.push(v3));
    lemma_count_votes_push(m3.votes, v3, id);
    assert(count_votes_for(a3.votes, id) == 3);
    let r3 = spec_request_delete(r2, u3, id, t3);
    assert(r3 == spec_finalize_delete(a3, id));
    assert(a3.keys[k].id == id && a3.keys[k].visibility == Visibility::Public && a3.keys[k].key_state
        != KeyState::Deleted);
    assert(r3.keys[k] == with_state(a3.keys[k], KeyState::Deleted));
    assert forall|j: int| 0 <= j < r3.keys.len() implies (#[trigger] r3.keys[j]).id
        == s.keys[j].id by {}
    lemma_wf_keys_update(
        StoreModel { keys: s.keys, votes: r3.votes, next_id: s.next_id },
        r3,
    );
    lemma_key_index_of(r3.keys, id, k);
    assert(key_of(r3.keys, id).key_state == KeyState::Deleted);
}

/// Cancellation correctness, emptying case: when the approver holds the only
/// vote for a public, not-yet-deleted record, cancelling retracts it and
/// moves the record to `Disabled` with zero votes remaining.
pub proof fn lemma_cancel_last_vote(s: StoreModel, user_id: i32, id: i32)
    requires
        s.wf(),
        has_key(s.keys, id),
        key_of(s.keys, id).visibility == Visibility::Public,
        key_of(s.keys, id).key_state != KeyState::Deleted,
        has_vote(s.votes, user_id, id),
        count_votes_for(s.votes, id) == 1,
    ensures
        count_votes_for(spec_cancel_delete(s, user_id, id).votes, id) == 0,
        key_of(spec_cancel_delete(s, user_id, id).keys, id).key_state == KeyState::Disabled,
{
    let vi = crate::model::vote_index(s.votes, user_id, id);
    assert(0 <= vi < s.votes.len() && vote_matches(s.votes[vi], user_id, id));
    let s1 = spec_remove_vote(s, user_id, id);
    lemma_count_votes_remove(s.votes, vi, id);
    assert(count_votes_for(s1.votes, id) == 0);
    let k = key_index(s.keys, id);
    assert(0 <= k < s.keys.len() && s.keys[k].id == id);
    let r = spec_cancel_delete(s, user_id, id);
    assert(r.keys[k] == with_state(s.keys[k], KeyState::Disabled));
    assert forall|j: int| 0 <= j < r.keys.len() implies (#[trigger] r.keys[j]).id
        == s.keys[j].id by {}
    lemma_wf_keys_update(StoreModel { keys: s.keys, votes: r.votes, next_id: s.next_id }, r);
    lemma_key_index_of(r.keys, id, k);
    assert(r.votes == s1.votes);
}

/// Cancellation correctness, remaining-vote case: while another approver's
/// vote for the key remains, one approver's cancellation retracts only that
/// approver's vote and changes no record.
pub proof fn lemma_cancel_keeps_state(s: StoreModel, user_id: i32, other: i32, id: i32)
    requires
        s.wf(),
        other != user_id,
        has_vote(s.votes, other, id),
    ensures
        has_vote(spec_cancel_delete(s, user_id, id).votes, other, id),
        spec_cancel_delete(s, user_id, id).keys == s.keys,
{
    let s1 = spec_remove_vote(s, user_id, id);
    let oi = choose|i: int| 0 <= i < s.votes.len() && vote_matches(#[trigger] s.votes[i], other, id);
    assert(vote_matches(s.votes[oi], other, id));
    if has_vote(s.votes, user_id, id) {
        let vi = crate::model::vote_index(s.votes, user_id, id);
        assert(vote_matches(s.votes[vi], user_id, id));
        assert(oi != vi);
        if oi < vi {
            assert(s1.votes[oi] == s.votes[oi]);
            assert(has_vote(s1.votes, other, id));
        } else {
            assert(s1.votes[oi - 1] == s.votes[oi]);
            assert(has_vote(s1.votes, other, id));
        }
    } else {
        assert(s1 == s);
    }
    let wi = choose|i: int|
        0 <= i < s1.votes.len() && vote_matches(#[trigger] s1.votes[i], other, id);
    assert(s1.votes[wi].key_id == id);
    lemma_count_votes_zero(s1.votes, id);
    assert(count_votes_for(s1.votes, id) != 0);
    let r = spec_cancel_delete(s, user_id, id);
    assert forall|j: int| 0 <= j < r.keys.len() implies r.keys[j] == s.keys[j] by {}
    assert(r.keys =~= s.keys);
}

/// Visibility isolation: whenever an `Enabled` public record matches the
/// requested type and name, the lookup never hands back a private record —
/// it returns that public record or reports the match ambiguous.
pub proof fn lemma_visibility_isolation(
    s: StoreModel,
    key_type: Seq<char>,
    name: Seq<char>,
    p: int,
)
    requires
        s.wf(),
        0 <= p < s.keys.len(),
        enabled_match(s.keys[p], key_type, name),
        s.keys[p].visibility == Visibility::Public,
    ensures
        spec_get_enabled(s, key_type, name) matches Ok(k) ==> k == s.keys[p] && k.visibility
            == Visibility::Public,
{
    if spec_get_enabled(s, key_type, name) is Ok {
        lemma_unique_match(s.keys, key_type, name, p);
    }
}

/// Soft-delete invisibility: a record whose state is `Deleted` is reported
/// `NotFound` by the read-by-id lookup.
pub proof fn lemma_deleted_key_not_found(s: StoreModel, id: i32)
    requires
        s.wf(),
        has_key(s.keys, id),
        key_of(s.keys, id).key_state == KeyState::Deleted,
    ensures
        spec_get_by_id(s, id) == Err::<crate::entity::DataKey, Error>(Error::NotFound),
{
}

} // verus!
