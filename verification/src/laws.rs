//! Laws of the store, stated and proved over its mathematical image.
//!
//! The executable operations pin their effect to `register_post` and
//! `record_post`; these laws say what sequences of such effects add up
//! to, independently of any one run.

use vstd::prelude::*;

verus! {

use crate::store::{StoreV, lemma_account_index_is, lemma_record_post};

/// Law: registering a fresh, non-empty username with some digest makes
/// exactly that username/digest pair authenticate afterwards, and makes
/// the username taken, so that a second registration of it is rejected
/// as a duplicate.
pub proof fn lemma_register_then_authenticate(s: StoreV, u: Seq<char>, d: Seq<char>)
    requires
        s.wf(),
        u.len() > 0,
        !s.has_account(u),
    ensures
        s.register_post(u, d).wf(),
        s.register_post(u, d).credentials_match(u, d),
        s.register_post(u, d).has_account(u),
{
    let post = s.register_post(u, d);
    let m = s.accounts.len() as int;
    assert(post.accounts[m].username == u && post.accounts[m].digest == d);
    assert forall|i: int, j: int|
        0 <= i < j < post.accounts.len() implies post.accounts[i].username
        != post.accounts[j].username by {
        if j < m {
            assert(s.accounts[i].username != s.accounts[j].username);
        } else {
            assert(post.accounts[i].username == s.accounts[i].username);
            assert(s.accounts[i].username != u);
        }
    }
}

/// Law: probing a registered username with a digest other than the one
/// stored against it never matches.  (Two plaintexts whose digests
/// collide are indistinguishable to the verifier; the premise speaks of
/// the digests themselves.)
pub proof fn lemma_authenticate_wrong_digest(
    s: StoreV,
    u: Seq<char>,
    d: Seq<char>,
    probe: Seq<char>,
)
    requires
        s.wf(),
        s.has_account(u),
        s.account_digest(u) == d,
        probe != d,
    ensures
        !s.credentials_match(u, probe),
{
    if s.credentials_match(u, probe) {
        let i = choose|i: int|
            0 <= i < s.accounts.len() && s.accounts[i].username == u && s.accounts[i].digest
                == probe;
        lemma_account_index_is(s, u, i);
    }
}

/// Law: a username that was never registered matches no digest at all.
pub proof fn lemma_authenticate_unknown_user(s: StoreV, u: Seq<char>)
    requires
        !s.has_account(u),
    ensures
        forall|d: Seq<char>| !s.credentials_match(u, d),
{
    assert forall|d: Seq<char>| !s.credentials_match(u, d) by {
        if s.credentials_match(u, d) {
            let i = choose|i: int|
                0 <= i < s.accounts.len() && s.accounts[i].username == u && s.accounts[i].digest
                    == d;
            assert(s.has_account(u));
        }
    }
}

/// The store after one address is recorded once per user in a sequence
/// of users (repeating or distinct, in that order).
pub open spec fn record_seq(s: StoreV, users: Seq<Seq<char>>, a: Seq<char>) -> StoreV
    decreases users.len(),
{
    if users.len() == 0 {
        s
    } else {
        record_seq(s, users.drop_last(), a).record_post(users.last(), a)
    }
}

/// Law: however often, and by whomever, one address is recorded, the
/// store stays well-formed (so it keeps exactly one row per address),
/// the count of that address grows by exactly the number of records,
/// and the count of every other address is untouched.
pub proof fn lemma_repeated_record(s: StoreV, users: Seq<Seq<char>>, a: Seq<char>)
    requires
        s.wf(),
        a.len() > 0,
        forall|i: int| 0 <= i < users.len() ==> users[i].len() > 0,
    ensures
        record_seq(s, users, a).wf(),
        record_seq(s, users, a).usage_count(a) == s.usage_count(a) + users.len(),
        users.len() > 0 ==> record_seq(s, users, a).has_usage(a),
        forall|b: Seq<char>|
            b != a ==> record_seq(s, users, a).usage_count(b) == s.usage_count(b),
    decreases users.len(),
{
    if users.len() > 0 {
        let front = users.drop_last();
        assert(forall|i: int| 0 <= i < front.len() ==> front[i].len() > 0);
        lemma_repeated_record(s, front, a);
        lemma_record_post(record_seq(s, front, a), users.last(), a);
    }
}

} // verus!
