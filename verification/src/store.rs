//! The account and address-usage store.
//!
//! Two tables are kept: accounts (one row per username, holding the
//! password digest) and address usage (one row per address, holding the
//! first recorder's username and a use count).  Every operation either
//! applies completely or leaves the store unchanged.

use vstd::prelude::*;

verus! {

use crate::hashing::{hash, spec_digest};
use crate::strutil::str_eq;

/// The internal failure causes; the outward boundary collapses them
/// into a plain success/failure signal.
#[derive(Clone, Copy, Debug, PartialEq, Eq, Structural)]
pub enum ErrorKind {
    /// A required input was blank.
    EmptyField,
    /// Registration hit an already-taken username.
    Duplicate,
    /// The digest computation rejected the input.
    HashFailure,
    /// No row matched the given username and digest (bad username and
    /// bad password are deliberately indistinguishable).
    NoMatch,
    /// The store itself refused the operation (here: a use counter that
    /// can grow no further).
    StoreError,
}

/// A username/password pair as the caller supplies it.
pub struct Login {
    pub username: String,
    pub password: String,
}

/// One account row: a unique username and the digest of its password.
pub struct Account {
    pub username: String,
    pub password_digest: String,
}

/// One address-usage row: a unique address, the username that first
/// recorded it, and how often it was recorded.
pub struct AddressUsage {
    pub address: String,
    pub username: String,
    pub count: u64,
}

/// Mathematical image of an account row.
#[verifier::ext_equal]
pub struct AccountV {
    pub username: Seq<char>,
    pub digest: Seq<char>,
}

/// Mathematical image of an address-usage row.
#[verifier::ext_equal]
pub struct UsageV {
    pub address: Seq<char>,
    pub username: Seq<char>,
    pub count: nat,
}

/// Mathematical image of the whole store.
#[verifier::ext_equal]
pub struct StoreV {
    pub accounts: Seq<AccountV>,
    pub usages: Seq<UsageV>,
}

impl View for Account {
    type V = AccountV;

    open spec fn view(&self) -> AccountV {
        AccountV { username: self.username@, digest: self.password_digest@ }
    }
}

impl View for AddressUsage {
    type V = UsageV;

    open spec fn view(&self) -> UsageV {
        UsageV { address: self.address@, username: self.username@, count: self.count as nat }
    }
}

/// The in-memory store backing the service.
pub struct Store {
    pub accounts: Vec<Account>,
    pub usages: Vec<AddressUsage>,
}

impl View for Store {
    type V = StoreV;

    open spec fn view(&self) -> StoreV {
        StoreV {
            accounts: self.accounts@.map_values(|a: Account| a@),
            usages: self.usages@.map_values(|u: AddressUsage| u@),
        }
    }
}

impl StoreV {
    /// Well-formedness: usernames are unique and non-empty; addresses
    /// are unique and non-empty; every use count is at least one and
    /// carries a non-empty owner.
    pub open spec fn wf(self) -> bool {
        &&& forall|i: int, j: int|
            0 <= i < j < self.accounts.len() ==> self.accounts[i].username
                != self.accounts[j].username
        &&& forall|i: int| 0 <= i < self.accounts.len() ==> self.accounts[i].username.len() > 0
        &&& forall|i: int, j: int|
            0 <= i < j < self.usages.len() ==> self.usages[i].address != self.usages[j].address
        &&& forall|i: int|
            0 <= i < self.usages.len() ==> self.usages[i].count >= 1
                && self.usages[i].address.len() > 0 && self.usages[i].username.len() > 0
    }

    /// Some account row carries this username.
    pub open spec fn has_account(self, u: Seq<char>) -> bool {
        exists|i: int| 0 <= i < self.accounts.len() && self.accounts[i].username == u
    }

    /// The index of the account row for a username.
    pub open spec fn account_index(self, u: Seq<char>) -> int {
        choose|i: int| 0 <= i < self.accounts.len() && self.accounts[i].username == u
    }

    /// The digest stored against a username.
    pub open spec fn account_digest(self, u: Seq<char>) -> Seq<char> {
        self.accounts[self.account_index(u)].digest
    }

    /// Some account row carries exactly this username and digest.
    pub open spec fn credentials_match(self, u: Seq<char>, d: Seq<char>) -> bool {
        exists|i: int|
            0 <= i < self.accounts.len() && self.accounts[i].username == u
                && self.accounts[i].digest == d
    }

    /// Some usage row carries this address.
    pub open spec fn has_usage(self, a: Seq<char>) -> bool {
        exists|i: int| 0 <= i < self.usages.len() && self.usages[i].address == a
    }

    /// The index of the usage row for an address.
    pub open spec fn usage_index(self, a: Seq<char>) -> int {
        choose|i: int| 0 <= i < self.usages.len() && self.usages[i].address == a
    }

    /// How often an address was recorded (zero if never).
    pub open spec fn usage_count(self, a: Seq<char>) -> nat {
        if self.has_usage(a) {
            self.usages[self.usage_index(a)].count
        } else {
            0
        }
    }

    /// The username recorded as the first user of an address.
    pub open spec fn usage_owner(self, a: Seq<char>) -> Seq<char> {
        self.usages[self.usage_index(a)].username
    }

    /// The store after a successful registration: one new account row.
    pub open spec fn register_post(self, u: Seq<char>, d: Seq<char>) -> StoreV {
        StoreV {
            accounts: self.accounts.push(AccountV { username: u, digest: d }),
            usages: self.usages,
        }
    }

    /// The store after a successful usage record: the row for the
    /// address has its count raised by one, or is created with count
    /// one and the recorder as owner.
    pub open spec fn record_post(self, u: Seq<char>, a: Seq<char>) -> StoreV {
        if self.has_usage(a) {
            let i = self.usage_index(a);
            StoreV {
                accounts: self.accounts,
                usages: self.usages.update(
                    i,
                    UsageV {
                        address: self.usages[i].address,
                        username: self.usages[i].username,
                        count: self.usages[i].count + 1,
                    },
                ),
            }
        } else {
            StoreV {
                accounts: self.accounts,
                usages: self.usages.push(UsageV { address: a, username: u, count: 1 }),
            }
        }
    }
}

/// How many answers a top-addresses query may return at most.
pub const TOP_LIMIT: usize = 5;

/// How many usage rows of a sequence belong to a username.
pub open spec fn owned_count_rec(us: Seq<UsageV>, u: Seq<char>) -> nat
    decreases us.len(),
{
    if us.len() == 0 {
        0
    } else {
        owned_count_rec(us.drop_last(), u) + (if us.last().username == u {
            1nat
        } else {
            0nat
        })
    }
}

impl StoreV {
    /// How many usage rows belong to a username.
    pub open spec fn owned_count(self, u: Seq<char>) -> nat {
        owned_count_rec(self.usages, u)
    }

    /// Some usage row belongs to this username and carries this address.
    pub open spec fn is_owned(self, u: Seq<char>, a: Seq<char>) -> bool {
        exists|i: int|
            0 <= i < self.usages.len() && self.usages[i].username == u && self.usages[i].address
                == a
    }

    /// Whether `out` is a correct top-addresses answer for `u`: as many
    /// of the user's addresses as there are, up to `TOP_LIMIT`; pairwise
    /// distinct; in ascending order of use count; and none of the user's
    /// addresses left out counts less than any returned one.
    pub open spec fn top_ok(self, u: Seq<char>, out: Seq<Seq<char>>) -> bool {
        &&& out.len() == (if self.owned_count(u) < TOP_LIMIT as nat {
            self.owned_count(u)
        } else {
            TOP_LIMIT as nat
        })
        &&& forall|k: int| 0 <= k < out.len() ==> self.is_owned(u, #[trigger] out[k])
        &&& forall|k: int, l: int| 0 <= k < l < out.len() ==> out[k] != out[l]
        &&& forall|k: int, l: int|
            0 <= k <= l < out.len() ==> self.usage_count(#[trigger] out[k]) <= self.usage_count(
                #[trigger] out[l],
            )
        &&& forall|k: int, b: Seq<char>|
            #![trigger out[k], self.usage_count(b)]
            0 <= k < out.len() && self.is_owned(u, b) && !out.contains(b)
                ==> self.usage_count(out[k]) <= self.usage_count(b)
    }
}

/// With unique usernames, the row that matches a username is the one at
/// its chosen index.
pub proof fn lemma_account_index_is(s: StoreV, u: Seq<char>, i: int)
    requires
        s.wf(),
        0 <= i < s.accounts.len(),
        s.accounts[i].username == u,
    ensures
        s.has_account(u),
        s.account_index(u) == i,
{
    assert(s.has_account(u));
    let j = s.account_index(u);
    assert(0 <= j < s.accounts.len() && s.accounts[j].username == u);
    if i < j {
        assert(s.accounts[i].username != s.accounts[j].username);
    } else if j < i {
        assert(s.accounts[j].username != s.accounts[i].username);
    }
}

/// With unique addresses, the row that matches an address is the one at
/// its chosen index.
pub proof fn lemma_usage_index_is(s: StoreV, a: Seq<char>, i: int)
    requires
        s.wf(),
        0 <= i < s.usages.len(),
        s.usages[i].address == a,
    ensures
        s.has_usage(a),
        s.usage_index(a) == i,
{
    assert(s.has_usage(a));
    let j = s.usage_index(a);
    assert(0 <= j < s.usages.len() && s.usages[j].address == a);
    if i < j {
        assert(s.usages[i].address != s.usages[j].address);
    } else if j < i {
        assert(s.usages[j].address != s.usages[i].address);
    }
}

/// What one successful usage record does to a well-formed store: the
/// count of the recorded address grows by one, its owner is the first
/// recorder, and every other address is untouched.
pub proof fn lemma_record_post(s: StoreV, u: Seq<char>, a: Seq<char>)
    requires
        s.wf(),
        u.len() > 0,
        a.len() > 0,
    ensures
        s.record_post(u, a).wf(),
        s.record_post(u, a).accounts == s.accounts,
        s.record_post(u, a).has_usage(a),
        s.record_post(u, a).usage_count(a) == s.usage_count(a) + 1,
        s.record_post(u, a).usage_owner(a) == (if s.has_usage(a) {
            s.usage_owner(a)
        } else {
            u
        }),
        forall|b: Seq<char>|
            b != a ==> s.record_post(u, a).usage_count(b) == s.usage_count(b),
        forall|b: Seq<char>|
            b != a && s.has_usage(b) ==> s.record_post(u, a).usage_owner(b) == s.usage_owner(b),
{
    let post = s.record_post(u, a);
    if s.has_usage(a) {
        let i = s.usage_index(a);
        assert(0 <= i < s.usages.len() && s.usages[i].address == a);
        lemma_usage_index_is(s, a, i);
        assert(forall|k: int|
            0 <= k < post.usages.len() ==> post.usages[k].address == s.usages[k].address
                && post.usages[k].username == s.usages[k].username);
        assert(post.wf());
        lemma_usage_index_is(post, a, i);
        assert forall|b: Seq<char>| b != a implies post.usage_count(b) == s.usage_count(b) by {
            if s.has_usage(b) {
                let j = s.usage_index(b);
                assert(0 <= j < s.usages.len() && s.usages[j].address == b);
                lemma_usage_index_is(post, b, j);
            } else if post.has_usage(b) {
                let j = post.usage_index(b);
                assert(0 <= j < post.usages.len() && post.usages[j].address == b);
                assert(s.usages[j].address == b);
            }
        }
        assert forall|b: Seq<char>|
            b != a && s.has_usage(b) implies post.usage_owner(b) == s.usage_owner(b) by {
            let j = s.usage_index(b);
            assert(0 <= j < s.usages.len() && s.usages[j].address == b);
            lemma_usage_index_is(post, b, j);
            lemma_usage_index_is(s, b, j);
        }
    } else {
        let m = s.usages.len() as int;
        assert(post.usages[m].address == a);
        assert forall|i2: int, j: int|
            0 <= i2 < j < post.usages.len() implies post.usages[i2].address
            != post.usages[j].address by {
            if j < m {
                assert(s.usages[i2].address != s.usages[j].address);
            } else {
                assert(post.usages[i2].address == s.usages[i2].address);
            }
        }
        assert(post.wf());
        lemma_usage_index_is(post, a, m);
        assert forall|b: Seq<char>| b != a implies post.usage_count(b) == s.usage_count(b) by {
            if s.has_usage(b) {
                let j = s.usage_index(b);
                assert(0 <= j < s.usages.len() && s.usages[j].address == b);
                lemma_usage_index_is(post, b, j);
            } else if post.has_usage(b) {
                let j = post.usage_index(b);
                assert(0 <= j < post.usages.len() && post.usages[j].address == b);
                assert(j < m);
                assert(s.usages[j].address == b);
            }
        }
        assert forall|b: Seq<char>|
            b != a && s.has_usage(b) implies post.usage_owner(b) == s.usage_owner(b) by {
            let j = s.usage_index(b);
            assert(0 <= j < s.usages.len() && s.usages[j].address == b);
            lemma_usage_index_is(post, b, j);
            lemma_usage_index_is(s, b, j);
        }
    }
}

/// A login is empty when either of its fields is blank.
pub open spec fn login_empty(l: Login) -> bool {
    l.username@.len() == 0 || l.password@.len() == 0
}

/// Checks a login for blank fields.
pub fn empty(login: &Login) -> (r: bool)
    ensures
        r == login_empty(*login),
{
    login.username.as_str().is_empty() || login.password.as_str().is_empty()
}

impl Store {
    /// A fresh store with no rows.
    pub fn new() -> (s: Store)
        ensures
            s@.wf(),
            s@.accounts.len() == 0,
            s@.usages.len() == 0,
    {
        Store { accounts: Vec::new(), usages: Vec::new() }
    }

    /// First-time registration: store a new username/digest pair.
    ///
    /// Blank input is rejected without touching the store; a taken
    /// username is rejected as a duplicate; otherwise exactly one new
    /// account row is appended.
    #[verifier::loop_isolation(false)]
    pub fn register(&mut self, login: &Login) -> (r: Result<(), ErrorKind>)
        requires
            old(self)@.wf(),
        ensures
            final(self)@.wf(),
            r == Err::<(), ErrorKind>(ErrorKind::EmptyField) <==> login_empty(*login),
            r == Err::<(), ErrorKind>(ErrorKind::Duplicate) <==> (!login_empty(*login)
                && old(self)@.has_account(login.username@)),
            r == Ok::<(), ErrorKind>(()) <==> (!login_empty(*login) && !old(
                self,
            )@.has_account(login.username@)),
            r is Ok ==> final(self)@ == old(self)@.register_post(
                login.username@,
                spec_digest(login.password@),
            ),
            r is Err ==> final(self)@ == old(self)@,
    {
        if empty(login) {
            return Err(ErrorKind::EmptyField);
        }
        let digest = match hash(login.password.as_str()) {
            Ok(d) => d,
            Err(_) => {
                return Err(ErrorKind::HashFailure);
            },
        };
        let n = self.accounts.len();
        let mut i: usize = 0;
        while i < n
            invariant
                *self == *old(self),
                n == self.accounts.len(),
                i <= n,
                forall|k: int| 0 <= k < i ==> self.accounts@[k].username@ != login.username@,
            decreases n - i,
        {
            if str_eq(self.accounts[i].username.as_str(), login.username.as_str()) {
                proof {
                    assert(old(self)@.accounts[i as int].username == login.username@);
                }
                return Err(ErrorKind::Duplicate);
            }
            i += 1;
        }
        proof {
            assert forall|k: int|
                0 <= k < old(self)@.accounts.len() implies old(self)@.accounts[k].username
                != login.username@ by {
                assert(self.accounts@[k].username@ != login.username@);
            }
        }
        let row = Account { username: login.username.clone(), password_digest: digest };
        self.accounts.push(row);
        proof {
            assert(self@ =~~= old(self)@.register_post(
                login.username@,
                spec_digest(login.password@),
            ));
            let post = self@;
            assert forall|i2: int, j: int|
                0 <= i2 < j < post.accounts.len() implies post.accounts[i2].username
                != post.accounts[j].username by {
                if j < post.accounts.len() - 1 {
                    assert(old(self)@.wf());
                } else {
                    assert(post.accounts[i2].username != login.username@);
                }
            }
        }
        Ok(())
    }

    /// Authenticate a username/password pair.
    ///
    /// Succeeds exactly when both fields are non-empty and some account
    /// row matches both the username and the digest of the password.
    #[verifier::loop_isolation(false)]
    pub fn authenticate(&self, login: &Login) -> (r: Result<(), ErrorKind>)
        ensures
            r == Err::<(), ErrorKind>(ErrorKind::EmptyField) <==> login_empty(*login),
            r == Ok::<(), ErrorKind>(()) <==> (!login_empty(*login) && self@.credentials_match(
                login.username@,
                spec_digest(login.password@),
            )),
            r == Err::<(), ErrorKind>(ErrorKind::NoMatch) <==> (!login_empty(*login)
                && !self@.credentials_match(login.username@, spec_digest(login.password@))),
    {
        if empty(login) {
            return Err(ErrorKind::EmptyField);
        }
        let digest = match hash(login.password.as_str()) {
            Ok(d) => d,
            Err(_) => {
                return Err(ErrorKind::HashFailure);
            },
        };
        let n = self.accounts.len();
        let mut i: usize = 0;
        while i < n
            invariant
                n == self.accounts.len(),
                i <= n,
                digest@ == spec_digest(login.password@),
                forall|k: int|
                    0 <= k < i ==> !(self.accounts@[k].username@ == login.username@
                        && self.accounts@[k].password_digest@ == digest@),
            decreases n - i,
        {
            if str_eq(self.accounts[i].username.as_str(), login.username.as_str())
                && self.accounts[i].password_digest == digest {
                proof {
                    assert(self@.accounts[i as int].username == login.username@
                        && self@.accounts[i as int].digest == spec_digest(login.password@));
                }
                return Ok(());
            }
            i += 1;
        }
        proof {
            assert forall|k: int|
                0 <= k < self@.accounts.len() implies !(self@.accounts[k].username
                == login.username@ && self@.accounts[k].digest == spec_digest(
                login.password@,
            )) by {
                assert(!(self.accounts@[k].username@ == login.username@
                    && self.accounts@[k].password_digest@ == digest@));
            }
        }
        Err(ErrorKind::NoMatch)
    }

    /// Record one use of an address: create its row with count one, or
    /// raise the existing count by one, as a single indivisible store
    /// update.  The owner stays whoever first recorded the address.
    ///
    /// A counter that can grow no further is refused as a store error,
    /// with the store left unchanged.
    #[verifier::loop_isolation(false)]
    pub fn record_usage(&mut self, username: &str, address: &str) -> (r: Result<(), ErrorKind>)
        requires
            old(self)@.wf(),
        ensures
            final(self)@.wf(),
            r == Err::<(), ErrorKind>(ErrorKind::EmptyField) <==> (username@.len() == 0
                || address@.len() == 0),
            r == Err::<(), ErrorKind>(ErrorKind::StoreError) <==> (username@.len() > 0
                && address@.len() > 0 && old(self)@.usage_count(address@) >= (u64::MAX as nat)),
            r == Ok::<(), ErrorKind>(()) <==> (username@.len() > 0 && address@.len() > 0 && old(
                self,
            )@.usage_count(address@) < (u64::MAX as nat)),
            r is Ok ==> final(self)@ == old(self)@.record_post(username@, address@),
            r is Ok ==> final(self)@.usage_count(address@) == old(self)@.usage_count(address@)
                + 1,
            r is Ok ==> final(self)@.usage_owner(address@) == (if old(self)@.has_usage(address@) {
                old(self)@.usage_owner(address@)
            } else {
                username@
            }),
            r is Ok ==> forall|b: Seq<char>|
                b != address@ ==> final(self)@.usage_count(b) == old(self)@.usage_count(b),
            r is Err ==> final(self)@ == old(self)@,
    {
        if username.is_empty() || address.is_empty() {
            return Err(ErrorKind::EmptyField);
        }
        let n = self.usages.len();
        let mut i: usize = 0;
        while i < n
            invariant
                *self == *old(self),
                n == self.usages.len(),
                i <= n,
                forall|k: int| 0 <= k < i ==> self.usages@[k].address@ != address@,
            decreases n - i,
        {
            if str_eq(self.usages[i].address.as_str(), address) {
                proof {
                    lemma_usage_index_is(old(self)@, address@, i as int);
                }
                if self.usages[i].count == u64::MAX {
                    return Err(ErrorKind::StoreError);
                }
                let row = self.usages.remove(i);
                let bumped = AddressUsage {
                    address: row.address,
                    username: row.username,
                    count: row.count + 1,
                };
                self.usages.insert(i, bumped);
                proof {
                    lemma_record_post(old(self)@, username@, address@);
                    assert(self@ =~~= old(self)@.record_post(username@, address@));
                }
                return Ok(());
            }
            i += 1;
        }
        proof {
            assert forall|k: int|
                0 <= k < old(self)@.usages.len() implies old(self)@.usages[k].address
                != address@ by {
                assert(self.usages@[k].address@ != address@);
            }
            assert(!old(self)@.has_usage(address@));
        }
        let row = AddressUsage { address: address.to_owned(), username: username.to_owned(), count: 1 };
        self.usages.push(row);
        proof {
            lemma_record_post(old(self)@, username@, address@);
            assert(self@ =~~= old(self)@.record_post(username@, address@));
        }
        Ok(())
    }

    /// The user's least-used addresses, at most `TOP_LIMIT` of them, in
    /// ascending order of use count.  An empty username yields an empty
    /// answer without consulting the tables.
    #[verifier::loop_isolation(false)]
    #[verifier::rlimit(100)]
    pub fn top_addresses(&self, username: &str) -> (r: Vec<String>)
        requires
            self@.wf(),
        ensures
            username@.len() == 0 ==> r@.len() == 0,
            username@.len() > 0 ==> self@.top_ok(username@, r@.map_values(|x: String| x@)),
    {
        let mut names: Vec<String> = Vec::new();
        if username.is_empty() {
            return names;
        }
        let ghost v = self@;
        let n = self.usages.len();
        let mut rest: Vec<usize> = Vec::new();
        let mut j: usize = 0;
        while j < n
            invariant
                j <= n,
                rest@.len() == owned_count_rec(v.usages.take(j as int), username@),
                forall|t: int|
                    0 <= t < rest@.len() ==> rest@[t] < j && v.usages[#[trigger] rest@[t] as int].username
                        == username@,
                forall|t1: int, t2: int| 0 <= t1 < t2 < rest@.len() ==> rest@[t1] < rest@[t2],
                forall|k: int|
                    0 <= k < j && v.usages[k].username == username@ ==> rest@.contains(
                        k as usize,
                    ),
            decreases n - j,
        {
            proof {
                assert(v.usages.take(j + 1).drop_last() =~= v.usages.take(j as int));
                assert(v.usages.take(j + 1).last() == v.usages[j as int]);
            }
            let ghost rest0 = rest@;
            if str_eq(self.usages[j].username.as_str(), username) {
                rest.push(j);
                proof {
                    assert(rest@[rest0.len() as int] == j);
                    assert forall|k: int|
                        0 <= k < j + 1 && v.usages[k].username == username@ implies rest@.contains(
                        k as usize,
                    ) by {
                        if k < j {
                            let t = choose|t: int| 0 <= t < rest0.len() && rest0[t] == k as usize;
                            assert(rest@[t] == k as usize);
                        } else {
                            assert(rest@[rest0.len() as int] == k as usize);
                        }
                    }
                }
            } else {
                proof {
                    assert forall|k: int|
                        0 <= k < j + 1 && v.usages[k].username == username@ implies rest@.contains(
                        k as usize,
                    ) by {
                        assert(k != j);
                        let t = choose|t: int| 0 <= t < rest0.len() && rest0[t] == k as usize;
                        assert(rest@[t] == k as usize);
                    }
                }
            }
            j += 1;
        }
        proof {
            assert(v.usages.take(n as int) =~= v.usages);
        }
        let ghost total = v.owned_count(username@);
        let mut out: Vec<usize> = Vec::new();
        while out.len() < TOP_LIMIT && rest.len() > 0
            invariant
                out@.len() + rest@.len() == total,
                out@.len() <= TOP_LIMIT,
                forall|t: int|
                    0 <= t < rest@.len() ==> #[trigger] rest@[t] < v.usages.len()
                        && v.usages[rest@[t] as int].username == username@,
                forall|t: int|
                    0 <= t < out@.len() ==> #[trigger] out@[t] < v.usages.len()
                        && v.usages[out@[t] as int].username == username@,
                forall|t1: int, t2: int| 0 <= t1 < t2 < out@.len() ==> out@[t1] != out@[t2],
                forall|t1: int, t2: int| 0 <= t1 < t2 < rest@.len() ==> rest@[t1] != rest@[t2],
                forall|t1: int, t2: int|
                    0 <= t1 < out@.len() && 0 <= t2 < rest@.len() ==> out@[t1] != rest@[t2],
                forall|k: int|
                    0 <= k < v.usages.len() && v.usages[k].username == username@
                        ==> out@.contains(k as usize) || rest@.contains(k as usize),
                forall|t1: int, t2: int|
                    0 <= t1 <= t2 < out@.len() ==> v.usages[#[trigger] out@[t1] as int].count
                        <= v.usages[#[trigger] out@[t2] as int].count,
                forall|t1: int, t2: int|
                    0 <= t1 < out@.len() && 0 <= t2 < rest@.len() ==> v.usages[#[trigger] out@[t1] as int].count
                        <= v.usages[#[trigger] rest@[t2] as int].count,
            decreases rest@.len(),
        {
            let mut best: usize = 0;
            let mut t: usize = 1;
            while t < rest.len()
                invariant
                    best < t,
                    t <= rest@.len(),
                    forall|q: int|
                        0 <= q < t ==> v.usages[rest@[best as int] as int].count
                            <= v.usages[#[trigger] rest@[q] as int].count,
                decreases rest@.len() - t,
            {
                if self.usages[rest[t]].count < self.usages[rest[best]].count {
                    best = t;
                }
                t += 1;
            }
            let ghost out0 = out@;
            let ghost rest0 = rest@;
            let chosen = rest[best];
            out.push(chosen);
            rest.remove(best);
            proof {
                assert(out@ == out0.push(chosen));
                assert(rest@ == rest0.remove(best as int));
                assert(out@[out0.len() as int] == chosen);
                assert forall|k: int|
                    0 <= k < v.usages.len() && v.usages[k].username == username@ implies
                    out@.contains(k as usize) || rest@.contains(k as usize) by {
                    if out0.contains(k as usize) {
                        let q = choose|q: int| 0 <= q < out0.len() && out0[q] == k as usize;
                        assert(out@[q] == k as usize);
                    } else {
                        let q = choose|q: int| 0 <= q < rest0.len() && rest0[q] == k as usize;
                        if q == best {
                            assert(out@[out0.len() as int] == k as usize);
                        } else if q < best {
                            assert(rest@[q] == k as usize);
                        } else {
                            assert(rest@[q - 1] == k as usize);
                        }
                    }
                }
                assert forall|t1: int, t2: int|
                    0 <= t1 < out@.len() && 0 <= t2 < rest@.len() implies out@[t1]
                    != rest@[t2] by {
                    let s2: int = if t2 < best {
                        t2
                    } else {
                        t2 + 1
                    };
                    assert(rest@[t2] == rest0[s2]);
                    if t1 < out0.len() {
                        assert(out0[t1] != rest0[s2]);
                    } else {
                        assert(out@[t1] == rest0[best as int]);
                        assert(rest0[best as int] != rest0[s2]);
                    }
                }
                assert forall|t1: int, t2: int|
                    0 <= t1 < out@.len() && 0 <= t2 < rest@.len() implies v.usages[out@[t1] as int].count
                    <= v.usages[rest@[t2] as int].count by {
                    let s2: int = if t2 < best {
                        t2
                    } else {
                        t2 + 1
                    };
                    assert(rest@[t2] == rest0[s2]);
                    if t1 < out0.len() {
                        assert(v.usages[out0[t1] as int].count <= v.usages[rest0[s2] as int].count);
                    } else {
                        assert(v.usages[rest0[best as int] as int].count
                            <= v.usages[rest0[s2] as int].count);
                    }
                }
            }
        }
        let m = out.len();
        let mut k: usize = 0;
        while k < m
            invariant
                k <= m,
                m == out@.len(),
                names@.len() == k as nat,
                forall|q: int|
                    0 <= q < k ==> #[trigger] names@[q]@ == v.usages[out@[q] as int].address,
            decreases m - k,
        {
            names.push(self.usages[out[k]].address.clone());
            k += 1;
        }
        proof {
            let outs = names@.map_values(|x: String| x@);
            assert forall|q: int| 0 <= q < outs.len() implies outs[q] == v.usages[out@[q] as int].address
                && v.usage_count(outs[q]) == v.usages[out@[q] as int].count && v.is_owned(
                username@,
                outs[q],
            ) by {
                lemma_usage_index_is(v, v.usages[out@[q] as int].address, out@[q] as int);
            }
            assert forall|k1: int, l1: int| 0 <= k1 < l1 < outs.len() implies outs[k1]
                != outs[l1] by {
                assert(out@[k1] != out@[l1]);
                let i1 = out@[k1] as int;
                let i2 = out@[l1] as int;
                if i1 < i2 {
                    assert(v.usages[i1].address != v.usages[i2].address);
                } else {
                    assert(v.usages[i2].address != v.usages[i1].address);
                }
            }
            assert forall|k1: int, b: Seq<char>|
                0 <= k1 < outs.len() && v.is_owned(username@, b) && !outs.contains(b) implies
                v.usage_count(outs[k1]) <= v.usage_count(b) by {
                let kb = choose|i: int|
                    0 <= i < v.usages.len() && v.usages[i].username == username@
                        && v.usages[i].address == b;
                lemma_usage_index_is(v, b, kb);
                if out@.contains(kb as usize) {
                    let q = choose|q: int| 0 <= q < out@.len() && out@[q] == kb as usize;
                    assert(outs[q] == b);
                } else {
                    assert(rest@.contains(kb as usize));
                    let t2 = choose|t2: int| 0 <= t2 < rest@.len() && rest@[t2] == kb as usize;
                    assert(v.usages[out@[k1] as int].count <= v.usages[rest@[t2] as int].count);
                }
            }
            assert(v.top_ok(username@, outs));
        }
        names
    }
}

} // verus!
