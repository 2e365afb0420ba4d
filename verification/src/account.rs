use vstd::prelude::*;

use crate::store::{StoreKey, Stored};

verus! {

/// An account on the ledger (a user, a token contract or this contract
/// itself), identified by the bytes of its address string.
pub struct AccountId {
    pub strkey: Vec<u8>,
}

impl View for AccountId {
    type V = Seq<u8>;

    open spec fn view(&self) -> Seq<u8> {
        self.strkey@
    }
}

/// Byte-wise equality of two byte strings.
fn bytes_equal(a: &Vec<u8>, b: &Vec<u8>) -> (r: bool)
    ensures
        r == (a@ == b@),
{
    let r = *a == *b;
    proof {
        if r {
            assert(a@ =~= b@);
        }
    }
    r
}

impl AccountId {
    /// Builds an account identifier from the bytes of its address string.
    pub fn new(strkey: Vec<u8>) -> (r: AccountId)
        ensures
            r@ == strkey@,
    {
        AccountId { strkey }
    }

    /// Two identifiers name the same account exactly when their bytes agree.
    pub fn same(&self, other: &AccountId) -> (r: bool)
        ensures
            r == (self@ == other@),
    {
        bytes_equal(&self.strkey, &other.strkey)
    }

    /// A copy of this identifier.
    pub fn duplicate(&self) -> (r: AccountId)
        ensures
            r@ == self@,
    {
        AccountId { strkey: self.strkey.clone() }
    }
}

impl Stored for AccountId {
    type Model = Seq<u8>;

    open spec fn model(&self) -> Seq<u8> {
        self@
    }

    fn duplicate(&self) -> (r: AccountId) {
        AccountId::duplicate(self)
    }
}

impl StoreKey for AccountId {
    fn same_key(&self, other: &AccountId) -> (r: bool) {
        self.same(other)
    }
}

/// The name of a community token pool.
pub struct PoolId {
    pub name: Vec<u8>,
}

impl View for PoolId {
    type V = Seq<u8>;

    open spec fn view(&self) -> Seq<u8> {
        self.name@
    }
}

impl PoolId {
    /// Builds a pool name from its bytes.
    pub fn new(name: Vec<u8>) -> (r: PoolId)
        ensures
            r@ == name@,
    {
        PoolId { name }
    }

    /// A copy of this pool name.
    pub fn duplicate(&self) -> (r: PoolId)
        ensures
            r@ == self@,
    {
        PoolId { name: self.name.clone() }
    }
}

impl Stored for PoolId {
    type Model = Seq<u8>;

    open spec fn model(&self) -> Seq<u8> {
        self@
    }

    fn duplicate(&self) -> (r: PoolId) {
        PoolId::duplicate(self)
    }
}

impl StoreKey for PoolId {
    fn same_key(&self, other: &PoolId) -> (r: bool) {
        bytes_equal(&self.name, &other.name)
    }
}

/// The addresses in a list of accounts, in order.
pub open spec fn accounts_model(list: Seq<AccountId>) -> Seq<Seq<u8>> {
    list.map_values(|a: AccountId| a@)
}

impl Stored for Vec<AccountId> {
    type Model = Seq<Seq<u8>>;

    open spec fn model(&self) -> Seq<Seq<u8>> {
        accounts_model(self@)
    }

    fn duplicate(&self) -> (r: Vec<AccountId>) {
        copy_accounts(self)
    }
}

/// A copy of a list of accounts.
pub fn copy_accounts(list: &Vec<AccountId>) -> (r: Vec<AccountId>)
    ensures
        accounts_model(r@) == accounts_model(list@),
{
    let mut r: Vec<AccountId> = Vec::new();
    let n: usize = list.len();
    let mut i: usize = 0;
    while i < n
        invariant
            n == list.len(),
            i <= n,
            accounts_model(r@) =~= accounts_model(list@).take(i as int),
        decreases n - i,
    {
        let ghost before = r@;
        let a = list[i].duplicate();
        r.push(a);
        assert(r@ == before.push(a));
        assert(accounts_model(r@) =~= accounts_model(before).push(a@));
        i = i + 1;
    }
    assert(accounts_model(list@).take(n as int) =~= accounts_model(list@));
    r
}

/// Whether `who` occurs in `list`.
pub fn contains_account(list: &Vec<AccountId>, who: &AccountId) -> (r: bool)
    ensures
        r == accounts_model(list@).contains(who@),
{
    match position_of(list, who) {
        Some(_) => true,
        None => false,
    }
}

/// The first position of `x` in `s`, when `x` occurs in `s`.
pub open spec fn first_index<T>(s: Seq<T>, x: T) -> int
    recommends
        s.contains(x),
{
    choose|i: int| 0 <= i < s.len() && s[i] == x && forall|j: int| 0 <= j < i ==> s[j] != x
}

/// `first_index` is the least position that holds `x`.
pub proof fn lemma_first_index<T>(s: Seq<T>, x: T, i: int)
    requires
        0 <= i < s.len(),
        s[i] == x,
        forall|j: int| 0 <= j < i ==> s[j] != x,
    ensures
        first_index(s, x) == i,
{
    let k: int = first_index(s, x);
    assert(0 <= k < s.len() && s[k] == x && forall|j: int| 0 <= j < k ==> s[j] != x);
    if k < i {
        assert(s[k] != x);
    }
    if i < k {
        assert(s[i] != x);
    }
}

/// The position of the first occurrence of `who` in `list`, if any.
pub fn position_of(list: &Vec<AccountId>, who: &AccountId) -> (r: Option<usize>)
    ensures
        match r {
            Some(i) => i < list@.len() && accounts_model(list@).contains(who@) && i == first_index(
                accounts_model(list@),
                who@,
            ),
            None => !accounts_model(list@).contains(who@),
        },
{
    let ghost m = accounts_model(list@);
    let n: usize = list.len();
    let mut i: usize = 0;
    while i < n
        invariant
            n == list.len(),
            m == accounts_model(list@),
            i <= n,
            forall|j: int| 0 <= j < i ==> m[j] != who@,
        decreases n - i,
    {
        if list[i].same(who) {
            proof {
                lemma_first_index(m, who@, i as int);
            }
            return Some(i);
        }
        i = i + 1;
    }
    None
}

} // verus!

verus! {

/// Appends `who` to `list`.
pub fn push_account(list: &mut Vec<AccountId>, who: AccountId)
    ensures
        accounts_model(final(list)@) == accounts_model(old(list)@).push(who@),
{
    let ghost before = list@;
    let ghost m = who@;
    list.push(who);
    assert(accounts_model(list@) =~= accounts_model(before).push(m));
}

/// Removes the account at position `i` of `list`.
pub fn remove_account_at(list: &mut Vec<AccountId>, i: usize)
    requires
        i < old(list)@.len(),
    ensures
        accounts_model(final(list)@) == accounts_model(old(list)@).remove(i as int),
{
    let ghost before = list@;
    list.remove(i);
    assert(accounts_model(list@) =~= accounts_model(before).remove(i as int));
}

} // verus!
