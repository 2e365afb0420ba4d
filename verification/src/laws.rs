use vstd::prelude::*;

use crate::account::first_index;
use crate::model::{self, list_of, LinkoraState};

verus! {

// ── Facts about lists ───────────────────────────────────────────────────────

proof fn lemma_push_contains<A>(s: Seq<A>, x: A, y: A)
    ensures
        s.push(x).contains(y) <==> (s.contains(y) || y == x),
{
    if s.contains(y) {
        let k: int = choose|k: int| 0 <= k < s.len() && s[k] == y;
        assert(s.push(x)[k] == y);
    }
    if y == x {
        assert(s.push(x)[s.len() as int] == y);
    }
    if s.push(x).contains(y) {
        let k: int = choose|k: int| 0 <= k < s.push(x).len() && s.push(x)[k] == y;
        if k < s.len() {
            assert(s[k] == y);
        }
    }
}

proof fn lemma_push_no_duplicates<A>(s: Seq<A>, x: A)
    requires
        s.no_duplicates(),
        !s.contains(x),
    ensures
        s.push(x).no_duplicates(),
{
    let t = s.push(x);
    assert forall|i: int, j: int| 0 <= i < t.len() && 0 <= j < t.len() && i != j implies t[i]
        != t[j] by {
        if i == s.len() as int {
            assert(t[j] == s[j]);
        } else if j == s.len() as int {
            assert(t[i] == s[i]);
        }
    }
}

/// Removing the one occurrence of `x` from a list without repetitions
/// leaves exactly the other elements, still without repetitions.
proof fn lemma_remove_first<A>(s: Seq<A>, x: A)
    requires
        s.no_duplicates(),
        s.contains(x),
    ensures
        s.remove(first_index(s, x)).no_duplicates(),
        forall|y: A| #[trigger]
            s.remove(first_index(s, x)).contains(y) <==> (s.contains(y) && y != x),
{
    let w: int = choose|k: int| 0 <= k < s.len() && s[k] == x;
    let i: int = first_index(s, x);
    assert(0 <= i < s.len() && s[i] == x) by {
        assert(0 <= w < s.len() && s[w] == x);
    }
    let r = s.remove(i);
    assert(r.len() == s.len() - 1);
    assert forall|k: int| 0 <= k < r.len() implies #[trigger] r[k] == (if k < i {
        s[k]
    } else {
        s[k + 1]
    }) by {}
    assert forall|a: int, b: int| 0 <= a < r.len() && 0 <= b < r.len() && a != b implies r[a]
        != r[b] by {
        let sa: int = if a < i { a } else { a + 1 };
        let sb: int = if b < i { b } else { b + 1 };
        assert(r[a] == s[sa]);
        assert(r[b] == s[sb]);
    }
    assert forall|y: A| #[trigger] r.contains(y) <==> (s.contains(y) && y != x) by {
        if r.contains(y) {
            let k: int = choose|k: int| 0 <= k < r.len() && r[k] == y;
            let sk: int = if k < i { k } else { k + 1 };
            assert(s[sk] == y);
            assert(sk != i);
        }
        if s.contains(y) && y != x {
            let k: int = choose|k: int| 0 <= k < s.len() && s[k] == y;
            assert(k != i);
            let rk: int = if k < i { k } else { k - 1 };
            assert(r[rk] == y);
        }
    }
}

// ── The follow graph ────────────────────────────────────────────────────────

/// The follow graph is consistent: `b` is among the accounts that `a`
/// follows exactly when `a` is among the followers of `b`, and no list
/// names an account twice.
pub open spec fn graph_consistent(s: LinkoraState) -> bool {
    &&& forall|a: Seq<u8>, b: Seq<u8>|
        #![trigger list_of(s.following, a).contains(b)]
        #![trigger list_of(s.followers, b).contains(a)]
        list_of(s.following, a).contains(b) <==> list_of(s.followers, b).contains(a)
    &&& forall|a: Seq<u8>| #[trigger] list_of(s.following, a).no_duplicates()
    &&& forall|a: Seq<u8>| #[trigger] list_of(s.followers, a).no_duplicates()
}

/// Following keeps the follow graph consistent.
pub proof fn lemma_follow_keeps_graph(s: LinkoraState, follower: Seq<u8>, followee: Seq<u8>)
    requires
        graph_consistent(s),
    ensures
        graph_consistent(model::spec_follow(s, follower, followee)),
{
    let t = model::spec_follow(s, follower, followee);
    let fl = list_of(s.following, follower);
    let fr = list_of(s.followers, followee);
    if !fl.contains(followee) {
        assert(!fr.contains(follower));
        lemma_push_no_duplicates(fl, followee);
        lemma_push_no_duplicates(fr, follower);
        assert forall|a: Seq<u8>, b: Seq<u8>|
            list_of(t.following, a).contains(b) <==> list_of(t.followers, b).contains(a) by {
            lemma_push_contains(fl, followee, b);
            lemma_push_contains(fr, follower, a);
            assert(list_of(s.following, a).contains(b) <==> list_of(s.followers, b).contains(a));
        }
        assert forall|a: Seq<u8>| #[trigger] list_of(t.following, a).no_duplicates() by {
            assert(list_of(s.following, a).no_duplicates());
        }
        assert forall|a: Seq<u8>| #[trigger] list_of(t.followers, a).no_duplicates() by {
            assert(list_of(s.followers, a).no_duplicates());
        }
    }
}

/// Unfollowing keeps the follow graph consistent.
pub proof fn lemma_unfollow_keeps_graph(s: LinkoraState, follower: Seq<u8>, followee: Seq<u8>)
    requires
        graph_consistent(s),
    ensures
        graph_consistent(model::spec_unfollow(s, follower, followee)),
{
    let t = model::spec_unfollow(s, follower, followee);
    let fl = list_of(s.following, follower);
    let fr = list_of(s.followers, followee);
    if fl.contains(followee) {
        assert(fr.contains(follower));
        assert(fl.no_duplicates());
        assert(fr.no_duplicates());
        lemma_remove_first(fl, followee);
        lemma_remove_first(fr, follower);
        assert forall|a: Seq<u8>, b: Seq<u8>|
            list_of(t.following, a).contains(b) <==> list_of(t.followers, b).contains(a) by {
            assert(list_of(s.following, a).contains(b) <==> list_of(s.followers, b).contains(a));
            if a == follower {
                assert(fl.contains(b) <==> list_of(s.followers, b).contains(a));
            }
            if b == followee {
                assert(list_of(s.following, a).contains(b) <==> fr.contains(a));
            }
        }
        assert forall|a: Seq<u8>| #[trigger] list_of(t.following, a).no_duplicates() by {
            assert(list_of(s.following, a).no_duplicates());
        }
        assert forall|a: Seq<u8>| #[trigger] list_of(t.followers, a).no_duplicates() by {
            assert(list_of(s.followers, a).no_duplicates());
        }
    }
}

} // verus!

verus! {

// ── Consistency of the whole state ──────────────────────────────────────────

/// What holds of every state that the contract reaches from deployment:
/// the profile counter counts the profiles; every post lies under its own
/// id, which is at most the post counter; every pool has a non-negative
/// balance and a threshold that its admins can meet; the fee rate is at
/// most 10000 basis points; admin, treasury and fee rate are set together,
/// exactly when the contract is initialized; and the follow graph is
/// consistent.
pub open spec fn consistent(s: LinkoraState) -> bool {
    &&& s.profiles.dom().finite()
    &&& model::count_of(s.profile_count) == s.profiles.dom().len()
    &&& forall|id: u64| #[trigger]
        s.posts.contains_key(id) ==> 1 <= id <= model::count_of(s.post_count) && s.posts[id].id
            == id
    &&& forall|p: Seq<u8>| #[trigger]
        s.pools.contains_key(p) ==> s.pools[p].balance >= 0 && model::threshold_ok(
            s.pools[p].threshold,
            s.pools[p].admins,
        )
    &&& (s.fee_bps matches Some(f) ==> f <= model::MAX_FEE_BPS)
    &&& s.initialized != Some(false)
    &&& (s.initialized == Some(true)) == (s.admin is Some)
    &&& (s.treasury is Some) == (s.admin is Some)
    &&& (s.fee_bps is Some) == (s.admin is Some)
    &&& graph_consistent(s)
}

/// A call of the contract that may change its state.
pub enum Call {
    SetProfile { user: Seq<u8>, username: Seq<u8>, creator_token: Seq<u8> },
    Follow { follower: Seq<u8>, followee: Seq<u8> },
    Unfollow { follower: Seq<u8>, followee: Seq<u8> },
    CreatePost { author: Seq<u8>, content: Seq<u8>, timestamp: u64 },
    DeletePost { author: Seq<u8>, post_id: u64 },
    Tip { tipper: Seq<u8>, post_id: u64, token: Seq<u8>, amount: i128 },
    CreatePool {
        admin: Seq<u8>,
        pool_id: Seq<u8>,
        token: Seq<u8>,
        initial_admins: Seq<Seq<u8>>,
        threshold: u32,
    },
    PoolDeposit { depositor: Seq<u8>, pool_id: Seq<u8>, token: Seq<u8>, amount: i128 },
    PoolWithdraw { signers: Seq<Seq<u8>>, pool_id: Seq<u8>, amount: i128, recipient: Seq<u8> },
    UpdatePoolAdmins {
        signers: Seq<Seq<u8>>,
        pool_id: Seq<u8>,
        new_admins: Seq<Seq<u8>>,
        new_threshold: u32,
    },
    Initialize { admin: Seq<u8>, treasury: Seq<u8>, fee_bps: u32 },
    SetFee { fee_bps: u32 },
    SetTreasury { treasury: Seq<u8> },
    Upgrade { new_wasm_hash: Seq<u8> },
}

/// The outcome of one call.
pub open spec fn step(s: LinkoraState, c: Call) -> Result<LinkoraState, crate::types::LinkoraError> {
    match c {
        Call::SetProfile { user, username, creator_token } => model::spec_set_profile(
            s,
            user,
            username,
            creator_token,
        ),
        Call::Follow { follower, followee } => Ok(model::spec_follow(s, follower, followee)),
        Call::Unfollow { follower, followee } => Ok(model::spec_unfollow(s, follower, followee)),
        Call::CreatePost { author, content, timestamp } => model::spec_create_post(
            s,
            author,
            content,
            timestamp,
        ),
        Call::DeletePost { author, post_id } => model::spec_delete_post(s, author, post_id),
        Call::Tip { tipper, post_id, token, amount } => model::spec_tip(
            s,
            tipper,
            post_id,
            token,
            amount,
        ),
        Call::CreatePool { admin, pool_id, token, initial_admins, threshold } =>
            model::spec_create_pool(s, admin, pool_id, token, initial_admins, threshold),
        Call::PoolDeposit { depositor, pool_id, token, amount } => model::spec_pool_deposit(
            s,
            depositor,
            pool_id,
            token,
            amount,
        ),
        Call::PoolWithdraw { signers, pool_id, amount, recipient } => model::spec_pool_withdraw(
            s,
            signers,
            pool_id,
            amount,
            recipient,
        ),
        Call::UpdatePoolAdmins { signers, pool_id, new_admins, new_threshold } =>
            model::spec_update_pool_admins(s, signers, pool_id, new_admins, new_threshold),
        Call::Initialize { admin, treasury, fee_bps } => model::spec_initialize(
            s,
            admin,
            treasury,
            fee_bps,
        ),
        Call::SetFee { fee_bps } => model::spec_set_fee(s, fee_bps),
        Call::SetTreasury { treasury } => model::spec_set_treasury(s, treasury),
        Call::Upgrade { new_wasm_hash } => model::spec_upgrade(s, new_wasm_hash),
    }
}

/// The state after one call: a refused call leaves the state as it was.
pub open spec fn after(s: LinkoraState, c: Call) -> LinkoraState {
    match step(s, c) {
        Ok(t) => t,
        Err(_) => s,
    }
}

/// The state after a sequence of calls.
pub open spec fn run(s: LinkoraState, calls: Seq<Call>) -> LinkoraState
    decreases calls.len(),
{
    if calls.len() == 0 {
        s
    } else {
        after(run(s, calls.drop_last()), calls.last())
    }
}

/// A freshly deployed contract is consistent.
pub proof fn lemma_initial_consistent(address: Seq<u8>)
    ensures
        consistent(model::initial_state(address)),
{
    let s = model::initial_state(address);
    assert(s.profiles.dom() =~= Set::empty());
    assert forall|a: Seq<u8>, b: Seq<u8>|
        list_of(s.following, a).contains(b) <==> list_of(s.followers, b).contains(a) by {}
    assert forall|a: Seq<u8>| #[trigger] list_of(s.following, a).no_duplicates() by {}
    assert forall|a: Seq<u8>| #[trigger] list_of(s.followers, a).no_duplicates() by {}
}

proof fn lemma_set_profile_keeps(s: LinkoraState, user: Seq<u8>, username: Seq<u8>, token: Seq<u8>)
    requires
        consistent(s),
        model::spec_set_profile(s, user, username, token) is Ok,
    ensures
        consistent(model::spec_set_profile(s, user, username, token)->Ok_0),
{
    let t = model::spec_set_profile(s, user, username, token)->Ok_0;
    if s.profiles.contains_key(user) {
        assert(t.profiles.dom() =~= s.profiles.dom());
    } else {
        assert(t.profiles.dom() =~= s.profiles.dom().insert(user));
    }
}

proof fn lemma_create_post_keeps(s: LinkoraState, author: Seq<u8>, content: Seq<u8>, timestamp: u64)
    requires
        consistent(s),
        model::spec_create_post(s, author, content, timestamp) is Ok,
    ensures
        consistent(model::spec_create_post(s, author, content, timestamp)->Ok_0),
{
    let t = model::spec_create_post(s, author, content, timestamp)->Ok_0;
    assert forall|id: u64| #[trigger]
        t.posts.contains_key(id) implies 1 <= id <= model::count_of(t.post_count) && t.posts[id].id
        == id by {
        if id != model::next_post_id(s) {
            assert(s.posts.contains_key(id));
        }
    }
}

proof fn lemma_delete_post_keeps(s: LinkoraState, author: Seq<u8>, post_id: u64)
    requires
        consistent(s),
        model::spec_delete_post(s, author, post_id) is Ok,
    ensures
        consistent(model::spec_delete_post(s, author, post_id)->Ok_0),
{
    let t = model::spec_delete_post(s, author, post_id)->Ok_0;
    assert forall|id: u64| #[trigger]
        t.posts.contains_key(id) implies 1 <= id <= model::count_of(t.post_count) && t.posts[id].id
        == id by {
        assert(s.posts.contains_key(id));
    }
}

proof fn lemma_tip_keeps(s: LinkoraState, tipper: Seq<u8>, post_id: u64, token: Seq<u8>, amount: i128)
    requires
        consistent(s),
        model::spec_tip(s, tipper, post_id, token, amount) is Ok,
    ensures
        consistent(model::spec_tip(s, tipper, post_id, token, amount)->Ok_0),
{
    let t = model::spec_tip(s, tipper, post_id, token, amount)->Ok_0;
    assert forall|id: u64| #[trigger]
        t.posts.contains_key(id) implies 1 <= id <= model::count_of(t.post_count) && t.posts[id].id
        == id by {
        assert(s.posts.contains_key(id));
    }
}

proof fn lemma_pool_calls_keep(s: LinkoraState, c: Call)
    requires
        consistent(s),
        step(s, c) is Ok,
        c is CreatePool || c is PoolDeposit || c is PoolWithdraw || c is UpdatePoolAdmins,
    ensures
        consistent(step(s, c)->Ok_0),
{
    let t = step(s, c)->Ok_0;
    assert forall|p: Seq<u8>| #[trigger]
        t.pools.contains_key(p) implies t.pools[p].balance >= 0 && model::threshold_ok(
        t.pools[p].threshold,
        t.pools[p].admins,
    ) by {
        match c {
            Call::CreatePool { pool_id, .. } => {
                if p != pool_id {
                    assert(s.pools.contains_key(p));
                }
            },
            Call::PoolDeposit { pool_id, .. } => {
                assert(s.pools.contains_key(p));
            },
            Call::PoolWithdraw { pool_id, .. } => {
                assert(s.pools.contains_key(p));
            },
            Call::UpdatePoolAdmins { pool_id, .. } => {
                assert(s.pools.contains_key(p));
            },
            _ => {},
        }
    }
}

/// Every call that the contract accepts keeps its state consistent.
pub proof fn lemma_step_keeps_consistency(s: LinkoraState, c: Call)
    requires
        consistent(s),
    ensures
        consistent(after(s, c)),
{
    if step(s, c) is Ok {
        match c {
            Call::SetProfile { user, username, creator_token } => {
                lemma_set_profile_keeps(s, user, username, creator_token);
            },
            Call::Follow { follower, followee } => {
                lemma_follow_keeps_graph(s, follower, followee);
            },
            Call::Unfollow { follower, followee } => {
                lemma_unfollow_keeps_graph(s, follower, followee);
            },
            Call::CreatePost { author, content, timestamp } => {
                lemma_create_post_keeps(s, author, content, timestamp);
            },
            Call::DeletePost { author, post_id } => {
                lemma_delete_post_keeps(s, author, post_id);
            },
            Call::Tip { tipper, post_id, token, amount } => {
                lemma_tip_keeps(s, tipper, post_id, token, amount);
            },
            Call::CreatePool { .. } => {
                lemma_pool_calls_keep(s, c);
            },
            Call::PoolDeposit { .. } => {
                lemma_pool_calls_keep(s, c);
            },
            Call::PoolWithdraw { .. } => {
                lemma_pool_calls_keep(s, c);
            },
            Call::UpdatePoolAdmins { .. } => {
                lemma_pool_calls_keep(s, c);
            },
            _ => {},
        }
    }
}

/// Every state that the contract reaches from deployment, through any
/// sequence of calls, accepted or refused, is consistent.
pub proof fn lemma_reachable_consistent(address: Seq<u8>, calls: Seq<Call>)
    ensures
        consistent(run(model::initial_state(address), calls)),
    decreases calls.len(),
{
    if calls.len() == 0 {
        lemma_initial_consistent(address);
    } else {
        lemma_reachable_consistent(address, calls.drop_last());
        lemma_step_keeps_consistency(run(model::initial_state(address), calls.drop_last()), calls.last());
    }
}

} // verus!

verus! {

// ── Laws relating calls ─────────────────────────────────────────────────────

/// A profile reads back as it was set.
pub proof fn lemma_profile_read_after_write(
    s: LinkoraState,
    user: Seq<u8>,
    username: Seq<u8>,
    creator_token: Seq<u8>,
)
    requires
        model::spec_set_profile(s, user, username, creator_token) is Ok,
    ensures
        ({
            let t = model::spec_set_profile(s, user, username, creator_token)->Ok_0;
            &&& t.profiles.contains_key(user)
            &&& t.profiles[user] == crate::types::ProfileModel {
                address: user,
                username,
                creator_token,
            }
        }),
{
}

/// A username is accepted exactly when it has between 3 and 32 bytes, each
/// an ASCII letter, an ASCII digit or `_`.
pub proof fn lemma_username_accepted(username: Seq<u8>)
    ensures
        crate::validation::username_verdict(username) is Ok <==> (3 <= username.len() <= 32
            && forall|i: int|
            0 <= i < username.len() ==> crate::validation::is_username_byte(
                #[trigger] username[i],
            )),
{
}

/// After `a` follows `b`, `b` is among the accounts `a` follows and `a` is
/// among the followers of `b`.
pub proof fn lemma_follow_links(s: LinkoraState, a: Seq<u8>, b: Seq<u8>)
    requires
        graph_consistent(s),
    ensures
        list_of(model::spec_follow(s, a, b).following, a).contains(b),
        list_of(model::spec_follow(s, a, b).followers, b).contains(a),
{
    let fl = list_of(s.following, a);
    let fr = list_of(s.followers, b);
    lemma_push_contains(fl, b, b);
    lemma_push_contains(fr, a, a);
    if fl.contains(b) {
        assert(list_of(s.following, a).contains(b));
    }
}

/// After `a` unfollows `b`, neither list links them any more.
pub proof fn lemma_unfollow_unlinks(s: LinkoraState, a: Seq<u8>, b: Seq<u8>)
    requires
        graph_consistent(s),
    ensures
        !list_of(model::spec_unfollow(s, a, b).following, a).contains(b),
        !list_of(model::spec_unfollow(s, a, b).followers, b).contains(a),
{
    let fl = list_of(s.following, a);
    let fr = list_of(s.followers, b);
    assert(fl.no_duplicates());
    assert(fr.no_duplicates());
    if fl.contains(b) {
        assert(fr.contains(a));
        lemma_remove_first(fl, b);
        lemma_remove_first(fr, a);
    } else {
        assert(!fr.contains(a));
    }
}

/// Following twice leaves the graph as following once does.
pub proof fn lemma_follow_idempotent(s: LinkoraState, a: Seq<u8>, b: Seq<u8>)
    ensures
        model::spec_follow(model::spec_follow(s, a, b), a, b).following == model::spec_follow(
            s,
            a,
            b,
        ).following,
        model::spec_follow(model::spec_follow(s, a, b), a, b).followers == model::spec_follow(
            s,
            a,
            b,
        ).followers,
{
    let fl = list_of(s.following, a);
    lemma_push_contains(fl, b, b);
}

/// Unfollowing right after following restores every list of the graph, as
/// read: where `a` did not follow `b`, the accounts each account follows,
/// and the followers of each account, are what they were before.
pub proof fn lemma_unfollow_undoes_follow(s: LinkoraState, a: Seq<u8>, b: Seq<u8>)
    requires
        graph_consistent(s),
        !list_of(s.following, a).contains(b),
    ensures
        forall|x: Seq<u8>|
            #![trigger list_of(s.following, x)]
            list_of(model::spec_unfollow(model::spec_follow(s, a, b), a, b).following, x)
                == list_of(s.following, x),
        forall|x: Seq<u8>|
            #![trigger list_of(s.followers, x)]
            list_of(model::spec_unfollow(model::spec_follow(s, a, b), a, b).followers, x)
                == list_of(s.followers, x),
{
    let fl = list_of(s.following, a);
    let fr = list_of(s.followers, b);
    assert(!fr.contains(a));
    lemma_push_contains(fl, b, b);
    lemma_push_contains(fr, a, a);
    crate::account::lemma_first_index(fl.push(b), b, fl.len() as int);
    crate::account::lemma_first_index(fr.push(a), a, fr.len() as int);
    assert(fl.push(b).remove(fl.len() as int) =~= fl);
    assert(fr.push(a).remove(fr.len() as int) =~= fr);
}

/// A new post receives an id under which nothing is stored, one more than
/// the number of posts created before, and the post counter becomes it.
pub proof fn lemma_create_post_fresh_id(s: LinkoraState, author: Seq<u8>, content: Seq<u8>, timestamp: u64)
    requires
        consistent(s),
        model::spec_create_post(s, author, content, timestamp) is Ok,
    ensures
        !s.posts.contains_key(model::next_post_id(s) as u64),
        model::spec_create_post(s, author, content, timestamp)->Ok_0.post_count == Some(
            model::next_post_id(s) as u64,
        ),
        model::spec_create_post(s, author, content, timestamp)->Ok_0.posts[model::next_post_id(
            s,
        ) as u64].tip_total == 0,
{
}

/// Only the author of a post deletes it, and a deleted post is gone.
pub proof fn lemma_delete_post_by_author(s: LinkoraState, author: Seq<u8>, post_id: u64)
    requires
        model::spec_delete_post(s, author, post_id) is Ok,
    ensures
        s.posts.contains_key(post_id),
        s.posts[post_id].author == author,
        !model::spec_delete_post(s, author, post_id)->Ok_0.posts.contains_key(post_id),
{
}

/// With a rate of at most 10000 basis points, the fee on a non-negative
/// amount is between zero and the amount.
pub proof fn lemma_fee_within_amount(amount: int, fee_bps: int)
    requires
        0 <= amount,
        0 <= fee_bps <= 10000,
    ensures
        0 <= model::trunc_div(amount * fee_bps, 10000) <= amount,
{
    assert(0 <= amount * fee_bps <= amount * 10000) by (nonlinear_arith)
        requires
            0 <= amount,
            0 <= fee_bps <= 10000,
    ;
}

/// The sum of the amounts of the transfers among `effs`.
pub open spec fn transferred(effs: Seq<crate::types::EffectModel>) -> int
    decreases effs.len(),
{
    if effs.len() == 0 {
        0
    } else {
        transferred(effs.drop_last()) + match effs.last() {
            crate::types::EffectModel::Transfer { amount, .. } => amount as int,
            _ => 0,
        }
    }
}

proof fn lemma_transferred_concat(a: Seq<crate::types::EffectModel>, b: Seq<crate::types::EffectModel>)
    ensures
        transferred(a + b) == transferred(a) + transferred(b),
    decreases b.len(),
{
    if b.len() == 0 {
        assert(a + b =~= a);
    } else {
        lemma_transferred_concat(a, b.drop_last());
        assert((a + b).drop_last() =~= a + b.drop_last());
    }
}

/// A tip of a non-negative amount moves exactly that amount out of the
/// tipper's account: the fee (between zero and the amount) to the treasury
/// and the rest to the author; the post's tip total grows by the amount.
pub proof fn lemma_tip_splits_amount(
    s: LinkoraState,
    tipper: Seq<u8>,
    post_id: u64,
    token: Seq<u8>,
    amount: i128,
)
    requires
        consistent(s),
        0 <= amount,
        model::spec_tip(s, tipper, post_id, token, amount) is Ok,
    ensures
        ({
            let t = model::spec_tip(s, tipper, post_id, token, amount)->Ok_0;
            let fee: int = model::tip_fee(s, amount as int);
            &&& 0 <= fee <= amount
            &&& transferred(t.effects.subrange(s.effects.len() as int, t.effects.len() as int))
                == amount
            &&& t.posts[post_id].tip_total == s.posts[post_id].tip_total + amount
        }),
{
    let t = model::spec_tip(s, tipper, post_id, token, amount)->Ok_0;
    let post = s.posts[post_id];
    if s.treasury is Some {
        lemma_fee_within_amount(amount as int, model::fee_rate(s));
    }
    let fee: int = model::tip_fee(s, amount as int);
    let auth_part = seq![model::auth(tipper)];
    let xfers = model::tip_transfers(s, tipper, post.author, token, amount as int);
    let ev = seq![
        model::publish(
            crate::types::EventModel::Tip { tipper, post_id, amount, fee: fee as i128 },
        ),
    ];
    assert(t.effects.subrange(s.effects.len() as int, t.effects.len() as int) =~= auth_part + xfers
        + ev);
    lemma_transferred_concat(auth_part + xfers, ev);
    lemma_transferred_concat(auth_part, xfers);
    reveal_with_fuel(transferred, 3);
    assert(auth_part.drop_last() =~= Seq::<crate::types::EffectModel>::empty());
    assert(ev.drop_last() =~= Seq::<crate::types::EffectModel>::empty());
    if fee > 0 {
        let x = xfers.drop_last();
        assert(x.drop_last() =~= Seq::<crate::types::EffectModel>::empty());
    } else {
        assert(fee == 0);
        assert(xfers.drop_last() =~= Seq::<crate::types::EffectModel>::empty());
    }
}

/// A contract is initialized at most once.
pub proof fn lemma_initialize_once(
    s: LinkoraState,
    admin: Seq<u8>,
    treasury: Seq<u8>,
    fee_bps: u32,
    admin2: Seq<u8>,
    treasury2: Seq<u8>,
    fee_bps2: u32,
)
    requires
        model::spec_initialize(s, admin, treasury, fee_bps) is Ok,
    ensures
        model::spec_initialize(
            model::spec_initialize(s, admin, treasury, fee_bps)->Ok_0,
            admin2,
            treasury2,
            fee_bps2,
        ) == Err::<LinkoraState, crate::types::LinkoraError>(
            crate::types::LinkoraError::AlreadyInitialized,
        ),
{
}

/// The calls reserved to the contract admin succeed only with the admin's
/// authorization asked of the ledger.
pub proof fn lemma_admin_calls_need_admin(s: LinkoraState, c: Call)
    requires
        c is SetFee || c is SetTreasury || c is Upgrade || c is CreatePool,
        step(s, c) is Ok,
    ensures
        s.admin is Some,
        step(s, c)->Ok_0.effects.subrange(
            s.effects.len() as int,
            step(s, c)->Ok_0.effects.len() as int,
        ).contains(model::auth(s.admin->0)),
{
    let t = step(s, c)->Ok_0;
    let new = t.effects.subrange(s.effects.len() as int, t.effects.len() as int);
    match c {
        Call::CreatePool { .. } => {
            assert(new[1] == model::auth(s.admin->0));
        },
        _ => {
            assert(new[0] == model::auth(s.admin->0));
        },
    }
}

/// A withdrawal from a pool succeeds only when at least `threshold` signers
/// are given, each an admin of the pool, each one's authorization asked of
/// the ledger, and the pool holds the amount.
pub proof fn lemma_withdraw_needs_quorum(
    s: LinkoraState,
    signers: Seq<Seq<u8>>,
    pool_id: Seq<u8>,
    amount: i128,
    recipient: Seq<u8>,
)
    requires
        model::spec_pool_withdraw(s, signers, pool_id, amount, recipient) is Ok,
    ensures
        s.pools.contains_key(pool_id),
        signers.len() >= s.pools[pool_id].threshold,
        forall|i: int| 0 <= i < signers.len() ==> s.pools[pool_id].admins.contains(#[trigger] signers[i]),
        forall|i: int|
            0 <= i < signers.len() ==> model::spec_pool_withdraw(s, signers, pool_id, amount, recipient)->Ok_0.effects.contains(
                model::auth(#[trigger] signers[i]),
            ),
        0 < amount <= s.pools[pool_id].balance,
{
    let t = model::spec_pool_withdraw(s, signers, pool_id, amount, recipient)->Ok_0;
    assert forall|i: int| 0 <= i < signers.len() implies t.effects.contains(
        model::auth(#[trigger] signers[i]),
    ) by {
        assert(t.effects[s.effects.len() + i] == model::auth(signers[i]));
    }
}

/// A deposit followed by a withdrawal of the same amount leaves the pool's
/// balance where it was.
pub proof fn lemma_deposit_then_withdraw(
    s: LinkoraState,
    depositor: Seq<u8>,
    pool_id: Seq<u8>,
    token: Seq<u8>,
    amount: i128,
    signers: Seq<Seq<u8>>,
    recipient: Seq<u8>,
)
    requires
        consistent(s),
        model::spec_pool_deposit(s, depositor, pool_id, token, amount) is Ok,
        model::signers_verdict(signers, s.pools[pool_id]) is Ok,
    ensures
        ({
            let t = model::spec_pool_deposit(s, depositor, pool_id, token, amount)->Ok_0;
            &&& model::spec_pool_withdraw(t, signers, pool_id, amount, recipient) is Ok
            &&& model::spec_pool_withdraw(t, signers, pool_id, amount, recipient)->Ok_0.pools[pool_id]
                == s.pools[pool_id]
        }),
{
    let t = model::spec_pool_deposit(s, depositor, pool_id, token, amount)->Ok_0;
    assert(t.pools[pool_id].admins == s.pools[pool_id].admins);
    assert(t.pools[pool_id].threshold == s.pools[pool_id].threshold);
    assert(model::signers_verdict(signers, t.pools[pool_id]) == model::signers_verdict(
        signers,
        s.pools[pool_id],
    ));
    let u = model::spec_pool_withdraw(t, signers, pool_id, amount, recipient)->Ok_0;
    assert(u.pools[pool_id] =~= s.pools[pool_id]);
}

} // verus!

verus! {

/// The account on whose behalf a user call acts, for the calls that act on
/// behalf of one account.
pub open spec fn caller(c: Call) -> Option<Seq<u8>> {
    match c {
        Call::SetProfile { user, .. } => Some(user),
        Call::Follow { follower, .. } => Some(follower),
        Call::Unfollow { follower, .. } => Some(follower),
        Call::CreatePost { author, .. } => Some(author),
        Call::DeletePost { author, .. } => Some(author),
        Call::Tip { tipper, .. } => Some(tipper),
        Call::CreatePool { admin, .. } => Some(admin),
        Call::PoolDeposit { depositor, .. } => Some(depositor),
        _ => None,
    }
}

/// A call made on behalf of an account succeeds only by first asking that
/// account's authorization of the ledger.
pub proof fn lemma_caller_authorizes_first(s: LinkoraState, c: Call)
    requires
        caller(c) is Some,
        step(s, c) is Ok,
    ensures
        step(s, c)->Ok_0.effects.len() > s.effects.len(),
        step(s, c)->Ok_0.effects[s.effects.len() as int] == model::auth(caller(c)->0),
{
}

} // verus!

verus! {

/// The post counter never goes down, so a post id is never given twice,
/// even after the post was deleted.
pub proof fn lemma_post_counter_never_decreases(s: LinkoraState, c: Call)
    ensures
        model::count_of(after(s, c).post_count) >= model::count_of(s.post_count),
{
}

/// Once set, the contract admin never changes.
pub proof fn lemma_admin_never_changes(s: LinkoraState, c: Call)
    requires
        consistent(s),
        s.admin is Some,
    ensures
        after(s, c).admin == s.admin,
{
}

/// Pools are never removed, and a pool's token never changes.
pub proof fn lemma_pool_token_fixed(s: LinkoraState, c: Call, pool_id: Seq<u8>)
    requires
        s.pools.contains_key(pool_id),
    ensures
        after(s, c).pools.contains_key(pool_id),
        after(s, c).pools[pool_id].token == s.pools[pool_id].token,
{
}

} // verus!
