//! What each call does, stated in terms of its inputs and its results: when
//! it succeeds, what it stores, and which token transfers and events it asks
//! of the ledger.

use vstd::prelude::*;

use crate::model::{self, LinkoraState};
use crate::types::{EffectModel, EventModel, LinkoraError, PoolModel, PostModel};

verus! {

/// The effects a call asked of the ledger: those recorded after the ones
/// that were there before it.
pub open spec fn new_effects(before: LinkoraState, after: LinkoraState) -> Seq<EffectModel> {
    after.effects.subrange(before.effects.len() as int, after.effects.len() as int)
}

/// The token transfers among `effs`, in order.
pub open spec fn transfers_of(effs: Seq<EffectModel>) -> Seq<EffectModel>
    decreases effs.len(),
{
    if effs.len() == 0 {
        Seq::empty()
    } else {
        transfers_of(effs.drop_last()) + if effs.last() is Transfer {
            seq![effs.last()]
        } else {
            Seq::empty()
        }
    }
}

/// The events published among `effs`, in order.
pub open spec fn events_of(effs: Seq<EffectModel>) -> Seq<EventModel>
    decreases effs.len(),
{
    if effs.len() == 0 {
        Seq::empty()
    } else {
        events_of(effs.drop_last()) + match effs.last() {
            EffectModel::Publish(e) => seq![e],
            _ => Seq::empty(),
        }
    }
}

/// Nothing but the pools (and the recorded effects) differs between two states.
pub open spec fn only_pools_change(s: LinkoraState, t: LinkoraState) -> bool {
    t == LinkoraState { pools: t.pools, effects: t.effects, ..s }
}

/// Nothing but the posts and the post counter (and the recorded effects)
/// differs between two states.
pub open spec fn only_posts_change(s: LinkoraState, t: LinkoraState) -> bool {
    t == LinkoraState { posts: t.posts, post_count: t.post_count, effects: t.effects, ..s }
}

/// Every pool other than `pool_id` is as it was, and no pool appears or
/// disappears.
pub open spec fn other_pools_kept(s: LinkoraState, t: LinkoraState, pool_id: Seq<u8>) -> bool {
    &&& t.pools.dom() == s.pools.dom()
    &&& forall|p: Seq<u8>| #[trigger] s.pools.contains_key(p) && p != pool_id ==> t.pools[p] == s.pools[p]
}

proof fn lemma_transfers_concat(a: Seq<EffectModel>, b: Seq<EffectModel>)
    ensures
        transfers_of(a + b) == transfers_of(a) + transfers_of(b),
        events_of(a + b) == events_of(a) + events_of(b),
    decreases b.len(),
{
    if b.len() == 0 {
        assert(a + b =~= a);
        assert(transfers_of(a) + transfers_of(b) =~= transfers_of(a));
        assert(events_of(a) + events_of(b) =~= events_of(a));
    } else {
        lemma_transfers_concat(a, b.drop_last());
        assert((a + b).drop_last() =~= a + b.drop_last());
        assert((a + b).last() == b.last());
        assert(transfers_of(a + b) =~= transfers_of(a) + transfers_of(b));
        assert(events_of(a + b) =~= events_of(a) + events_of(b));
    }
}

proof fn lemma_one(e: EffectModel)
    ensures
        transfers_of(seq![e]) == (if e is Transfer {
            seq![e]
        } else {
            Seq::<EffectModel>::empty()
        }),
        events_of(seq![e]) == match e {
            EffectModel::Publish(ev) => seq![ev],
            _ => Seq::<EventModel>::empty(),
        },
{
    assert(seq![e].drop_last() =~= Seq::<EffectModel>::empty());
    assert(seq![e].last() == e);
    assert(transfers_of(seq![e]) =~= transfers_of(Seq::<EffectModel>::empty()) + (if e is Transfer {
        seq![e]
    } else {
        Seq::<EffectModel>::empty()
    }));
    assert(events_of(seq![e]) =~= events_of(Seq::<EffectModel>::empty()) + match e {
        EffectModel::Publish(ev) => seq![ev],
        _ => Seq::<EventModel>::empty(),
    });
}

proof fn lemma_two(a: EffectModel, b: EffectModel)
    ensures
        transfers_of(seq![a, b]) == transfers_of(seq![a]) + transfers_of(seq![b]),
        events_of(seq![a, b]) == events_of(seq![a]) + events_of(seq![b]),
{
    assert(seq![a, b] =~= seq![a] + seq![b]);
    lemma_transfers_concat(seq![a], seq![b]);
}

proof fn lemma_three(a: EffectModel, b: EffectModel, c: EffectModel)
    ensures
        transfers_of(seq![a, b, c]) == transfers_of(seq![a]) + transfers_of(seq![b]) + transfers_of(seq![c]),
        events_of(seq![a, b, c]) == events_of(seq![a]) + events_of(seq![b]) + events_of(seq![c]),
{
    assert(seq![a, b, c] =~= seq![a, b] + seq![c]);
    lemma_transfers_concat(seq![a, b], seq![c]);
    lemma_two(a, b);
}

/// Authorizations alone ask no transfer and publish nothing.
proof fn lemma_auths_only(signers: Seq<Seq<u8>>)
    ensures
        transfers_of(model::signer_auths(signers)) == Seq::<EffectModel>::empty(),
        events_of(model::signer_auths(signers)) == Seq::<EventModel>::empty(),
    decreases signers.len(),
{
    if signers.len() > 0 {
        let rest = signers.drop_last();
        lemma_auths_only(rest);
        assert(model::signer_auths(signers) =~= model::signer_auths(rest) + seq![
            model::auth(signers.last()),
        ]);
        lemma_transfers_concat(model::signer_auths(rest), seq![model::auth(signers.last())]);
        lemma_one(model::auth(signers.last()));
        assert(transfers_of(model::signer_auths(signers)) =~= Seq::<EffectModel>::empty());
        assert(events_of(model::signer_auths(signers)) =~= Seq::<EventModel>::empty());
    } else {
        assert(model::signer_auths(signers) =~= Seq::<EffectModel>::empty());
    }
}

// ── Pools ───────────────────────────────────────────────────────────────────

/// Creating a pool on an initialized contract under a fresh name succeeds
/// exactly when the threshold is between 1 and the number of admins; the
/// new pool holds nothing, has the given token, admins and threshold, and
/// no tokens move.
pub proof fn lemma_create_pool_outcome(
    s: LinkoraState,
    admin: Seq<u8>,
    pool_id: Seq<u8>,
    token: Seq<u8>,
    initial_admins: Seq<Seq<u8>>,
    threshold: u32,
)
    requires
        s.admin is Some,
        !s.pools.contains_key(pool_id),
    ensures
        model::spec_create_pool(s, admin, pool_id, token, initial_admins, threshold) is Ok <==> (1
            <= threshold <= initial_admins.len()),
        model::spec_create_pool(s, admin, pool_id, token, initial_admins, threshold) is Err
            ==> model::spec_create_pool(s, admin, pool_id, token, initial_admins, threshold)
            == Err::<LinkoraState, LinkoraError>(LinkoraError::InvalidThreshold),
        model::spec_create_pool(s, admin, pool_id, token, initial_admins, threshold) matches Ok(t)
            ==> {
            &&& only_pools_change(s, t)
            &&& t.pools.contains_key(pool_id)
            &&& t.pools[pool_id].token == token
            &&& t.pools[pool_id].balance == 0
            &&& t.pools[pool_id].admins == initial_admins
            &&& t.pools[pool_id].threshold == threshold
            &&& t.pools.dom() == s.pools.dom().insert(pool_id)
            &&& forall|p: Seq<u8>| #[trigger] s.pools.contains_key(p) ==> t.pools[p] == s.pools[p]
            &&& transfers_of(new_effects(s, t)) == Seq::<EffectModel>::empty()
            &&& events_of(new_effects(s, t)) == Seq::<EventModel>::empty()
        },
{
    if let Ok(t) = model::spec_create_pool(s, admin, pool_id, token, initial_admins, threshold) {
        assert(new_effects(s, t) =~= seq![model::auth(admin), model::auth(s.admin->0)]);
        lemma_two(model::auth(admin), model::auth(s.admin->0));
        lemma_one(model::auth(admin));
        lemma_one(model::auth(s.admin->0));
        assert(t.pools.dom() =~= s.pools.dom().insert(pool_id));
        assert(t =~= LinkoraState { pools: t.pools, effects: t.effects, ..s });
    }
}

/// A deposit of a positive amount of the pool's own token into an existing
/// pool succeeds unless the balance would overflow; it raises that pool's
/// balance by the amount, asks exactly one transfer, of the amount in the
/// pool's token from the depositor to the contract, and publishes one
/// deposit event.
pub proof fn lemma_pool_deposit_outcome(
    s: LinkoraState,
    depositor: Seq<u8>,
    pool_id: Seq<u8>,
    token: Seq<u8>,
    amount: i128,
)
    ensures
        (amount > 0 && s.pools.contains_key(pool_id) && s.pools[pool_id].token == token
            && s.pools[pool_id].balance + amount <= i128::MAX) ==> model::spec_pool_deposit(
            s,
            depositor,
            pool_id,
            token,
            amount,
        ) is Ok,
        model::spec_pool_deposit(s, depositor, pool_id, token, amount) matches Ok(t) ==> {
            &&& amount > 0
            &&& s.pools.contains_key(pool_id)
            &&& s.pools[pool_id].token == token
            &&& only_pools_change(s, t)
            &&& other_pools_kept(s, t, pool_id)
            &&& t.pools[pool_id].balance == s.pools[pool_id].balance + amount
            &&& t.pools[pool_id].token == s.pools[pool_id].token
            &&& t.pools[pool_id].admins == s.pools[pool_id].admins
            &&& t.pools[pool_id].threshold == s.pools[pool_id].threshold
            &&& transfers_of(new_effects(s, t)) == seq![
                EffectModel::Transfer { token, from: depositor, to: s.address, amount },
            ]
            &&& events_of(new_effects(s, t)) == seq![
                EventModel::PoolDeposit { depositor, pool_id, amount },
            ]
        },
{
    if let Ok(t) = model::spec_pool_deposit(s, depositor, pool_id, token, amount) {
        let a = model::auth(depositor);
        let x = EffectModel::Transfer { token, from: depositor, to: s.address, amount };
        let e = model::publish(EventModel::PoolDeposit { depositor, pool_id, amount });
        assert(new_effects(s, t) =~= seq![a, x, e]);
        lemma_three(a, x, e);
        lemma_one(a);
        lemma_one(x);
        lemma_one(e);
        assert(transfers_of(new_effects(s, t)) =~= seq![x]);
        assert(events_of(new_effects(s, t)) =~= seq![EventModel::PoolDeposit { depositor, pool_id, amount }]);
        assert(t.pools.dom() =~= s.pools.dom());
        assert(t =~= LinkoraState { pools: t.pools, effects: t.effects, ..s });
    }
}

/// A withdrawal of a positive amount from an existing pool, signed by at
/// least `threshold` of its admins (and only by admins), succeeds exactly
/// when the pool holds the amount; it lowers that pool's balance by the
/// amount, asks exactly one transfer, of the amount in the pool's token
/// from the contract to the recipient, and publishes one withdrawal event.
pub proof fn lemma_pool_withdraw_outcome(
    s: LinkoraState,
    signers: Seq<Seq<u8>>,
    pool_id: Seq<u8>,
    amount: i128,
    recipient: Seq<u8>,
)
    ensures
        (amount > 0 && s.pools.contains_key(pool_id) && signers.len() >= s.pools[pool_id].threshold
            && (forall|i: int|
            0 <= i < signers.len() ==> s.pools[pool_id].admins.contains(#[trigger] signers[i]))
            && s.pools[pool_id].balance >= amount) ==> model::spec_pool_withdraw(
            s,
            signers,
            pool_id,
            amount,
            recipient,
        ) is Ok,
        model::spec_pool_withdraw(s, signers, pool_id, amount, recipient) matches Ok(t) ==> {
            &&& only_pools_change(s, t)
            &&& other_pools_kept(s, t, pool_id)
            &&& t.pools[pool_id].balance == s.pools[pool_id].balance - amount
            &&& t.pools[pool_id].token == s.pools[pool_id].token
            &&& t.pools[pool_id].admins == s.pools[pool_id].admins
            &&& t.pools[pool_id].threshold == s.pools[pool_id].threshold
            &&& transfers_of(new_effects(s, t)) == seq![
                EffectModel::Transfer {
                    token: s.pools[pool_id].token,
                    from: s.address,
                    to: recipient,
                    amount,
                },
            ]
            &&& events_of(new_effects(s, t)) == seq![
                EventModel::PoolWithdraw { recipient, pool_id, amount },
            ]
        },
{
    if let Ok(t) = model::spec_pool_withdraw(s, signers, pool_id, amount, recipient) {
        let pool = s.pools[pool_id];
        let auths = model::signer_auths(signers);
        let x = EffectModel::Transfer { token: pool.token, from: s.address, to: recipient, amount };
        let e = model::publish(EventModel::PoolWithdraw { recipient, pool_id, amount });
        assert(new_effects(s, t) =~= auths + seq![x, e]);
        lemma_transfers_concat(auths, seq![x, e]);
        lemma_auths_only(signers);
        lemma_two(x, e);
        lemma_one(x);
        lemma_one(e);
        assert(transfers_of(new_effects(s, t)) =~= seq![x]);
        assert(events_of(new_effects(s, t)) =~= seq![EventModel::PoolWithdraw { recipient, pool_id, amount }]);
        assert(t.pools.dom() =~= s.pools.dom());
        assert(t =~= LinkoraState { pools: t.pools, effects: t.effects, ..s });
    }
}

/// Replacing a pool's admins, signed by a quorum of its current admins,
/// succeeds exactly when the new threshold is between 1 and the number of
/// new admins; it changes only that pool's admins and threshold (its token
/// and balance stay), moves no tokens and publishes nothing.
pub proof fn lemma_update_pool_admins_outcome(
    s: LinkoraState,
    signers: Seq<Seq<u8>>,
    pool_id: Seq<u8>,
    new_admins: Seq<Seq<u8>>,
    new_threshold: u32,
)
    ensures
        (s.pools.contains_key(pool_id) && signers.len() >= s.pools[pool_id].threshold && (forall|
            i: int,
        |
            0 <= i < signers.len() ==> s.pools[pool_id].admins.contains(#[trigger] signers[i])))
            ==> (model::spec_update_pool_admins(s, signers, pool_id, new_admins, new_threshold) is Ok
            <==> 1 <= new_threshold <= new_admins.len()),
        model::spec_update_pool_admins(s, signers, pool_id, new_admins, new_threshold) matches Ok(t)
            ==> {
            &&& only_pools_change(s, t)
            &&& other_pools_kept(s, t, pool_id)
            &&& t.pools[pool_id].balance == s.pools[pool_id].balance
            &&& t.pools[pool_id].token == s.pools[pool_id].token
            &&& t.pools[pool_id].admins == new_admins
            &&& t.pools[pool_id].threshold == new_threshold
            &&& transfers_of(new_effects(s, t)) == Seq::<EffectModel>::empty()
            &&& events_of(new_effects(s, t)) == Seq::<EventModel>::empty()
        },
{
    if s.pools.contains_key(pool_id) && signers.len() >= s.pools[pool_id].threshold && (forall|i: int|
        0 <= i < signers.len() ==> s.pools[pool_id].admins.contains(#[trigger] signers[i])) {
        assert(model::signers_verdict(signers, s.pools[pool_id]) is Ok);
    }
    if let Ok(t) = model::spec_update_pool_admins(s, signers, pool_id, new_admins, new_threshold) {
        assert(new_effects(s, t) =~= model::signer_auths(signers));
        lemma_auths_only(signers);
        assert(t.pools.dom() =~= s.pools.dom());
        assert(t =~= LinkoraState { pools: t.pools, effects: t.effects, ..s });
    }
}

} // verus!

verus! {

// ── Posts ───────────────────────────────────────────────────────────────────

/// Creating a post succeeds exactly when its content has between 1 and 280
/// bytes and the post counter has room; the post is stored under the next
/// id (one more than the counter) with the given author, content and time
/// and no tips, the counter becomes that id, no other post changes, no
/// tokens move, and one creation event is published.
pub proof fn lemma_create_post_outcome(
    s: LinkoraState,
    author: Seq<u8>,
    content: Seq<u8>,
    timestamp: u64,
)
    ensures
        model::spec_create_post(s, author, content, timestamp) is Ok <==> (1 <= content.len() <= 280
            && model::count_of(s.post_count) < u64::MAX),
        content.len() == 0 ==> model::spec_create_post(s, author, content, timestamp) == Err::<
            LinkoraState,
            LinkoraError,
        >(LinkoraError::ContentEmpty),
        content.len() > 280 ==> model::spec_create_post(s, author, content, timestamp) == Err::<
            LinkoraState,
            LinkoraError,
        >(LinkoraError::ContentTooLong),
        model::spec_create_post(s, author, content, timestamp) matches Ok(t) ==> {
            let id = (model::count_of(s.post_count) + 1) as u64;
            &&& only_posts_change(s, t)
            &&& t.post_count == Some(id)
            &&& t.posts.contains_key(id)
            &&& t.posts[id] == (PostModel { id, author, content, tip_total: 0, timestamp })
            &&& t.posts.dom() == s.posts.dom().insert(id)
            &&& forall|p: u64| #[trigger] s.posts.contains_key(p) && p != id ==> t.posts[p] == s.posts[p]
            &&& transfers_of(new_effects(s, t)) == Seq::<EffectModel>::empty()
            &&& events_of(new_effects(s, t)) == seq![EventModel::PostCreated { id, author }]
        },
{
    if let Ok(t) = model::spec_create_post(s, author, content, timestamp) {
        let id = (model::count_of(s.post_count) + 1) as u64;
        let a = model::auth(author);
        let e = model::publish(EventModel::PostCreated { id, author });
        assert(new_effects(s, t) =~= seq![a, e]);
        lemma_two(a, e);
        lemma_one(a);
        lemma_one(e);
        assert(events_of(new_effects(s, t)) =~= seq![EventModel::PostCreated { id, author }]);
        assert(t.posts.dom() =~= s.posts.dom().insert(id));
        assert(t =~= LinkoraState { posts: t.posts, post_count: t.post_count, effects: t.effects, ..s });
    }
}

/// Deleting a post succeeds exactly when the post exists and the caller is
/// its author; it removes that post alone (the counter stays), moves no
/// tokens and publishes one deletion event.
pub proof fn lemma_delete_post_outcome(s: LinkoraState, author: Seq<u8>, post_id: u64)
    ensures
        model::spec_delete_post(s, author, post_id) is Ok <==> (s.posts.contains_key(post_id)
            && s.posts[post_id].author == author),
        model::spec_delete_post(s, author, post_id) matches Ok(t) ==> {
            &&& only_posts_change(s, t)
            &&& t.post_count == s.post_count
            &&& t.posts.dom() == s.posts.dom().remove(post_id)
            &&& forall|p: u64| #[trigger] t.posts.contains_key(p) ==> t.posts[p] == s.posts[p]
            &&& transfers_of(new_effects(s, t)) == Seq::<EffectModel>::empty()
            &&& events_of(new_effects(s, t)) == seq![EventModel::PostDeleted { post_id, author }]
        },
{
    if let Ok(t) = model::spec_delete_post(s, author, post_id) {
        let a = model::auth(author);
        let e = model::publish(EventModel::PostDeleted { post_id, author });
        assert(new_effects(s, t) =~= seq![a, e]);
        lemma_two(a, e);
        lemma_one(a);
        lemma_one(e);
        assert(events_of(new_effects(s, t)) =~= seq![EventModel::PostDeleted { post_id, author }]);
        assert(t.posts.dom() =~= s.posts.dom().remove(post_id));
        assert(t =~= LinkoraState { posts: t.posts, post_count: t.post_count, effects: t.effects, ..s });
    }
}

/// A tip of a non-negative amount on an existing post succeeds when the
/// fee rate is at most 10000 basis points, the amount times 10000 fits, and
/// the post's total has room; it raises that post's tip total by the amount
/// (nothing else of the post changes), and asks exactly these transfers in
/// the given token from the tipper: the fee (the rate's share of the amount,
/// rounded down) to the treasury when there is one and the fee is positive,
/// then the rest to the post's author.
pub proof fn lemma_tip_outcome(
    s: LinkoraState,
    tipper: Seq<u8>,
    post_id: u64,
    token: Seq<u8>,
    amount: i128,
)
    requires
        0 <= amount,
        s.fee_bps matches Some(f) ==> f <= 10000,
    ensures
        (s.posts.contains_key(post_id) && amount * 10000 <= i128::MAX && s.posts[post_id].tip_total
            + amount <= i128::MAX) ==> model::spec_tip(s, tipper, post_id, token, amount) is Ok,
        model::spec_tip(s, tipper, post_id, token, amount) matches Ok(t) ==> {
            let post = s.posts[post_id];
            let rate = match s.fee_bps {
                Some(f) => f as int,
                None => 0,
            };
            let fee = if s.treasury is Some {
                amount * rate / 10000
            } else {
                0
            };
            &&& only_posts_change(s, t)
            &&& t.post_count == s.post_count
            &&& t.posts.dom() == s.posts.dom()
            &&& forall|p: u64| #[trigger] s.posts.contains_key(p) && p != post_id ==> t.posts[p] == s.posts[p]
            &&& t.posts[post_id] == (PostModel { tip_total: (post.tip_total + amount) as i128, ..post })
            &&& 0 <= fee <= amount
            &&& transfers_of(new_effects(s, t)) == if fee > 0 {
                seq![
                    EffectModel::Transfer { token, from: tipper, to: s.treasury->0, amount: fee as i128 },
                    EffectModel::Transfer {
                        token,
                        from: tipper,
                        to: post.author,
                        amount: (amount - fee) as i128,
                    },
                ]
            } else {
                seq![EffectModel::Transfer { token, from: tipper, to: post.author, amount }]
            }
            &&& events_of(new_effects(s, t)) == seq![
                EventModel::Tip { tipper, post_id, amount, fee: fee as i128 },
            ]
        },
{
    let rate = model::fee_rate(s);
    if s.treasury is Some {
        crate::laws::lemma_fee_within_amount(amount as int, rate);
        assert(0 <= amount * rate <= amount * 10000) by (nonlinear_arith)
            requires
                0 <= amount,
                0 <= rate <= 10000,
        ;
    }
    if let Ok(t) = model::spec_tip(s, tipper, post_id, token, amount) {
        let post = s.posts[post_id];
        let fee = model::tip_fee(s, amount as int);
        let a = model::auth(tipper);
        let xs = model::tip_transfers(s, tipper, post.author, token, amount as int);
        let e = model::publish(EventModel::Tip { tipper, post_id, amount, fee: fee as i128 });
        assert(new_effects(s, t) =~= seq![a] + xs + seq![e]);
        lemma_transfers_concat(seq![a] + xs, seq![e]);
        lemma_transfers_concat(seq![a], xs);
        lemma_one(a);
        lemma_one(e);
        if fee > 0 && s.treasury is Some {
            let x1 = xs[0];
            let x2 = xs[1];
            assert(xs =~= seq![x1, x2]);
            lemma_two(x1, x2);
            lemma_one(x1);
            lemma_one(x2);
        } else {
            lemma_one(xs[0]);
            assert(xs =~= seq![xs[0]]);
        }
        assert(transfers_of(new_effects(s, t)) =~= transfers_of(xs));
        assert(events_of(new_effects(s, t)) =~= seq![EventModel::Tip { tipper, post_id, amount, fee: fee as i128 }]);
        assert(t.posts.dom() =~= s.posts.dom());
        assert(t =~= LinkoraState { posts: t.posts, post_count: t.post_count, effects: t.effects, ..s });
    }
}

} // verus!

verus! {

// ── Profiles and the follow graph ───────────────────────────────────────────

/// Setting a profile succeeds exactly when the username is valid (3 to 32
/// bytes, each an ASCII letter, digit or `_`) and, for a user without a
/// profile, the profile counter has room; the user's profile becomes the
/// given one, the counter grows by one exactly for a user without a
/// profile, no other profile changes, no tokens move, and one event is
/// published.
pub proof fn lemma_set_profile_outcome(
    s: LinkoraState,
    user: Seq<u8>,
    username: Seq<u8>,
    creator_token: Seq<u8>,
)
    ensures
        model::spec_set_profile(s, user, username, creator_token) is Ok <==> ((3 <= username.len()
            <= 32 && forall|i: int|
            0 <= i < username.len() ==> crate::validation::is_username_byte(#[trigger] username[i]))
            && (s.profiles.contains_key(user) || model::count_of(s.profile_count) < u64::MAX)),
        model::spec_set_profile(s, user, username, creator_token) matches Ok(t) ==> {
            &&& t == (LinkoraState {
                profiles: t.profiles,
                profile_count: t.profile_count,
                effects: t.effects,
                ..s
            })
            &&& t.profiles.dom() == s.profiles.dom().insert(user)
            &&& t.profiles[user].address == user
            &&& t.profiles[user].username == username
            &&& t.profiles[user].creator_token == creator_token
            &&& forall|u: Seq<u8>| #[trigger] s.profiles.contains_key(u) && u != user ==> t.profiles[u] == s.profiles[u]
            &&& model::count_of(t.profile_count) == model::count_of(s.profile_count) + if s.profiles.contains_key(user) {
                0int
            } else {
                1int
            }
            &&& transfers_of(new_effects(s, t)) == Seq::<EffectModel>::empty()
            &&& events_of(new_effects(s, t)) == seq![EventModel::ProfileSet { user, username }]
        },
{
    if let Ok(t) = model::spec_set_profile(s, user, username, creator_token) {
        let a = model::auth(user);
        let e = model::publish(EventModel::ProfileSet { user, username });
        assert(new_effects(s, t) =~= seq![a, e]);
        lemma_two(a, e);
        lemma_one(a);
        lemma_one(e);
        assert(events_of(new_effects(s, t)) =~= seq![EventModel::ProfileSet { user, username }]);
        assert(t.profiles.dom() =~= s.profiles.dom().insert(user));
        assert(t =~= LinkoraState {
            profiles: t.profiles,
            profile_count: t.profile_count,
            effects: t.effects,
            ..s
        });
    }
}

/// Following and unfollowing change only the follower's list of followed
/// accounts and the followee's list of followers; every other list stays,
/// no tokens move, and one event is published.
pub proof fn lemma_follow_unfollow_frame(s: LinkoraState, follower: Seq<u8>, followee: Seq<u8>)
    ensures
        ({
            let t = model::spec_follow(s, follower, followee);
            &&& t == (LinkoraState {
                following: t.following,
                followers: t.followers,
                effects: t.effects,
                ..s
            })
            &&& forall|x: Seq<u8>| #![trigger model::list_of(t.following, x)] x != follower ==> model::list_of(t.following, x) == model::list_of(s.following, x)
            &&& forall|x: Seq<u8>| #![trigger model::list_of(t.followers, x)] x != followee ==> model::list_of(t.followers, x) == model::list_of(s.followers, x)
            &&& transfers_of(new_effects(s, t)) == Seq::<EffectModel>::empty()
            &&& events_of(new_effects(s, t)) == seq![EventModel::Follow { follower, followee }]
        }),
        ({
            let t = model::spec_unfollow(s, follower, followee);
            &&& t == (LinkoraState {
                following: t.following,
                followers: t.followers,
                effects: t.effects,
                ..s
            })
            &&& forall|x: Seq<u8>| #![trigger model::list_of(t.following, x)] x != follower ==> model::list_of(t.following, x) == model::list_of(s.following, x)
            &&& forall|x: Seq<u8>| #![trigger model::list_of(t.followers, x)] x != followee ==> model::list_of(t.followers, x) == model::list_of(s.followers, x)
            &&& transfers_of(new_effects(s, t)) == Seq::<EffectModel>::empty()
            &&& events_of(new_effects(s, t)) == seq![EventModel::Unfollow { follower, followee }]
        }),
{
    let t = model::spec_follow(s, follower, followee);
    let a = model::auth(follower);
    let e = model::publish(EventModel::Follow { follower, followee });
    assert(new_effects(s, t) =~= seq![a, e]);
    lemma_two(a, e);
    lemma_one(a);
    lemma_one(e);
    assert(events_of(new_effects(s, t)) =~= seq![EventModel::Follow { follower, followee }]);
    assert(t =~= LinkoraState { following: t.following, followers: t.followers, effects: t.effects, ..s });
    let u = model::spec_unfollow(s, follower, followee);
    let e2 = model::publish(EventModel::Unfollow { follower, followee });
    assert(new_effects(s, u) =~= seq![a, e2]);
    lemma_two(a, e2);
    lemma_one(e2);
    assert(events_of(new_effects(s, u)) =~= seq![EventModel::Unfollow { follower, followee }]);
    assert(u =~= LinkoraState { following: u.following, followers: u.followers, effects: u.effects, ..s });
}

// ── Administration ──────────────────────────────────────────────────────────

/// Initializing succeeds exactly when the contract is not yet initialized
/// and the fee rate is at most 10000; it sets the admin, the treasury and
/// the fee rate to the given ones and changes nothing else, asking nothing
/// of the ledger. An excessive rate on an uninitialized contract is refused
/// with "fee_bps cannot exceed 10000".
pub proof fn lemma_initialize_outcome(s: LinkoraState, admin: Seq<u8>, treasury: Seq<u8>, fee_bps: u32)
    ensures
        model::spec_initialize(s, admin, treasury, fee_bps) is Ok <==> (s.initialized != Some(true)
            && fee_bps <= 10000),
        s.initialized != Some(true) && fee_bps > 10000 ==> model::spec_initialize(
            s,
            admin,
            treasury,
            fee_bps,
        ) == Err::<LinkoraState, LinkoraError>(LinkoraError::FeeBpsTooHigh),
        model::spec_initialize(s, admin, treasury, fee_bps) matches Ok(t) ==> t == (LinkoraState {
            initialized: Some(true),
            admin: Some(admin),
            treasury: Some(treasury),
            fee_bps: Some(fee_bps),
            ..s
        }),
{
}

/// Setting the fee rate on an initialized contract succeeds exactly when
/// the rate is at most 10000 (otherwise it is refused with "invalid fee");
/// it changes only the rate, moves no tokens and publishes nothing, and
/// asks the admin's authorization.
pub proof fn lemma_set_fee_outcome(s: LinkoraState, fee_bps: u32)
    requires
        s.admin is Some,
    ensures
        model::spec_set_fee(s, fee_bps) is Ok <==> fee_bps <= 10000,
        fee_bps > 10000 ==> model::spec_set_fee(s, fee_bps) == Err::<LinkoraState, LinkoraError>(
            LinkoraError::InvalidFee,
        ),
        model::spec_set_fee(s, fee_bps) matches Ok(t) ==> {
            &&& t == (LinkoraState { fee_bps: Some(fee_bps), effects: t.effects, ..s })
            &&& new_effects(s, t) == seq![model::auth(s.admin->0)]
        },
{
    if let Ok(t) = model::spec_set_fee(s, fee_bps) {
        assert(new_effects(s, t) =~= seq![model::auth(s.admin->0)]);
    }
}

/// Setting the treasury on an initialized contract always succeeds; it
/// changes only the treasury and asks only the admin's authorization.
pub proof fn lemma_set_treasury_outcome(s: LinkoraState, treasury: Seq<u8>)
    requires
        s.admin is Some,
    ensures
        model::spec_set_treasury(s, treasury) is Ok,
        model::spec_set_treasury(s, treasury) matches Ok(t) ==> {
            &&& t == (LinkoraState { treasury: Some(treasury), effects: t.effects, ..s })
            &&& new_effects(s, t) == seq![model::auth(s.admin->0)]
        },
{
    if let Ok(t) = model::spec_set_treasury(s, treasury) {
        assert(new_effects(s, t) =~= seq![model::auth(s.admin->0)]);
    }
}

/// Upgrading an initialized contract always succeeds; it changes no
/// storage and asks, in order, the admin's authorization, the code update
/// to the given hash, and the publication of the upgrade event.
pub proof fn lemma_upgrade_outcome(s: LinkoraState, new_wasm_hash: Seq<u8>)
    requires
        s.admin is Some,
    ensures
        model::spec_upgrade(s, new_wasm_hash) is Ok,
        model::spec_upgrade(s, new_wasm_hash) matches Ok(t) ==> {
            &&& t == (LinkoraState { effects: t.effects, ..s })
            &&& new_effects(s, t) == seq![
                model::auth(s.admin->0),
                EffectModel::UpdateWasm(new_wasm_hash),
                EffectModel::Publish(EventModel::Upgraded { new_wasm_hash }),
            ]
        },
{
    if let Ok(t) = model::spec_upgrade(s, new_wasm_hash) {
        assert(new_effects(s, t) =~= seq![
            model::auth(s.admin->0),
            EffectModel::UpdateWasm(new_wasm_hash),
            EffectModel::Publish(EventModel::Upgraded { new_wasm_hash }),
        ]);
    }
}

} // verus!
