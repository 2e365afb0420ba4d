use vstd::prelude::*;

use crate::account::first_index;
use crate::types::{EffectModel, EventModel, LinkoraError, PoolModel, PostModel, ProfileModel};
use crate::validation::{content_verdict, username_verdict};

verus! {

/// Most basis points of a tip that go to the treasury (all of it).
pub const MAX_FEE_BPS: u32 = 10000;

/// The state of the contract, as a mathematical value: its instance
/// storage, its persistent storage, and the effects it has asked of the
/// ledger so far.
#[verifier::ext_equal]
pub struct LinkoraState {
    /// The address of the contract itself.
    pub address: Seq<u8>,
    pub post_count: Option<u64>,
    pub profile_count: Option<u64>,
    pub admin: Option<Seq<u8>>,
    pub treasury: Option<Seq<u8>>,
    pub fee_bps: Option<u32>,
    pub initialized: Option<bool>,
    pub profiles: Map<Seq<u8>, ProfileModel>,
    pub following: Map<Seq<u8>, Seq<Seq<u8>>>,
    pub followers: Map<Seq<u8>, Seq<Seq<u8>>>,
    pub posts: Map<u64, PostModel>,
    pub pools: Map<Seq<u8>, PoolModel>,
    pub effects: Seq<EffectModel>,
}

/// The list stored under `key`, or the empty list where none is stored.
pub open spec fn list_of(m: Map<Seq<u8>, Seq<Seq<u8>>>, key: Seq<u8>) -> Seq<Seq<u8>> {
    if m.contains_key(key) {
        m[key]
    } else {
        Seq::empty()
    }
}

/// A stored counter, read as zero where none is stored.
pub open spec fn count_of(c: Option<u64>) -> int {
    match c {
        Some(n) => n as int,
        None => 0,
    }
}

/// The state with `effs` appended to the effects asked so far.
pub open spec fn emit(s: LinkoraState, effs: Seq<EffectModel>) -> LinkoraState {
    LinkoraState { effects: s.effects + effs, ..s }
}

pub open spec fn auth(who: Seq<u8>) -> EffectModel {
    EffectModel::RequireAuth(who)
}

pub open spec fn publish(e: EventModel) -> EffectModel {
    EffectModel::Publish(e)
}

/// Whether an integer fits in an `i128`.
pub open spec fn fits_i128(x: int) -> bool {
    i128::MIN <= x <= i128::MAX
}

/// Division that rounds towards zero, as `/` on Rust integers does.
pub open spec fn trunc_div(x: int, d: int) -> int {
    if x >= 0 {
        x / d
    } else {
        -((-x) / d)
    }
}

/// The state of a freshly deployed contract at `address`.
pub open spec fn initial_state(address: Seq<u8>) -> LinkoraState {
    LinkoraState {
        address,
        post_count: None,
        profile_count: None,
        admin: None,
        treasury: None,
        fee_bps: None,
        initialized: None,
        profiles: Map::empty(),
        following: Map::empty(),
        followers: Map::empty(),
        posts: Map::empty(),
        pools: Map::empty(),
        effects: Seq::empty(),
    }
}

// ── Profiles ────────────────────────────────────────────────────────────────

pub open spec fn spec_set_profile(
    s: LinkoraState,
    user: Seq<u8>,
    username: Seq<u8>,
    creator_token: Seq<u8>,
) -> Result<LinkoraState, LinkoraError> {
    let is_new = !s.profiles.contains_key(user);
    if let Err(e) = username_verdict(username) {
        Err(e)
    } else if is_new && count_of(s.profile_count) + 1 > u64::MAX {
        Err(LinkoraError::Overflow)
    } else {
        Ok(
            LinkoraState {
                profile_count: if is_new {
                    Some((count_of(s.profile_count) + 1) as u64)
                } else {
                    s.profile_count
                },
                profiles: s.profiles.insert(
                    user,
                    ProfileModel { address: user, username, creator_token },
                ),
                effects: s.effects + seq![
                    auth(user),
                    publish(EventModel::ProfileSet { user, username }),
                ],
                ..s
            },
        )
    }
}

// ── Social graph ────────────────────────────────────────────────────────────

pub open spec fn spec_follow(s: LinkoraState, follower: Seq<u8>, followee: Seq<u8>) -> LinkoraState {
    let following = list_of(s.following, follower);
    let effs = seq![auth(follower), publish(EventModel::Follow { follower, followee })];
    if following.contains(followee) {
        emit(s, effs)
    } else {
        LinkoraState {
            following: s.following.insert(follower, following.push(followee)),
            followers: s.followers.insert(followee, list_of(s.followers, followee).push(follower)),
            effects: s.effects + effs,
            ..s
        }
    }
}

pub open spec fn spec_unfollow(s: LinkoraState, follower: Seq<u8>, followee: Seq<u8>) -> LinkoraState {
    let following = list_of(s.following, follower);
    let followers = list_of(s.followers, followee);
    let effs = seq![auth(follower), publish(EventModel::Unfollow { follower, followee })];
    if !following.contains(followee) {
        emit(s, effs)
    } else {
        LinkoraState {
            following: s.following.insert(
                follower,
                following.remove(first_index(following, followee)),
            ),
            followers: if followers.contains(follower) {
                s.followers.insert(followee, followers.remove(first_index(followers, follower)))
            } else {
                s.followers
            },
            effects: s.effects + effs,
            ..s
        }
    }
}

// ── Posts ───────────────────────────────────────────────────────────────────

/// The id that the next post receives.
pub open spec fn next_post_id(s: LinkoraState) -> int {
    count_of(s.post_count) + 1
}

pub open spec fn spec_create_post(
    s: LinkoraState,
    author: Seq<u8>,
    content: Seq<u8>,
    timestamp: u64,
) -> Result<LinkoraState, LinkoraError> {
    let id: int = next_post_id(s);
    if let Err(e) = content_verdict(content) {
        Err(e)
    } else if id > u64::MAX {
        Err(LinkoraError::Overflow)
    } else {
        Ok(
            LinkoraState {
                post_count: Some(id as u64),
                posts: s.posts.insert(
                    id as u64,
                    PostModel { id: id as u64, author, content, tip_total: 0, timestamp },
                ),
                effects: s.effects + seq![
                    auth(author),
                    publish(EventModel::PostCreated { id: id as u64, author }),
                ],
                ..s
            },
        )
    }
}

pub open spec fn spec_delete_post(s: LinkoraState, author: Seq<u8>, post_id: u64) -> Result<
    LinkoraState,
    LinkoraError,
> {
    if !s.posts.contains_key(post_id) {
        Err(LinkoraError::PostNotFound)
    } else if s.posts[post_id].author != author {
        Err(LinkoraError::NotAuthor)
    } else {
        Ok(
            LinkoraState {
                posts: s.posts.remove(post_id),
                effects: s.effects + seq![
                    auth(author),
                    publish(EventModel::PostDeleted { post_id, author }),
                ],
                ..s
            },
        )
    }
}

// ── Tipping ─────────────────────────────────────────────────────────────────

/// The fee rate in force, in basis points (zero where none was set).
pub open spec fn fee_rate(s: LinkoraState) -> int {
    match s.fee_bps {
        Some(f) => f as int,
        None => 0,
    }
}

/// The part of a tip of `amount` that goes to the treasury: the fee rate
/// applied to the amount, rounded towards zero; nothing without a treasury.
pub open spec fn tip_fee(s: LinkoraState, amount: int) -> int {
    if s.treasury is Some {
        trunc_div(amount * fee_rate(s), 10000)
    } else {
        0
    }
}

/// The transfers of a tip: the fee to the treasury where it is positive,
/// then the rest to the author.
pub open spec fn tip_transfers(
    s: LinkoraState,
    tipper: Seq<u8>,
    author: Seq<u8>,
    token: Seq<u8>,
    amount: int,
) -> Seq<EffectModel> {
    let fee: int = tip_fee(s, amount);
    let to_author = EffectModel::Transfer {
        token,
        from: tipper,
        to: author,
        amount: (amount - fee) as i128,
    };
    if fee > 0 && s.treasury is Some {
        seq![
            EffectModel::Transfer { token, from: tipper, to: s.treasury->0, amount: fee as i128 },
            to_author,
        ]
    } else {
        seq![to_author]
    }
}

pub open spec fn spec_tip(
    s: LinkoraState,
    tipper: Seq<u8>,
    post_id: u64,
    token: Seq<u8>,
    amount: i128,
) -> Result<LinkoraState, LinkoraError> {
    if !s.posts.contains_key(post_id) {
        Err(LinkoraError::PostNotFound)
    } else {
        let post = s.posts[post_id];
        if s.treasury is Some && !fits_i128(amount * fee_rate(s)) {
            Err(LinkoraError::Overflow)
        } else if !fits_i128(amount - tip_fee(s, amount as int)) {
            Err(LinkoraError::Overflow)
        } else if !fits_i128(post.tip_total + amount) {
            Err(LinkoraError::Overflow)
        } else {
            Ok(
                LinkoraState {
                    posts: s.posts.insert(
                        post_id,
                        PostModel { tip_total: (post.tip_total + amount) as i128, ..post },
                    ),
                    effects: s.effects + seq![auth(tipper)] + tip_transfers(
                        s,
                        tipper,
                        post.author,
                        token,
                        amount as int,
                    ) + seq![
                        publish(
                            EventModel::Tip {
                                tipper,
                                post_id,
                                amount,
                                fee: tip_fee(s, amount as int) as i128,
                            },
                        ),
                    ],
                    ..s
                },
            )
        }
    }
}

// ── Community token pools ───────────────────────────────────────────────────

/// Whether a threshold can be met by a quorum drawn from `admins`.
pub open spec fn threshold_ok(threshold: u32, admins: Seq<Seq<u8>>) -> bool {
    0 < threshold <= admins.len()
}

/// The verdict on a set of signers for a pool: enough of them, and each one
/// an admin of the pool.
pub open spec fn signers_verdict(signers: Seq<Seq<u8>>, pool: PoolModel) -> Result<(), LinkoraError> {
    if signers.len() < pool.threshold {
        Err(LinkoraError::InsufficientSigners)
    } else if exists|i: int| 0 <= i < signers.len() && !pool.admins.contains(#[trigger] signers[i]) {
        Err(LinkoraError::UnauthorizedSigner)
    } else {
        Ok(())
    }
}

/// The authorizations asked of each signer, in order.
pub open spec fn signer_auths(signers: Seq<Seq<u8>>) -> Seq<EffectModel> {
    signers.map_values(|a: Seq<u8>| auth(a))
}

pub open spec fn spec_create_pool(
    s: LinkoraState,
    admin: Seq<u8>,
    pool_id: Seq<u8>,
    token: Seq<u8>,
    initial_admins: Seq<Seq<u8>>,
    threshold: u32,
) -> Result<LinkoraState, LinkoraError> {
    if s.admin is None {
        Err(LinkoraError::NotInitialized)
    } else if s.pools.contains_key(pool_id) {
        Err(LinkoraError::PoolExists)
    } else if !threshold_ok(threshold, initial_admins) {
        Err(LinkoraError::InvalidThreshold)
    } else {
        Ok(
            LinkoraState {
                pools: s.pools.insert(
                    pool_id,
                    PoolModel { token, balance: 0, admins: initial_admins, threshold },
                ),
                effects: s.effects + seq![auth(admin), auth(s.admin->0)],
                ..s
            },
        )
    }
}

pub open spec fn spec_pool_deposit(
    s: LinkoraState,
    depositor: Seq<u8>,
    pool_id: Seq<u8>,
    token: Seq<u8>,
    amount: i128,
) -> Result<LinkoraState, LinkoraError> {
    if amount <= 0 {
        Err(LinkoraError::NotPositive)
    } else if !s.pools.contains_key(pool_id) {
        Err(LinkoraError::PoolNotFound)
    } else if s.pools[pool_id].token != token {
        Err(LinkoraError::WrongToken)
    } else if !fits_i128(s.pools[pool_id].balance + amount) {
        Err(LinkoraError::Overflow)
    } else {
        let pool = s.pools[pool_id];
        Ok(
            LinkoraState {
                pools: s.pools.insert(
                    pool_id,
                    PoolModel { balance: (pool.balance + amount) as i128, ..pool },
                ),
                effects: s.effects + seq![
                    auth(depositor),
                    EffectModel::Transfer { token, from: depositor, to: s.address, amount },
                    publish(EventModel::PoolDeposit { depositor, pool_id, amount }),
                ],
                ..s
            },
        )
    }
}

pub open spec fn spec_pool_withdraw(
    s: LinkoraState,
    signers: Seq<Seq<u8>>,
    pool_id: Seq<u8>,
    amount: i128,
    recipient: Seq<u8>,
) -> Result<LinkoraState, LinkoraError> {
    if amount <= 0 {
        Err(LinkoraError::NotPositive)
    } else if !s.pools.contains_key(pool_id) {
        Err(LinkoraError::PoolNotFound)
    } else if let Err(e) = signers_verdict(signers, s.pools[pool_id]) {
        Err(e)
    } else if s.pools[pool_id].balance < amount {
        Err(LinkoraError::LowBalance)
    } else {
        let pool = s.pools[pool_id];
        Ok(
            LinkoraState {
                pools: s.pools.insert(
                    pool_id,
                    PoolModel { balance: (pool.balance - amount) as i128, ..pool },
                ),
                effects: s.effects + signer_auths(signers) + seq![
                    EffectModel::Transfer {
                        token: pool.token,
                        from: s.address,
                        to: recipient,
                        amount,
                    },
                    publish(EventModel::PoolWithdraw { recipient, pool_id, amount }),
                ],
                ..s
            },
        )
    }
}

pub open spec fn spec_update_pool_admins(
    s: LinkoraState,
    signers: Seq<Seq<u8>>,
    pool_id: Seq<u8>,
    new_admins: Seq<Seq<u8>>,
    new_threshold: u32,
) -> Result<LinkoraState, LinkoraError> {
    if !s.pools.contains_key(pool_id) {
        Err(LinkoraError::PoolNotFound)
    } else if let Err(e) = signers_verdict(signers, s.pools[pool_id]) {
        Err(e)
    } else if !threshold_ok(new_threshold, new_admins) {
        Err(LinkoraError::InvalidThreshold)
    } else {
        let pool = s.pools[pool_id];
        Ok(
            LinkoraState {
                pools: s.pools.insert(
                    pool_id,
                    PoolModel { admins: new_admins, threshold: new_threshold, ..pool },
                ),
                effects: s.effects + signer_auths(signers),
                ..s
            },
        )
    }
}

// ── Administration ──────────────────────────────────────────────────────────

pub open spec fn spec_initialize(
    s: LinkoraState,
    admin: Seq<u8>,
    treasury: Seq<u8>,
    fee_bps: u32,
) -> Result<LinkoraState, LinkoraError> {
    if s.initialized == Some(true) {
        Err(LinkoraError::AlreadyInitialized)
    } else if fee_bps > MAX_FEE_BPS {
        Err(LinkoraError::FeeBpsTooHigh)
    } else {
        Ok(
            LinkoraState {
                initialized: Some(true),
                admin: Some(admin),
                treasury: Some(treasury),
                fee_bps: Some(fee_bps),
                ..s
            },
        )
    }
}

pub open spec fn spec_set_fee(s: LinkoraState, fee_bps: u32) -> Result<LinkoraState, LinkoraError> {
    if s.admin is None {
        Err(LinkoraError::NotInitialized)
    } else if fee_bps > MAX_FEE_BPS {
        Err(LinkoraError::InvalidFee)
    } else {
        Ok(LinkoraState { fee_bps: Some(fee_bps), effects: s.effects + seq![auth(s.admin->0)], ..s })
    }
}

pub open spec fn spec_set_treasury(s: LinkoraState, treasury: Seq<u8>) -> Result<
    LinkoraState,
    LinkoraError,
> {
    if s.admin is None {
        Err(LinkoraError::NotInitialized)
    } else {
        Ok(
            LinkoraState {
                treasury: Some(treasury),
                effects: s.effects + seq![auth(s.admin->0)],
                ..s
            },
        )
    }
}

pub open spec fn spec_upgrade(s: LinkoraState, new_wasm_hash: Seq<u8>) -> Result<
    LinkoraState,
    LinkoraError,
> {
    if s.admin is None {
        Err(LinkoraError::NotInitialized)
    } else {
        Ok(
            emit(
                s,
                seq![
                    auth(s.admin->0),
                    EffectModel::UpdateWasm(new_wasm_hash),
                    publish(EventModel::Upgraded { new_wasm_hash }),
                ],
            ),
        )
    }
}

} // verus!
