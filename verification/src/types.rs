use vstd::prelude::*;

use crate::account::{accounts_model, copy_accounts, AccountId, PoolId};
use crate::store::Stored;

verus! {

/// A user profile.
pub struct Profile {
    pub address: AccountId,
    pub username: Vec<u8>,
    pub creator_token: AccountId,
}

/// The mathematical value of a [`Profile`].
#[verifier::ext_equal]
pub struct ProfileModel {
    pub address: Seq<u8>,
    pub username: Seq<u8>,
    pub creator_token: Seq<u8>,
}

impl View for Profile {
    type V = ProfileModel;

    open spec fn view(&self) -> ProfileModel {
        ProfileModel {
            address: self.address@,
            username: self.username@,
            creator_token: self.creator_token@,
        }
    }
}

impl Profile {
    /// A copy of this profile.
    pub fn duplicate(&self) -> (r: Profile)
        ensures
            r@ == self@,
    {
        Profile {
            address: self.address.duplicate(),
            username: self.username.clone(),
            creator_token: self.creator_token.duplicate(),
        }
    }
}

impl Stored for Profile {
    type Model = ProfileModel;

    open spec fn model(&self) -> ProfileModel {
        self@
    }

    fn duplicate(&self) -> (r: Profile) {
        Profile::duplicate(self)
    }
}

/// A post, with the running total of the tips it received.
pub struct Post {
    pub id: u64,
    pub author: AccountId,
    pub content: Vec<u8>,
    pub tip_total: i128,
    pub timestamp: u64,
}

/// The mathematical value of a [`Post`].
#[verifier::ext_equal]
pub struct PostModel {
    pub id: u64,
    pub author: Seq<u8>,
    pub content: Seq<u8>,
    pub tip_total: i128,
    pub timestamp: u64,
}

impl View for Post {
    type V = PostModel;

    open spec fn view(&self) -> PostModel {
        PostModel {
            id: self.id,
            author: self.author@,
            content: self.content@,
            tip_total: self.tip_total,
            timestamp: self.timestamp,
        }
    }
}

impl Post {
    /// A copy of this post.
    pub fn duplicate(&self) -> (r: Post)
        ensures
            r@ == self@,
    {
        Post {
            id: self.id,
            author: self.author.duplicate(),
            content: self.content.clone(),
            tip_total: self.tip_total,
            timestamp: self.timestamp,
        }
    }
}

impl Stored for Post {
    type Model = PostModel;

    open spec fn model(&self) -> PostModel {
        self@
    }

    fn duplicate(&self) -> (r: Post) {
        Post::duplicate(self)
    }
}

/// A community token pool, spent by a quorum of its admins.
pub struct Pool {
    pub token: AccountId,
    pub balance: i128,
    pub admins: Vec<AccountId>,
    pub threshold: u32,
}

/// The mathematical value of a [`Pool`].
#[verifier::ext_equal]
pub struct PoolModel {
    pub token: Seq<u8>,
    pub balance: i128,
    pub admins: Seq<Seq<u8>>,
    pub threshold: u32,
}

impl View for Pool {
    type V = PoolModel;

    open spec fn view(&self) -> PoolModel {
        PoolModel {
            token: self.token@,
            balance: self.balance,
            admins: accounts_model(self.admins@),
            threshold: self.threshold,
        }
    }
}

impl Pool {
    /// A copy of this pool.
    pub fn duplicate(&self) -> (r: Pool)
        ensures
            r@ == self@,
    {
        Pool {
            token: self.token.duplicate(),
            balance: self.balance,
            admins: copy_accounts(&self.admins),
            threshold: self.threshold,
        }
    }
}

impl Stored for Pool {
    type Model = PoolModel;

    open spec fn model(&self) -> PoolModel {
        self@
    }

    fn duplicate(&self) -> (r: Pool) {
        Pool::duplicate(self)
    }
}

/// Published when a user sets a profile.
pub struct ProfileSetEvent {
    pub user: AccountId,
    pub username: Vec<u8>,
}

/// Published when a user follows another.
pub struct FollowEvent {
    pub follower: AccountId,
    pub followee: AccountId,
}

/// Published when a user unfollows another.
pub struct UnfollowEvent {
    pub follower: AccountId,
    pub followee: AccountId,
}

/// Published when a post is created.
pub struct PostCreatedEvent {
    pub id: u64,
    pub author: AccountId,
}

/// Published when a post is tipped; `fee` is the part that went to the treasury.
pub struct TipEvent {
    pub tipper: AccountId,
    pub post_id: u64,
    pub amount: i128,
    pub fee: i128,
}

/// Published when tokens are deposited into a pool.
pub struct PoolDepositEvent {
    pub depositor: AccountId,
    pub pool_id: PoolId,
    pub amount: i128,
}

/// Published when tokens are withdrawn from a pool.
pub struct PoolWithdrawEvent {
    pub recipient: AccountId,
    pub pool_id: PoolId,
    pub amount: i128,
}

/// Published when the contract code is replaced.
pub struct ContractUpgraded {
    pub new_wasm_hash: [u8; 32],
}

/// Published when a post is deleted.
pub struct PostDeleted {
    pub post_id: u64,
    pub author: AccountId,
}

/// An event that the contract publishes.
pub enum Event {
    ProfileSet(ProfileSetEvent),
    Follow(FollowEvent),
    Unfollow(UnfollowEvent),
    PostCreated(PostCreatedEvent),
    Tip(TipEvent),
    PoolDeposit(PoolDepositEvent),
    PoolWithdraw(PoolWithdrawEvent),
    Upgraded(ContractUpgraded),
    PostDeleted(PostDeleted),
}

/// The mathematical value of an [`Event`].
pub enum EventModel {
    ProfileSet { user: Seq<u8>, username: Seq<u8> },
    Follow { follower: Seq<u8>, followee: Seq<u8> },
    Unfollow { follower: Seq<u8>, followee: Seq<u8> },
    PostCreated { id: u64, author: Seq<u8> },
    Tip { tipper: Seq<u8>, post_id: u64, amount: i128, fee: i128 },
    PoolDeposit { depositor: Seq<u8>, pool_id: Seq<u8>, amount: i128 },
    PoolWithdraw { recipient: Seq<u8>, pool_id: Seq<u8>, amount: i128 },
    Upgraded { new_wasm_hash: Seq<u8> },
    PostDeleted { post_id: u64, author: Seq<u8> },
}

impl View for Event {
    type V = EventModel;

    open spec fn view(&self) -> EventModel {
        match self {
            Event::ProfileSet(e) => EventModel::ProfileSet { user: e.user@, username: e.username@ },
            Event::Follow(e) => EventModel::Follow { follower: e.follower@, followee: e.followee@ },
            Event::Unfollow(e) => EventModel::Unfollow {
                follower: e.follower@,
                followee: e.followee@,
            },
            Event::PostCreated(e) => EventModel::PostCreated { id: e.id, author: e.author@ },
            Event::Tip(e) => EventModel::Tip {
                tipper: e.tipper@,
                post_id: e.post_id,
                amount: e.amount,
                fee: e.fee,
            },
            Event::PoolDeposit(e) => EventModel::PoolDeposit {
                depositor: e.depositor@,
                pool_id: e.pool_id@,
                amount: e.amount,
            },
            Event::PoolWithdraw(e) => EventModel::PoolWithdraw {
                recipient: e.recipient@,
                pool_id: e.pool_id@,
                amount: e.amount,
            },
            Event::Upgraded(e) => EventModel::Upgraded { new_wasm_hash: e.new_wasm_hash@ },
            Event::PostDeleted(e) => EventModel::PostDeleted { post_id: e.post_id, author: e.author@ },
        }
    }
}

/// A token transfer that the contract makes.
pub struct Transfer {
    pub token: AccountId,
    pub from: AccountId,
    pub to: AccountId,
    pub amount: i128,
}

/// What the contract asks of the ledger, in the order in which it asks it.
pub enum Effect {
    /// `account` must have authorized this call.
    RequireAuth(AccountId),
    /// Move tokens between accounts.
    Transfer(Transfer),
    /// Publish an event.
    Publish(Event),
    /// Replace the code of this contract by the code with this hash.
    UpdateWasm([u8; 32]),
}

/// The mathematical value of an [`Effect`].
pub enum EffectModel {
    RequireAuth(Seq<u8>),
    Transfer { token: Seq<u8>, from: Seq<u8>, to: Seq<u8>, amount: i128 },
    Publish(EventModel),
    UpdateWasm(Seq<u8>),
}

impl View for Effect {
    type V = EffectModel;

    open spec fn view(&self) -> EffectModel {
        match self {
            Effect::RequireAuth(a) => EffectModel::RequireAuth(a@),
            Effect::Transfer(t) => EffectModel::Transfer {
                token: t.token@,
                from: t.from@,
                to: t.to@,
                amount: t.amount,
            },
            Effect::Publish(e) => EffectModel::Publish(e@),
            Effect::UpdateWasm(h) => EffectModel::UpdateWasm(h@),
        }
    }
}

/// The models of a list of effects, in order.
pub open spec fn effects_model(list: Seq<Effect>) -> Seq<EffectModel> {
    list.map_values(|e: Effect| e@)
}

/// Why a call is refused. A refused call changes nothing.
#[derive(Clone, Copy, Debug, PartialEq, Eq, Structural)]
pub enum LinkoraError {
    UsernameTooShort,
    UsernameTooLong,
    UsernameInvalidCharacters,
    ContentEmpty,
    ContentTooLong,
    PostNotFound,
    NotAuthor,
    PoolExists,
    InvalidThreshold,
    NotPositive,
    PoolNotFound,
    WrongToken,
    InsufficientSigners,
    UnauthorizedSigner,
    LowBalance,
    AlreadyInitialized,
    FeeBpsTooHigh,
    InvalidFee,
    NotInitialized,
    Overflow,
}

impl LinkoraError {
    /// The panic message under which the contract aborts with this error.
    pub fn message(&self) -> (r: &'static str)
        ensures
            r@ == match self {
                LinkoraError::UsernameTooShort => "invalid username: \"username too short\""@,
                LinkoraError::UsernameTooLong => "invalid username: \"username too long\""@,
                LinkoraError::UsernameInvalidCharacters => "invalid username: \"invalid characters\""@,
                LinkoraError::ContentEmpty => "invalid content: \"empty content\""@,
                LinkoraError::ContentTooLong => "invalid content: \"content too long\""@,
                LinkoraError::PostNotFound => "post not found"@,
                LinkoraError::NotAuthor => "not author"@,
                LinkoraError::PoolExists => "pool exists"@,
                LinkoraError::InvalidThreshold => "invalid threshold"@,
                LinkoraError::NotPositive => "must be positive"@,
                LinkoraError::PoolNotFound => "pool not found"@,
                LinkoraError::WrongToken => "wrong token"@,
                LinkoraError::InsufficientSigners => "insufficient signers"@,
                LinkoraError::UnauthorizedSigner => "unauthorized signer"@,
                LinkoraError::LowBalance => "low balance"@,
                LinkoraError::AlreadyInitialized => "already initialized"@,
                LinkoraError::FeeBpsTooHigh => "fee_bps cannot exceed 10000"@,
                LinkoraError::InvalidFee => "invalid fee"@,
                LinkoraError::NotInitialized => "not initialized"@,
                LinkoraError::Overflow => "arithmetic overflow"@,
            },
    {
        match self {
            LinkoraError::UsernameTooShort => "invalid username: \"username too short\"",
            LinkoraError::UsernameTooLong => "invalid username: \"username too long\"",
            LinkoraError::UsernameInvalidCharacters => "invalid username: \"invalid characters\"",
            LinkoraError::ContentEmpty => "invalid content: \"empty content\"",
            LinkoraError::ContentTooLong => "invalid content: \"content too long\"",
            LinkoraError::PostNotFound => "post not found",
            LinkoraError::NotAuthor => "not author",
            LinkoraError::PoolExists => "pool exists",
            LinkoraError::InvalidThreshold => "invalid threshold",
            LinkoraError::NotPositive => "must be positive",
            LinkoraError::PoolNotFound => "pool not found",
            LinkoraError::WrongToken => "wrong token",
            LinkoraError::InsufficientSigners => "insufficient signers",
            LinkoraError::UnauthorizedSigner => "unauthorized signer",
            LinkoraError::LowBalance => "low balance",
            LinkoraError::AlreadyInitialized => "already initialized",
            LinkoraError::FeeBpsTooHigh => "fee_bps cannot exceed 10000",
            LinkoraError::InvalidFee => "invalid fee",
            LinkoraError::NotInitialized => "not initialized",
            LinkoraError::Overflow => "arithmetic overflow",
        }
    }
}

} // verus!
