//! A verified model of the Linkora social contract: user profiles, a follow
//! graph, posts that can be tipped (with a fee to a treasury), and community
//! token pools spent by a quorum of their admins.
//!
//! [`LinkoraContract`] holds the contract's storage and the ordered list of
//! effects that its calls ask of the ledger: authorizations, token
//! transfers, published events and code updates. Every call is specified
//! against the mathematical state machine in [`model`], and the laws that
//! hold across calls are proved in [`laws`].

pub mod account;
pub mod contract;
pub mod laws;
pub mod model;
pub mod outcomes;
pub mod store;
pub mod types;
pub mod validation;

pub use account::{AccountId, PoolId};
pub use contract::LinkoraContract;
pub use store::{Store, StoreKey, Stored};
pub use types::{
    ContractUpgraded, Effect, Event, FollowEvent, LinkoraError, Pool, PoolDepositEvent,
    PoolWithdrawEvent, Post, PostCreatedEvent, PostDeleted, Profile, ProfileSetEvent, TipEvent,
    Transfer, UnfollowEvent,
};
pub use validation::{validate_content, validate_username};
