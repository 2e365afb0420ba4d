use vstd::prelude::*;

use crate::account::{
    accounts_model, contains_account, copy_accounts, position_of, push_account, remove_account_at,
    AccountId, PoolId,
};
use crate::model::{self, LinkoraState};
use crate::store::Store;
use crate::types::{
    effects_model, Effect, Event, FollowEvent, LinkoraError, Pool, PoolDepositEvent, PoolWithdrawEvent,
    Post, PostCreatedEvent, PostDeleted, Profile, ProfileSetEvent, TipEvent, Transfer, UnfollowEvent,
    ContractUpgraded,
};
use crate::validation::{validate_content, validate_username};

verus! {

/// The model of an optional stored account.
pub open spec fn account_opt(a: Option<AccountId>) -> Option<Seq<u8>> {
    match a {
        Some(x) => Some(x@),
        None => None,
    }
}

/// A call's result agrees with the expected outcome: on success the state
/// is the expected one; on refusal the error is the expected one and the
/// state is unchanged.
pub open spec fn outcome_matches<T>(
    r: Result<T, LinkoraError>,
    before: LinkoraState,
    after: LinkoraState,
    expected: Result<LinkoraState, LinkoraError>,
) -> bool {
    match expected {
        Ok(t) => r is Ok && after == t,
        Err(e) => r == Err::<T, LinkoraError>(e) && after == before,
    }
}

/// The Linkora contract: its storage, and the effects it has asked of the
/// ledger (authorizations, token transfers, events, code updates), in order.
pub struct LinkoraContract {
    /// The address of the contract itself.
    pub address: AccountId,
    pub post_count: Option<u64>,
    pub profile_count: Option<u64>,
    pub admin: Option<AccountId>,
    pub treasury: Option<AccountId>,
    pub fee_bps: Option<u32>,
    pub initialized: Option<bool>,
    pub profiles: Store<AccountId, Profile>,
    pub following: Store<AccountId, Vec<AccountId>>,
    pub followers: Store<AccountId, Vec<AccountId>>,
    pub posts: Store<u64, Post>,
    pub pools: Store<PoolId, Pool>,
    pub effects: Vec<Effect>,
}

impl View for LinkoraContract {
    type V = LinkoraState;

    open spec fn view(&self) -> LinkoraState {
        LinkoraState {
            address: self.address@,
            post_count: self.post_count,
            profile_count: self.profile_count,
            admin: account_opt(self.admin),
            treasury: account_opt(self.treasury),
            fee_bps: self.fee_bps,
            initialized: self.initialized,
            profiles: self.profiles@,
            following: self.following@,
            followers: self.followers@,
            posts: self.posts@,
            pools: self.pools@,
            effects: effects_model(self.effects@),
        }
    }
}

fn record(effects: &mut Vec<Effect>, e: Effect)
    ensures
        effects_model(final(effects)@) == effects_model(old(effects)@).push(e@),
{
    let ghost before = effects@;
    let ghost m = e@;
    effects.push(e);
    assert(effects_model(effects@) =~= effects_model(before).push(m));
}

impl LinkoraContract {
    /// A freshly deployed contract at `address`: nothing stored, nothing asked.
    pub fn new(address: AccountId) -> (r: LinkoraContract)
        ensures
            r@ == model::initial_state(address@),
    {
        let r = LinkoraContract {
            address,
            post_count: None,
            profile_count: None,
            admin: None,
            treasury: None,
            fee_bps: None,
            initialized: None,
            profiles: Store::new(),
            following: Store::new(),
            followers: Store::new(),
            posts: Store::new(),
            pools: Store::new(),
            effects: Vec::new(),
        };
        assert(effects_model(r.effects@) =~= Seq::empty());
        r
    }

    // ── Profiles ────────────────────────────────────────────────────────────

    /// Sets the profile of `user`, counting users who set one for the first time.
    pub fn set_profile(&mut self, user: AccountId, username: Vec<u8>, creator_token: AccountId) -> (r:
        Result<(), LinkoraError>)
        ensures
            outcome_matches(
                r,
                old(self)@,
                final(self)@,
                model::spec_set_profile(old(self)@, user@, username@, creator_token@),
            ),
    {
        let ghost s = self@;
        match validate_username(&username) {
            Err(e) => {
                return Err(e);
            },
            Ok(()) => {},
        }
        if !self.profiles.contains_key(&user) {
            let count: u64 = match self.profile_count {
                Some(c) => c,
                None => 0,
            };
            if count == u64::MAX {
                return Err(LinkoraError::Overflow);
            }
            self.profile_count = Some(count + 1);
        }
        let profile = Profile {
            address: user.duplicate(),
            username: username.clone(),
            creator_token,
        };
        self.profiles.insert(user.duplicate(), profile);
        record(&mut self.effects, Effect::RequireAuth(user.duplicate()));
        record(&mut self.effects, Effect::Publish(Event::ProfileSet(ProfileSetEvent { user, username })));
        assert(self@ =~= model::spec_set_profile(s, user@, username@, creator_token@)->Ok_0);
        Ok(())
    }

    /// The profile of `user`, if one was set.
    pub fn get_profile(&self, user: AccountId) -> (r: Option<Profile>)
        ensures
            match r {
                Some(p) => self@.profiles.contains_key(user@) && p@ == self@.profiles[user@],
                None => !self@.profiles.contains_key(user@),
            },
    {
        match self.profiles.get(&user) {
            Some(p) => Some(p.duplicate()),
            None => None,
        }
    }

    /// How many users have set a profile.
    pub fn get_profile_count(&self) -> (r: u64)
        ensures
            r == model::count_of(self@.profile_count),
    {
        match self.profile_count {
            Some(c) => c,
            None => 0,
        }
    }

    // ── Social graph ────────────────────────────────────────────────────────

    /// Makes `follower` follow `followee`; following twice changes nothing.
    pub fn follow(&mut self, follower: AccountId, followee: AccountId)
        ensures
            final(self)@ == model::spec_follow(old(self)@, follower@, followee@),
    {
        let ghost s = self@;
        let mut following = stored_list(&self.following, &follower);
        if !contains_account(&following, &followee) {
            push_account(&mut following, followee.duplicate());
            self.following.insert(follower.duplicate(), following);
            let mut followers = stored_list(&self.followers, &followee);
            push_account(&mut followers, follower.duplicate());
            self.followers.insert(followee.duplicate(), followers);
        }
        record(&mut self.effects, Effect::RequireAuth(follower.duplicate()));
        record(&mut self.effects, Effect::Publish(Event::Follow(FollowEvent { follower, followee })));
        assert(self@ =~= model::spec_follow(s, follower@, followee@));
    }

    /// Makes `follower` stop following `followee`.
    pub fn unfollow(&mut self, follower: AccountId, followee: AccountId)
        ensures
            final(self)@ == model::spec_unfollow(old(self)@, follower@, followee@),
    {
        let ghost s = self@;
        let ghost fl = model::list_of(s.following, follower@);
        let ghost fr = model::list_of(s.followers, followee@);
        let mut following = stored_list(&self.following, &follower);
        match position_of(&following, &followee) {
            Some(i) => {
                remove_account_at(&mut following, i);
                self.following.insert(follower.duplicate(), following);
                assert(self.following@ == s.following.insert(follower@, fl.remove(crate::account::first_index(fl, followee@))));
                let mut followers = stored_list(&self.followers, &followee);
                match position_of(&followers, &follower) {
                    Some(j) => {
                        remove_account_at(&mut followers, j);
                        self.followers.insert(followee.duplicate(), followers);
                        assert(self.followers@ == s.followers.insert(followee@, fr.remove(crate::account::first_index(fr, follower@))));
                    },
                    None => {
                        assert(!fr.contains(follower@));
                    },
                }
            },
            None => {
                assert(!fl.contains(followee@));
            },
        }
        record(&mut self.effects, Effect::RequireAuth(follower.duplicate()));
        record(
            &mut self.effects,
            Effect::Publish(Event::Unfollow(UnfollowEvent { follower, followee })),
        );
        assert(self@ =~= model::spec_unfollow(s, follower@, followee@));
    }

    /// The accounts that `user` follows, in the order in which they were followed.
    pub fn get_following(&self, user: AccountId) -> (r: Vec<AccountId>)
        ensures
            accounts_model(r@) == model::list_of(self@.following, user@),
    {
        stored_list(&self.following, &user)
    }

    /// The accounts that follow `user`, in the order in which they followed.
    pub fn get_followers(&self, user: AccountId) -> (r: Vec<AccountId>)
        ensures
            accounts_model(r@) == model::list_of(self@.followers, user@),
    {
        stored_list(&self.followers, &user)
    }

    // ── Posts ───────────────────────────────────────────────────────────────

    /// Publishes a post by `author` at ledger time `timestamp`; returns its
    /// id, one more than the number of posts created before.
    pub fn create_post(&mut self, author: AccountId, content: Vec<u8>, timestamp: u64) -> (r:
        Result<u64, LinkoraError>)
        ensures
            outcome_matches(
                r,
                old(self)@,
                final(self)@,
                model::spec_create_post(old(self)@, author@, content@, timestamp),
            ),
            r matches Ok(id) ==> id == model::next_post_id(old(self)@),
    {
        let ghost s = self@;
        match validate_content(&content) {
            Err(e) => {
                return Err(e);
            },
            Ok(()) => {},
        }
        let count: u64 = match self.post_count {
            Some(c) => c,
            None => 0,
        };
        if count == u64::MAX {
            return Err(LinkoraError::Overflow);
        }
        let id: u64 = count + 1;
        let post = Post { id, author: author.duplicate(), content, tip_total: 0, timestamp };
        self.posts.insert(id, post);
        self.post_count = Some(id);
        record(&mut self.effects, Effect::RequireAuth(author.duplicate()));
        record(&mut self.effects, Effect::Publish(Event::PostCreated(PostCreatedEvent { id, author })));
        assert(self@ =~= model::spec_create_post(s, author@, content@, timestamp)->Ok_0);
        Ok(id)
    }

    /// The post with this id, if it exists.
    pub fn get_post(&self, id: u64) -> (r: Option<Post>)
        ensures
            match r {
                Some(p) => self@.posts.contains_key(id) && p@ == self@.posts[id],
                None => !self@.posts.contains_key(id),
            },
    {
        match self.posts.get(&id) {
            Some(p) => Some(p.duplicate()),
            None => None,
        }
    }

    /// How many posts have been created (deleted ones included).
    pub fn get_post_count(&self) -> (r: u64)
        ensures
            r == model::count_of(self@.post_count),
    {
        match self.post_count {
            Some(c) => c,
            None => 0,
        }
    }

    /// Deletes a post; only its author may.
    pub fn delete_post(&mut self, author: AccountId, post_id: u64) -> (r: Result<(), LinkoraError>)
        ensures
            outcome_matches(
                r,
                old(self)@,
                final(self)@,
                model::spec_delete_post(old(self)@, author@, post_id),
            ),
    {
        let ghost s = self@;
        match self.posts.get(&post_id) {
            None => {
                return Err(LinkoraError::PostNotFound);
            },
            Some(p) => {
                if !p.author.same(&author) {
                    return Err(LinkoraError::NotAuthor);
                }
            },
        }
        self.posts.remove(&post_id);
        record(&mut self.effects, Effect::RequireAuth(author.duplicate()));
        record(&mut self.effects, Effect::Publish(Event::PostDeleted(PostDeleted { post_id, author })));
        assert(self@ =~= model::spec_delete_post(s, author@, post_id)->Ok_0);
        Ok(())
    }

    // ── Tipping ─────────────────────────────────────────────────────────────

    /// `tipper` tips the author of a post `amount` of `token`; where a
    /// treasury is set, the fee rate's share of the tip goes to it.
    pub fn tip(&mut self, tipper: AccountId, post_id: u64, token: AccountId, amount: i128) -> (r:
        Result<(), LinkoraError>)
        ensures
            outcome_matches(
                r,
                old(self)@,
                final(self)@,
                model::spec_tip(old(self)@, tipper@, post_id, token@, amount),
            ),
    {
        let ghost s = self@;
        let mut post = match self.posts.get(&post_id) {
            None => {
                return Err(LinkoraError::PostNotFound);
            },
            Some(p) => p.duplicate(),
        };
        let fee_bps: u32 = match self.fee_bps {
            Some(f) => f,
            None => 0,
        };
        let fee: i128 = match &self.treasury {
            Some(_) => match amount.checked_mul(fee_bps as i128) {
                None => {
                    return Err(LinkoraError::Overflow);
                },
                Some(x) => x / 10000,
            },
            None => 0,
        };
        assert(fee == model::tip_fee(s, amount as int));
        let author_amount: i128 = match amount.checked_sub(fee) {
            None => {
                return Err(LinkoraError::Overflow);
            },
            Some(x) => x,
        };
        let new_total: i128 = match post.tip_total.checked_add(amount) {
            None => {
                return Err(LinkoraError::Overflow);
            },
            Some(x) => x,
        };
        let ghost before = effects_model(self.effects@);
        record(&mut self.effects, Effect::RequireAuth(tipper.duplicate()));
        if fee > 0 {
            match &self.treasury {
                Some(t) => {
                    record(
                        &mut self.effects,
                        Effect::Transfer(
                            Transfer {
                                token: token.duplicate(),
                                from: tipper.duplicate(),
                                to: t.duplicate(),
                                amount: fee,
                            },
                        ),
                    );
                },
                None => {},
            }
        }
        record(
            &mut self.effects,
            Effect::Transfer(
                Transfer {
                    token,
                    from: tipper.duplicate(),
                    to: post.author.duplicate(),
                    amount: author_amount,
                },
            ),
        );
        assert(effects_model(self.effects@) =~= before + seq![model::auth(tipper@)]
            + model::tip_transfers(s, tipper@, post.author@, token@, amount as int));
        post.tip_total = new_total;
        self.posts.insert(post_id, post);
        record(
            &mut self.effects,
            Effect::Publish(Event::Tip(TipEvent { tipper, post_id, amount, fee })),
        );
        assert(self@ =~= model::spec_tip(s, tipper@, post_id, token@, amount)->Ok_0);
        Ok(())
    }

    // ── Community token pools ───────────────────────────────────────────────

    /// The stored admin of the contract, whose authorization the
    /// administrative calls require.
    fn require_admin(&self) -> (r: Result<AccountId, LinkoraError>)
        ensures
            match self@.admin {
                Some(a) => r matches Ok(x) && x@ == a,
                None => r == Err::<AccountId, LinkoraError>(LinkoraError::NotInitialized),
            },
    {
        match &self.admin {
            Some(a) => Ok(a.duplicate()),
            None => Err(LinkoraError::NotInitialized),
        }
    }

    /// Creates pool `pool_id` of `token`, spendable by `threshold` of
    /// `initial_admins`; both `admin` and the contract admin authorize it.
    pub fn create_pool(
        &mut self,
        admin: AccountId,
        pool_id: PoolId,
        token: AccountId,
        initial_admins: Vec<AccountId>,
        threshold: u32,
    ) -> (r: Result<(), LinkoraError>)
        ensures
            outcome_matches(
                r,
                old(self)@,
                final(self)@,
                model::spec_create_pool(
                    old(self)@,
                    admin@,
                    pool_id@,
                    token@,
                    accounts_model(initial_admins@),
                    threshold,
                ),
            ),
    {
        let ghost s = self@;
        let contract_admin = match self.require_admin() {
            Err(e) => {
                return Err(e);
            },
            Ok(a) => a,
        };
        if self.pools.contains_key(&pool_id) {
            return Err(LinkoraError::PoolExists);
        }
        if !(threshold > 0 && threshold as usize <= initial_admins.len()) {
            return Err(LinkoraError::InvalidThreshold);
        }
        let ghost admins_model = accounts_model(initial_admins@);
        let pool = Pool { token, balance: 0, admins: initial_admins, threshold };
        self.pools.insert(pool_id, pool);
        record(&mut self.effects, Effect::RequireAuth(admin));
        record(&mut self.effects, Effect::RequireAuth(contract_admin));
        assert(self@ =~= model::spec_create_pool(s, admin@, pool_id@, token@, admins_model, threshold)->Ok_0);
        Ok(())
    }

    /// `depositor` puts `amount` of the pool's token into the pool.
    pub fn pool_deposit(&mut self, depositor: AccountId, pool_id: PoolId, token: AccountId, amount: i128) -> (r:
        Result<(), LinkoraError>)
        ensures
            outcome_matches(
                r,
                old(self)@,
                final(self)@,
                model::spec_pool_deposit(old(self)@, depositor@, pool_id@, token@, amount),
            ),
    {
        let ghost s = self@;
        if amount <= 0 {
            return Err(LinkoraError::NotPositive);
        }
        let mut pool = match self.pools.get(&pool_id) {
            None => {
                return Err(LinkoraError::PoolNotFound);
            },
            Some(p) => p.duplicate(),
        };
        if !pool.token.same(&token) {
            return Err(LinkoraError::WrongToken);
        }
        let new_balance: i128 = match pool.balance.checked_add(amount) {
            None => {
                return Err(LinkoraError::Overflow);
            },
            Some(b) => b,
        };
        record(&mut self.effects, Effect::RequireAuth(depositor.duplicate()));
        record(
            &mut self.effects,
            Effect::Transfer(
                Transfer {
                    token,
                    from: depositor.duplicate(),
                    to: self.address.duplicate(),
                    amount,
                },
            ),
        );
        pool.balance = new_balance;
        self.pools.insert(pool_id.duplicate(), pool);
        record(
            &mut self.effects,
            Effect::Publish(Event::PoolDeposit(PoolDepositEvent { depositor, pool_id, amount })),
        );
        assert(self@ =~= model::spec_pool_deposit(s, depositor@, pool_id@, token@, amount)->Ok_0);
        Ok(())
    }

    /// `recipient` receives `amount` from the pool, authorized by `signers`.
    pub fn pool_withdraw(
        &mut self,
        signers: Vec<AccountId>,
        pool_id: PoolId,
        amount: i128,
        recipient: AccountId,
    ) -> (r: Result<(), LinkoraError>)
        ensures
            outcome_matches(
                r,
                old(self)@,
                final(self)@,
                model::spec_pool_withdraw(
                    old(self)@,
                    accounts_model(signers@),
                    pool_id@,
                    amount,
                    recipient@,
                ),
            ),
    {
        let ghost s = self@;
        if amount <= 0 {
            return Err(LinkoraError::NotPositive);
        }
        let mut pool = match self.pools.get(&pool_id) {
            None => {
                return Err(LinkoraError::PoolNotFound);
            },
            Some(p) => p.duplicate(),
        };
        match check_signers(&signers, &pool) {
            Err(e) => {
                return Err(e);
            },
            Ok(()) => {},
        }
        if pool.balance < amount {
            return Err(LinkoraError::LowBalance);
        }
        record_signer_auths(&mut self.effects, &signers);
        record(
            &mut self.effects,
            Effect::Transfer(
                Transfer {
                    token: pool.token.duplicate(),
                    from: self.address.duplicate(),
                    to: recipient.duplicate(),
                    amount,
                },
            ),
        );
        pool.balance = pool.balance - amount;
        self.pools.insert(pool_id.duplicate(), pool);
        record(
            &mut self.effects,
            Effect::Publish(Event::PoolWithdraw(PoolWithdrawEvent { recipient, pool_id, amount })),
        );
        assert(self@ =~= model::spec_pool_withdraw(s, accounts_model(signers@), pool_id@, amount, recipient@)->Ok_0);
        Ok(())
    }

    /// Replaces the admins and threshold of a pool, authorized by `signers`.
    pub fn update_pool_admins(
        &mut self,
        signers: Vec<AccountId>,
        pool_id: PoolId,
        new_admins: Vec<AccountId>,
        new_threshold: u32,
    ) -> (r: Result<(), LinkoraError>)
        ensures
            outcome_matches(
                r,
                old(self)@,
                final(self)@,
                model::spec_update_pool_admins(
                    old(self)@,
                    accounts_model(signers@),
                    pool_id@,
                    accounts_model(new_admins@),
                    new_threshold,
                ),
            ),
    {
        let ghost s = self@;
        let mut pool = match self.pools.get(&pool_id) {
            None => {
                return Err(LinkoraError::PoolNotFound);
            },
            Some(p) => p.duplicate(),
        };
        match check_signers(&signers, &pool) {
            Err(e) => {
                return Err(e);
            },
            Ok(()) => {},
        }
        if !(new_threshold > 0 && new_threshold as usize <= new_admins.len()) {
            return Err(LinkoraError::InvalidThreshold);
        }
        let ghost admins_model = accounts_model(new_admins@);
        record_signer_auths(&mut self.effects, &signers);
        pool.admins = new_admins;
        pool.threshold = new_threshold;
        self.pools.insert(pool_id, pool);
        assert(self@ =~= model::spec_update_pool_admins(s, accounts_model(signers@), pool_id@, admins_model, new_threshold)->Ok_0);
        Ok(())
    }

    /// The pool named `pool_id`, if it exists.
    pub fn get_pool(&self, pool_id: PoolId) -> (r: Option<Pool>)
        ensures
            match r {
                Some(p) => self@.pools.contains_key(pool_id@) && p@ == self@.pools[pool_id@],
                None => !self@.pools.contains_key(pool_id@),
            },
    {
        match self.pools.get(&pool_id) {
            Some(p) => Some(p.duplicate()),
            None => None,
        }
    }

    // ── Administration ──────────────────────────────────────────────────────

    /// Sets the admin, the treasury and the fee rate, once.
    pub fn initialize(&mut self, admin: AccountId, treasury: AccountId, fee_bps: u32) -> (r: Result<
        (),
        LinkoraError,
    >)
        ensures
            outcome_matches(
                r,
                old(self)@,
                final(self)@,
                model::spec_initialize(old(self)@, admin@, treasury@, fee_bps),
            ),
    {
        let ghost s = self@;
        if matches!(self.initialized, Some(true)) {
            return Err(LinkoraError::AlreadyInitialized);
        }
        if fee_bps > model::MAX_FEE_BPS {
            return Err(LinkoraError::FeeBpsTooHigh);
        }
        self.initialized = Some(true);
        self.admin = Some(admin);
        self.treasury = Some(treasury);
        self.fee_bps = Some(fee_bps);
        assert(self@ =~= model::spec_initialize(s, admin@, treasury@, fee_bps)->Ok_0);
        Ok(())
    }

    /// Sets the fee rate, in basis points; the admin authorizes it.
    pub fn set_fee(&mut self, fee_bps: u32) -> (r: Result<(), LinkoraError>)
        ensures
            outcome_matches(r, old(self)@, final(self)@, model::spec_set_fee(old(self)@, fee_bps)),
    {
        let ghost s = self@;
        let admin = match self.require_admin() {
            Err(e) => {
                return Err(e);
            },
            Ok(a) => a,
        };
        if fee_bps > model::MAX_FEE_BPS {
            return Err(LinkoraError::InvalidFee);
        }
        self.fee_bps = Some(fee_bps);
        record(&mut self.effects, Effect::RequireAuth(admin));
        assert(self@ =~= model::spec_set_fee(s, fee_bps)->Ok_0);
        Ok(())
    }

    /// Sets the treasury that receives tip fees; the admin authorizes it.
    pub fn set_treasury(&mut self, treasury: AccountId) -> (r: Result<(), LinkoraError>)
        ensures
            outcome_matches(
                r,
                old(self)@,
                final(self)@,
                model::spec_set_treasury(old(self)@, treasury@),
            ),
    {
        let ghost s = self@;
        let admin = match self.require_admin() {
            Err(e) => {
                return Err(e);
            },
            Ok(a) => a,
        };
        self.treasury = Some(treasury);
        record(&mut self.effects, Effect::RequireAuth(admin));
        assert(self@ =~= model::spec_set_treasury(s, treasury@)->Ok_0);
        Ok(())
    }

    /// Replaces the contract code by the code with this hash; the admin
    /// authorizes it.
    pub fn upgrade(&mut self, new_wasm_hash: [u8; 32]) -> (r: Result<(), LinkoraError>)
        ensures
            outcome_matches(
                r,
                old(self)@,
                final(self)@,
                model::spec_upgrade(old(self)@, new_wasm_hash@),
            ),
    {
        let ghost s = self@;
        let admin = match self.require_admin() {
            Err(e) => {
                return Err(e);
            },
            Ok(a) => a,
        };
        record(&mut self.effects, Effect::RequireAuth(admin));
        record(&mut self.effects, Effect::UpdateWasm(new_wasm_hash));
        record(
            &mut self.effects,
            Effect::Publish(Event::Upgraded(ContractUpgraded { new_wasm_hash })),
        );
        assert(self@ =~= model::spec_upgrade(s, new_wasm_hash@)->Ok_0);
        Ok(())
    }
}

/// Checks that there are at least as many signers as the pool's threshold
/// and that each of them is an admin of the pool.
pub fn check_signers(signers: &Vec<AccountId>, pool: &Pool) -> (r: Result<(), LinkoraError>)
    ensures
        r == model::signers_verdict(accounts_model(signers@), pool@),
{
    let ghost sm = accounts_model(signers@);
    if signers.len() < pool.threshold as usize {
        return Err(LinkoraError::InsufficientSigners);
    }
    let n: usize = signers.len();
    let mut i: usize = 0;
    while i < n
        invariant
            n == signers.len(),
            sm == accounts_model(signers@),
            i <= n,
            sm.len() >= pool@.threshold,
            forall|j: int| 0 <= j < i ==> pool@.admins.contains(#[trigger] sm[j]),
        decreases n - i,
    {
        if !contains_account(&pool.admins, &signers[i]) {
            assert(!pool@.admins.contains(sm[i as int]));
            return Err(LinkoraError::UnauthorizedSigner);
        }
        i = i + 1;
    }
    Ok(())
}

fn record_signer_auths(effects: &mut Vec<Effect>, signers: &Vec<AccountId>)
    ensures
        effects_model(final(effects)@) == effects_model(old(effects)@) + model::signer_auths(
            accounts_model(signers@),
        ),
{
    let ghost start = effects_model(effects@);
    let ghost sm = accounts_model(signers@);
    let n: usize = signers.len();
    let mut i: usize = 0;
    while i < n
        invariant
            n == signers.len(),
            sm == accounts_model(signers@),
            i <= n,
            effects_model(effects@) =~= start + model::signer_auths(sm.take(i as int)),
        decreases n - i,
    {
        record(effects, Effect::RequireAuth(signers[i].duplicate()));
        assert(model::signer_auths(sm.take(i + 1)) =~= model::signer_auths(sm.take(i as int)).push(
            model::auth(sm[i as int]),
        ));
        i = i + 1;
    }
    assert(sm.take(n as int) =~= sm);
}

/// A copy of the list stored under `key`, or an empty list where none is stored.
fn stored_list(store: &Store<AccountId, Vec<AccountId>>, key: &AccountId) -> (r: Vec<AccountId>)
    ensures
        accounts_model(r@) == model::list_of(store@, key@),
{
    match store.get(key) {
        Some(list) => copy_accounts(list),
        None => {
            let r: Vec<AccountId> = Vec::new();
            assert(accounts_model(r@) =~= Seq::empty());
            r
        },
    }
}

} // verus!
