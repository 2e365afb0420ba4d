use linkora_contracts::{AccountId, Effect, LinkoraContract, LinkoraError, PoolId};

fn account(name: &str) -> AccountId {
    AccountId::new(name.as_bytes().to_vec())
}

fn pool(name: &str) -> PoolId {
    PoolId::new(name.as_bytes().to_vec())
}

fn accounts(names: &[&str]) -> Vec<AccountId> {
    names.iter().map(|n| account(n)).collect()
}

/// An initialized contract with pool "club" of token "CTOKEN", admins X, Y, Z, threshold 2.
fn with_pool() -> LinkoraContract {
    let mut c = LinkoraContract::new(account("CONTRACT"));
    c.initialize(account("GADMIN"), account("GTREASURY"), 0).unwrap();
    c.create_pool(account("GCREATOR"), pool("club"), account("CTOKEN"), accounts(&["X", "Y", "Z"]), 2)
        .unwrap();
    c
}

#[test]
fn create_pool_needs_both_authorizations() {
    let c = with_pool();
    let p = c.get_pool(pool("club")).unwrap();
    assert_eq!(p.balance, 0);
    assert_eq!(p.threshold, 2);
    assert_eq!(p.admins.len(), 3);
    assert_eq!(c.effects.len(), 2);
    match (&c.effects[0], &c.effects[1]) {
        (Effect::RequireAuth(a), Effect::RequireAuth(b)) => {
            assert_eq!(a.strkey, b"GCREATOR".to_vec());
            assert_eq!(b.strkey, b"GADMIN".to_vec());
        }
        _ => panic!("expected two authorizations"),
    }
}

#[test]
fn create_pool_refusals() {
    let mut c = LinkoraContract::new(account("CONTRACT"));
    assert_eq!(
        c.create_pool(account("G"), pool("p"), account("T"), accounts(&["X"]), 1),
        Err(LinkoraError::NotInitialized)
    );
    let mut c = with_pool();
    assert_eq!(
        c.create_pool(account("G"), pool("club"), account("T"), accounts(&["X"]), 1),
        Err(LinkoraError::PoolExists)
    );
    assert_eq!(
        c.create_pool(account("G"), pool("p"), account("T"), accounts(&["X"]), 0),
        Err(LinkoraError::InvalidThreshold)
    );
    assert_eq!(
        c.create_pool(account("G"), pool("p"), account("T"), accounts(&["X"]), 2),
        Err(LinkoraError::InvalidThreshold)
    );
    assert!(c.get_pool(pool("p")).is_none());
}

#[test]
fn deposit_then_withdraw_restores_balance() {
    let mut c = with_pool();
    c.pool_deposit(account("GD"), pool("club"), account("CTOKEN"), 500).unwrap();
    assert_eq!(c.get_pool(pool("club")).unwrap().balance, 500);
    c.pool_withdraw(accounts(&["X", "Z"]), pool("club"), 500, account("GR")).unwrap();
    assert_eq!(c.get_pool(pool("club")).unwrap().balance, 0);
    // withdraw effects: one authorization per signer, the transfer, the event
    let n = c.effects.len();
    match &c.effects[n - 2] {
        Effect::Transfer(t) => {
            assert_eq!(t.from.strkey, b"CONTRACT".to_vec());
            assert_eq!(t.to.strkey, b"GR".to_vec());
            assert_eq!(t.amount, 500);
        }
        _ => panic!("expected a transfer"),
    }
    match (&c.effects[n - 4], &c.effects[n - 3]) {
        (Effect::RequireAuth(a), Effect::RequireAuth(b)) => {
            assert_eq!(a.strkey, b"X".to_vec());
            assert_eq!(b.strkey, b"Z".to_vec());
        }
        _ => panic!("expected the signers' authorizations"),
    }
}

#[test]
fn deposit_refusals() {
    let mut c = with_pool();
    assert_eq!(
        c.pool_deposit(account("GD"), pool("club"), account("CTOKEN"), 0),
        Err(LinkoraError::NotPositive)
    );
    assert_eq!(
        c.pool_deposit(account("GD"), pool("none"), account("CTOKEN"), 5),
        Err(LinkoraError::PoolNotFound)
    );
    assert_eq!(
        c.pool_deposit(account("GD"), pool("club"), account("OTHER"), 5),
        Err(LinkoraError::WrongToken)
    );
    c.pool_deposit(account("GD"), pool("club"), account("CTOKEN"), i128::MAX).unwrap();
    assert_eq!(
        c.pool_deposit(account("GD"), pool("club"), account("CTOKEN"), 1),
        Err(LinkoraError::Overflow)
    );
}

#[test]
fn withdraw_refusals() {
    let mut c = with_pool();
    c.pool_deposit(account("GD"), pool("club"), account("CTOKEN"), 100).unwrap();
    assert_eq!(
        c.pool_withdraw(accounts(&["X", "Y"]), pool("club"), -1, account("GR")),
        Err(LinkoraError::NotPositive)
    );
    assert_eq!(
        c.pool_withdraw(accounts(&["X", "Y"]), pool("none"), 1, account("GR")),
        Err(LinkoraError::PoolNotFound)
    );
    assert_eq!(
        c.pool_withdraw(accounts(&["X"]), pool("club"), 1, account("GR")),
        Err(LinkoraError::InsufficientSigners)
    );
    assert_eq!(
        c.pool_withdraw(accounts(&["X", "Q"]), pool("club"), 1, account("GR")),
        Err(LinkoraError::UnauthorizedSigner)
    );
    assert_eq!(
        c.pool_withdraw(accounts(&["X", "Y"]), pool("club"), 101, account("GR")),
        Err(LinkoraError::LowBalance)
    );
    assert_eq!(c.get_pool(pool("club")).unwrap().balance, 100);
}

#[test]
fn duplicate_signer_counts_twice() {
    let mut c = with_pool();
    c.pool_deposit(account("GD"), pool("club"), account("CTOKEN"), 10).unwrap();
    assert_eq!(c.pool_withdraw(accounts(&["X", "X"]), pool("club"), 10, account("GR")), Ok(()));
}

#[test]
fn update_pool_admins_replaces_quorum() {
    let mut c = with_pool();
    assert_eq!(
        c.update_pool_admins(accounts(&["X", "Y"]), pool("club"), accounts(&["W"]), 2),
        Err(LinkoraError::InvalidThreshold)
    );
    assert_eq!(
        c.update_pool_admins(accounts(&["X"]), pool("club"), accounts(&["W"]), 1),
        Err(LinkoraError::InsufficientSigners)
    );
    assert_eq!(
        c.update_pool_admins(accounts(&["X", "Y"]), pool("nope"), accounts(&["W"]), 1),
        Err(LinkoraError::PoolNotFound)
    );
    c.update_pool_admins(accounts(&["X", "Y"]), pool("club"), accounts(&["W"]), 1).unwrap();
    let p = c.get_pool(pool("club")).unwrap();
    assert_eq!(p.threshold, 1);
    assert_eq!(p.admins.len(), 1);
    assert_eq!(p.admins[0].strkey, b"W".to_vec());
    c.pool_deposit(account("GD"), pool("club"), account("CTOKEN"), 10).unwrap();
    assert_eq!(
        c.pool_withdraw(accounts(&["X", "Y"]), pool("club"), 10, account("GR")),
        Err(LinkoraError::UnauthorizedSigner)
    );
    assert_eq!(c.pool_withdraw(accounts(&["W"]), pool("club"), 10, account("GR")), Ok(()));
}
