use linkora_contracts::{AccountId, Effect, Event, LinkoraContract, LinkoraError};

fn account(name: &str) -> AccountId {
    AccountId::new(name.as_bytes().to_vec())
}

#[test]
fn initialize_once() {
    let mut c = LinkoraContract::new(account("CONTRACT"));
    assert_eq!(
        c.initialize(account("GADMIN"), account("GT"), 10001),
        Err(LinkoraError::FeeBpsTooHigh)
    );
    assert_eq!(c.initialized, None);
    assert_eq!(c.initialize(account("GADMIN"), account("GT"), 10000), Ok(()));
    assert_eq!(c.fee_bps, Some(10000));
    assert_eq!(c.initialized, Some(true));
    assert_eq!(
        c.initialize(account("GOTHER"), account("GT"), 0),
        Err(LinkoraError::AlreadyInitialized)
    );
    assert_eq!(c.admin.as_ref().unwrap().strkey, b"GADMIN".to_vec());
    // initialization asks no authorization
    assert_eq!(c.effects.len(), 0);
}

#[test]
fn admin_calls_before_initialize_are_refused() {
    let mut c = LinkoraContract::new(account("CONTRACT"));
    assert_eq!(c.set_fee(5), Err(LinkoraError::NotInitialized));
    assert_eq!(c.set_treasury(account("GT")), Err(LinkoraError::NotInitialized));
    assert_eq!(c.upgrade([7u8; 32]), Err(LinkoraError::NotInitialized));
    assert_eq!(c.effects.len(), 0);
}

#[test]
fn set_fee_checks_bound_and_asks_admin() {
    let mut c = LinkoraContract::new(account("CONTRACT"));
    c.initialize(account("GADMIN"), account("GT"), 0).unwrap();
    assert_eq!(c.set_fee(10001), Err(LinkoraError::InvalidFee));
    assert_eq!(c.set_fee(10001).unwrap_err().message(), "invalid fee");
    assert_eq!(c.fee_bps, Some(0));
    assert_eq!(c.set_fee(10000), Ok(()));
    assert_eq!(c.fee_bps, Some(10000));
    match &c.effects[0] {
        Effect::RequireAuth(a) => assert_eq!(a.strkey, b"GADMIN".to_vec()),
        _ => panic!("expected the admin's authorization"),
    }
}

#[test]
fn upgrade_asks_admin_updates_code_and_publishes() {
    let mut c = LinkoraContract::new(account("CONTRACT"));
    c.initialize(account("GADMIN"), account("GT"), 0).unwrap();
    c.upgrade([9u8; 32]).unwrap();
    assert_eq!(c.effects.len(), 3);
    match (&c.effects[0], &c.effects[1], &c.effects[2]) {
        (Effect::RequireAuth(a), Effect::UpdateWasm(h), Effect::Publish(Event::Upgraded(e))) => {
            assert_eq!(a.strkey, b"GADMIN".to_vec());
            assert_eq!(*h, [9u8; 32]);
            assert_eq!(e.new_wasm_hash, [9u8; 32]);
        }
        _ => panic!("expected authorization, code update, event"),
    }
}
