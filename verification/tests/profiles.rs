use linkora_contracts::{
    validate_content, validate_username, AccountId, Effect, Event, LinkoraContract, LinkoraError,
};

fn account(name: &str) -> AccountId {
    AccountId::new(name.as_bytes().to_vec())
}

fn new_contract() -> LinkoraContract {
    LinkoraContract::new(account("CONTRACT"))
}

#[test]
fn profile_reads_back_as_set() {
    let mut c = new_contract();
    assert_eq!(c.get_profile_count(), 0);
    assert!(c.get_profile(account("GALICE")).is_none());
    c.set_profile(account("GALICE"), b"alice_01".to_vec(), account("CTOKEN")).unwrap();
    let p = c.get_profile(account("GALICE")).unwrap();
    assert_eq!(p.address.strkey, b"GALICE".to_vec());
    assert_eq!(p.username, b"alice_01".to_vec());
    assert_eq!(p.creator_token.strkey, b"CTOKEN".to_vec());
    assert_eq!(c.get_profile_count(), 1);
}

#[test]
fn profile_count_counts_users_not_updates() {
    let mut c = new_contract();
    c.set_profile(account("GALICE"), b"alice".to_vec(), account("CTOKEN")).unwrap();
    c.set_profile(account("GALICE"), b"alice2".to_vec(), account("CTOKEN")).unwrap();
    assert_eq!(c.get_profile_count(), 1);
    c.set_profile(account("GBOB"), b"bob".to_vec(), account("CTOKEN")).unwrap();
    assert_eq!(c.get_profile_count(), 2);
    assert_eq!(c.get_profile(account("GALICE")).unwrap().username, b"alice2".to_vec());
}

#[test]
fn set_profile_asks_auth_then_publishes() {
    let mut c = new_contract();
    c.set_profile(account("GALICE"), b"alice".to_vec(), account("CTOKEN")).unwrap();
    assert_eq!(c.effects.len(), 2);
    match &c.effects[0] {
        Effect::RequireAuth(a) => assert_eq!(a.strkey, b"GALICE".to_vec()),
        _ => panic!("expected an authorization"),
    }
    match &c.effects[1] {
        Effect::Publish(Event::ProfileSet(e)) => {
            assert_eq!(e.user.strkey, b"GALICE".to_vec());
            assert_eq!(e.username, b"alice".to_vec());
        }
        _ => panic!("expected a profile event"),
    }
}

#[test]
fn username_edges() {
    assert_eq!(validate_username(&b"abc".to_vec()), Ok(()));
    assert_eq!(validate_username(&b"ab".to_vec()), Err(LinkoraError::UsernameTooShort));
    assert_eq!(validate_username(&b"".to_vec()), Err(LinkoraError::UsernameTooShort));
    assert_eq!(validate_username(&vec![b'a'; 32]), Ok(()));
    assert_eq!(validate_username(&vec![b'a'; 33]), Err(LinkoraError::UsernameTooLong));
    assert_eq!(validate_username(&b"Zz_09".to_vec()), Ok(()));
    assert_eq!(
        validate_username(&b"al ice".to_vec()),
        Err(LinkoraError::UsernameInvalidCharacters)
    );
    assert_eq!(
        validate_username(&b"al-ice".to_vec()),
        Err(LinkoraError::UsernameInvalidCharacters)
    );
    assert_eq!(
        validate_username(&vec![b'a', b'b', 0xC3, 0xA9]),
        Err(LinkoraError::UsernameInvalidCharacters)
    );
    // length is checked before the bytes
    assert_eq!(validate_username(&b"!!".to_vec()), Err(LinkoraError::UsernameTooShort));
}

#[test]
fn content_edges() {
    assert_eq!(validate_content(&b"".to_vec()), Err(LinkoraError::ContentEmpty));
    assert_eq!(validate_content(&b"x".to_vec()), Ok(()));
    assert_eq!(validate_content(&vec![b'x'; 280]), Ok(()));
    assert_eq!(validate_content(&vec![b'x'; 281]), Err(LinkoraError::ContentTooLong));
}

#[test]
fn invalid_username_changes_nothing() {
    let mut c = new_contract();
    assert_eq!(
        c.set_profile(account("GBOB"), b"b!".to_vec(), account("CTOKEN")),
        Err(LinkoraError::UsernameTooShort)
    );
    assert_eq!(
        c.set_profile(account("GBOB"), b"bo b".to_vec(), account("CTOKEN")),
        Err(LinkoraError::UsernameInvalidCharacters)
    );
    assert_eq!(
        c.set_profile(account("GBOB"), vec![b'b'; 40], account("CTOKEN")),
        Err(LinkoraError::UsernameTooLong)
    );
    assert!(c.get_profile(account("GBOB")).is_none());
    assert_eq!(c.get_profile_count(), 0);
    assert_eq!(c.effects.len(), 0);
}

#[test]
fn profile_count_overflow_is_refused() {
    let mut c = new_contract();
    c.profile_count = Some(u64::MAX);
    assert_eq!(
        c.set_profile(account("GALICE"), b"alice".to_vec(), account("CTOKEN")),
        Err(LinkoraError::Overflow)
    );
    assert!(c.get_profile(account("GALICE")).is_none());
}

#[test]
fn error_messages_are_the_panic_messages() {
    assert_eq!(LinkoraError::UsernameTooShort.message(), "invalid username: \"username too short\"");
    assert_eq!(LinkoraError::FeeBpsTooHigh.message(), "fee_bps cannot exceed 10000");
    assert_eq!(LinkoraError::InvalidFee.message(), "invalid fee");
    assert_eq!(LinkoraError::PostNotFound.message(), "post not found");
    assert_eq!(LinkoraError::InsufficientSigners.message(), "insufficient signers");
}
