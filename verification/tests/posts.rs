use linkora_contracts::{AccountId, Effect, Event, LinkoraContract, LinkoraError};

fn account(name: &str) -> AccountId {
    AccountId::new(name.as_bytes().to_vec())
}

fn new_contract() -> LinkoraContract {
    LinkoraContract::new(account("CONTRACT"))
}

#[test]
fn post_ids_are_sequential_from_one() {
    let mut c = new_contract();
    assert_eq!(c.get_post_count(), 0);
    assert_eq!(c.create_post(account("A"), b"first".to_vec(), 100), Ok(1));
    assert_eq!(c.create_post(account("B"), b"second".to_vec(), 200), Ok(2));
    assert_eq!(c.get_post_count(), 2);
    let p = c.get_post(2).unwrap();
    assert_eq!(p.id, 2);
    assert_eq!(p.author.strkey, b"B".to_vec());
    assert_eq!(p.content, b"second".to_vec());
    assert_eq!(p.tip_total, 0);
    assert_eq!(p.timestamp, 200);
    assert!(c.get_post(3).is_none());
    match &c.effects[3] {
        Effect::Publish(Event::PostCreated(e)) => assert_eq!(e.id, 2),
        _ => panic!("expected a post event"),
    }
}

#[test]
fn invalid_content_is_refused() {
    let mut c = new_contract();
    assert_eq!(c.create_post(account("A"), vec![], 0), Err(LinkoraError::ContentEmpty));
    assert_eq!(c.create_post(account("A"), vec![b'x'; 281], 0), Err(LinkoraError::ContentTooLong));
    assert_eq!(c.get_post_count(), 0);
    assert_eq!(c.effects.len(), 0);
}

#[test]
fn deleted_post_is_gone_and_ids_are_not_reused() {
    let mut c = new_contract();
    let id = c.create_post(account("A"), b"bye".to_vec(), 0).unwrap();
    assert_eq!(c.delete_post(account("A"), id), Ok(()));
    assert!(c.get_post(id).is_none());
    assert_eq!(c.get_post_count(), 1);
    assert_eq!(c.create_post(account("A"), b"again".to_vec(), 0), Ok(2));
    match c.effects.last() {
        Some(Effect::Publish(Event::PostCreated(e))) => assert_eq!(e.id, 2),
        _ => panic!("expected a post event"),
    }
}

#[test]
fn only_the_author_deletes() {
    let mut c = new_contract();
    let id = c.create_post(account("A"), b"mine".to_vec(), 0).unwrap();
    assert_eq!(c.delete_post(account("B"), id), Err(LinkoraError::NotAuthor));
    assert!(c.get_post(id).is_some());
    assert_eq!(c.delete_post(account("A"), 42), Err(LinkoraError::PostNotFound));
}

#[test]
fn post_count_overflow_is_refused() {
    let mut c = new_contract();
    c.post_count = Some(u64::MAX);
    assert_eq!(c.create_post(account("A"), b"x".to_vec(), 0), Err(LinkoraError::Overflow));
    assert_eq!(c.get_post_count(), u64::MAX);
}
