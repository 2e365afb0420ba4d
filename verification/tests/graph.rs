use linkora_contracts::{AccountId, LinkoraContract};

fn account(name: &str) -> AccountId {
    AccountId::new(name.as_bytes().to_vec())
}

fn names(list: &[AccountId]) -> Vec<Vec<u8>> {
    list.iter().map(|a| a.strkey.clone()).collect()
}

fn new_contract() -> LinkoraContract {
    LinkoraContract::new(account("CONTRACT"))
}

#[test]
fn follow_links_both_lists() {
    let mut c = new_contract();
    c.follow(account("A"), account("B"));
    assert_eq!(names(&c.get_following(account("A"))), vec![b"B".to_vec()]);
    assert_eq!(names(&c.get_followers(account("B"))), vec![b"A".to_vec()]);
    assert!(c.get_following(account("B")).is_empty());
    assert!(c.get_followers(account("A")).is_empty());
}

#[test]
fn follow_twice_is_once() {
    let mut c = new_contract();
    c.follow(account("A"), account("B"));
    c.follow(account("A"), account("B"));
    assert_eq!(names(&c.get_following(account("A"))), vec![b"B".to_vec()]);
    assert_eq!(names(&c.get_followers(account("B"))), vec![b"A".to_vec()]);
    // both calls still ask authorization and publish
    assert_eq!(c.effects.len(), 4);
}

#[test]
fn following_keeps_order() {
    let mut c = new_contract();
    c.follow(account("A"), account("C"));
    c.follow(account("A"), account("B"));
    c.follow(account("D"), account("B"));
    assert_eq!(names(&c.get_following(account("A"))), vec![b"C".to_vec(), b"B".to_vec()]);
    assert_eq!(names(&c.get_followers(account("B"))), vec![b"A".to_vec(), b"D".to_vec()]);
}

#[test]
fn unfollow_undoes_follow() {
    let mut c = new_contract();
    c.follow(account("A"), account("C"));
    c.follow(account("E"), account("B"));
    c.follow(account("A"), account("B"));
    c.unfollow(account("A"), account("B"));
    assert_eq!(names(&c.get_following(account("A"))), vec![b"C".to_vec()]);
    assert_eq!(names(&c.get_followers(account("B"))), vec![b"E".to_vec()]);
}

#[test]
fn unfollow_without_follow_changes_no_list() {
    let mut c = new_contract();
    c.follow(account("A"), account("C"));
    c.unfollow(account("A"), account("B"));
    assert_eq!(names(&c.get_following(account("A"))), vec![b"C".to_vec()]);
    assert!(c.get_followers(account("B")).is_empty());
    assert_eq!(c.effects.len(), 4);
}

#[test]
fn self_follow_and_unfollow() {
    let mut c = new_contract();
    c.follow(account("A"), account("A"));
    assert_eq!(names(&c.get_following(account("A"))), vec![b"A".to_vec()]);
    assert_eq!(names(&c.get_followers(account("A"))), vec![b"A".to_vec()]);
    c.unfollow(account("A"), account("A"));
    assert!(c.get_following(account("A")).is_empty());
    assert!(c.get_followers(account("A")).is_empty());
}
