use linkora_contracts::{AccountId, Effect, Event, LinkoraContract, LinkoraError};

fn account(name: &str) -> AccountId {
    AccountId::new(name.as_bytes().to_vec())
}

fn new_contract() -> LinkoraContract {
    LinkoraContract::new(account("CONTRACT"))
}

/// The balance change of `who` in `token` over all transfers asked so far.
fn balance(c: &LinkoraContract, token: &AccountId, who: &AccountId) -> i128 {
    let mut total: i128 = 0;
    for e in c.effects.iter() {
        if let Effect::Transfer(t) = e {
            if t.token.strkey == token.strkey {
                if t.to.strkey == who.strkey {
                    total += t.amount;
                }
                if t.from.strkey == who.strkey {
                    total -= t.amount;
                }
            }
        }
    }
    total
}

#[test]
fn test_tip_fee_split() {
    let mut client = new_contract();
    let admin = account("GADMIN");
    let treasury = account("GTREASURY");
    let author = account("GAUTHOR");
    let tipper = account("GTIPPER");

    // Initialize with 2.5% fee (250 bps)
    client.initialize(admin, treasury.duplicate(), 250).unwrap();

    let token = account("CTOKEN");

    let post_id = client.create_post(author.duplicate(), b"Fee test post".to_vec(), 0).unwrap();

    // Tip 1000 units
    client.tip(tipper, post_id, token.duplicate(), 1000).unwrap();

    // Fee = 1000 * 250 / 10000 = 25
    // Author gets 1000 - 25 = 975
    assert_eq!(balance(&client, &token, &treasury), 25);
    assert_eq!(balance(&client, &token, &author), 975);

    let post = client.get_post(post_id).unwrap();
    assert_eq!(post.tip_total, 1000);
}

#[test]
fn test_tip_zero_fee() {
    let mut client = new_contract();
    let admin = account("GADMIN");
    let treasury = account("GTREASURY");
    let author = account("GAUTHOR");
    let tipper = account("GTIPPER");

    // Initialize with 0% fee
    client.initialize(admin, treasury.duplicate(), 0).unwrap();

    let token = account("CTOKEN");
    let post_id = client.create_post(author.duplicate(), b"Zero fee post".to_vec(), 0).unwrap();

    client.tip(tipper, post_id, token.duplicate(), 1000).unwrap();

    assert_eq!(balance(&client, &token, &treasury), 0);
    assert_eq!(balance(&client, &token, &author), 1000);
}

#[test]
fn test_set_fee_and_treasury() {
    let mut client = new_contract();
    let admin = account("GADMIN");
    let treasury = account("GTREASURY");

    client.initialize(admin, treasury, 0).unwrap();

    // Update fee
    client.set_fee(500).unwrap(); // 5%

    // Update treasury
    let new_treasury = account("GNEWTREASURY");
    client.set_treasury(new_treasury.duplicate()).unwrap();

    let author = account("GAUTHOR");
    let tipper = account("GTIPPER");
    let token = account("CTOKEN");
    let post_id = client.create_post(author.duplicate(), b"Update test post".to_vec(), 0).unwrap();

    client.tip(tipper, post_id, token.duplicate(), 1000).unwrap();

    assert_eq!(balance(&client, &token, &new_treasury), 50);
    assert_eq!(balance(&client, &token, &author), 950);
}

#[test]
#[should_panic(expected = "fee_bps cannot exceed 10000")]
fn test_invalid_fee() {
    let mut client = new_contract();
    let admin = account("GADMIN");
    let treasury = account("GTREASURY");
    if let Err(e) = client.initialize(admin, treasury, 10001) {
        panic!("{}", e.message());
    }
}

#[test]
fn tip_without_treasury_pays_author_everything() {
    let mut c = new_contract();
    let author = account("GAUTHOR");
    let token = account("CTOKEN");
    let id = c.create_post(author.duplicate(), b"hello".to_vec(), 7).unwrap();
    c.tip(account("GTIPPER"), id, token.duplicate(), 1000).unwrap();
    assert_eq!(balance(&c, &token, &author), 1000);
    // the effects: auth, one transfer, the event
    assert_eq!(c.effects.len(), 2 + 3);
    match &c.effects[4] {
        Effect::Publish(Event::Tip(e)) => {
            assert_eq!(e.amount, 1000);
            assert_eq!(e.fee, 0);
            assert_eq!(e.post_id, id);
        }
        _ => panic!("expected a tip event"),
    }
}

#[test]
fn tip_fee_rounds_towards_zero() {
    let mut c = new_contract();
    c.initialize(account("GADMIN"), account("GTREASURY"), 250).unwrap();
    let author = account("GAUTHOR");
    let token = account("CTOKEN");
    let id = c.create_post(author.duplicate(), b"x".to_vec(), 0).unwrap();
    // 39 * 250 / 10000 = 0.975, rounded to 0: no fee transfer at all
    c.tip(account("GTIPPER"), id, token.duplicate(), 39).unwrap();
    assert_eq!(balance(&c, &token, &account("GTREASURY")), 0);
    assert_eq!(balance(&c, &token, &author), 39);
    // 41 * 250 / 10000 = 1.025, rounded to 1
    c.tip(account("GTIPPER"), id, token.duplicate(), 41).unwrap();
    assert_eq!(balance(&c, &token, &account("GTREASURY")), 1);
    assert_eq!(balance(&c, &token, &author), 79);
    assert_eq!(c.get_post(id).unwrap().tip_total, 80);
}

#[test]
fn tip_full_fee_rate_goes_to_treasury() {
    let mut c = new_contract();
    c.initialize(account("GADMIN"), account("GTREASURY"), 10000).unwrap();
    let token = account("CTOKEN");
    let id = c.create_post(account("GAUTHOR"), b"x".to_vec(), 0).unwrap();
    c.tip(account("GTIPPER"), id, token.duplicate(), 1234).unwrap();
    assert_eq!(balance(&c, &token, &account("GTREASURY")), 1234);
    assert_eq!(balance(&c, &token, &account("GAUTHOR")), 0);
}

#[test]
fn tip_unknown_post_is_refused() {
    let mut c = new_contract();
    assert_eq!(c.tip(account("GTIPPER"), 1, account("CTOKEN"), 10), Err(LinkoraError::PostNotFound));
    assert_eq!(c.effects.len(), 0);
}

#[test]
fn tip_fee_product_overflow_is_refused() {
    let mut c = new_contract();
    c.initialize(account("GADMIN"), account("GTREASURY"), 2).unwrap();
    let id = c.create_post(account("GAUTHOR"), b"x".to_vec(), 0).unwrap();
    let before = c.effects.len();
    assert_eq!(c.tip(account("GTIPPER"), id, account("CTOKEN"), i128::MAX), Err(LinkoraError::Overflow));
    assert_eq!(c.effects.len(), before);
    assert_eq!(c.get_post(id).unwrap().tip_total, 0);
}

#[test]
fn tip_total_overflow_is_refused() {
    let mut c = new_contract();
    let id = c.create_post(account("GAUTHOR"), b"x".to_vec(), 0).unwrap();
    c.tip(account("GTIPPER"), id, account("CTOKEN"), i128::MAX).unwrap();
    assert_eq!(c.tip(account("GTIPPER"), id, account("CTOKEN"), 1), Err(LinkoraError::Overflow));
    assert_eq!(c.get_post(id).unwrap().tip_total, i128::MAX);
}

#[test]
fn negative_tip_has_truncated_negative_fee_and_no_fee_transfer() {
    let mut c = new_contract();
    c.initialize(account("GADMIN"), account("GTREASURY"), 250).unwrap();
    let token = account("CTOKEN");
    let id = c.create_post(account("GAUTHOR"), b"x".to_vec(), 0).unwrap();
    c.tip(account("GTIPPER"), id, token.duplicate(), -1000).unwrap();
    // fee = -25 (rounded towards zero); only the author transfer of -975 is asked
    assert_eq!(balance(&c, &token, &account("GTREASURY")), 0);
    assert_eq!(balance(&c, &token, &account("GAUTHOR")), -975);
    assert_eq!(c.get_post(id).unwrap().tip_total, -1000);
}
