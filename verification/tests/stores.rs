//! Token issuance/redemption and the account registry.

use cardquest::QuestError;
use cardquest::TokenStore;
use cardquest::UserStore;

fn hash_of(c: char) -> String {
    c.to_string().repeat(64)
}

#[test]
fn issue_then_redeem_then_redeem_again() {
    let mut tokens = TokenStore::new();
    let users = UserStore::new();
    let h = hash_of('a');

    let tok = tokens.issue(&users, &h).expect("fresh hash must be issued a token");
    assert_eq!(tok.hash, h);
    assert_eq!(tokens.len(), 1);

    let redeemed = tokens.redeem(&"aaaaaaaa".to_string()).expect("prefix must redeem");
    assert_eq!(redeemed.hash, h);
    assert_eq!(redeemed.id, tok.id);
    assert_eq!(tokens.len(), 0);

    let again = tokens.redeem(&"aaaaaaaa".to_string());
    assert_eq!(again, Err(QuestError::NotFound));
}

#[test]
fn issue_rejects_hash_of_existing_user() {
    let mut tokens = TokenStore::new();
    let mut users = UserStore::new();
    let h = hash_of('b');
    users.create(7, &h, &"bob".to_string()).expect("empty registry accepts bob");

    let r = tokens.issue(&users, &h);
    assert_eq!(r, Err(QuestError::AlreadyExists));
    assert_eq!(tokens.len(), 0);
}

#[test]
fn issue_rejects_second_token_for_same_hash() {
    let mut tokens = TokenStore::new();
    let users = UserStore::new();
    let h = hash_of('c');
    tokens.issue(&users, &h).expect("first issuance succeeds");

    let r = tokens.issue(&users, &h);
    assert_eq!(r, Err(QuestError::AlreadyExists));
    assert_eq!(tokens.len(), 1);
}

#[test]
fn issue_rejects_prefix_collision() {
    let mut tokens = TokenStore::new();
    let users = UserStore::new();
    tokens.issue(&users, &hash_of('d')).expect("first issuance succeeds");

    // same first eight characters, different tail
    let colliding = format!("{}{}", "d".repeat(8), "e".repeat(56));
    let r = tokens.issue(&users, &colliding);
    assert_eq!(r, Err(QuestError::AlreadyExists));

    // a different prefix is fine
    tokens.issue(&users, &hash_of('f')).expect("distinct prefix must be issued");
    assert_eq!(tokens.len(), 2);
}

#[test]
fn issue_rejects_malformed_hash() {
    let mut tokens = TokenStore::new();
    let users = UserStore::new();

    let short = "a".repeat(63);
    assert_eq!(tokens.issue(&users, &short), Err(QuestError::InvalidInput));

    let long = "a".repeat(65);
    assert_eq!(tokens.issue(&users, &long), Err(QuestError::InvalidInput));

    let not_hex = "z".repeat(64);
    assert_eq!(tokens.issue(&users, &not_hex), Err(QuestError::InvalidInput));

    assert_eq!(tokens.len(), 0);
}

#[test]
fn redeem_rejects_malformed_prefix() {
    let mut tokens = TokenStore::new();
    let users = UserStore::new();
    tokens.issue(&users, &hash_of('a')).expect("issuance succeeds");

    assert_eq!(tokens.redeem(&"aaaa".to_string()), Err(QuestError::InvalidInput));
    assert_eq!(tokens.redeem(&"aaaaaaaaa".to_string()), Err(QuestError::InvalidInput));
    assert_eq!(tokens.len(), 1);
}

#[test]
fn redeem_unknown_prefix_fails() {
    let mut tokens = TokenStore::new();
    assert_eq!(tokens.redeem(&"12345678".to_string()), Err(QuestError::NotFound));
}

#[test]
fn create_then_get() {
    let mut users = UserStore::new();
    let h = hash_of('1');
    users.create(42, &h, &"alice".to_string()).expect("create succeeds");

    let u = users.get(42).expect("account exists");
    assert_eq!(u.id, 42);
    assert_eq!(u.card_hash, h);
    assert_eq!(u.username, "alice");

    assert_eq!(users.get(43), Err(QuestError::NotFound));
}

#[test]
fn create_rejects_duplicates() {
    let mut users = UserStore::new();
    users.create(1, &hash_of('1'), &"alice".to_string()).expect("create succeeds");

    // duplicate username
    let r = users.create(2, &hash_of('2'), &"alice".to_string());
    assert_eq!(r, Err(QuestError::AlreadyExists));
    // duplicate card hash
    let r = users.create(3, &hash_of('1'), &"carol".to_string());
    assert_eq!(r, Err(QuestError::AlreadyExists));
    // duplicate id
    let r = users.create(1, &hash_of('3'), &"dave".to_string());
    assert_eq!(r, Err(QuestError::AlreadyExists));

    assert_eq!(users.len(), 1);
}

#[test]
fn existence_checks() {
    let mut users = UserStore::new();
    users.create(5, &hash_of('5'), &"eve".to_string()).expect("create succeeds");

    assert!(users.exists_by_username(&"eve".to_string()));
    assert!(!users.exists_by_username(&"mallory".to_string()));
    assert!(users.exists_by_hash(&hash_of('5')));
    assert!(!users.exists_by_hash(&hash_of('6')));
}
