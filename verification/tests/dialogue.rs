//! The per-conversation registration state machine.

use cardquest::dialogue::dispatch;
use cardquest::dialogue::receive_username;
use cardquest::dialogue::register;
use cardquest::ChatEvent;
use cardquest::Command;
use cardquest::DialogueReply;
use cardquest::DialogueState;
use cardquest::QuestError;
use cardquest::TokenStore;
use cardquest::UserStore;

fn hash_of(c: char) -> String {
    c.to_string().repeat(64)
}

fn prefix_of(c: char) -> String {
    c.to_string().repeat(8)
}

#[test]
fn default_state_is_start() {
    assert_eq!(DialogueState::default(), DialogueState::Start);
}

#[test]
fn full_registration_flow() {
    let mut tokens = TokenStore::new();
    let mut users = UserStore::new();
    let issued = tokens.issue(&users, &hash_of('a')).unwrap();

    let (state, reply) = dispatch(
        DialogueState::Start,
        ChatEvent::Cmd(Command::Register(prefix_of('a'))),
        &mut tokens,
        &mut users,
    );
    assert_eq!(reply, DialogueReply::PromptUsername);
    assert_eq!(state, DialogueState::GetUsername { id: issued.id, card_hash: hash_of('a') });

    let (state, reply) = dispatch(
        state,
        ChatEvent::Text("bob".to_string()),
        &mut tokens,
        &mut users,
    );
    assert_eq!(reply, DialogueReply::Registered);
    assert_eq!(state, DialogueState::Start);

    let u = users.get(issued.id).unwrap();
    assert_eq!(u.username, "bob");
    assert_eq!(u.card_hash, hash_of('a'));
}

#[test]
fn register_with_invalid_token_stays_in_start() {
    let mut tokens = TokenStore::new();

    // wrong length
    let (state, reply) = register(&mut tokens, &"abc".to_string());
    assert_eq!((&state, reply), (&DialogueState::Start, DialogueReply::InvalidToken));

    // right length, no such token
    let (state, reply) = register(&mut tokens, &prefix_of('9'));
    assert_eq!((&state, reply), (&DialogueState::Start, DialogueReply::InvalidToken));
}

#[test]
fn taken_username_keeps_awaiting_and_creates_no_account() {
    let mut tokens = TokenStore::new();
    let mut users = UserStore::new();
    users.create(1, &hash_of('b'), &"bob".to_string()).unwrap();

    let issued = tokens.issue(&users, &hash_of('c')).unwrap();
    let (state, reply) = register(&mut tokens, &prefix_of('c'));
    assert_eq!(reply, DialogueReply::PromptUsername);

    let (state, reply) = dispatch(
        state,
        ChatEvent::Text("bob".to_string()),
        &mut tokens,
        &mut users,
    );
    assert_eq!(reply, DialogueReply::UsernameTaken);
    assert_eq!(state, DialogueState::GetUsername { id: issued.id, card_hash: hash_of('c') });
    // no second account appeared
    assert_eq!(users.len(), 1);

    // the dialogue can still finish with a free name
    let (state, reply) = dispatch(
        state,
        ChatEvent::Text("carol".to_string()),
        &mut tokens,
        &mut users,
    );
    assert_eq!(reply, DialogueReply::Registered);
    assert_eq!(state, DialogueState::Start);
    assert_eq!(users.len(), 2);
}

#[test]
fn commit_conflict_reports_failure_and_keeps_state() {
    let mut users = UserStore::new();
    // the reserved id is already taken by another account
    users.create(1, &hash_of('d'), &"dave".to_string()).unwrap();

    let (state, reply) = receive_username(&mut users, 1, &hash_of('e'), &"erin".to_string());
    assert_eq!(reply, DialogueReply::RegistrationFailed);
    assert_eq!(state, DialogueState::GetUsername { id: 1, card_hash: hash_of('e') });
    assert_eq!(users.len(), 1);
}

#[test]
fn cancel_resets_and_forfeits_the_token() {
    let mut tokens = TokenStore::new();
    let mut users = UserStore::new();
    tokens.issue(&users, &hash_of('a')).unwrap();

    let (state, reply) = register(&mut tokens, &prefix_of('a'));
    assert_eq!(reply, DialogueReply::PromptUsername);

    let (state, reply) = dispatch(state, ChatEvent::Cmd(Command::Cancel), &mut tokens, &mut users);
    assert_eq!(reply, DialogueReply::Cancelled);
    assert_eq!(state, DialogueState::Start);

    // the redeemed token is not restored
    assert_eq!(tokens.redeem(&prefix_of('a')), Err(QuestError::NotFound));
}

#[test]
fn help_answers_in_any_state_without_side_effects() {
    let mut tokens = TokenStore::new();
    let mut users = UserStore::new();

    let (state, reply) = dispatch(
        DialogueState::Start,
        ChatEvent::Cmd(Command::Help),
        &mut tokens,
        &mut users,
    );
    assert_eq!((state, reply), (DialogueState::Start, DialogueReply::Help));

    let awaiting = DialogueState::GetUsername { id: 3, card_hash: hash_of('3') };
    let (state, reply) = dispatch(
        awaiting.clone(),
        ChatEvent::Cmd(Command::Help),
        &mut tokens,
        &mut users,
    );
    assert_eq!((state, reply), (awaiting, DialogueReply::Help));
}

#[test]
fn start_command_explains_only_in_start() {
    let mut tokens = TokenStore::new();
    let mut users = UserStore::new();

    let (_, reply) = dispatch(
        DialogueState::Start,
        ChatEvent::Cmd(Command::Start),
        &mut tokens,
        &mut users,
    );
    assert_eq!(reply, DialogueReply::Info);

    let awaiting = DialogueState::GetUsername { id: 3, card_hash: hash_of('3') };
    let (state, reply) = dispatch(
        awaiting.clone(),
        ChatEvent::Cmd(Command::Start),
        &mut tokens,
        &mut users,
    );
    assert_eq!((state, reply), (awaiting, DialogueReply::Ignored));
}

#[test]
fn plain_text_in_start_is_ignored() {
    let mut tokens = TokenStore::new();
    let mut users = UserStore::new();
    let (state, reply) = dispatch(
        DialogueState::Start,
        ChatEvent::Text("hello".to_string()),
        &mut tokens,
        &mut users,
    );
    assert_eq!((state, reply), (DialogueState::Start, DialogueReply::Ignored));
    assert_eq!(users.len(), 0);
}
