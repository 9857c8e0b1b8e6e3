//! The HTTP-facing handlers and the response envelope.

use cardquest::server::answer_question;
use cardquest::server::begin_registration;
use cardquest::server::get_question;
use cardquest::server::get_user;
use cardquest::Category;
use cardquest::Maybe;
use cardquest::QuestError;
use cardquest::QuizHandler;
use cardquest::ServerConfig;
use cardquest::SingleAnswerQuestion;
use cardquest::TokenStore;
use cardquest::UserStore;

fn hash_of(c: char) -> String {
    c.to_string().repeat(64)
}

fn math_quiz() -> QuizHandler {
    QuizHandler::new(vec![Category {
        name: "math".to_string(),
        questions: vec![SingleAnswerQuestion {
            question: "2+2?".to_string(),
            variants: vec!["3".to_string(), "4".to_string()],
            correct_answer: 1,
        }],
    }])
    .unwrap()
}

#[test]
fn begin_registration_issues_a_token() {
    let mut tokens = TokenStore::new();
    let users = UserStore::new();
    let r = begin_registration(&mut tokens, &users, &hash_of('a'));
    match r {
        Maybe::Success { success, value } => {
            assert!(success);
            assert_eq!(value.token, "aaaaaaaa");
            assert_eq!(value.bot_url, "https://t.me/cardquest_bot");
        },
        Maybe::Failure { .. } => panic!("fresh hash must be accepted"),
    }
    assert_eq!(tokens.len(), 1);
}

#[test]
fn begin_registration_rejects_malformed_hash() {
    let mut tokens = TokenStore::new();
    let users = UserStore::new();
    let r = begin_registration(&mut tokens, &users, &"a".repeat(63));
    assert_eq!(r, Maybe::Failure { success: false, error: QuestError::InvalidInput });
    assert_eq!(tokens.len(), 0);
}

#[test]
fn begin_registration_rejects_registered_hash() {
    let mut tokens = TokenStore::new();
    let mut users = UserStore::new();
    users.create(1, &hash_of('b'), &"bob".to_string()).unwrap();
    let r = begin_registration(&mut tokens, &users, &hash_of('b'));
    assert_eq!(r, Maybe::Failure { success: false, error: QuestError::AlreadyExists });
}

#[test]
fn get_user_finds_the_account() {
    let mut users = UserStore::new();
    users.create(9, &hash_of('9'), &"nina".to_string()).unwrap();

    match get_user(&users, 9) {
        Maybe::Success { success, value } => {
            assert!(success);
            assert_eq!(value.uuid, 9);
            assert_eq!(value.username, "nina");
            assert_eq!(value.card_hash, hash_of('9'));
        },
        Maybe::Failure { .. } => panic!("account 9 exists"),
    }

    let missing = get_user(&users, 10);
    assert_eq!(missing, Maybe::Failure { success: false, error: QuestError::NotFound });
}

#[test]
fn question_round_trip_over_the_envelope() {
    let mut quiz = math_quiz();
    let challenge = match get_question(&mut quiz, 5, &"math".to_string()) {
        Maybe::Success { value, .. } => value,
        Maybe::Failure { .. } => panic!("math category exists and is not empty"),
    };
    assert_eq!(challenge.bound_to, 5);
    assert_eq!(challenge.question, "2+2?");
    assert_eq!(challenge.variants, vec!["3".to_string(), "4".to_string()]);

    match answer_question(&mut quiz, challenge.id, 1) {
        Maybe::Success { value, .. } => {
            assert!(value.correct);
            assert_eq!(value.correct_answer, 1);
        },
        Maybe::Failure { .. } => panic!("the instance was outstanding"),
    }

    let again = answer_question(&mut quiz, challenge.id, 1);
    assert_eq!(again, Maybe::Failure { success: false, error: QuestError::NotFound });
}

#[test]
fn get_question_reports_missing_and_empty_categories() {
    let mut quiz = QuizHandler::new(vec![Category {
        name: "void".to_string(),
        questions: vec![],
    }])
    .unwrap();

    let missing = get_question(&mut quiz, 1, &"nowhere".to_string());
    assert_eq!(missing, Maybe::Failure { success: false, error: QuestError::NotFound });

    let empty = get_question(&mut quiz, 1, &"void".to_string());
    assert_eq!(empty, Maybe::Failure { success: false, error: QuestError::EmptyCategory });
}

#[test]
fn default_config_is_the_documented_template() {
    let cfg = ServerConfig::default();
    assert_eq!(cfg.api.host, "127.0.0.1");
    assert_eq!(cfg.api.port, 4040);
    assert!(cfg.api.record_dev_data);
    assert_eq!(cfg.telegram.api_key, "<ENTER KEY HERE>");
    assert_eq!(cfg.postgres.table, "cardquest");
    assert_eq!(cfg.postgres.host, "localhost");
    assert_eq!(cfg.postgres.username, "<USERNAME>");
    assert_eq!(cfg.postgres.password, "<PASSWORD>");
}

#[test]
fn hash_validation_is_exact() {
    assert!(cardquest::models::check_valid_hash("0123456789abcdefABCDEF0123456789abcdefABCDEF0123456789abcdefABCD"));
    assert!(!cardquest::models::check_valid_hash(""));
    assert!(!cardquest::models::check_valid_hash(&"g".repeat(64)));
    assert!(!cardquest::models::check_valid_hash(&"a".repeat(63)));
}
