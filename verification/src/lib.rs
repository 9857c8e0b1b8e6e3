//! Onboarding and quiz-session engine for a quest event.
//!
//! Participants exchange a hashed card identifier for a one-time
//! registration token, redeem that token through a conversational
//! channel to create a named account, and then request short trivia
//! quizzes bound to that account.
//!
//! The crate is organised leaf-first:
//! - [`models`] holds the persistent records and the validity rules
//!   for card hashes;
//! - [`token_store`] issues and redeems one-time registration tokens;
//! - [`user_store`] is the canonical account registry with its
//!   uniqueness invariants;
//! - [`questions`] serves single-use question challenges and scores
//!   answers;
//! - [`dialogue`] is the per-conversation negotiation state machine;
//! - [`server`] shapes store results into the response envelope of
//!   the HTTP surface;
//! - [`errors`] is the failure taxonomy they all share;
//! - [`config`] carries the deployment settings.

pub mod config;
pub mod dialogue;
pub mod errors;
mod ids;
pub mod models;
pub mod questions;
mod rng;
pub mod server;
pub mod token_store;
pub mod user_store;

pub use config::ApiConfig;
pub use config::PostgresConfig;
pub use config::ServerConfig;
pub use config::TelegramConfig;
pub use dialogue::ChatEvent;
pub use dialogue::Command;
pub use dialogue::DialogueReply;
pub use dialogue::DialogueState;
pub use errors::QuestError;
pub use models::User;
pub use models::UserRegStage;
pub use questions::Category;
pub use questions::QuestionChallenge;
pub use questions::QuestionInstance;
pub use questions::QuizHandler;
pub use questions::SingleAnswerQuestion;
pub use server::AnswerOutcome;
pub use server::BeginRegistration;
pub use server::Maybe;
pub use server::RegistrationResponse;
pub use server::UserData;
pub use token_store::TokenStore;
pub use user_store::UserStore;
