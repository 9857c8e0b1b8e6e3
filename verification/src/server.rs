//! Response shaping for the HTTP surface.
//!
//! Every HTTP answer is one envelope: `Success` carrying the payload
//! together with `success: true`, or `Failure` carrying an error and
//! `success: false`. The handlers here compute the envelope for each
//! route from the stores; the transport around them only parses the
//! request path and serialises the envelope.

use vstd::prelude::*;
use vstd::string::StrSliceExecFns;

use crate::errors::QuestError;
use crate::models::{lemma_valid_hash_is_ascii, valid_hash, UserRegStage, TOKEN_LEN};
use crate::questions::{
    bank_has_category, category_questions, has_instance, strings_view, QuestionChallenge,
    QuizHandler,
};
use crate::token_store::{prefix_taken, TokenStore};
use crate::user_store::{users_contain_hash, users_contain_id, UserStore};

verus! {

/// The response envelope: a payload with `success: true`, or an
/// error with `success: false`.
#[derive(Debug, Clone, PartialEq, Eq)]
pub enum Maybe<T> {
    Success { success: bool, value: T },
    Failure { success: bool, error: QuestError },
}

impl<T> Maybe<T> {
    /// Wrap a payload, marking the envelope successful.
    pub fn success(value: T) -> (r: Self)
        ensures
            r matches Maybe::Success { success: s, value: v } && s == true && v == value,
    {
        Maybe::Success { success: true, value }
    }

    /// Wrap an error, marking the envelope failed.
    pub fn failure(error: QuestError) -> (r: Self)
        ensures
            r matches Maybe::Failure { success: s, error: e } && s == false && e == error,
    {
        Maybe::Failure { success: false, error }
    }
}

/// The account payload of `GET /user/{id}`.
#[derive(Debug, Clone, PartialEq, Eq)]
pub struct UserData {
    pub username: String,
    pub card_hash: String,
    pub uuid: u128,
}

/// The request body shape announcing a card hash for registration.
#[derive(Debug, Clone, PartialEq, Eq)]
pub struct BeginRegistration {
    pub card_sha256: String,
}

/// The payload of a successful registration start: the short token
/// to present to the bot, and where the bot lives.
#[derive(Debug, Clone, PartialEq, Eq)]
pub struct RegistrationResponse {
    pub token: String,
    pub bot_url: String,
}

/// The payload of a scored answer: the verdict, and the correct
/// index for display.
#[derive(Debug, Clone, PartialEq, Eq)]
pub struct AnswerOutcome {
    pub correct: bool,
    pub correct_answer: u8,
}

/// Where the registration bot lives.
pub open spec fn spec_bot_url() -> Seq<char> {
    "https://t.me/cardquest_bot"@
}

/// Look an account up for `GET /user/{id}`.
pub fn get_user(users: &UserStore, id: u128) -> (r: Maybe<UserData>)
    ensures
        users_contain_id(users@, id) ==> (r matches Maybe::Success { success: s, value } && s
            && value.uuid == id && exists|i: int|
            0 <= i < users@.len() && (#[trigger] users@[i].id) == id && value.username@ == users@[
                i
            ].username@ && value.card_hash@ == users@[i].card_hash@),
        !users_contain_id(users@, id) ==> r == (Maybe::Failure::<UserData> {
            success: false,
            error: QuestError::NotFound,
        }),
{
    match users.get(id) {
        Ok(u) => Maybe::success(
            UserData { username: u.username, card_hash: u.card_hash, uuid: u.id },
        ),
        Err(_) => Maybe::failure(QuestError::NotFound),
    }
}

/// Start a registration for `POST /user/register/{sha256}`.
///
/// A malformed hash is rejected with `InvalidInput` before the
/// stores are touched; a hash already owned by an account, or whose
/// token prefix collides with an outstanding token, is rejected with
/// `AlreadyExists`. Otherwise a token is issued and the answer
/// carries its first eight characters together with the bot's
/// address.
pub fn begin_registration(tokens: &mut TokenStore, users: &UserStore, sha: &String) -> (r: Maybe<
    RegistrationResponse,
>)
    requires
        old(tokens).wf(),
    ensures
        final(tokens).wf(),
        !valid_hash(sha@) ==> r == (Maybe::Failure::<RegistrationResponse> {
            success: false,
            error: QuestError::InvalidInput,
        }) && final(tokens)@ == old(tokens)@,
        valid_hash(sha@) && users_contain_hash(users@, sha@) ==> r == (Maybe::Failure::<
            RegistrationResponse,
        > { success: false, error: QuestError::AlreadyExists }) && final(tokens)@ == old(tokens)@,
        valid_hash(sha@) && !users_contain_hash(users@, sha@) && prefix_taken(old(tokens)@, sha@)
            ==> r == (Maybe::Failure::<RegistrationResponse> {
            success: false,
            error: QuestError::AlreadyExists,
        }) && final(tokens)@ == old(tokens)@,
        valid_hash(sha@) && !users_contain_hash(users@, sha@) && !prefix_taken(old(tokens)@, sha@)
            ==> (r matches Maybe::Success { success: s, value } && s && value.token@
            == sha@.take(TOKEN_LEN as int) && value.bot_url@ == spec_bot_url() && exists|
            t: UserRegStage,
        |
            (#[trigger] t.hash@) == sha@ && final(tokens)@ == old(tokens)@.push(t)),
{
    match tokens.issue(users, sha) {
        Ok(_) => {
            proof {
                lemma_valid_hash_is_ascii(sha@);
            }
            let token = sha.as_str().substring_ascii(0, TOKEN_LEN).to_owned();
            Maybe::success(
                RegistrationResponse { token, bot_url: "https://t.me/cardquest_bot".to_owned() },
            )
        },
        Err(e) => Maybe::failure(e),
    }
}

/// Issue a question challenge for `GET /user/{user}/question/{category}`.
///
/// The envelope carries the stripped [`QuestionChallenge`]: the
/// correct-answer index never crosses the system boundary.
pub fn get_question(quiz: &mut QuizHandler, user: u128, category: &String) -> (r: Maybe<
    QuestionChallenge,
>)
    requires
        old(quiz).wf(),
    ensures
        final(quiz).wf(),
        final(quiz).spec_categories() == old(quiz).spec_categories(),
        !bank_has_category(old(quiz).spec_categories(), category@) ==> r == (Maybe::Failure::<
            QuestionChallenge,
        > { success: false, error: QuestError::NotFound }) && final(quiz).spec_instances() == old(
            quiz,
        ).spec_instances(),
        bank_has_category(old(quiz).spec_categories(), category@) && category_questions(
            old(quiz).spec_categories(),
            category@,
        ).len() == 0 ==> r == (Maybe::Failure::<QuestionChallenge> {
            success: false,
            error: QuestError::EmptyCategory,
        }) && final(quiz).spec_instances() == old(quiz).spec_instances(),
        bank_has_category(old(quiz).spec_categories(), category@) && category_questions(
            old(quiz).spec_categories(),
            category@,
        ).len() > 0 ==> (r matches Maybe::Success { success: s, value } && s && value.bound_to
            == user && has_instance(final(quiz).spec_instances(), value.id) && exists|k: int|
            0 <= k < category_questions(old(quiz).spec_categories(), category@).len()
                && value.question@ == (#[trigger] category_questions(
                old(quiz).spec_categories(),
                category@,
            )[k]).question && strings_view(value.variants@) == category_questions(
                old(quiz).spec_categories(),
                category@,
            )[k].variants),
{
    match quiz.get_from_category(user, category) {
        Ok(inst) => Maybe::success(inst.challenge()),
        Err(e) => Maybe::failure(e),
    }
}

/// Score and consume an instance for `POST /quiz/answer/{question}/{answer}`.
pub fn answer_question(quiz: &mut QuizHandler, question: u128, answer: u8) -> (r: Maybe<
    AnswerOutcome,
>)
    requires
        old(quiz).wf(),
    ensures
        final(quiz).wf(),
        final(quiz).spec_categories() == old(quiz).spec_categories(),
        !has_instance(old(quiz).spec_instances(), question) ==> r == (Maybe::Failure::<
            AnswerOutcome,
        > { success: false, error: QuestError::NotFound }) && final(quiz).spec_instances() == old(
            quiz,
        ).spec_instances(),
        has_instance(old(quiz).spec_instances(), question) ==> (r matches Maybe::Success {
            success: s,
            value,
        } && s && exists|i: int|
            0 <= i < old(quiz).spec_instances().len() && (#[trigger] old(quiz).spec_instances()[
                i
            ].id) == question && value.correct == (old(quiz).spec_instances()[
                i
            ].question.correct_answer == answer) && value.correct_answer == old(
                quiz,
            ).spec_instances()[i].question.correct_answer && final(quiz).spec_instances() == old(
                quiz,
            ).spec_instances().remove(i)),
        has_instance(old(quiz).spec_instances(), question) ==> !has_instance(
            final(quiz).spec_instances(),
            question,
        ),
{
    match quiz.answer(question, answer) {
        Ok(v) => Maybe::success(AnswerOutcome { correct: v.0, correct_answer: v.1 }),
        Err(e) => Maybe::failure(e),
    }
}

} // verus!
