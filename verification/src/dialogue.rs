//! Per-conversation registration dialogue.
//!
//! A conversation starts in [`DialogueState::Start`]. Redeeming a
//! token moves it to [`DialogueState::GetUsername`], which carries
//! the reserved account id and card hash of the redeemed token;
//! submitting an acceptable username commits the account and resets
//! the conversation. Cancellation resets the conversation without
//! restoring an already-redeemed token: cancelling after redemption
//! forfeits the token.
//!
//! The manager holds no state of its own: the external dispatcher
//! keys one [`DialogueState`] per conversation identifier and
//! serialises the events within one conversation, while all
//! conversations share the same [`TokenStore`] and [`UserStore`].

use vstd::prelude::*;

use crate::models::{token_matches, UserRegStage, TOKEN_LEN};
use crate::token_store::{has_match, TokenStore};
use crate::user_store::{
    create_conflict, users_contain_username, UserStore,
};

verus! {

/// The negotiation state of one conversation.
#[derive(Debug, Clone, PartialEq, Eq)]
pub enum DialogueState {
    /// Initial state: no token redeemed yet.
    Start,
    /// A token was redeemed; the dialogue awaits the username that
    /// will complete the account reserved by the token.
    GetUsername { id: u128, card_hash: String },
}

impl Default for DialogueState {
    /// A conversation begins in `Start`.
    fn default() -> (r: Self)
        ensures
            r is Start,
    {
        DialogueState::Start
    }
}

/// The chat commands of the registration bot.
#[derive(Debug, Clone, PartialEq, Eq)]
pub enum Command {
    /// Show the command list.
    Help,
    /// Show what the bot is for.
    Start,
    /// Begin registration with the given token.
    Register(String),
    /// Abandon the registration in progress.
    Cancel,
}

/// One conversational input: a command, or a plain message carrying
/// a candidate username.
#[derive(Debug, Clone, PartialEq, Eq)]
pub enum ChatEvent {
    Cmd(Command),
    Text(String),
}

/// What the dialogue answers to the conversation after one event.
#[derive(Clone, Copy, Debug, PartialEq, Eq, Structural)]
pub enum DialogueReply {
    /// The command list.
    Help,
    /// What the bot is for and how to register.
    Info,
    /// The registration was abandoned.
    Cancelled,
    /// The presented token is malformed or matches no outstanding
    /// token.
    InvalidToken,
    /// The token was redeemed; choose a username.
    PromptUsername,
    /// The chosen username is taken; choose another.
    UsernameTaken,
    /// The account was committed.
    Registered,
    /// The account could not be committed although the username was
    /// free; the token is already consumed and an operator must
    /// intervene.
    RegistrationFailed,
    /// The event has no meaning in the current state.
    Ignored,
}

/// How one token-redemption request relates the token store before
/// (`pre`) and after (`post`), the resulting conversation state, and
/// the reply.
pub open spec fn register_transition(
    pre: Seq<UserRegStage>,
    post: Seq<UserRegStage>,
    token: Seq<char>,
    state: DialogueState,
    reply: DialogueReply,
) -> bool {
    &&& (token.len() != TOKEN_LEN || !has_match(pre, token)) ==> state is Start && reply
        == DialogueReply::InvalidToken && post == pre
    &&& token.len() == TOKEN_LEN && has_match(pre, token) ==> reply
        == DialogueReply::PromptUsername && (state matches DialogueState::GetUsername {
        id,
        card_hash,
    } && exists|i: int|
        0 <= i < pre.len() && (#[trigger] pre[i]).id == id && pre[i].hash@ == card_hash@
            && token_matches(card_hash@, token) && post == pre.remove(i))
}

/// Whether `state` still awaits a username for the same reserved
/// account.
pub open spec fn stays_awaiting(state: DialogueState, id: u128, card_hash: Seq<char>) -> bool {
    state matches DialogueState::GetUsername { id: rid, card_hash: rhash } && rid == id && rhash@
        == card_hash
}

/// How one username submission relates the account registry before
/// (`pre`) and after (`post`), the resulting conversation state, and
/// the reply.
pub open spec fn username_transition(
    pre: Seq<crate::models::User>,
    post: Seq<crate::models::User>,
    id: u128,
    card_hash: Seq<char>,
    username: Seq<char>,
    state: DialogueState,
    reply: DialogueReply,
) -> bool {
    &&& users_contain_username(pre, username) ==> reply == DialogueReply::UsernameTaken
        && stays_awaiting(state, id, card_hash) && post == pre
    &&& !users_contain_username(pre, username) && create_conflict(pre, id, card_hash, username)
        ==> reply == DialogueReply::RegistrationFailed && stays_awaiting(state, id, card_hash)
        && post == pre
    &&& !create_conflict(pre, id, card_hash, username) ==> state is Start && reply
        == DialogueReply::Registered && exists|u: crate::models::User|
        (#[trigger] u.id) == id && u.card_hash@ == card_hash && u.username@ == username && post
            == pre.push(u)
}

/// Handle a `/register <token>` request from the `Start` state.
///
/// A malformed or unmatched token leaves the conversation in `Start`
/// with `InvalidToken` and the store untouched. A matching token is
/// redeemed — removed from the store in the same step — and the
/// conversation moves to `GetUsername`, carrying the token's
/// reserved account id and card hash.
pub fn register(tokens: &mut TokenStore, token: &String) -> (r: (DialogueState, DialogueReply))
    requires
        old(tokens).wf(),
    ensures
        final(tokens).wf(),
        register_transition(old(tokens)@, final(tokens)@, token@, r.0, r.1),
{
    match tokens.redeem(token) {
        Ok(t) => (
            DialogueState::GetUsername { id: t.id, card_hash: t.hash },
            DialogueReply::PromptUsername,
        ),
        Err(_) => (DialogueState::Start, DialogueReply::InvalidToken),
    }
}

/// Handle the username submitted while the dialogue awaits one.
///
/// If an account already carries this username, the conversation
/// stays in `GetUsername` with `UsernameTaken` and no account is
/// created. If the name is free but the commit conflicts on the
/// reserved id or card hash, the conversation stays in
/// `GetUsername` with `RegistrationFailed` — the token is already
/// consumed. Otherwise exactly one account is committed and the
/// conversation resets to `Start`.
pub fn receive_username(
    users: &mut UserStore,
    id: u128,
    card_hash: &String,
    username: &String,
) -> (r: (DialogueState, DialogueReply))
    requires
        old(users).wf(),
    ensures
        final(users).wf(),
        username_transition(old(users)@, final(users)@, id, card_hash@, username@, r.0, r.1),
{
    if users.exists_by_username(username) {
        return (
            DialogueState::GetUsername { id, card_hash: card_hash.clone() },
            DialogueReply::UsernameTaken,
        );
    }
    match users.create(id, card_hash, username) {
        Ok(_) => (DialogueState::Start, DialogueReply::Registered),
        Err(_) => (
            DialogueState::GetUsername { id, card_hash: card_hash.clone() },
            DialogueReply::RegistrationFailed,
        ),
    }
}

/// Route one conversational event, as the chat dispatcher does.
///
/// `/help` answers in any state and changes nothing; `/cancel`
/// resets the conversation in any state, restoring nothing. In
/// `Start`, `/start` explains the bot, `/register` redeems a token,
/// and plain text has no meaning. In `GetUsername`, plain text is
/// the candidate username, and `/start` or `/register` have no
/// meaning.
pub fn dispatch(
    state: DialogueState,
    event: ChatEvent,
    tokens: &mut TokenStore,
    users: &mut UserStore,
) -> (r: (DialogueState, DialogueReply))
    requires
        old(tokens).wf(),
        old(users).wf(),
    ensures
        final(tokens).wf(),
        final(users).wf(),
        event == ChatEvent::Cmd(Command::Help) ==> r.0 == state && r.1 == DialogueReply::Help
            && final(tokens)@ == old(tokens)@ && final(users)@ == old(users)@,
        event == ChatEvent::Cmd(Command::Cancel) ==> r.0 is Start && r.1
            == DialogueReply::Cancelled && final(tokens)@ == old(tokens)@ && final(users)@ == old(users)@,
        event == ChatEvent::Cmd(Command::Start) && state is Start ==> r.0 is Start && r.1
            == DialogueReply::Info && final(tokens)@ == old(tokens)@ && final(users)@ == old(users)@,
        event == ChatEvent::Cmd(Command::Start) && !(state is Start) ==> r.0 == state && r.1
            == DialogueReply::Ignored && final(tokens)@ == old(tokens)@ && final(users)@ == old(users)@,
        event matches ChatEvent::Cmd(Command::Register(tok)) ==> (state is Start ==> final(users)@ == old(users)@ && register_transition(old(tokens)@, final(tokens)@, tok@, r.0, r.1)),
        event matches ChatEvent::Cmd(Command::Register(tok)) ==> (!(state is Start) ==> r.0
            == state && r.1 == DialogueReply::Ignored && final(tokens)@ == old(tokens)@ && final(users)@ == old(users)@),
        event matches ChatEvent::Text(name) ==> (state matches DialogueState::GetUsername {
            id,
            card_hash,
        } ==> final(tokens)@ == old(tokens)@ && username_transition(
            old(users)@,
            final(users)@,
            id,
            card_hash@,
            name@,
            r.0,
            r.1,
        )),
        event matches ChatEvent::Text(name) ==> (state is Start ==> r.0 is Start && r.1
            == DialogueReply::Ignored && final(tokens)@ == old(tokens)@ && final(users)@ == old(users)@),
{
    match event {
        ChatEvent::Cmd(Command::Help) => (state, DialogueReply::Help),
        ChatEvent::Cmd(Command::Cancel) => (DialogueState::Start, DialogueReply::Cancelled),
        ChatEvent::Cmd(Command::Start) => {
            match state {
                DialogueState::Start => (DialogueState::Start, DialogueReply::Info),
                s => (s, DialogueReply::Ignored),
            }
        },
        ChatEvent::Cmd(Command::Register(tok)) => {
            match state {
                DialogueState::Start => register(tokens, &tok),
                s => (s, DialogueReply::Ignored),
            }
        },
        ChatEvent::Text(name) => {
            match state {
                DialogueState::GetUsername { id, card_hash } => receive_username(
                    users,
                    id,
                    &card_hash,
                    &name,
                ),
                s => (s, DialogueReply::Ignored),
            }
        },
    }
}

} // verus!
