//! The session store: which secret is bound to which token.
//!
//! A session begins when a challenge is issued for a token and ends with the
//! first nonce that proves work for its secret. A nonce that does not, and a
//! token that has no session, change nothing.

use crate::crypto::{proves_work, Difficulty, Secret, POW};
use crate::encode::Wire;
use crate::random::random_uuid;
use std::collections::HashMap;
use vstd::prelude::*;

verus! {

/// Whether a store that holds `sessions` accepts `nonce` for `token` at
/// `difficulty`: the token has a session, and the nonce proves work for its
/// secret.
pub open spec fn accepts(
    sessions: Map<u128, Secret>,
    token: u128,
    nonce: u64,
    difficulty: Difficulty,
) -> bool {
    sessions.contains_key(token) && proves_work(
        Secret::encoding(sessions[token]),
        nonce,
        difficulty,
    )
}

/// The sessions that a store holds once `nonce` has been submitted for
/// `token`: the token's session is gone if the nonce was accepted, and
/// nothing has changed if it was not.
pub open spec fn after_submission(
    sessions: Map<u128, Secret>,
    token: u128,
    nonce: u64,
    difficulty: Difficulty,
) -> Map<u128, Secret> {
    if accepts(sessions, token, nonce, difficulty) {
        sessions.remove(token)
    } else {
        sessions
    }
}

/// The secrets that a server has issued and that no proof has spent yet,
/// each under its token.
pub struct SessionStore {
    sessions: HashMap<u128, Secret>,
}

impl View for SessionStore {
    type V = Map<u128, Secret>;

    closed spec fn view(&self) -> Map<u128, Secret> {
        self.sessions@
    }
}

impl SessionStore {
    /// A store without sessions.
    pub fn new() -> (store: SessionStore)
        ensures
            store@ == Map::<u128, Secret>::empty(),
    {
        SessionStore { sessions: HashMap::new() }
    }

    /// The secret bound to `token`, if it has a session.
    pub fn secret_of(&self, token: u128) -> (secret: Option<Secret>)
        ensures
            secret == (if self@.contains_key(token) {
                Some(self@[token])
            } else {
                None
            }),
    {
        match self.sessions.get(&token) {
            Some(secret) => Some(*secret),
            None => None,
        }
    }

    /// Binds `secret` to `token`, in place of what was bound to it before.
    pub fn bind(&mut self, token: u128, secret: Secret)
        ensures
            final(self)@ == old(self)@.insert(token, secret),
    {
        self.sessions.insert(token, secret);
    }

    /// Begins a session for `token` with a fresh random secret, in place of
    /// the session that the token had before, and returns the secret.
    pub fn issue(&mut self, token: u128) -> (secret: Secret)
        ensures
            final(self)@ == old(self)@.insert(token, secret),
    {
        let secret = Secret { value: random_uuid() };
        self.bind(token, secret);
        secret
    }

    /// Submits `nonce` as proof of work for the secret bound to `token`.
    /// The proof is accepted if the token has a session and the nonce proves
    /// work for its secret at `difficulty`; the session is then over. In
    /// every other case the store stays as it is.
    pub fn check_and_consume(&mut self, token: u128, nonce: u64, difficulty: Difficulty) -> (accepted:
        bool)
        ensures
            accepted == accepts(old(self)@, token, nonce, difficulty),
            final(self)@ == after_submission(old(self)@, token, nonce, difficulty),
    {
        match self.secret_of(token) {
            Some(secret) => {
                let mut engine = POW::new(difficulty);
                let valid: bool = engine.verify_nonce(&secret, nonce);
                if valid {
                    self.sessions.remove(&token);
                }
                valid
            },
            None => false,
        }
    }
}

/// A secret gates one release: after the submission that is accepted, the
/// same submission is rejected.
pub proof fn lemma_single_use(
    sessions: Map<u128, Secret>,
    token: u128,
    nonce: u64,
    difficulty: Difficulty,
)
    requires
        accepts(sessions, token, nonce, difficulty),
    ensures
        !accepts(after_submission(sessions, token, nonce, difficulty), token, nonce, difficulty),
{
}

/// A token that has no session is rejected with every nonce, and the store
/// stays as it is.
pub proof fn lemma_unknown_token(
    sessions: Map<u128, Secret>,
    token: u128,
    nonce: u64,
    difficulty: Difficulty,
)
    requires
        !sessions.contains_key(token),
    ensures
        !accepts(sessions, token, nonce, difficulty),
        after_submission(sessions, token, nonce, difficulty) == sessions,
{
}

/// A nonce that does not prove work is rejected and leaves the session as it
/// is: a nonce that does is still accepted afterwards.
pub proof fn lemma_retry_after_failure(
    sessions: Map<u128, Secret>,
    token: u128,
    wrong: u64,
    right: u64,
    difficulty: Difficulty,
)
    requires
        sessions.contains_key(token),
        !proves_work(Secret::encoding(sessions[token]), wrong, difficulty),
        proves_work(Secret::encoding(sessions[token]), right, difficulty),
    ensures
        !accepts(sessions, token, wrong, difficulty),
        after_submission(sessions, token, wrong, difficulty) == sessions,
        accepts(after_submission(sessions, token, wrong, difficulty), token, right, difficulty),
{
}

/// What happens to one token leaves every other token's session as it is,
/// be it a challenge issued or a nonce submitted.
pub proof fn lemma_sessions_are_isolated(
    sessions: Map<u128, Secret>,
    token: u128,
    other: u128,
    secret: Secret,
    nonce: u64,
    difficulty: Difficulty,
)
    requires
        token != other,
    ensures
        sessions.insert(token, secret).contains_key(other) == sessions.contains_key(other),
        sessions.contains_key(other) ==> sessions.insert(token, secret)[other] == sessions[other],
        after_submission(sessions, token, nonce, difficulty).contains_key(other)
            == sessions.contains_key(other),
        sessions.contains_key(other) ==> after_submission(
            sessions,
            token,
            nonce,
            difficulty,
        )[other] == sessions[other],
{
}

} // verus!
