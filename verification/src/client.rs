//! The client's side of an exchange: what it sends and what it makes of the
//! replies.
//!
//! An exchange has two phases, each on a connection of its own: the client
//! asks for a challenge under a token and gets a secret, then submits a
//! nonce under the same token and gets the outcome. Only the token ties the
//! two together.

use crate::bytes::lemma_be_bytes_len;
use crate::crypto::{is_search, proves_work, Secret, POW};
use crate::encode::{decoded, Serializer, Wire};
use crate::error::ErrorKind;
use crate::message::{Request, Response, ResponseView, WordOfWisdom, WordOfWisdomView};
use crate::protocol::{frame, Protocol};
use crate::random::{is_random_uuid, random_uuid};
use vstd::prelude::*;

verus! {

/// The secret that a reply to a challenge request carries. A reply that
/// carries an outcome instead is of the wrong variant, and one that encodes
/// no response is undecodable.
pub open spec fn secret_in(reply: Seq<u8>) -> Result<Secret, ErrorKind> {
    match decoded::<Response>(reply) {
        Some(ResponseView::Challenge { secret }) => Ok(secret),
        Some(ResponseView::WordOfWisdom { .. }) => Err(ErrorKind::UnexpectedVariant),
        None => Err(ErrorKind::Decode),
    }
}

/// The outcome that a reply to a submission carries. A reply that carries a
/// secret instead is of the wrong variant, and one that encodes no response
/// is undecodable.
pub open spec fn word_of_wisdom_in(reply: Seq<u8>) -> Result<WordOfWisdomView, ErrorKind> {
    match decoded::<Response>(reply) {
        Some(ResponseView::WordOfWisdom { word_of_wisdom }) => Ok(word_of_wisdom),
        Some(ResponseView::Challenge { .. }) => Err(ErrorKind::UnexpectedVariant),
        None => Err(ErrorKind::Decode),
    }
}

/// A result that holds an outcome, with the quote as a sequence of
/// characters.
pub open spec fn outcome_view(outcome: Result<WordOfWisdom, ErrorKind>) -> Result<
    WordOfWisdomView,
    ErrorKind,
> {
    match outcome {
        Ok(word_of_wisdom) => Ok(word_of_wisdom@),
        Err(error) => Err(error),
    }
}

/// The frame that carries `request`.
pub fn request_frame(request: &Request) -> (bytes: Vec<u8>)
    ensures
        bytes@ == frame(Request::encoding(*request)),
{
    let data: Vec<u8> = Serializer::serialize(request);
    proof {
        match *request {
            Request::Challenge { token } => {
                lemma_be_bytes_len(token as nat, 16);
            },
            Request::WordOfWisdom { token, result } => {
                lemma_be_bytes_len(token as nat, 16);
                lemma_be_bytes_len(result as nat, 8);
            },
        }
    }
    let mut bytes: Vec<u8> = Vec::new();
    // A request is 17 or 25 bytes long: its frame is never refused.
    let _ = Protocol::send(&mut bytes, data);
    bytes
}

/// The frame that asks for a challenge under `token`.
pub fn challenge_request(token: u128) -> (bytes: Vec<u8>)
    ensures
        bytes@ == frame(Request::encoding(Request::Challenge { token })),
{
    request_frame(&Request::Challenge { token })
}

/// The frame that submits `nonce` as proof of work under `token`.
pub fn word_of_wisdom_request(token: u128, nonce: u64) -> (bytes: Vec<u8>)
    ensures
        bytes@ == frame(Request::encoding(Request::WordOfWisdom { token, result: nonce })),
{
    request_frame(&Request::WordOfWisdom { token, result: nonce })
}

/// The secret that the payload `reply`, received for a challenge request,
/// carries.
pub fn get_secret(reply: &[u8]) -> (secret: Result<Secret, ErrorKind>)
    ensures
        secret == secret_in(reply@),
{
    match Serializer::deserialize::<Response>(reply) {
        Ok(Response::Challenge { secret }) => Ok(secret),
        Ok(Response::WordOfWisdom { .. }) => Err(ErrorKind::UnexpectedVariant),
        Err(error) => Err(error),
    }
}

/// The outcome that the payload `reply`, received for a submission,
/// carries.
pub fn get_word_of_wisdom(reply: &[u8]) -> (outcome: Result<WordOfWisdom, ErrorKind>)
    ensures
        outcome_view(outcome) == word_of_wisdom_in(reply@),
{
    match Serializer::deserialize::<Response>(reply) {
        Ok(Response::WordOfWisdom { word_of_wisdom }) => Ok(word_of_wisdom),
        Ok(Response::Challenge { .. }) => Err(ErrorKind::UnexpectedVariant),
        Err(error) => Err(error),
    }
}

/// One exchange of a client, by where it stands.
#[derive(Debug, Clone, PartialEq, Eq)]
pub enum Client {
    /// A challenge is to be asked for under `token`, and the reply to be
    /// taken in.
    Challenging { token: u128 },
    /// The server has bound `secret` to `token`: a nonce that proves work
    /// for it is to be found.
    Solving { token: u128, secret: Secret },
    /// `nonce` is to be submitted under `token`, and the reply to be taken
    /// in.
    Submitting { token: u128, nonce: u64 },
    /// The server has answered the submission with `word_of_wisdom`.
    Finished { word_of_wisdom: WordOfWisdom },
    /// The exchange has failed with `error`.
    Failed { error: ErrorKind },
}

/// An exchange of a client, with the quote as a sequence of characters.
pub enum ClientView {
    Challenging { token: u128 },
    Solving { token: u128, secret: Secret },
    Submitting { token: u128, nonce: u64 },
    Finished { word_of_wisdom: WordOfWisdomView },
    Failed { error: ErrorKind },
}

impl View for Client {
    type V = ClientView;

    open spec fn view(&self) -> ClientView {
        match self {
            Client::Challenging { token } => ClientView::Challenging { token: *token },
            Client::Solving { token, secret } => ClientView::Solving {
                token: *token,
                secret: *secret,
            },
            Client::Submitting { token, nonce } => ClientView::Submitting {
                token: *token,
                nonce: *nonce,
            },
            Client::Finished { word_of_wisdom } => ClientView::Finished {
                word_of_wisdom: word_of_wisdom@,
            },
            Client::Failed { error } => ClientView::Failed { error: *error },
        }
    }
}

/// The frame that the client has to send to the server, on a connection of
/// its own, before it takes in a reply; `None` where it has none to send.
pub open spec fn request_of(client: ClientView) -> Option<Seq<u8>> {
    match client {
        ClientView::Challenging { token } => Some(
            frame(Request::encoding(Request::Challenge { token })),
        ),
        ClientView::Submitting { token, nonce } => Some(
            frame(Request::encoding(Request::WordOfWisdom { token, result: nonce })),
        ),
        _ => None,
    }
}

/// The client after the payload `reply` has arrived for what it sent. A
/// reply of the wrong variant, or one that encodes no response, fails the
/// exchange.
pub open spec fn after_reply(client: ClientView, reply: Seq<u8>) -> ClientView {
    match client {
        ClientView::Challenging { token } => match secret_in(reply) {
            Ok(secret) => ClientView::Solving { token, secret },
            Err(error) => ClientView::Failed { error },
        },
        ClientView::Submitting { .. } => match word_of_wisdom_in(reply) {
            Ok(word_of_wisdom) => ClientView::Finished { word_of_wisdom },
            Err(error) => ClientView::Failed { error },
        },
        _ => client,
    }
}

/// The client after it has tried `candidate` as a nonce: a client that is
/// solving goes on to submit a candidate that proves work for its secret at
/// the default difficulty, and stays as it is with any other.
pub open spec fn after_candidate(client: ClientView, candidate: u64) -> ClientView {
    match client {
        ClientView::Solving { token, secret } => if proves_work(
            Secret::encoding(secret),
            candidate,
            POW::DEFAULT_DIFFICULTY,
        ) {
            ClientView::Submitting { token, nonce: candidate }
        } else {
            client
        },
        _ => client,
    }
}

/// The client after a search that came to `found`: a client that is solving
/// goes on to submit the nonce that was found, and stays as it is where none
/// was. Only a client that is solving searches.
pub open spec fn after_search(client: ClientView, found: Option<u64>) -> ClientView {
    match (client, found) {
        (ClientView::Solving { token, secret }, Some(nonce)) => ClientView::Submitting {
            token,
            nonce,
        },
        _ => client,
    }
}

/// Whether a search of up to `attempts` candidates takes a client from
/// `before` to `after`, where `candidates` are the nonces that the search
/// drew for the client's secret, at the default difficulty, and `found` is
/// what it came to. A client that is not solving draws nothing.
pub open spec fn is_client_search(
    before: ClientView,
    after: ClientView,
    attempts: u64,
    candidates: Seq<u64>,
    found: Option<u64>,
) -> bool {
    &&& after == after_search(before, found)
    &&& match before {
        ClientView::Solving { token, secret } => is_search(
            Secret::encoding(secret),
            POW::DEFAULT_DIFFICULTY,
            attempts,
            candidates,
            found,
        ),
        _ => candidates.len() == 0 && found is None,
    }
}

/// The client after a connection has failed it with `error`. An exchange
/// that has ended stays as it ended.
pub open spec fn after_fault(client: ClientView, error: ErrorKind) -> ClientView {
    match client {
        ClientView::Finished { .. } => client,
        ClientView::Failed { .. } => client,
        _ => ClientView::Failed { error },
    }
}

/// An exchange that has ended, with an outcome or a failure, stays as it
/// ended, whatever arrives.
pub proof fn lemma_ended_exchange_stays(
    client: ClientView,
    reply: Seq<u8>,
    candidate: u64,
    error: ErrorKind,
)
    requires
        client is Finished || client is Failed,
    ensures
        request_of(client) is None,
        after_reply(client, reply) == client,
        after_candidate(client, candidate) == client,
        after_fault(client, error) == client,
{
}

impl Client {
    /// An exchange under `token`, at its beginning.
    pub fn new(token: u128) -> (client: Client)
        ensures
            client@ == (ClientView::Challenging { token }),
    {
        Client::Challenging { token }
    }

    /// An exchange under a fresh random token, at its beginning: the token
    /// is the number of a random identifier of version 4.
    pub fn start() -> (client: Client)
        ensures
            client@ matches ClientView::Challenging { token } && is_random_uuid(token),
    {
        Client::Challenging { token: random_uuid() }
    }

    /// The frame to send to the server, on a connection of its own, before a
    /// reply is taken in; `None` where there is none to send.
    pub fn request(&self) -> (bytes: Option<Vec<u8>>)
        ensures
            match bytes {
                Some(bytes) => request_of(self@) == Some(bytes@),
                None => request_of(self@) is None,
            },
    {
        match self {
            Client::Challenging { token } => Some(challenge_request(*token)),
            Client::Submitting { token, nonce } => Some(word_of_wisdom_request(*token, *nonce)),
            _ => None,
        }
    }

    /// Takes in the payload `reply` that arrived for what was sent.
    pub fn on_reply(&mut self, reply: &[u8])
        ensures
            final(self)@ == after_reply(old(self)@, reply@),
    {
        match self {
            Client::Challenging { token } => {
                let token: u128 = *token;
                match get_secret(reply) {
                    Ok(secret) => {
                        *self = Client::Solving { token, secret };
                    },
                    Err(error) => {
                        *self = Client::Failed { error };
                    },
                }
            },
            Client::Submitting { .. } => {
                match get_word_of_wisdom(reply) {
                    Ok(word_of_wisdom) => {
                        *self = Client::Finished { word_of_wisdom };
                    },
                    Err(error) => {
                        *self = Client::Failed { error };
                    },
                }
            },
            _ => {},
        }
    }

    /// Tries `candidate` as a nonce for the secret that is being solved.
    pub fn offer(&mut self, candidate: u64)
        ensures
            final(self)@ == after_candidate(old(self)@, candidate),
    {
        match self {
            Client::Solving { token, secret } => {
                let token: u128 = *token;
                let mut engine = POW::new(POW::DEFAULT_DIFFICULTY);
                if engine.verify_nonce(secret, candidate) {
                    *self = Client::Submitting { token, nonce: candidate };
                }
            },
            _ => {},
        }
    }

    /// Tries up to `attempts` nonces, drawn at random, for the secret that
    /// is being solved, and stops at the first that proves work: the client
    /// goes on to submit it. Once `attempts` nonces have failed, the client
    /// stays as it is.
    pub fn search(&mut self, attempts: u64)
        ensures
            exists|candidates: Seq<u64>, found: Option<u64>|
                is_client_search(old(self)@, final(self)@, attempts, candidates, found),
            final(self)@ == old(self)@ || exists|candidate: u64|
                final(self)@ == #[trigger] after_candidate(old(self)@, candidate),
    {
        match self {
            Client::Solving { token, secret } => {
                let token: u128 = *token;
                let mut engine = POW::new(POW::DEFAULT_DIFFICULTY);
                let found: Option<u64> = engine.find_nonce(secret, attempts);
                let ghost candidates = choose|candidates: Seq<u64>|
                    is_search(
                        Secret::encoding(*secret),
                        POW::DEFAULT_DIFFICULTY,
                        attempts,
                        candidates,
                        found,
                    );
                match found {
                    Some(nonce) => {
                        *self = Client::Submitting { token, nonce };
                        assert(self@ == after_candidate(old(self)@, nonce));
                    },
                    None => {},
                }
                assert(is_client_search(old(self)@, self@, attempts, candidates, found));
            },
            _ => {
                assert(is_client_search(old(self)@, self@, attempts, Seq::empty(), None));
            },
        }
    }

    /// Takes note that a connection has failed with `error`: the transport
    /// underneath it, or the framing of the reply.
    pub fn on_failure(&mut self, error: ErrorKind)
        ensures
            final(self)@ == after_fault(old(self)@, error),
    {
        match self {
            Client::Finished { .. } => {},
            Client::Failed { .. } => {},
            _ => {
                *self = Client::Failed { error };
            },
        }
    }
}

} // verus!
