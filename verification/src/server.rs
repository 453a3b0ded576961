//! The server's side of an exchange: one request in, one response out.
//!
//! A connection goes from awaiting its request through dispatching it to
//! responding, and is closed after that; any failure closes it at once. The
//! session store is touched while a request is dispatched, and at no other
//! time, so a server that serves many connections at once holds the store's
//! lock for that step alone.

use crate::bytes::lemma_be_bytes_len;
use crate::crypto::{Secret, POW};
use crate::encode::{decoded, Serializer, Wire};
use crate::error::ErrorKind;
use crate::message::{
    lemma_utf8_length, Request, Response, ResponseView, WordOfWisdom, WordOfWisdomView,
};
use crate::protocol::{frame, reception, Protocol, MAXIMUM_BUFFER_SIZE, PREFIX_SIZE};
use crate::random::random_below;
use crate::session::{accepts, after_submission, SessionStore};
use crate::word_of_wisdom::{lemma_quote_length, quote, quote_text, QUOTES_QUANTITY};
use vstd::prelude::*;

verus! {

/// The outcome of a submission: the quote at `pick` of the catalogue if the
/// proof was accepted, a rejection if not.
pub open spec fn outcome_of(accepted: bool, pick: int) -> WordOfWisdomView {
    if accepted {
        WordOfWisdomView::Result { result: quote_text(pick) }
    } else {
        WordOfWisdomView::Fail
    }
}

/// The response of a server that holds `sessions` to `request`, where
/// `fresh` is the secret that it would issue and `pick` the place in the
/// catalogue of the quote that it would release.
pub open spec fn response_to(
    sessions: Map<u128, Secret>,
    request: Request,
    fresh: Secret,
    pick: int,
) -> ResponseView {
    match request {
        Request::Challenge { .. } => ResponseView::Challenge { secret: fresh },
        Request::WordOfWisdom { token, result } => ResponseView::WordOfWisdom {
            word_of_wisdom: outcome_of(
                accepts(sessions, token, result, POW::DEFAULT_DIFFICULTY),
                pick,
            ),
        },
    }
}

/// The sessions that a server holds once it has answered `request`, where
/// `fresh` is the secret that it issued if the request asked for one.
pub open spec fn sessions_after(sessions: Map<u128, Secret>, request: Request, fresh: Secret) -> Map<
    u128,
    Secret,
> {
    match request {
        Request::Challenge { token } => sessions.insert(token, fresh),
        Request::WordOfWisdom { token, result } => after_submission(
            sessions,
            token,
            result,
            POW::DEFAULT_DIFFICULTY,
        ),
    }
}

/// The outcome to report for a submission: the quote at `pick` of the
/// catalogue if the proof was accepted, a rejection if not.
pub fn outcome(accepted: bool, pick: usize) -> (word_of_wisdom: WordOfWisdom)
    requires
        pick < QUOTES_QUANTITY,
    ensures
        word_of_wisdom@ == outcome_of(accepted, pick as int),
{
    if accepted {
        WordOfWisdom::Result { result: quote(pick).to_owned() }
    } else {
        WordOfWisdom::Fail
    }
}

/// Answers `request` against `store`. A challenge begins a session with a
/// fresh random secret and is answered with that secret. A submission is
/// answered with a quote, picked at random from the catalogue, if the store
/// accepts it at the default difficulty, and with a rejection if not.
pub fn dispatch(store: &mut SessionStore, request: &Request) -> (response: Response)
    ensures
        exists|fresh: Secret, pick: int|
            0 <= pick < QUOTES_QUANTITY && response@ == #[trigger] response_to(
                old(store)@,
                *request,
                fresh,
                pick,
            ) && final(store)@ == sessions_after(old(store)@, *request, fresh),
{
    match *request {
        Request::Challenge { token } => {
            let secret: Secret = store.issue(token);
            let response = Response::Challenge { secret };
            assert(response@ == response_to(old(store)@, *request, secret, 0));
            response
        },
        Request::WordOfWisdom { token, result } => {
            let accepted: bool = store.check_and_consume(token, result, POW::DEFAULT_DIFFICULTY);
            let pick: usize = if accepted {
                random_below(QUOTES_QUANTITY as u64) as usize
            } else {
                0
            };
            let response = Response::WordOfWisdom { word_of_wisdom: outcome(accepted, pick) };
            assert(response@ == response_to(
                old(store)@,
                *request,
                Secret { value: 0 },
                pick as int,
            ));
            response
        },
    }
}

/// Every response fits a frame.
pub proof fn lemma_response_fits(
    sessions: Map<u128, Secret>,
    request: Request,
    fresh: Secret,
    pick: int,
)
    ensures
        PREFIX_SIZE + Response::encoding(response_to(sessions, request, fresh, pick)).len()
            <= MAXIMUM_BUFFER_SIZE,
{
    lemma_be_bytes_len(fresh.value as nat, 16);
    lemma_quote_length(pick);
    lemma_utf8_length(quote_text(pick));
}

/// The frame that a server that holds `sessions` sends back for `payload`;
/// `Decode` where the payload encodes no request. `fresh` and `pick` are as
/// in `response_to`.
pub open spec fn reply_to(sessions: Map<u128, Secret>, payload: Seq<u8>, fresh: Secret, pick: int) -> Result<
    Seq<u8>,
    ErrorKind,
> {
    match decoded::<Request>(payload) {
        Some(request) => Ok(frame(Response::encoding(response_to(sessions, request, fresh, pick)))),
        None => Err(ErrorKind::Decode),
    }
}

/// The sessions that a server holds once it has dealt with `payload`: those
/// that answering the request leaves, and the same as before where the
/// payload encodes no request.
pub open spec fn sessions_after_payload(
    sessions: Map<u128, Secret>,
    payload: Seq<u8>,
    fresh: Secret,
) -> Map<u128, Secret> {
    match decoded::<Request>(payload) {
        Some(request) => sessions_after(sessions, request, fresh),
        None => sessions,
    }
}

/// A result that holds bytes, with the bytes as a sequence.
pub open spec fn bytes_of(outcome: Result<Vec<u8>, ErrorKind>) -> Result<Seq<u8>, ErrorKind> {
    match outcome {
        Ok(bytes) => Ok(bytes@),
        Err(error) => Err(error),
    }
}

/// Answers the request that `payload` encodes against `store`, and returns
/// the frame to send back. A payload that encodes no request is not
/// answered, and the store stays as it is.
pub fn serve(store: &mut SessionStore, payload: &[u8]) -> (reply: Result<Vec<u8>, ErrorKind>)
    ensures
        exists|fresh: Secret, pick: int|
            0 <= pick < QUOTES_QUANTITY && bytes_of(reply) == #[trigger] reply_to(
                old(store)@,
                payload@,
                fresh,
                pick,
            ) && final(store)@ == sessions_after_payload(old(store)@, payload@, fresh),
{
    let request: Request = match Serializer::deserialize::<Request>(payload) {
        Ok(request) => request,
        Err(error) => {
            assert(bytes_of(Err(error)) == reply_to(old(store)@, payload@, Secret { value: 0 }, 0));
            return Err(error);
        },
    };
    let response: Response = dispatch(store, &request);
    let ghost (fresh, pick) = choose|fresh: Secret, pick: int|
        0 <= pick < QUOTES_QUANTITY && response@ == #[trigger] response_to(
            old(store)@,
            request,
            fresh,
            pick,
        ) && store@ == sessions_after(old(store)@, request, fresh);
    proof {
        lemma_response_fits(old(store)@, request, fresh, pick);
    }
    let data: Vec<u8> = Serializer::serialize(&response);
    let mut reply: Vec<u8> = Vec::new();
    match Protocol::send(&mut reply, data) {
        Ok(()) => {
            assert(bytes_of(Ok(reply)) == reply_to(old(store)@, payload@, fresh, pick));
            Ok(reply)
        },
        Err(error) => Err(error),
    }
}

/// One connection of a server, by where it stands. A connection takes in
/// one request, answers it and is closed; a failure on the way closes it at
/// once, with no response.
#[derive(Debug, Clone, PartialEq, Eq)]
pub enum Connection {
    /// The request's frame is not whole yet: the stream is to be read.
    /// `received` holds the bytes read so far.
    AwaitingRequest { received: Vec<u8> },
    /// The request has arrived: `payload` is to be answered against the
    /// session store.
    Dispatching { payload: Vec<u8> },
    /// The request is answered: the frame `reply` is to be written to the
    /// stream.
    Responding { reply: Vec<u8> },
    /// Nothing is left to do. `failure` says what closed the connection, if
    /// a failure did.
    Closed { failure: Option<ErrorKind> },
}

/// A connection, with its bytes as sequences.
pub enum ConnectionView {
    AwaitingRequest { received: Seq<u8> },
    Dispatching { payload: Seq<u8> },
    Responding { reply: Seq<u8> },
    Closed { failure: Option<ErrorKind> },
}

impl View for Connection {
    type V = ConnectionView;

    open spec fn view(&self) -> ConnectionView {
        match self {
            Connection::AwaitingRequest { received } => ConnectionView::AwaitingRequest {
                received: received@,
            },
            Connection::Dispatching { payload } => ConnectionView::Dispatching {
                payload: payload@,
            },
            Connection::Responding { reply } => ConnectionView::Responding { reply: reply@ },
            Connection::Closed { failure } => ConnectionView::Closed { failure: *failure },
        }
    }
}

/// The connection after a read of the stream that returned `chunk`; an
/// empty chunk reports that the peer closed the stream. Only a connection
/// that awaits its request reads.
pub open spec fn after_read(connection: ConnectionView, chunk: Seq<u8>) -> ConnectionView {
    match connection {
        ConnectionView::AwaitingRequest { received } => match reception(
            received + chunk,
            chunk.len() == 0,
        ) {
            None => ConnectionView::AwaitingRequest { received: received + chunk },
            Some(Ok(payload)) => ConnectionView::Dispatching { payload },
            Some(Err(error)) => ConnectionView::Closed { failure: Some(error) },
        },
        _ => connection,
    }
}

/// The connection after its request has been answered by a server that
/// held `sessions`; `fresh` and `pick` are as in `response_to`. Only a
/// connection whose request has arrived is dispatched.
pub open spec fn after_dispatch(
    connection: ConnectionView,
    sessions: Map<u128, Secret>,
    fresh: Secret,
    pick: int,
) -> ConnectionView {
    match connection {
        ConnectionView::Dispatching { payload } => match reply_to(sessions, payload, fresh, pick) {
            Ok(reply) => ConnectionView::Responding { reply },
            Err(error) => ConnectionView::Closed { failure: Some(error) },
        },
        _ => connection,
    }
}

/// The sessions that the server holds after it has dispatched `connection`.
pub open spec fn sessions_after_dispatch(
    connection: ConnectionView,
    sessions: Map<u128, Secret>,
    fresh: Secret,
) -> Map<u128, Secret> {
    match connection {
        ConnectionView::Dispatching { payload } => sessions_after_payload(sessions, payload, fresh),
        _ => sessions,
    }
}

/// The connection after its response has been written to the stream.
pub open spec fn after_sent(connection: ConnectionView) -> ConnectionView {
    match connection {
        ConnectionView::Responding { .. } => ConnectionView::Closed { failure: None },
        _ => connection,
    }
}

/// The connection after the stream has failed underneath it.
pub open spec fn after_failure(connection: ConnectionView) -> ConnectionView {
    match connection {
        ConnectionView::Closed { .. } => connection,
        _ => ConnectionView::Closed { failure: Some(ErrorKind::Transport) },
    }
}

/// How far a connection has come.
pub open spec fn progress(connection: ConnectionView) -> nat {
    match connection {
        ConnectionView::AwaitingRequest { .. } => 0,
        ConnectionView::Dispatching { .. } => 1,
        ConnectionView::Responding { .. } => 2,
        ConnectionView::Closed { .. } => 3,
    }
}

/// A connection never goes back, a closed connection stays as it is, and
/// only the dispatch of a request makes a connection respond: no connection
/// sends more than one response.
pub proof fn lemma_connection_progress(
    connection: ConnectionView,
    chunk: Seq<u8>,
    sessions: Map<u128, Secret>,
    fresh: Secret,
    pick: int,
)
    ensures
        progress(after_read(connection, chunk)) >= progress(connection),
        progress(after_dispatch(connection, sessions, fresh, pick)) >= progress(connection),
        progress(after_sent(connection)) >= progress(connection),
        progress(after_failure(connection)) >= progress(connection),
        connection is Closed ==> after_read(connection, chunk) == connection && after_dispatch(
            connection,
            sessions,
            fresh,
            pick,
        ) == connection && after_sent(connection) == connection && after_failure(connection)
            == connection,
        !(connection is Responding) ==> !(after_read(connection, chunk) is Responding) && !(
        after_sent(connection) is Responding) && !(after_failure(connection) is Responding),
        !(connection is Responding) && after_dispatch(connection, sessions, fresh, pick)
            is Responding ==> connection is Dispatching,
        connection is Responding ==> after_sent(connection) is Closed,
{
}

impl Connection {
    /// A connection that has just been accepted.
    pub fn new() -> (connection: Connection)
        ensures
            connection@ == (ConnectionView::AwaitingRequest { received: Seq::empty() }),
    {
        Connection::AwaitingRequest { received: Vec::new() }
    }

    /// Takes in what a read of the stream returned; an empty `chunk`
    /// reports that the peer closed the stream.
    pub fn on_read(&mut self, chunk: &[u8])
        ensures
            final(self)@ == after_read(old(self)@, chunk@),
    {
        match self {
            Connection::AwaitingRequest { received } => {
                match Protocol::advance(received, chunk) {
                    Ok(None) => {},
                    Ok(Some(payload)) => {
                        *self = Connection::Dispatching { payload };
                    },
                    Err(error) => {
                        *self = Connection::Closed { failure: Some(error) };
                    },
                }
            },
            _ => {},
        }
    }

    /// Answers the request that has arrived against `store` and holds the
    /// response's frame ready to be sent. A payload that encodes no request
    /// closes the connection and leaves the store as it is.
    pub fn on_dispatch(&mut self, store: &mut SessionStore)
        ensures
            exists|fresh: Secret, pick: int|
                0 <= pick < QUOTES_QUANTITY && final(self)@ == #[trigger] after_dispatch(
                    old(self)@,
                    old(store)@,
                    fresh,
                    pick,
                ) && final(store)@ == sessions_after_dispatch(old(self)@, old(store)@, fresh),
    {
        match self {
            Connection::Dispatching { payload } => {
                let served = serve(store, payload.as_slice());
                let ghost (fresh, pick) = choose|fresh: Secret, pick: int|
                    0 <= pick < QUOTES_QUANTITY && bytes_of(served) == #[trigger] reply_to(
                        old(store)@,
                        payload@,
                        fresh,
                        pick,
                    ) && store@ == sessions_after_payload(old(store)@, payload@, fresh);
                match served {
                    Ok(reply) => {
                        *self = Connection::Responding { reply };
                    },
                    Err(error) => {
                        *self = Connection::Closed { failure: Some(error) };
                    },
                }
                assert(self@ == after_dispatch(old(self)@, old(store)@, fresh, pick));
            },
            _ => {
                assert(self@ == after_dispatch(old(self)@, old(store)@, Secret { value: 0 }, 0));
            },
        }
    }

    /// Takes note that the response has been written to the stream.
    pub fn on_sent(&mut self)
        ensures
            final(self)@ == after_sent(old(self)@),
    {
        match self {
            Connection::Responding { .. } => {
                *self = Connection::Closed { failure: None };
            },
            _ => {},
        }
    }

    /// Takes note that the stream has failed.
    pub fn on_failure(&mut self)
        ensures
            final(self)@ == after_failure(old(self)@),
    {
        match self {
            Connection::Closed { .. } => {},
            _ => {
                *self = Connection::Closed { failure: Some(ErrorKind::Transport) };
            },
        }
    }
}

} // verus!
