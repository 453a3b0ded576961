//! What a client and a server make of each other: the laws of a whole
//! exchange.

use crate::bytes::lemma_be_bytes_len;
use crate::client::{after_candidate, after_reply, request_of, ClientView};
use crate::crypto::{proves_work, Secret, POW};
use crate::encode::{decoded, lemma_round_trip, Wire};
use crate::error::ErrorKind;
use crate::message::{Request, Response, WordOfWisdomView};
use crate::protocol::{frame, frame_status, lemma_frame_status_of_prefix};
use crate::server::{lemma_response_fits, reply_to, response_to, sessions_after};
use crate::word_of_wisdom::quote_text;
use vstd::prelude::*;

verus! {

/// A request arrives as it was sent: its frame gives its payload, the
/// payload decodes to the request, and the server's reply is the frame of
/// its response to it.
pub proof fn lemma_request_arrives(
    sessions: Map<u128, Secret>,
    request: Request,
    fresh: Secret,
    pick: int,
)
    ensures
        frame_status(frame(Request::encoding(request))) == Some(
            Ok::<Seq<u8>, ErrorKind>(Request::encoding(request)),
        ),
        decoded::<Request>(Request::encoding(request)) == Some(request),
        reply_to(sessions, Request::encoding(request), fresh, pick) == Ok::<Seq<u8>, ErrorKind>(
            frame(Response::encoding(response_to(sessions, request, fresh, pick))),
        ),
{
    let payload = Request::encoding(request);
    match request {
        Request::Challenge { token } => {
            lemma_be_bytes_len(token as nat, 16);
        },
        Request::WordOfWisdom { token, result } => {
            lemma_be_bytes_len(token as nat, 16);
            lemma_be_bytes_len(result as nat, 8);
        },
    }
    lemma_frame_status_of_prefix(payload, frame(payload).len() as int);
    assert(frame(payload).take(frame(payload).len() as int) =~= frame(payload));
    lemma_round_trip::<Request>(request);
}

/// A response arrives as it was sent: its frame gives its payload, and the
/// payload decodes to the response.
pub proof fn lemma_response_arrives(
    sessions: Map<u128, Secret>,
    request: Request,
    fresh: Secret,
    pick: int,
)
    ensures
        frame_status(frame(Response::encoding(response_to(sessions, request, fresh, pick))))
            == Some(
            Ok::<Seq<u8>, ErrorKind>(
                Response::encoding(response_to(sessions, request, fresh, pick)),
            ),
        ),
        decoded::<Response>(Response::encoding(response_to(sessions, request, fresh, pick)))
            == Some(response_to(sessions, request, fresh, pick)),
{
    let payload = Response::encoding(response_to(sessions, request, fresh, pick));
    lemma_response_fits(sessions, request, fresh, pick);
    lemma_frame_status_of_prefix(payload, frame(payload).len() as int);
    assert(frame(payload).take(frame(payload).len() as int) =~= frame(payload));
    lemma_round_trip::<Response>(response_to(sessions, request, fresh, pick));
}

/// A whole exchange. A client that asks for a challenge under `token` gets
/// the secret `fresh` that the server binds to the token. With a nonce that
/// proves work for that secret at the default difficulty it goes on to
/// submit, and the server releases the quote at `pick` of its catalogue.
/// The same submission, made again, is rejected.
pub proof fn lemma_exchange(
    sessions: Map<u128, Secret>,
    token: u128,
    fresh: Secret,
    nonce: u64,
    pick: int,
    later: Secret,
    again: int,
)
    requires
        proves_work(Secret::encoding(fresh), nonce, POW::DEFAULT_DIFFICULTY),
    ensures
        ({
            let challenge = Request::Challenge { token };
            let submission = Request::WordOfWisdom { token, result: nonce };
            let beginning = ClientView::Challenging { token };
            let issued = sessions_after(sessions, challenge, fresh);
            let spent = sessions_after(issued, submission, later);
            let solving = after_reply(
                beginning,
                Response::encoding(response_to(sessions, challenge, fresh, pick)),
            );
            let submitting = after_candidate(solving, nonce);
            &&& request_of(beginning) == Some(frame(Request::encoding(challenge)))
            &&& issued.contains_key(token) && issued[token] == fresh
            &&& solving == (ClientView::Solving { token, secret: fresh })
            &&& submitting == (ClientView::Submitting { token, nonce })
            &&& request_of(submitting) == Some(frame(Request::encoding(submission)))
            &&& after_reply(
                submitting,
                Response::encoding(response_to(issued, submission, later, pick)),
            ) == (ClientView::Finished {
                word_of_wisdom: WordOfWisdomView::Result { result: quote_text(pick) },
            })
            &&& !spent.contains_key(token)
            &&& after_reply(
                submitting,
                Response::encoding(response_to(spent, submission, later, again)),
            ) == (ClientView::Finished { word_of_wisdom: WordOfWisdomView::Fail })
        }),
{
    let challenge = Request::Challenge { token };
    let submission = Request::WordOfWisdom { token, result: nonce };
    let issued = sessions_after(sessions, challenge, fresh);
    let spent = sessions_after(issued, submission, later);
    lemma_response_arrives(sessions, challenge, fresh, pick);
    lemma_response_arrives(issued, submission, later, pick);
    lemma_response_arrives(spent, submission, later, again);
}

} // verus!
