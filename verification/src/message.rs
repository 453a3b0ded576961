//! The messages that travel inside frames, and their encodings.
//!
//! Every encoding starts with one byte that tells the variant. Tokens and
//! secrets follow as 16 bytes and nonces as 8, most significant byte first;
//! a quote follows as UTF-8 up to the end of the payload.

use crate::bytes::{
    be_bytes, lemma_be_bytes_injective, lemma_be_bytes_len, lemma_be_bytes_of_value,
    lemma_pow256_widths, push_u128, push_u64, read_u128, read_u64,
};
use crate::crypto::Secret;
use crate::encode::Wire;
use vstd::prelude::*;
use vstd::slice::slice_subrange;
use vstd::slice::slice_to_vec;
use vstd::utf8::{encode_utf8, encode_utf8_decode_utf8, encode_utf8_valid_utf8, valid_utf8};

verus! {

/// First byte of a request for a challenge.
pub const TAG_REQUEST_CHALLENGE: u8 = 0x01;

/// First byte of a request that submits a nonce.
pub const TAG_REQUEST_WORD_OF_WISDOM: u8 = 0x02;

/// First byte of a response that carries a secret.
pub const TAG_RESPONSE_CHALLENGE: u8 = 0x11;

/// First byte of a response that carries the outcome of a submission.
pub const TAG_RESPONSE_WORD_OF_WISDOM: u8 = 0x12;

/// First byte of an outcome that releases a quote.
pub const TAG_RESULT: u8 = 0x21;

/// First byte of an outcome that rejects the submission.
pub const TAG_FAIL: u8 = 0x22;

/// What a client asks of the server.
#[derive(Debug, Clone, Copy, PartialEq, Eq, Structural)]
pub enum Request {
    /// Asks for a secret to be bound to `token`.
    Challenge { token: u128 },
    /// Submits the nonce `result` as proof of work for the secret bound to
    /// `token`.
    WordOfWisdom { token: u128, result: u64 },
}

/// The outcome of a submission.
#[derive(Debug, Clone, PartialEq, Eq)]
pub enum WordOfWisdom {
    /// The proof was accepted; `result` is the quote released for it.
    Result { result: String },
    /// The proof was rejected.
    Fail,
}

/// What the server answers.
#[derive(Debug, Clone, PartialEq, Eq)]
pub enum Response {
    /// The secret bound to the token of the request.
    Challenge { secret: Secret },
    /// The outcome of the submitted proof.
    WordOfWisdom { word_of_wisdom: WordOfWisdom },
}

/// An outcome, with the quote as a sequence of characters.
pub enum WordOfWisdomView {
    Result { result: Seq<char> },
    Fail,
}

/// A response, with the quote as a sequence of characters.
pub enum ResponseView {
    Challenge { secret: Secret },
    WordOfWisdom { word_of_wisdom: WordOfWisdomView },
}

impl View for Request {
    type V = Request;

    open spec fn view(&self) -> Request {
        *self
    }
}

impl View for WordOfWisdom {
    type V = WordOfWisdomView;

    open spec fn view(&self) -> WordOfWisdomView {
        match self {
            WordOfWisdom::Result { result } => WordOfWisdomView::Result { result: result@ },
            WordOfWisdom::Fail => WordOfWisdomView::Fail,
        }
    }
}

impl View for Response {
    type V = ResponseView;

    open spec fn view(&self) -> ResponseView {
        match self {
            Response::Challenge { secret } => ResponseView::Challenge { secret: *secret },
            Response::WordOfWisdom { word_of_wisdom } => ResponseView::WordOfWisdom {
                word_of_wisdom: word_of_wisdom@,
            },
        }
    }
}

/// `String::from_utf8`: a vector of bytes becomes the string that has exactly
/// those bytes, and is refused if and only if it is not valid UTF-8.
#[verifier::external_body]
fn string_from_utf8(bytes: Vec<u8>) -> (text: Option<String>)
    ensures
        text matches Some(s) ==> encode_utf8(s@) == bytes@,
        text is None ==> !valid_utf8(bytes@),
{
    String::from_utf8(bytes).ok()
}

/// UTF-8 takes at most 4 bytes for a character.
pub proof fn lemma_utf8_length(text: Seq<char>)
    ensures
        encode_utf8(text).len() <= 4 * text.len(),
    decreases text.len(),
{
    if text.len() > 0 {
        lemma_utf8_length(text.drop_first());
    }
}

impl Wire for Request {
    open spec fn encoding(value: Request) -> Seq<u8> {
        match value {
            Request::Challenge { token } => seq![TAG_REQUEST_CHALLENGE] + be_bytes(
                token as nat,
                16,
            ),
            Request::WordOfWisdom { token, result } => seq![TAG_REQUEST_WORD_OF_WISDOM] + be_bytes(
                token as nat,
                16,
            ) + be_bytes(result as nat, 8),
        }
    }

    proof fn lemma_encoding_injective(a: Request, b: Request) {
        lemma_pow256_widths();
        let ea = Self::encoding(a);
        let eb = Self::encoding(b);
        assert(ea[0] == eb[0]);
        match (a, b) {
            (Request::Challenge { token: ta }, Request::Challenge { token: tb }) => {
                assert(be_bytes(ta as nat, 16) =~= ea.skip(1));
                assert(be_bytes(tb as nat, 16) =~= eb.skip(1));
                lemma_be_bytes_injective(ta as nat, tb as nat, 16);
            },
            (
                Request::WordOfWisdom { token: ta, result: ra },
                Request::WordOfWisdom { token: tb, result: rb },
            ) => {
                lemma_be_bytes_len(ta as nat, 16);
                lemma_be_bytes_len(tb as nat, 16);
                assert(be_bytes(ta as nat, 16) =~= ea.subrange(1, 17));
                assert(be_bytes(tb as nat, 16) =~= eb.subrange(1, 17));
                assert(be_bytes(ra as nat, 8) =~= ea.skip(17));
                assert(be_bytes(rb as nat, 8) =~= eb.skip(17));
                lemma_be_bytes_injective(ta as nat, tb as nat, 16);
                lemma_be_bytes_injective(ra as nat, rb as nat, 8);
            },
            _ => {},
        }
    }

    fn write(&self, buffer: &mut Vec<u8>) {
        match self {
            Request::Challenge { token } => {
                buffer.push(TAG_REQUEST_CHALLENGE);
                push_u128(buffer, *token);
            },
            Request::WordOfWisdom { token, result } => {
                buffer.push(TAG_REQUEST_WORD_OF_WISDOM);
                push_u128(buffer, *token);
                push_u64(buffer, *result);
            },
        }
    }

    fn read(data: &[u8]) -> (value: Option<Request>) {
        let length: usize = data.len();
        if length == 17 && data[0] == TAG_REQUEST_CHALLENGE {
            let token: u128 = read_u128(data, 1);
            proof {
                lemma_be_bytes_of_value(data@.subrange(1, 17));
            }
            Some(Request::Challenge { token })
        } else if length == 25 && data[0] == TAG_REQUEST_WORD_OF_WISDOM {
            let token: u128 = read_u128(data, 1);
            let result: u64 = read_u64(data, 17);
            proof {
                lemma_be_bytes_of_value(data@.subrange(1, 17));
                lemma_be_bytes_of_value(data@.subrange(17, 25));
            }
            Some(Request::WordOfWisdom { token, result })
        } else {
            assert forall|m: Request| #[trigger] Self::encoding(m) != data@ by {
                match m {
                    Request::Challenge { token } => {
                        lemma_be_bytes_len(token as nat, 16);
                    },
                    Request::WordOfWisdom { token, result } => {
                        lemma_be_bytes_len(token as nat, 16);
                        lemma_be_bytes_len(result as nat, 8);
                    },
                }
            }
            None
        }
    }
}

impl Wire for WordOfWisdom {
    open spec fn encoding(value: WordOfWisdomView) -> Seq<u8> {
        match value {
            WordOfWisdomView::Result { result } => seq![TAG_RESULT] + encode_utf8(result),
            WordOfWisdomView::Fail => seq![TAG_FAIL],
        }
    }

    proof fn lemma_encoding_injective(a: WordOfWisdomView, b: WordOfWisdomView) {
        let ea = Self::encoding(a);
        let eb = Self::encoding(b);
        assert(ea[0] == eb[0]);
        match (a, b) {
            (WordOfWisdomView::Result { result: ra }, WordOfWisdomView::Result { result: rb }) => {
                assert(encode_utf8(ra) =~= ea.skip(1));
                assert(encode_utf8(rb) =~= eb.skip(1));
                encode_utf8_decode_utf8(ra);
                encode_utf8_decode_utf8(rb);
            },
            _ => {},
        }
    }

    fn write(&self, buffer: &mut Vec<u8>) {
        match self {
            WordOfWisdom::Result { result } => {
                buffer.push(TAG_RESULT);
                buffer.extend_from_slice(result.as_str().as_bytes());
            },
            WordOfWisdom::Fail => {
                buffer.push(TAG_FAIL);
            },
        }
    }

    fn read(data: &[u8]) -> (value: Option<WordOfWisdom>) {
        let length: usize = data.len();
        if length >= 1 && data[0] == TAG_RESULT {
            let bytes: Vec<u8> = slice_to_vec(slice_subrange(data, 1, length));
            match string_from_utf8(bytes) {
                Some(result) => {
                    Some(WordOfWisdom::Result { result })
                },
                None => {
                    assert forall|m: WordOfWisdomView| #[trigger]
                        Self::encoding(m) != data@ by {
                        if let WordOfWisdomView::Result { result } = m {
                            encode_utf8_valid_utf8(result);
                            if Self::encoding(m) == data@ {
                                assert(encode_utf8(result) =~= data@.skip(1));
                            }
                        }
                    }
                    None
                },
            }
        } else if length == 1 && data[0] == TAG_FAIL {
            Some(WordOfWisdom::Fail)
        } else {
            None
        }
    }
}

impl Wire for Response {
    open spec fn encoding(value: ResponseView) -> Seq<u8> {
        match value {
            ResponseView::Challenge { secret } => seq![TAG_RESPONSE_CHALLENGE] + Secret::encoding(
                secret,
            ),
            ResponseView::WordOfWisdom { word_of_wisdom } => seq![TAG_RESPONSE_WORD_OF_WISDOM]
                + WordOfWisdom::encoding(word_of_wisdom),
        }
    }

    proof fn lemma_encoding_injective(a: ResponseView, b: ResponseView) {
        let ea = Self::encoding(a);
        let eb = Self::encoding(b);
        assert(ea[0] == eb[0]);
        match (a, b) {
            (ResponseView::Challenge { secret: sa }, ResponseView::Challenge { secret: sb }) => {
                assert(Secret::encoding(sa) =~= ea.skip(1));
                assert(Secret::encoding(sb) =~= eb.skip(1));
                Secret::lemma_encoding_injective(sa, sb);
            },
            (
                ResponseView::WordOfWisdom { word_of_wisdom: wa },
                ResponseView::WordOfWisdom { word_of_wisdom: wb },
            ) => {
                assert(WordOfWisdom::encoding(wa) =~= ea.skip(1));
                assert(WordOfWisdom::encoding(wb) =~= eb.skip(1));
                WordOfWisdom::lemma_encoding_injective(wa, wb);
            },
            _ => {},
        }
    }

    fn write(&self, buffer: &mut Vec<u8>) {
        match self {
            Response::Challenge { secret } => {
                buffer.push(TAG_RESPONSE_CHALLENGE);
                secret.write(buffer);
            },
            Response::WordOfWisdom { word_of_wisdom } => {
                buffer.push(TAG_RESPONSE_WORD_OF_WISDOM);
                word_of_wisdom.write(buffer);
            },
        }
    }

    fn read(data: &[u8]) -> (value: Option<Response>) {
        let length: usize = data.len();
        if length >= 1 && data[0] == TAG_RESPONSE_CHALLENGE {
            match Secret::read(slice_subrange(data, 1, length)) {
                Some(secret) => {
                    Some(Response::Challenge { secret })
                },
                None => {
                    assert forall|m: ResponseView| #[trigger] Self::encoding(m) != data@ by {
                        if let ResponseView::Challenge { secret } = m {
                            if Self::encoding(m) == data@ {
                                assert(Secret::encoding(secret) =~= data@.skip(1));
                            }
                        }
                    }
                    None
                },
            }
        } else if length >= 1 && data[0] == TAG_RESPONSE_WORD_OF_WISDOM {
            match WordOfWisdom::read(slice_subrange(data, 1, length)) {
                Some(word_of_wisdom) => {
                    Some(Response::WordOfWisdom { word_of_wisdom })
                },
                None => {
                    assert forall|m: ResponseView| #[trigger] Self::encoding(m) != data@ by {
                        if let ResponseView::WordOfWisdom { word_of_wisdom } = m {
                            if Self::encoding(m) == data@ {
                                assert(WordOfWisdom::encoding(word_of_wisdom) =~= data@.skip(1));
                            }
                        }
                    }
                    None
                },
            }
        } else {
            None
        }
    }
}

} // verus!
