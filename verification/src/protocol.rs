//! The frame codec: payloads on a byte stream, each behind its length.
//!
//! A frame is an 8-byte big-endian length, which counts itself, followed by
//! the payload. No frame is longer than `MAXIMUM_BUFFER_SIZE`: a sender
//! refuses to write a longer one, and a reader gives up on a prefix that
//! announces one before it takes in any of the payload.

use crate::bytes::{
    be_bytes, be_value, lemma_be_bytes_len, lemma_be_value_of_bytes, lemma_pow256_widths,
    push_u64, read_u64,
};
use crate::error::ErrorKind;
use vstd::prelude::*;
use vstd::slice::slice_subrange;
use vstd::slice::slice_to_vec;

verus! {

/// The number of bytes of the length prefix.
pub const PREFIX_SIZE: usize = 8;

/// The largest frame, prefix included, that is sent or accepted: 1 MiB.
pub const MAXIMUM_BUFFER_SIZE: u64 = 1_048_576;

/// The frame that carries `payload`.
pub open spec fn frame(payload: Seq<u8>) -> Seq<u8> {
    be_bytes((PREFIX_SIZE + payload.len()) as nat, PREFIX_SIZE as nat) + payload
}

/// What the bytes `received` so far amount to: nothing yet (`None`), a whole
/// frame with its payload, or a violation of the framing. Nothing is known
/// before the prefix is whole. A prefix that announces more than the limit
/// is `FrameTooLarge`, whatever follows it. The frame is whole when as many
/// bytes have arrived as the prefix announces, and more bytes than that are
/// a `Desync`; so is a prefix that announces less than its own length.
pub open spec fn frame_status(received: Seq<u8>) -> Option<Result<Seq<u8>, ErrorKind>> {
    if received.len() < PREFIX_SIZE {
        None
    } else {
        let total = be_value(received.subrange(0, PREFIX_SIZE as int));
        if total > MAXIMUM_BUFFER_SIZE {
            Some(Err(ErrorKind::FrameTooLarge))
        } else if received.len() < total {
            None
        } else if received.len() == total {
            Some(Ok(received.skip(PREFIX_SIZE as int)))
        } else {
            Some(Err(ErrorKind::Desync))
        }
    }
}

/// How a read ends the reception, if it does: `received` holds all bytes up
/// to and including that read, and `closed` says that the read returned no
/// bytes, which is how a stream reports that the peer has closed it.
pub open spec fn reception(received: Seq<u8>, closed: bool) -> Option<Result<Seq<u8>, ErrorKind>> {
    match frame_status(received) {
        Some(outcome) => Some(outcome),
        None => if closed {
            Some(Err(ErrorKind::Truncated))
        } else {
            None
        },
    }
}

/// What a reader that has `received` so far gets from a stream whose further
/// reads return `reads`, one after the other, and which ends after them.
pub open spec fn received_frame(reads: Seq<Seq<u8>>, received: Seq<u8>) -> Result<
    Seq<u8>,
    ErrorKind,
>
    decreases reads.len(),
{
    if reads.len() == 0 {
        Err(ErrorKind::Truncated)
    } else {
        let next = received + reads.first();
        match reception(next, reads.first().len() == 0) {
            Some(outcome) => outcome,
            None => received_frame(reads.drop_first(), next),
        }
    }
}

/// A frame within the limit gives its payload once it is whole, and leaves
/// the reader waiting at every length short of that.
pub proof fn lemma_frame_status_of_prefix(payload: Seq<u8>, length: int)
    requires
        PREFIX_SIZE + payload.len() <= MAXIMUM_BUFFER_SIZE,
        0 <= length <= frame(payload).len(),
    ensures
        frame_status(frame(payload).take(length)) == (if length == frame(payload).len() {
            Some(Ok::<Seq<u8>, ErrorKind>(payload))
        } else {
            None
        }),
{
    let whole = frame(payload);
    let total = (PREFIX_SIZE + payload.len()) as nat;
    let seen = whole.take(length);
    lemma_be_bytes_len(total, PREFIX_SIZE as nat);
    if length >= PREFIX_SIZE {
        lemma_pow256_widths();
        lemma_be_value_of_bytes(total, PREFIX_SIZE as nat);
        assert(seen.subrange(0, PREFIX_SIZE as int) =~= be_bytes(total, PREFIX_SIZE as nat));
        if length == whole.len() {
            assert(seen.skip(PREFIX_SIZE as int) =~= payload);
        }
    }
}

/// What is left of a frame arrives whole, however the stream cuts it into
/// reads, as long as no read is empty.
proof fn lemma_rest_of_frame_arrives(payload: Seq<u8>, received: Seq<u8>, reads: Seq<Seq<u8>>)
    requires
        PREFIX_SIZE + payload.len() <= MAXIMUM_BUFFER_SIZE,
        forall|i: int| 0 <= i < reads.len() ==> (#[trigger] reads[i]).len() > 0,
        received + reads.flatten() == frame(payload),
        received.len() < frame(payload).len(),
    ensures
        received_frame(reads, received) == Ok::<Seq<u8>, ErrorKind>(payload),
    decreases reads.len(),
{
    let whole = frame(payload);
    if reads.len() > 0 {
        let next = received + reads.first();
        let rest = reads.drop_first();
        assert(next + rest.flatten() =~= received + reads.flatten());
        assert(next =~= whole.take(next.len() as int));
        lemma_frame_status_of_prefix(payload, next.len() as int);
        if next.len() < whole.len() {
            lemma_rest_of_frame_arrives(payload, next, rest);
        }
    }
}

/// What `send` puts on a stream, `receive` takes off it: a frame within the
/// limit gives its payload back, however the stream cuts it into reads, as
/// long as no read is empty.
pub proof fn lemma_frame_round_trip(payload: Seq<u8>, reads: Seq<Seq<u8>>)
    requires
        PREFIX_SIZE + payload.len() <= MAXIMUM_BUFFER_SIZE,
        forall|i: int| 0 <= i < reads.len() ==> (#[trigger] reads[i]).len() > 0,
        reads.flatten() == frame(payload),
    ensures
        received_frame(reads, Seq::empty()) == Ok::<Seq<u8>, ErrorKind>(payload),
{
    lemma_rest_of_frame_arrives(payload, Seq::empty(), reads);
}

/// The frame codec.
pub struct Protocol;

impl Protocol {
    /// Appends the frame that carries `data` to `stream`, the bytes that go
    /// out to the peer. A payload that would make the frame larger than the
    /// limit is refused, and nothing is appended.
    pub fn send(stream: &mut Vec<u8>, data: Vec<u8>) -> (sent: Result<(), ErrorKind>)
        ensures
            PREFIX_SIZE + data@.len() <= MAXIMUM_BUFFER_SIZE ==> sent is Ok && final(stream)@
                == old(stream)@ + frame(data@),
            PREFIX_SIZE + data@.len() > MAXIMUM_BUFFER_SIZE ==> sent == Err::<(), ErrorKind>(
                ErrorKind::FrameTooLarge,
            ) && final(stream)@ == old(stream)@,
    {
        let length: usize = data.len();
        if length > (MAXIMUM_BUFFER_SIZE as usize) - PREFIX_SIZE {
            return Err(ErrorKind::FrameTooLarge);
        }
        push_u64(stream, (length + PREFIX_SIZE) as u64);
        stream.extend_from_slice(data.as_slice());
        Ok(())
    }

    /// Takes in what one read of the stream returned: `chunk` joins the
    /// bytes in `buffer`, and the result says whether the frame is whole
    /// (`Ok(Some(payload))`), more has to be read (`Ok(None)`), or the
    /// reception has failed. An empty `chunk` reports that the peer closed
    /// the stream.
    pub fn advance(buffer: &mut Vec<u8>, chunk: &[u8]) -> (step: Result<
        Option<Vec<u8>>,
        ErrorKind,
    >)
        ensures
            final(buffer)@ == old(buffer)@ + chunk@,
            match step {
                Ok(Some(payload)) => reception(final(buffer)@, chunk@.len() == 0) == Some(
                    Ok::<Seq<u8>, ErrorKind>(payload@),
                ),
                Ok(None) => reception(final(buffer)@, chunk@.len() == 0) is None,
                Err(error) => reception(final(buffer)@, chunk@.len() == 0) == Some(
                    Err::<Seq<u8>, ErrorKind>(error),
                ),
            },
    {
        buffer.extend_from_slice(chunk);
        let closed: bool = chunk.len() == 0;
        let length: usize = buffer.len();
        if length < PREFIX_SIZE {
            return if closed {
                Err(ErrorKind::Truncated)
            } else {
                Ok(None)
            };
        }
        let total: u64 = read_u64(buffer.as_slice(), 0);
        if total > MAXIMUM_BUFFER_SIZE {
            Err(ErrorKind::FrameTooLarge)
        } else if (length as u64) < total {
            if closed {
                Err(ErrorKind::Truncated)
            } else {
                Ok(None)
            }
        } else if length as u64 == total {
            let payload: Vec<u8> = slice_to_vec(slice_subrange(buffer.as_slice(), PREFIX_SIZE, length));
            Ok(Some(payload))
        } else {
            Err(ErrorKind::Desync)
        }
    }

    /// Receives one frame from a stream whose reads return `reads`, one
    /// after the other, and which ends after the last of them: the payload
    /// of the frame, or the reason why there is none. A read that returns no
    /// bytes ends the stream too.
    pub fn receive(reads: &Vec<Vec<u8>>) -> (payload: Result<Vec<u8>, ErrorKind>)
        ensures
            match payload {
                Ok(data) => received_frame(reads.deep_view(), Seq::empty()) == Ok::<
                    Seq<u8>,
                    ErrorKind,
                >(data@),
                Err(error) => received_frame(reads.deep_view(), Seq::empty()) == Err::<
                    Seq<u8>,
                    ErrorKind,
                >(error),
            },
    {
        let mut buffer: Vec<u8> = Vec::new();
        let mut index: usize = 0;
        assert(reads.deep_view().skip(0) =~= reads.deep_view());
        while index < reads.len()
            invariant
                index <= reads.len(),
                received_frame(reads.deep_view(), Seq::empty()) == received_frame(
                    reads.deep_view().skip(index as int),
                    buffer@,
                ),
            decreases reads.len() - index,
        {
            proof {
                let rest = reads.deep_view().skip(index as int);
                assert(rest.first() == reads@[index as int]@);
                assert(rest.drop_first() =~= reads.deep_view().skip(index + 1));
            }
            match Self::advance(&mut buffer, reads[index].as_slice()) {
                Ok(Some(data)) => {
                    return Ok(data);
                },
                Ok(None) => {},
                Err(error) => {
                    return Err(error);
                },
            }
            index = index + 1;
        }
        Err(ErrorKind::Truncated)
    }
}

} // verus!
