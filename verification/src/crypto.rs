//! The proof of work: the work function, its difficulty and the search.
//!
//! The work hash of a secret and a nonce is the SHA-256 digest of the
//! SHA-256 digest of the secret's encoding followed by the nonce as 8 bytes,
//! most significant first. A nonce proves work at a difficulty if the work
//! hash starts with as many zero bytes as the difficulty asks for.

use crate::bytes::{
    be_bytes, lemma_be_bytes_injective, lemma_be_bytes_len, lemma_be_bytes_of_value,
    lemma_pow256_widths, push_u128, push_u64, read_u128,
};
use crate::encode::Serializer;
use crate::encode::Wire;
use crate::random::random_below;
use crypto::digest::Digest;
use crypto::sha2::Sha256;
use vstd::prelude::*;

verus! {

/// The number of bytes of a SHA-256 digest.
pub const DIGEST_SIZE: usize = 32;

/// The longest input, in bytes, that SHA-256 takes: its length in bits has
/// to fit 64 bits.
pub const MAXIMUM_INPUT_SIZE: u64 = 0x1FFF_FFFF_FFFF_FFFF;

/// The value that a server binds to a token: the input of the work function.
#[derive(Debug, Clone, Copy, PartialEq, Eq, Structural)]
pub struct Secret {
    pub value: u128,
}

impl View for Secret {
    type V = Secret;

    open spec fn view(&self) -> Secret {
        *self
    }
}

impl Wire for Secret {
    open spec fn encoding(value: Secret) -> Seq<u8> {
        be_bytes(value.value as nat, 16)
    }

    proof fn lemma_encoding_injective(a: Secret, b: Secret) {
        lemma_pow256_widths();
        lemma_be_bytes_injective(a.value as nat, b.value as nat, 16);
    }

    fn write(&self, buffer: &mut Vec<u8>) {
        push_u128(buffer, self.value);
    }

    fn read(data: &[u8]) -> (value: Option<Secret>) {
        if data.len() == 16 {
            let value: u128 = read_u128(data, 0);
            proof {
                lemma_be_bytes_of_value(data@);
                assert(data@.subrange(0, 16) =~= data@);
            }
            Some(Secret { value })
        } else {
            assert forall|m: Secret| #[trigger] Self::encoding(m) != data@ by {
                lemma_be_bytes_len(m.value as nat, 16);
            }
            None
        }
    }
}

/// How much work a proof has to show: the number of zero bytes that the work
/// hash has to start with.
#[derive(Debug, Clone, Copy, PartialEq, Eq, Structural)]
pub enum Difficulty {
    I,
    II,
    III,
    IV,
}

impl Difficulty {
    /// The number of leading zero bytes that the level asks for.
    pub open spec fn zero_bytes(self) -> nat {
        match self {
            Difficulty::I => 1,
            Difficulty::II => 2,
            Difficulty::III => 3,
            Difficulty::IV => 4,
        }
    }

    /// The number of leading zero bytes that the level asks for.
    pub fn into_number(&self) -> (number: usize)
        ensures
            number == self.zero_bytes(),
    {
        match *self {
            Difficulty::I => 1,
            Difficulty::II => 2,
            Difficulty::III => 3,
            Difficulty::IV => 4,
        }
    }
}

/// The SHA-256 digest of `data`.
pub uninterp spec fn sha256_digest(data: Seq<u8>) -> Seq<u8>;

/// SHA-256 as `crypto::sha2::Sha256` computes it: a new hasher takes `data`
/// in with `Digest::input` and writes the digest out with `Digest::result`.
/// The digest depends on `data` alone and has `DIGEST_SIZE` bytes. A hasher
/// counts its input in bits in 64 bits, so `data` is at most
/// `MAXIMUM_INPUT_SIZE` bytes long.
#[verifier::external_body]
fn sha256(data: &[u8]) -> (digest: Vec<u8>)
    requires
        data@.len() <= MAXIMUM_INPUT_SIZE,
    ensures
        digest@ == sha256_digest(data@),
        digest@.len() == DIGEST_SIZE,
{
    let mut hasher = Sha256::new();
    hasher.input(data);
    let mut digest = vec![0u8; hasher.output_bytes()];
    hasher.result(digest.as_mut_slice());
    digest
}

/// The work hash of a secret, given by its encoding, and a nonce.
pub open spec fn work_hash(secret: Seq<u8>, nonce: u64) -> Seq<u8> {
    sha256_digest(sha256_digest(secret + be_bytes(nonce as nat, 8)))
}

/// Whether `hash` starts with `count` zero bytes.
pub open spec fn leading_zero_bytes(hash: Seq<u8>, count: nat) -> bool {
    count <= hash.len() && forall|i: int| 0 <= i < count ==> hash[i] == 0
}

/// Whether `nonce` proves work for a secret, given by its encoding, at
/// `difficulty`.
pub open spec fn proves_work(secret: Seq<u8>, nonce: u64, difficulty: Difficulty) -> bool {
    leading_zero_bytes(work_hash(secret, nonce), difficulty.zero_bytes())
}

/// Whether `found` is what a search of up to `attempts` candidates comes to,
/// where `candidates` are the nonces that it drew, in the order in which it
/// tried them. Every candidate is a nonce below the largest. A search that
/// finds a nonce ends with it: the nonce is the last candidate and proves
/// work for the secret, given by its encoding, at `difficulty`, and no
/// candidate before it does. A search that finds none has tried `attempts`
/// candidates, and none of them proves work.
pub open spec fn is_search(
    secret: Seq<u8>,
    difficulty: Difficulty,
    attempts: u64,
    candidates: Seq<u64>,
    found: Option<u64>,
) -> bool {
    &&& candidates.len() <= attempts
    &&& forall|i: int| 0 <= i < candidates.len() ==> candidates[i] < u64::MAX
    &&& match found {
        Some(nonce) => {
            &&& candidates.len() > 0
            &&& candidates.last() == nonce
            &&& proves_work(secret, nonce, difficulty)
            &&& forall|i: int|
                0 <= i < candidates.len() - 1 ==> !proves_work(
                    secret,
                    #[trigger] candidates[i],
                    difficulty,
                )
        },
        None => {
            &&& candidates.len() == attempts
            &&& forall|i: int|
                0 <= i < candidates.len() ==> !proves_work(
                    secret,
                    #[trigger] candidates[i],
                    difficulty,
                )
        },
    }
}

/// Whether `hash` starts with `count` zero bytes.
pub fn has_leading_zero_bytes(hash: &[u8], count: usize) -> (all_zero: bool)
    ensures
        all_zero == leading_zero_bytes(hash@, count as nat),
{
    if count > hash.len() {
        return false;
    }
    let mut index: usize = 0;
    while index < count
        invariant
            index <= count <= hash@.len(),
            forall|i: int| 0 <= i < index ==> hash@[i] == 0,
        decreases count - index,
    {
        if hash[index] != 0 {
            return false;
        }
        index = index + 1;
    }
    true
}

/// A prover and verifier of work at one difficulty.
pub struct POW {
    difficulty: Difficulty,
}

impl POW {
    /// The difficulty at which servers and clients operate.
    pub const DEFAULT_DIFFICULTY: Difficulty = Difficulty::III;

    /// The difficulty at which this engine works.
    pub closed spec fn difficulty(&self) -> Difficulty {
        self.difficulty
    }

    /// An engine for `difficulty`.
    pub fn new(difficulty: Difficulty) -> (engine: POW)
        ensures
            engine.difficulty() == difficulty,
    {
        POW { difficulty }
    }

    /// Draws up to `attempts` nonces at random, tries each as it is drawn,
    /// and returns the first that proves work for `secret`; `None` once
    /// `attempts` of them have failed.
    pub fn find_nonce(&mut self, secret: &Secret, attempts: u64) -> (found: Option<u64>)
        ensures
            exists|candidates: Seq<u64>|
                is_search(
                    Secret::encoding(*secret),
                    old(self).difficulty(),
                    attempts,
                    candidates,
                    found,
                ),
            found matches Some(nonce) ==> nonce < u64::MAX && proves_work(
                Secret::encoding(*secret),
                nonce,
                old(self).difficulty(),
            ),
            attempts == 0 ==> found is None,
            *final(self) == *old(self),
    {
        let data: Vec<u8> = Serializer::serialize(secret);
        proof {
            lemma_be_bytes_len(secret.value as nat, 16);
        }
        let ghost mut tried: Seq<u64> = Seq::empty();
        let mut left: u64 = attempts;
        while left > 0
            invariant
                data@ == Secret::encoding(*secret),
                data@.len() == 16,
                *self == *old(self),
                left <= attempts,
                tried.len() == attempts - left,
                forall|i: int| 0 <= i < tried.len() ==> tried[i] < u64::MAX,
                forall|i: int|
                    0 <= i < tried.len() ==> !proves_work(data@, #[trigger] tried[i], self.difficulty()),
            decreases left,
        {
            let candidate: u64 = random_below(u64::MAX);
            let valid: bool = self.verify_nonce_(data.as_slice(), candidate);
            proof {
                tried = tried.push(candidate);
            }
            if valid {
                assert(is_search(data@, self.difficulty(), attempts, tried, Some(candidate)));
                return Some(candidate);
            }
            left = left - 1;
        }
        assert(is_search(data@, self.difficulty(), attempts, tried, None));
        None
    }

    /// Whether `nonce` proves work for `secret` at the engine's difficulty.
    pub fn verify_nonce(&mut self, secret: &Secret, nonce: u64) -> (valid: bool)
        ensures
            valid == proves_work(Secret::encoding(*secret), nonce, old(self).difficulty()),
            *final(self) == *old(self),
    {
        let data: Vec<u8> = Serializer::serialize(secret);
        proof {
            lemma_be_bytes_len(secret.value as nat, 16);
        }
        self.verify_nonce_(data.as_slice(), nonce)
    }

    /// Whether `nonce` proves work, at the engine's difficulty, for the
    /// secret whose encoding is `secret`.
    pub fn verify_nonce_(&mut self, secret: &[u8], nonce: u64) -> (valid: bool)
        requires
            secret@.len() + 8 <= MAXIMUM_INPUT_SIZE,
        ensures
            valid == proves_work(secret@, nonce, old(self).difficulty()),
            *final(self) == *old(self),
    {
        let mut buffer: Vec<u8> = Vec::new();
        buffer.extend_from_slice(secret);
        push_u64(&mut buffer, nonce);
        proof {
            lemma_be_bytes_len(nonce as nat, 8);
            assert(buffer@ =~= secret@ + be_bytes(nonce as nat, 8));
        }
        let zero_bytes_quantity: usize = self.difficulty.into_number();
        let first: Vec<u8> = sha256(buffer.as_slice());
        let result_hash: Vec<u8> = sha256(first.as_slice());
        has_leading_zero_bytes(result_hash.as_slice(), zero_bytes_quantity)
    }
}

} // verus!
