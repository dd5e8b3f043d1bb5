//! Content fingerprints: SHA-256 over the bytes of a file, fed in chunks, with
//! a chance to stop between any two chunks.

use vstd::prelude::*;
use sha2::Digest;

verus! {

/// The SHA-256 digest of `data`, written as 64 lower-case hexadecimal digits.
pub uninterp spec fn sha256_hex(data: Seq<u8>) -> Seq<char>;

/// The bytes that a hasher has taken in so far, in the order in which they
/// came.
pub uninterp spec fn absorbed(hasher: ContentHasher) -> Seq<u8>;

/// A running SHA-256 computation of the `sha2` crate. Verus does not look
/// inside: what is known of it is what `absorbed` says.
#[verifier::external_body]
pub struct ContentHasher {
    state: sha2::Sha256,
}

impl View for ContentHasher {
    type V = Seq<u8>;

    open spec fn view(&self) -> Seq<u8> {
        absorbed(*self)
    }
}

/// `sha2::Sha256::new`: a hasher that has taken in nothing.
#[verifier::external_body]
fn sha256_new() -> (hasher: ContentHasher)
    ensures
        absorbed(hasher) == Seq::<u8>::empty(),
{
    ContentHasher { state: sha2::Sha256::new() }
}

/// `sha2::Sha256::update`: the hasher takes in `data` after what it has
/// already taken in.
#[verifier::external_body]
fn sha256_update(hasher: &mut ContentHasher, data: &[u8])
    ensures
        absorbed(*final(hasher)) == absorbed(*old(hasher)) + data@,
{
    hasher.state.update(data);
}

/// `sha2::Sha256::finalize`, formatted with `{:x}`: the digest of all that
/// the hasher has taken in, as lower-case hexadecimal digits.
#[verifier::external_body]
fn sha256_finalize_hex(hasher: ContentHasher) -> (hex: String)
    ensures
        hex@ == sha256_hex(absorbed(hasher)),
{
    format!("{:x}", hasher.state.finalize())
}

/// What the reader hands to the hasher: the request to stop, or the bytes of
/// the next read. A read of no bytes is the end of the file.
pub enum HashInput<'a> {
    Stop,
    Chunk(&'a [u8]),
}

/// Where hashing stands after an input.
pub enum HashStep {
    /// Hashing was stopped; there is no fingerprint.
    Canceled,
    /// The chunk was taken in; more is expected.
    More(ContentHasher),
    /// The file has ended; this is its fingerprint.
    Done(String),
}

impl ContentHasher {
    /// Starts the fingerprint of a file.
    pub fn start() -> (hasher: Self)
        ensures
            hasher@ == Seq::<u8>::empty(),
    {
        sha256_new()
    }

    /// Takes one input: stops on request, ends at a read of no bytes, and
    /// otherwise takes the chunk in.
    pub fn step(self, input: HashInput<'_>) -> (next: HashStep)
        ensures
            match input {
                HashInput::Stop => next is Canceled,
                HashInput::Chunk(bytes) => if bytes@.len() == 0 {
                    next matches HashStep::Done(hex) && hex@ == sha256_hex(self@)
                } else {
                    next matches HashStep::More(hasher) && hasher@ == self@ + bytes@
                },
            },
    {
        match input {
            HashInput::Stop => HashStep::Canceled,
            HashInput::Chunk(bytes) => {
                if bytes.len() == 0 {
                    HashStep::Done(sha256_finalize_hex(self))
                } else {
                    let mut hasher = self;
                    sha256_update(&mut hasher, bytes);
                    HashStep::More(hasher)
                }
            },
        }
    }
}

} // verus!
