//! Hex encoding and the SHA-256 digests the server keeps of device tokens and
//! uploaded content.
use vstd::prelude::*;
use vstd::string::StringSliceAdditionalSpecFns;

verus! {

/// The lower-case hex digit of a value below 16.
pub open spec fn hex_digit(n: u8) -> char {
    if n < 10 {
        ((n + 48) as u8) as char
    } else {
        ((n + 87) as u8) as char
    }
}

/// Each byte as two lower-case hex digits, high nibble first.
pub open spec fn hex_of(bytes: Seq<u8>) -> Seq<char>
    decreases bytes.len(),
{
    if bytes.len() == 0 {
        Seq::<char>::empty()
    } else {
        hex_of(bytes.drop_last()).push(hex_digit(bytes.last() / 16)).push(
            hex_digit(bytes.last() % 16),
        )
    }
}

pub proof fn lemma_hex_len(bytes: Seq<u8>)
    ensures
        hex_of(bytes).len() == 2 * bytes.len(),
    decreases bytes.len(),
{
    if bytes.len() > 0 {
        lemma_hex_len(bytes.drop_last());
    }
}

fn hex_char(n: u8) -> (c: char)
    requires
        n < 16,
    ensures
        c == hex_digit(n),
{
    if n < 10 {
        (n + 48) as char
    } else {
        (n + 87) as char
    }
}

/// Encodes bytes as lower-case hex.
pub fn hex_bytes(bytes: &[u8]) -> (r: String)
    ensures
        r@ == hex_of(bytes@),
{
    let mut out: Vec<char> = Vec::new();
    let mut i: usize = 0;
    while i < bytes.len()
        invariant
            i <= bytes.len(),
            out@ == hex_of(bytes@.take(i as int)),
        decreases bytes.len() - i,
    {
        let b = bytes[i];
        out.push(hex_char(b / 16));
        out.push(hex_char(b % 16));
        proof {
            assert(bytes@.take(i + 1).drop_last() =~= bytes@.take(i as int));
            assert(bytes@.take(i + 1).last() == b);
        }
        i += 1;
    }
    assert(bytes@.take(bytes.len() as int) =~= bytes@);
    crate::text::string_of(&out)
}

/// What `sha2::Sha256::digest` returns for the given bytes.
pub uninterp spec fn sha256_digest(data: Seq<u8>) -> Seq<u8>;

/// Calls `sha2::Sha256::digest` and copies its 32 bytes out. Trusted: the
/// result is `sha256_digest` of the input, 32 bytes long.
#[verifier::external_body]
fn sha256_of(data: &[u8]) -> (r: Vec<u8>)
    ensures
        r@ == sha256_digest(data@),
        r@.len() == 32,
{
    <sha2::Sha256 as sha2::Digest>::digest(data).to_vec()
}

/// The SHA-256 digest of bytes, in lower-case hex.
pub fn sha256_hex(data: &[u8]) -> (r: String)
    ensures
        r@ == hex_of(sha256_digest(data@)),
        r@.len() == 64,
{
    let d = sha256_of(data);
    proof {
        lemma_hex_len(d@);
    }
    hex_bytes(d.as_slice())
}

/// What the server stores of a device token: the hex SHA-256 of its UTF-8
/// bytes.
pub fn hash_token(token: &str) -> (r: String)
    ensures
        r@ == hex_of(sha256_digest(token.spec_bytes())),
{
    sha256_hex(token.as_bytes())
}

// ---------------------------------------------------------------------------
// Hashing a stream
// ---------------------------------------------------------------------------

/// A `sha2::Sha256` hasher fed with a stream of bytes. (Verus does not take
/// a declaration of `sha2::Sha256` itself, a type alias of a generic type,
/// so the hasher is held here, out of Verus's sight.)
#[verifier::external_body]
#[derive(Debug)]
pub struct StreamHasher {
    inner: sha2::Sha256,
}

/// The bytes a hasher has been fed so far.
pub uninterp spec fn stream_input(hasher: StreamHasher) -> Seq<u8>;

/// `sha2::Sha256::new()`. Trusted: a new hasher has been fed nothing.
#[verifier::external_body]
fn stream_start() -> (r: StreamHasher)
    ensures
        stream_input(r) == Seq::<u8>::empty(),
{
    StreamHasher { inner: <sha2::Sha256 as sha2::Digest>::new() }
}

/// `Digest::update`. Trusted: the hasher has then been fed the bytes too.
#[verifier::external_body]
fn stream_update(hasher: &mut StreamHasher, data: &[u8])
    ensures
        stream_input(*final(hasher)) == stream_input(*old(hasher)) + data@,
{
    sha2::Digest::update(&mut hasher.inner, data);
}

/// `Digest::finalize` of a copy of the hasher. Trusted: the digest is that
/// of all the bytes fed, as `sha2::Sha256::digest` gives it at once.
#[verifier::external_body]
fn stream_finish(hasher: &StreamHasher) -> (r: Vec<u8>)
    ensures
        r@ == sha256_digest(stream_input(*hasher)),
        r@.len() == 32,
{
    sha2::Digest::finalize(hasher.inner.clone()).to_vec()
}

impl StreamHasher {
    /// A hasher fed nothing yet.
    pub fn new() -> (r: Self)
        ensures
            stream_input(r) == Seq::<u8>::empty(),
    {
        stream_start()
    }

    /// Feeds the next bytes of the stream.
    pub fn feed(&mut self, data: &[u8])
        ensures
            stream_input(*final(self)) == stream_input(*old(self)) + data@,
    {
        stream_update(self, data)
    }

    /// The SHA-256 of everything fed so far, in lower-case hex.
    pub fn hex(&self) -> (r: String)
        ensures
            r@ == hex_of(sha256_digest(stream_input(*self))),
            r@.len() == 64,
    {
        let d = stream_finish(self);
        proof {
            lemma_hex_len(d@);
        }
        hex_bytes(d.as_slice())
    }
}

} // verus!
