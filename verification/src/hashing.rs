//! Content hashes: BLAKE3 digests, written in lowercase hexadecimal.

use vstd::prelude::*;

verus! {

/// The character that stands for a hexadecimal digit, in lower case.
pub open spec fn hex_digit(v: int) -> char {
    if v == 0 {
        '0'
    } else if v == 1 {
        '1'
    } else if v == 2 {
        '2'
    } else if v == 3 {
        '3'
    } else if v == 4 {
        '4'
    } else if v == 5 {
        '5'
    } else if v == 6 {
        '6'
    } else if v == 7 {
        '7'
    } else if v == 8 {
        '8'
    } else if v == 9 {
        '9'
    } else if v == 10 {
        'a'
    } else if v == 11 {
        'b'
    } else if v == 12 {
        'c'
    } else if v == 13 {
        'd'
    } else if v == 14 {
        'e'
    } else {
        'f'
    }
}

/// Whether a character is a lowercase hexadecimal digit.
pub open spec fn is_hex_digit(c: char) -> bool {
    ('0' <= c && c <= '9') || ('a' <= c && c <= 'f')
}

/// Bytes in lowercase hexadecimal, the high half of each byte first.
pub open spec fn hex_text(bytes: Seq<u8>) -> Seq<char> {
    Seq::new(
        2 * bytes.len(),
        |i: int|
            if i % 2 == 0 {
                hex_digit(bytes[i / 2] as int / 16)
            } else {
                hex_digit(bytes[i / 2] as int % 16)
            },
    )
}

/// The BLAKE3 digest of `data`.
pub uninterp spec fn blake3_digest(data: Seq<u8>) -> Seq<u8>;

/// The bytes that a hasher has been fed so far.
pub uninterp spec fn hasher_input(hasher: blake3::Hasher) -> Seq<u8>;

/// The name under which content is stored: its BLAKE3 digest in hexadecimal.
pub open spec fn content_hash(data: Seq<u8>) -> Seq<char> {
    hex_text(blake3_digest(data))
}

/// Whether a text has the form of a content hash: 64 lowercase hexadecimal digits.
pub open spec fn is_content_hash(s: Seq<char>) -> bool {
    s.len() == 64 && forall|i: int| 0 <= i < 64 ==> is_hex_digit(#[trigger] s[i])
}

#[verifier::external_type_specification]
#[verifier::external_body]
pub struct ExHasher(blake3::Hasher);

/// Calls `blake3::hash`. The result is the digest of the whole input.
#[verifier::external_body]
fn blake3_hash(data: &[u8]) -> (r: [u8; 32])
    ensures
        r@ == blake3_digest(data@),
{
    *blake3::hash(data).as_bytes()
}

/// Calls `blake3::Hash::to_hex`. The result is the digest in lowercase
/// hexadecimal.
#[verifier::external_body]
fn blake3_hex(digest: [u8; 32]) -> (r: String)
    ensures
        r@ == hex_text(digest@),
{
    blake3::Hash::from_bytes(digest).to_hex().to_string()
}

/// Calls `hex::encode`. The result is the bytes in lowercase hexadecimal.
#[verifier::external_body]
fn hex_encode(bytes: &[u8]) -> (r: String)
    ensures
        r@ == hex_text(bytes@),
{
    hex::encode(bytes)
}

/// Calls `blake3::Hasher::new`. The hasher has been fed nothing.
#[verifier::external_body]
fn hasher_new() -> (r: blake3::Hasher)
    ensures
        hasher_input(r) == Seq::<u8>::empty(),
{
    blake3::Hasher::new()
}

/// Calls `blake3::Hasher::update`. The bytes are added behind those that the
/// hasher was fed before.
#[verifier::external_body]
fn hasher_update(hasher: &mut blake3::Hasher, data: &[u8])
    ensures
        hasher_input(*final(hasher)) == hasher_input(*old(hasher)) + data@,
{
    hasher.update(data);
}

/// Calls `blake3::Hasher::finalize`. The result is the digest of all that the
/// hasher was fed.
#[verifier::external_body]
fn hasher_finalize(hasher: &blake3::Hasher) -> (r: [u8; 32])
    ensures
        r@ == blake3_digest(hasher_input(*hasher)),
{
    *hasher.finalize().as_bytes()
}

proof fn lemma_hex_form(bytes: Seq<u8>)
    requires
        bytes.len() == 32,
    ensures
        is_content_hash(hex_text(bytes)),
{
}

/// The content hash of a piece of data.
pub fn hash_hex(data: &[u8]) -> (r: String)
    ensures
        r@ == content_hash(data@),
        is_content_hash(r@),
{
    let digest = blake3_hash(data);
    proof {
        lemma_hex_form(digest@);
    }
    blake3_hex(digest)
}

/// A content hash that is computed piece by piece.
pub struct StreamHasher {
    hasher: blake3::Hasher,
}

impl View for StreamHasher {
    type V = Seq<u8>;

    /// What has been fed to the hasher.
    closed spec fn view(&self) -> Seq<u8> {
        hasher_input(self.hasher)
    }
}

impl StreamHasher {
    /// A hasher that has been fed nothing.
    pub fn new() -> (r: Self)
        ensures
            r@ == Seq::<u8>::empty(),
    {
        StreamHasher { hasher: hasher_new() }
    }

    /// Feeds one more piece.
    pub fn update(&mut self, data: &[u8])
        ensures
            final(self)@ == old(self)@ + data@,
    {
        hasher_update(&mut self.hasher, data);
    }

    /// The content hash of all that was fed, as the server writes it.
    pub fn finish(&self) -> (r: String)
        ensures
            r@ == content_hash(self@),
            is_content_hash(r@),
    {
        let digest = hasher_finalize(&self.hasher);
        proof {
            lemma_hex_form(digest@);
        }
        blake3_hex(digest)
    }

    /// The content hash of all that was fed, as the desktop client writes it.
    pub fn finish_encoded(&self) -> (r: String)
        ensures
            r@ == content_hash(self@),
            is_content_hash(r@),
    {
        let digest = hasher_finalize(&self.hasher);
        proof {
            lemma_hex_form(digest@);
        }
        hex_encode(&digest)
    }
}

// ---- laws ----

/// The hash of content writes its whole digest out: two digits for each byte, in order, which
/// together are the value of the byte.
pub proof fn law_hash_writes_the_digest_out(data: Seq<u8>, i: int)
    requires
        0 <= i < blake3_digest(data).len(),
    ensures
        content_hash(data).len() == 2 * blake3_digest(data).len(),
        ({
            let high = content_hash(data)[2 * i];
            let low = content_hash(data)[2 * i + 1];
            let a = if high <= '9' {
                high as int - '0' as int
            } else {
                high as int - 'a' as int + 10
            };
            let b = if low <= '9' {
                low as int - '0' as int
            } else {
                low as int - 'a' as int + 10
            };
            &&& 0 <= a < 16
            &&& 0 <= b < 16
            &&& blake3_digest(data)[i] == 16 * a + b
        }),
{
    let byte = blake3_digest(data)[i] as int;
    assert(content_hash(data)[2 * i] == hex_digit(byte / 16));
    assert(content_hash(data)[2 * i + 1] == hex_digit(byte % 16));
    assert(0 <= byte / 16 < 16);
}

/// Two contents with different digests have different hashes.
pub proof fn law_hashes_tell_digests_apart(a: Seq<u8>, b: Seq<u8>)
    requires
        content_hash(a) == content_hash(b),
    ensures
        blake3_digest(a) == blake3_digest(b),
{
    let x = blake3_digest(a);
    let y = blake3_digest(b);
    assert(content_hash(a).len() == 2 * x.len());
    assert(content_hash(b).len() == 2 * y.len());
    assert forall|i: int| 0 <= i < x.len() implies x[i] == y[i] by {
        law_hash_writes_the_digest_out(a, i);
        law_hash_writes_the_digest_out(b, i);
    }
    assert(x =~= y);
}

/// A content hash has 64 characters, each a digit or one of the letters from `a` to `f`.
pub proof fn law_form_of_content_hashes(s: Seq<char>, i: int)
    requires
        is_content_hash(s),
        0 <= i < 64,
    ensures
        s.len() == 64,
        ('0' <= s[i] && s[i] <= '9') || ('a' <= s[i] && s[i] <= 'f'),
{
    assert(is_hex_digit(s[i]));
}

} // verus!
