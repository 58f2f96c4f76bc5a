//! SHA-256 integrity digests of file contents, rendered as lowercase hex.

use vstd::prelude::*;
use crate::models::FileMetadata;
use crate::offer::{is_ascii_hex_byte, is_hex_digest_text};
use crate::text::{hex_char, hex_digit, push_text, string_of, text_eq};

verus! {

/// The SHA-256 digest of `data` (32 bytes).
pub uninterp spec fn sha256_digest(data: Seq<u8>) -> Seq<u8>;

/// The bytes fed so far into a running SHA-256 computation.
pub uninterp spec fn sha256_absorbed(h: &Sha256Stream) -> Seq<u8>;

/// A running SHA-256 computation over a byte stream fed in pieces.
#[verifier::external_body]
pub struct Sha256Stream {
    inner: sha2::Sha256,
}

impl Sha256Stream {
    /// Starts a digest over the empty stream (`sha2::Digest::new`).
    #[verifier::external_body]
    pub fn new() -> (h: Self)
        ensures
            sha256_absorbed(&h) == Seq::<u8>::empty(),
    {
        Sha256Stream { inner: <sha2::Sha256 as sha2::Digest>::new() }
    }

    /// Feeds `data` after what was fed before (`sha2::Digest::update`).
    #[verifier::external_body]
    pub fn update(&mut self, data: &[u8])
        ensures
            sha256_absorbed(final(self)) == sha256_absorbed(old(self)) + data@,
    {
        sha2::Digest::update(&mut self.inner, data)
    }

    /// The digest of everything fed (`sha2::Digest::finalize`).
    #[verifier::external_body]
    pub fn finalize(self) -> (d: Vec<u8>)
        ensures
            d@ == sha256_digest(sha256_absorbed(&self)),
            d@.len() == 32,
    {
        sha2::Digest::finalize(self.inner).to_vec()
    }
}

/// Lowercase hexadecimal notation of `b`, two digits per byte (what the
/// `{:x}` format of a digest gives).
pub open spec fn hex_text(b: Seq<u8>) -> Seq<char>
    decreases b.len(),
{
    if b.len() == 0 {
        Seq::empty()
    } else {
        hex_text(b.drop_last()) + seq![hex_char((b.last() / 16) as nat), hex_char((b.last() % 16) as nat)]
    }
}

/// Lowercase hexadecimal notation of `b`.
pub fn lower_hex(b: &Vec<u8>) -> (r: String)
    ensures
        r@ == hex_text(b@),
{
    let mut out: Vec<char> = Vec::new();
    let mut i: usize = 0;
    while i < b.len()
        invariant
            i <= b@.len(),
            out@ == hex_text(b@.take(i as int)),
        decreases b.len() - i,
    {
        let x = b[i];
        out.push(hex_digit((x / 16) as u64));
        out.push(hex_digit((x % 16) as u64));
        i = i + 1;
        assert(b@.take(i as int).drop_last() == b@.take(i - 1));
    }
    assert(b@.take(b@.len() as int) == b@);
    string_of(&out)
}

/// The digest of everything fed to `h`, in lowercase hexadecimal: 64
/// characters, as an offer's digest text must be.
pub fn digest_hex(h: Sha256Stream) -> (r: String)
    ensures
        r@ == hex_text(sha256_digest(sha256_absorbed(&h))),
        is_hex_digest_text(r@),
{
    let d = h.finalize();
    proof {
        lemma_digest_hex_is_digest_text(d@);
    }
    lower_hex(&d)
}

/// The hexadecimal notation of `b` has two characters per byte.
pub proof fn lemma_hex_text_len(b: Seq<u8>)
    ensures
        hex_text(b).len() == 2 * b.len(),
    decreases b.len(),
{
    if b.len() > 0 {
        lemma_hex_text_len(b.drop_last());
    }
}

/// Every character of a hexadecimal notation is an ASCII hexadecimal digit.
pub proof fn lemma_hex_text_chars(b: Seq<u8>)
    ensures
        forall|i: int| 0 <= i < hex_text(b).len() ==> {
            let c = #[trigger] hex_text(b)[i];
            &&& ('0' <= c && c <= '9') || ('a' <= c && c <= 'f')
            &&& is_ascii_hex_byte(c as u8)
        },
    decreases b.len(),
{
    if b.len() > 0 {
        lemma_hex_text_chars(b.drop_last());
        lemma_hex_text_len(b.drop_last());
        let p = hex_text(b.drop_last());
        let hi = hex_char((b.last() / 16) as nat);
        let lo = hex_char((b.last() % 16) as nat);
        assert(('0' <= hi && hi <= '9') || ('a' <= hi && hi <= 'f'));
        assert(('0' <= lo && lo <= '9') || ('a' <= lo && lo <= 'f'));
        assert(hex_text(b) == p + seq![hi, lo]);
    }
}

/// The hexadecimal notation of a SHA-256 digest is shaped as an offer's
/// digest text must be.
pub proof fn lemma_digest_hex_is_digest_text(d: Seq<u8>)
    requires
        d.len() == 32,
    ensures
        is_hex_digest_text(hex_text(d)),
{
    let t = hex_text(d);
    lemma_hex_text_len(d);
    lemma_hex_text_chars(d);
    assert(vstd::utf8::is_ascii_chars(t));
    vstd::utf8::is_ascii_chars_encode_utf8(t);
}

/// Checks a received file against its announced digest: the digest of the
/// bytes fed to `h`, in lowercase hexadecimal, must equal the announced text.
pub fn check_received_digest(expected: &FileMetadata, h: Sha256Stream) -> (r: Result<(), String>)
    ensures
        hex_text(sha256_digest(sha256_absorbed(&h))) == expected.sha256@ ==> r is Ok,
        hex_text(sha256_digest(sha256_absorbed(&h))) != expected.sha256@ ==> (r matches Err(m)
            && m@ == expected.name@ + " failed its integrity check"@),
{
    let actual = digest_hex(h);
    if text_eq(actual.as_str(), expected.sha256.as_str()) {
        Ok(())
    } else {
        let mut m: Vec<char> = Vec::new();
        push_text(&mut m, expected.name.as_str());
        push_text(&mut m, " failed its integrity check");
        Err(string_of(&m))
    }
}

} // verus!
