//! SHA-256 digests and their lowercase hexadecimal text.

use vstd::prelude::*;
use sha2::{Digest, Sha256};
use crate::domain::{is_lower_hex_char, is_sha256_hex};
use crate::text::push_char;

verus! {

/// The SHA-256 digest of `bytes`, as the `sha2` crate computes it.
pub uninterp spec fn sha256_of(bytes: Seq<u8>) -> Seq<u8>;

/// `Sha256::digest(bytes)`: the 32 bytes of the SHA-256 digest.
#[verifier::external_body]
fn sha256_bytes(bytes: &[u8]) -> (d: Vec<u8>)
    ensures
        d@ == sha256_of(bytes@),
        d@.len() == 32,
{
    Sha256::digest(bytes).to_vec()
}

/// The lowercase hexadecimal digit of a nibble.
pub open spec fn hex_char(n: u8) -> char {
    if n < 10 {
        (48 + n) as char
    } else {
        (87 + n) as char
    }
}

/// The lowercase hexadecimal text of `bytes`, two digits per byte, most
/// significant nibble first.
pub open spec fn hex_text(bytes: Seq<u8>) -> Seq<char>
    decreases bytes.len(),
{
    if bytes.len() == 0 {
        Seq::empty()
    } else {
        hex_text(bytes.drop_last()).push(hex_char(bytes.last() / 16)).push(hex_char(bytes.last() % 16))
    }
}

proof fn lemma_hex_text(bytes: Seq<u8>)
    ensures
        hex_text(bytes).len() == 2 * bytes.len(),
        forall|i: int| 0 <= i < hex_text(bytes).len() ==> is_lower_hex_char(#[trigger] hex_text(bytes)[i]),
    decreases bytes.len(),
{
    if bytes.len() > 0 {
        lemma_hex_text(bytes.drop_last());
        let h = hex_text(bytes.drop_last());
        let b = bytes.last();
        assert forall|i: int| 0 <= i < hex_text(bytes).len() implies is_lower_hex_char(
            #[trigger] hex_text(bytes)[i],
        ) by {
            if i < h.len() {
                assert(hex_text(bytes)[i] == h[i]);
            }
        }
    }
}

/// The lowercase hexadecimal text of `bytes`.
pub fn hex_encode(bytes: &[u8]) -> (s: String)
    ensures
        s@ == hex_text(bytes@),
{
    let mut s = String::new();
    let mut i: usize = 0;
    while i < bytes.len()
        invariant
            i <= bytes.len(),
            s@ == hex_text(bytes@.take(i as int)),
        decreases bytes.len() - i,
    {
        let b = bytes[i];
        let hi = b / 16;
        let lo = b % 16;
        push_char(&mut s, if hi < 10 { (48 + hi) as char } else { (87 + hi) as char });
        push_char(&mut s, if lo < 10 { (48 + lo) as char } else { (87 + lo) as char });
        assert(bytes@.take(i + 1).drop_last() =~= bytes@.take(i as int));
        i = i + 1;
    }
    assert(bytes@.take(bytes@.len() as int) =~= bytes@);
    s
}

/// The lowercase hexadecimal SHA-256 digest of `bytes`: 64 characters.
pub fn sha256_hex(bytes: &[u8]) -> (s: String)
    ensures
        s@ == hex_text(sha256_of(bytes@)),
        is_sha256_hex(s@),
{
    let d = sha256_bytes(bytes);
    proof {
        lemma_hex_text(d@);
    }
    hex_encode(d.as_slice())
}

/// A SHA-256 computation in progress (a `sha2::Sha256` hasher), fed the
/// content in chunks as it is read, so that large content is never held
/// in memory whole.
#[verifier::external_body]
pub struct Sha256State {
    inner: Sha256,
}

/// The bytes fed to a SHA-256 computation so far, in order.
pub uninterp spec fn absorbed(h: &Sha256State) -> Seq<u8>;

impl Sha256State {
    /// `Sha256::new()`: a hasher that has absorbed nothing.
    #[verifier::external_body]
    pub fn new() -> (h: Sha256State)
        ensures
            absorbed(&h) == Seq::<u8>::empty(),
    {
        Sha256State { inner: Sha256::new() }
    }

    /// `Digest::update(chunk)`: the hasher has absorbed `chunk` after what
    /// it had absorbed before.
    #[verifier::external_body]
    pub fn update(&mut self, chunk: &[u8])
        ensures
            absorbed(&*final(self)) == absorbed(&*old(self)) + chunk@,
    {
        self.inner.update(chunk);
    }

    /// `Digest::finalize()`: the 32-byte digest of everything absorbed, the
    /// same digest `Sha256::digest` gives for those bytes at once (`sha2`
    /// buffers the input in blocks, so how it was split into chunks does
    /// not matter).
    #[verifier::external_body]
    fn finish(self) -> (d: Vec<u8>)
        ensures
            d@ == sha256_of(absorbed(&self)),
            d@.len() == 32,
    {
        self.inner.finalize().to_vec()
    }

    /// The lowercase hexadecimal SHA-256 digest of everything absorbed: 64
    /// characters, the same text `sha256_hex` gives for those bytes.
    pub fn finish_hex(self) -> (s: String)
        ensures
            s@ == hex_text(sha256_of(absorbed(&self))),
            is_sha256_hex(s@),
    {
        let d = self.finish();
        proof {
            lemma_hex_text(d@);
        }
        hex_encode(d.as_slice())
    }
}

} // verus!
