//! The digest function and the clock, shared by transactions, blocks and the
//! chain.

use vstd::prelude::*;
use vstd::string::StringExecFns;
use vstd::string::StringSliceAdditionalSpecFns;
use vstd::utf8::encode_utf8;

verus! {

/// Number of hexadecimal characters in every digest.
pub const DIGEST_LEN: usize = 64;

/// A lower-case hexadecimal digit.
pub open spec fn is_lower_hex(c: char) -> bool {
    ('0' <= c && c <= '9') || ('a' <= c && c <= 'f')
}

/// The shape of every digest: `DIGEST_LEN` lower-case hexadecimal digits.
pub open spec fn is_digest(text: Seq<char>) -> bool {
    &&& text.len() == DIGEST_LEN
    &&& forall|i: int| 0 <= i < text.len() ==> is_lower_hex(#[trigger] text[i])
}

/// The SHA-256 hash of `data`, written as hexadecimal text: what
/// `crypto_hash::hex_digest` returns for `Algorithm::SHA256` and `data`.
pub uninterp spec fn sha256_hex(data: Seq<u8>) -> Seq<char>;

/// The digest of an ordered list of strings: the hash of their concatenation,
/// in order and without separators, encoded as UTF-8.
pub open spec fn digest_of(strings: Seq<Seq<char>>) -> Seq<char> {
    sha256_hex(encode_utf8(strings.flatten()))
}

/// Calls `crypto_hash::hex_digest` with `Algorithm::SHA256`. Trusted: the
/// result is the SHA-256 hash of `data`, a function of the bytes alone, and
/// it is written as 64 lower-case hexadecimal digits.
#[verifier::external_body]
fn sha256_hex_digest(data: &[u8]) -> (digest: String)
    ensures
        digest@ == sha256_hex(data@),
        is_digest(digest@),
{
    crypto_hash::hex_digest(crypto_hash::Algorithm::SHA256, data)
}

/// Calls `chrono::Utc::now` and `DateTime::timestamp`: the current instant in
/// whole seconds since the Unix epoch. Trusted, with nothing claimed of the
/// value read.
#[verifier::external_body]
pub(crate) fn now() -> (timestamp: i64) {
    chrono::Utc::now().timestamp()
}

/// The digest function: concatenates `strings` in order and hashes the
/// result.
pub fn hash_strings(strings: &Vec<String>) -> (digest: String)
    ensures
        digest@ == digest_of(strings.deep_view()),
        is_digest(digest@),
{
    let mut data = String::new();
    let mut i: usize = 0;
    while i < strings.len()
        invariant
            i <= strings.len(),
            data@ == strings.deep_view().take(i as int).flatten(),
        decreases strings.len() - i,
    {
        data.append(strings[i].as_str());
        proof {
            let all = strings.deep_view();
            assert(all.take(i as int + 1) =~= all.take(i as int).push(all[i as int]));
            all.take(i as int).lemma_flatten_push(all[i as int]);
        }
        i += 1;
    }
    assert(strings.deep_view().take(i as int) =~= strings.deep_view());
    sha256_hex_digest(data.as_str().as_bytes())
}

/// A value that is reduced to a digest over an ordered list of its fields.
pub trait Hashing: Sized {
    /// The fields that enter the digest, in order.
    spec fn hashing_strings(&self) -> Seq<Seq<char>>;

    /// Produces the fields that enter the digest, in order.
    fn get_hashing_strings(&self) -> (strings: Vec<String>)
        ensures
            strings.deep_view() == self.hashing_strings(),
    ;

    /// The digest of the value's fields as they stand. The value itself is
    /// left as it was.
    fn generate_hash(&mut self) -> (digest: String)
        ensures
            *final(self) == *old(self),
            digest@ == digest_of(old(self).hashing_strings()),
            is_digest(digest@),
    {
        let strings = self.get_hashing_strings();
        hash_strings(&strings)
    }
}

} // verus!
