//! Content fingerprints: the lowercase hexadecimal MD5 digest of a file's bytes.
use vstd::prelude::*;
use crate::naming::{canonical_name, canonical_name_of, is_fingerprint, lemma_lower_hex_is_fingerprint, lower_hex, to_lower_hex};

verus! {

/// The MD5 digest of a byte string.
pub uninterp spec fn md5_of(data: Seq<u8>) -> Seq<u8>;

/// Relies on md5::compute: the MD5 digest of the data, as its 16 bytes.
#[verifier::external_body]
fn md5_digest(data: &Vec<u8>) -> (r: Vec<u8>)
    ensures
        r@ == md5_of(data@),
        r@.len() == 16,
{
    md5::compute(data).0.to_vec()
}

/// The fingerprint of a file's contents.
pub open spec fn fingerprint_of(contents: Seq<u8>) -> Seq<u8> {
    lower_hex(md5_of(contents))
}

/// The fingerprint of `contents`: 32 lowercase hexadecimal digits.
pub fn fingerprint(contents: &Vec<u8>) -> (r: Vec<u8>)
    ensures
        r@ == fingerprint_of(contents@),
        is_fingerprint(r@),
{
    let digest = md5_digest(contents);
    proof {
        lemma_lower_hex_is_fingerprint(digest@);
    }
    to_lower_hex(&digest)
}

/// The canonical name of a file called `name` whose contents are `contents`.
pub fn target_name(name: &Vec<u8>, contents: &Vec<u8>) -> (r: Vec<u8>)
    ensures
        r@ == canonical_name_of(name@, fingerprint_of(contents@)),
{
    let fp = fingerprint(contents);
    canonical_name(name, &fp)
}

} // verus!
