//! The keyed MAC that authenticates an encrypted payload.
//!
//! The MAC is HMAC with SHA-512, computed by the `hmac` and `sha2` crates. An
//! authenticated payload is the ciphertext followed by its tag.

use vstd::prelude::*;
use vstd::slice::*;
use hmac::Mac;
use crate::decrypt::Decrypt;

verus! {

/// The tag that HMAC-SHA-512 gives to `data` under `key`.
pub uninterp spec fn hmac_sha512(key: Seq<u8>, data: Seq<u8>) -> Seq<u8>;

/// Computes the tag of `data` under `key` with `Hmac<Sha512>` and compares
/// it with `tag` by `Mac::verify_slice`.
///
/// Trusted: the outcome says whether `tag` is the MAC of `data`; the
/// comparison accepts no tag whose length is not the sixty-four bytes of the
/// hash's output. A key of any length is taken.
#[verifier::external_body]
fn hmac_sha512_matches(key: &[u8], data: &[u8], tag: &[u8]) -> (valid: bool)
    ensures
        valid == (tag@ == hmac_sha512(key@, data@)),
        valid ==> tag@.len() == 64,
{
    let mut mac = hmac::Hmac::<sha2::Sha512>::new_from_slice(key).expect(
        "HMAC can take key of any size",
    );
    mac.update(data);
    mac.verify_slice(tag).is_ok()
}

/// What checking an authenticated payload gives: the payload without its
/// tag where the tag is the MAC of what stands before it, and else the words
/// that say why not.
pub open spec fn verify_hmac_spec(key: Seq<u8>, data_with_hmac: Seq<u8>, hmac_len: nat) -> Result<
    Seq<u8>,
    Seq<char>,
> {
    if data_with_hmac.len() < hmac_len {
        Err("Data is too short for HMAC verification"@)
    } else {
        let data = data_with_hmac.subrange(0, data_with_hmac.len() - hmac_len);
        let tag = data_with_hmac.subrange(
            data_with_hmac.len() - hmac_len,
            data_with_hmac.len() as int,
        );
        if tag == hmac_sha512(key, data) {
            Ok(data)
        } else {
            Err("HMAC verification failed"@)
        }
    }
}

/// The result of a check, with bytes and words taken as sequences.
pub open spec fn mac_result_view(result: Result<Vec<u8>, &'static str>) -> Result<
    Seq<u8>,
    Seq<char>,
> {
    match result {
        Ok(data) => Ok(data@),
        Err(words) => Err(words@),
    }
}

impl Decrypt {
    /// Checks the tag that the last `hmac_len` bytes of `data_with_hmac`
    /// hold against the MAC of what stands before them, and returns what
    /// stands before them.
    pub fn verify_hmac(&self, key: &[u8], data_with_hmac: &[u8], hmac_len: usize) -> (checked:
        Result<Vec<u8>, &'static str>)
        ensures
            mac_result_view(checked) == verify_hmac_spec(key@, data_with_hmac@, hmac_len as nat),
    {
        if data_with_hmac.len() < hmac_len {
            return Err("Data is too short for HMAC verification");
        }
        let split: usize = data_with_hmac.len() - hmac_len;
        let data = slice_subrange(data_with_hmac, 0, split);
        let tag = slice_subrange(data_with_hmac, split, data_with_hmac.len());
        if hmac_sha512_matches(key, data, tag) {
            Ok(slice_to_vec(data))
        } else {
            Err("HMAC verification failed")
        }
    }
}

/// A payload followed by its own MAC passes the check and comes back
/// unchanged.
pub proof fn lemma_mac_accepts_own_tag(key: Seq<u8>, data: Seq<u8>)
    ensures
        verify_hmac_spec(key, data + hmac_sha512(key, data), hmac_sha512(key, data).len()) == Ok::<
            Seq<u8>,
            Seq<char>,
        >(data),
{
    let tag = hmac_sha512(key, data);
    let whole = data + tag;
    assert(whole.subrange(0, whole.len() - tag.len()) =~= data);
    assert(whole.subrange(whole.len() - tag.len(), whole.len() as int) =~= tag);
}

/// A payload followed by a tag passes the check exactly where the tag is
/// the payload's MAC. A tag with a changed byte therefore fails, and so does
/// a changed payload unless the change leaves its MAC as it was.
pub proof fn lemma_mac_accepts_only_own_tag(key: Seq<u8>, data: Seq<u8>, tag: Seq<u8>)
    ensures
        verify_hmac_spec(key, data + tag, tag.len()) is Ok <==> tag == hmac_sha512(key, data),
        tag != hmac_sha512(key, data) ==> verify_hmac_spec(key, data + tag, tag.len()) == Err::<
            Seq<u8>,
            Seq<char>,
        >("HMAC verification failed"@),
{
    let whole = data + tag;
    assert(whole.subrange(0, whole.len() - tag.len()) =~= data);
    assert(whole.subrange(whole.len() - tag.len(), whole.len() as int) =~= tag);
}

/// Changing one byte of the tag of an authenticated payload makes the
/// check fail.
pub proof fn lemma_mac_rejects_changed_tag(key: Seq<u8>, data: Seq<u8>, at: int, byte: u8)
    requires
        0 <= at < hmac_sha512(key, data).len(),
        byte != hmac_sha512(key, data)[at],
    ensures
        verify_hmac_spec(
            key,
            data + hmac_sha512(key, data).update(at, byte),
            hmac_sha512(key, data).len(),
        ) is Err,
{
    let changed = hmac_sha512(key, data).update(at, byte);
    assert(changed[at] != hmac_sha512(key, data)[at]);
    lemma_mac_accepts_only_own_tag(key, data, changed);
}

/// Changing one byte of the payload makes the check fail, unless the
/// change leaves the payload's MAC as it was.
pub proof fn lemma_mac_rejects_changed_data(key: Seq<u8>, data: Seq<u8>, at: int, byte: u8)
    requires
        0 <= at < data.len(),
        byte != data[at],
        hmac_sha512(key, data.update(at, byte)) != hmac_sha512(key, data),
    ensures
        verify_hmac_spec(
            key,
            data.update(at, byte) + hmac_sha512(key, data),
            hmac_sha512(key, data).len(),
        ) is Err,
{
    lemma_mac_accepts_only_own_tag(key, data.update(at, byte), hmac_sha512(key, data));
}

} // verus!
