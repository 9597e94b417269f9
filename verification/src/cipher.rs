//! The two symmetric ciphers that a payload may be encrypted with.
//!
//! The block cipher is AES-256 from the `aes` crate, applied to each block of
//! sixteen bytes on its own; the stream cipher is XChaCha20 from the
//! `chacha20` crate. After decryption the zero bytes at the end of the
//! plaintext are taken for padding and removed, so a plaintext that itself
//! ends in zero bytes does not come back whole.

use vstd::prelude::*;
use vstd::slice::*;
use aes::cipher::BlockDecrypt;
use aes::cipher::KeyInit;
use chacha20::cipher::KeyIvInit;
use chacha20::cipher::StreamCipher;
use crate::bytes::append_bytes;
use crate::decrypt::Decrypt;
use crate::error::CryptError;

verus! {

/// The length of a key of either cipher.
pub const CIPHER_KEY_BYTES: usize = 32;

/// The length of a block of the block cipher.
pub const BLOCK_BYTES: usize = 16;

/// The most bytes that the stream cipher encrypts under one key and nonce:
/// its block counter has thirty-two bits and a block has sixty-four bytes.
pub const STREAM_LIMIT: u64 = 274877906880;

/// What AES-256 decrypts one block of sixteen bytes to under a key.
pub uninterp spec fn aes256_decrypt_block(key: Seq<u8>, block: Seq<u8>) -> Seq<u8>;

/// What XChaCha20 turns `data` into under a key and a nonce: the bytes of
/// `data`, each combined with a byte of the key stream.
pub uninterp spec fn xchacha20_apply(key: Seq<u8>, nonce: Seq<u8>, data: Seq<u8>) -> Seq<u8>;

/// Decrypts one block with `Aes256::decrypt_block`.
///
/// Trusted: the result depends on key and block alone and has the length
/// of a block.
#[verifier::external_body]
fn aes256_decrypt(key: &[u8], block: &[u8]) -> (plain: Vec<u8>)
    requires
        key@.len() == CIPHER_KEY_BYTES,
        block@.len() == BLOCK_BYTES,
    ensures
        plain@ == aes256_decrypt_block(key@, block@),
        plain@.len() == BLOCK_BYTES,
{
    let cipher = aes::Aes256::new(aes::cipher::generic_array::GenericArray::from_slice(key));
    let mut buffer = aes::cipher::generic_array::GenericArray::clone_from_slice(block);
    cipher.decrypt_block(&mut buffer);
    buffer.to_vec()
}

/// Applies the key stream of `XChaCha20` to a copy of `data`.
///
/// Trusted: the result depends on key, nonce and data alone and is as long
/// as `data`. The cipher refuses more data than its counter can number,
/// which the precondition leaves out.
#[verifier::external_body]
fn xchacha20_apply_keystream(key: &[u8], nonce: &[u8; 24], data: &[u8]) -> (out: Vec<u8>)
    requires
        key@.len() == CIPHER_KEY_BYTES,
        data@.len() <= STREAM_LIMIT,
    ensures
        out@ == xchacha20_apply(key@, nonce@, data@),
        out@.len() == data@.len(),
{
    let mut buffer = data.to_vec();
    let mut cipher = chacha20::XChaCha20::new(
        chacha20::cipher::generic_array::GenericArray::from_slice(key),
        chacha20::cipher::generic_array::GenericArray::from_slice(nonce),
    );
    cipher.apply_keystream(&mut buffer);
    buffer
}

/// The blocks of `data`, each decrypted on its own. Bytes after the last
/// whole block are not part of it.
pub open spec fn ecb_decrypt(key: Seq<u8>, data: Seq<u8>) -> Seq<u8>
    decreases data.len(),
{
    if data.len() < BLOCK_BYTES {
        Seq::empty()
    } else {
        ecb_decrypt(key, data.subrange(0, data.len() - BLOCK_BYTES)) + aes256_decrypt_block(
            key,
            data.subrange(data.len() - BLOCK_BYTES, data.len() as int),
        )
    }
}

/// `data` without the zero bytes at its end.
pub open spec fn strip_trailing_zeros(data: Seq<u8>) -> Seq<u8>
    decreases data.len(),
{
    if data.len() > 0 && data.last() == 0 {
        strip_trailing_zeros(data.drop_last())
    } else {
        data
    }
}

/// Removes the zero bytes at the end of `data`.
pub fn remove_padding(data: &mut Vec<u8>)
    ensures
        final(data)@ == strip_trailing_zeros(old(data)@),
{
    while data.len() > 0 && data[data.len() - 1] == 0
        invariant
            strip_trailing_zeros(data@) == strip_trailing_zeros(old(data)@),
        decreases data@.len(),
    {
        data.pop();
    }
}

impl Decrypt {
    /// Decrypts `data` block by block with the block cipher under `key` and
    /// removes the zero bytes at the end of the result.
    pub fn decrypt_data(&self, data: &[u8], key: &[u8]) -> (plain: Result<Vec<u8>, CryptError>)
        requires
            key@.len() == CIPHER_KEY_BYTES,
            data@.len() % BLOCK_BYTES as nat == 0,
        ensures
            plain matches Ok(bytes) && bytes@ == strip_trailing_zeros(ecb_decrypt(key@, data@)),
    {
        let mut plain: Vec<u8> = Vec::new();
        let mut done: usize = 0;
        proof {
            assert(data@.subrange(0, 0) =~= Seq::<u8>::empty());
        }
        while done < data.len()
            invariant
                done <= data@.len(),
                done % BLOCK_BYTES == 0,
                data@.len() % BLOCK_BYTES as nat == 0,
                key@.len() == CIPHER_KEY_BYTES,
                plain@ == ecb_decrypt(key@, data@.subrange(0, done as int)),
            decreases data@.len() - done,
        {
            let block = slice_subrange(data, done, done + BLOCK_BYTES);
            let decrypted = aes256_decrypt(key, block);
            proof {
                let longer = data@.subrange(0, done + BLOCK_BYTES);
                assert(longer.subrange(0, longer.len() - BLOCK_BYTES) =~= data@.subrange(
                    0,
                    done as int,
                ));
                assert(longer.subrange(longer.len() - BLOCK_BYTES, longer.len() as int)
                    =~= block@);
            }
            append_bytes(&mut plain, decrypted.as_slice());
            done += BLOCK_BYTES;
        }
        proof {
            assert(data@.subrange(0, done as int) =~= data@);
        }
        remove_padding(&mut plain);
        Ok(plain)
    }

    /// Decrypts `encrypted_data` with the stream cipher under `key` and
    /// `nonce` and removes the zero bytes at the end of the result.
    pub fn decrypt_data_xchacha20(&self, encrypted_data: &[u8], nonce: &[u8; 24], key: &[u8]) -> (plain:
        Result<Vec<u8>, CryptError>)
        requires
            key@.len() == CIPHER_KEY_BYTES,
            encrypted_data@.len() <= STREAM_LIMIT,
        ensures
            plain matches Ok(bytes) && bytes@ == strip_trailing_zeros(
                xchacha20_apply(key@, nonce@, encrypted_data@),
            ),
    {
        let mut plain = xchacha20_apply_keystream(key, nonce, encrypted_data);
        remove_padding(&mut plain);
        Ok(plain)
    }
}

/// Removing the padding gives back a plaintext that does not end in a zero
/// byte, however many zero bytes were put after it. A plaintext that does
/// end in zero bytes loses them: it is the same as a shorter plaintext with
/// more padding.
pub proof fn lemma_padding_removed(plain: Seq<u8>, padding: nat)
    requires
        plain.len() == 0 || plain.last() != 0,
    ensures
        strip_trailing_zeros(plain + Seq::new(padding, |i: int| 0u8)) == plain,
    decreases padding,
{
    let padded = plain + Seq::new(padding, |i: int| 0u8);
    if padding == 0 {
        assert(padded =~= plain);
    } else {
        assert(padded.last() == 0);
        assert(padded.drop_last() =~= plain + Seq::new((padding - 1) as nat, |i: int| 0u8));
        lemma_padding_removed(plain, (padding - 1) as nat);
    }
}

/// What is left after removing the padding does not end in a zero byte, and
/// removing the padding once more changes nothing.
pub proof fn lemma_strip_trailing_zeros_done(data: Seq<u8>)
    ensures
        strip_trailing_zeros(data).len() == 0 || strip_trailing_zeros(data).last() != 0,
        strip_trailing_zeros(data).len() <= data.len(),
        strip_trailing_zeros(strip_trailing_zeros(data)) == strip_trailing_zeros(data),
        strip_trailing_zeros(data) == data.subrange(0, strip_trailing_zeros(data).len() as int),
    decreases data.len(),
{
    if data.len() > 0 && data.last() == 0 {
        lemma_strip_trailing_zeros_done(data.drop_last());
        let kept = strip_trailing_zeros(data);
        assert(data.drop_last().subrange(0, kept.len() as int) =~= data.subrange(
            0,
            kept.len() as int,
        ));
    } else {
        assert(data.subrange(0, data.len() as int) =~= data);
    }
}

} // verus!
