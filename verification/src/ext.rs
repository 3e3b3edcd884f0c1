//! Trusted bindings to the outside cryptography and collection crates.
//!
//! Each function here wraps one outside computation; its contract states
//! what the crate's source shows, over uninterpreted names for the results
//! that no short formula can pin down (digests, MACs, ciphertexts).

use vstd::prelude::*;
use block_modes::BlockMode;
use hmac::{Mac, NewMac};
use rand::{RngCore, SeedableRng};
use sha2::Digest;

verus! {

/// The SHA-256 digest of a byte sequence, as sha2 computes it.
pub uninterp spec fn sha256_of(data: Seq<u8>) -> Seq<u8>;

/// The HMAC-SHA-256 tag of a byte sequence under a key, as hmac computes
/// it.
pub uninterp spec fn hmac_sha256_of(key: Seq<u8>, data: Seq<u8>) -> Seq<u8>;

/// The AES-128-CBC ciphertext of a PKCS#7-padded plaintext, as
/// block-modes computes it.
pub uninterp spec fn aes_cbc_enc(key: Seq<u8>, iv: Seq<u8>, pt: Seq<u8>) -> Seq<u8>;

/// The AES-128-CBC decryption of a ciphertext, `None` when its length or
/// its PKCS#7 padding is invalid, as block-modes computes it.
pub uninterp spec fn aes_cbc_dec(key: Seq<u8>, iv: Seq<u8>, ct: Seq<u8>) -> Option<Seq<u8>>;

/// Relies on sha2::Sha256: the digest has 32 bytes and depends on the
/// hashed bytes alone.
#[verifier::external_body]
pub(crate) fn sha256_range(data: &Vec<u8>, from: usize, to: usize) -> (r: Vec<u8>)
    requires
        from <= to <= data@.len(),
    ensures
        r@ == sha256_of(data@.subrange(from as int, to as int)),
        r@.len() == 32,
{
    let mut h = sha2::Sha256::new();
    h.update(&data[from..to]);
    h.finalize().to_vec()
}

/// Relies on hmac::Hmac with sha2::Sha256: the tag has 32 bytes and
/// depends on the key and the message alone; any key length is accepted.
#[verifier::external_body]
pub(crate) fn hmac_sha256(key: &Vec<u8>, data: &Vec<u8>) -> (r: Vec<u8>)
    ensures
        r@ == hmac_sha256_of(key@, data@),
        r@.len() == 32,
{
    let mut m = hmac::Hmac::<sha2::Sha256>::new_from_slice(key).unwrap();
    m.update(data);
    m.finalize().into_bytes().to_vec()
}

/// Relies on hmac's Mac::verify: in constant time, it accepts exactly the
/// tag that `hmac_sha256` would produce for the same key and message.
#[verifier::external_body]
pub(crate) fn hmac_sha256_verify(key: &Vec<u8>, data: &Vec<u8>, tag: &Vec<u8>) -> (r: bool)
    ensures
        r == (tag@ == hmac_sha256_of(key@, data@)),
{
    let mut m = hmac::Hmac::<sha2::Sha256>::new_from_slice(key).unwrap();
    m.update(data);
    m.verify(tag).is_ok()
}

/// Relies on block-modes' Cbc with aes::Aes128 and Pkcs7: encryption pads
/// the plaintext to the next 16-byte boundary, always succeeds, and its
/// output decrypts back to the plaintext under the same key and IV.
#[verifier::external_body]
pub(crate) fn aes128_cbc_encrypt(key: &Vec<u8>, iv: &Vec<u8>, data: &Vec<u8>, from: usize, to: usize) -> (r:
    Vec<u8>)
    requires
        key@.len() == 16,
        iv@.len() == 16,
        from <= to <= data@.len(),
    ensures
        r@ == aes_cbc_enc(key@, iv@, data@.subrange(from as int, to as int)),
        r@.len() == (to - from) + 16 - ((to - from) % 16),
        aes_cbc_dec(key@, iv@, r@) == Some(data@.subrange(from as int, to as int)),
{
    let cipher = block_modes::Cbc::<aes::Aes128, block_modes::block_padding::Pkcs7>::new_from_slices(
        key,
        iv,
    ).unwrap();
    cipher.encrypt_vec(&data[from..to])
}

/// Relies on block-modes' Cbc with aes::Aes128 and Pkcs7: decryption
/// fails exactly when the padding of the deciphered bytes is malformed.
#[verifier::external_body]
pub(crate) fn aes128_cbc_decrypt(key: &Vec<u8>, iv: &Vec<u8>, data: &Vec<u8>, from: usize, to: usize) -> (r:
    Option<Vec<u8>>)
    requires
        key@.len() == 16,
        iv@.len() == 16,
        from <= to <= data@.len(),
        (to - from) % 16 == 0,
    ensures
        aes_cbc_dec(key@, iv@, data@.subrange(from as int, to as int)) == (match r {
            Some(v) => Some(v@),
            None => None::<Seq<u8>>,
        }),
{
    let cipher = block_modes::Cbc::<aes::Aes128, block_modes::block_padding::Pkcs7>::new_from_slices(
        key,
        iv,
    ).unwrap();
    match cipher.decrypt_vec(&data[from..to]) {
        Ok(v) => Some(v),
        Err(_) => None,
    }
}

/// A stream random number generator of an outside crate, opaque to the
/// verifier.
#[verifier::external_type_specification]
#[verifier::external_body]
pub struct ExHc128Rng(rand_hc::Hc128Rng);

/// Relies on rand_hc::Hc128Rng::from_seed: builds a generator from a
/// 32-byte seed. Nothing is assumed of the stream it yields.
#[verifier::external_body]
pub(crate) fn rng_from_seed(seed: &Vec<u8>) -> (r: rand_hc::Hc128Rng)
    requires
        seed@.len() == 32,
{
    let mut s = [0u8; 32];
    s.copy_from_slice(seed);
    rand_hc::Hc128Rng::from_seed(s)
}

/// Relies on rand's RngCore::fill_bytes: fills 16 bytes. Nothing is
/// assumed of their values.
#[verifier::external_body]
pub(crate) fn rng_fill16(rng: &mut rand_hc::Hc128Rng) -> (r: Vec<u8>)
    ensures
        r@.len() == 16,
{
    let mut iv = [0u8; 16];
    rng.fill_bytes(&mut iv);
    iv.to_vec()
}

/// A bounded table from peer id to counter, held opaquely: a
/// heapless::LinearMap with room for 256 peers.
#[verifier::external_body]
pub struct CtrMap {
    /// The underlying fixed-capacity map.
    map: heapless::LinearMap<u16, u64, 256>,
}

/// The entries the table holds.
pub uninterp spec fn ctr_entries(m: CtrMap) -> Map<u16, u64>;

/// How many entries the table holds.
pub uninterp spec fn ctr_count(m: CtrMap) -> nat;

/// Relies on heapless::LinearMap::new: the fresh map is empty.
#[verifier::external_body]
pub(crate) fn ctr_map_new() -> (r: CtrMap)
    ensures
        forall|k: u16| !ctr_entries(r).dom().contains(k),
        ctr_count(r) == 0,
{
    CtrMap { map: heapless::LinearMap::new() }
}

/// Relies on heapless::LinearMap::get: yields the value stored under the
/// key, if any.
#[verifier::external_body]
pub(crate) fn ctr_get(m: &CtrMap, k: u16) -> (r: Option<u64>)
    ensures
        r == if ctr_entries(*m).dom().contains(k) {
            Some(ctr_entries(*m)[k])
        } else {
            None::<u64>
        },
{
    m.map.get(&k).copied()
}

/// Relies on heapless::LinearMap::insert: stores the value under the key,
/// succeeding exactly when the key is already present or the map is not
/// full.
#[verifier::external_body]
pub(crate) fn ctr_insert(m: &mut CtrMap, k: u16, v: u64) -> (r: bool)
    ensures
        r == (ctr_entries(*old(m)).dom().contains(k) || ctr_count(*old(m)) < 256),
        r ==> ctr_entries(*final(m)) == ctr_entries(*old(m)).insert(k, v),
        (r && !ctr_entries(*old(m)).dom().contains(k)) ==> ctr_count(*final(m)) == ctr_count(
            *old(m),
        ) + 1,
        (r && ctr_entries(*old(m)).dom().contains(k)) ==> ctr_count(*final(m)) == ctr_count(
            *old(m),
        ),
        !r ==> ctr_entries(*final(m)) == ctr_entries(*old(m)) && ctr_count(*final(m)) == ctr_count(
            *old(m),
        ),
{
    m.map.insert(k, v).is_ok()
}

} // verus!
