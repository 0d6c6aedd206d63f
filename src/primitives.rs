use vstd::prelude::*;
use rc4::consts::{U10, U5};
use rc4::{KeyInit, Rc4, StreamCipher};

verus! {

/// The MD5 digest of a byte sequence.
pub uninterp spec fn md5_of(data: Seq<u8>) -> Seq<u8>;

/// Byte `i` of the RC4 keystream generated from `key`.
pub uninterp spec fn rc4_keystream(key: Seq<u8>, i: nat) -> u8;

/// RC4 applied to `data` under `key`: each byte is combined by XOR with the
/// keystream byte at the same position.
pub open spec fn rc4_apply(key: Seq<u8>, data: Seq<u8>) -> Seq<u8> {
    Seq::new(data.len(), |i: int| data[i] ^ rc4_keystream(key, i as nat))
}

/// Relies on `md5::compute`: the 16-byte MD5 digest of `data`, which depends
/// on the bytes of `data` alone.
#[verifier::external_body]
pub(crate) fn md5_digest(data: &[u8]) -> (r: [u8; 16])
    ensures
        r@ == md5_of(data@),
{
    md5::compute(data).0
}

/// Relies on `rc4::Rc4<U5>` (`KeyInit::new_from_slice`, which accepts a key of
/// exactly 5 bytes, and `StreamCipher::apply_keystream`, which XORs the data
/// with the keystream of a freshly keyed cipher).
#[verifier::external_body]
pub(crate) fn rc4_40(key: &[u8], data: &[u8]) -> (r: Vec<u8>)
    requires
        key@.len() == 5,
    ensures
        r@ == Seq::new(data@.len(), |i: int| data@[i] ^ rc4_keystream(key@, i as nat)),
{
    let mut cipher: Rc4<U5> = Rc4::new_from_slice(key).unwrap();
    let mut out = data.to_vec();
    cipher.apply_keystream(&mut out);
    out
}

/// Relies on `rc4::Rc4<U10>` (`KeyInit::new_from_slice`, which accepts a key of
/// exactly 10 bytes, and `StreamCipher::apply_keystream`, which XORs the data
/// with the keystream of a freshly keyed cipher).
#[verifier::external_body]
pub(crate) fn rc4_80(key: &[u8], data: &[u8]) -> (r: Vec<u8>)
    requires
        key@.len() == 10,
    ensures
        r@ == Seq::new(data@.len(), |i: int| data@[i] ^ rc4_keystream(key@, i as nat)),
{
    let mut cipher: Rc4<U10> = Rc4::new_from_slice(key).unwrap();
    let mut out = data.to_vec();
    cipher.apply_keystream(&mut out);
    out
}

/// Applying RC4 twice under the same key gives back the data.
pub proof fn lemma_rc4_involution(key: Seq<u8>, data: Seq<u8>)
    ensures
        rc4_apply(key, rc4_apply(key, data)) == data,
{
    let once = rc4_apply(key, data);
    let twice = rc4_apply(key, once);
    assert forall|i: int| 0 <= i < data.len() implies twice[i] == data[i] by {
        let k = rc4_keystream(key, i as nat);
        let d = data[i];
        assert((d ^ k) ^ k == d) by (bit_vector);
    }
    assert(twice =~= data);
}

/// Copies the first `n` bytes of `bytes` into a vector.
pub(crate) fn prefix(bytes: &[u8], n: usize) -> (r: Vec<u8>)
    requires
        n <= bytes@.len(),
    ensures
        r@ == bytes@.subrange(0, n as int),
{
    let mut r: Vec<u8> = Vec::with_capacity(n);
    let mut i: usize = 0;
    while i < n
        invariant
            i <= n,
            n <= bytes@.len(),
            r@ == bytes@.subrange(0, i as int),
        decreases n - i,
    {
        r.push(bytes[i]);
        assert(r@ =~= bytes@.subrange(0, i + 1));
        i = i + 1;
    }
    r
}

} // verus!
