use vstd::prelude::*;
use crate::primitives::{md5_of, rc4_apply, md5_digest, rc4_80, prefix, lemma_rc4_involution};

verus! {

/// The low 3 bytes of an object number, little-endian.
pub open spec fn object_number_bytes(id: u32) -> Seq<u8> {
    seq![id as u8, (id >> 8u32) as u8, (id >> 16u32) as u8]
}

/// The 2 bytes of a generation number, little-endian.
pub open spec fn generation_bytes(generation: u16) -> Seq<u8> {
    seq![generation as u8, (generation >> 8u16) as u8]
}

/// What is hashed to key one object: the document key salted with the
/// object's number and generation.
pub open spec fn object_salt(key: Seq<u8>, id: u32, generation: u16) -> Seq<u8> {
    key + object_number_bytes(id) + generation_bytes(generation)
}

/// The 10-byte key of one object.
pub open spec fn object_key(key: Seq<u8>, id: u32, generation: u16) -> Seq<u8> {
    md5_of(object_salt(key, id, generation)).subrange(0, 10)
}

/// A payload of object (`id`, `generation`) run through RC4 under its object key.
pub open spec fn object_cipher(key: Seq<u8>, id: u32, generation: u16, data: Seq<u8>) -> Seq<u8> {
    rc4_apply(object_key(key, id, generation), data)
}

/// Encrypts (or, applied again, decrypts) the payload of one object.
pub fn encrypt_content_data(encryption_key: &[u8], object_id: u32, gen_id: u16, data: &[u8]) -> (r:
    Vec<u8>)
    ensures
        r@ == object_cipher(encryption_key@, object_id, gen_id, data@),
        r@.len() == data@.len(),
{
    let mut input: Vec<u8> = Vec::new();
    input.extend_from_slice(encryption_key);
    let salt: [u8; 5] = [
        object_id as u8,
        (object_id >> 8) as u8,
        (object_id >> 16) as u8,
        gen_id as u8,
        (gen_id >> 8) as u8,
    ];
    input.extend_from_slice(&salt);
    assert(input@ =~= object_salt(encryption_key@, object_id, gen_id));
    let digest = md5_digest(input.as_slice());
    let obj_key = prefix(&digest, 10);
    let r = rc4_80(obj_key.as_slice(), data);
    assert(r@ =~= object_cipher(encryption_key@, object_id, gen_id, data@));
    r
}

/// Decryption is the same transformation: encrypting a payload twice with the
/// same key, object number and generation gives the payload back.
pub proof fn lemma_object_cipher_round_trip(key: Seq<u8>, id: u32, generation: u16, data: Seq<u8>)
    ensures
        object_cipher(key, id, generation, object_cipher(key, id, generation, data)) == data,
{
    lemma_rc4_involution(object_key(key, id, generation), data);
}

/// Objects that differ in the low 3 bytes of their number, or in their
/// generation, are keyed from different MD5 inputs.
pub proof fn lemma_object_salt_distinct(key: Seq<u8>, id1: u32, gen1: u16, id2: u32, gen2: u16)
    requires
        id1 % 0x100_0000 != id2 % 0x100_0000 || gen1 != gen2,
    ensures
        object_salt(key, id1, gen1) != object_salt(key, id2, gen2),
{
    let s1 = object_salt(key, id1, gen1);
    let s2 = object_salt(key, id2, gen2);
    let n: int = key.len() as int;
    if s1 == s2 {
        assert(s1[n] == id1 as u8 && s2[n] == id2 as u8);
        assert(s1[n + 1] == (id1 >> 8u32) as u8 && s2[n + 1] == (id2 >> 8u32) as u8);
        assert(s1[n + 2] == (id1 >> 16u32) as u8 && s2[n + 2] == (id2 >> 16u32) as u8);
        assert(s1[n + 3] == gen1 as u8 && s2[n + 3] == gen2 as u8);
        assert(s1[n + 4] == (gen1 >> 8u16) as u8 && s2[n + 4] == (gen2 >> 8u16) as u8);
        assert(((id1 as u8 == id2 as u8) && ((id1 >> 8u32) as u8 == (id2 >> 8u32) as u8) && ((id1
            >> 16u32) as u8 == (id2 >> 16u32) as u8)) ==> id1 % 0x100_0000 == id2 % 0x100_0000)
            by (bit_vector);
        assert(((gen1 as u8 == gen2 as u8) && ((gen1 >> 8u16) as u8 == (gen2 >> 8u16) as u8))
            ==> gen1 == gen2) by (bit_vector);
    }
}

} // verus!
