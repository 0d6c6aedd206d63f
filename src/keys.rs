use vstd::prelude::*;
use vstd::string::StringSliceAdditionalSpecFns;
use crate::padding::{padded, padding_seq, pad_password, PADDING};
use crate::primitives::{md5_of, rc4_apply, md5_digest, rc4_40, prefix};

verus! {

/// The owner verification value O: the padded user password, RC4-encrypted
/// under the first 5 bytes of the MD5 digest of the padded owner password.
pub open spec fn o_value(user: Seq<u8>, owner: Seq<u8>) -> Seq<u8> {
    rc4_apply(md5_of(padded(owner)).subrange(0, 5), padded(user))
}

/// The permission mask as 4 little-endian bytes.
pub open spec fn le_bytes(p: i32) -> Seq<u8> {
    seq![
        (p as u32) as u8,
        ((p as u32) >> 8u32) as u8,
        ((p as u32) >> 16u32) as u8,
        ((p as u32) >> 24u32) as u8,
    ]
}

/// The 5-byte document key: the first 5 bytes of one MD5 pass over the padded
/// user password, O, the permissions and the file identifier.
pub open spec fn document_key(user: Seq<u8>, o: Seq<u8>, permissions: i32, file_id: Seq<u8>) -> Seq<u8> {
    md5_of(padded(user) + o + le_bytes(permissions) + file_id).subrange(0, 5)
}

/// The user verification value U of revision 2: the padding string,
/// RC4-encrypted under the document key.
pub open spec fn u_value(key: Seq<u8>) -> Seq<u8> {
    rc4_apply(key, padding_seq())
}

/// Computes O from the user and owner passwords.
pub fn compute_o_value(user_password: &str, owner_password: &str) -> (r: Vec<u8>)
    ensures
        r@ == o_value(user_password.spec_bytes(), owner_password.spec_bytes()),
        r@.len() == 32,
{
    let owner_pad = pad_password(owner_password);
    let digest = md5_digest(owner_pad.as_slice());
    let key = prefix(&digest, 5);
    let user_pad = pad_password(user_password);
    let r = rc4_40(key.as_slice(), user_pad.as_slice());
    assert(r@ =~= o_value(user_password.spec_bytes(), owner_password.spec_bytes()));
    r
}

/// Computes the 5-byte document key.
pub fn compute_encryption_key(
    user_password: &str,
    o_value: &[u8],
    permissions: i32,
    file_id: &[u8],
) -> (r: Vec<u8>)
    ensures
        r@ == document_key(user_password.spec_bytes(), o_value@, permissions, file_id@),
        r@.len() == 5,
{
    let mut input = pad_password(user_password);
    input.extend_from_slice(o_value);
    let p = permissions as u32;
    let le: [u8; 4] = [p as u8, (p >> 8) as u8, (p >> 16) as u8, (p >> 24) as u8];
    input.extend_from_slice(&le);
    input.extend_from_slice(file_id);
    assert(input@ =~= padded(user_password.spec_bytes()) + o_value@ + le_bytes(permissions)
        + file_id@);
    let digest = md5_digest(input.as_slice());
    prefix(&digest, 5)
}

/// Computes U from the 5-byte document key.
pub fn compute_u_value(encryption_key: &[u8]) -> (r: Vec<u8>)
    requires
        encryption_key@.len() == 5,
    ensures
        r@ == u_value(encryption_key@),
        r@.len() == 32,
{
    let r = rc4_40(encryption_key, &PADDING);
    assert(r@ =~= u_value(encryption_key@));
    r
}

/// The derivations are functions of their inputs: equal inputs give equal
/// O values, document keys and U values.
pub proof fn lemma_derivations_deterministic(
    user1: Seq<u8>,
    owner1: Seq<u8>,
    permissions1: i32,
    file_id1: Seq<u8>,
    user2: Seq<u8>,
    owner2: Seq<u8>,
    permissions2: i32,
    file_id2: Seq<u8>,
)
    requires
        user1 == user2,
        owner1 == owner2,
        permissions1 == permissions2,
        file_id1 == file_id2,
    ensures
        o_value(user1, owner1) == o_value(user2, owner2),
        document_key(user1, o_value(user1, owner1), permissions1, file_id1) == document_key(
            user2,
            o_value(user2, owner2),
            permissions2,
            file_id2,
        ),
        u_value(document_key(user1, o_value(user1, owner1), permissions1, file_id1)) == u_value(
            document_key(user2, o_value(user2, owner2), permissions2, file_id2),
        ),
{
}

} // verus!
