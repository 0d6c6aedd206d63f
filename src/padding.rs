use vstd::prelude::*;
use vstd::string::StringSliceAdditionalSpecFns;

verus! {

/// The fixed 32-byte padding string of the standard security handler.
pub const PADDING: [u8; 32] = [
    0x28, 0xBF, 0x4E, 0x5E, 0x4E, 0x75, 0x8A, 0x41, 0x64, 0x00, 0x4E, 0x56, 0xFF, 0xFA, 0x01, 0x08,
    0x2E, 0x2E, 0x00, 0xB6, 0xD0, 0x68, 0x3E, 0x80, 0x2F, 0x0C, 0xA9, 0xFE, 0x64, 0x53, 0x69, 0x7A,
];

/// The padding string as a sequence.
pub open spec fn padding_seq() -> Seq<u8> {
    PADDING@
}

/// A password padded to 32 bytes: its bytes followed by the padding string,
/// cut to 32 bytes.
pub open spec fn padded(password: Seq<u8>) -> Seq<u8> {
    (password + padding_seq()).subrange(0, 32)
}

/// Pads `password` to exactly 32 bytes.
pub fn pad_password(password: &str) -> (r: Vec<u8>)
    ensures
        r@ == padded(password.spec_bytes()),
        r@.len() == 32,
{
    let bytes = password.as_bytes();
    let n = bytes.len();
    let ghost whole = bytes@ + padding_seq();
    let mut r: Vec<u8> = Vec::with_capacity(32);
    let mut i: usize = 0;
    while i < 32
        invariant
            i <= 32,
            n == bytes@.len(),
            whole == bytes@ + padding_seq(),
            r@ == whole.subrange(0, i as int),
        decreases 32 - i,
    {
        let b = if i < n {
            bytes[i]
        } else {
            PADDING[i - n]
        };
        r.push(b);
        assert(r@ =~= whole.subrange(0, i + 1));
        i = i + 1;
    }
    r
}

} // verus!
