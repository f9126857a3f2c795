//! Canonical key encoding for 64-bit unsigned key values: big-endian
//! bytes, so that byte-wise equality (and ordering, in the storage engine)
//! agrees with the numeric value. Registration and change records must use
//! the same encoding, so equality compares raw bytes, never typed values.

use vstd::prelude::*;

verus! {

/// The canonical big-endian bytes of a 64-bit unsigned key value.
pub open spec fn u64_key_bytes(v: u64) -> Seq<u8> {
    seq![
        ((v >> 56) & 0xff) as u8,
        ((v >> 48) & 0xff) as u8,
        ((v >> 40) & 0xff) as u8,
        ((v >> 32) & 0xff) as u8,
        ((v >> 24) & 0xff) as u8,
        ((v >> 16) & 0xff) as u8,
        ((v >> 8) & 0xff) as u8,
        (v & 0xff) as u8,
    ]
}

/// Normalizes a 64-bit unsigned key value into its canonical key bytes.
pub fn encode_u64_key(v: u64) -> (r: Vec<u8>)
    ensures
        r@ == u64_key_bytes(v),
{
    proof {
        assert((v >> 56) & 0xff < 256 && (v >> 48) & 0xff < 256 && (v >> 40) & 0xff < 256 && (v
            >> 32) & 0xff < 256 && (v >> 24) & 0xff < 256 && (v >> 16) & 0xff < 256 && (v >> 8)
            & 0xff < 256 && v & 0xff < 256) by (bit_vector);
    }
    let mut r: Vec<u8> = Vec::new();
    r.push(((v >> 56) & 0xff) as u8);
    r.push(((v >> 48) & 0xff) as u8);
    r.push(((v >> 40) & 0xff) as u8);
    r.push(((v >> 32) & 0xff) as u8);
    r.push(((v >> 24) & 0xff) as u8);
    r.push(((v >> 16) & 0xff) as u8);
    r.push(((v >> 8) & 0xff) as u8);
    r.push((v & 0xff) as u8);
    proof {
        assert(r@ =~= u64_key_bytes(v));
    }
    r
}

} // verus!
