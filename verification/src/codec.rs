//! Little-endian serialization primitives.
//!
//! Query opcodes answer with fixed-width little-endian integers
//! concatenated positionally into a flat byte buffer, and the persisted
//! state record is laid out the same way.  Everything here is stated over
//! `vstd`'s little-endian byte specifications, so byte layouts are pinned
//! bit for bit.

use vstd::prelude::*;

use crate::ids::AlkaneId;
use vstd::bytes::{spec_u128_from_le_bytes, spec_u128_to_le_bytes, u128_from_le_bytes,
    u128_to_le_bytes, lemma_auto_spec_u128_to_from_le_bytes};
use vstd::slice::slice_subrange;

verus! {

/// The 32-byte little-endian layout of a token identifier: block, then
/// transaction index.
pub open spec fn spec_id_to_le_bytes(id: AlkaneId) -> Seq<u8> {
    spec_u128_to_le_bytes(id.block) + spec_u128_to_le_bytes(id.tx)
}

/// Append the 16-byte little-endian form of `v` to `out`.
pub fn emit_u128(out: &mut Vec<u8>, v: u128)
    ensures
        final(out)@ =~= old(out)@ + spec_u128_to_le_bytes(v),
{
    let mut bytes = u128_to_le_bytes(v);
    let mut i: usize = 0;
    while i < bytes.len()
        invariant
            bytes@ == spec_u128_to_le_bytes(v),
            bytes@.len() == 16,
            i <= 16,
            out@ =~= old(out)@ + bytes@.subrange(0, i as int),
        decreases bytes.len() - i,
    {
        out.push(bytes[i]);
        i += 1;
    }
    assert(bytes@.subrange(0, 16) =~= bytes@);
}

/// Append the 32-byte little-endian form of a token identifier to `out`.
pub fn emit_id(out: &mut Vec<u8>, id: AlkaneId)
    ensures
        final(out)@ =~= old(out)@ + spec_id_to_le_bytes(id),
{
    emit_u128(out, id.block);
    emit_u128(out, id.tx);
}

/// Read the little-endian `u128` stored at `offset`.
pub fn read_u128(data: &[u8], offset: usize) -> (v: u128)
    requires
        offset + 16 <= data@.len(),
    ensures
        v == spec_u128_from_le_bytes(data@.subrange(offset as int, offset + 16)),
{
    let n: usize = data.len();
    assert(offset + 16 <= n);
    let window = slice_subrange(data, offset, offset + 16);
    u128_from_le_bytes(window)
}

/// Read the token identifier stored at `offset`.
pub fn read_id(data: &[u8], offset: usize) -> (id: AlkaneId)
    requires
        offset + 32 <= data@.len(),
    ensures
        spec_id_to_le_bytes(id) =~= data@.subrange(offset as int, offset + 32),
        id.block == spec_u128_from_le_bytes(data@.subrange(offset as int, offset + 16)),
        id.tx == spec_u128_from_le_bytes(data@.subrange(offset + 16, offset + 32)),
{
    let n: usize = data.len();
    assert(offset + 32 <= n);
    let block = read_u128(data, offset);
    let tx = read_u128(data, offset + 16);
    proof {
        lemma_auto_spec_u128_to_from_le_bytes();
        assert(data@.subrange(offset as int, offset + 32).subrange(0, 16) =~= data@.subrange(
            offset as int,
            offset + 16,
        ));
        assert(data@.subrange(offset as int, offset + 32).subrange(16, 32) =~= data@.subrange(
            offset + 16,
            offset + 32,
        ));
        assert(spec_u128_to_le_bytes(block) + spec_u128_to_le_bytes(tx) =~= data@.subrange(
            offset as int,
            offset + 32,
        ));
    }
    AlkaneId { block, tx }
}

} // verus!
