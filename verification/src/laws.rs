//! Laws of the boundary-mediation core.
//!
//! Each proof function states one property that relates several
//! operations of the library, over the spec functions their contracts
//! use.

use vstd::prelude::*;

use crate::ef_type::{unconditionally_valid, EFType, EFValue};
use crate::mem::{
    lemma_read_write_roundtrip, lemma_write_bytes_len, read_bytes, write_bytes,
};
use crate::mock::{alloc_covers, chain_covered, chain_extended, MockRtAllocChain};

verus! {

/// Write-copy round trip: storing a value through a writable reference
/// and copying the same range back yields exactly the value's byte
/// image, which decodes to the stored value.
///
/// A write leaves the arena holding `write_bytes(mem, addr,
/// T::bytes_spec(v))` and a copy of the range yields `read_bytes` of it;
/// this law closes the loop between the two contracts.
pub proof fn lemma_write_copy_roundtrip<T: EFValue>(mem: Seq<u8>, addr: int, v: T)
    requires
        0 <= addr,
        addr + T::size_spec() <= mem.len(),
    ensures
        read_bytes(write_bytes(mem, addr, T::bytes_spec(v)), addr, T::size_spec())
            == T::bytes_spec(v),
        T::valid_spec(T::bytes_spec(v)),
        T::value_spec(T::bytes_spec(v)) == v,
        write_bytes(mem, addr, T::bytes_spec(v)).len() == mem.len(),
{
    T::encode_wf(v);
    lemma_read_write_roundtrip(mem, addr, T::bytes_spec(v));
    lemma_write_bytes_len(mem, addr, T::bytes_spec(v));
}

/// A byte image of a type every pattern of which is valid always
/// validates, after any number of byte-wise clones: validation looks at
/// the bytes alone, and a clone keeps them.
pub proof fn lemma_unconditional_image_validates<T: EFValue>(bytes: Seq<u8>)
    requires
        unconditionally_valid::<T>(),
        bytes.len() == T::size_spec(),
    ensures
        T::valid_spec(bytes),
        T::bytes_spec(T::value_spec(bytes)) == bytes,
{
    T::decode_wf(bytes);
}

/// A single byte of two or more is no valid `bool` pattern.
pub proof fn lemma_bool_byte_invalid(bytes: Seq<u8>)
    requires
        bytes.len() == 1,
        bytes[0] >= 2,
    ensures
        !<bool as EFType>::valid_spec(bytes),
{
}

/// Scope containment: growing a chain by one allocation entry adds
/// exactly that entry's coverage. A range that only the child entry
/// covers is rejected by every query against the parent chain, and
/// everything the parent covers stays covered in the child.
pub proof fn lemma_child_scope_coverage(
    parent: MockRtAllocChain,
    addr: usize,
    len: usize,
    mutable: bool,
    p: int,
    l: int,
    m: bool,
)
    ensures
        chain_covered(chain_extended(parent, addr, len, mutable), p, l, m) <==> (alloc_covers(
            crate::mock::MockRtAllocation { ptr: addr, len, mutable },
            p,
            l,
            m,
        ) || chain_covered(parent, p, l, m)),
{
}

} // verus!
