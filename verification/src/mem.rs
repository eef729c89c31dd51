//! Byte-level model of foreign memory.
//!
//! Foreign memory is a flat arena of bytes. Every read and write that
//! crosses the boundary is expressed over this model: a typed write is a
//! write of the value's byte encoding, a typed read is a byte-wise copy
//! followed by validation. The spec functions here are the vocabulary in
//! which the reference layer states its contracts.

use vstd::prelude::*;

verus! {

/// The bytes of `mem` in the half-open range `[addr, addr + len)`.
pub open spec fn read_bytes(mem: Seq<u8>, addr: int, len: int) -> Seq<u8> {
    mem.subrange(addr, addr + len)
}

/// `mem` with the range starting at `addr` replaced by `bytes`.
pub open spec fn write_bytes(mem: Seq<u8>, addr: int, bytes: Seq<u8>) -> Seq<u8> {
    mem.subrange(0, addr) + bytes + mem.subrange(addr + bytes.len(), mem.len() as int)
}

/// Writing within bounds keeps the arena size.
pub proof fn lemma_write_bytes_len(mem: Seq<u8>, addr: int, bytes: Seq<u8>)
    requires
        0 <= addr,
        addr + bytes.len() <= mem.len(),
    ensures
        write_bytes(mem, addr, bytes).len() == mem.len(),
{
}

/// Reading back a just-written range yields exactly the written bytes.
pub proof fn lemma_read_write_roundtrip(mem: Seq<u8>, addr: int, bytes: Seq<u8>)
    requires
        0 <= addr,
        addr + bytes.len() <= mem.len(),
    ensures
        read_bytes(write_bytes(mem, addr, bytes), addr, bytes.len() as int) == bytes,
{
    assert(read_bytes(write_bytes(mem, addr, bytes), addr, bytes.len() as int) =~= bytes);
}

/// A write leaves every byte outside the written range unchanged.
pub proof fn lemma_write_bytes_frame(mem: Seq<u8>, addr: int, bytes: Seq<u8>, i: int)
    requires
        0 <= addr,
        addr + bytes.len() <= mem.len(),
        0 <= i < mem.len(),
        i < addr || addr + bytes.len() <= i,
    ensures
        write_bytes(mem, addr, bytes)[i] == mem[i],
{
}

/// Copy `len` bytes out of the arena, starting at `addr`.
pub fn copy_bytes_out(mem: &Vec<u8>, addr: usize, len: usize) -> (r: Vec<u8>)
    requires
        addr + len <= mem@.len(),
    ensures
        r@ == read_bytes(mem@, addr as int, len as int),
{
    let n = mem.len();
    let mut out: Vec<u8> = Vec::new();
    let mut i: usize = 0;
    while i < len
        invariant
            i <= len,
            addr + len <= n == mem@.len(),
            out@ == mem@.subrange(addr as int, addr + i),
        decreases len - i,
    {
        out.push(mem[addr + i]);
        proof {
            assert(out@ =~= mem@.subrange(addr as int, addr + i + 1));
        }
        i += 1;
    }
    proof {
        assert(out@ =~= read_bytes(mem@, addr as int, len as int));
    }
    out
}

/// Copy `bytes` into the arena at `addr`.
pub fn copy_bytes_in(mem: &mut Vec<u8>, addr: usize, bytes: &Vec<u8>)
    requires
        addr + bytes@.len() <= old(mem)@.len(),
    ensures
        final(mem)@ == write_bytes(old(mem)@, addr as int, bytes@),
{
    let ghost orig = mem@;
    let n = mem.len();
    let mut i: usize = 0;
    while i < bytes.len()
        invariant
            i <= bytes@.len(),
            addr + bytes@.len() <= orig.len(),
            n == orig.len(),
            mem@.len() == orig.len(),
            forall|j: int| 0 <= j < orig.len() && !(addr <= j < addr + i) ==> mem@[j] == orig[j],
            forall|j: int| 0 <= j < i ==> mem@[addr + j] == bytes@[j],
        decreases bytes@.len() - i,
    {
        let b = bytes[i];
        mem.set(addr + i, b);
        i += 1;
    }
    proof {
        assert(mem@ =~= write_bytes(orig, addr as int, bytes@));
    }
}

} // verus!
