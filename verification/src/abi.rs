//! Calling-convention descriptors.
//!
//! A calling convention maps each argument slot to a register or to a
//! stack word at a fixed offset, resolved at specification time so that
//! an invoke thunk can be specialized per slot without runtime branching.

use vstd::prelude::*;

verus! {

/// An argument register of one of the described ABIs.
#[derive(Clone, Copy, Debug, PartialEq, Eq, Structural)]
pub enum AbiRegister {
    Rdi,
    Rsi,
    Rdx,
    Rcx,
    R8,
    R9,
    A0,
    A1,
    A2,
    A3,
    A4,
    A5,
    A6,
    A7,
}

/// Where one argument slot of a calling convention lives.
#[derive(Clone, Copy, Debug, PartialEq, Eq, Structural)]
pub enum AbiSlot {
    /// The slot is passed in a register.
    Register(AbiRegister),
    /// The slot is passed in a stack word at the given word offset.
    Stacked(usize),
    /// The ABI does not place arguments at all.
    Invalid,
}

/// A calling convention of the core.
pub trait EncapfnABI {
    /// Where argument slot `i` lives under this ABI.
    spec fn slot_spec(i: int) -> AbiSlot;

    /// Resolve argument slot `i`.
    fn argument_slot(i: usize) -> (r: AbiSlot)
        ensures
            r == Self::slot_spec(i as int),
    ;
}

/// The ABI of the mock runtime: no slot placement at all.
pub struct GenericABI;

impl EncapfnABI for GenericABI {
    open spec fn slot_spec(i: int) -> AbiSlot {
        AbiSlot::Invalid
    }

    fn argument_slot(i: usize) -> (r: AbiSlot) {
        AbiSlot::Invalid
    }
}

/// SysV AMD64: slots 0 to 5 in `rdi, rsi, rdx, rcx, r8, r9`; later slots
/// in 8-byte stack words at offsets 0, 1, 2, and so on.
pub struct SysVAMD64ABI;

impl EncapfnABI for SysVAMD64ABI {
    open spec fn slot_spec(i: int) -> AbiSlot {
        if i == 0 {
            AbiSlot::Register(AbiRegister::Rdi)
        } else if i == 1 {
            AbiSlot::Register(AbiRegister::Rsi)
        } else if i == 2 {
            AbiSlot::Register(AbiRegister::Rdx)
        } else if i == 3 {
            AbiSlot::Register(AbiRegister::Rcx)
        } else if i == 4 {
            AbiSlot::Register(AbiRegister::R8)
        } else if i == 5 {
            AbiSlot::Register(AbiRegister::R9)
        } else {
            AbiSlot::Stacked((i - 6) as usize)
        }
    }

    fn argument_slot(i: usize) -> (r: AbiSlot) {
        if i == 0 {
            AbiSlot::Register(AbiRegister::Rdi)
        } else if i == 1 {
            AbiSlot::Register(AbiRegister::Rsi)
        } else if i == 2 {
            AbiSlot::Register(AbiRegister::Rdx)
        } else if i == 3 {
            AbiSlot::Register(AbiRegister::Rcx)
        } else if i == 4 {
            AbiSlot::Register(AbiRegister::R8)
        } else if i == 5 {
            AbiSlot::Register(AbiRegister::R9)
        } else {
            AbiSlot::Stacked(i - 6)
        }
    }
}

/// RV32I+C: slots 0 to 7 in `a0` through `a7`; later slots in stack
/// words at offsets 0, 1, 2, and so on.
pub struct Rv32iCABI;

impl EncapfnABI for Rv32iCABI {
    open spec fn slot_spec(i: int) -> AbiSlot {
        if i == 0 {
            AbiSlot::Register(AbiRegister::A0)
        } else if i == 1 {
            AbiSlot::Register(AbiRegister::A1)
        } else if i == 2 {
            AbiSlot::Register(AbiRegister::A2)
        } else if i == 3 {
            AbiSlot::Register(AbiRegister::A3)
        } else if i == 4 {
            AbiSlot::Register(AbiRegister::A4)
        } else if i == 5 {
            AbiSlot::Register(AbiRegister::A5)
        } else if i == 6 {
            AbiSlot::Register(AbiRegister::A6)
        } else if i == 7 {
            AbiSlot::Register(AbiRegister::A7)
        } else {
            AbiSlot::Stacked((i - 8) as usize)
        }
    }

    fn argument_slot(i: usize) -> (r: AbiSlot) {
        if i == 0 {
            AbiSlot::Register(AbiRegister::A0)
        } else if i == 1 {
            AbiSlot::Register(AbiRegister::A1)
        } else if i == 2 {
            AbiSlot::Register(AbiRegister::A2)
        } else if i == 3 {
            AbiSlot::Register(AbiRegister::A3)
        } else if i == 4 {
            AbiSlot::Register(AbiRegister::A4)
        } else if i == 5 {
            AbiSlot::Register(AbiRegister::A5)
        } else if i == 6 {
            AbiSlot::Register(AbiRegister::A6)
        } else if i == 7 {
            AbiSlot::Register(AbiRegister::A7)
        } else {
            AbiSlot::Stacked(i - 8)
        }
    }
}

/// One argument slot, described at the type level.
pub trait ArgumentSlot {
    /// Where this slot lives.
    spec fn descriptor_spec() -> AbiSlot;

    /// Resolve the slot's placement.
    fn descriptor() -> (r: AbiSlot)
        ensures
            r == Self::descriptor_spec(),
    ;
}

/// A slot that no argument may occupy.
pub struct Invalid;

impl ArgumentSlot for Invalid {
    open spec fn descriptor_spec() -> AbiSlot {
        AbiSlot::Invalid
    }

    fn descriptor() -> (r: AbiSlot) {
        AbiSlot::Invalid
    }
}

/// A slot passed in the stack word at `OFFSET`.
pub struct Stacked<const OFFSET: usize>;

impl<const OFFSET: usize> ArgumentSlot for Stacked<OFFSET> {
    open spec fn descriptor_spec() -> AbiSlot {
        AbiSlot::Stacked(OFFSET)
    }

    fn descriptor() -> (r: AbiSlot) {
        AbiSlot::Stacked(OFFSET)
    }
}

} // verus!
