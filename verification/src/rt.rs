//! The runtime interface and per-ABI runtime contracts.
//!
//! A concrete runtime resolves symbols against the foreign image, runs
//! foreign calls under whatever memory-protection prelude it needs, and
//! provides the scoped allocation and callback helpers. The mock runtime
//! is the reference implementation.

use vstd::prelude::*;

use crate::abi::{ArgumentSlot, EncapfnABI};
use crate::branding::EFID;
use crate::types::{AllocTracker, EFPtr};
use crate::EFResult;

verus! {

/// The argument registers a callback trampoline captured on entry.
pub trait CallbackContext {
    /// The captured argument registers, in ABI order.
    spec fn arg_regs_spec(&self) -> Seq<usize>;

    /// The value of argument register `reg`, if the ABI has that many.
    fn get_argument_register(&self, reg: usize) -> (r: Option<usize>)
        ensures
            r is Some <==> reg < self.arg_regs_spec().len(),
            r is Some ==> r->0 == self.arg_regs_spec()[reg as int],
    ;
}

/// The return registers a callback writes before the trampoline returns
/// to foreign code.
pub trait CallbackReturn {
    /// The pending return-register block.
    spec fn return_regs_spec(&self) -> Seq<usize>;

    /// Set return register `reg`; false if the ABI has no such register.
    fn set_return_register(&mut self, reg: usize, value: usize) -> (r: bool)
        ensures
            r == (reg < old(self).return_regs_spec().len()),
            r ==> final(self).return_regs_spec() == old(self).return_regs_spec().update(
                reg as int,
                value,
            ),
            !r ==> final(self).return_regs_spec() == old(self).return_regs_spec(),
    ;
}

/// A concrete runtime for calling into foreign code.
///
/// Scoped allocation, scoped writes and callback setup are provided by
/// the runtime type itself, stated over its own tracker; the trait fixes
/// the symbol-resolution interface and the execution hook they share.
pub trait EncapfnRt: Sized {
    type ID: EFID;

    type AllocTracker: AllocTracker;

    type ABI: EncapfnABI;

    type SymbolTableState;

    /// Bulk-resolve symbol names against the foreign image.
    ///
    /// Every name of the compact table, and every present name of the
    /// fixed-offset table, must resolve for a state to be produced.
    fn resolve_symbols(
        &self,
        symbol_table: &Vec<String>,
        fixed_offset_symbol_table: &Vec<Option<String>>,
    ) -> Option<Self::SymbolTableState>;

    /// The address of a resolved symbol, by compact-table index.
    fn lookup_symbol(&self, index: usize, symtabstate: &Self::SymbolTableState) -> Option<usize>;

    /// Run `f` under the runtime's memory-protection prelude and
    /// epilogue; the default is to run it unchanged.
    fn execute<R, F: FnOnce() -> R>(&self, f: F) -> (r: R)
        requires
            call_requires(f, ()),
        ensures
            call_ensures(f, (), r),
    {
        f()
    }
}

/// The result-marshalling contract of a SysV AMD64 foreign call.
pub trait SysVAMD64InvokeRes<RT: SysVAMD64BaseRt, T>: Sized {
    /// A fresh, empty result block.
    fn new() -> Self;

    /// Read the call's result out of the return registers.
    fn into_result_registers(self, rt: &RT) -> EFResult<T>;

    /// Read the call's result from a stacked return location.
    fn into_result_stacked(self, rt: &RT, stacked_res: EFPtr<T>) -> EFResult<T>;
}

/// A runtime that calls foreign code under the SysV AMD64 ABI.
pub trait SysVAMD64BaseRt: EncapfnRt + Sized {

}

/// A SysV AMD64 runtime's invoke entry for one stack-spill count and one
/// return location.
pub trait SysVAMD64Rt<const STACK_SPILL: usize, RTLOC: ArgumentSlot>: SysVAMD64BaseRt {
    /// The invoke thunk: arguments are already placed per slot.
    fn invoke(&self);
}

/// The result-marshalling contract of an RV32I+C foreign call.
pub trait Rv32iCInvokeRes<RT: Rv32iCBaseRt, T>: Sized {
    /// A fresh, empty result block.
    fn new() -> Self;

    /// Read the call's result out of the return registers.
    fn into_result_registers(self, rt: &RT) -> EFResult<T>;

    /// Read the call's result from a stacked return location.
    fn into_result_stacked(self, rt: &RT, stacked_res: EFPtr<T>) -> EFResult<T>;
}

/// A runtime that calls foreign code under the RV32I+C ABI.
pub trait Rv32iCBaseRt: EncapfnRt + Sized {

}

/// An RV32I+C runtime's invoke entry for one stack-spill count and one
/// return location.
pub trait Rv32iCRt<const STACK_SPILL: usize, RTLOC: ArgumentSlot>: Rv32iCBaseRt {
    /// The invoke thunk: arguments are already placed per slot.
    fn invoke(&self);
}

} // verus!
