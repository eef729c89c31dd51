use encapfn::abi::{AbiRegister, AbiSlot, ArgumentSlot, EncapfnABI};
use encapfn::branding::{EFRuntimeBranding, EFID};
use encapfn::mock::{
    mock_rt_callback_dispatch, AllocLayout, CallbackTrampolineFnReturn, HeapAllocator, MockRt,
    MockRtAllocChain, MockRtAllocError, MockRtCallbackContext, MockRtCallbackDescriptor,
    MockRtCallbackReturn, MockRtCallbackTrampolinePool, MockRtAllocation, StackAllocator,
};
use encapfn::rt::{CallbackContext, CallbackReturn, EncapfnRt};
use encapfn::stack_alloc::{
    is_pow2, with_stacked_alloc, StackFrameAlloc, StackFrameAllocAMD64, StackFrameAllocRiscv,
};
use encapfn::EFError;

fn brand() -> EFRuntimeBranding {
    let mut counter: u64 = 0;
    EFRuntimeBranding::new(&mut counter)
}

#[test]
fn test_callback_round_trip() {
    let (mut rt, mut alloc, _access): (
        MockRt<EFRuntimeBranding, HeapAllocator>,
        _,
        _,
    ) = MockRt::new(false, HeapAllocator, brand(), 1024);
    let desc = MockRtCallbackDescriptor { wrapper: 7, context: 42 };
    let mut invocations: u32 = 0;
    assert!(!rt.callback_chain_installed());
    let out = rt.setup_callback(&desc, &mut alloc, |trampoline, inner_scope| {
        // Foreign code would call the trampoline; synthesize that call.
        let ctx = MockRtCallbackContext { arg_regs: [7, 0, 0, 0, 0, 0] };
        let mut ret = MockRtCallbackReturn { return_regs: [0, 0] };
        let (found, _cb_scope) = mock_rt_callback_dispatch::<EFRuntimeBranding>(
            inner_scope.tracker(),
            trampoline,
            inner_scope.id_imprint(),
        );
        assert_eq!(found, desc);
        // The host-side wrapper table maps the descriptor to behavior.
        if found.wrapper == 7 {
            invocations += 1;
            let a0 = ctx.get_argument_register(0).unwrap();
            assert!(ret.set_return_register(0, a0 + 1));
        }
        CallbackTrampolineFnReturn { reg0: ret.return_regs[0], reg1: ret.return_regs[1] }
    });
    let regs = out.unwrap();
    assert_eq!(regs.reg0, 8);
    assert_eq!(regs.reg1, 0);
    assert_eq!(invocations, 1);
    // The process-wide active chain head equals its value on entry.
    assert!(!rt.callback_chain_installed());
}

#[test]
fn test_callback_ids_are_dense_and_shadow() {
    let (mut rt, mut alloc, _access): (
        MockRt<EFRuntimeBranding, HeapAllocator>,
        _,
        _,
    ) = MockRt::new(false, HeapAllocator, brand(), 1024);
    let first = MockRtCallbackDescriptor { wrapper: 1, context: 0 };
    let second = MockRtCallbackDescriptor { wrapper: 2, context: 0 };
    let out = rt.setup_callback(&first, &mut alloc, |tid, inner| {
        assert_eq!(tid, 0);
        assert_eq!(inner.tracker().next_callback_id(), 1);
        assert_eq!(inner.tracker().find_callback_descriptor(0), Some(first));
        assert_eq!(inner.tracker().find_callback_descriptor(1), None);
        // A nested registration binds the next id in the nested chain.
        let nested_chain = MockRtAllocChain::Callback(
            1,
            second,
            Box::new(inner.tracker().clone()),
        );
        assert_eq!(nested_chain.next_callback_id(), 2);
        assert_eq!(nested_chain.find_callback_descriptor(1), Some(second));
        assert_eq!(nested_chain.find_callback_descriptor(0), Some(first));
        tid
    });
    assert_eq!(out.unwrap(), 0);
    // After return, the registration is dropped from the caller's scope.
    assert_eq!(alloc.tracker().next_callback_id(), 0);
    assert_eq!(alloc.tracker().find_callback_descriptor(0), None);
}

#[test]
fn test_callback_return_registers() {
    let mut ret = MockRtCallbackReturn { return_regs: [0, 0] };
    assert!(ret.set_return_register(0, 11));
    assert!(ret.set_return_register(1, 22));
    assert!(!ret.set_return_register(2, 33));
    assert_eq!(ret.return_regs, [11, 22]);
    let ctx = MockRtCallbackContext { arg_regs: [1, 2, 3, 4, 5, 6] };
    assert_eq!(ctx.get_argument_register(5), Some(6));
    assert_eq!(ctx.get_argument_register(6), None);
}

#[test]
fn test_trampoline_pool() {
    assert_eq!(
        MockRtCallbackTrampolinePool::<EFRuntimeBranding>::callback_count(),
        32
    );
    assert_eq!(
        MockRtCallbackTrampolinePool::<EFRuntimeBranding>::trampoline(3),
        3
    );
}

#[test]
fn test_allocate_untracked_layout_errors() {
    let (rt, _alloc, _access): (
        MockRt<EFRuntimeBranding, HeapAllocator>,
        _,
        _,
    ) = MockRt::new(false, HeapAllocator, brand(), 256);
    let zero = rt.allocate_stacked_untracked_mut(AllocLayout { size: 0, align: 4 }, |_a| ());
    assert_eq!(zero.err(), Some(EFError::AllocInvalidLayout));
    let crooked = rt.allocate_stacked_untracked_mut(AllocLayout { size: 8, align: 3 }, |_a| ());
    assert_eq!(crooked.err(), Some(EFError::AllocInvalidLayout));
    let huge = rt.allocate_stacked_untracked_mut(AllocLayout { size: 512, align: 4 }, |_a| ());
    assert_eq!(huge.err(), Some(EFError::AllocNoMem));
    let fine = rt.allocate_stacked_untracked_mut(AllocLayout { size: 16, align: 4 }, |a| a);
    let addr = fine.unwrap();
    assert!(addr % 4 == 0 && addr + 16 <= 256);
}

#[test]
fn test_allocate_stacked_nests_below_parent() {
    let (rt, mut alloc, _access): (
        MockRt<EFRuntimeBranding, HeapAllocator>,
        _,
        _,
    ) = MockRt::new(false, HeapAllocator, brand(), 1024);
    let out = rt.allocate_stacked_mut(
        AllocLayout { size: 16, align: 8 },
        &mut alloc,
        |outer_addr, s1| {
            assert_eq!(s1.tracker().stack_ptr(), outer_addr);
            let inner = rt
                .allocate_stacked_mut(AllocLayout { size: 8, align: 8 }, s1, |inner_addr, _s2| {
                    inner_addr
                })
                .unwrap();
            assert!(inner + 8 <= outer_addr);
            outer_addr
        },
    );
    let outer_addr = out.unwrap();
    assert!(outer_addr + 16 <= 1024);
}

#[test]
fn test_stack_allocator_with_alloc_restores_sp() {
    let allocator: StackAllocator<StackFrameAllocAMD64> = StackAllocator::new();
    let mut sp: usize = 1024;
    let got = allocator.with_alloc(&mut sp, 100, 8, |addr| addr);
    // 1024 - 100 = 924, aligned down to 16 gives 912.
    assert_eq!(got.unwrap(), 912);
    assert_eq!(sp, 1024);
    let bad = allocator.with_alloc(&mut sp, 0, 8, |addr| addr);
    assert_eq!(bad.err(), Some(MockRtAllocError::InvalidLayout));
    assert_eq!(sp, 1024);
    let too_big = allocator.with_alloc(&mut sp, 4096, 8, |addr| addr);
    assert_eq!(too_big.err(), Some(MockRtAllocError::NoMem));
    assert_eq!(sp, 1024);
}

#[test]
fn test_with_stacked_alloc_restores_sp() {
    let mut sp: usize = 2000;
    let addr = with_stacked_alloc::<StackFrameAllocRiscv, _, _>(&mut sp, 10, 4, |a| a);
    // 2000 - 10 = 1990, aligned down to 16 gives 1984.
    assert_eq!(addr, 1984);
    assert_eq!(sp, 2000);
}

#[test]
fn test_stack_frame_alloc_arch_values() {
    assert_eq!(StackFrameAllocAMD64::stack_alloc(1000, 10, 4), 976);
    assert_eq!(StackFrameAllocRiscv::stack_alloc(1000, 10, 4), 976);
    // An alignment above the 16-byte floor is honored exactly.
    assert_eq!(StackFrameAllocAMD64::stack_alloc(1000, 10, 64), 960);
}

#[test]
fn test_is_pow2() {
    assert!(is_pow2(1));
    assert!(is_pow2(2));
    assert!(is_pow2(16));
    assert!(is_pow2(4096));
    assert!(!is_pow2(0));
    assert!(!is_pow2(3));
    assert!(!is_pow2(12));
}

#[test]
fn test_mock_rt_symbol_interface() {
    let (rt, _alloc, _access): (
        MockRt<EFRuntimeBranding, HeapAllocator>,
        _,
        _,
    ) = MockRt::new(false, HeapAllocator, brand(), 64);
    let state = rt.resolve_symbols(&vec![String::from("foreign_fn")], &vec![None]);
    assert!(state.is_some());
    assert_eq!(rt.lookup_symbol(0, &state.unwrap()), None);
}

#[test]
fn test_mock_rt_execute_default() {
    let (rt, _alloc, _access): (
        MockRt<EFRuntimeBranding, HeapAllocator>,
        _,
        _,
    ) = MockRt::new(false, HeapAllocator, brand(), 64);
    assert_eq!(rt.execute(|| 5u32), 5);
}

#[test]
fn test_zero_copy_immutable_regions_reject_mutable_upgrade() {
    let (rt, mut alloc, mut access): (
        MockRt<EFRuntimeBranding, HeapAllocator>,
        _,
        _,
    ) = MockRt::new(true, HeapAllocator, brand(), 4096);
    let out = rt.write_stacked_t(9u32, &mut alloc, &mut access, |r, s, a| {
        // The region is tracked immutable: a writable upgrade must fail,
        // while reads and validation still work.
        assert!(r.as_ptr().upgrade_mut(s).is_none());
        assert!(r.as_ptr().upgrade(s).is_some());
        *r.validate(a).unwrap().unwrap().value()
    });
    assert_eq!(out.unwrap(), 9);
}

#[test]
fn test_chain_queries() {
    let base = MockRtAllocChain::Base(0x1000);
    assert_eq!(base.stack_ptr(), 0x1000);
    assert!(!base.is_valid_int(0x10, 4, false));
    let with_alloc = MockRtAllocChain::Allocation(
        MockRtAllocation { ptr: 0xF00, len: 0x100, mutable: true },
        Box::new(base),
    );
    assert_eq!(with_alloc.stack_ptr(), 0xF00);
    assert!(with_alloc.is_valid_int(0xF80, 0x80, true));
    assert!(!with_alloc.is_valid_int(0xF80, 0x81, false));
    let with_cb = MockRtAllocChain::Callback(
        0,
        MockRtCallbackDescriptor { wrapper: 9, context: 1 },
        Box::new(with_alloc),
    );
    // Callback entries never satisfy allocation queries, and keep the
    // predecessor's stack pointer.
    assert!(with_cb.is_valid_int(0xF80, 0x80, true));
    assert_eq!(with_cb.stack_ptr(), 0xF00);
    assert_eq!(with_cb.next_callback_id(), 1);
    let cont = MockRtAllocChain::Cons(Box::new(with_cb));
    assert_eq!(cont.next_callback_id(), 1);
    assert_eq!(
        cont.find_callback_descriptor(0),
        Some(MockRtCallbackDescriptor { wrapper: 9, context: 1 })
    );
}

#[test]
fn test_abi_slot_tables() {
    assert_eq!(
        <encapfn::abi::SysVAMD64ABI as EncapfnABI>::argument_slot(0),
        AbiSlot::Register(AbiRegister::Rdi)
    );
    assert_eq!(
        <encapfn::abi::SysVAMD64ABI as EncapfnABI>::argument_slot(5),
        AbiSlot::Register(AbiRegister::R9)
    );
    assert_eq!(
        <encapfn::abi::SysVAMD64ABI as EncapfnABI>::argument_slot(6),
        AbiSlot::Stacked(0)
    );
    assert_eq!(
        <encapfn::abi::SysVAMD64ABI as EncapfnABI>::argument_slot(9),
        AbiSlot::Stacked(3)
    );
    assert_eq!(
        <encapfn::abi::Rv32iCABI as EncapfnABI>::argument_slot(7),
        AbiSlot::Register(AbiRegister::A7)
    );
    assert_eq!(
        <encapfn::abi::Rv32iCABI as EncapfnABI>::argument_slot(8),
        AbiSlot::Stacked(0)
    );
    assert_eq!(
        <encapfn::abi::GenericABI as EncapfnABI>::argument_slot(0),
        AbiSlot::Invalid
    );
    assert_eq!(encapfn::abi::Invalid::descriptor(), AbiSlot::Invalid);
    assert_eq!(encapfn::abi::Stacked::<3>::descriptor(), AbiSlot::Stacked(3));
}

#[test]
fn test_scope_accessors() {
    let b = brand();
    let mut scope: encapfn::types::AllocScope<MockRtAllocChain, EFRuntimeBranding> =
        encapfn::types::AllocScope::new(MockRtAllocChain::Base(128), b.get_imprint());
    assert_eq!(scope.tracker().stack_ptr(), 128);
    assert!(EFRuntimeBranding::compare(
        &scope.id_imprint(),
        &b.get_imprint()
    ));
    // A mutable tracker borrow can replace the chain in place.
    *scope.tracker_mut() = MockRtAllocChain::Base(64);
    assert_eq!(scope.tracker().stack_ptr(), 64);
    let access: encapfn::types::AccessScope<EFRuntimeBranding> =
        encapfn::types::AccessScope::new(b.get_imprint(), vec![0; 32]);
    assert_eq!(access.mem_len(), 32);
    assert!(EFRuntimeBranding::compare(
        &access.id_imprint(),
        &b.get_imprint()
    ));
}
