use encapfn::branding::{EFRuntimeBranding, EFID};
use encapfn::ef_type::{EFType, EFValue};
use encapfn::mock::{
    HeapAllocator, MockRtAllocChain, MockRtAllocation, MockRt,
};
use encapfn::types::{validate_elements, AccessScope, AllocScope, EFCopy, EFPtr};
use encapfn::EFError;

fn brand() -> EFRuntimeBranding {
    let mut counter: u64 = 0;
    EFRuntimeBranding::new(&mut counter)
}

fn two_brands() -> (EFRuntimeBranding, EFRuntimeBranding) {
    let mut counter: u64 = 0;
    let b1 = EFRuntimeBranding::new(&mut counter);
    let b2 = EFRuntimeBranding::new(&mut counter);
    (b1, b2)
}

#[test]
fn test_u32_little_endian_codec() {
    let bytes = 0x0102_0304u32.encode();
    assert_eq!(bytes, vec![0x04, 0x03, 0x02, 0x01]);
    assert_eq!(u32::decode(&bytes), 0x0102_0304);
    assert_eq!(u32::size_of(), 4);
    assert_eq!(u32::align_of(), 4);
}

#[test]
fn test_u64_little_endian_codec() {
    let bytes = 0x1122_3344_5566_7788u64.encode();
    assert_eq!(bytes, vec![0x88, 0x77, 0x66, 0x55, 0x44, 0x33, 0x22, 0x11]);
    assert_eq!(u64::decode(&bytes), 0x1122_3344_5566_7788);
}

#[test]
fn test_u16_and_u8_codecs() {
    assert_eq!(0xBEEFu16.encode(), vec![0xEF, 0xBE]);
    assert_eq!(u16::decode(&vec![0xEF, 0xBE]), 0xBEEF);
    assert_eq!(0x7Fu8.encode(), vec![0x7F]);
    assert_eq!(u8::decode(&vec![0x7F]), 0x7F);
}

#[test]
fn test_bool_codec_and_validation() {
    assert_eq!(true.encode(), vec![1]);
    assert_eq!(false.encode(), vec![0]);
    assert!(bool::validate(&vec![0]));
    assert!(bool::validate(&vec![1]));
    assert!(!bool::validate(&vec![2]));
    assert!(!bool::validate(&vec![0xFF]));
}

#[test]
fn test_ptr_codec() {
    let p = EFPtr::<u32>::new(0x1234);
    let bytes = p.encode();
    assert_eq!(bytes, vec![0x34, 0x12, 0, 0, 0, 0, 0, 0]);
    assert_eq!(EFPtr::<u32>::decode(&bytes).addr, 0x1234);
}

#[test]
fn test_ptr_null_and_cast() {
    assert_eq!(EFPtr::<u32>::null().addr, 0);
    let p = EFPtr::<u32>::new(0x40);
    assert_eq!(p.cast::<u8>().addr, 0x40);
}

#[test]
fn test_allocation_matches() {
    let region = MockRtAllocation { ptr: 0x1000, len: 8, mutable: true };
    assert!(region.matches(0x1000, 8, false));
    assert!(region.matches(0x1004, 4, true));
    assert!(!region.matches(0x0FFF, 2, false));
    assert!(!region.matches(0x1001, 8, false));
    assert!(!region.matches(usize::MAX, 2, false));
    let ro = MockRtAllocation { ptr: 0x1000, len: 8, mutable: false };
    assert!(ro.matches(0x1000, 8, false));
    assert!(!ro.matches(0x1000, 8, true));
}

#[test]
fn test_upgrade_checks_alignment_and_range() {
    let tracker = MockRtAllocChain::Allocation(
        MockRtAllocation { ptr: 0x1000, len: 8, mutable: true },
        Box::new(MockRtAllocChain::Base(0x2000)),
    );
    let scope: AllocScope<MockRtAllocChain, EFRuntimeBranding> =
        AllocScope::new(tracker, brand().get_imprint());
    assert!(EFPtr::<u32>::new(0x1001).upgrade_mut(&scope).is_none());
    assert!(EFPtr::<u32>::new(0x1000).upgrade_mut(&scope).is_some());
    assert!(EFPtr::<u32>::new(0x1007).upgrade_mut(&scope).is_none());
    assert!(EFPtr::<u32>::new(0x1004).upgrade(&scope).is_some());
}

#[test]
fn test_upgrade_needs_tracked_region() {
    let scope: AllocScope<MockRtAllocChain, EFRuntimeBranding> =
        AllocScope::new(MockRtAllocChain::Base(0x2000), brand().get_imprint());
    assert!(EFPtr::<u32>::new(0x1000).upgrade(&scope).is_none());
}

#[test]
fn test_upgrade_mut_needs_mutable_region() {
    let tracker = MockRtAllocChain::Allocation(
        MockRtAllocation { ptr: 0x100, len: 4, mutable: false },
        Box::new(MockRtAllocChain::Base(0x200)),
    );
    let scope: AllocScope<MockRtAllocChain, EFRuntimeBranding> =
        AllocScope::new(tracker, brand().get_imprint());
    assert!(EFPtr::<u32>::new(0x100).upgrade(&scope).is_some());
    assert!(EFPtr::<u32>::new(0x100).upgrade_mut(&scope).is_none());
}

#[test]
fn test_upgrade_slice_needs_full_coverage() {
    let tracker = MockRtAllocChain::Allocation(
        MockRtAllocation { ptr: 0x100, len: 16, mutable: true },
        Box::new(MockRtAllocChain::Base(0x200)),
    );
    let scope: AllocScope<MockRtAllocChain, EFRuntimeBranding> =
        AllocScope::new(tracker, brand().get_imprint());
    assert!(EFPtr::<u32>::new(0x100).upgrade_slice(4, &scope).is_some());
    assert!(EFPtr::<u32>::new(0x100).upgrade_slice(5, &scope).is_none());
    assert!(EFPtr::<u32>::new(0x100).upgrade_slice_mut(2, &scope).is_some());
}

#[test]
fn test_write_then_validate_roundtrip() {
    let (rt, mut alloc, mut access): (
        MockRt<EFRuntimeBranding, HeapAllocator>,
        _,
        _,
    ) = MockRt::new(false, HeapAllocator, brand(), 4096);
    let out = rt.write_stacked_t(0xDEAD_BEEFu32, &mut alloc, &mut access, |r, _s, a| {
        r.validate(a).unwrap().map(|v| *v.value())
    });
    assert_eq!(out.unwrap(), Some(0xDEAD_BEEF));
}

#[test]
fn test_write_then_copy_roundtrip() {
    let (rt, mut alloc, mut access): (
        MockRt<EFRuntimeBranding, HeapAllocator>,
        _,
        _,
    ) = MockRt::new(false, HeapAllocator, brand(), 4096);
    let out = rt.write_stacked_t_mut(0x0102_0304u32, &mut alloc, &mut access, |mr, _s, a| {
        let copy = mr.copy(a).unwrap();
        copy.validate().map_err(|_| ()).unwrap()
    });
    assert_eq!(out.unwrap(), 0x0102_0304);
}

#[test]
fn test_invalid_bool_rejected() {
    let (rt, mut alloc, mut access): (
        MockRt<EFRuntimeBranding, HeapAllocator>,
        _,
        _,
    ) = MockRt::new(false, HeapAllocator, brand(), 4096);
    let out = rt.write_stacked_t_mut(false, &mut alloc, &mut access, |mr, s, a| {
        // Scribble the byte 0x02 over the bool, as foreign code could.
        let byte_ref = mr.as_ptr().cast::<u8>().upgrade_mut(s).unwrap();
        let raw = EFCopy::<u8>::new(2);
        byte_ref.write_copy(&raw, a).unwrap();
        mr.validate(a).unwrap().is_none()
    });
    assert_eq!(out.unwrap(), true);
}

#[test]
fn test_bool_copy_validates() {
    assert_eq!(EFCopy::<bool>::new(true).validate().ok(), Some(true));
    assert_eq!(EFCopy::<u32>::new(5).clone().validate().ok(), Some(5));
    assert_eq!(EFCopy::<u32>::zeroed().validate_copy(), Some(0));
}

#[test]
fn test_slice_validation_short_circuit() {
    let (rt, mut alloc, mut access): (
        MockRt<EFRuntimeBranding, HeapAllocator>,
        _,
        _,
    ) = MockRt::new(false, HeapAllocator, brand(), 4096);
    let out = rt.allocate_stacked_slice_mut::<bool, _, _>(3, &mut alloc, |ms, s| {
        // Fill the three bool slots with the bytes 0, 1, 2: the third
        // byte is no valid bool pattern.
        let base = ms.as_ptr().addr;
        for (i, byte) in [0u8, 1, 2].iter().enumerate() {
            let r = EFPtr::<u8>::new(base + i).upgrade_mut(s).unwrap();
            r.write(*byte, &mut access).unwrap();
        }
        let validated = ms.as_immut().validate(&access).unwrap();
        assert!(validated.is_none());
        // The element-wise validator stops at the first invalid element:
        // it touched elements 0, 1 and 2, and no more.
        assert_eq!(validate_elements::<EFRuntimeBranding, bool>(&access, base, 3), Err(2));
        let valid = ms.as_immut();
        (valid.len(), base)
    });
    let (len, base) = out.unwrap();
    assert_eq!(len, 3);
    assert!(base > 0);
}

#[test]
fn test_slice_copy_and_validate() {
    let (rt, mut alloc, mut access): (
        MockRt<EFRuntimeBranding, HeapAllocator>,
        _,
        _,
    ) = MockRt::new(false, HeapAllocator, brand(), 4096);
    let out = rt.allocate_stacked_slice_mut::<u32, _, _>(3, &mut alloc, |ms, _s| {
        let written = ms.copy_from_slice(&vec![10, 20, 30], &mut access).unwrap();
        assert_eq!(written.values(), &vec![10, 20, 30]);
        let validated = ms.as_immut().validate(&access).unwrap().unwrap();
        validated.values().clone()
    });
    assert_eq!(out.unwrap(), vec![10, 20, 30]);
}

#[test]
fn test_slice_get_and_iter() {
    let (rt, mut alloc, mut access): (
        MockRt<EFRuntimeBranding, HeapAllocator>,
        _,
        _,
    ) = MockRt::new(false, HeapAllocator, brand(), 4096);
    let out = rt.write_stacked_slice(&vec![5u32, 6, 7], &mut alloc, &mut access, |sl, _s, a| {
        assert_eq!(sl.len(), 3);
        assert!(sl.get(3).is_none());
        let second = sl.get(1).unwrap();
        let v = *second.validate(a).unwrap().unwrap().value();
        let mut iter = sl.iter();
        let mut seen = Vec::new();
        while let Some(elem) = iter.next() {
            seen.push(*elem.validate(a).unwrap().unwrap().value());
        }
        (v, seen)
    });
    let (v, seen) = out.unwrap();
    assert_eq!(v, 6);
    assert_eq!(seen, vec![5, 6, 7]);
}

#[test]
fn test_validate_as_str() {
    let (rt, mut alloc, mut access): (
        MockRt<EFRuntimeBranding, HeapAllocator>,
        _,
        _,
    ) = MockRt::new(false, HeapAllocator, brand(), 4096);
    let out = rt.write_stacked_slice(&vec![104u8, 105u8], &mut alloc, &mut access, |sl, _s, a| {
        sl.validate_as_str(a).unwrap().map(|v| v.value().clone())
    });
    assert_eq!(out.unwrap(), Some(String::from("hi")));
    let bad = rt.write_stacked_slice(&vec![0xFFu8], &mut alloc, &mut access, |sl, _s, a| {
        sl.validate_as_str(a).unwrap().is_none()
    });
    assert_eq!(bad.unwrap(), true);
}

#[test]
fn test_id_mismatch() {
    let (b1, b2) = two_brands();
    let tracker = MockRtAllocChain::Allocation(
        MockRtAllocation { ptr: 0x10, len: 8, mutable: true },
        Box::new(MockRtAllocChain::Base(0x40)),
    );
    let scope_1: AllocScope<MockRtAllocChain, EFRuntimeBranding> =
        AllocScope::new(tracker, b1.get_imprint());
    let mut access_2: AccessScope<EFRuntimeBranding> =
        AccessScope::new(b2.get_imprint(), vec![0; 0x40]);
    let mr = EFPtr::<u32>::new(0x10).upgrade_mut(&scope_1).unwrap();
    assert_eq!(mr.write(5u32, &mut access_2).err(), Some(EFError::IDMismatch));
    assert_eq!(mr.copy(&access_2).err(), Some(EFError::IDMismatch));
    assert_eq!(mr.validate(&access_2).err(), Some(EFError::IDMismatch));
}

#[test]
fn test_out_of_arena_reference_is_internal_error() {
    let b = brand();
    let tracker = MockRtAllocChain::Allocation(
        MockRtAllocation { ptr: 0x1000, len: 8, mutable: true },
        Box::new(MockRtAllocChain::Base(0x2000)),
    );
    let scope: AllocScope<MockRtAllocChain, EFRuntimeBranding> =
        AllocScope::new(tracker, b.get_imprint());
    // The access scope's arena is far smaller than the tracked address.
    let mut access: AccessScope<EFRuntimeBranding> =
        AccessScope::new(b.get_imprint(), vec![0; 16]);
    let mr = EFPtr::<u32>::new(0x1000).upgrade_mut(&scope).unwrap();
    assert_eq!(mr.write(5u32, &mut access).err(), Some(EFError::InternalError));
    assert_eq!(mr.copy(&access).err(), Some(EFError::InternalError));
}

#[test]
fn test_nested_scopes_shadow() {
    let (rt, mut alloc, mut access): (
        MockRt<EFRuntimeBranding, HeapAllocator>,
        _,
        _,
    ) = MockRt::new(false, HeapAllocator, brand(), 4096);
    let out = rt.allocate_stacked_t_mut::<u32, _, _>(&mut alloc, |r1, s1| {
        r1.write(1u32, &mut access).unwrap();
        let inner_addr = rt
            .allocate_stacked_t_mut::<u32, _, _>(s1, |r2, _s2| {
                r2.write(2u32, &mut access).unwrap();
                r2.as_ptr().addr
            })
            .unwrap();
        // The inner closure has returned: its region is tracked nowhere
        // in the outer scope, so the pointer no longer upgrades...
        assert!(EFPtr::<u32>::new(inner_addr).upgrade(s1).is_none());
        // ...while the outer region still does.
        assert!(r1.as_ptr().upgrade(s1).is_some());
        *r1.validate(&access).unwrap().unwrap().value()
    });
    assert_eq!(out.unwrap(), 1);
}

#[test]
fn test_array_refs() {
    let (rt, mut alloc, mut access): (
        MockRt<EFRuntimeBranding, HeapAllocator>,
        _,
        _,
    ) = MockRt::new(false, HeapAllocator, brand(), 4096);
    let out = rt.allocate_stacked_t_mut::<[u32; 3], _, _>(&mut alloc, |arr, _s| {
        assert_eq!(arr.len(), 3);
        assert!(arr.get(3).is_none());
        arr.copy_from_slice(&vec![7u32, 8, 9], &mut access).unwrap();
        let ro = arr.get(2).unwrap().as_immut();
        let third = *ro.validate(&access).unwrap().unwrap().value();
        let mut sum = 0u32;
        let mut iter = arr.iter();
        while let Some(elem) = iter.next() {
            sum += *elem.validate(&access).unwrap().unwrap().value();
        }
        (third, sum)
    });
    assert_eq!(out.unwrap(), (9, 24));
}

#[test]
fn test_copy_update_from_ref() {
    let (rt, mut alloc, mut access): (
        MockRt<EFRuntimeBranding, HeapAllocator>,
        _,
        _,
    ) = MockRt::new(false, HeapAllocator, brand(), 4096);
    let out = rt.write_stacked_t(0x55AAu16, &mut alloc, &mut access, |r, _s, a| {
        let mut copy = EFCopy::<u16>::zeroed();
        copy.update_from_ref(r, a).unwrap();
        copy.validate_copy()
    });
    assert_eq!(out.unwrap(), Some(0x55AA));
}

#[test]
fn test_val_as_ref_and_as_mut() {
    let (rt, mut alloc, mut access): (
        MockRt<EFRuntimeBranding, HeapAllocator>,
        _,
        _,
    ) = MockRt::new(false, HeapAllocator, brand(), 4096);
    let out = rt.write_stacked_t_mut(3u32, &mut alloc, &mut access, |mr, _s, a| {
        let val = mr.validate(a).unwrap().unwrap();
        let again = val.as_mut().write(4u32, a).unwrap();
        let reread = *again.as_ref().validate(a).unwrap().unwrap().value();
        assert!(encapfn::branding::EFRuntimeBranding::compare(
            &val.id_imprint(),
            &mr.id_imprint()
        ));
        reread
    });
    assert_eq!(out.unwrap(), 4);
}

#[test]
fn test_signed_codecs() {
    assert_eq!((-1i32).encode(), vec![0xFF, 0xFF, 0xFF, 0xFF]);
    assert_eq!(i32::decode(&vec![0xFF, 0xFF, 0xFF, 0xFF]), -1);
    assert_eq!((-2i8).encode(), vec![0xFE]);
    assert_eq!(i8::decode(&vec![0xFE]), -2);
    assert_eq!((-0x8000i16).encode(), vec![0x00, 0x80]);
    assert_eq!(i16::decode(&vec![0x00, 0x80]), -0x8000);
    assert_eq!(0x0102_0304_0506_0708i64.encode().len(), 8);
    assert_eq!(
        i64::decode(&0x0102_0304_0506_0708i64.encode()),
        0x0102_0304_0506_0708
    );
}

#[test]
fn test_unit_codec() {
    assert_eq!(<() as encapfn::ef_type::EFType>::size_of(), 0);
    assert_eq!(().encode(), Vec::<u8>::new());
}

#[test]
fn test_wide_codecs() {
    let v: u128 = 0x0102_0304_0506_0708_090A_0B0C_0D0E_0F10;
    let bytes = v.encode();
    assert_eq!(bytes.len(), 16);
    assert_eq!(bytes[0], 0x10);
    assert_eq!(bytes[15], 0x01);
    assert_eq!(u128::decode(&bytes), v);
    let w: i128 = -2;
    assert_eq!(i128::decode(&w.encode()), -2);
}

#[test]
fn test_usize_codec() {
    let bytes = 0x55usize.encode();
    assert_eq!(bytes, vec![0x55, 0, 0, 0, 0, 0, 0, 0]);
    assert_eq!(usize::decode(&bytes), 0x55);
    assert!(usize::validate(&bytes));
}

#[test]
fn test_sub_ref_projection() {
    let (rt, mut alloc, mut access): (
        MockRt<EFRuntimeBranding, HeapAllocator>,
        _,
        _,
    ) = MockRt::new(false, HeapAllocator, brand(), 4096);
    let out = rt.allocate_stacked_t_mut::<[u32; 2], _, _>(&mut alloc, |outer, _s| {
        outer.copy_from_slice(&vec![3u32, 4], &mut access).unwrap();
        // Project the second field of the pair out of the outer referent.
        let field = outer.sub_ref::<u32>(4);
        let second = *field.validate(&access).unwrap().unwrap().value();
        let first = *field.as_immut().sub_ref::<u32>(0).validate(&access).unwrap().unwrap().value();
        (first, second)
    });
    assert_eq!(out.unwrap(), (4, 4));
}

#[test]
fn test_write_stacked_slice_mut() {
    let (rt, mut alloc, mut access): (
        MockRt<EFRuntimeBranding, HeapAllocator>,
        _,
        _,
    ) = MockRt::new(false, HeapAllocator, brand(), 4096);
    let out = rt.write_stacked_slice_mut(&vec![1u16, 2, 3], &mut alloc, &mut access, |ms, s, a| {
        // The region is handed out writable: overwrite one element and
        // read the slice back.
        assert!(ms.as_ptr().upgrade_slice_mut(3, s).is_some());
        let base = ms.as_ptr().addr;
        let second = EFPtr::<u16>::new(base + 2).upgrade_mut(s).unwrap();
        second.write(9u16, a).unwrap();
        ms.validate(a).unwrap().unwrap().values().clone()
    });
    assert_eq!(out.unwrap(), vec![1, 9, 3]);
}
