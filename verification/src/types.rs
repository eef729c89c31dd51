//! Scope tokens and the typed foreign-memory reference layer.
//!
//! A raw pointer ([`EFPtr`]) carries no guarantee. Upgrading it against an
//! allocation scope yields a reference ([`EFRef`], [`EFMutRef`]) that is
//! aligned and lies inside a tracked region. Reading or writing through a
//! reference takes an access scope, whose exclusive borrow witnesses that
//! no foreign code is running; validated reads produce [`EFVal`] witnesses
//! that the memory held a valid value of the type at that moment.

use core::marker::PhantomData;
use vstd::prelude::*;

use crate::branding::EFID;
use crate::ef_type::{EFType, EFValue};
use crate::mem::{copy_bytes_in, copy_bytes_out, lemma_write_bytes_frame, read_bytes, write_bytes};
use crate::EFError;

verus! {

/// A tracker of live foreign-memory regions.
///
/// `valid_spec` says whether some tracked region covers the query range
/// `[ptr, ptr + len)`, with the mutability the caller demands. A range
/// whose end would not fit the address space is never covered.
pub trait AllocTracker {
    /// Whether a tracked region covers `[ptr, ptr + len)`.
    spec fn valid_spec(&self, ptr: int, len: int, mutable: bool) -> bool;

    fn is_valid(&self, ptr: usize, len: usize) -> (r: bool)
        ensures
            r == self.valid_spec(ptr as int, len as int, false),
    ;

    fn is_valid_mut(&self, ptr: usize, len: usize) -> (r: bool)
        ensures
            r == self.valid_spec(ptr as int, len as int, true),
    ;
}

/// Capability token that owns an allocation tracker.
///
/// References can only be upgraded against an allocation scope, and carry
/// its brand imprint. Nested scopes are created by the runtime's scoped
/// allocation helpers and expire with the closure they are handed to.
pub struct AllocScope<T: AllocTracker, ID: EFID> {
    tracker: T,
    id_imprint: ID::Imprint,
}

impl<T: AllocTracker, ID: EFID> AllocScope<T, ID> {
    /// The tracker this scope owns.
    pub closed spec fn tracker_spec(&self) -> T {
        self.tracker
    }

    /// The identity of the imprint this scope carries.
    pub closed spec fn imprint_spec(&self) -> int {
        ID::imprint_value(self.id_imprint)
    }

    /// Construct a scope over `tracker`, imprinted with `id_imprint`.
    ///
    /// The caller vouches that the tracker describes regions it may hand
    /// out and that it may issue the given imprint; the runtime's own
    /// helpers are the intended callers.
    pub fn new(tracker: T, id_imprint: ID::Imprint) -> (r: Self)
        ensures
            r.tracker_spec() == tracker,
            r.imprint_spec() == ID::imprint_value(id_imprint),
    {
        AllocScope { tracker, id_imprint }
    }

    pub fn tracker(&self) -> (r: &T)
        ensures
            *r == self.tracker_spec(),
    {
        &self.tracker
    }

    pub fn tracker_mut(&mut self) -> (r: &mut T)
        ensures
            mut_ref_current(r) == old(self).tracker_spec(),
            final(self).tracker_spec() == mut_ref_future(r),
            final(self).imprint_spec() == old(self).imprint_spec(),
    {
        &mut self.tracker
    }

    pub fn id_imprint(&self) -> (r: ID::Imprint)
        ensures
            ID::imprint_value(r) == self.imprint_spec(),
    {
        self.id_imprint
    }
}

/// Capability token that authorizes access to foreign memory.
///
/// The token holds the arena of foreign-visible bytes: a shared borrow
/// authorizes reads, an exclusive borrow authorizes writes. Its brand
/// imprint must compare equal to a reference's imprint before the
/// reference may touch the arena.
pub struct AccessScope<ID: EFID> {
    id_imprint: ID::Imprint,
    mem: Vec<u8>,
}

impl<ID: EFID> AccessScope<ID> {
    /// The identity of the imprint this scope carries.
    pub closed spec fn imprint_spec(&self) -> int {
        ID::imprint_value(self.id_imprint)
    }

    /// The foreign-visible bytes this scope guards.
    pub closed spec fn mem_spec(&self) -> Seq<u8> {
        self.mem@
    }

    /// Construct a scope over the arena `memory`.
    ///
    /// The caller vouches that it may issue the given imprint and that no
    /// other access scope of the same brand is reachable; the runtime's
    /// constructor is the intended caller.
    pub fn new(id_imprint: ID::Imprint, memory: Vec<u8>) -> (r: Self)
        ensures
            r.imprint_spec() == ID::imprint_value(id_imprint),
            r.mem_spec() == memory@,
    {
        AccessScope { id_imprint, mem: memory }
    }

    pub fn id_imprint(&self) -> (r: ID::Imprint)
        ensures
            ID::imprint_value(r) == self.imprint_spec(),
    {
        self.id_imprint
    }

    /// The size of the arena, in bytes.
    pub fn mem_len(&self) -> (r: usize)
        ensures
            r == self.mem_spec().len(),
    {
        self.mem.len()
    }

    fn read_range(&self, addr: usize, len: usize) -> (r: Vec<u8>)
        requires
            addr + len <= self.mem_spec().len(),
        ensures
            r@ == read_bytes(self.mem_spec(), addr as int, len as int),
    {
        copy_bytes_out(&self.mem, addr, len)
    }

    fn write_range(&mut self, addr: usize, bytes: &Vec<u8>)
        requires
            addr + bytes@.len() <= old(self).mem_spec().len(),
        ensures
            final(self).mem_spec() == write_bytes(old(self).mem_spec(), addr as int, bytes@),
            final(self).imprint_spec() == old(self).imprint_spec(),
    {
        copy_bytes_in(&mut self.mem, addr, bytes)
    }
}

/// A raw foreign pointer: an address with a target type, no guarantees.
pub struct EFPtr<T> {
    pub addr: usize,
    pub _type: PhantomData<T>,
}

impl<T> Clone for EFPtr<T> {
    fn clone(&self) -> (r: Self)
        ensures
            r == *self,
    {
        EFPtr { addr: self.addr, _type: PhantomData }
    }
}

impl<T> Copy for EFPtr<T> {

}

impl<T> EFPtr<T> {
    /// The pointer at address `addr`.
    pub fn new(addr: usize) -> (r: Self)
        ensures
            r.addr == addr,
    {
        EFPtr { addr, _type: PhantomData }
    }

    /// The null pointer.
    pub fn null() -> (r: Self)
        ensures
            r.addr == 0,
    {
        EFPtr { addr: 0, _type: PhantomData }
    }

    /// The same address taken as a pointer to another type.
    pub fn cast<U>(self) -> (r: EFPtr<U>)
        ensures
            r.addr == self.addr,
    {
        EFPtr { addr: self.addr, _type: PhantomData }
    }
}

impl<T: EFType> EFPtr<T> {
    /// Upgrade to a readable reference.
    ///
    /// Succeeds exactly when the pointer is aligned for `T` and the
    /// scope's tracker covers `size_of::<T>()` bytes at the address.
    pub fn upgrade<R: AllocTracker, ID: EFID>(&self, alloc_scope: &AllocScope<R, ID>) -> (r:
        Option<EFRef<ID, T>>)
        requires
            T::size_spec() <= usize::MAX,
            T::align_spec() <= usize::MAX,
        ensures
            r is Some <==> (self.addr as int % T::align_spec() == 0
                && alloc_scope.tracker_spec().valid_spec(self.addr as int, T::size_spec(), false)),
            r is Some ==> r->0.addr_spec() == self.addr && r->0.imprint_id()
                == alloc_scope.imprint_spec(),
    {
        proof {
            T::size_align_facts();
        }
        let size = T::size_of();
        let align = T::align_of();
        if self.addr % align == 0 && alloc_scope.tracker().is_valid(self.addr, size) {
            Some(EFRef { addr: self.addr, id_imprint: alloc_scope.id_imprint(), _type: PhantomData })
        } else {
            None
        }
    }

    /// Upgrade to a writable reference; the covering region must be
    /// tracked as mutable.
    pub fn upgrade_mut<R: AllocTracker, ID: EFID>(&self, alloc_scope: &AllocScope<R, ID>) -> (r:
        Option<EFMutRef<ID, T>>)
        requires
            T::size_spec() <= usize::MAX,
            T::align_spec() <= usize::MAX,
        ensures
            r is Some <==> (self.addr as int % T::align_spec() == 0
                && alloc_scope.tracker_spec().valid_spec(self.addr as int, T::size_spec(), true)),
            r is Some ==> r->0.addr_spec() == self.addr && r->0.imprint_id()
                == alloc_scope.imprint_spec(),
    {
        proof {
            T::size_align_facts();
        }
        let size = T::size_of();
        let align = T::align_of();
        if self.addr % align == 0 && alloc_scope.tracker().is_valid_mut(self.addr, size) {
            Some(
                EFMutRef { addr: self.addr, id_imprint: alloc_scope.id_imprint(), _type: PhantomData },
            )
        } else {
            None
        }
    }

    /// Upgrade to a readable slice of `length` elements.
    pub fn upgrade_slice<R: AllocTracker, ID: EFID>(
        &self,
        length: usize,
        alloc_scope: &AllocScope<R, ID>,
    ) -> (r: Option<EFSlice<ID, T>>)
        requires
            T::size_spec() <= usize::MAX,
            T::align_spec() <= usize::MAX,
        ensures
            r is Some <==> (self.addr as int % T::align_spec() == 0 && length * T::size_spec()
                <= usize::MAX && alloc_scope.tracker_spec().valid_spec(
                self.addr as int,
                length * T::size_spec(),
                false,
            )),
            r is Some ==> r->0.addr_spec() == self.addr && r->0.len_spec() == length
                && r->0.imprint_id() == alloc_scope.imprint_spec(),
    {
        proof {
            T::size_align_facts();
        }
        let size = T::size_of();
        let align = T::align_of();
        if self.addr % align != 0 {
            return None;
        }
        match length.checked_mul(size) {
            Some(byte_len) => {
                if alloc_scope.tracker().is_valid(self.addr, byte_len) {
                    Some(
                        EFSlice {
                            addr: self.addr,
                            len: length,
                            id_imprint: alloc_scope.id_imprint(),
                            _type: PhantomData,
                        },
                    )
                } else {
                    None
                }
            },
            None => None,
        }
    }

    /// Upgrade to a writable slice of `length` elements.
    pub fn upgrade_slice_mut<R: AllocTracker, ID: EFID>(
        &self,
        length: usize,
        alloc_scope: &AllocScope<R, ID>,
    ) -> (r: Option<EFMutSlice<ID, T>>)
        requires
            T::size_spec() <= usize::MAX,
            T::align_spec() <= usize::MAX,
        ensures
            r is Some <==> (self.addr as int % T::align_spec() == 0 && length * T::size_spec()
                <= usize::MAX && alloc_scope.tracker_spec().valid_spec(
                self.addr as int,
                length * T::size_spec(),
                true,
            )),
            r is Some ==> r->0.addr_spec() == self.addr && r->0.len_spec() == length
                && r->0.imprint_id() == alloc_scope.imprint_spec(),
    {
        proof {
            T::size_align_facts();
        }
        let size = T::size_of();
        let align = T::align_of();
        if self.addr % align != 0 {
            return None;
        }
        match length.checked_mul(size) {
            Some(byte_len) => {
                if alloc_scope.tracker().is_valid_mut(self.addr, byte_len) {
                    Some(
                        EFMutSlice {
                            addr: self.addr,
                            len: length,
                            id_imprint: alloc_scope.id_imprint(),
                            _type: PhantomData,
                        },
                    )
                } else {
                    None
                }
            },
            None => None,
        }
    }
}

/// A readable reference into tracked foreign memory.
///
/// The reference is aligned and covered by its scope's tracker, but the
/// bytes behind it may be anything: foreign code may rewrite them at any
/// suspension point. Nothing but validation turns it into a value.
pub struct EFRef<ID: EFID, T> {
    addr: usize,
    id_imprint: ID::Imprint,
    _type: PhantomData<T>,
}

/// A writable reference into tracked foreign memory.
pub struct EFMutRef<ID: EFID, T> {
    addr: usize,
    id_imprint: ID::Imprint,
    _type: PhantomData<T>,
}

/// A readable slice of tracked foreign memory; the length lives on the
/// host side, never in foreign memory.
pub struct EFSlice<ID: EFID, T> {
    addr: usize,
    len: usize,
    id_imprint: ID::Imprint,
    _type: PhantomData<T>,
}

/// A writable slice of tracked foreign memory.
pub struct EFMutSlice<ID: EFID, T> {
    addr: usize,
    len: usize,
    id_imprint: ID::Imprint,
    _type: PhantomData<T>,
}

impl<ID: EFID, T> EFRef<ID, T> {
    pub closed spec fn addr_spec(&self) -> usize {
        self.addr
    }

    pub closed spec fn imprint_id(&self) -> int {
        ID::imprint_value(self.id_imprint)
    }

    pub fn id_imprint(&self) -> (r: ID::Imprint)
        ensures
            ID::imprint_value(r) == self.imprint_id(),
    {
        self.id_imprint
    }

    pub fn as_ptr(&self) -> (r: EFPtr<T>)
        ensures
            r.addr == self.addr_spec(),
    {
        EFPtr { addr: self.addr, _type: PhantomData }
    }
}

impl<ID: EFID, T> Clone for EFRef<ID, T> {
    fn clone(&self) -> (r: Self)
        ensures
            r == *self,
    {
        EFRef { addr: self.addr, id_imprint: self.id_imprint, _type: PhantomData }
    }
}

impl<ID: EFID, T> Copy for EFRef<ID, T> {

}

impl<ID: EFID, T> EFMutRef<ID, T> {
    pub closed spec fn addr_spec(&self) -> usize {
        self.addr
    }

    pub closed spec fn imprint_id(&self) -> int {
        ID::imprint_value(self.id_imprint)
    }

    pub fn id_imprint(&self) -> (r: ID::Imprint)
        ensures
            ID::imprint_value(r) == self.imprint_id(),
    {
        self.id_imprint
    }

    pub fn as_ptr(&self) -> (r: EFPtr<T>)
        ensures
            r.addr == self.addr_spec(),
    {
        EFPtr { addr: self.addr, _type: PhantomData }
    }

    /// View the reference as read-only.
    pub fn as_immut(&self) -> (r: EFRef<ID, T>)
        ensures
            r.addr_spec() == self.addr_spec(),
            r.imprint_id() == self.imprint_id(),
    {
        EFRef { addr: self.addr, id_imprint: self.id_imprint, _type: PhantomData }
    }
}

impl<ID: EFID, T> Clone for EFMutRef<ID, T> {
    fn clone(&self) -> (r: Self)
        ensures
            r == *self,
    {
        EFMutRef { addr: self.addr, id_imprint: self.id_imprint, _type: PhantomData }
    }
}

impl<ID: EFID, T> Copy for EFMutRef<ID, T> {

}

impl<ID: EFID, T> EFSlice<ID, T> {
    pub closed spec fn addr_spec(&self) -> usize {
        self.addr
    }

    pub closed spec fn len_spec(&self) -> usize {
        self.len
    }

    pub closed spec fn imprint_id(&self) -> int {
        ID::imprint_value(self.id_imprint)
    }

    pub fn id_imprint(&self) -> (r: ID::Imprint)
        ensures
            ID::imprint_value(r) == self.imprint_id(),
    {
        self.id_imprint
    }

    pub fn as_ptr(&self) -> (r: EFPtr<T>)
        ensures
            r.addr == self.addr_spec(),
    {
        EFPtr { addr: self.addr, _type: PhantomData }
    }

    /// The number of elements, kept host-side.
    pub fn len(&self) -> (r: usize)
        ensures
            r == self.len_spec(),
    {
        self.len
    }
}

impl<ID: EFID, T> Clone for EFSlice<ID, T> {
    fn clone(&self) -> (r: Self)
        ensures
            r == *self,
    {
        EFSlice { addr: self.addr, len: self.len, id_imprint: self.id_imprint, _type: PhantomData }
    }
}

impl<ID: EFID, T> Copy for EFSlice<ID, T> {

}

impl<ID: EFID, T> EFMutSlice<ID, T> {
    pub closed spec fn addr_spec(&self) -> usize {
        self.addr
    }

    pub closed spec fn len_spec(&self) -> usize {
        self.len
    }

    pub closed spec fn imprint_id(&self) -> int {
        ID::imprint_value(self.id_imprint)
    }

    pub fn id_imprint(&self) -> (r: ID::Imprint)
        ensures
            ID::imprint_value(r) == self.imprint_id(),
    {
        self.id_imprint
    }

    pub fn as_ptr(&self) -> (r: EFPtr<T>)
        ensures
            r.addr == self.addr_spec(),
    {
        EFPtr { addr: self.addr, _type: PhantomData }
    }

    /// View the slice as read-only.
    pub fn as_immut(&self) -> (r: EFSlice<ID, T>)
        ensures
            r.addr_spec() == self.addr_spec(),
            r.len_spec() == self.len_spec(),
            r.imprint_id() == self.imprint_id(),
    {
        EFSlice { addr: self.addr, len: self.len, id_imprint: self.id_imprint, _type: PhantomData }
    }

    /// The number of elements, kept host-side.
    pub fn len(&self) -> (r: usize)
        ensures
            r == self.len_spec(),
    {
        self.len
    }
}

impl<ID: EFID, T> Clone for EFMutSlice<ID, T> {
    fn clone(&self) -> (r: Self)
        ensures
            r == *self,
    {
        EFMutSlice {
            addr: self.addr,
            len: self.len,
            id_imprint: self.id_imprint,
            _type: PhantomData,
        }
    }
}

impl<ID: EFID, T> Copy for EFMutSlice<ID, T> {

}


/// A host-owned byte image of a foreign `T`.
///
/// The bytes are copied out of (or destined for) foreign memory and may
/// be any pattern; extracting a typed value requires validation.
pub struct EFCopy<T> {
    bytes: Vec<u8>,
    _type: PhantomData<T>,
}

impl<T> EFCopy<T> {
    /// The byte image.
    pub closed spec fn bytes_view(&self) -> Seq<u8> {
        self.bytes@
    }
}

impl<T> Clone for EFCopy<T> {
    /// Byte-wise copy of the image; `T` itself need not be `Clone`.
    fn clone(&self) -> (r: Self)
        ensures
            r.bytes_view() == self.bytes_view(),
    {
        let n = self.bytes.len();
        let mut out: Vec<u8> = Vec::new();
        let mut i: usize = 0;
        while i < n
            invariant
                i <= n == self.bytes@.len(),
                out@ == self.bytes@.subrange(0, i as int),
            decreases n - i,
        {
            out.push(self.bytes[i]);
            proof {
                assert(out@ =~= self.bytes@.subrange(0, i + 1));
            }
            i += 1;
        }
        proof {
            assert(out@ =~= self.bytes@);
        }
        EFCopy { bytes: out, _type: PhantomData }
    }
}

impl<T: EFType> EFCopy<T> {
    /// The image has exactly the type's size.
    pub open spec fn wf(&self) -> bool {
        self.bytes_view().len() == T::size_spec()
    }

    /// An all-zero image.
    pub fn zeroed() -> (r: Self)
        requires
            T::size_spec() <= usize::MAX,
        ensures
            r.wf(),
            r.bytes_view() == Seq::new(T::size_spec() as nat, |i: int| 0u8),
    {
        let size = T::size_of();
        let mut bytes: Vec<u8> = Vec::new();
        let mut i: usize = 0;
        while i < size
            invariant
                i <= size,
                bytes@ == Seq::new(i as nat, |j: int| 0u8),
            decreases size - i,
        {
            bytes.push(0u8);
            proof {
                assert(bytes@ =~= Seq::new((i + 1) as nat, |j: int| 0u8));
            }
            i += 1;
        }
        EFCopy { bytes, _type: PhantomData }
    }

    /// Refresh the image from foreign memory behind `r`.
    pub fn update_from_ref<ID: EFID>(
        &mut self,
        r: EFRef<ID, T>,
        access_scope: &AccessScope<ID>,
    ) -> (res: Result<(), EFError>)
        requires
            T::size_spec() <= usize::MAX,
        ensures
            r.imprint_id() != access_scope.imprint_spec() ==> res is Err && res->Err_0
                == EFError::IDMismatch && final(self).bytes_view() == old(self).bytes_view(),
            r.imprint_id() == access_scope.imprint_spec() && r.addr_spec() + T::size_spec()
                > access_scope.mem_spec().len() ==> res is Err && res->Err_0
                == EFError::InternalError && final(self).bytes_view() == old(self).bytes_view(),
            r.imprint_id() == access_scope.imprint_spec() && r.addr_spec() + T::size_spec()
                <= access_scope.mem_spec().len() ==> res is Ok && final(self).bytes_view()
                == read_bytes(
                access_scope.mem_spec(),
                r.addr_spec() as int,
                T::size_spec(),
            ) && final(self).wf(),
    {
        if !ID::compare(&r.id_imprint(), &access_scope.id_imprint()) {
            return Err(EFError::IDMismatch);
        }
        let size = T::size_of();
        let ml = access_scope.mem_len();
        let ptr = r.as_ptr();
        if ptr.addr > usize::MAX - size || ptr.addr + size > ml {
            return Err(EFError::InternalError);
        }
        self.bytes = access_scope.read_range(ptr.addr, size);
        Ok(())
    }

    /// Refresh the image from foreign memory behind `r`.
    pub fn update_from_mut_ref<ID: EFID>(
        &mut self,
        r: EFMutRef<ID, T>,
        access_scope: &AccessScope<ID>,
    ) -> (res: Result<(), EFError>)
        requires
            T::size_spec() <= usize::MAX,
        ensures
            r.imprint_id() != access_scope.imprint_spec() ==> res is Err && res->Err_0
                == EFError::IDMismatch && final(self).bytes_view() == old(self).bytes_view(),
            r.imprint_id() == access_scope.imprint_spec() && r.addr_spec() + T::size_spec()
                > access_scope.mem_spec().len() ==> res is Err && res->Err_0
                == EFError::InternalError && final(self).bytes_view() == old(self).bytes_view(),
            r.imprint_id() == access_scope.imprint_spec() && r.addr_spec() + T::size_spec()
                <= access_scope.mem_spec().len() ==> res is Ok && final(self).bytes_view()
                == read_bytes(
                access_scope.mem_spec(),
                r.addr_spec() as int,
                T::size_spec(),
            ) && final(self).wf(),
    {
        self.update_from_ref(r.as_immut(), access_scope)
    }
}

impl<T: EFValue> EFCopy<T> {
    /// The image of a host value.
    pub fn new(val: T) -> (r: Self)
        ensures
            r.bytes_view() == T::bytes_spec(val),
            r.wf(),
    {
        proof {
            T::encode_wf(val);
        }
        EFCopy { bytes: val.encode(), _type: PhantomData }
    }

    /// Extract the typed value, if the image is a valid pattern; hand the
    /// image back otherwise.
    pub fn validate(self) -> (r: Result<T, Self>)
        requires
            self.wf(),
        ensures
            T::valid_spec(self.bytes_view()) ==> r is Ok && r->Ok_0 == T::value_spec(
                self.bytes_view(),
            ),
            !T::valid_spec(self.bytes_view()) ==> r is Err && r->Err_0.bytes_view()
                == self.bytes_view(),
    {
        if T::validate(&self.bytes) {
            Ok(T::decode(&self.bytes))
        } else {
            Err(self)
        }
    }

    /// Extract the typed value from a copy of the image, if it is valid.
    pub fn validate_copy(&self) -> (r: Option<T>)
        requires
            self.wf(),
        ensures
            r is Some <==> T::valid_spec(self.bytes_view()),
            r is Some ==> r->0 == T::value_spec(self.bytes_view()),
    {
        let cloned = self.clone();
        match cloned.validate() {
            Ok(v) => Some(v),
            Err(_) => None,
        }
    }
}

/// A witness that foreign memory held a valid `T`.
///
/// The witness carries the decoded host value; it is valid only for the
/// duration of the access-scope borrow that produced it, since foreign
/// code running afterwards may rewrite the bytes.
pub struct EFVal<ID: EFID, T> {
    addr: usize,
    id_imprint: ID::Imprint,
    value: T,
}

impl<ID: EFID, T> EFVal<ID, T> {
    pub closed spec fn addr_spec(&self) -> usize {
        self.addr
    }

    pub closed spec fn imprint_id(&self) -> int {
        ID::imprint_value(self.id_imprint)
    }

    /// The witnessed host value.
    pub closed spec fn value_spec(&self) -> T {
        self.value
    }

    pub fn id_imprint(&self) -> (r: ID::Imprint)
        ensures
            ID::imprint_value(r) == self.imprint_id(),
    {
        self.id_imprint
    }

    /// Read the witnessed value.
    pub fn value(&self) -> (r: &T)
        ensures
            *r == self.value_spec(),
    {
        &self.value
    }

    /// The reference the witness was drawn from, read-only.
    pub fn as_ref(&self) -> (r: EFRef<ID, T>)
        ensures
            r.addr_spec() == self.addr_spec(),
            r.imprint_id() == self.imprint_id(),
    {
        EFRef { addr: self.addr, id_imprint: self.id_imprint, _type: PhantomData }
    }

    /// The reference the witness was drawn from, writable.
    pub fn as_mut(&self) -> (r: EFMutRef<ID, T>)
        ensures
            r.addr_spec() == self.addr_spec(),
            r.imprint_id() == self.imprint_id(),
    {
        EFMutRef { addr: self.addr, id_imprint: self.id_imprint, _type: PhantomData }
    }
}

/// A witness that a foreign slice held valid `T` values throughout.
pub struct EFSliceVal<ID: EFID, T> {
    addr: usize,
    id_imprint: ID::Imprint,
    values: Vec<T>,
}

impl<ID: EFID, T> EFSliceVal<ID, T> {
    pub closed spec fn addr_spec(&self) -> usize {
        self.addr
    }

    pub closed spec fn imprint_id(&self) -> int {
        ID::imprint_value(self.id_imprint)
    }

    /// The witnessed host values.
    pub closed spec fn values_spec(&self) -> Seq<T> {
        self.values@
    }

    pub fn id_imprint(&self) -> (r: ID::Imprint)
        ensures
            ID::imprint_value(r) == self.imprint_id(),
    {
        self.id_imprint
    }

    /// Read the witnessed values.
    pub fn values(&self) -> (r: &Vec<T>)
        ensures
            r@ == self.values_spec(),
    {
        &self.values
    }
}

impl<ID: EFID, T: EFValue> EFRef<ID, T> {
    /// Copy the bytes behind the reference into a host-owned image.
    pub fn copy(&self, access_scope: &AccessScope<ID>) -> (r: Result<EFCopy<T>, EFError>)
        requires
            T::size_spec() <= usize::MAX,
        ensures
            self.imprint_id() != access_scope.imprint_spec() ==> r is Err && r->Err_0
                == EFError::IDMismatch,
            self.imprint_id() == access_scope.imprint_spec() && self.addr_spec() + T::size_spec()
                > access_scope.mem_spec().len() ==> r is Err && r->Err_0 == EFError::InternalError,
            self.imprint_id() == access_scope.imprint_spec() && self.addr_spec() + T::size_spec()
                <= access_scope.mem_spec().len() ==> r is Ok && r->Ok_0.bytes_view() == read_bytes(
                access_scope.mem_spec(),
                self.addr_spec() as int,
                T::size_spec(),
            ) && r->Ok_0.wf(),
    {
        let mut copy = EFCopy::<T>::zeroed();
        match copy.update_from_ref(*self, access_scope) {
            Ok(()) => Ok(copy),
            Err(e) => Err(e),
        }
    }

    /// Validate the bytes behind the reference and witness the value.
    ///
    /// A validation failure is no error: it returns `None` so the caller
    /// can retry or sanitize. An imprint mismatch is an error.
    pub fn validate(&self, access_scope: &AccessScope<ID>) -> (r: Result<
        Option<EFVal<ID, T>>,
        EFError,
    >)
        requires
            T::size_spec() <= usize::MAX,
        ensures
            self.imprint_id() != access_scope.imprint_spec() ==> r is Err && r->Err_0
                == EFError::IDMismatch,
            self.imprint_id() == access_scope.imprint_spec() && self.addr_spec() + T::size_spec()
                > access_scope.mem_spec().len() ==> r is Err && r->Err_0 == EFError::InternalError,
            self.imprint_id() == access_scope.imprint_spec() && self.addr_spec() + T::size_spec()
                <= access_scope.mem_spec().len() ==> r is Ok && {
                let bytes = read_bytes(
                    access_scope.mem_spec(),
                    self.addr_spec() as int,
                    T::size_spec(),
                );
                &&& T::valid_spec(bytes) <==> r->Ok_0 is Some
                &&& r->Ok_0 is Some ==> r->Ok_0->0.value_spec() == T::value_spec(bytes)
                    && r->Ok_0->0.addr_spec() == self.addr_spec() && r->Ok_0->0.imprint_id()
                    == self.imprint_id()
            },
    {
        if !ID::compare(&self.id_imprint, &access_scope.id_imprint()) {
            return Err(EFError::IDMismatch);
        }
        let size = T::size_of();
        let ml = access_scope.mem_len();
        if self.addr > usize::MAX - size || self.addr + size > ml {
            return Err(EFError::InternalError);
        }
        let bytes = access_scope.read_range(self.addr, size);
        if T::validate(&bytes) {
            Ok(
                Some(
                    EFVal {
                        addr: self.addr,
                        id_imprint: self.id_imprint,
                        value: T::decode(&bytes),
                    },
                ),
            )
        } else {
            Ok(None)
        }
    }
}


impl<ID: EFID, T: EFValue> EFMutRef<ID, T> {
    /// Store `val` into foreign memory and witness the stored value.
    ///
    /// The exclusive access-scope borrow witnesses that neither the host
    /// nor foreign code holds any other access.
    pub fn write(&self, val: T, access_scope: &mut AccessScope<ID>) -> (r: Result<
        EFVal<ID, T>,
        EFError,
    >)
        requires
            T::size_spec() <= usize::MAX,
        ensures
            self.imprint_id() != old(access_scope).imprint_spec() ==> r is Err && r->Err_0
                == EFError::IDMismatch && *final(access_scope) == *old(access_scope),
            self.imprint_id() == old(access_scope).imprint_spec() && self.addr_spec()
                + T::size_spec() > old(access_scope).mem_spec().len() ==> r is Err && r->Err_0
                == EFError::InternalError && *final(access_scope) == *old(access_scope),
            self.imprint_id() == old(access_scope).imprint_spec() && self.addr_spec()
                + T::size_spec() <= old(access_scope).mem_spec().len() ==> r is Ok
                && final(access_scope).mem_spec() == write_bytes(
                old(access_scope).mem_spec(),
                self.addr_spec() as int,
                T::bytes_spec(val),
            ) && final(access_scope).imprint_spec() == old(access_scope).imprint_spec()
                && r->Ok_0.value_spec() == val && r->Ok_0.addr_spec() == self.addr_spec()
                && r->Ok_0.imprint_id() == self.imprint_id(),
    {
        proof {
            T::encode_wf(val);
        }
        if !ID::compare(&self.id_imprint, &access_scope.id_imprint()) {
            return Err(EFError::IDMismatch);
        }
        let size = T::size_of();
        let ml = access_scope.mem_len();
        if self.addr > usize::MAX - size || self.addr + size > ml {
            return Err(EFError::InternalError);
        }
        let bytes = val.encode();
        access_scope.write_range(self.addr, &bytes);
        Ok(EFVal { addr: self.addr, id_imprint: self.id_imprint, value: val })
    }

    /// Store a host-owned byte image into foreign memory, unvalidated.
    pub fn write_copy(&self, copy: &EFCopy<T>, access_scope: &mut AccessScope<ID>) -> (r: Result<
        (),
        EFError,
    >)
        requires
            T::size_spec() <= usize::MAX,
            copy.wf(),
        ensures
            self.imprint_id() != old(access_scope).imprint_spec() ==> r is Err && r->Err_0
                == EFError::IDMismatch && *final(access_scope) == *old(access_scope),
            self.imprint_id() == old(access_scope).imprint_spec() && self.addr_spec()
                + T::size_spec() > old(access_scope).mem_spec().len() ==> r is Err && r->Err_0
                == EFError::InternalError && *final(access_scope) == *old(access_scope),
            self.imprint_id() == old(access_scope).imprint_spec() && self.addr_spec()
                + T::size_spec() <= old(access_scope).mem_spec().len() ==> r is Ok
                && final(access_scope).mem_spec() == write_bytes(
                old(access_scope).mem_spec(),
                self.addr_spec() as int,
                copy.bytes_view(),
            ) && final(access_scope).imprint_spec() == old(access_scope).imprint_spec(),
    {
        if !ID::compare(&self.id_imprint, &access_scope.id_imprint()) {
            return Err(EFError::IDMismatch);
        }
        let size = T::size_of();
        let ml = access_scope.mem_len();
        if self.addr > usize::MAX - size || self.addr + size > ml {
            return Err(EFError::InternalError);
        }
        access_scope.write_range(self.addr, &copy.bytes);
        Ok(())
    }

    /// Store the value behind a host reference; `T` must be `Copy`.
    pub fn write_ref(&self, val: &T, access_scope: &mut AccessScope<ID>) -> (r: Result<
        EFVal<ID, T>,
        EFError,
    >) where T: Copy
        requires
            T::size_spec() <= usize::MAX,
        ensures
            self.imprint_id() != old(access_scope).imprint_spec() ==> r is Err && r->Err_0
                == EFError::IDMismatch && *final(access_scope) == *old(access_scope),
            self.imprint_id() == old(access_scope).imprint_spec() && self.addr_spec()
                + T::size_spec() > old(access_scope).mem_spec().len() ==> r is Err && r->Err_0
                == EFError::InternalError && *final(access_scope) == *old(access_scope),
            self.imprint_id() == old(access_scope).imprint_spec() && self.addr_spec()
                + T::size_spec() <= old(access_scope).mem_spec().len() ==> r is Ok
                && final(access_scope).mem_spec() == write_bytes(
                old(access_scope).mem_spec(),
                self.addr_spec() as int,
                T::bytes_spec(*val),
            ) && final(access_scope).imprint_spec() == old(access_scope).imprint_spec()
                && r->Ok_0.value_spec() == *val && r->Ok_0.addr_spec() == self.addr_spec()
                && r->Ok_0.imprint_id() == self.imprint_id(),
    {
        self.write(*val, access_scope)
    }

    /// Copy the bytes behind the reference into a host-owned image.
    pub fn copy(&self, access_scope: &AccessScope<ID>) -> (r: Result<EFCopy<T>, EFError>)
        requires
            T::size_spec() <= usize::MAX,
        ensures
            self.imprint_id() != access_scope.imprint_spec() ==> r is Err && r->Err_0
                == EFError::IDMismatch,
            self.imprint_id() == access_scope.imprint_spec() && self.addr_spec() + T::size_spec()
                > access_scope.mem_spec().len() ==> r is Err && r->Err_0 == EFError::InternalError,
            self.imprint_id() == access_scope.imprint_spec() && self.addr_spec() + T::size_spec()
                <= access_scope.mem_spec().len() ==> r is Ok && r->Ok_0.bytes_view() == read_bytes(
                access_scope.mem_spec(),
                self.addr_spec() as int,
                T::size_spec(),
            ) && r->Ok_0.wf(),
    {
        self.as_immut().copy(access_scope)
    }

    /// Validate the bytes behind the reference and witness the value.
    pub fn validate(&self, access_scope: &AccessScope<ID>) -> (r: Result<
        Option<EFVal<ID, T>>,
        EFError,
    >)
        requires
            T::size_spec() <= usize::MAX,
        ensures
            self.imprint_id() != access_scope.imprint_spec() ==> r is Err && r->Err_0
                == EFError::IDMismatch,
            self.imprint_id() == access_scope.imprint_spec() && self.addr_spec() + T::size_spec()
                > access_scope.mem_spec().len() ==> r is Err && r->Err_0 == EFError::InternalError,
            self.imprint_id() == access_scope.imprint_spec() && self.addr_spec() + T::size_spec()
                <= access_scope.mem_spec().len() ==> r is Ok && {
                let bytes = read_bytes(
                    access_scope.mem_spec(),
                    self.addr_spec() as int,
                    T::size_spec(),
                );
                &&& T::valid_spec(bytes) <==> r->Ok_0 is Some
                &&& r->Ok_0 is Some ==> r->Ok_0->0.value_spec() == T::value_spec(bytes)
                    && r->Ok_0->0.addr_spec() == self.addr_spec() && r->Ok_0->0.imprint_id()
                    == self.imprint_id()
            },
    {
        self.as_immut().validate(access_scope)
    }
}


/// The bytes of the `i`-th element of an element range at `addr`.
pub open spec fn elem_bytes<T: EFType>(mem: Seq<u8>, addr: int, i: int) -> Seq<u8> {
    read_bytes(mem, addr + i * T::size_spec(), T::size_spec())
}

/// Validate `count` consecutive elements of type `T`, first to last,
/// stopping at the first invalid one.
///
/// `Err(i)` says the elements before `i` are valid and element `i` is
/// not: the validator touched exactly `i + 1` elements.
pub fn validate_elements<ID: EFID, T: EFType>(
    access_scope: &AccessScope<ID>,
    addr: usize,
    count: usize,
) -> (r: Result<(), usize>)
    requires
        T::size_spec() <= usize::MAX,
        count * T::size_spec() <= usize::MAX,
        addr + count * T::size_spec() <= access_scope.mem_spec().len(),
    ensures
        r is Ok <==> (forall|i: int|
            0 <= i < count ==> T::valid_spec(
                #[trigger] elem_bytes::<T>(access_scope.mem_spec(), addr as int, i),
            )),
        r is Err ==> r->Err_0 < count && !T::valid_spec(
            elem_bytes::<T>(access_scope.mem_spec(), addr as int, r->Err_0 as int),
        ) && (forall|i: int|
            0 <= i < r->Err_0 ==> T::valid_spec(
                #[trigger] elem_bytes::<T>(access_scope.mem_spec(), addr as int, i),
            )),
{
    proof {
        T::size_align_facts();
    }
    let size = T::size_of();
    let ml = access_scope.mem_len();
    let mut i: usize = 0;
    while i < count
        invariant
            T::size_spec() <= usize::MAX,
            count * T::size_spec() <= usize::MAX,
            addr + count * T::size_spec() <= access_scope.mem_spec().len(),
            access_scope.mem_spec().len() == ml,
            i <= count,
            0 <= T::size_spec(),
            size == T::size_spec(),
            forall|j: int|
                0 <= j < i ==> T::valid_spec(
                    #[trigger] elem_bytes::<T>(access_scope.mem_spec(), addr as int, j),
                ),
        decreases count - i,
    {
        proof {
            assert(i * size <= count * size && (i + 1) * size <= count * size && (i + 1) * size
                == i * size + size) by (nonlinear_arith)
                requires
                    0 <= size,
                    0 <= i,
                    i + 1 <= count,
            ;
        }
        let bytes = access_scope.read_range(addr + i * size, size);
        proof {
            assert(bytes@ == elem_bytes::<T>(access_scope.mem_spec(), addr as int, i as int));
        }
        if !T::validate(&bytes) {
            return Err(i);
        }
        i += 1;
    }
    Ok(())
}

impl<ID: EFID, T: EFType> EFSlice<ID, T> {
    /// The reference to the `idx`-th element.
    pub fn get(&self, idx: usize) -> (r: Option<EFRef<ID, T>>)
        requires
            T::size_spec() <= usize::MAX,
        ensures
            r is Some <==> idx < self.len_spec() && self.addr_spec() + idx * T::size_spec()
                <= usize::MAX,
            r is Some ==> r->0.addr_spec() == self.addr_spec() + idx * T::size_spec()
                && r->0.imprint_id() == self.imprint_id(),
    {
        if idx >= self.len {
            return None;
        }
        let size = T::size_of();
        match idx.checked_mul(size) {
            Some(off) => match self.addr.checked_add(off) {
                Some(elem_addr) => Some(
                    EFRef { addr: elem_addr, id_imprint: self.id_imprint, _type: PhantomData },
                ),
                None => None,
            },
            None => None,
        }
    }

    /// Walk the elements front to back.
    pub fn iter(&self) -> (r: EFSliceIter<ID, T>)
        ensures
            r.inner_spec() == *self,
            r.idx_spec() == 0,
    {
        EFSliceIter { inner: *self, idx: 0 }
    }
}

impl<ID: EFID, T: EFValue> EFSlice<ID, T> {
    /// Validate every element and witness the values.
    ///
    /// Elements are checked first to last; checking stops at the first
    /// invalid element and yields `Ok(None)`.
    pub fn validate(&self, access_scope: &AccessScope<ID>) -> (r: Result<
        Option<EFSliceVal<ID, T>>,
        EFError,
    >)
        requires
            T::size_spec() <= usize::MAX,
        ensures
            self.imprint_id() != access_scope.imprint_spec() ==> r is Err && r->Err_0
                == EFError::IDMismatch,
            self.imprint_id() == access_scope.imprint_spec() && (self.len_spec() * T::size_spec()
                > usize::MAX || self.addr_spec() + self.len_spec() * T::size_spec()
                > access_scope.mem_spec().len()) ==> r is Err && r->Err_0 == EFError::InternalError,
            self.imprint_id() == access_scope.imprint_spec() && self.len_spec() * T::size_spec()
                <= usize::MAX && self.addr_spec() + self.len_spec() * T::size_spec()
                <= access_scope.mem_spec().len() ==> r is Ok && {
                &&& r->Ok_0 is Some <==> (forall|i: int|
                    0 <= i < self.len_spec() ==> T::valid_spec(
                        #[trigger] elem_bytes::<T>(
                            access_scope.mem_spec(),
                            self.addr_spec() as int,
                            i,
                        ),
                    ))
                &&& r->Ok_0 is Some ==> {
                    &&& r->Ok_0->0.values_spec().len() == self.len_spec()
                    &&& (forall|i: int|
                        0 <= i < self.len_spec() ==> #[trigger] r->Ok_0->0.values_spec()[i]
                            == T::value_spec(
                            elem_bytes::<T>(access_scope.mem_spec(), self.addr_spec() as int, i),
                        ))
                    &&& r->Ok_0->0.addr_spec() == self.addr_spec()
                    &&& r->Ok_0->0.imprint_id() == self.imprint_id()
                }
            },
    {
        proof {
            T::size_align_facts();
        }
        if !ID::compare(&self.id_imprint, &access_scope.id_imprint()) {
            return Err(EFError::IDMismatch);
        }
        let size = T::size_of();
        let ml = access_scope.mem_len();
        let byte_len = match self.len.checked_mul(size) {
            Some(b) => b,
            None => {
                return Err(EFError::InternalError);
            },
        };
        if self.addr > usize::MAX - byte_len || self.addr + byte_len > ml {
            return Err(EFError::InternalError);
        }
        match validate_elements::<ID, T>(access_scope, self.addr, self.len) {
            Err(_) => Ok(None),
            Ok(()) => {
                let mut values: Vec<T> = Vec::new();
                let mut i: usize = 0;
                while i < self.len
                    invariant
                        i <= self.len,
                        size == T::size_spec(),
                        0 <= T::size_spec() <= usize::MAX,
                        self.len * size <= usize::MAX,
                        self.addr + self.len * size <= access_scope.mem_spec().len(),
                        access_scope.mem_spec().len() == ml,
                        values@.len() == i,
                        forall|j: int|
                            0 <= j < self.len ==> T::valid_spec(
                                #[trigger] elem_bytes::<T>(
                                    access_scope.mem_spec(),
                                    self.addr as int,
                                    j,
                                ),
                            ),
                        forall|j: int|
                            0 <= j < i ==> #[trigger] values@[j] == T::value_spec(
                                elem_bytes::<T>(access_scope.mem_spec(), self.addr as int, j),
                            ),
                    decreases self.len - i,
                {
                    proof {
                        assert(i * size <= self.len * size && (i + 1) * size <= self.len * size
                            && (i + 1) * size == i * size + size) by (nonlinear_arith)
                            requires
                                0 <= size,
                                0 <= i,
                                i + 1 <= self.len,
                        ;
                    }
                    let bytes = access_scope.read_range(self.addr + i * size, size);
                    proof {
                        assert(bytes@ == elem_bytes::<T>(
                            access_scope.mem_spec(),
                            self.addr as int,
                            i as int,
                        ));
                    }
                    values.push(T::decode(&bytes));
                    i += 1;
                }
                Ok(
                    Some(
                        EFSliceVal { addr: self.addr, id_imprint: self.id_imprint, values },
                    ),
                )
            },
        }
    }
}

/// An iterator over the element references of a foreign slice.
pub struct EFSliceIter<ID: EFID, T> {
    inner: EFSlice<ID, T>,
    idx: usize,
}

impl<ID: EFID, T: EFType> EFSliceIter<ID, T> {
    pub closed spec fn inner_spec(&self) -> EFSlice<ID, T> {
        self.inner
    }

    pub closed spec fn idx_spec(&self) -> usize {
        self.idx
    }

    /// The reference to the next element, if one is left.
    pub fn next(&mut self) -> (r: Option<EFRef<ID, T>>)
        requires
            T::size_spec() <= usize::MAX,
        ensures
            final(self).inner_spec() == old(self).inner_spec(),
            r is Some <==> old(self).idx_spec() < old(self).inner_spec().len_spec() && old(
                self,
            ).inner_spec().addr_spec() + old(self).idx_spec() * T::size_spec() <= usize::MAX,
            r is Some ==> final(self).idx_spec() == old(self).idx_spec() + 1
                && r->0.addr_spec() == old(self).inner_spec().addr_spec() + old(self).idx_spec()
                * T::size_spec() && r->0.imprint_id() == old(self).inner_spec().imprint_id(),
            r is None ==> final(self).idx_spec() == old(self).idx_spec(),
    {
        match self.inner.get(self.idx) {
            Some(item) => {
                self.idx = self.idx + 1;
                Some(item)
            },
            None => None,
        }
    }
}


impl<ID: EFID, T: EFValue + Copy> EFMutSlice<ID, T> {
    /// Write the elements of `src` into the foreign slice, first to last,
    /// and witness the written values.
    pub fn copy_from_slice(&self, src: &Vec<T>, access_scope: &mut AccessScope<ID>) -> (r: Result<
        EFSliceVal<ID, T>,
        EFError,
    >)
        requires
            T::size_spec() <= usize::MAX,
            src@.len() == self.len_spec(),
        ensures
            self.imprint_id() != old(access_scope).imprint_spec() ==> r is Err && r->Err_0
                == EFError::IDMismatch && *final(access_scope) == *old(access_scope),
            self.imprint_id() == old(access_scope).imprint_spec() && (self.len_spec()
                * T::size_spec() > usize::MAX || self.addr_spec() + self.len_spec()
                * T::size_spec() > old(access_scope).mem_spec().len()) ==> r is Err && r->Err_0
                == EFError::InternalError && *final(access_scope) == *old(access_scope),
            self.imprint_id() == old(access_scope).imprint_spec() && self.len_spec()
                * T::size_spec() <= usize::MAX && self.addr_spec() + self.len_spec()
                * T::size_spec() <= old(access_scope).mem_spec().len() ==> r is Ok && {
                &&& final(access_scope).mem_spec().len() == old(access_scope).mem_spec().len()
                &&& final(access_scope).imprint_spec() == old(access_scope).imprint_spec()
                &&& (forall|i: int|
                    0 <= i < self.len_spec() ==> #[trigger] elem_bytes::<T>(
                        final(access_scope).mem_spec(),
                        self.addr_spec() as int,
                        i,
                    ) == T::bytes_spec(src@[i]))
                &&& (forall|j: int|
                    0 <= j < old(access_scope).mem_spec().len() && !(self.addr_spec() <= j
                        < self.addr_spec() + self.len_spec() * T::size_spec())
                        ==> final(access_scope).mem_spec()[j] == old(access_scope).mem_spec()[j])
                &&& r->Ok_0.values_spec() == src@
                &&& r->Ok_0.addr_spec() == self.addr_spec()
                &&& r->Ok_0.imprint_id() == self.imprint_id()
            },
    {
        proof {
            T::size_align_facts();
        }
        if !ID::compare(&self.id_imprint, &access_scope.id_imprint()) {
            return Err(EFError::IDMismatch);
        }
        let size = T::size_of();
        let ml = access_scope.mem_len();
        let byte_len = match self.len.checked_mul(size) {
            Some(b) => b,
            None => {
                return Err(EFError::InternalError);
            },
        };
        if self.addr > usize::MAX - byte_len || self.addr + byte_len > ml {
            return Err(EFError::InternalError);
        }
        let ghost m0 = access_scope.mem_spec();
        let mut values: Vec<T> = Vec::new();
        let mut i: usize = 0;
        while i < self.len
            invariant
                i <= self.len,
                size == T::size_spec(),
                0 <= T::size_spec() <= usize::MAX,
                src@.len() == self.len,
                self.len * size <= usize::MAX,
                self.addr + self.len * size <= m0.len(),
                m0.len() <= usize::MAX,
                access_scope.mem_spec().len() == m0.len(),
                access_scope.imprint_spec() == old(access_scope).imprint_spec(),
                m0 == old(access_scope).mem_spec(),
                values@ == src@.subrange(0, i as int),
                forall|k: int|
                    0 <= k < i ==> #[trigger] elem_bytes::<T>(
                        access_scope.mem_spec(),
                        self.addr as int,
                        k,
                    ) == T::bytes_spec(src@[k]),
                forall|j: int|
                    0 <= j < m0.len() && !(self.addr <= j < self.addr + i * size)
                        ==> access_scope.mem_spec()[j] == m0[j],
            decreases self.len - i,
        {
            proof {
                assert(i * size <= self.len * size && (i + 1) * size <= self.len * size && (i + 1)
                    * size == i * size + size && 0 <= i * size) by (nonlinear_arith)
                    requires
                        0 <= size,
                        0 <= i,
                        i + 1 <= self.len,
                ;
                T::encode_wf(src@[i as int]);
            }
            let ghost m_pre = access_scope.mem_spec();
            let elem = src[i];
            let bytes = elem.encode();
            access_scope.write_range(self.addr + i * size, &bytes);
            values.push(elem);
            proof {
                let a = self.addr as int;
                let w = a + i * size;
                assert forall|k: int| 0 <= k < i + 1 implies #[trigger] elem_bytes::<T>(
                    access_scope.mem_spec(),
                    a,
                    k,
                ) == T::bytes_spec(src@[k]) by {
                    assert(0 <= k * size && (k + 1) * size <= (i + 1) * size && k * size + size
                        == (k + 1) * size && (k < i ==> (k + 1) * size <= i * size) && (i + 1)
                        * size <= self.len * size) by (nonlinear_arith)
                        requires
                            0 <= size,
                            0 <= k < i + 1,
                            i + 1 <= self.len,
                    ;
                    if k == i {
                        crate::mem::lemma_read_write_roundtrip(m_pre, w, bytes@);
                        assert(elem_bytes::<T>(access_scope.mem_spec(), a, k) == read_bytes(
                            access_scope.mem_spec(),
                            w,
                            size as int,
                        ));
                    } else {
                        assert forall|j: int| 0 <= j < size implies #[trigger] access_scope.mem_spec()[a
                            + k * size + j] == m_pre[a + k * size + j] by {
                            lemma_write_bytes_frame(m_pre, w, bytes@, a + k * size + j);
                        }
                        assert(elem_bytes::<T>(access_scope.mem_spec(), a, k) =~= elem_bytes::<T>(
                            m_pre,
                            a,
                            k,
                        ));
                    }
                }
                assert(values@ =~= src@.subrange(0, i + 1));
            }
            i += 1;
        }
        proof {
            assert(values@ =~= src@);
        }
        Ok(EFSliceVal { addr: self.addr, id_imprint: self.id_imprint, values })
    }
}


impl<ID: EFID, T: EFType, const N: usize> EFRef<ID, [T; N]> {
    /// The number of elements, a compile-time constant.
    pub fn len(&self) -> (r: usize)
        ensures
            r == N,
    {
        N
    }

    /// The reference to the `idx`-th element.
    pub fn get(&self, idx: usize) -> (r: Option<EFRef<ID, T>>)
        requires
            T::size_spec() <= usize::MAX,
        ensures
            r is Some <==> idx < N && self.addr_spec() + idx * T::size_spec() <= usize::MAX,
            r is Some ==> r->0.addr_spec() == self.addr_spec() + idx * T::size_spec()
                && r->0.imprint_id() == self.imprint_id(),
    {
        self.as_slice().get(idx)
    }

    /// Walk the element references front to back.
    pub fn iter(&self) -> (r: EFRefIter<ID, T, N>)
        ensures
            r.inner_spec() == *self,
            r.idx_spec() == 0,
    {
        EFRefIter { inner: *self, idx: 0 }
    }

    /// View the array as a foreign slice of its elements.
    pub fn as_slice(&self) -> (r: EFSlice<ID, T>)
        ensures
            r.addr_spec() == self.addr_spec(),
            r.len_spec() == N,
            r.imprint_id() == self.imprint_id(),
    {
        EFSlice { addr: self.addr, len: N, id_imprint: self.id_imprint, _type: PhantomData }
    }
}

impl<ID: EFID, T: EFType, const N: usize> EFMutRef<ID, [T; N]> {
    /// The number of elements, a compile-time constant.
    pub fn len(&self) -> (r: usize)
        ensures
            r == N,
    {
        N
    }

    /// The writable reference to the `idx`-th element.
    pub fn get(&self, idx: usize) -> (r: Option<EFMutRef<ID, T>>)
        requires
            T::size_spec() <= usize::MAX,
        ensures
            r is Some <==> idx < N && self.addr_spec() + idx * T::size_spec() <= usize::MAX,
            r is Some ==> r->0.addr_spec() == self.addr_spec() + idx * T::size_spec()
                && r->0.imprint_id() == self.imprint_id(),
    {
        if idx >= N {
            return None;
        }
        let size = T::size_of();
        match idx.checked_mul(size) {
            Some(off) => match self.addr.checked_add(off) {
                Some(elem_addr) => Some(
                    EFMutRef { addr: elem_addr, id_imprint: self.id_imprint, _type: PhantomData },
                ),
                None => None,
            },
            None => None,
        }
    }

    /// Walk the writable element references front to back.
    pub fn iter(&self) -> (r: EFMutRefIter<ID, T, N>)
        ensures
            r.inner_spec() == *self,
            r.idx_spec() == 0,
    {
        EFMutRefIter { inner: *self, idx: 0 }
    }

    /// View the array as a writable foreign slice of its elements.
    pub fn as_mut_slice(&self) -> (r: EFMutSlice<ID, T>)
        ensures
            r.addr_spec() == self.addr_spec(),
            r.len_spec() == N,
            r.imprint_id() == self.imprint_id(),
    {
        EFMutSlice { addr: self.addr, len: N, id_imprint: self.id_imprint, _type: PhantomData }
    }
}

impl<ID: EFID, T: EFValue + Copy, const N: usize> EFMutRef<ID, [T; N]> {
    /// Write the elements of `src` into the foreign array, first to last,
    /// and witness the written values.
    pub fn copy_from_slice(&self, src: &Vec<T>, access_scope: &mut AccessScope<ID>) -> (r: Result<
        EFSliceVal<ID, T>,
        EFError,
    >)
        requires
            T::size_spec() <= usize::MAX,
            src@.len() == N,
        ensures
            self.imprint_id() != old(access_scope).imprint_spec() ==> r is Err && r->Err_0
                == EFError::IDMismatch && *final(access_scope) == *old(access_scope),
            self.imprint_id() == old(access_scope).imprint_spec() && (N * T::size_spec()
                > usize::MAX || self.addr_spec() + N * T::size_spec()
                > old(access_scope).mem_spec().len()) ==> r is Err && r->Err_0
                == EFError::InternalError && *final(access_scope) == *old(access_scope),
            self.imprint_id() == old(access_scope).imprint_spec() && N * T::size_spec()
                <= usize::MAX && self.addr_spec() + N * T::size_spec()
                <= old(access_scope).mem_spec().len() ==> r is Ok && {
                &&& final(access_scope).mem_spec().len() == old(access_scope).mem_spec().len()
                &&& final(access_scope).imprint_spec() == old(access_scope).imprint_spec()
                &&& (forall|i: int|
                    0 <= i < N ==> #[trigger] elem_bytes::<T>(
                        final(access_scope).mem_spec(),
                        self.addr_spec() as int,
                        i,
                    ) == T::bytes_spec(src@[i]))
                &&& (forall|j: int|
                    0 <= j < old(access_scope).mem_spec().len() && !(self.addr_spec() <= j
                        < self.addr_spec() + N * T::size_spec())
                        ==> final(access_scope).mem_spec()[j] == old(access_scope).mem_spec()[j])
                &&& r->Ok_0.values_spec() == src@
                &&& r->Ok_0.addr_spec() == self.addr_spec()
                &&& r->Ok_0.imprint_id() == self.imprint_id()
            },
    {
        self.as_mut_slice().copy_from_slice(src, access_scope)
    }
}

/// An iterator over the element references of a foreign array.
pub struct EFRefIter<ID: EFID, T, const N: usize> {
    inner: EFRef<ID, [T; N]>,
    idx: usize,
}

impl<ID: EFID, T: EFType, const N: usize> EFRefIter<ID, T, N> {
    pub closed spec fn inner_spec(&self) -> EFRef<ID, [T; N]> {
        self.inner
    }

    pub closed spec fn idx_spec(&self) -> usize {
        self.idx
    }

    /// The reference to the next element, if one is left.
    pub fn next(&mut self) -> (r: Option<EFRef<ID, T>>)
        requires
            T::size_spec() <= usize::MAX,
        ensures
            final(self).inner_spec() == old(self).inner_spec(),
            r is Some <==> old(self).idx_spec() < N && old(self).inner_spec().addr_spec() + old(
                self,
            ).idx_spec() * T::size_spec() <= usize::MAX,
            r is Some ==> final(self).idx_spec() == old(self).idx_spec() + 1
                && r->0.addr_spec() == old(self).inner_spec().addr_spec() + old(self).idx_spec()
                * T::size_spec() && r->0.imprint_id() == old(self).inner_spec().imprint_id(),
            r is None ==> final(self).idx_spec() == old(self).idx_spec(),
    {
        match self.inner.get(self.idx) {
            Some(item) => {
                self.idx = self.idx + 1;
                Some(item)
            },
            None => None,
        }
    }
}

/// An iterator over the writable element references of a foreign array.
pub struct EFMutRefIter<ID: EFID, T, const N: usize> {
    inner: EFMutRef<ID, [T; N]>,
    idx: usize,
}

impl<ID: EFID, T: EFType, const N: usize> EFMutRefIter<ID, T, N> {
    pub closed spec fn inner_spec(&self) -> EFMutRef<ID, [T; N]> {
        self.inner
    }

    pub closed spec fn idx_spec(&self) -> usize {
        self.idx
    }

    /// The writable reference to the next element, if one is left.
    pub fn next(&mut self) -> (r: Option<EFMutRef<ID, T>>)
        requires
            T::size_spec() <= usize::MAX,
        ensures
            final(self).inner_spec() == old(self).inner_spec(),
            r is Some <==> old(self).idx_spec() < N && old(self).inner_spec().addr_spec() + old(
                self,
            ).idx_spec() * T::size_spec() <= usize::MAX,
            r is Some ==> final(self).idx_spec() == old(self).idx_spec() + 1
                && r->0.addr_spec() == old(self).inner_spec().addr_spec() + old(self).idx_spec()
                * T::size_spec() && r->0.imprint_id() == old(self).inner_spec().imprint_id(),
            r is None ==> final(self).idx_spec() == old(self).idx_spec(),
    {
        match self.inner.get(self.idx) {
            Some(item) => {
                self.idx = self.idx + 1;
                Some(item)
            },
            None => None,
        }
    }
}


/// A pointer's byte image is its address as an eight-byte word; a
/// pattern is valid when the word fits the host's address space.
impl<T> EFType for EFPtr<T> {
    open spec fn size_spec() -> int {
        8
    }

    open spec fn align_spec() -> int {
        8
    }

    open spec fn valid_spec(bytes: Seq<u8>) -> bool {
        crate::ef_type::le_val(bytes) <= usize::MAX
    }

    proof fn size_align_facts() {
    }

    fn size_of() -> usize {
        8
    }

    fn align_of() -> usize {
        8
    }

    fn validate(bytes: &Vec<u8>) -> (r: bool) {
        proof {
            crate::ef_type::lemma_pow256_values();
            crate::ef_type::lemma_le_val_bound(bytes@);
            assert(bytes@.subrange(0, 8) =~= bytes@);
        }
        let word = crate::ef_type::le_decode(bytes, 8);
        word <= usize::MAX as u64
    }
}

impl<T> EFValue for EFPtr<T> {
    open spec fn value_spec(bytes: Seq<u8>) -> EFPtr<T> {
        EFPtr { addr: crate::ef_type::le_val(bytes) as usize, _type: PhantomData }
    }

    open spec fn bytes_spec(v: EFPtr<T>) -> Seq<u8> {
        crate::ef_type::le_bytes(v.addr as int, 8)
    }

    proof fn encode_wf(v: EFPtr<T>) {
        crate::ef_type::lemma_pow256_values();
        crate::ef_type::lemma_le_bytes_len(v.addr as int, 8);
        crate::ef_type::lemma_le_bytes_val(v.addr as int, 8);
        assert(Self::value_spec(Self::bytes_spec(v)) =~= v);
    }

    proof fn decode_wf(bytes: Seq<u8>) {
        crate::ef_type::lemma_pow256_values();
        crate::ef_type::lemma_le_val_bound(bytes);
        crate::ef_type::lemma_le_val_bytes(bytes);
    }

    fn encode(&self) -> (r: Vec<u8>) {
        crate::ef_type::le_encode(self.addr as u64, 8)
    }

    fn decode(bytes: &Vec<u8>) -> (r: EFPtr<T>) {
        proof {
            crate::ef_type::lemma_pow256_values();
            crate::ef_type::lemma_le_val_bound(bytes@);
            assert(bytes@.subrange(0, 8) =~= bytes@);
        }
        let word = crate::ef_type::le_decode(bytes, 8);
        EFPtr { addr: word as usize, _type: PhantomData }
    }
}

/// Whether a byte sequence is well-formed UTF-8.
pub uninterp spec fn utf8_valid(bytes: Seq<u8>) -> bool;

/// The characters a well-formed UTF-8 byte sequence decodes to.
pub uninterp spec fn utf8_chars(bytes: Seq<u8>) -> Seq<char>;

/// Relies on core::str::from_utf8: whether a byte sequence is
/// well-formed UTF-8, and which characters it decodes to, depend on the
/// bytes alone; the empty sequence is well-formed.
#[verifier::external_body]
fn bytes_to_utf8(bytes: &Vec<u8>) -> (r: Option<String>)
    ensures
        r is Some <==> utf8_valid(bytes@),
        r is Some ==> r->0@ == utf8_chars(bytes@),
        bytes@.len() == 0 ==> r is Some,
{
    match core::str::from_utf8(bytes.as_slice()) {
        Ok(s) => Some(s.to_string()),
        Err(_) => None,
    }
}

impl<ID: EFID> EFSlice<ID, u8> {
    /// Validate the byte range as UTF-8 and witness the decoded string.
    ///
    /// A range that is not well-formed UTF-8 is no error: it yields
    /// `None`, as every other validation failure does.
    pub fn validate_as_str(&self, access_scope: &AccessScope<ID>) -> (r: Result<
        Option<EFVal<ID, String>>,
        EFError,
    >)
        ensures
            self.imprint_id() != access_scope.imprint_spec() ==> r is Err && r->Err_0
                == EFError::IDMismatch,
            self.imprint_id() == access_scope.imprint_spec() && self.addr_spec() + self.len_spec()
                > access_scope.mem_spec().len() ==> r is Err && r->Err_0 == EFError::InternalError,
            self.imprint_id() == access_scope.imprint_spec() && self.addr_spec() + self.len_spec()
                <= access_scope.mem_spec().len() ==> r is Ok && {
                let bytes = read_bytes(
                    access_scope.mem_spec(),
                    self.addr_spec() as int,
                    self.len_spec() as int,
                );
                &&& r->Ok_0 is Some <==> utf8_valid(bytes)
                &&& r->Ok_0 is Some ==> r->Ok_0->0.value_spec()@ == utf8_chars(bytes)
                    && r->Ok_0->0.addr_spec() == self.addr_spec() && r->Ok_0->0.imprint_id()
                    == self.imprint_id()
            },
    {
        if !ID::compare(&self.id_imprint, &access_scope.id_imprint()) {
            return Err(EFError::IDMismatch);
        }
        let ml = access_scope.mem_len();
        if self.addr > usize::MAX - self.len || self.addr + self.len > ml {
            return Err(EFError::InternalError);
        }
        let bytes = access_scope.read_range(self.addr, self.len);
        match bytes_to_utf8(&bytes) {
            Some(s) => Ok(
                Some(EFVal { addr: self.addr, id_imprint: self.id_imprint, value: s }),
            ),
            None => Ok(None),
        }
    }
}


impl<ID: EFID, T: EFValue> EFMutSlice<ID, T> {
    /// Validate every element and witness the values.
    ///
    /// Elements are checked first to last; checking stops at the first
    /// invalid element and yields `Ok(None)`.
    pub fn validate(&self, access_scope: &AccessScope<ID>) -> (r: Result<
        Option<EFSliceVal<ID, T>>,
        EFError,
    >)
        requires
            T::size_spec() <= usize::MAX,
        ensures
            self.imprint_id() != access_scope.imprint_spec() ==> r is Err && r->Err_0
                == EFError::IDMismatch,
            self.imprint_id() == access_scope.imprint_spec() && (self.len_spec() * T::size_spec()
                > usize::MAX || self.addr_spec() + self.len_spec() * T::size_spec()
                > access_scope.mem_spec().len()) ==> r is Err && r->Err_0 == EFError::InternalError,
            self.imprint_id() == access_scope.imprint_spec() && self.len_spec() * T::size_spec()
                <= usize::MAX && self.addr_spec() + self.len_spec() * T::size_spec()
                <= access_scope.mem_spec().len() ==> r is Ok && {
                &&& r->Ok_0 is Some <==> (forall|i: int|
                    0 <= i < self.len_spec() ==> T::valid_spec(
                        #[trigger] elem_bytes::<T>(
                            access_scope.mem_spec(),
                            self.addr_spec() as int,
                            i,
                        ),
                    ))
                &&& r->Ok_0 is Some ==> {
                    &&& r->Ok_0->0.values_spec().len() == self.len_spec()
                    &&& (forall|i: int|
                        0 <= i < self.len_spec() ==> #[trigger] r->Ok_0->0.values_spec()[i]
                            == T::value_spec(
                            elem_bytes::<T>(access_scope.mem_spec(), self.addr_spec() as int, i),
                        ))
                    &&& r->Ok_0->0.addr_spec() == self.addr_spec()
                    &&& r->Ok_0->0.imprint_id() == self.imprint_id()
                }
            },
    {
        self.as_immut().validate(access_scope)
    }
}


impl<ID: EFID, T: EFType> EFRef<ID, T> {
    /// Project a field: the reference to an `U` that lies `byte_offset`
    /// bytes into the referent.
    ///
    /// The projection lies inside the parent region, so no re-tracking
    /// is needed; the caller states that the field fits the parent and
    /// that the projected address meets the field type's alignment, as
    /// a well-formed layout guarantees.
    pub fn sub_ref<U: EFType>(self, byte_offset: usize) -> (r: EFRef<ID, U>)
        requires
            byte_offset + U::size_spec() <= T::size_spec(),
            self.addr_spec() + byte_offset <= usize::MAX,
            (self.addr_spec() + byte_offset) as int % U::align_spec() == 0,
        ensures
            r.addr_spec() == self.addr_spec() + byte_offset,
            r.imprint_id() == self.imprint_id(),
    {
        EFRef { addr: self.addr + byte_offset, id_imprint: self.id_imprint, _type: PhantomData }
    }
}

impl<ID: EFID, T: EFType> EFMutRef<ID, T> {
    /// Project a field: the writable reference to an `U` that lies
    /// `byte_offset` bytes into the referent.
    ///
    /// The projection lies inside the parent region, so no re-tracking
    /// is needed; the caller states that the field fits the parent and
    /// that the projected address meets the field type's alignment, as
    /// a well-formed layout guarantees.
    pub fn sub_ref<U: EFType>(self, byte_offset: usize) -> (r: EFMutRef<ID, U>)
        requires
            byte_offset + U::size_spec() <= T::size_spec(),
            self.addr_spec() + byte_offset <= usize::MAX,
            (self.addr_spec() + byte_offset) as int % U::align_spec() == 0,
        ensures
            r.addr_spec() == self.addr_spec() + byte_offset,
            r.imprint_id() == self.imprint_id(),
    {
        EFMutRef { addr: self.addr + byte_offset, id_imprint: self.id_imprint, _type: PhantomData }
    }
}

} // verus!
