//! The mock runtime: the reference implementation of the protocol.
//!
//! It provides no real isolation, but tracks allocations and callbacks
//! exactly as a production runtime must: allocations are carved out of
//! the arena stack-wise, tracked in a cons-list chain rooted in the
//! current allocation scope, and callback registrations bind dense ids
//! to descriptors in the same chain.

use core::marker::PhantomData;
use vstd::prelude::*;

use crate::branding::EFID;
use crate::rt::{CallbackContext, CallbackReturn, EncapfnRt};
use crate::stack_alloc::{spec_is_pow2, spec_stack_addr, StackFrameAlloc};
use crate::ef_type::{EFType, EFValue};
use crate::mem::write_bytes;
use crate::types::{elem_bytes, AccessScope, AllocScope, AllocTracker, EFMutRef, EFMutSlice, EFPtr, EFRef, EFSlice};
use crate::EFError;

verus! {

/// The return-register block a trampoline hands back to foreign code.
pub struct CallbackTrampolineFnReturn {
    pub reg0: usize,
    pub reg1: usize,
}

/// The argument registers captured at a trampoline entry.
pub struct MockRtCallbackContext {
    pub arg_regs: [usize; 6],
}

impl CallbackContext for MockRtCallbackContext {
    open spec fn arg_regs_spec(&self) -> Seq<usize> {
        self.arg_regs@
    }

    fn get_argument_register(&self, reg: usize) -> (r: Option<usize>) {
        if reg < 6 {
            Some(self.arg_regs[reg])
        } else {
            None
        }
    }
}

/// The return registers a callback fills before returning to foreign
/// code.
pub struct MockRtCallbackReturn {
    pub return_regs: [usize; 2],
}

impl CallbackReturn for MockRtCallbackReturn {
    open spec fn return_regs_spec(&self) -> Seq<usize> {
        self.return_regs@
    }

    fn set_return_register(&mut self, reg: usize, value: usize) -> (r: bool) {
        if reg < 2 {
            let r0 = self.return_regs[0];
            let r1 = self.return_regs[1];
            if reg == 0 {
                self.return_regs = [value, r1];
            } else {
                self.return_regs = [r0, value];
            }
            proof {
                assert(self.return_regs@ =~= old(self).return_regs@.update(reg as int, value));
            }
            true
        } else {
            false
        }
    }
}

/// A tracked foreign-visible region.
#[derive(Clone, Copy, Debug)]
pub struct MockRtAllocation {
    pub ptr: usize,
    pub len: usize,
    pub mutable: bool,
}

/// Whether the region covers `[ptr, ptr + len)`, with the demanded
/// mutability. A query whose end does not fit the address space is
/// never covered.
pub open spec fn alloc_covers(a: MockRtAllocation, ptr: int, len: int, mutable: bool) -> bool {
    a.ptr <= ptr && ptr + len <= a.ptr + a.len && ptr + len <= usize::MAX && (!mutable
        || a.mutable)
}

impl MockRtAllocation {
    /// Decide whether this region covers the query.
    pub fn matches(&self, ptr: usize, len: usize, mutable: bool) -> (r: bool)
        ensures
            r == alloc_covers(*self, ptr as int, len as int, mutable),
    {
        if ptr < self.ptr {
            return false;
        }
        match ptr.checked_add(len) {
            None => false,
            Some(end) => end - self.ptr <= self.len && (!mutable || self.mutable),
        }
    }
}

/// A registered callback: a C-callable wrapper entry point and an opaque
/// context, both carried as plain addresses.
#[derive(Clone, Copy, Debug, PartialEq, Eq, Structural)]
pub struct MockRtCallbackDescriptor {
    pub wrapper: usize,
    pub context: usize,
}

/// The allocation tracker chain: a cons-list of live regions and live
/// callback registrations, rooted in the current allocation scope.
///
/// `Base` carries the initial stack pointer of the arena; each
/// `Allocation` entry was carved below its predecessor's stack pointer,
/// so the chain itself is the allocator's state.
pub enum MockRtAllocChain {
    Base(usize),
    Allocation(MockRtAllocation, Box<MockRtAllocChain>),
    Callback(usize, MockRtCallbackDescriptor, Box<MockRtAllocChain>),
    Cons(Box<MockRtAllocChain>),
}

impl Clone for MockRtAllocChain {
    fn clone(&self) -> (r: Self)
        ensures
            r == *self,
        decreases *self,
    {
        match self {
            MockRtAllocChain::Base(top) => MockRtAllocChain::Base(*top),
            MockRtAllocChain::Allocation(a, pred) => MockRtAllocChain::Allocation(
                *a,
                Box::new((**pred).clone()),
            ),
            MockRtAllocChain::Callback(id, desc, pred) => MockRtAllocChain::Callback(
                *id,
                *desc,
                Box::new((**pred).clone()),
            ),
            MockRtAllocChain::Cons(pred) => MockRtAllocChain::Cons(Box::new((**pred).clone())),
        }
    }
}

/// Whether some `Allocation` entry of the chain covers the query;
/// callback and continuation entries never match.
pub open spec fn chain_covered(c: MockRtAllocChain, ptr: int, len: int, mutable: bool) -> bool
    decreases c,
{
    match c {
        MockRtAllocChain::Base(_) => false,
        MockRtAllocChain::Allocation(a, pred) => alloc_covers(a, ptr, len, mutable)
            || chain_covered(*pred, ptr, len, mutable),
        MockRtAllocChain::Callback(_, _, pred) => chain_covered(*pred, ptr, len, mutable),
        MockRtAllocChain::Cons(pred) => chain_covered(*pred, ptr, len, mutable),
    }
}

/// One more than the greatest callback id registered in the chain, or
/// zero if none is.
pub open spec fn chain_next_cb(c: MockRtAllocChain) -> int
    decreases c,
{
    match c {
        MockRtAllocChain::Base(_) => 0,
        MockRtAllocChain::Allocation(_, pred) => chain_next_cb(*pred),
        MockRtAllocChain::Callback(id, _, pred) => if id + 1 > chain_next_cb(*pred) {
            id + 1
        } else {
            chain_next_cb(*pred)
        },
        MockRtAllocChain::Cons(pred) => chain_next_cb(*pred),
    }
}

/// The descriptor of the most recently registered callback with the
/// given id, head first.
pub open spec fn chain_find_cb(c: MockRtAllocChain, id: int) -> Option<MockRtCallbackDescriptor>
    decreases c,
{
    match c {
        MockRtAllocChain::Base(_) => None,
        MockRtAllocChain::Allocation(_, pred) => chain_find_cb(*pred, id),
        MockRtAllocChain::Callback(cid, desc, pred) => if cid == id {
            Some(desc)
        } else {
            chain_find_cb(*pred, id)
        },
        MockRtAllocChain::Cons(pred) => chain_find_cb(*pred, id),
    }
}

/// The chain's stack pointer: the address below which the next region
/// will be carved.
pub open spec fn chain_sp(c: MockRtAllocChain) -> int
    decreases c,
{
    match c {
        MockRtAllocChain::Base(top) => top as int,
        MockRtAllocChain::Allocation(a, _) => a.ptr as int,
        MockRtAllocChain::Callback(_, _, pred) => chain_sp(*pred),
        MockRtAllocChain::Cons(pred) => chain_sp(*pred),
    }
}


/// Well-formedness of a chain grown by stack-wise allocation: every
/// `Allocation` entry was carved wholly below its predecessor's stack
/// pointer.
pub open spec fn chain_wf(c: MockRtAllocChain) -> bool
    decreases c,
{
    match c {
        MockRtAllocChain::Base(_) => true,
        MockRtAllocChain::Allocation(a, pred) => a.ptr + a.len <= chain_sp(*pred) && chain_wf(
            *pred,
        ),
        MockRtAllocChain::Callback(_, _, pred) => chain_wf(*pred),
        MockRtAllocChain::Cons(pred) => chain_wf(*pred),
    }
}

/// Growing a well-formed chain by a region below its stack pointer
/// keeps it well-formed.
pub proof fn lemma_chain_extend_wf(c: MockRtAllocChain, addr: usize, len: usize, mutable: bool)
    requires
        chain_wf(c),
        addr + len <= chain_sp(c),
    ensures
        chain_wf(chain_extended(c, addr, len, mutable)),
{
}

/// Scope expiry: a region that lies wholly below a well-formed chain's
/// stack pointer — as every region carved in an expired child scope
/// does — is covered by no entry of the chain.
pub proof fn lemma_expired_region_unreachable(
    c: MockRtAllocChain,
    p: int,
    l: int,
    mutable: bool,
)
    requires
        chain_wf(c),
        1 <= l,
        p + l <= chain_sp(c),
    ensures
        !chain_covered(c, p, l, mutable),
    decreases c,
{
    match c {
        MockRtAllocChain::Base(_) => {
        },
        MockRtAllocChain::Allocation(a, pred) => {
            lemma_expired_region_unreachable(*pred, p, l, mutable);
        },
        MockRtAllocChain::Callback(_, _, pred) => {
            lemma_expired_region_unreachable(*pred, p, l, mutable);
        },
        MockRtAllocChain::Cons(pred) => {
            lemma_expired_region_unreachable(*pred, p, l, mutable);
        },
    }
}

/// A fresh callback id is bound to no descriptor anywhere in the chain.
pub proof fn lemma_fresh_callback_id_unbound(c: MockRtAllocChain, id: int)
    requires
        id >= chain_next_cb(c),
    ensures
        chain_find_cb(c, id) is None,
    decreases c,
{
    match c {
        MockRtAllocChain::Base(_) => {
        },
        MockRtAllocChain::Allocation(_, pred) => {
            lemma_fresh_callback_id_unbound(*pred, id);
        },
        MockRtAllocChain::Callback(cid, _, pred) => {
            lemma_fresh_callback_id_unbound(*pred, id);
        },
        MockRtAllocChain::Cons(pred) => {
            lemma_fresh_callback_id_unbound(*pred, id);
        },
    }
}

/// Registering a callback under the chain's next id binds exactly that
/// id, and lookups of every other id fall through to the chain.
pub proof fn lemma_register_find(
    c: MockRtAllocChain,
    desc: MockRtCallbackDescriptor,
    id: int,
    q: int,
)
    requires
        id == chain_next_cb(c),
        0 <= id <= usize::MAX,
    ensures
        chain_find_cb(MockRtAllocChain::Callback(id as usize, desc, Box::new(c)), id) == Some(
            desc,
        ),
        q != id ==> chain_find_cb(MockRtAllocChain::Callback(id as usize, desc, Box::new(c)), q)
            == chain_find_cb(c, q),
{
}

impl MockRtAllocChain {
    /// Decide whether some allocation entry covers the query.
    pub fn is_valid_int(&self, ptr: usize, len: usize, mutable: bool) -> (r: bool)
        ensures
            r == chain_covered(*self, ptr as int, len as int, mutable),
        decreases *self,
    {
        match self {
            MockRtAllocChain::Base(_) => false,
            MockRtAllocChain::Allocation(a, pred) => a.matches(ptr, len, mutable)
                || pred.is_valid_int(ptr, len, mutable),
            MockRtAllocChain::Callback(_, _, pred) => pred.is_valid_int(ptr, len, mutable),
            MockRtAllocChain::Cons(pred) => pred.is_valid_int(ptr, len, mutable),
        }
    }

    /// One more than the greatest registered callback id, or zero.
    pub fn next_callback_id(&self) -> (r: usize)
        requires
            chain_next_cb(*self) <= usize::MAX,
        ensures
            r == chain_next_cb(*self),
        decreases *self,
    {
        match self {
            MockRtAllocChain::Base(_) => 0,
            MockRtAllocChain::Allocation(_, pred) => pred.next_callback_id(),
            MockRtAllocChain::Callback(id, _, pred) => {
                let rest = pred.next_callback_id();
                let mine = *id + 1;
                if mine > rest {
                    mine
                } else {
                    rest
                }
            },
            MockRtAllocChain::Cons(pred) => pred.next_callback_id(),
        }
    }

    /// The descriptor most recently registered under `id`, if any.
    pub fn find_callback_descriptor(&self, id: usize) -> (r: Option<MockRtCallbackDescriptor>)
        ensures
            r == chain_find_cb(*self, id as int),
        decreases *self,
    {
        match self {
            MockRtAllocChain::Base(_) => None,
            MockRtAllocChain::Allocation(_, pred) => pred.find_callback_descriptor(id),
            MockRtAllocChain::Callback(cid, desc, pred) => {
                if *cid == id {
                    Some(*desc)
                } else {
                    pred.find_callback_descriptor(id)
                }
            },
            MockRtAllocChain::Cons(pred) => pred.find_callback_descriptor(id),
        }
    }

    /// The address below which the next region will be carved.
    pub fn stack_ptr(&self) -> (r: usize)
        ensures
            r == chain_sp(*self),
        decreases *self,
    {
        match self {
            MockRtAllocChain::Base(top) => *top,
            MockRtAllocChain::Allocation(a, _) => a.ptr,
            MockRtAllocChain::Callback(_, _, pred) => pred.stack_ptr(),
            MockRtAllocChain::Cons(pred) => pred.stack_ptr(),
        }
    }
}

impl AllocTracker for MockRtAllocChain {
    open spec fn valid_spec(&self, ptr: int, len: int, mutable: bool) -> bool {
        chain_covered(*self, ptr, len, mutable)
    }

    fn is_valid(&self, ptr: usize, len: usize) -> (r: bool) {
        self.is_valid_int(ptr, len, false)
    }

    fn is_valid_mut(&self, ptr: usize, len: usize) -> (r: bool) {
        self.is_valid_int(ptr, len, true)
    }
}


/// Failure modes of a mock allocator.
#[derive(Clone, Copy, Debug, PartialEq, Eq, Structural)]
pub enum MockRtAllocError {
    /// Zero-size or ill-formed layout requested.
    InvalidLayout,
    /// The arena has no room below the stack pointer.
    NoMem,
}

/// A requested layout: a size in bytes and an alignment.
#[derive(Clone, Copy, Debug, PartialEq, Eq, Structural)]
pub struct AllocLayout {
    pub size: usize,
    pub align: usize,
}

/// An address policy for the mock runtime's scoped allocations.
///
/// Given the chain's stack pointer, the allocator picks the address of a
/// fresh region of `size` bytes: aligned as asked, and wholly below the
/// stack pointer. `accepts_spec` says exactly which requests succeed.
pub trait MockRtAllocator {
    /// Which requests this allocator serves.
    spec fn accepts_spec(&self, sp: int, size: int, align: int) -> bool;

    fn alloc_addr(&self, sp: usize, size: usize, align: usize) -> (r: Result<
        usize,
        MockRtAllocError,
    >)
        ensures
            r is Ok <==> self.accepts_spec(sp as int, size as int, align as int),
            r is Ok ==> 1 <= align && r->Ok_0 as int % align as int == 0 && r->Ok_0 + size <= sp
                && 1 <= size,
    ;
}

/// An allocator that mimics one host-heap allocation per request, placed
/// below the stack pointer and aligned exactly as asked.
pub struct HeapAllocator;

impl MockRtAllocator for HeapAllocator {
    /// A request is served when it has a positive size that fits below
    /// the stack pointer and a power-of-two alignment.
    open spec fn accepts_spec(&self, sp: int, size: int, align: int) -> bool {
        1 <= size <= sp && spec_is_pow2(align)
    }

    fn alloc_addr(&self, sp: usize, size: usize, align: usize) -> (r: Result<
        usize,
        MockRtAllocError,
    >) {
        if size == 0 || !crate::stack_alloc::is_pow2(align) {
            return Err(MockRtAllocError::InvalidLayout);
        }
        if size > sp {
            return Err(MockRtAllocError::NoMem);
        }
        proof {
            let x = sp as int - size as int;
            let m = align as int;
            crate::stack_alloc::lemma_pow2_pos(m);
            vstd::arithmetic::div_mod::lemma_mod_division_less_than_divisor(x, m);
            vstd::arithmetic::div_mod::lemma_fundamental_div_mod(x, m);
            vstd::arithmetic::div_mod::lemma_mod_multiples_basic(x / m, m);
            assert(x - x % m == (x / m) * m) by (nonlinear_arith)
                requires
                    x == m * (x / m) + x % m,
            ;
        }
        Ok((sp - size) - (sp - size) % align)
    }
}

/// An allocator that carves regions out of the live machine stack frame;
/// the architecture hook computes the frame address.
pub struct StackAllocator<I: StackFrameAlloc> {
    _arch: PhantomData<I>,
}

impl<I: StackFrameAlloc> StackAllocator<I> {
    pub fn new() -> (r: Self) {
        StackAllocator { _arch: PhantomData }
    }

    /// Drop the stack pointer, run `f` in the fresh frame, and restore
    /// the pointer: on return it equals its value on entry, whether or
    /// not a frame could be carved.
    pub fn with_alloc<R, F: FnOnce(usize) -> R>(
        &self,
        sp: &mut usize,
        size: usize,
        align: usize,
        f: F,
    ) -> (r: Result<R, MockRtAllocError>)
        requires
            (1 <= size <= *old(sp) && spec_is_pow2(align as int)) ==> call_requires(
                f,
                (spec_stack_addr(*old(sp) as int, size as int, align as int) as usize,),
            ),
        ensures
            *final(sp) == *old(sp),
            r is Ok <==> (1 <= size <= *old(sp) && spec_is_pow2(align as int)),
            r is Ok ==> call_ensures(
                f,
                (spec_stack_addr(*old(sp) as int, size as int, align as int) as usize,),
                r->Ok_0,
            ),
    {
        if size == 0 || !crate::stack_alloc::is_pow2(align) {
            return Err(MockRtAllocError::InvalidLayout);
        }
        if size > *sp {
            return Err(MockRtAllocError::NoMem);
        }
        let ret = crate::stack_alloc::with_stacked_alloc::<I, R, F>(sp, size, align, f);
        Ok(ret)
    }
}

impl<I: StackFrameAlloc> MockRtAllocator for StackAllocator<I> {
    /// A request is served when it has a positive size that fits below
    /// the stack pointer and a power-of-two alignment.
    open spec fn accepts_spec(&self, sp: int, size: int, align: int) -> bool {
        1 <= size <= sp && spec_is_pow2(align)
    }

    fn alloc_addr(&self, sp: usize, size: usize, align: usize) -> (r: Result<
        usize,
        MockRtAllocError,
    >) {
        if size == 0 || !crate::stack_alloc::is_pow2(align) {
            return Err(MockRtAllocError::InvalidLayout);
        }
        if size > sp {
            return Err(MockRtAllocError::NoMem);
        }
        Ok(I::stack_alloc(sp, size, align))
    }
}


/// The chain grown by one allocation entry.
pub open spec fn chain_extended(
    c: MockRtAllocChain,
    addr: usize,
    len: usize,
    mutable: bool,
) -> MockRtAllocChain {
    MockRtAllocChain::Allocation(MockRtAllocation { ptr: addr, len, mutable }, Box::new(c))
}

/// The fixed pool of callback trampolines.
///
/// Foreign code stores a trampoline as a plain function pointer, so the
/// pool is pre-generated: one entry point per callback id, each carrying
/// its id as a compile-time constant. In this model an entry point is
/// named by its id.
pub struct MockRtCallbackTrampolinePool<ID: EFID> {
    _id: PhantomData<ID>,
}

impl<ID: EFID> MockRtCallbackTrampolinePool<ID> {
    /// The number of pre-generated trampolines.
    pub fn callback_count() -> (r: usize)
        ensures
            r == 32,
    {
        32
    }

    /// The trampoline entry bound to `callback_id`.
    pub fn trampoline(callback_id: usize) -> (r: usize)
        requires
            callback_id < 32,
        ensures
            r == callback_id,
    {
        callback_id
    }
}

/// Re-enter the scope tree at a trampoline: look up the callback bound
/// to the trampoline's id in the chain that was active at the outbound
/// call, and manufacture the nested allocation scope the callback runs
/// under. The caller lends the access scope that was suspended at the
/// outbound call.
pub fn mock_rt_callback_dispatch<ID: EFID>(
    chain: &MockRtAllocChain,
    callback_id: usize,
    id_imprint: ID::Imprint,
) -> (r: (MockRtCallbackDescriptor, AllocScope<MockRtAllocChain, ID>))
    requires
        chain_find_cb(*chain, callback_id as int) is Some,
    ensures
        Some(r.0) == chain_find_cb(*chain, callback_id as int),
        r.1.tracker_spec() == MockRtAllocChain::Cons(Box::new(*chain)),
        r.1.imprint_spec() == ID::imprint_value(id_imprint),
{
    let desc = match chain.find_callback_descriptor(callback_id) {
        Some(d) => d,
        None => unreached(),
    };
    let inner = AllocScope::<MockRtAllocChain, ID>::new(
        MockRtAllocChain::Cons(Box::new(chain.clone())),
        id_imprint,
    );
    (desc, inner)
}

/// The mock runtime.
///
/// It owns the brand imprint it was constructed under, the address
/// policy for scoped allocations, and the process-wide active-chain
/// head that callback trampolines consult while a foreign call is
/// outstanding.
pub struct MockRt<ID: EFID, A: MockRtAllocator> {
    zero_copy_immutable: bool,
    allocator: A,
    arena_size: usize,
    id_imprint: ID::Imprint,
    active_chain: Option<MockRtAllocChain>,
}

impl<ID: EFID, A: MockRtAllocator> MockRt<ID, A> {
    pub closed spec fn imprint_spec(&self) -> int {
        ID::imprint_value(self.id_imprint)
    }

    pub closed spec fn zci_spec(&self) -> bool {
        self.zero_copy_immutable
    }

    pub closed spec fn arena_spec(&self) -> int {
        self.arena_size as int
    }

    /// The address policy this runtime allocates with.
    pub closed spec fn allocator_spec(&self) -> A {
        self.allocator
    }

    /// The process-wide active-chain head, as installed by an
    /// outstanding callback setup.
    pub closed spec fn active_chain_spec(&self) -> Option<MockRtAllocChain> {
        self.active_chain
    }

    /// Whether a callback setup currently has a chain head installed.
    pub fn callback_chain_installed(&self) -> (r: bool)
        ensures
            r == (self.active_chain_spec() is Some),
    {
        match &self.active_chain {
            Some(_) => true,
            None => false,
        }
    }

    /// Construct a runtime over a fresh arena, together with its initial
    /// empty allocation scope and its single access scope.
    ///
    /// The caller vouches that no other runtime of this brand exists:
    /// the returned access scope must be the only one of its imprint.
    pub fn new(zero_copy_immutable: bool, allocator: A, branding: ID, arena_size: usize) -> (r: (
        Self,
        AllocScope<MockRtAllocChain, ID>,
        AccessScope<ID>,
    ))
        ensures
            r.0.imprint_spec() == branding.brand_value(),
            r.0.zci_spec() == zero_copy_immutable,
            r.0.allocator_spec() == allocator,
            r.0.arena_spec() == arena_size,
            r.0.active_chain_spec() is None,
            r.1.tracker_spec() == MockRtAllocChain::Base(arena_size),
            r.1.imprint_spec() == branding.brand_value(),
            r.2.imprint_spec() == branding.brand_value(),
            r.2.mem_spec() == Seq::new(arena_size as nat, |i: int| 0u8),
    {
        let imprint = branding.get_imprint();
        let mut memory: Vec<u8> = Vec::new();
        let mut i: usize = 0;
        while i < arena_size
            invariant
                i <= arena_size,
                memory@ == Seq::new(i as nat, |j: int| 0u8),
            decreases arena_size - i,
        {
            memory.push(0u8);
            proof {
                assert(memory@ =~= Seq::new((i + 1) as nat, |j: int| 0u8));
            }
            i += 1;
        }
        let rt = MockRt {
            zero_copy_immutable,
            allocator,
            arena_size,
            id_imprint: imprint,
            active_chain: None,
        };
        let alloc_scope = AllocScope::<MockRtAllocChain, ID>::new(
            MockRtAllocChain::Base(arena_size),
            imprint,
        );
        let access_scope = AccessScope::<ID>::new(imprint, memory);
        (rt, alloc_scope, access_scope)
    }

    /// Allocate a region that no tracker entry records, and run `fun`
    /// with its address. The region is carved below the arena's top.
    pub fn allocate_stacked_untracked_mut<R, F: FnOnce(usize) -> R>(
        &self,
        layout: AllocLayout,
        fun: F,
    ) -> (r: Result<R, EFError>)
        requires
            forall|addr: usize|
                (addr as int % layout.align as int == 0 && addr + layout.size
                    <= self.arena_spec()) ==> call_requires(fun, (addr,)),
        ensures
            r is Ok <==> self.allocator_spec().accepts_spec(
                self.arena_spec(),
                layout.size as int,
                layout.align as int,
            ),
            r is Err ==> r->Err_0 == EFError::AllocInvalidLayout || r->Err_0
                == EFError::AllocNoMem,
            r is Ok ==> exists|addr: usize|
                addr as int % layout.align as int == 0 && addr + layout.size <= self.arena_spec()
                    && #[trigger] call_ensures(fun, (addr,), r->Ok_0),
    {
        match self.allocator.alloc_addr(self.arena_size, layout.size, layout.align) {
            Err(MockRtAllocError::InvalidLayout) => Err(EFError::AllocInvalidLayout),
            Err(MockRtAllocError::NoMem) => Err(EFError::AllocNoMem),
            Ok(addr) => {
                let res = fun(addr);
                let out: Result<R, EFError> = Ok(res);
                proof {
                    assert(out->Ok_0 == res);
                    assert(addr as int % layout.align as int == 0 && addr + layout.size
                        <= self.arena_spec() && call_ensures(fun, (addr,), out->Ok_0));
                }
                out
            },
        }
    }

    /// Allocate a tracked region below the scope's stack pointer and run
    /// `fun` with its address and the nested allocation scope.
    ///
    /// Everything upgraded within the nested scope expires when `fun`
    /// returns; the parent scope is handed back unchanged.
    pub fn allocate_stacked_mut<R, F: FnOnce(usize, &mut AllocScope<MockRtAllocChain, ID>) -> R>(
        &self,
        layout: AllocLayout,
        alloc_scope: &mut AllocScope<MockRtAllocChain, ID>,
        fun: F,
    ) -> (r: Result<R, EFError>)
        requires
            forall|addr: usize, s: &mut AllocScope<MockRtAllocChain, ID>|
                (addr as int % layout.align as int == 0 && addr + layout.size <= chain_sp(
                    old(alloc_scope).tracker_spec(),
                ) && mut_ref_current(s).tracker_spec() == chain_extended(
                    old(alloc_scope).tracker_spec(),
                    addr,
                    layout.size,
                    true,
                ) && mut_ref_current(s).imprint_spec() == old(alloc_scope).imprint_spec())
                    ==> call_requires(fun, (addr, s)),
        ensures
            *final(alloc_scope) == *old(alloc_scope),
            r is Ok <==> self.allocator_spec().accepts_spec(
                chain_sp(old(alloc_scope).tracker_spec()),
                layout.size as int,
                layout.align as int,
            ),
            r is Err ==> r->Err_0 == EFError::AllocInvalidLayout || r->Err_0
                == EFError::AllocNoMem,
            r is Ok ==> exists|addr: usize, s: &mut AllocScope<MockRtAllocChain, ID>|
                #[trigger] call_ensures(fun, (addr, s), r->Ok_0) && addr as int
                    % layout.align as int == 0 && addr + layout.size <= chain_sp(
                    old(alloc_scope).tracker_spec(),
                ) && mut_ref_current(s).tracker_spec() == chain_extended(
                    old(alloc_scope).tracker_spec(),
                    addr,
                    layout.size,
                    true,
                ) && mut_ref_current(s).imprint_spec() == old(alloc_scope).imprint_spec(),
    {
        let sp = alloc_scope.tracker().stack_ptr();
        match self.allocator.alloc_addr(sp, layout.size, layout.align) {
            Err(MockRtAllocError::InvalidLayout) => Err(EFError::AllocInvalidLayout),
            Err(MockRtAllocError::NoMem) => Err(EFError::AllocNoMem),
            Ok(addr) => {
                let mut inner = AllocScope::<MockRtAllocChain, ID>::new(
                    MockRtAllocChain::Allocation(
                        MockRtAllocation { ptr: addr, len: layout.size, mutable: true },
                        Box::new(alloc_scope.tracker().clone()),
                    ),
                    alloc_scope.id_imprint(),
                );
                let res = fun(addr, &mut inner);
                let out: Result<R, EFError> = Ok(res);
                proof {
                    assert(out->Ok_0 == res);
                }
                out
            },
        }
    }
}


impl<ID: EFID, A: MockRtAllocator> MockRt<ID, A> {
    /// Allocate a tracked region sized and aligned for `T` and run `fun`
    /// with a writable reference to it and the nested allocation scope.
    pub fn allocate_stacked_t_mut<
        T: EFType,
        R,
        F: FnOnce(EFMutRef<ID, T>, &mut AllocScope<MockRtAllocChain, ID>) -> R,
    >(
        &self,
        alloc_scope: &mut AllocScope<MockRtAllocChain, ID>,
        fun: F,
    ) -> (r: Result<R, EFError>)
        requires
            T::size_spec() <= usize::MAX,
            T::align_spec() <= usize::MAX,
            forall|mr: EFMutRef<ID, T>, s: &mut AllocScope<MockRtAllocChain, ID>|
                (mr.addr_spec() as int % T::align_spec() == 0 && mr.addr_spec() + T::size_spec()
                    <= chain_sp(old(alloc_scope).tracker_spec()) && mr.imprint_id() == old(
                    alloc_scope,
                ).imprint_spec() && mut_ref_current(s).tracker_spec() == chain_extended(
                    old(alloc_scope).tracker_spec(),
                    mr.addr_spec(),
                    T::size_spec() as usize,
                    true,
                ) && mut_ref_current(s).imprint_spec() == old(alloc_scope).imprint_spec())
                    ==> call_requires(fun, (mr, s)),
        ensures
            *final(alloc_scope) == *old(alloc_scope),
            r is Ok <==> self.allocator_spec().accepts_spec(
                chain_sp(old(alloc_scope).tracker_spec()),
                T::size_spec(),
                T::align_spec(),
            ),
            r is Err ==> r->Err_0 == EFError::AllocInvalidLayout || r->Err_0
                == EFError::AllocNoMem,
            r is Ok ==> exists|mr: EFMutRef<ID, T>, s: &mut AllocScope<MockRtAllocChain, ID>|
                #[trigger] call_ensures(fun, (mr, s), r->Ok_0) && mr.addr_spec() as int
                    % T::align_spec() == 0 && mr.addr_spec() + T::size_spec() <= chain_sp(
                    old(alloc_scope).tracker_spec(),
                ) && mr.imprint_id() == old(alloc_scope).imprint_spec() && mut_ref_current(
                    s,
                ).tracker_spec() == chain_extended(
                    old(alloc_scope).tracker_spec(),
                    mr.addr_spec(),
                    T::size_spec() as usize,
                    true,
                ) && mut_ref_current(s).imprint_spec() == old(alloc_scope).imprint_spec(),
    {
        proof {
            T::size_align_facts();
        }
        let size = T::size_of();
        let align = T::align_of();
        let sp = alloc_scope.tracker().stack_ptr();
        match self.allocator.alloc_addr(sp, size, align) {
            Err(MockRtAllocError::InvalidLayout) => Err(EFError::AllocInvalidLayout),
            Err(MockRtAllocError::NoMem) => Err(EFError::AllocNoMem),
            Ok(addr) => {
                let mut inner = AllocScope::<MockRtAllocChain, ID>::new(
                    MockRtAllocChain::Allocation(
                        MockRtAllocation { ptr: addr, len: size, mutable: true },
                        Box::new(alloc_scope.tracker().clone()),
                    ),
                    alloc_scope.id_imprint(),
                );
                let mr = match EFPtr::<T>::new(addr).upgrade_mut(&inner) {
                    Some(mr) => mr,
                    None => unreached(),
                };
                let res = fun(mr, &mut inner);
                let out: Result<R, EFError> = Ok(res);
                proof {
                    assert(out->Ok_0 == res);
                }
                out
            },
        }
    }

    /// Allocate a tracked region for `T`, store `t` into it, and run
    /// `fun` with the writable reference, the nested allocation scope,
    /// and the access scope.
    pub fn write_stacked_t_mut<
        T: EFValue,
        R,
        F: FnOnce(EFMutRef<ID, T>, &mut AllocScope<MockRtAllocChain, ID>, &mut AccessScope<ID>) -> R,
    >(
        &self,
        t: T,
        alloc_scope: &mut AllocScope<MockRtAllocChain, ID>,
        access_scope: &mut AccessScope<ID>,
        fun: F,
    ) -> (r: Result<R, EFError>)
        requires
            T::size_spec() <= usize::MAX,
            T::align_spec() <= usize::MAX,
            old(alloc_scope).imprint_spec() == old(access_scope).imprint_spec(),
            chain_sp(old(alloc_scope).tracker_spec()) <= old(access_scope).mem_spec().len(),
            forall|
                mr: EFMutRef<ID, T>,
                s: &mut AllocScope<MockRtAllocChain, ID>,
                a: &mut AccessScope<ID>,
            |
                (mr.addr_spec() as int % T::align_spec() == 0 && mr.addr_spec() + T::size_spec()
                    <= chain_sp(old(alloc_scope).tracker_spec()) && mr.imprint_id() == old(
                    alloc_scope,
                ).imprint_spec() && mut_ref_current(s).tracker_spec() == chain_extended(
                    old(alloc_scope).tracker_spec(),
                    mr.addr_spec(),
                    T::size_spec() as usize,
                    true,
                ) && mut_ref_current(s).imprint_spec() == old(alloc_scope).imprint_spec()
                    && mut_ref_current(a).mem_spec() == write_bytes(
                    old(access_scope).mem_spec(),
                    mr.addr_spec() as int,
                    T::bytes_spec(t),
                ) && mut_ref_current(a).imprint_spec() == old(access_scope).imprint_spec())
                    ==> call_requires(fun, (mr, s, a)),
        ensures
            *final(alloc_scope) == *old(alloc_scope),
            r is Ok <==> self.allocator_spec().accepts_spec(
                chain_sp(old(alloc_scope).tracker_spec()),
                T::size_spec(),
                T::align_spec(),
            ),
            r is Err ==> (r->Err_0 == EFError::AllocInvalidLayout || r->Err_0
                == EFError::AllocNoMem) && *final(access_scope) == *old(access_scope),
            r is Ok ==> exists|
                mr: EFMutRef<ID, T>,
                s: &mut AllocScope<MockRtAllocChain, ID>,
                a: &mut AccessScope<ID>,
            |
                #[trigger] call_ensures(fun, (mr, s, a), r->Ok_0) && mr.addr_spec() as int
                    % T::align_spec() == 0 && mr.addr_spec() + T::size_spec() <= chain_sp(
                    old(alloc_scope).tracker_spec(),
                ) && mr.imprint_id() == old(alloc_scope).imprint_spec() && mut_ref_current(
                    s,
                ).tracker_spec() == chain_extended(
                    old(alloc_scope).tracker_spec(),
                    mr.addr_spec(),
                    T::size_spec() as usize,
                    true,
                ) && mut_ref_current(s).imprint_spec() == old(alloc_scope).imprint_spec()
                    && mut_ref_current(a).mem_spec() == write_bytes(
                    old(access_scope).mem_spec(),
                    mr.addr_spec() as int,
                    T::bytes_spec(t),
                ) && mut_ref_current(a).imprint_spec() == old(access_scope).imprint_spec()
                    && *final(access_scope) == mut_ref_future(a),
    {
        proof {
            T::size_align_facts();
        }
        let size = T::size_of();
        let align = T::align_of();
        let sp = alloc_scope.tracker().stack_ptr();
        match self.allocator.alloc_addr(sp, size, align) {
            Err(MockRtAllocError::InvalidLayout) => Err(EFError::AllocInvalidLayout),
            Err(MockRtAllocError::NoMem) => Err(EFError::AllocNoMem),
            Ok(addr) => {
                let mut inner = AllocScope::<MockRtAllocChain, ID>::new(
                    MockRtAllocChain::Allocation(
                        MockRtAllocation { ptr: addr, len: size, mutable: true },
                        Box::new(alloc_scope.tracker().clone()),
                    ),
                    alloc_scope.id_imprint(),
                );
                let mr = match EFPtr::<T>::new(addr).upgrade_mut(&inner) {
                    Some(mr) => mr,
                    None => unreached(),
                };
                match mr.write(t, access_scope) {
                    Ok(_) => (),
                    Err(_) => unreached(),
                }
                let res = fun(mr, &mut inner, access_scope);
                let out: Result<R, EFError> = Ok(res);
                proof {
                    assert(out->Ok_0 == res);
                }
                out
            },
        }
    }
}


impl<ID: EFID, A: MockRtAllocator> MockRt<ID, A> {
    /// Allocate a tracked region for `T`, store `t` into it, and run
    /// `fun` with a read-only reference to it.
    ///
    /// In zero-copy-immutable mode the region is tracked as immutable,
    /// so foreign code is not intended to write it; otherwise it is the
    /// mutable region of [`MockRt::write_stacked_t_mut`], viewed
    /// read-only by the host's closure.
    pub fn write_stacked_t<
        T: EFValue,
        R,
        F: FnOnce(EFRef<ID, T>, &mut AllocScope<MockRtAllocChain, ID>, &mut AccessScope<ID>) -> R,
    >(
        &self,
        t: T,
        alloc_scope: &mut AllocScope<MockRtAllocChain, ID>,
        access_scope: &mut AccessScope<ID>,
        fun: F,
    ) -> (r: Result<R, EFError>)
        requires
            T::size_spec() <= usize::MAX,
            T::align_spec() <= usize::MAX,
            old(alloc_scope).imprint_spec() == old(access_scope).imprint_spec(),
            chain_sp(old(alloc_scope).tracker_spec()) <= old(access_scope).mem_spec().len(),
            forall|
                rr: EFRef<ID, T>,
                s: &mut AllocScope<MockRtAllocChain, ID>,
                a: &mut AccessScope<ID>,
            |
                (rr.addr_spec() as int % T::align_spec() == 0 && rr.addr_spec() + T::size_spec()
                    <= chain_sp(old(alloc_scope).tracker_spec()) && rr.imprint_id() == old(
                    alloc_scope,
                ).imprint_spec() && mut_ref_current(s).tracker_spec() == chain_extended(
                    old(alloc_scope).tracker_spec(),
                    rr.addr_spec(),
                    T::size_spec() as usize,
                    !self.zci_spec(),
                ) && mut_ref_current(s).imprint_spec() == old(alloc_scope).imprint_spec()
                    && mut_ref_current(a).mem_spec() == write_bytes(
                    old(access_scope).mem_spec(),
                    rr.addr_spec() as int,
                    T::bytes_spec(t),
                ) && mut_ref_current(a).imprint_spec() == old(access_scope).imprint_spec())
                    ==> call_requires(fun, (rr, s, a)),
        ensures
            *final(alloc_scope) == *old(alloc_scope),
            r is Ok <==> self.allocator_spec().accepts_spec(
                chain_sp(old(alloc_scope).tracker_spec()),
                T::size_spec(),
                T::align_spec(),
            ),
            r is Err ==> (r->Err_0 == EFError::AllocInvalidLayout || r->Err_0
                == EFError::AllocNoMem) && *final(access_scope) == *old(access_scope),
            r is Ok ==> exists|
                rr: EFRef<ID, T>,
                s: &mut AllocScope<MockRtAllocChain, ID>,
                a: &mut AccessScope<ID>,
            |
                #[trigger] call_ensures(fun, (rr, s, a), r->Ok_0) && rr.addr_spec() as int
                    % T::align_spec() == 0 && rr.addr_spec() + T::size_spec() <= chain_sp(
                    old(alloc_scope).tracker_spec(),
                ) && rr.imprint_id() == old(alloc_scope).imprint_spec() && mut_ref_current(
                    s,
                ).tracker_spec() == chain_extended(
                    old(alloc_scope).tracker_spec(),
                    rr.addr_spec(),
                    T::size_spec() as usize,
                    !self.zci_spec(),
                ) && mut_ref_current(s).imprint_spec() == old(alloc_scope).imprint_spec()
                    && mut_ref_current(a).mem_spec() == write_bytes(
                    old(access_scope).mem_spec(),
                    rr.addr_spec() as int,
                    T::bytes_spec(t),
                ) && mut_ref_current(a).imprint_spec() == old(access_scope).imprint_spec()
                    && *final(access_scope) == mut_ref_future(a),
    {
        proof {
            T::size_align_facts();
        }
        let size = T::size_of();
        let align = T::align_of();
        let sp = alloc_scope.tracker().stack_ptr();
        match self.allocator.alloc_addr(sp, size, align) {
            Err(MockRtAllocError::InvalidLayout) => Err(EFError::AllocInvalidLayout),
            Err(MockRtAllocError::NoMem) => Err(EFError::AllocNoMem),
            Ok(addr) => {
                let staging = AllocScope::<MockRtAllocChain, ID>::new(
                    MockRtAllocChain::Allocation(
                        MockRtAllocation { ptr: addr, len: size, mutable: true },
                        Box::new(alloc_scope.tracker().clone()),
                    ),
                    alloc_scope.id_imprint(),
                );
                let mr = match EFPtr::<T>::new(addr).upgrade_mut(&staging) {
                    Some(mr) => mr,
                    None => unreached(),
                };
                match mr.write(t, access_scope) {
                    Ok(_) => (),
                    Err(_) => unreached(),
                }
                let mut inner = AllocScope::<MockRtAllocChain, ID>::new(
                    MockRtAllocChain::Allocation(
                        MockRtAllocation { ptr: addr, len: size, mutable: !self.zero_copy_immutable },
                        Box::new(alloc_scope.tracker().clone()),
                    ),
                    alloc_scope.id_imprint(),
                );
                let rr = match EFPtr::<T>::new(addr).upgrade(&inner) {
                    Some(rr) => rr,
                    None => unreached(),
                };
                let res = fun(rr, &mut inner, access_scope);
                let out: Result<R, EFError> = Ok(res);
                proof {
                    assert(out->Ok_0 == res);
                }
                out
            },
        }
    }
}


impl<ID: EFID, A: MockRtAllocator> MockRt<ID, A> {
    /// Store the value behind a host reference into a fresh tracked
    /// region; `T` must be `Copy`. The region is handed out writable.
    pub fn write_stacked_ref_t_mut<
        T: EFValue + Copy,
        R,
        F: FnOnce(EFMutRef<ID, T>, &mut AllocScope<MockRtAllocChain, ID>, &mut AccessScope<ID>) -> R,
    >(
        &self,
        t: &T,
        alloc_scope: &mut AllocScope<MockRtAllocChain, ID>,
        access_scope: &mut AccessScope<ID>,
        fun: F,
    ) -> (r: Result<R, EFError>)
        requires
            T::size_spec() <= usize::MAX,
            T::align_spec() <= usize::MAX,
            old(alloc_scope).imprint_spec() == old(access_scope).imprint_spec(),
            chain_sp(old(alloc_scope).tracker_spec()) <= old(access_scope).mem_spec().len(),
            forall|
                mr: EFMutRef<ID, T>,
                s: &mut AllocScope<MockRtAllocChain, ID>,
                a: &mut AccessScope<ID>,
            |
                (mr.addr_spec() as int % T::align_spec() == 0 && mr.addr_spec() + T::size_spec()
                    <= chain_sp(old(alloc_scope).tracker_spec()) && mr.imprint_id() == old(
                    alloc_scope,
                ).imprint_spec() && mut_ref_current(s).tracker_spec() == chain_extended(
                    old(alloc_scope).tracker_spec(),
                    mr.addr_spec(),
                    T::size_spec() as usize,
                    true,
                ) && mut_ref_current(s).imprint_spec() == old(alloc_scope).imprint_spec()
                    && mut_ref_current(a).mem_spec() == write_bytes(
                    old(access_scope).mem_spec(),
                    mr.addr_spec() as int,
                    T::bytes_spec(*t),
                ) && mut_ref_current(a).imprint_spec() == old(access_scope).imprint_spec())
                    ==> call_requires(fun, (mr, s, a)),
        ensures
            *final(alloc_scope) == *old(alloc_scope),
            r is Ok <==> self.allocator_spec().accepts_spec(
                chain_sp(old(alloc_scope).tracker_spec()),
                T::size_spec(),
                T::align_spec(),
            ),
            r is Err ==> (r->Err_0 == EFError::AllocInvalidLayout || r->Err_0
                == EFError::AllocNoMem) && *final(access_scope) == *old(access_scope),
            r is Ok ==> exists|
                mr: EFMutRef<ID, T>,
                s: &mut AllocScope<MockRtAllocChain, ID>,
                a: &mut AccessScope<ID>,
            |
                #[trigger] call_ensures(fun, (mr, s, a), r->Ok_0) && mr.addr_spec() as int
                    % T::align_spec() == 0 && mr.addr_spec() + T::size_spec() <= chain_sp(
                    old(alloc_scope).tracker_spec(),
                ) && mr.imprint_id() == old(alloc_scope).imprint_spec() && mut_ref_current(
                    s,
                ).tracker_spec() == chain_extended(
                    old(alloc_scope).tracker_spec(),
                    mr.addr_spec(),
                    T::size_spec() as usize,
                    true,
                ) && mut_ref_current(s).imprint_spec() == old(alloc_scope).imprint_spec()
                    && mut_ref_current(a).mem_spec() == write_bytes(
                    old(access_scope).mem_spec(),
                    mr.addr_spec() as int,
                    T::bytes_spec(*t),
                ) && mut_ref_current(a).imprint_spec() == old(access_scope).imprint_spec()
                    && *final(access_scope) == mut_ref_future(a),
    {
        self.write_stacked_t_mut(*t, alloc_scope, access_scope, fun)
    }

    /// Store the value behind a host reference into a fresh tracked
    /// region; `T` must be `Copy`. The region is handed out read-only,
    /// and is tracked as immutable in zero-copy-immutable mode.
    pub fn write_stacked_ref_t<
        T: EFValue + Copy,
        R,
        F: FnOnce(EFRef<ID, T>, &mut AllocScope<MockRtAllocChain, ID>, &mut AccessScope<ID>) -> R,
    >(
        &self,
        t: &T,
        alloc_scope: &mut AllocScope<MockRtAllocChain, ID>,
        access_scope: &mut AccessScope<ID>,
        fun: F,
    ) -> (r: Result<R, EFError>)
        requires
            T::size_spec() <= usize::MAX,
            T::align_spec() <= usize::MAX,
            old(alloc_scope).imprint_spec() == old(access_scope).imprint_spec(),
            chain_sp(old(alloc_scope).tracker_spec()) <= old(access_scope).mem_spec().len(),
            forall|
                rr: EFRef<ID, T>,
                s: &mut AllocScope<MockRtAllocChain, ID>,
                a: &mut AccessScope<ID>,
            |
                (rr.addr_spec() as int % T::align_spec() == 0 && rr.addr_spec() + T::size_spec()
                    <= chain_sp(old(alloc_scope).tracker_spec()) && rr.imprint_id() == old(
                    alloc_scope,
                ).imprint_spec() && mut_ref_current(s).tracker_spec() == chain_extended(
                    old(alloc_scope).tracker_spec(),
                    rr.addr_spec(),
                    T::size_spec() as usize,
                    !self.zci_spec(),
                ) && mut_ref_current(s).imprint_spec() == old(alloc_scope).imprint_spec()
                    && mut_ref_current(a).mem_spec() == write_bytes(
                    old(access_scope).mem_spec(),
                    rr.addr_spec() as int,
                    T::bytes_spec(*t),
                ) && mut_ref_current(a).imprint_spec() == old(access_scope).imprint_spec())
                    ==> call_requires(fun, (rr, s, a)),
        ensures
            *final(alloc_scope) == *old(alloc_scope),
            r is Ok <==> self.allocator_spec().accepts_spec(
                chain_sp(old(alloc_scope).tracker_spec()),
                T::size_spec(),
                T::align_spec(),
            ),
            r is Err ==> (r->Err_0 == EFError::AllocInvalidLayout || r->Err_0
                == EFError::AllocNoMem) && *final(access_scope) == *old(access_scope),
            r is Ok ==> exists|
                rr: EFRef<ID, T>,
                s: &mut AllocScope<MockRtAllocChain, ID>,
                a: &mut AccessScope<ID>,
            |
                #[trigger] call_ensures(fun, (rr, s, a), r->Ok_0) && rr.addr_spec() as int
                    % T::align_spec() == 0 && rr.addr_spec() + T::size_spec() <= chain_sp(
                    old(alloc_scope).tracker_spec(),
                ) && rr.imprint_id() == old(alloc_scope).imprint_spec() && mut_ref_current(
                    s,
                ).tracker_spec() == chain_extended(
                    old(alloc_scope).tracker_spec(),
                    rr.addr_spec(),
                    T::size_spec() as usize,
                    !self.zci_spec(),
                ) && mut_ref_current(s).imprint_spec() == old(alloc_scope).imprint_spec()
                    && mut_ref_current(a).mem_spec() == write_bytes(
                    old(access_scope).mem_spec(),
                    rr.addr_spec() as int,
                    T::bytes_spec(*t),
                ) && mut_ref_current(a).imprint_spec() == old(access_scope).imprint_spec()
                    && *final(access_scope) == mut_ref_future(a),
    {
        self.write_stacked_t(*t, alloc_scope, access_scope, fun)
    }
}


impl<ID: EFID, A: MockRtAllocator> MockRt<ID, A> {
    /// Allocate a tracked region for `len` elements of `T` and run `fun`
    /// with a writable slice over it and the nested allocation scope.
    pub fn allocate_stacked_slice_mut<
        T: EFType,
        R,
        F: FnOnce(EFMutSlice<ID, T>, &mut AllocScope<MockRtAllocChain, ID>) -> R,
    >(
        &self,
        len: usize,
        alloc_scope: &mut AllocScope<MockRtAllocChain, ID>,
        fun: F,
    ) -> (r: Result<R, EFError>)
        requires
            T::size_spec() <= usize::MAX,
            T::align_spec() <= usize::MAX,
            len * T::size_spec() <= usize::MAX,
            forall|ms: EFMutSlice<ID, T>, s: &mut AllocScope<MockRtAllocChain, ID>|
                (ms.addr_spec() as int % T::align_spec() == 0 && ms.len_spec() == len
                    && ms.addr_spec() + len * T::size_spec() <= chain_sp(
                    old(alloc_scope).tracker_spec(),
                ) && ms.imprint_id() == old(alloc_scope).imprint_spec() && mut_ref_current(
                    s,
                ).tracker_spec() == chain_extended(
                    old(alloc_scope).tracker_spec(),
                    ms.addr_spec(),
                    (len * T::size_spec()) as usize,
                    true,
                ) && mut_ref_current(s).imprint_spec() == old(alloc_scope).imprint_spec())
                    ==> call_requires(fun, (ms, s)),
        ensures
            *final(alloc_scope) == *old(alloc_scope),
            r is Ok <==> self.allocator_spec().accepts_spec(
                chain_sp(old(alloc_scope).tracker_spec()),
                len * T::size_spec(),
                T::align_spec(),
            ),
            r is Err ==> r->Err_0 == EFError::AllocInvalidLayout || r->Err_0
                == EFError::AllocNoMem,
            r is Ok ==> exists|ms: EFMutSlice<ID, T>, s: &mut AllocScope<MockRtAllocChain, ID>|
                #[trigger] call_ensures(fun, (ms, s), r->Ok_0) && ms.addr_spec() as int
                    % T::align_spec() == 0 && ms.len_spec() == len && ms.addr_spec() + len
                    * T::size_spec() <= chain_sp(old(alloc_scope).tracker_spec())
                    && ms.imprint_id() == old(alloc_scope).imprint_spec() && mut_ref_current(
                    s,
                ).tracker_spec() == chain_extended(
                    old(alloc_scope).tracker_spec(),
                    ms.addr_spec(),
                    (len * T::size_spec()) as usize,
                    true,
                ) && mut_ref_current(s).imprint_spec() == old(alloc_scope).imprint_spec(),
    {
        proof {
            T::size_align_facts();
        }
        let size = T::size_of();
        let align = T::align_of();
        let byte_len = match len.checked_mul(size) {
            Some(b) => b,
            None => {
                return Err(EFError::AllocInvalidLayout);
            },
        };
        let sp = alloc_scope.tracker().stack_ptr();
        match self.allocator.alloc_addr(sp, byte_len, align) {
            Err(MockRtAllocError::InvalidLayout) => Err(EFError::AllocInvalidLayout),
            Err(MockRtAllocError::NoMem) => Err(EFError::AllocNoMem),
            Ok(addr) => {
                let mut inner = AllocScope::<MockRtAllocChain, ID>::new(
                    MockRtAllocChain::Allocation(
                        MockRtAllocation { ptr: addr, len: byte_len, mutable: true },
                        Box::new(alloc_scope.tracker().clone()),
                    ),
                    alloc_scope.id_imprint(),
                );
                let ms = match EFPtr::<T>::new(addr).upgrade_slice_mut(len, &inner) {
                    Some(ms) => ms,
                    None => unreached(),
                };
                let res = fun(ms, &mut inner);
                let out: Result<R, EFError> = Ok(res);
                proof {
                    assert(out->Ok_0 == res);
                }
                out
            },
        }
    }

    /// Allocate a tracked region for the elements of `src`, write them
    /// into it, and run `fun` with a read-only slice over it.
    ///
    /// In zero-copy-immutable mode the region is tracked as immutable.
    pub fn write_stacked_slice<
        T: EFValue + Copy,
        R,
        F: FnOnce(EFSlice<ID, T>, &mut AllocScope<MockRtAllocChain, ID>, &mut AccessScope<ID>) -> R,
    >(
        &self,
        src: &Vec<T>,
        alloc_scope: &mut AllocScope<MockRtAllocChain, ID>,
        access_scope: &mut AccessScope<ID>,
        fun: F,
    ) -> (r: Result<R, EFError>)
        requires
            T::size_spec() <= usize::MAX,
            T::align_spec() <= usize::MAX,
            src@.len() * T::size_spec() <= usize::MAX,
            old(alloc_scope).imprint_spec() == old(access_scope).imprint_spec(),
            chain_sp(old(alloc_scope).tracker_spec()) <= old(access_scope).mem_spec().len(),
            forall|
                sl: EFSlice<ID, T>,
                s: &mut AllocScope<MockRtAllocChain, ID>,
                a: &mut AccessScope<ID>,
            |
                (sl.addr_spec() as int % T::align_spec() == 0 && sl.len_spec() == src@.len()
                    && sl.addr_spec() + src@.len() * T::size_spec() <= chain_sp(
                    old(alloc_scope).tracker_spec(),
                ) && sl.imprint_id() == old(alloc_scope).imprint_spec() && mut_ref_current(
                    s,
                ).tracker_spec() == chain_extended(
                    old(alloc_scope).tracker_spec(),
                    sl.addr_spec(),
                    (src@.len() * T::size_spec()) as usize,
                    !self.zci_spec(),
                ) && mut_ref_current(s).imprint_spec() == old(alloc_scope).imprint_spec()
                    && mut_ref_current(a).mem_spec().len() == old(access_scope).mem_spec().len()
                    && (forall|i: int|
                    0 <= i < src@.len() ==> #[trigger] elem_bytes::<T>(
                        mut_ref_current(a).mem_spec(),
                        sl.addr_spec() as int,
                        i,
                    ) == T::bytes_spec(src@[i])) && mut_ref_current(a).imprint_spec() == old(
                    access_scope,
                ).imprint_spec()) ==> call_requires(fun, (sl, s, a)),
        ensures
            *final(alloc_scope) == *old(alloc_scope),
            r is Ok <==> self.allocator_spec().accepts_spec(
                chain_sp(old(alloc_scope).tracker_spec()),
                src@.len() * T::size_spec(),
                T::align_spec(),
            ),
            r is Err ==> (r->Err_0 == EFError::AllocInvalidLayout || r->Err_0
                == EFError::AllocNoMem) && *final(access_scope) == *old(access_scope),
            r is Ok ==> exists|
                sl: EFSlice<ID, T>,
                s: &mut AllocScope<MockRtAllocChain, ID>,
                a: &mut AccessScope<ID>,
            |
                #[trigger] call_ensures(fun, (sl, s, a), r->Ok_0) && sl.addr_spec() as int
                    % T::align_spec() == 0 && sl.len_spec() == src@.len() && sl.addr_spec()
                    + src@.len() * T::size_spec() <= chain_sp(old(alloc_scope).tracker_spec())
                    && sl.imprint_id() == old(alloc_scope).imprint_spec() && mut_ref_current(
                    s,
                ).tracker_spec() == chain_extended(
                    old(alloc_scope).tracker_spec(),
                    sl.addr_spec(),
                    (src@.len() * T::size_spec()) as usize,
                    !self.zci_spec(),
                ) && mut_ref_current(s).imprint_spec() == old(alloc_scope).imprint_spec()
                    && mut_ref_current(a).mem_spec().len() == old(access_scope).mem_spec().len()
                    && (forall|i: int|
                    0 <= i < src@.len() ==> #[trigger] elem_bytes::<T>(
                        mut_ref_current(a).mem_spec(),
                        sl.addr_spec() as int,
                        i,
                    ) == T::bytes_spec(src@[i])) && mut_ref_current(a).imprint_spec() == old(
                    access_scope,
                ).imprint_spec() && *final(access_scope) == mut_ref_future(a),
    {
        proof {
            T::size_align_facts();
        }
        let size = T::size_of();
        let align = T::align_of();
        let len = src.len();
        let byte_len = match len.checked_mul(size) {
            Some(b) => b,
            None => {
                return Err(EFError::AllocInvalidLayout);
            },
        };
        let sp = alloc_scope.tracker().stack_ptr();
        match self.allocator.alloc_addr(sp, byte_len, align) {
            Err(MockRtAllocError::InvalidLayout) => Err(EFError::AllocInvalidLayout),
            Err(MockRtAllocError::NoMem) => Err(EFError::AllocNoMem),
            Ok(addr) => {
                let staging = AllocScope::<MockRtAllocChain, ID>::new(
                    MockRtAllocChain::Allocation(
                        MockRtAllocation { ptr: addr, len: byte_len, mutable: true },
                        Box::new(alloc_scope.tracker().clone()),
                    ),
                    alloc_scope.id_imprint(),
                );
                let ms = match EFPtr::<T>::new(addr).upgrade_slice_mut(len, &staging) {
                    Some(ms) => ms,
                    None => unreached(),
                };
                match ms.copy_from_slice(src, access_scope) {
                    Ok(_) => (),
                    Err(_) => unreached(),
                }
                let mut inner = AllocScope::<MockRtAllocChain, ID>::new(
                    MockRtAllocChain::Allocation(
                        MockRtAllocation {
                            ptr: addr,
                            len: byte_len,
                            mutable: !self.zero_copy_immutable,
                        },
                        Box::new(alloc_scope.tracker().clone()),
                    ),
                    alloc_scope.id_imprint(),
                );
                let sl = match EFPtr::<T>::new(addr).upgrade_slice(len, &inner) {
                    Some(sl) => sl,
                    None => unreached(),
                };
                let res = fun(sl, &mut inner, access_scope);
                let out: Result<R, EFError> = Ok(res);
                proof {
                    assert(out->Ok_0 == res);
                }
                out
            },
        }
    }
}


impl<ID: EFID, A: MockRtAllocator> MockRt<ID, A> {
    fn setup_callback_int<R, F: FnOnce(usize, &mut AllocScope<MockRtAllocChain, ID>) -> R>(
        &mut self,
        callback: &MockRtCallbackDescriptor,
        alloc_scope: &mut AllocScope<MockRtAllocChain, ID>,
        fun: F,
    ) -> (r: Result<R, EFError>)
        requires
            chain_next_cb(old(alloc_scope).tracker_spec()) < 32,
            forall|tid: usize, s: &mut AllocScope<MockRtAllocChain, ID>|
                (tid == chain_next_cb(old(alloc_scope).tracker_spec()) && mut_ref_current(
                    s,
                ).tracker_spec() == MockRtAllocChain::Callback(
                    tid,
                    *callback,
                    Box::new(old(alloc_scope).tracker_spec()),
                ) && mut_ref_current(s).imprint_spec() == old(alloc_scope).imprint_spec())
                    ==> call_requires(fun, (tid, s)),
        ensures
            *final(self) == *old(self),
            *final(alloc_scope) == *old(alloc_scope),
            r is Ok,
            exists|tid: usize, s: &mut AllocScope<MockRtAllocChain, ID>|
                #[trigger] call_ensures(fun, (tid, s), r->Ok_0) && tid == chain_next_cb(
                    old(alloc_scope).tracker_spec(),
                ) && mut_ref_current(s).tracker_spec() == MockRtAllocChain::Callback(
                    tid,
                    *callback,
                    Box::new(old(alloc_scope).tracker_spec()),
                ) && mut_ref_current(s).imprint_spec() == old(alloc_scope).imprint_spec(),
    {
        let callback_id = alloc_scope.tracker().next_callback_id();
        let trampoline = MockRtCallbackTrampolinePool::<ID>::trampoline(callback_id);
        let saved: Option<MockRtAllocChain> = match &self.active_chain {
            Some(c) => Some(c.clone()),
            None => None,
        };
        let inner_chain = MockRtAllocChain::Callback(
            callback_id,
            *callback,
            Box::new(alloc_scope.tracker().clone()),
        );
        self.active_chain = Some(inner_chain.clone());
        let mut inner = AllocScope::<MockRtAllocChain, ID>::new(
            inner_chain,
            alloc_scope.id_imprint(),
        );
        let res = fun(trampoline, &mut inner);
        self.active_chain = saved;
        let out: Result<R, EFError> = Ok(res);
        proof {
            assert(out->Ok_0 == res);
        }
        out
    }

    /// Register `callback` under the next free trampoline id, install
    /// the extended chain as the process-wide active head, and run `fun`
    /// with the trampoline id and the nested allocation scope.
    ///
    /// On return the registration is dropped and the active head equals
    /// its value on entry, so nestings unwind strictly.
    pub fn setup_callback<R, F: FnOnce(usize, &mut AllocScope<MockRtAllocChain, ID>) -> R>(
        &mut self,
        callback: &MockRtCallbackDescriptor,
        alloc_scope: &mut AllocScope<MockRtAllocChain, ID>,
        fun: F,
    ) -> (r: Result<R, EFError>)
        requires
            chain_next_cb(old(alloc_scope).tracker_spec()) < 32,
            forall|tid: usize, s: &mut AllocScope<MockRtAllocChain, ID>|
                (tid == chain_next_cb(old(alloc_scope).tracker_spec()) && mut_ref_current(
                    s,
                ).tracker_spec() == MockRtAllocChain::Callback(
                    tid,
                    *callback,
                    Box::new(old(alloc_scope).tracker_spec()),
                ) && mut_ref_current(s).imprint_spec() == old(alloc_scope).imprint_spec())
                    ==> call_requires(fun, (tid, s)),
        ensures
            *final(self) == *old(self),
            *final(alloc_scope) == *old(alloc_scope),
            r is Ok,
            exists|tid: usize, s: &mut AllocScope<MockRtAllocChain, ID>|
                #[trigger] call_ensures(fun, (tid, s), r->Ok_0) && tid == chain_next_cb(
                    old(alloc_scope).tracker_spec(),
                ) && mut_ref_current(s).tracker_spec() == MockRtAllocChain::Callback(
                    tid,
                    *callback,
                    Box::new(old(alloc_scope).tracker_spec()),
                ) && mut_ref_current(s).imprint_spec() == old(alloc_scope).imprint_spec(),
    {
        self.setup_callback_int(callback, alloc_scope, fun)
    }
}

impl<ID: EFID, A: MockRtAllocator> EncapfnRt for MockRt<ID, A> {
    type ID = ID;

    type AllocTracker = MockRtAllocChain;

    type ABI = crate::abi::GenericABI;

    type SymbolTableState = ();

    /// The mock runtime loads no foreign image: every resolution
    /// trivially succeeds with an empty state.
    fn resolve_symbols(
        &self,
        symbol_table: &Vec<String>,
        fixed_offset_symbol_table: &Vec<Option<String>>,
    ) -> (r: Option<()>)
        ensures
            r is Some,
    {
        Some(())
    }

    /// The mock runtime has no symbols to hand out.
    fn lookup_symbol(&self, index: usize, symtabstate: &()) -> (r: Option<usize>)
        ensures
            r is None,
    {
        None
    }
}


impl<ID: EFID, A: MockRtAllocator> MockRt<ID, A> {
    /// Allocate a tracked region for the elements of `src`, write them
    /// into it, and run `fun` with a writable slice over it.
    pub fn write_stacked_slice_mut<
        T: EFValue + Copy,
        R,
        F: FnOnce(EFMutSlice<ID, T>, &mut AllocScope<MockRtAllocChain, ID>, &mut AccessScope<ID>) -> R,
    >(
        &self,
        src: &Vec<T>,
        alloc_scope: &mut AllocScope<MockRtAllocChain, ID>,
        access_scope: &mut AccessScope<ID>,
        fun: F,
    ) -> (r: Result<R, EFError>)
        requires
            T::size_spec() <= usize::MAX,
            T::align_spec() <= usize::MAX,
            src@.len() * T::size_spec() <= usize::MAX,
            old(alloc_scope).imprint_spec() == old(access_scope).imprint_spec(),
            chain_sp(old(alloc_scope).tracker_spec()) <= old(access_scope).mem_spec().len(),
            forall|
                ms: EFMutSlice<ID, T>,
                s: &mut AllocScope<MockRtAllocChain, ID>,
                a: &mut AccessScope<ID>,
            |
                (ms.addr_spec() as int % T::align_spec() == 0 && ms.len_spec() == src@.len()
                    && ms.addr_spec() + src@.len() * T::size_spec() <= chain_sp(
                    old(alloc_scope).tracker_spec(),
                ) && ms.imprint_id() == old(alloc_scope).imprint_spec() && mut_ref_current(
                    s,
                ).tracker_spec() == chain_extended(
                    old(alloc_scope).tracker_spec(),
                    ms.addr_spec(),
                    (src@.len() * T::size_spec()) as usize,
                    true,
                ) && mut_ref_current(s).imprint_spec() == old(alloc_scope).imprint_spec()
                    && mut_ref_current(a).mem_spec().len() == old(access_scope).mem_spec().len()
                    && (forall|i: int|
                    0 <= i < src@.len() ==> #[trigger] elem_bytes::<T>(
                        mut_ref_current(a).mem_spec(),
                        ms.addr_spec() as int,
                        i,
                    ) == T::bytes_spec(src@[i])) && mut_ref_current(a).imprint_spec() == old(
                    access_scope,
                ).imprint_spec()) ==> call_requires(fun, (ms, s, a)),
        ensures
            *final(alloc_scope) == *old(alloc_scope),
            r is Ok <==> self.allocator_spec().accepts_spec(
                chain_sp(old(alloc_scope).tracker_spec()),
                src@.len() * T::size_spec(),
                T::align_spec(),
            ),
            r is Err ==> (r->Err_0 == EFError::AllocInvalidLayout || r->Err_0
                == EFError::AllocNoMem) && *final(access_scope) == *old(access_scope),
            r is Ok ==> exists|
                ms: EFMutSlice<ID, T>,
                s: &mut AllocScope<MockRtAllocChain, ID>,
                a: &mut AccessScope<ID>,
            |
                #[trigger] call_ensures(fun, (ms, s, a), r->Ok_0) && ms.addr_spec() as int
                    % T::align_spec() == 0 && ms.len_spec() == src@.len() && ms.addr_spec()
                    + src@.len() * T::size_spec() <= chain_sp(old(alloc_scope).tracker_spec())
                    && ms.imprint_id() == old(alloc_scope).imprint_spec() && mut_ref_current(
                    s,
                ).tracker_spec() == chain_extended(
                    old(alloc_scope).tracker_spec(),
                    ms.addr_spec(),
                    (src@.len() * T::size_spec()) as usize,
                    true,
                ) && mut_ref_current(s).imprint_spec() == old(alloc_scope).imprint_spec()
                    && mut_ref_current(a).mem_spec().len() == old(access_scope).mem_spec().len()
                    && (forall|i: int|
                    0 <= i < src@.len() ==> #[trigger] elem_bytes::<T>(
                        mut_ref_current(a).mem_spec(),
                        ms.addr_spec() as int,
                        i,
                    ) == T::bytes_spec(src@[i])) && mut_ref_current(a).imprint_spec() == old(
                    access_scope,
                ).imprint_spec() && *final(access_scope) == mut_ref_future(a),
    {
        proof {
            T::size_align_facts();
        }
        let size = T::size_of();
        let align = T::align_of();
        let len = src.len();
        let byte_len = match len.checked_mul(size) {
            Some(b) => b,
            None => {
                return Err(EFError::AllocInvalidLayout);
            },
        };
        let sp = alloc_scope.tracker().stack_ptr();
        match self.allocator.alloc_addr(sp, byte_len, align) {
            Err(MockRtAllocError::InvalidLayout) => Err(EFError::AllocInvalidLayout),
            Err(MockRtAllocError::NoMem) => Err(EFError::AllocNoMem),
            Ok(addr) => {
                let mut inner = AllocScope::<MockRtAllocChain, ID>::new(
                    MockRtAllocChain::Allocation(
                        MockRtAllocation { ptr: addr, len: byte_len, mutable: true },
                        Box::new(alloc_scope.tracker().clone()),
                    ),
                    alloc_scope.id_imprint(),
                );
                let ms = match EFPtr::<T>::new(addr).upgrade_slice_mut(len, &inner) {
                    Some(ms) => ms,
                    None => unreached(),
                };
                match ms.copy_from_slice(src, access_scope) {
                    Ok(_) => (),
                    Err(_) => unreached(),
                }
                let res = fun(ms, &mut inner, access_scope);
                let out: Result<R, EFError> = Ok(res);
                proof {
                    assert(out->Ok_0 == res);
                }
                out
            },
        }
    }
}

} // verus!
