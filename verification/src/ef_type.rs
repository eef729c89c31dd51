//! Per-type validation and byte encoding of foreign values.
//!
//! A value that crosses the boundary is only ever a byte pattern. `EFType`
//! says how large a type's pattern is, how it must be aligned, and which
//! patterns are valid. `EFValue` additionally fixes the bijection between
//! valid patterns and host values, so that writes and validated reads can
//! be stated exactly.

use vstd::prelude::*;

use crate::mem::copy_bytes_out;

verus! {

/// A type whose foreign byte patterns can be checked for validity.
///
/// `valid_spec` is the validation predicate of the type: a `Val` witness
/// may exist only for byte ranges on which it holds.
pub trait EFType: Sized {
    /// Size of the type's foreign representation, in bytes.
    spec fn size_spec() -> int;

    /// Required alignment of the type's foreign representation.
    spec fn align_spec() -> int;

    /// Which byte patterns of length `size_spec()` are valid for the type.
    spec fn valid_spec(bytes: Seq<u8>) -> bool;

    /// The size is never negative and the alignment is positive.
    proof fn size_align_facts()
        ensures
            0 <= Self::size_spec(),
            1 <= Self::align_spec(),
    ;

    fn size_of() -> (r: usize)
        requires
            Self::size_spec() <= usize::MAX,
        ensures
            r == Self::size_spec(),
    ;

    fn align_of() -> (r: usize)
        requires
            Self::align_spec() <= usize::MAX,
        ensures
            r == Self::align_spec(),
    ;

    /// Decide validity of one byte pattern.
    fn validate(bytes: &Vec<u8>) -> (r: bool)
        requires
            bytes@.len() == Self::size_spec(),
        ensures
            r == Self::valid_spec(bytes@),
    ;
}

/// A type whose valid byte patterns decode to host values, one for one.
pub trait EFValue: EFType {
    /// The host value a valid byte pattern stands for.
    spec fn value_spec(bytes: Seq<u8>) -> Self;

    /// The byte encoding of a host value.
    spec fn bytes_spec(v: Self) -> Seq<u8>;

    /// Encoding always yields a valid pattern of the type's size, and
    /// decoding it returns the encoded value.
    proof fn encode_wf(v: Self)
        ensures
            Self::bytes_spec(v).len() == Self::size_spec(),
            Self::valid_spec(Self::bytes_spec(v)),
            Self::value_spec(Self::bytes_spec(v)) == v,
    ;

    /// Decoding a valid pattern and encoding the result returns the
    /// original pattern.
    proof fn decode_wf(bytes: Seq<u8>)
        requires
            bytes.len() == Self::size_spec(),
            Self::valid_spec(bytes),
        ensures
            Self::bytes_spec(Self::value_spec(bytes)) == bytes,
    ;

    fn encode(&self) -> (r: Vec<u8>)
        ensures
            r@ == Self::bytes_spec(*self),
    ;

    fn decode(bytes: &Vec<u8>) -> (r: Self)
        requires
            bytes@.len() == Self::size_spec(),
            Self::valid_spec(bytes@),
        ensures
            r == Self::value_spec(bytes@),
    ;
}

/// A type every byte pattern of which is valid.
pub open spec fn unconditionally_valid<T: EFType>() -> bool {
    forall|bytes: Seq<u8>| bytes.len() == T::size_spec() ==> T::valid_spec(bytes)
}

impl EFType for u8 {
    open spec fn size_spec() -> int {
        1
    }

    open spec fn align_spec() -> int {
        1
    }

    open spec fn valid_spec(bytes: Seq<u8>) -> bool {
        true
    }

    proof fn size_align_facts() {
    }

    fn size_of() -> usize {
        1
    }

    fn align_of() -> usize {
        1
    }

    fn validate(bytes: &Vec<u8>) -> bool {
        true
    }
}

impl EFValue for u8 {
    open spec fn value_spec(bytes: Seq<u8>) -> u8 {
        bytes[0]
    }

    open spec fn bytes_spec(v: u8) -> Seq<u8> {
        seq![v]
    }

    proof fn encode_wf(v: u8) {
    }

    proof fn decode_wf(bytes: Seq<u8>) {
        assert(Self::bytes_spec(Self::value_spec(bytes)) =~= bytes);
    }

    fn encode(&self) -> (r: Vec<u8>) {
        let mut out: Vec<u8> = Vec::new();
        out.push(*self);
        proof {
            assert(out@ =~= Self::bytes_spec(*self));
        }
        out
    }

    fn decode(bytes: &Vec<u8>) -> u8 {
        bytes[0]
    }
}

/// Valid `bool` patterns are exactly the single bytes below two.
impl EFType for bool {
    open spec fn size_spec() -> int {
        1
    }

    open spec fn align_spec() -> int {
        1
    }

    open spec fn valid_spec(bytes: Seq<u8>) -> bool {
        bytes[0] < 2
    }

    proof fn size_align_facts() {
    }

    fn size_of() -> usize {
        1
    }

    fn align_of() -> usize {
        1
    }

    fn validate(bytes: &Vec<u8>) -> bool {
        bytes[0] < 2
    }
}

impl EFValue for bool {
    open spec fn value_spec(bytes: Seq<u8>) -> bool {
        bytes[0] == 1
    }

    open spec fn bytes_spec(v: bool) -> Seq<u8> {
        seq![if v { 1u8 } else { 0u8 }]
    }

    proof fn encode_wf(v: bool) {
    }

    proof fn decode_wf(bytes: Seq<u8>) {
        assert(Self::bytes_spec(Self::value_spec(bytes)) =~= bytes);
    }

    fn encode(&self) -> (r: Vec<u8>) {
        let mut out: Vec<u8> = Vec::new();
        out.push(if *self { 1u8 } else { 0u8 });
        proof {
            assert(out@ =~= Self::bytes_spec(*self));
        }
        out
    }

    fn decode(bytes: &Vec<u8>) -> bool {
        bytes[0] == 1
    }
}

/// The unit type occupies no bytes and is always valid.
impl EFType for () {
    open spec fn size_spec() -> int {
        0
    }

    open spec fn align_spec() -> int {
        1
    }

    open spec fn valid_spec(bytes: Seq<u8>) -> bool {
        true
    }

    proof fn size_align_facts() {
    }

    fn size_of() -> usize {
        0
    }

    fn align_of() -> usize {
        1
    }

    fn validate(bytes: &Vec<u8>) -> bool {
        true
    }
}

impl EFValue for () {
    open spec fn value_spec(bytes: Seq<u8>) -> () {
        ()
    }

    open spec fn bytes_spec(v: ()) -> Seq<u8> {
        Seq::empty()
    }

    proof fn encode_wf(v: ()) {
    }

    proof fn decode_wf(bytes: Seq<u8>) {
        assert(Self::bytes_spec(Self::value_spec(bytes)) =~= bytes);
    }

    fn encode(&self) -> (r: Vec<u8>) {
        let out: Vec<u8> = Vec::new();
        proof {
            assert(out@ =~= Self::bytes_spec(*self));
        }
        out
    }

    fn decode(bytes: &Vec<u8>) -> () {
        ()
    }
}


impl EFType for u16 {
    open spec fn size_spec() -> int {
        2
    }

    open spec fn align_spec() -> int {
        2
    }

    open spec fn valid_spec(bytes: Seq<u8>) -> bool {
        true
    }

    proof fn size_align_facts() {
    }

    fn size_of() -> usize {
        2
    }

    fn align_of() -> usize {
        2
    }

    fn validate(bytes: &Vec<u8>) -> bool {
        true
    }
}

impl EFValue for u16 {
    open spec fn value_spec(bytes: Seq<u8>) -> u16 {
        le_val(bytes) as u16
    }

    open spec fn bytes_spec(v: u16) -> Seq<u8> {
        le_bytes(v as int, 2)
    }

    proof fn encode_wf(v: u16) {
        lemma_pow256_values();
        lemma_le_bytes_len(v as int, 2);
        lemma_le_bytes_val(v as int, 2);
    }

    proof fn decode_wf(bytes: Seq<u8>) {
        lemma_pow256_values();
        lemma_le_val_bound(bytes);
        lemma_le_val_bytes(bytes);
    }

    fn encode(&self) -> (r: Vec<u8>) {
        le_encode(*self as u64, 2)
    }

    fn decode(bytes: &Vec<u8>) -> (r: u16) {
        proof {
            lemma_pow256_values();
            lemma_le_val_bound(bytes@);
            assert(bytes@.subrange(0, 2) =~= bytes@);
        }
        le_decode(bytes, 2) as u16
    }
}

impl EFType for u32 {
    open spec fn size_spec() -> int {
        4
    }

    open spec fn align_spec() -> int {
        4
    }

    open spec fn valid_spec(bytes: Seq<u8>) -> bool {
        true
    }

    proof fn size_align_facts() {
    }

    fn size_of() -> usize {
        4
    }

    fn align_of() -> usize {
        4
    }

    fn validate(bytes: &Vec<u8>) -> bool {
        true
    }
}

impl EFValue for u32 {
    open spec fn value_spec(bytes: Seq<u8>) -> u32 {
        le_val(bytes) as u32
    }

    open spec fn bytes_spec(v: u32) -> Seq<u8> {
        le_bytes(v as int, 4)
    }

    proof fn encode_wf(v: u32) {
        lemma_pow256_values();
        lemma_le_bytes_len(v as int, 4);
        lemma_le_bytes_val(v as int, 4);
    }

    proof fn decode_wf(bytes: Seq<u8>) {
        lemma_pow256_values();
        lemma_le_val_bound(bytes);
        lemma_le_val_bytes(bytes);
    }

    fn encode(&self) -> (r: Vec<u8>) {
        le_encode(*self as u64, 4)
    }

    fn decode(bytes: &Vec<u8>) -> (r: u32) {
        proof {
            lemma_pow256_values();
            lemma_le_val_bound(bytes@);
            assert(bytes@.subrange(0, 4) =~= bytes@);
        }
        le_decode(bytes, 4) as u32
    }
}

impl EFType for u64 {
    open spec fn size_spec() -> int {
        8
    }

    open spec fn align_spec() -> int {
        8
    }

    open spec fn valid_spec(bytes: Seq<u8>) -> bool {
        true
    }

    proof fn size_align_facts() {
    }

    fn size_of() -> usize {
        8
    }

    fn align_of() -> usize {
        8
    }

    fn validate(bytes: &Vec<u8>) -> bool {
        true
    }
}

impl EFValue for u64 {
    open spec fn value_spec(bytes: Seq<u8>) -> u64 {
        le_val(bytes) as u64
    }

    open spec fn bytes_spec(v: u64) -> Seq<u8> {
        le_bytes(v as int, 8)
    }

    proof fn encode_wf(v: u64) {
        lemma_pow256_values();
        lemma_le_bytes_len(v as int, 8);
        lemma_le_bytes_val(v as int, 8);
    }

    proof fn decode_wf(bytes: Seq<u8>) {
        lemma_pow256_values();
        lemma_le_val_bound(bytes);
        lemma_le_val_bytes(bytes);
    }

    fn encode(&self) -> (r: Vec<u8>) {
        le_encode(*self as u64, 8)
    }

    fn decode(bytes: &Vec<u8>) -> (r: u64) {
        proof {
            lemma_pow256_values();
            lemma_le_val_bound(bytes@);
            assert(bytes@.subrange(0, 8) =~= bytes@);
        }
        le_decode(bytes, 8) as u64
    }
}


/// An array is valid exactly when every element is valid.
///
/// The executable validator walks the elements first to last and stops at
/// the first invalid one.
impl<T: EFType, const N: usize> EFType for [T; N] {
    open spec fn size_spec() -> int {
        N * T::size_spec()
    }

    open spec fn align_spec() -> int {
        T::align_spec()
    }

    open spec fn valid_spec(bytes: Seq<u8>) -> bool {
        forall|i: int|
            0 <= i < N ==> T::valid_spec(
                #[trigger] bytes.subrange(i * T::size_spec(), (i + 1) * T::size_spec()),
            )
    }

    proof fn size_align_facts() {
        T::size_align_facts();
        assert(N * T::size_spec() >= 0) by (nonlinear_arith)
            requires
                T::size_spec() >= 0,
                N >= 0,
        ;
    }

    fn size_of() -> (r: usize) {
        proof {
            T::size_align_facts();
        }
        if N == 0 {
            assert(0 * T::size_spec() == 0) by (nonlinear_arith);
            0
        } else {
            proof {
                assert(T::size_spec() <= N * T::size_spec()) by (nonlinear_arith)
                    requires
                        T::size_spec() >= 0,
                        N >= 1,
                ;
            }
            N * T::size_of()
        }
    }

    fn align_of() -> (r: usize) {
        proof {
            T::size_align_facts();
        }
        T::align_of()
    }

    fn validate(bytes: &Vec<u8>) -> (r: bool) {
        proof {
            T::size_align_facts();
        }
        let n = bytes.len();
        if N == 0 {
            assert(0 * T::size_spec() == 0) by (nonlinear_arith);
            return true;
        }
        proof {
            assert(T::size_spec() <= N * T::size_spec()) by (nonlinear_arith)
                requires
                    T::size_spec() >= 0,
                    N >= 1,
            ;
        }
        let size = T::size_of();
        let mut i: usize = 0;
        while i < N
            invariant
                i <= N,
                size == T::size_spec(),
                0 <= T::size_spec(),
                n == bytes@.len() == N * T::size_spec() <= usize::MAX,
                forall|j: int|
                    0 <= j < i ==> T::valid_spec(
                        #[trigger] bytes@.subrange(j * T::size_spec(), (j + 1) * T::size_spec()),
                    ),
            decreases N - i,
        {
            proof {
                assert(0 <= i * size && (i + 1) * size <= N * size && (i + 1) * size == i * size
                    + size) by (nonlinear_arith)
                    requires
                        0 <= size,
                        0 <= i,
                        i + 1 <= N,
                ;
            }
            let chunk = copy_bytes_out(bytes, i * size, size);
            proof {
                assert(chunk@ =~= bytes@.subrange(i as int * T::size_spec(), (i + 1)
                    * T::size_spec()));
            }
            if !T::validate(&chunk) {
                return false;
            }
            i += 1;
        }
        true
    }
}


impl EFType for i8 {
    open spec fn size_spec() -> int {
        1
    }

    open spec fn align_spec() -> int {
        1
    }

    open spec fn valid_spec(bytes: Seq<u8>) -> bool {
        true
    }

    proof fn size_align_facts() {
    }

    fn size_of() -> usize {
        1
    }

    fn align_of() -> usize {
        1
    }

    fn validate(bytes: &Vec<u8>) -> bool {
        true
    }
}

impl EFValue for i8 {
    open spec fn value_spec(bytes: Seq<u8>) -> i8 {
        (le_val(bytes) as u8) as i8
    }

    open spec fn bytes_spec(v: i8) -> Seq<u8> {
        le_bytes((v as u8) as int, 1)
    }

    proof fn encode_wf(v: i8) {
        lemma_pow256_values();
        lemma_le_bytes_len((v as u8) as int, 1);
        lemma_le_bytes_val((v as u8) as int, 1);
        assert(((v as u8) as i8) == v) by (bit_vector);
    }

    proof fn decode_wf(bytes: Seq<u8>) {
        lemma_pow256_values();
        lemma_le_val_bound(bytes);
        lemma_le_val_bytes(bytes);
        let w = le_val(bytes) as u8;
        assert(((w as i8) as u8) == w) by (bit_vector);
    }

    fn encode(&self) -> (r: Vec<u8>) {
        le_encode((*self as u8) as u64, 1)
    }

    fn decode(bytes: &Vec<u8>) -> (r: i8) {
        proof {
            lemma_pow256_values();
            lemma_le_val_bound(bytes@);
            assert(bytes@.subrange(0, 1) =~= bytes@);
        }
        (le_decode(bytes, 1) as u8) as i8
    }
}

impl EFType for i16 {
    open spec fn size_spec() -> int {
        2
    }

    open spec fn align_spec() -> int {
        2
    }

    open spec fn valid_spec(bytes: Seq<u8>) -> bool {
        true
    }

    proof fn size_align_facts() {
    }

    fn size_of() -> usize {
        2
    }

    fn align_of() -> usize {
        2
    }

    fn validate(bytes: &Vec<u8>) -> bool {
        true
    }
}

impl EFValue for i16 {
    open spec fn value_spec(bytes: Seq<u8>) -> i16 {
        (le_val(bytes) as u16) as i16
    }

    open spec fn bytes_spec(v: i16) -> Seq<u8> {
        le_bytes((v as u16) as int, 2)
    }

    proof fn encode_wf(v: i16) {
        lemma_pow256_values();
        lemma_le_bytes_len((v as u16) as int, 2);
        lemma_le_bytes_val((v as u16) as int, 2);
        assert(((v as u16) as i16) == v) by (bit_vector);
    }

    proof fn decode_wf(bytes: Seq<u8>) {
        lemma_pow256_values();
        lemma_le_val_bound(bytes);
        lemma_le_val_bytes(bytes);
        let w = le_val(bytes) as u16;
        assert(((w as i16) as u16) == w) by (bit_vector);
    }

    fn encode(&self) -> (r: Vec<u8>) {
        le_encode((*self as u16) as u64, 2)
    }

    fn decode(bytes: &Vec<u8>) -> (r: i16) {
        proof {
            lemma_pow256_values();
            lemma_le_val_bound(bytes@);
            assert(bytes@.subrange(0, 2) =~= bytes@);
        }
        (le_decode(bytes, 2) as u16) as i16
    }
}

impl EFType for i32 {
    open spec fn size_spec() -> int {
        4
    }

    open spec fn align_spec() -> int {
        4
    }

    open spec fn valid_spec(bytes: Seq<u8>) -> bool {
        true
    }

    proof fn size_align_facts() {
    }

    fn size_of() -> usize {
        4
    }

    fn align_of() -> usize {
        4
    }

    fn validate(bytes: &Vec<u8>) -> bool {
        true
    }
}

impl EFValue for i32 {
    open spec fn value_spec(bytes: Seq<u8>) -> i32 {
        (le_val(bytes) as u32) as i32
    }

    open spec fn bytes_spec(v: i32) -> Seq<u8> {
        le_bytes((v as u32) as int, 4)
    }

    proof fn encode_wf(v: i32) {
        lemma_pow256_values();
        lemma_le_bytes_len((v as u32) as int, 4);
        lemma_le_bytes_val((v as u32) as int, 4);
        assert(((v as u32) as i32) == v) by (bit_vector);
    }

    proof fn decode_wf(bytes: Seq<u8>) {
        lemma_pow256_values();
        lemma_le_val_bound(bytes);
        lemma_le_val_bytes(bytes);
        let w = le_val(bytes) as u32;
        assert(((w as i32) as u32) == w) by (bit_vector);
    }

    fn encode(&self) -> (r: Vec<u8>) {
        le_encode((*self as u32) as u64, 4)
    }

    fn decode(bytes: &Vec<u8>) -> (r: i32) {
        proof {
            lemma_pow256_values();
            lemma_le_val_bound(bytes@);
            assert(bytes@.subrange(0, 4) =~= bytes@);
        }
        (le_decode(bytes, 4) as u32) as i32
    }
}

impl EFType for i64 {
    open spec fn size_spec() -> int {
        8
    }

    open spec fn align_spec() -> int {
        8
    }

    open spec fn valid_spec(bytes: Seq<u8>) -> bool {
        true
    }

    proof fn size_align_facts() {
    }

    fn size_of() -> usize {
        8
    }

    fn align_of() -> usize {
        8
    }

    fn validate(bytes: &Vec<u8>) -> bool {
        true
    }
}

impl EFValue for i64 {
    open spec fn value_spec(bytes: Seq<u8>) -> i64 {
        (le_val(bytes) as u64) as i64
    }

    open spec fn bytes_spec(v: i64) -> Seq<u8> {
        le_bytes((v as u64) as int, 8)
    }

    proof fn encode_wf(v: i64) {
        lemma_pow256_values();
        lemma_le_bytes_len((v as u64) as int, 8);
        lemma_le_bytes_val((v as u64) as int, 8);
        assert(((v as u64) as i64) == v) by (bit_vector);
    }

    proof fn decode_wf(bytes: Seq<u8>) {
        lemma_pow256_values();
        lemma_le_val_bound(bytes);
        lemma_le_val_bytes(bytes);
        let w = le_val(bytes) as u64;
        assert(((w as i64) as u64) == w) by (bit_vector);
    }

    fn encode(&self) -> (r: Vec<u8>) {
        le_encode((*self as u64) as u64, 8)
    }

    fn decode(bytes: &Vec<u8>) -> (r: i64) {
        proof {
            lemma_pow256_values();
            lemma_le_val_bound(bytes@);
            assert(bytes@.subrange(0, 8) =~= bytes@);
        }
        (le_decode(bytes, 8) as u64) as i64
    }
}


/// The host's `usize`, carried as an eight-byte word; a pattern is valid
/// when the word fits the host's address space.
impl EFType for usize {
    open spec fn size_spec() -> int {
        8
    }

    open spec fn align_spec() -> int {
        8
    }

    open spec fn valid_spec(bytes: Seq<u8>) -> bool {
        le_val(bytes) <= usize::MAX
    }

    proof fn size_align_facts() {
    }

    fn size_of() -> usize {
        8
    }

    fn align_of() -> usize {
        8
    }

    fn validate(bytes: &Vec<u8>) -> (r: bool) {
        proof {
            lemma_pow256_values();
            lemma_le_val_bound(bytes@);
            assert(bytes@.subrange(0, 8) =~= bytes@);
        }
        let word = le_decode(bytes, 8);
        word <= usize::MAX as u64
    }
}

impl EFValue for usize {
    open spec fn value_spec(bytes: Seq<u8>) -> usize {
        le_val(bytes) as usize
    }

    open spec fn bytes_spec(v: usize) -> Seq<u8> {
        le_bytes(v as int, 8)
    }

    proof fn encode_wf(v: usize) {
        lemma_pow256_values();
        lemma_le_bytes_len(v as int, 8);
        lemma_le_bytes_val(v as int, 8);
    }

    proof fn decode_wf(bytes: Seq<u8>) {
        lemma_pow256_values();
        lemma_le_val_bound(bytes);
        lemma_le_val_bytes(bytes);
    }

    fn encode(&self) -> (r: Vec<u8>) {
        le_encode(*self as u64, 8)
    }

    fn decode(bytes: &Vec<u8>) -> (r: usize) {
        proof {
            lemma_pow256_values();
            lemma_le_val_bound(bytes@);
            assert(bytes@.subrange(0, 8) =~= bytes@);
        }
        le_decode(bytes, 8) as usize
    }
}


/// Little-endian encoding of the low `n` bytes of the wide word `v`.
pub fn le_encode_wide(v0: u128, n: usize) -> (r: Vec<u8>)
    ensures
        r@ == le_bytes(v0 as int, n as nat),
{
    let mut out: Vec<u8> = Vec::new();
    let mut v: u128 = v0;
    let mut i: usize = 0;
    while i < n
        invariant
            i <= n,
            out@.len() == i,
            le_bytes(v0 as int, n as nat) == out@ + le_bytes(v as int, (n - i) as nat),
        decreases n - i,
    {
        let ghost out_old = out@;
        let ghost v_old = v as int;
        out.push((v % 256) as u8);
        v = v / 256;
        i += 1;
        proof {
            assert(le_bytes(v_old, (n - i + 1) as nat) == seq![(v_old % 256) as u8] + le_bytes(
                v_old / 256,
                (n - i) as nat,
            ));
            assert(out_old + (seq![(v_old % 256) as u8] + le_bytes(v_old / 256, (n - i) as nat))
                =~= out@ + le_bytes(v as int, (n - i) as nat));
        }
    }
    proof {
        assert(le_bytes(v as int, 0) =~= Seq::<u8>::empty());
        assert(le_bytes(v0 as int, n as nat) =~= out@);
    }
    out
}

/// The value of the `n`-byte little-endian range at the start of
/// `bytes`, as a wide word.
pub fn le_decode_wide(bytes: &Vec<u8>, n: usize) -> (r: u128)
    requires
        n <= 16,
        n <= bytes@.len(),
    ensures
        r == le_val(bytes@.subrange(0, n as int)),
{
    proof {
        lemma_pow256_values();
    }
    let mut acc: u128 = 0;
    let mut j: usize = n;
    while j > 0
        invariant
            j <= n <= 16,
            n <= bytes@.len(),
            acc == le_val(bytes@.subrange(j as int, n as int)),
            acc < pow256((n - j) as nat),
            pow256(16) == 0x1_0000_0000_0000_0000_0000_0000_0000_0000,
            forall|k: nat| k <= 16 ==> #[trigger] pow256(k) <= pow256(16),
        decreases j,
    {
        let b = bytes[j - 1];
        proof {
            let tail = bytes@.subrange(j as int, n as int);
            let whole = bytes@.subrange(j - 1, n as int);
            assert(whole.drop_first() =~= tail);
            assert(le_val(whole) == whole[0] + 256 * le_val(tail));
            assert(256 * acc + b < 256 * pow256((n - j) as nat)) by (nonlinear_arith)
                requires
                    acc < pow256((n - j) as nat),
                    b < 256,
                    0 <= acc,
            ;
            assert(pow256((n - j + 1) as nat) == 256 * pow256((n - j) as nat));
            assert(pow256((n - j + 1) as nat) <= pow256(16));
        }
        acc = acc * 256 + (b as u128);
        j -= 1;
    }
    proof {
        assert(bytes@.subrange(0, n as int) == bytes@.subrange(j as int, n as int));
    }
    acc
}

impl EFType for u128 {
    open spec fn size_spec() -> int {
        16
    }

    open spec fn align_spec() -> int {
        16
    }

    open spec fn valid_spec(bytes: Seq<u8>) -> bool {
        true
    }

    proof fn size_align_facts() {
    }

    fn size_of() -> usize {
        16
    }

    fn align_of() -> usize {
        16
    }

    fn validate(bytes: &Vec<u8>) -> bool {
        true
    }
}

impl EFType for i128 {
    open spec fn size_spec() -> int {
        16
    }

    open spec fn align_spec() -> int {
        16
    }

    open spec fn valid_spec(bytes: Seq<u8>) -> bool {
        true
    }

    proof fn size_align_facts() {
    }

    fn size_of() -> usize {
        16
    }

    fn align_of() -> usize {
        16
    }

    fn validate(bytes: &Vec<u8>) -> bool {
        true
    }
}

impl EFValue for u128 {
    open spec fn value_spec(bytes: Seq<u8>) -> u128 {
        le_val(bytes) as u128
    }

    open spec fn bytes_spec(v: u128) -> Seq<u8> {
        le_bytes(v as int, 16)
    }

    proof fn encode_wf(v: u128) {
        lemma_pow256_values();
        lemma_le_bytes_len(v as int, 16);
        lemma_le_bytes_val(v as int, 16);
    }

    proof fn decode_wf(bytes: Seq<u8>) {
        lemma_pow256_values();
        lemma_le_val_bound(bytes);
        lemma_le_val_bytes(bytes);
    }

    fn encode(&self) -> (r: Vec<u8>) {
        le_encode_wide(*self, 16)
    }

    fn decode(bytes: &Vec<u8>) -> (r: u128) {
        proof {
            lemma_pow256_values();
            lemma_le_val_bound(bytes@);
            assert(bytes@.subrange(0, 16) =~= bytes@);
        }
        le_decode_wide(bytes, 16)
    }
}

impl EFValue for i128 {
    open spec fn value_spec(bytes: Seq<u8>) -> i128 {
        (le_val(bytes) as u128) as i128
    }

    open spec fn bytes_spec(v: i128) -> Seq<u8> {
        le_bytes((v as u128) as int, 16)
    }

    proof fn encode_wf(v: i128) {
        lemma_pow256_values();
        lemma_le_bytes_len((v as u128) as int, 16);
        lemma_le_bytes_val((v as u128) as int, 16);
        assert(((v as u128) as i128) == v) by (bit_vector);
    }

    proof fn decode_wf(bytes: Seq<u8>) {
        lemma_pow256_values();
        lemma_le_val_bound(bytes);
        lemma_le_val_bytes(bytes);
        let w = le_val(bytes) as u128;
        assert(((w as i128) as u128) == w) by (bit_vector);
    }

    fn encode(&self) -> (r: Vec<u8>) {
        le_encode_wide(*self as u128, 16)
    }

    fn decode(bytes: &Vec<u8>) -> (r: i128) {
        proof {
            lemma_pow256_values();
            lemma_le_val_bound(bytes@);
            assert(bytes@.subrange(0, 16) =~= bytes@);
        }
        le_decode_wide(bytes, 16) as i128
    }
}

/// The number of byte patterns of length `n`.
pub open spec fn pow256(n: nat) -> int
    decreases n,
{
    if n == 0 {
        1
    } else {
        256 * pow256((n - 1) as nat)
    }
}

/// The integer a little-endian byte sequence stands for.
pub open spec fn le_val(bytes: Seq<u8>) -> int
    decreases bytes.len(),
{
    if bytes.len() == 0 {
        0
    } else {
        bytes[0] + 256 * le_val(bytes.drop_first())
    }
}

/// The `n`-byte little-endian encoding of `v`.
pub open spec fn le_bytes(v: int, n: nat) -> Seq<u8>
    decreases n,
{
    if n == 0 {
        Seq::empty()
    } else {
        seq![(v % 256) as u8] + le_bytes(v / 256, (n - 1) as nat)
    }
}

pub proof fn lemma_le_val_bound(bytes: Seq<u8>)
    ensures
        0 <= le_val(bytes) < pow256(bytes.len()),
    decreases bytes.len(),
{
    if bytes.len() == 0 {
    } else {
        lemma_le_val_bound(bytes.drop_first());
        assert(le_val(bytes) == bytes[0] + 256 * le_val(bytes.drop_first()));
        assert(bytes[0] < 256);
        assert(256 * le_val(bytes.drop_first()) <= 256 * (pow256((bytes.len() - 1) as nat) - 1))
            by (nonlinear_arith)
            requires
                le_val(bytes.drop_first()) <= pow256((bytes.len() - 1) as nat) - 1,
        ;
        assert(256 * le_val(bytes.drop_first()) >= 0) by (nonlinear_arith)
            requires
                le_val(bytes.drop_first()) >= 0,
        ;
    }
}

pub proof fn lemma_le_bytes_len(v: int, n: nat)
    ensures
        le_bytes(v, n).len() == n,
    decreases n,
{
    if n > 0 {
        lemma_le_bytes_len(v / 256, (n - 1) as nat);
    }
}

pub proof fn lemma_le_bytes_val(v: int, n: nat)
    requires
        0 <= v < pow256(n),
    ensures
        le_val(le_bytes(v, n)) == v,
    decreases n,
{
    if n == 0 {
    } else {
        assert(0 <= v / 256 && v / 256 < pow256((n - 1) as nat)) by (nonlinear_arith)
            requires
                0 <= v < 256 * pow256((n - 1) as nat),
        ;
        lemma_le_bytes_val(v / 256, (n - 1) as nat);
        let b = le_bytes(v, n);
        assert(b.drop_first() =~= le_bytes(v / 256, (n - 1) as nat));
        assert(b[0] == (v % 256) as u8);
        assert(v % 256 + 256 * (v / 256) == v) by (nonlinear_arith);
    }
}

pub proof fn lemma_le_val_bytes(bytes: Seq<u8>)
    ensures
        le_bytes(le_val(bytes), bytes.len()) == bytes,
    decreases bytes.len(),
{
    if bytes.len() == 0 {
        assert(le_bytes(le_val(bytes), bytes.len()) =~= bytes);
    } else {
        let rest = bytes.drop_first();
        lemma_le_val_bytes(rest);
        lemma_le_val_bound(rest);
        let v = le_val(bytes);
        assert(v == bytes[0] + 256 * le_val(rest));
        assert(v % 256 == bytes[0] && v / 256 == le_val(rest)) by (nonlinear_arith)
            requires
                v == bytes[0] + 256 * le_val(rest),
                0 <= bytes[0] < 256,
                0 <= le_val(rest),
        ;
        assert(le_bytes(v, bytes.len()) =~= bytes);
    }
}

/// Little-endian encoding of the low `n` bytes of `v`.
pub fn le_encode(v0: u64, n: usize) -> (r: Vec<u8>)
    ensures
        r@ == le_bytes(v0 as int, n as nat),
{
    let mut out: Vec<u8> = Vec::new();
    let mut v: u64 = v0;
    let mut i: usize = 0;
    while i < n
        invariant
            i <= n,
            out@.len() == i,
            le_bytes(v0 as int, n as nat) == out@ + le_bytes(v as int, (n - i) as nat),
        decreases n - i,
    {
        let ghost out_old = out@;
        let ghost v_old = v as int;
        out.push((v % 256) as u8);
        v = v / 256;
        i += 1;
        proof {
            assert(le_bytes(v_old, (n - i + 1) as nat) == seq![(v_old % 256) as u8] + le_bytes(
                v_old / 256,
                (n - i) as nat,
            ));
            assert(out_old + (seq![(v_old % 256) as u8] + le_bytes(v_old / 256, (n - i) as nat))
                =~= out@ + le_bytes(v as int, (n - i) as nat));
        }
    }
    proof {
        assert(le_bytes(v as int, 0) =~= Seq::<u8>::empty());
        assert(le_bytes(v0 as int, n as nat) =~= out@);
    }
    out
}

/// The value of the `n`-byte little-endian range at the start of `bytes`.
pub fn le_decode(bytes: &Vec<u8>, n: usize) -> (r: u64)
    requires
        n <= 8,
        n <= bytes@.len(),
    ensures
        r == le_val(bytes@.subrange(0, n as int)),
{
    proof {
        lemma_pow256_values();
    }
    let mut acc: u64 = 0;
    let mut j: usize = n;
    while j > 0
        invariant
            j <= n <= 8,
            n <= bytes@.len(),
            acc == le_val(bytes@.subrange(j as int, n as int)),
            acc < pow256((n - j) as nat),
            pow256(8) == 0x1_0000_0000_0000_0000,
            forall|k: nat| k <= 8 ==> #[trigger] pow256(k) <= pow256(8),
        decreases j,
    {
        let b = bytes[j - 1];
        proof {
            let tail = bytes@.subrange(j as int, n as int);
            let whole = bytes@.subrange(j - 1, n as int);
            assert(whole.drop_first() =~= tail);
            assert(le_val(whole) == whole[0] + 256 * le_val(tail));
            assert(256 * acc + b < 256 * pow256((n - j) as nat)) by (nonlinear_arith)
                requires
                    acc < pow256((n - j) as nat),
                    b < 256,
                    0 <= acc,
            ;
            assert(pow256((n - j + 1) as nat) == 256 * pow256((n - j) as nat));
            assert(pow256((n - j + 1) as nat) <= pow256(8));
        }
        acc = acc * 256 + (b as u64);
        j -= 1;
    }
    proof {
        assert(bytes@.subrange(0, n as int) == bytes@.subrange(j as int, n as int));
    }
    acc
}

/// The concrete sizes of the byte-pattern space, up to eight bytes.
pub proof fn lemma_pow256_values()
    ensures
        pow256(0) == 1,
        pow256(1) == 0x100,
        pow256(2) == 0x1_0000,
        pow256(4) == 0x1_0000_0000,
        pow256(8) == 0x1_0000_0000_0000_0000,
        pow256(16) == 0x1_0000_0000_0000_0000_0000_0000_0000_0000,
        forall|k: nat, m: nat| k <= m ==> #[trigger] pow256(k) <= #[trigger] pow256(m),
{
    assert forall|k: nat, m: nat| k <= m implies #[trigger] pow256(k) <= #[trigger] pow256(m) by {
        lemma_pow256_mono(k, m);
    }
    assert(pow256(0) == 1);
    assert(pow256(1) == 256 * pow256(0));
    assert(pow256(2) == 256 * pow256(1));
    assert(pow256(3) == 256 * pow256(2));
    assert(pow256(4) == 256 * pow256(3));
    assert(pow256(5) == 256 * pow256(4));
    assert(pow256(6) == 256 * pow256(5));
    assert(pow256(7) == 256 * pow256(6));
    assert(pow256(8) == 256 * pow256(7));
    assert(pow256(9) == 256 * pow256(8));
    assert(pow256(10) == 256 * pow256(9));
    assert(pow256(11) == 256 * pow256(10));
    assert(pow256(12) == 256 * pow256(11));
    assert(pow256(13) == 256 * pow256(12));
    assert(pow256(14) == 256 * pow256(13));
    assert(pow256(15) == 256 * pow256(14));
    assert(pow256(16) == 256 * pow256(15));
}

pub proof fn lemma_pow256_pos(n: nat)
    ensures
        1 <= pow256(n),
    decreases n,
{
    if n > 0 {
        lemma_pow256_pos((n - 1) as nat);
        assert(256 * pow256((n - 1) as nat) >= pow256((n - 1) as nat)) by (nonlinear_arith)
            requires
                pow256((n - 1) as nat) >= 1,
        ;
    }
}

pub proof fn lemma_pow256_mono(k: nat, m: nat)
    requires
        k <= m,
    ensures
        pow256(k) <= pow256(m),
    decreases m,
{
    if k < m {
        lemma_pow256_mono(k, (m - 1) as nat);
        lemma_pow256_pos((m - 1) as nat);
        assert(256 * pow256((m - 1) as nat) >= pow256((m - 1) as nat)) by (nonlinear_arith)
            requires
                pow256((m - 1) as nat) >= 1,
        ;
    }
}

} // verus!
