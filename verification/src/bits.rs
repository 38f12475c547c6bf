//! Bit packing utilities that make it easier to fit additional state into
//! the single machine word of an `Atom`.
//!
//! Every type here is a plain word with accessors.  What a word carries is
//! its view; the accessors are specified over the view.  That the shifts and
//! masks of the implementation compute the view, which is defined by
//! division and remainder, is discharged by the bit-vector solver.
use vstd::prelude::*;
use vstd::std_specs::convert::FromSpecImpl;
use core::marker::PhantomData;

verus! {

/// The number of distinct values that fit beside the flag of a `FlagU64`.
pub open spec fn u63_range() -> int {
    0x8000_0000_0000_0000
}

/// The number of distinct values that fit beside the flag of a `FlagU32`.
pub open spec fn u31_range() -> int {
    0x8000_0000
}

/// What a `FlagU64` or a `FlagU32` carries: a value and a flag.
pub struct FlagWord {
    pub value: nat,
    pub flag: bool,
}

impl FlagWord {
    /// The same flag beside another value.
    pub open spec fn with_val(self, value: nat) -> FlagWord {
        FlagWord { value, flag: self.flag }
    }

    /// The same value beside another flag.
    pub open spec fn with_flag(self, flag: bool) -> FlagWord {
        FlagWord { value: self.value, flag }
    }
}

/// A 64-bit word whose bottom bit is a flag; the other 63 bits hold a value.
pub struct FlagU64 {
    val: u64,
}

impl View for FlagU64 {
    type V = FlagWord;

    /// What the word carries: the word divided by two as the value, the
    /// word modulo two as the flag.
    closed spec fn view(&self) -> FlagWord {
        FlagWord { value: (self.val / 2) as nat, flag: self.val % 2 == 1 }
    }
}

impl FlagU64 {
    /// The 63-bit value carried by the word.
    pub open spec fn value(&self) -> nat {
        self@.value
    }

    /// The flag carried by the word.
    pub open spec fn flag(&self) -> bool {
        self@.flag
    }

    /// The bit image of the word.
    pub closed spec fn bits(&self) -> u64 {
        self.val
    }

    /// The word with the given bit image.
    pub closed spec fn from_bits(w: u64) -> FlagU64 {
        FlagU64 { val: w }
    }

    /// A word is its bit image: the image holds the value above the flag,
    /// and the word that an image stands for has that image.
    pub proof fn lemma_bits(self)
        ensures
            self.bits() == 2 * self.value() + if self.flag() {
                1nat
            } else {
                0nat
            },
            Self::from_bits(self.bits()) == self,
            self.value() < u63_range(),
    {
    }

    /// What the word that an image stands for carries: the image divided by
    /// two as the value, the image modulo two as the flag.
    pub proof fn lemma_from_bits(w: u64)
        ensures
            Self::from_bits(w).bits() == w,
            Self::from_bits(w)@ == (FlagWord { value: (w / 2) as nat, flag: w % 2 == 1 }),
    {
    }

    pub fn get_val(&self) -> (v: u64)
        ensures
            v == self.value(),
            v < u63_range(),
    {
        let w: u64 = self.val;
        assert(w >> 1 == w / 2) by (bit_vector);
        w >> 1
    }

    pub fn get_flag(&self) -> (b: bool)
        ensures
            b == self.flag(),
    {
        let w: u64 = self.val;
        assert(w & 1 == w % 2) by (bit_vector);
        (w & 0x1) == 1
    }

    /// Replaces the value and keeps the flag.  Only the low 63 bits of `val`
    /// are stored: the top bit has no room beside the flag.
    pub fn set_val(&mut self, val: u64)
        ensures
            final(self)@ == old(self)@.with_val((val as int % u63_range()) as nat),
    {
        let w: u64 = self.val;
        assert(((w & 1) | (val << 1)) / 2 == val % 0x8000_0000_0000_0000) by (bit_vector);
        assert(((w & 1) | (val << 1)) % 2 == w % 2) by (bit_vector);
        self.val = (w & 0x1) | (val << 1);
    }

    /// Replaces the flag and keeps the value.
    pub fn set_flag(&mut self, flag: bool)
        ensures
            final(self)@ == old(self)@.with_flag(flag),
    {
        let w: u64 = self.val;
        let bit: u64 = if flag { 1 } else { 0 };
        assert(((w & !1) | bit) / 2 == w / 2) by (bit_vector)
            requires
                bit == 0 || bit == 1,
        ;
        assert(((w & !1) | bit) % 2 == bit) by (bit_vector)
            requires
                bit == 0 || bit == 1,
        ;
        self.val = (w & !0x1) | bit;
    }

    /// The bit image, as stored in an atom.
    pub fn to_bits(&self) -> (w: u64)
        ensures
            w == self.bits(),
    {
        self.val
    }

    /// The word with the given bit image, as loaded from an atom.
    pub fn of_bits(w: u64) -> (f: FlagU64)
        ensures
            f == Self::from_bits(w),
    {
        FlagU64 { val: w }
    }

    /// After `set_val(v); set_flag(b)` the word carries `v` and `b`, for
    /// every `v` below 2^63, and the two setters commute.
    pub proof fn lemma_round_trip(start: FlagU64, v: u64, b: bool)
        requires
            v < u63_range(),
        ensures
            start@.with_val((v as int % u63_range()) as nat).with_flag(b) == (FlagWord {
                value: v as nat,
                flag: b,
            }),
            start@.with_val((v as int % u63_range()) as nat).with_flag(b) == start@.with_flag(
                b,
            ).with_val((v as int % u63_range()) as nat),
    {
    }
}

impl Default for FlagU64 {
    /// The all-zero word: value 0, flag clear.
    fn default() -> (f: FlagU64)
        ensures
            f@ == (FlagWord { value: 0, flag: false }),
            f.bits() == 0,
    {
        FlagU64 { val: 0 }
    }
}

/// A 32-bit word whose bottom bit is a flag; the other 31 bits hold a value.
pub struct FlagU32 {
    val: u32,
}

impl View for FlagU32 {
    type V = FlagWord;

    /// What the word carries: the word divided by two as the value, the
    /// word modulo two as the flag.
    closed spec fn view(&self) -> FlagWord {
        FlagWord { value: (self.val / 2) as nat, flag: self.val % 2 == 1 }
    }
}

impl FlagU32 {
    /// The 31-bit value carried by the word.
    pub open spec fn value(&self) -> nat {
        self@.value
    }

    /// The flag carried by the word.
    pub open spec fn flag(&self) -> bool {
        self@.flag
    }

    pub fn get_val(&self) -> (v: u32)
        ensures
            v == self.value(),
            v < u31_range(),
    {
        let w: u32 = self.val;
        assert(w >> 1 == w / 2) by (bit_vector);
        w >> 1
    }

    pub fn get_flag(&self) -> (b: bool)
        ensures
            b == self.flag(),
    {
        let w: u32 = self.val;
        assert(w & 1 == w % 2) by (bit_vector);
        (w & 0x1) == 1
    }

    /// Replaces the value and keeps the flag.  Only the low 31 bits of `val`
    /// are stored: the top bit has no room beside the flag.
    pub fn set_val(&mut self, val: u32)
        ensures
            final(self)@ == old(self)@.with_val((val as int % u31_range()) as nat),
    {
        let w: u32 = self.val;
        assert(((w & 1) | (val << 1)) / 2 == val % 0x8000_0000) by (bit_vector);
        assert(((w & 1) | (val << 1)) % 2 == w % 2) by (bit_vector);
        self.val = (w & 0x1) | (val << 1);
    }

    /// Replaces the flag and keeps the value.
    pub fn set_flag(&mut self, flag: bool)
        ensures
            final(self)@ == old(self)@.with_flag(flag),
    {
        let w: u32 = self.val;
        let bit: u32 = if flag { 1 } else { 0 };
        assert(((w & !1) | bit) / 2 == w / 2) by (bit_vector)
            requires
                bit == 0 || bit == 1,
        ;
        assert(((w & !1) | bit) % 2 == bit) by (bit_vector)
            requires
                bit == 0 || bit == 1,
        ;
        self.val = (w & !0x1) | bit;
    }

    /// After `set_val(v); set_flag(b)` the word carries `v` and `b`, for
    /// every `v` below 2^31, and the two setters commute.
    pub proof fn lemma_round_trip(start: FlagU32, v: u32, b: bool)
        requires
            v < u31_range(),
        ensures
            start@.with_val((v as int % u31_range()) as nat).with_flag(b) == (FlagWord {
                value: v as nat,
                flag: b,
            }),
            start@.with_val((v as int % u31_range()) as nat).with_flag(b) == start@.with_flag(
                b,
            ).with_val((v as int % u31_range()) as nat),
    {
    }
}

impl Default for FlagU32 {
    /// The all-zero word: value 0, flag clear.
    fn default() -> (f: FlagU32)
        ensures
            f@ == (FlagWord { value: 0, flag: false }),
    {
        FlagU32 { val: 0 }
    }
}

/// What a `FlagPtr` carries: an address, which is a multiple of eight, and a
/// tag of three bits.
pub struct TaggedAddress {
    pub ptr: nat,
    pub flag: nat,
}

impl TaggedAddress {
    /// The same tag beside another address.
    pub open spec fn with_ptr(self, ptr: nat) -> TaggedAddress {
        TaggedAddress { ptr, flag: self.flag }
    }

    /// The same address beside another tag.
    pub open spec fn with_flag(self, flag: nat) -> TaggedAddress {
        TaggedAddress { ptr: self.ptr, flag }
    }
}

/// A packed pointer word that steals the three low bits of an address to
/// make room for a tag in `0..=7`.
///
/// The address says where a `T` is to be found; the null address is zero.
/// Only multiples of eight go into a `FlagPtr`, so that the three low bits
/// are free for the tag.
pub struct FlagPtr<T> {
    val: usize,
    _phantom: PhantomData<T>,
}

impl<T> View for FlagPtr<T> {
    type V = TaggedAddress;

    /// What the word carries: the word modulo eight as the tag, and the
    /// rest as the address.
    closed spec fn view(&self) -> TaggedAddress {
        TaggedAddress { ptr: (self.val - self.val % 8) as nat, flag: (self.val % 8) as nat }
    }
}

impl<T> FlagPtr<T> {
    /// The address carried by the word: a multiple of eight.
    pub open spec fn ptr(&self) -> nat {
        self@.ptr
    }

    /// The tag carried by the word: at most seven.
    pub open spec fn flag(&self) -> nat {
        self@.flag
    }

    /// The bit image of the word.
    pub closed spec fn bits(&self) -> usize {
        self.val
    }

    /// The word with the given bit image.
    pub closed spec fn from_bits(w: usize) -> FlagPtr<T> {
        FlagPtr { val: w, _phantom: PhantomData }
    }

    /// A word is its bit image: the image is the address plus the tag, and
    /// the word that an image stands for has that image.
    pub proof fn lemma_bits(self)
        ensures
            self.bits() == self.ptr() + self.flag(),
            Self::from_bits(self.bits()) == self,
            self.ptr() % 8 == 0,
            self.ptr() <= usize::MAX,
            self.flag() <= 7,
    {
    }

    /// What the word that an image stands for carries: the image modulo
    /// eight as the tag, and the rest as the address.
    pub proof fn lemma_from_bits(w: usize)
        ensures
            Self::from_bits(w).bits() == w,
            Self::from_bits(w)@ == (TaggedAddress {
                ptr: (w - w % 8) as nat,
                flag: (w % 8) as nat,
            }),
    {
    }

    pub fn get_ptr(&self) -> (p: usize)
        ensures
            p == self.ptr(),
            p % 8 == 0,
        opens_invariants none
        no_unwind
    {
        let w: usize = self.val;
        assert(w & !7 == w - w % 8) by (bit_vector);
        w & !7
    }

    /// Replaces the address and keeps the tag.
    pub fn set_ptr(&mut self, ptr: usize)
        requires
            ptr % 8 == 0,
        ensures
            final(self)@ == old(self)@.with_ptr(ptr as nat),
    {
        let w: usize = self.val;
        assert(((ptr & !7) | (w & 7)) == ptr + w % 8) by (bit_vector)
            requires
                ptr % 8 == 0,
        ;
        self.val = (ptr & !7) | (w & 7);
    }

    pub fn get_flag(&self) -> (t: usize)
        ensures
            t == self.flag(),
            t <= 7,
        opens_invariants none
        no_unwind
    {
        let w: usize = self.val;
        assert(w & 7 == w % 8) by (bit_vector);
        w & 7
    }

    /// Replaces the tag and keeps the address.
    pub fn set_flag(&mut self, flag: usize)
        requires
            flag <= 7,
        ensures
            final(self)@ == old(self)@.with_flag(flag as nat),
        opens_invariants none
        no_unwind
    {
        let w: usize = self.val;
        assert(((w & !7) | (flag & 7)) == (w - w % 8) + flag) by (bit_vector)
            requires
                flag <= 7,
        ;
        self.val = (w & !7) | (flag & 7);
    }

    /// The bit image, as stored in an atom.
    pub fn to_bits(&self) -> (w: usize)
        ensures
            w == self.bits(),
        opens_invariants none
        no_unwind
    {
        self.val
    }

    /// The word with the given bit image, as loaded from an atom.
    pub fn of_bits(w: usize) -> (f: FlagPtr<T>)
        ensures
            f == Self::from_bits(w),
        opens_invariants none
        no_unwind
    {
        FlagPtr { val: w, _phantom: PhantomData }
    }

    /// After `set_ptr(p); set_flag(t)` the word carries `p` and `t`, for
    /// every address `p` aligned to eight bytes and every tag `t` in
    /// `0..=7`, and the two setters commute.
    pub proof fn lemma_round_trip(start: FlagPtr<T>, p: usize, t: usize)
        requires
            p % 8 == 0,
            t <= 7,
        ensures
            start@.with_ptr(p as nat).with_flag(t as nat) == (TaggedAddress {
                ptr: p as nat,
                flag: t as nat,
            }),
            start@.with_ptr(p as nat).with_flag(t as nat) == start@.with_flag(t as nat).with_ptr(
                p as nat,
            ),
    {
    }
}

impl<T> Default for FlagPtr<T> {
    /// The all-zero word: null address, tag 0.
    fn default() -> (f: FlagPtr<T>)
        ensures
            f@ == (TaggedAddress { ptr: 0, flag: 0 }),
            f.bits() == 0,
    {
        FlagPtr { val: 0, _phantom: PhantomData }
    }
}

/// A wrapper around an instance of `T`: what the address in a
/// `FlagPtr<Align8<T>>` stands for.  The wrapper holds the value and
/// nothing else; it is the addresses that go into the `FlagPtr` that are
/// multiples of eight, whatever `T` is.
pub struct Align8<T> {
    pub inner: T,
}

impl<T> FromSpecImpl<T> for Align8<T> {
    open spec fn obeys_from_spec() -> bool {
        true
    }

    open spec fn from_spec(inner: T) -> Self {
        Align8 { inner }
    }
}

impl<T> From<T> for Align8<T> {
    fn from(inner: T) -> (a: Self)
        ensures
            a.inner == inner,
    {
        Align8 { inner }
    }
}

} // verus!
