//! Byte-order tagged integers.
//!
//! An [`Endian<T, E>`] keeps an integer in the byte order `E` in which a
//! device or a wire format wants it. The stored word is the one a
//! little-endian load of those bytes yields, so `Little` keeps the value as it
//! is and `Big` keeps it byte-reversed.

use vstd::prelude::*;

verus! {

/// Integers whose bytes can be put into, and taken out of, a fixed byte order.
pub trait HasEndianness: Eq + PartialEq + Copy + Clone + Default {
    /// The integer with its bytes in reverse order.
    spec fn swapped(self) -> Self;

    /// Reversing the bytes twice gives the integer back.
    proof fn swapped_twice(x: Self)
        ensures
            x.swapped().swapped() == x,
    ;

    /// Reads a word that holds a big-endian value.
    fn from_be(self) -> (r: Self)
        ensures
            r == self.swapped(),
    ;

    /// Reads a word that holds a little-endian value.
    fn from_le(self) -> (r: Self)
        ensures
            r == self,
    ;

    /// The word that holds this value in big-endian order.
    fn to_be(self) -> (r: Self)
        ensures
            r == self.swapped(),
    ;

    /// The word that holds this value in little-endian order.
    fn to_le(self) -> (r: Self)
        ensures
            r == self,
    ;
}

/// `x` with its 2 bytes in reverse order.
pub open spec fn swap16(x: u16) -> u16 {
    ((x & 0xff) << 8) | ((x >> 8) & 0xff)
}

/// `x` with its 4 bytes in reverse order.
pub open spec fn swap32(x: u32) -> u32 {
    ((x & 0xff) << 24) | (((x >> 8) & 0xff) << 16) | (((x >> 16) & 0xff) << 8) | ((x >> 24) & 0xff)
}

/// `x` with its 8 bytes in reverse order.
pub open spec fn swap64(x: u64) -> u64 {
    ((x & 0xff) << 56)
        | (((x >> 8) & 0xff) << 48)
        | (((x >> 16) & 0xff) << 40)
        | (((x >> 24) & 0xff) << 32)
        | (((x >> 32) & 0xff) << 24)
        | (((x >> 40) & 0xff) << 16)
        | (((x >> 48) & 0xff) << 8)
        | ((x >> 56) & 0xff)
}

/// `x` with its 16 bytes in reverse order.
pub open spec fn swap128(x: u128) -> u128 {
    ((x & 0xff) << 120)
        | (((x >> 8) & 0xff) << 112)
        | (((x >> 16) & 0xff) << 104)
        | (((x >> 24) & 0xff) << 96)
        | (((x >> 32) & 0xff) << 88)
        | (((x >> 40) & 0xff) << 80)
        | (((x >> 48) & 0xff) << 72)
        | (((x >> 56) & 0xff) << 64)
        | (((x >> 64) & 0xff) << 56)
        | (((x >> 72) & 0xff) << 48)
        | (((x >> 80) & 0xff) << 40)
        | (((x >> 88) & 0xff) << 32)
        | (((x >> 96) & 0xff) << 24)
        | (((x >> 104) & 0xff) << 16)
        | (((x >> 112) & 0xff) << 8)
        | ((x >> 120) & 0xff)
}

impl HasEndianness for u8 {
    open spec fn swapped(self) -> u8 {
        self
    }

    proof fn swapped_twice(x: u8) {
    }

    fn from_be(self) -> (r: u8) {
        self
    }

    fn from_le(self) -> (r: u8) {
        self
    }

    fn to_be(self) -> (r: u8) {
        self
    }

    fn to_le(self) -> (r: u8) {
        self
    }
}

impl HasEndianness for i8 {
    open spec fn swapped(self) -> i8 {
        self
    }

    proof fn swapped_twice(x: i8) {
    }

    fn from_be(self) -> (r: i8) {
        self
    }

    fn from_le(self) -> (r: i8) {
        self
    }

    fn to_be(self) -> (r: i8) {
        self
    }

    fn to_le(self) -> (r: i8) {
        self
    }
}

impl HasEndianness for u16 {
    open spec fn swapped(self) -> u16 {
        swap16(self)
    }

    proof fn swapped_twice(x: u16) {
        assert(swap16(swap16(x)) == x) by (bit_vector);
    }

    fn from_be(self) -> (r: u16) {
        ((self & 0xff) << 8) | ((self >> 8) & 0xff)
    }

    fn from_le(self) -> (r: u16) {
        self
    }

    fn to_be(self) -> (r: u16) {
        ((self & 0xff) << 8) | ((self >> 8) & 0xff)
    }

    fn to_le(self) -> (r: u16) {
        self
    }
}

impl HasEndianness for i16 {
    open spec fn swapped(self) -> i16 {
        swap16(self as u16) as i16
    }

    proof fn swapped_twice(x: i16) {
        let u = x as u16;
        let s = swap16(u);
        assert(swap16(s) == u) by {
            assert(swap16(swap16(u)) == u) by (bit_vector);
        }
        assert((s as i16) as u16 == s) by (bit_vector);
        assert((u as i16) == x) by (bit_vector)
            requires
                u == x as u16,
        ;
    }

    fn from_be(self) -> (r: i16) {
        HasEndianness::to_be(self as u16) as i16
    }

    fn from_le(self) -> (r: i16) {
        self
    }

    fn to_be(self) -> (r: i16) {
        HasEndianness::to_be(self as u16) as i16
    }

    fn to_le(self) -> (r: i16) {
        self
    }
}

impl HasEndianness for u32 {
    open spec fn swapped(self) -> u32 {
        swap32(self)
    }

    proof fn swapped_twice(x: u32) {
        assert(swap32(swap32(x)) == x) by (bit_vector);
    }

    fn from_be(self) -> (r: u32) {
        ((self & 0xff) << 24)
            | (((self >> 8) & 0xff) << 16)
            | (((self >> 16) & 0xff) << 8)
            | ((self >> 24) & 0xff)
    }

    fn from_le(self) -> (r: u32) {
        self
    }

    fn to_be(self) -> (r: u32) {
        ((self & 0xff) << 24)
            | (((self >> 8) & 0xff) << 16)
            | (((self >> 16) & 0xff) << 8)
            | ((self >> 24) & 0xff)
    }

    fn to_le(self) -> (r: u32) {
        self
    }
}

impl HasEndianness for i32 {
    open spec fn swapped(self) -> i32 {
        swap32(self as u32) as i32
    }

    proof fn swapped_twice(x: i32) {
        let u = x as u32;
        let s = swap32(u);
        assert(swap32(s) == u) by {
            assert(swap32(swap32(u)) == u) by (bit_vector);
        }
        assert((s as i32) as u32 == s) by (bit_vector);
        assert((u as i32) == x) by (bit_vector)
            requires
                u == x as u32,
        ;
    }

    fn from_be(self) -> (r: i32) {
        HasEndianness::to_be(self as u32) as i32
    }

    fn from_le(self) -> (r: i32) {
        self
    }

    fn to_be(self) -> (r: i32) {
        HasEndianness::to_be(self as u32) as i32
    }

    fn to_le(self) -> (r: i32) {
        self
    }
}

impl HasEndianness for u64 {
    open spec fn swapped(self) -> u64 {
        swap64(self)
    }

    proof fn swapped_twice(x: u64) {
        assert(swap64(swap64(x)) == x) by (bit_vector);
    }

    fn from_be(self) -> (r: u64) {
        ((self & 0xff) << 56)
            | (((self >> 8) & 0xff) << 48)
            | (((self >> 16) & 0xff) << 40)
            | (((self >> 24) & 0xff) << 32)
            | (((self >> 32) & 0xff) << 24)
            | (((self >> 40) & 0xff) << 16)
            | (((self >> 48) & 0xff) << 8)
            | ((self >> 56) & 0xff)
    }

    fn from_le(self) -> (r: u64) {
        self
    }

    fn to_be(self) -> (r: u64) {
        ((self & 0xff) << 56)
            | (((self >> 8) & 0xff) << 48)
            | (((self >> 16) & 0xff) << 40)
            | (((self >> 24) & 0xff) << 32)
            | (((self >> 32) & 0xff) << 24)
            | (((self >> 40) & 0xff) << 16)
            | (((self >> 48) & 0xff) << 8)
            | ((self >> 56) & 0xff)
    }

    fn to_le(self) -> (r: u64) {
        self
    }
}

impl HasEndianness for i64 {
    open spec fn swapped(self) -> i64 {
        swap64(self as u64) as i64
    }

    proof fn swapped_twice(x: i64) {
        let u = x as u64;
        let s = swap64(u);
        assert(swap64(s) == u) by {
            assert(swap64(swap64(u)) == u) by (bit_vector);
        }
        assert((s as i64) as u64 == s) by (bit_vector);
        assert((u as i64) == x) by (bit_vector)
            requires
                u == x as u64,
        ;
    }

    fn from_be(self) -> (r: i64) {
        HasEndianness::to_be(self as u64) as i64
    }

    fn from_le(self) -> (r: i64) {
        self
    }

    fn to_be(self) -> (r: i64) {
        HasEndianness::to_be(self as u64) as i64
    }

    fn to_le(self) -> (r: i64) {
        self
    }
}

impl HasEndianness for u128 {
    open spec fn swapped(self) -> u128 {
        swap128(self)
    }

    proof fn swapped_twice(x: u128) {
        assert(swap128(swap128(x)) == x) by (bit_vector);
    }

    fn from_be(self) -> (r: u128) {
        ((self & 0xff) << 120)
            | (((self >> 8) & 0xff) << 112)
            | (((self >> 16) & 0xff) << 104)
            | (((self >> 24) & 0xff) << 96)
            | (((self >> 32) & 0xff) << 88)
            | (((self >> 40) & 0xff) << 80)
            | (((self >> 48) & 0xff) << 72)
            | (((self >> 56) & 0xff) << 64)
            | (((self >> 64) & 0xff) << 56)
            | (((self >> 72) & 0xff) << 48)
            | (((self >> 80) & 0xff) << 40)
            | (((self >> 88) & 0xff) << 32)
            | (((self >> 96) & 0xff) << 24)
            | (((self >> 104) & 0xff) << 16)
            | (((self >> 112) & 0xff) << 8)
            | ((self >> 120) & 0xff)
    }

    fn from_le(self) -> (r: u128) {
        self
    }

    fn to_be(self) -> (r: u128) {
        ((self & 0xff) << 120)
            | (((self >> 8) & 0xff) << 112)
            | (((self >> 16) & 0xff) << 104)
            | (((self >> 24) & 0xff) << 96)
            | (((self >> 32) & 0xff) << 88)
            | (((self >> 40) & 0xff) << 80)
            | (((self >> 48) & 0xff) << 72)
            | (((self >> 56) & 0xff) << 64)
            | (((self >> 64) & 0xff) << 56)
            | (((self >> 72) & 0xff) << 48)
            | (((self >> 80) & 0xff) << 40)
            | (((self >> 88) & 0xff) << 32)
            | (((self >> 96) & 0xff) << 24)
            | (((self >> 104) & 0xff) << 16)
            | (((self >> 112) & 0xff) << 8)
            | ((self >> 120) & 0xff)
    }

    fn to_le(self) -> (r: u128) {
        self
    }
}

impl HasEndianness for i128 {
    open spec fn swapped(self) -> i128 {
        swap128(self as u128) as i128
    }

    proof fn swapped_twice(x: i128) {
        let u = x as u128;
        let s = swap128(u);
        assert(swap128(s) == u) by {
            assert(swap128(swap128(u)) == u) by (bit_vector);
        }
        assert((s as i128) as u128 == s) by (bit_vector);
        assert((u as i128) == x) by (bit_vector)
            requires
                u == x as u128,
        ;
    }

    fn from_be(self) -> (r: i128) {
        HasEndianness::to_be(self as u128) as i128
    }

    fn from_le(self) -> (r: i128) {
        self
    }

    fn to_be(self) -> (r: i128) {
        HasEndianness::to_be(self as u128) as i128
    }

    fn to_le(self) -> (r: i128) {
        self
    }
}

/// Marks a word as holding its value most significant byte first.
#[derive(Clone, Copy, Debug, PartialEq, Eq)]
pub struct Big;

/// Marks a word as holding its value least significant byte first.
#[derive(Clone, Copy, Debug, PartialEq, Eq)]
pub struct Little;

/// A byte order: how a value turns into the stored word and back.
pub trait Endianness: Sized {
    /// Whether the stored word is the value with its bytes reversed.
    spec fn reverses() -> bool;

    /// The stored word for the value `native`.
    fn from_native<T: HasEndianness>(native: T) -> (r: T)
        ensures
            r == if Self::reverses() { native.swapped() } else { native },
    ;

    /// The value that the stored word `native` holds.
    fn to_native<T: HasEndianness>(native: T) -> (r: T)
        ensures
            r == if Self::reverses() { native.swapped() } else { native },
    ;
}

/// The stored word for a value in byte order `E`, and as well the value for a
/// stored word: both directions reverse the bytes or both leave them.
pub open spec fn stored<T: HasEndianness, E: Endianness>(x: T) -> T {
    if E::reverses() {
        x.swapped()
    } else {
        x
    }
}

/// Storing a value and reading the word back gives the value.
pub proof fn stored_twice<T: HasEndianness, E: Endianness>(x: T)
    ensures
        stored::<T, E>(stored::<T, E>(x)) == x,
{
    T::swapped_twice(x);
}

impl Endianness for Big {
    open spec fn reverses() -> bool {
        true
    }

    fn from_native<T: HasEndianness>(native: T) -> (r: T) {
        native.to_be()
    }

    fn to_native<T: HasEndianness>(native: T) -> (r: T) {
        native.from_be()
    }
}

impl Endianness for Little {
    open spec fn reverses() -> bool {
        false
    }

    fn from_native<T: HasEndianness>(native: T) -> (r: T) {
        native.to_le()
    }

    fn to_native<T: HasEndianness>(native: T) -> (r: T) {
        native.from_le()
    }
}

/// An integer of type `T` kept in byte order `E`.
#[derive(PartialEq, Eq)]
pub struct Endian<T, E>(T, core::marker::PhantomData<E>);

impl<T: Copy, E> Clone for Endian<T, E> {
    fn clone(&self) -> (r: Self)
        ensures
            r == *self,
    {
        Endian(self.0, core::marker::PhantomData)
    }
}

impl<T: Copy, E> Copy for Endian<T, E> {

}

impl<T, E> Endian<T, E> {
    /// The stored word.
    pub closed spec fn word(self) -> T {
        self.0
    }

    /// Wraps a word that is already in byte order `E`.
    pub fn from_raw(native: T) -> (r: Self)
        ensures
            r.word() == native,
    {
        Endian(native, core::marker::PhantomData)
    }
}

impl<T: HasEndianness, E: Endianness> Endian<T, E> {
    /// The value that the stored word holds.
    pub open spec fn value(self) -> T {
        stored::<T, E>(self.word())
    }

    /// The word that holds the value `native` in byte order `E`.
    pub closed spec fn of(native: T) -> Self {
        Endian(stored::<T, E>(native), core::marker::PhantomData)
    }

    /// Stores the value `native` in byte order `E`.
    pub fn new(native: T) -> (r: Self)
        ensures
            r == Self::of(native),
            r.word() == stored::<T, E>(native),
            r.value() == native,
    {
        proof {
            stored_twice::<T, E>(native);
        }
        Endian(E::from_native(native), core::marker::PhantomData)
    }

    /// The value, in the order the processor computes with.
    pub fn native(self) -> (r: T)
        ensures
            r == self.value(),
    {
        E::to_native(self.0)
    }

    /// The stored word, as it lies in memory.
    pub fn raw(self) -> (r: T)
        ensures
            r == self.word(),
    {
        self.0
    }
}

impl<T: HasEndianness, E: Endianness> From<T> for Endian<T, E> {
    /// Stores the value `f` in byte order `E`.
    fn from(f: T) -> (r: Self) {
        Self::new(f)
    }
}

impl<T: HasEndianness, E: Endianness> vstd::std_specs::convert::FromSpecImpl<T> for Endian<T, E> {
    open spec fn obeys_from_spec() -> bool {
        true
    }

    open spec fn from_spec(v: T) -> Self {
        Self::of(v)
    }
}

impl<T: HasEndianness, E: Endianness> Endian<T, E> {
    /// What `From` makes of a value is the word that holds it, and holds
    /// nothing else.
    pub proof fn lemma_of(native: T)
        ensures
            Self::of(native).word() == stored::<T, E>(native),
            Self::of(native).value() == native,
    {
        stored_twice::<T, E>(native);
    }
}

} // verus!
