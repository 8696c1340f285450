use vstd::prelude::*;

verus! {

/// A plain-data type of exactly eight bytes: its whole identity is a 64-bit
/// pattern, it owns nothing, and copying the pattern copies the value.
///
/// `as_bits` and `of_bits` describe the bridge; `to_bits` and `from_bits`
/// compute it. An implementation must prove that reading a value's pattern
/// back yields the value again, so two distinct values never share a pattern
/// and a type too wide for the cell cannot join the trait.
pub trait Plain64: Copy + Sized {
    /// The bit pattern of this value, as the integer a 64-bit cell stores.
    spec fn as_bits(self) -> u64;

    /// The value that a stored bit pattern stands for.
    spec fn of_bits(bits: u64) -> Self;

    /// Reinterpreting a value's own bit pattern yields the value again.
    proof fn lemma_bits_roundtrip(self)
        ensures
            Self::of_bits(self.as_bits()) == self,
    ;

    /// Compute the bit pattern of `self`.
    fn to_bits(self) -> (bits: u64)
        ensures
            bits == self.as_bits(),
    ;

    /// Reinterpret a bit pattern as a value. Only patterns that some value has
    /// written are admitted: the cell never synthesizes bytes, and neither may
    /// its callers.
    fn from_bits(bits: u64) -> (v: Self)
        requires
            exists|w: Self| bits == #[trigger] w.as_bits(),
        ensures
            v == Self::of_bits(bits),
    ;
}

impl Plain64 for u64 {
    open spec fn as_bits(self) -> u64 {
        self
    }

    open spec fn of_bits(bits: u64) -> Self {
        bits
    }

    proof fn lemma_bits_roundtrip(self) {
    }

    fn to_bits(self) -> (bits: u64) {
        self
    }

    fn from_bits(bits: u64) -> (v: Self) {
        bits
    }
}

impl Plain64 for i64 {
    open spec fn as_bits(self) -> u64 {
        self as u64
    }

    open spec fn of_bits(bits: u64) -> Self {
        bits as i64
    }

    proof fn lemma_bits_roundtrip(self) {
        let v: i64 = self;
        assert(v as u64 as i64 == v) by (bit_vector);
    }

    fn to_bits(self) -> (bits: u64) {
        self as u64
    }

    fn from_bits(bits: u64) -> (v: Self) {
        bits as i64
    }
}

/// An eight-byte record of two unsigned fields, packed tag-high, count-low
/// into one 64-bit pattern. It shows how a small plain-data struct rides in a
/// [`Subatomic64`] cell.
#[derive(Clone, Copy, Debug, PartialEq, Eq, Structural)]
pub struct TagCount {
    pub tag: u32,
    pub count: u32,
}

impl Plain64 for TagCount {
    open spec fn as_bits(self) -> u64 {
        ((self.tag as u64) << 32u64) | (self.count as u64)
    }

    open spec fn of_bits(bits: u64) -> Self {
        TagCount { tag: (bits >> 32u64) as u32, count: (bits & 0xffff_ffffu64) as u32 }
    }

    proof fn lemma_bits_roundtrip(self) {
        let t: u32 = self.tag;
        let c: u32 = self.count;
        assert(((((t as u64) << 32u64) | (c as u64)) >> 32u64) as u32 == t) by (bit_vector);
        assert(((((t as u64) << 32u64) | (c as u64)) & 0xffff_ffffu64) as u32 == c)
            by (bit_vector);
    }

    fn to_bits(self) -> (bits: u64) {
        ((self.tag as u64) << 32u64) | (self.count as u64)
    }

    fn from_bits(bits: u64) -> (v: Self) {
        let tag: u32 = (bits >> 32u64) as u32;
        let count: u32 = (bits & 0xffff_ffffu64) as u32;
        TagCount { tag, count }
    }
}

impl Default for TagCount {
    /// The canonical default: tag and count both zero.
    fn default() -> (r: Self)
        ensures
            r == (TagCount { tag: 0, count: 0 }),
    {
        TagCount { tag: 0, count: 0 }
    }
}

/// A cell holding the bit pattern of one [`Plain64`] value. Its view is the
/// value whose pattern it holds; every operation is a single transition of
/// that pattern, described exactly by the operation's contract.
pub struct Subatomic64<T: Plain64> {
    bits: u64,
    value: Ghost<T>,
}

impl<T: Plain64> View for Subatomic64<T> {
    type V = T;

    closed spec fn view(&self) -> T {
        self.value@
    }
}

impl<T: Plain64> Subatomic64<T> {
    /// The stored pattern is always the pattern of the value the cell stands
    /// for: only copies of previously constructed values are ever written.
    #[verifier::type_invariant]
    spec fn inv(self) -> bool {
        self.bits == self.value@.as_bits()
    }

    /// Create a new cell holding `item`.
    pub fn new(item: T) -> (cell: Self)
        ensures
            cell@ == item,
    {
        Subatomic64 { bits: item.to_bits(), value: Ghost(item) }
    }

    /// Read the current value: the pattern in the cell, reinterpreted as `T`.
    pub fn load(&self) -> (out: T)
        ensures
            out == self@,
    {
        proof {
            use_type_invariant(&*self);
            self.value@.lemma_bits_roundtrip();
        }
        T::from_bits(self.bits)
    }

    /// Overwrite the cell with `item`; the previous value is discarded.
    pub fn store(&mut self, item: T)
        ensures
            final(self)@ == item,
    {
        *self = Subatomic64 { bits: item.to_bits(), value: Ghost(item) };
    }

    /// Install `item` and hand back the value held immediately before, as one
    /// indivisible exchange: no write is lost between the read and the write.
    pub fn swap(&mut self, item: T) -> (prev: T)
        ensures
            prev == old(self)@,
            final(self)@ == item,
    {
        proof {
            use_type_invariant(&*self);
            self.value@.lemma_bits_roundtrip();
        }
        let prev_bits = self.bits;
        let ghost prev_value = self.value@;
        *self = Subatomic64 { bits: item.to_bits(), value: Ghost(item) };
        assert(prev_bits == prev_value.as_bits());
        T::from_bits(prev_bits)
    }

    /// Install `new` only if the cell currently holds exactly `current`,
    /// comparing bit patterns. On success the result carries the previous
    /// value, which equals `current`; on failure the cell is untouched and the
    /// result carries the value actually held, which differs from `current`.
    /// This comparison never fails spuriously.
    pub fn compare_exchange(&mut self, current: T, new: T) -> (r: Result<T, T>)
        ensures
            old(self)@ == current ==> r == Ok::<T, T>(current) && final(self)@ == new,
            old(self)@ != current ==> r == Err::<T, T>(old(self)@) && *final(self) == *old(self),
    {
        proof {
            use_type_invariant(&*self);
            self.value@.lemma_bits_roundtrip();
            current.lemma_bits_roundtrip();
        }
        let cur_bits = current.to_bits();
        if self.bits == cur_bits {
            let prev_bits = self.bits;
            let ghost prev_value = self.value@;
            *self = Subatomic64 { bits: new.to_bits(), value: Ghost(new) };
            assert(prev_bits == prev_value.as_bits());
            Ok(T::from_bits(prev_bits))
        } else {
            Err(T::from_bits(self.bits))
        }
    }

    /// Like `compare_exchange`, but allowed to fail spuriously: a failure
    /// carries the current value unchanged, which may still equal `current`.
    /// A mismatch always fails, and a success always means the comparison
    /// held; callers needing a definite outcome retry in a loop.
    pub fn compare_exchange_weak(&mut self, current: T, new: T) -> (r: Result<T, T>)
        ensures
            (match r {
                Ok(prev) => old(self)@ == current && prev == current && final(self)@ == new,
                Err(actual) => actual == old(self)@ && *final(self) == *old(self),
            }),
    {
        self.compare_exchange(current, new)
    }
}

impl<T: Plain64 + Default> Default for Subatomic64<T> {
    /// Equivalent to building the cell from `T::default()`: the cell's value
    /// is one that `T::default` can return.
    fn default() -> (cell: Self)
        ensures
            call_ensures(T::default, (), cell@),
    {
        Subatomic64::new(T::default())
    }
}

} // verus!
