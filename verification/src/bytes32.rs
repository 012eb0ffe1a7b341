//! Fixed 32-byte values: addresses, hashes, nullifiers, commitments and
//! public inputs all share this representation.

use vstd::prelude::*;

verus! {

/// A 32-byte value. Its view is the sequence of its bytes, and two values
/// are equal exactly when their views are.
#[derive(Clone, Copy, Debug, PartialEq, Eq)]
pub struct Bytes32 {
    pub bytes: [u8; 32],
}

/// The address of a participant or of a program.
pub type Address = Bytes32;

impl View for Bytes32 {
    type V = Seq<u8>;

    open spec fn view(&self) -> Seq<u8> {
        self.bytes@
    }
}

/// An array whose first `n` elements are those of `s`.
spec fn array_with_prefix(s: Seq<u8>, n: nat) -> [u8; 32]
    decreases n,
{
    if n == 0 {
        vstd::array::spec_array_fill_for_copy_type::<u8, 32>(0u8)
    } else {
        vstd::array::spec_array_update(array_with_prefix(s, (n - 1) as nat), n - 1, s[n - 1])
    }
}

proof fn lemma_array_with_prefix(s: Seq<u8>, n: nat)
    requires
        n <= 32,
    ensures
        forall|j: int| 0 <= j < n ==> array_with_prefix(s, n)@[j] == s[j],
    decreases n,
{
    if n > 0 {
        lemma_array_with_prefix(s, (n - 1) as nat);
    }
}

impl Bytes32 {
    /// The value whose bytes are the 32 elements of `s`.
    pub closed spec fn of(s: Seq<u8>) -> Bytes32 {
        Bytes32 { bytes: array_with_prefix(s, 32) }
    }

    /// The value whose bytes are all zero.
    pub open spec fn spec_zero() -> Bytes32 {
        Bytes32::of(Seq::new(32, |i: int| 0u8))
    }

    /// `of` inverts the view.
    pub proof fn lemma_of_view(s: Seq<u8>)
        requires
            s.len() == 32,
        ensures
            Bytes32::of(s)@ == s,
    {
        lemma_array_with_prefix(s, 32);
    }

    /// A value is determined by its view.
    pub proof fn lemma_view_of(b: Bytes32)
        ensures
            Bytes32::of(b@) == b,
    {
        Bytes32::lemma_of_view(b@);
        assert(Bytes32::of(b@).bytes =~= b.bytes);
    }

    /// Values with the same view are the same value.
    pub proof fn lemma_view_injective(a: Bytes32, b: Bytes32)
        requires
            a@ == b@,
        ensures
            a == b,
    {
        assert(a.bytes =~= b.bytes);
    }

    /// Wraps an array of 32 bytes.
    pub fn new(bytes: [u8; 32]) -> (r: Bytes32)
        ensures
            r.bytes == bytes,
    {
        Bytes32 { bytes }
    }

    /// The value whose bytes are all zero.
    pub fn zero() -> (r: Bytes32)
        ensures
            r == Bytes32::spec_zero(),
    {
        let r = Bytes32 { bytes: [0u8; 32] };
        proof {
            Bytes32::lemma_of_view(Seq::new(32, |i: int| 0u8));
            assert(r@ =~= Seq::new(32, |i: int| 0u8));
            Bytes32::lemma_view_injective(r, Bytes32::spec_zero());
        }
        r
    }

    /// Byte-wise equality.
    pub fn same(&self, other: &Bytes32) -> (r: bool)
        ensures
            r == (*self == *other),
    {
        let mut i: usize = 0;
        while i < 32
            invariant
                i <= 32,
                forall|j: int| 0 <= j < i ==> self.bytes[j] == other.bytes[j],
            decreases 32 - i,
        {
            if self.bytes[i] != other.bytes[i] {
                return false;
            }
            i += 1;
        }
        assert(self.bytes =~= other.bytes);
        true
    }

    /// Reads the 32 bytes of `data` that start at `offset`.
    pub fn from_slice(data: &[u8], offset: usize) -> (r: Bytes32)
        requires
            offset + 32 <= data@.len(),
        ensures
            r == Bytes32::of(data@.subrange(offset as int, offset + 32)),
            r@ == data@.subrange(offset as int, offset + 32),
    {
        let mut bytes = [0u8; 32];
        let mut i: usize = 0;
        let len: usize = data.len();
        while i < 32
            invariant
                i <= 32,
                offset + 32 <= len == data@.len(),
                forall|j: int| 0 <= j < i ==> bytes[j] == data@[offset + j],
            decreases 32 - i,
        {
            bytes[i] = data[offset + i];
            i += 1;
        }
        let r = Bytes32 { bytes };
        proof {
            let s = data@.subrange(offset as int, offset + 32);
            assert(r@ =~= s);
            Bytes32::lemma_of_view(s);
            Bytes32::lemma_view_injective(r, Bytes32::of(s));
        }
        r
    }
}

} // verus!
