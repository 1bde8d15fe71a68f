//! Capability-based security primitives.

use vstd::prelude::*;

verus! {

/// A rights bitmask: bit 0 read, bit 1 write, bit 2 execute, bit 3 admin.
#[derive(Debug, Clone, Copy, PartialEq, Eq, Hash, Structural)]
pub struct Rights(pub u8);

/// A capability token grants a set of rights on a resource.
#[derive(Debug, Clone, PartialEq, Eq, Hash)]
pub struct Capability {
    /// Resource identifier.
    pub resource: String,
    /// Granted rights.
    pub rights: Rights,
}

/// `held` includes every bit that is set in `wanted`.
pub open spec fn includes(held: u8, wanted: u8) -> bool {
    held & wanted == wanted
}

/// Bit `i` of `x` is set.
pub open spec fn bit_set(x: u8, i: u8) -> bool {
    (x >> i) & 1u8 == 1u8
}

impl Rights {
    /// Read permission.
    #[allow(non_snake_case)]
    pub fn READ() -> (r: Rights)
        ensures
            r.0 == 1,
    {
        Rights(1u8)
    }

    /// Write permission.
    #[allow(non_snake_case)]
    pub fn WRITE() -> (r: Rights)
        ensures
            r.0 == 2,
    {
        Rights(2u8)
    }

    /// Execute permission.
    #[allow(non_snake_case)]
    pub fn EXECUTE() -> (r: Rights)
        ensures
            r.0 == 4,
    {
        Rights(4u8)
    }

    /// Admin permission.
    #[allow(non_snake_case)]
    pub fn ADMIN() -> (r: Rights)
        ensures
            r.0 == 8,
    {
        Rights(8u8)
    }

    /// Check whether this rights set contains every right of `other`.
    pub fn contains(&self, other: Self) -> (r: bool)
        ensures
            r == includes(self.0, other.0),
    {
        (self.0 & other.0) == other.0
    }
}

/// Every rights set contains itself.
pub proof fn lemma_contains_reflexive(a: u8)
    ensures
        includes(a, a),
{
    assert(a & a == a) by (bit_vector);
}

/// Two rights sets that contain each other are equal.
pub proof fn lemma_contains_antisymmetric(a: u8, b: u8)
    requires
        includes(a, b),
        includes(b, a),
    ensures
        a == b,
{
    assert(a & b == b && b & a == a ==> a == b) by (bit_vector);
}

/// Containment is transitive.
pub proof fn lemma_contains_transitive(a: u8, b: u8, c: u8)
    requires
        includes(a, b),
        includes(b, c),
    ensures
        includes(a, c),
{
    assert(a & b == b && b & c == c ==> a & c == c) by (bit_vector);
}

/// The union of two rights sets contains each of them.
pub proof fn lemma_union_contains_each(a: u8, b: u8)
    ensures
        includes(a | b, a),
        includes(a | b, b),
{
    assert((a | b) & a == a) by (bit_vector);
    assert((a | b) & b == b) by (bit_vector);
}

/// A rights set contains another exactly when it holds every right that the
/// other holds, bit by bit.
pub proof fn lemma_contains_iff_bitwise(held: u8, wanted: u8)
    ensures
        includes(held, wanted) <==> forall|i: u8| i < 8 && #[trigger] bit_set(wanted, i) ==> bit_set(held, i),
{
    if includes(held, wanted) {
        assert forall|i: u8| i < 8 && #[trigger] bit_set(wanted, i) implies bit_set(held, i) by {
            assert(held & wanted == wanted && i < 8 && (wanted >> i) & 1u8 == 1u8 ==> (held >> i)
                & 1u8 == 1u8) by (bit_vector);
        }
    }
    if forall|i: u8| i < 8 && #[trigger] bit_set(wanted, i) ==> bit_set(held, i) {
        assert(bit_set(wanted, 0) ==> bit_set(held, 0));
        assert(bit_set(wanted, 1) ==> bit_set(held, 1));
        assert(bit_set(wanted, 2) ==> bit_set(held, 2));
        assert(bit_set(wanted, 3) ==> bit_set(held, 3));
        assert(bit_set(wanted, 4) ==> bit_set(held, 4));
        assert(bit_set(wanted, 5) ==> bit_set(held, 5));
        assert(bit_set(wanted, 6) ==> bit_set(held, 6));
        assert(bit_set(wanted, 7) ==> bit_set(held, 7));
        assert(((wanted >> 0u8) & 1u8 == 1u8 ==> (held >> 0u8) & 1u8 == 1u8) && ((wanted >> 1u8)
            & 1u8 == 1u8 ==> (held >> 1u8) & 1u8 == 1u8) && ((wanted >> 2u8) & 1u8 == 1u8 ==> (held
            >> 2u8) & 1u8 == 1u8) && ((wanted >> 3u8) & 1u8 == 1u8 ==> (held >> 3u8) & 1u8 == 1u8)
            && ((wanted >> 4u8) & 1u8 == 1u8 ==> (held >> 4u8) & 1u8 == 1u8) && ((wanted >> 5u8)
            & 1u8 == 1u8 ==> (held >> 5u8) & 1u8 == 1u8) && ((wanted >> 6u8) & 1u8 == 1u8 ==> (held
            >> 6u8) & 1u8 == 1u8) && ((wanted >> 7u8) & 1u8 == 1u8 ==> (held >> 7u8) & 1u8 == 1u8)
            ==> held & wanted == wanted) by (bit_vector);
    }
}

/// The empty rights set contains no single right, and every rights set
/// contains the empty one.
pub proof fn lemma_empty_rights(a: u8)
    ensures
        includes(a, 0),
        a != 0 ==> !includes(0, a),
{
    assert(a & 0 == 0) by (bit_vector);
    assert(a != 0 ==> 0u8 & a != a) by (bit_vector);
}

} // verus!
