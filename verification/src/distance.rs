//! Distances between 32-byte identifiers.

use core::cmp::Ordering;

use vstd::arithmetic::div_mod::lemma_div_denominator;
use vstd::arithmetic::div_mod::lemma_div_is_ordered;
use vstd::arithmetic::power::{lemma_pow0, lemma_pow_positive, pow};
use vstd::prelude::*;
use vstd::std_specs::cmp::{PartialEqSpec, PartialOrdSpec};

verus! {

/// The number that a byte sequence stands for, most significant byte first.
pub open spec fn be_value(bytes: Seq<u8>) -> nat
    decreases bytes.len(),
{
    if bytes.len() == 0 {
        0
    } else {
        be_value(bytes.drop_last()) * 256 + bytes.last() as nat
    }
}

/// The bytewise exclusive or of two sequences of one length.
pub open spec fn xor_bytes(x: Seq<u8>, y: Seq<u8>) -> Seq<u8> {
    Seq::new(x.len(), |i: int| x[i] ^ y[i])
}

/// The xor distance between two identifiers.
pub open spec fn xor_distance(x: Seq<u8>, y: Seq<u8>) -> nat {
    be_value(xor_bytes(x, y))
}

/// The largest distance: all 256 bits set.
pub open spec fn max_distance() -> nat {
    be_value(Seq::new(32, |i: int| 255u8))
}

/// The most significant 32 bits of a distance. The metadata database compares content by these
/// bits alone.
pub open spec fn coarse(distance: nat) -> nat {
    distance / (pow(256, 28) as nat)
}

/// A distance between two identifiers, as a 256-bit number.
#[derive(Clone, Copy, Debug, Eq)]
pub struct Distance {
    /// The number's bytes, most significant first.
    pub bytes: [u8; 32],
}

impl View for Distance {
    type V = nat;

    open spec fn view(&self) -> nat {
        be_value(self.bytes@)
    }
}

/// Where two sequences of one length first differ decides which number is smaller.
proof fn lemma_first_difference_decides(x: Seq<u8>, y: Seq<u8>, i: int)
    requires
        x.len() == y.len(),
        0 <= i < x.len(),
        forall|j: int| 0 <= j < i ==> x[j] == y[j],
        x[i] < y[i],
    ensures
        be_value(x) < be_value(y),
    decreases x.len(),
{
    if i == x.len() - 1 {
        assert(x.drop_last() =~= y.drop_last());
    } else {
        lemma_first_difference_decides(x.drop_last(), y.drop_last(), i);
    }
}

/// Sequences of one length that stand for one number are the same sequence.
proof fn lemma_be_value_injective(x: Seq<u8>, y: Seq<u8>)
    requires
        x.len() == y.len(),
        be_value(x) == be_value(y),
    ensures
        x == y,
    decreases x.len(),
{
    if x.len() > 0 {
        lemma_be_value_injective(x.drop_last(), y.drop_last());
        assert(x.drop_last() == y.drop_last());
        assert(x =~= x.drop_last().push(x.last()));
        assert(y =~= y.drop_last().push(y.last()));
    }
    assert(x =~= y);
}

/// Dropping the last bytes divides by 256 for each of them.
proof fn lemma_take_divides(x: Seq<u8>, n: nat)
    requires
        n <= x.len(),
    ensures
        pow(256, n) > 0,
        be_value(x) / (pow(256, n) as nat) == be_value(x.take(x.len() - n)),
    decreases n,
{
    lemma_pow_positive(256, n);
    if n == 0 {
        lemma_pow0(256);
        assert(x.take(x.len() as int) =~= x);
    } else {
        let m = (n - 1) as nat;
        lemma_take_divides(x.drop_last(), m);
        assert(x.drop_last().take(x.len() - 1 - m) =~= x.take(x.len() - n));
        assert(be_value(x) / 256 == be_value(x.drop_last()));
        assert(pow(256, n) == 256 * pow(256, m)) by {
            reveal(pow);
        }
        lemma_pow_positive(256, m);
        lemma_div_denominator(be_value(x) as int, 256, pow(256, m));
        assert(be_value(x) as int / 256 / pow(256, m) == be_value(x) as int / pow(256, n));
    }
}

/// The most significant 32 bits of a distance are its first four bytes.
pub(crate) proof fn lemma_coarse_is_prefix(x: Seq<u8>)
    requires
        x.len() == 32,
    ensures
        coarse(be_value(x)) == be_value(x.take(4)),
{
    lemma_take_divides(x, 28);
}

/// A smaller distance has no larger bits at the top.
proof fn lemma_coarse_is_monotonic(near: nat, far: nat)
    requires
        near <= far,
    ensures
        coarse(near) <= coarse(far),
{
    lemma_pow_positive(256, 28);
    lemma_div_is_ordered(near as int, far as int, pow(256, 28));
}

/// Distances that differ in their most significant 32 bits are ordered by these bits.
pub proof fn law_coarse_order_is_distance_order(near: nat, far: nat)
    requires
        coarse(near) < coarse(far),
    ensures
        near < far,
{
    if far <= near {
        lemma_coarse_is_monotonic(far, near);
    }
}

/// Appending a byte multiplies the number that a byte sequence stands for by 256 and adds the byte.
pub proof fn law_appended_byte_is_least_significant(bytes: Seq<u8>, last: u8)
    ensures
        be_value(Seq::<u8>::empty()) == 0,
        be_value(bytes.push(last)) == be_value(bytes) * 256 + last,
{
    assert(bytes.push(last).drop_last() =~= bytes);
}

/// The xor distance is the number whose bytes are the exclusive or of the identifiers' bytes.
pub proof fn law_distance_has_the_xor_for_bytes(x: Seq<u8>, y: Seq<u8>, distance: Seq<u8>)
    requires
        x.len() == y.len(),
        distance.len() == x.len(),
    ensures
        xor_distance(x, y) == be_value(distance) <==> forall|i: int|
            0 <= i < x.len() ==> #[trigger] distance[i] == x[i] ^ y[i],
{
    if xor_distance(x, y) == be_value(distance) {
        lemma_be_value_injective(xor_bytes(x, y), distance);
    }
    if forall|i: int| 0 <= i < x.len() ==> #[trigger] distance[i] == x[i] ^ y[i] {
        assert(xor_bytes(x, y) =~= distance);
    }
}

/// The first byte in which two distances differ decides which is smaller, both of their numbers and
/// where distances are compared.
pub proof fn law_first_difference_orders_distances(near: Distance, far: Distance, i: int)
    requires
        0 <= i < 32,
        forall|j: int| 0 <= j < i ==> near.bytes@[j] == far.bytes@[j],
        near.bytes@[i] < far.bytes@[i],
    ensures
        near@ < far@,
        near.partial_cmp_spec(&far) == Some(Ordering::Less),
        far.partial_cmp_spec(&near) == Some(Ordering::Greater),
        !near.eq_spec(&far),
        !far.eq_spec(&near),
{
    lemma_first_difference_decides(near.bytes@, far.bytes@, i);
}

/// Distances with the same bytes are equal.
pub proof fn law_same_bytes_are_the_same_distance(x: Distance, y: Distance)
    requires
        forall|i: int| 0 <= i < 32 ==> x.bytes@[i] == y.bytes@[i],
    ensures
        x@ == y@,
        x.partial_cmp_spec(&y) == Some(Ordering::Equal),
        x.eq_spec(&y),
{
    assert(x.bytes@ =~= y.bytes@);
}

/// The distance between two identifiers is the same from either side, is zero only from an
/// identifier to itself, and never exceeds the largest distance.
pub proof fn law_distance_is_a_metric(x: Seq<u8>, y: Seq<u8>)
    requires
        x.len() == 32,
        y.len() == 32,
    ensures
        xor_distance(x, y) == xor_distance(y, x),
        xor_distance(x, y) == 0 <==> x == y,
        xor_distance(x, y) <= max_distance(),
{
    assert forall|i: int| 0 <= i < 32 implies x[i] ^ y[i] == y[i] ^ x[i] by {
        let (a, b) = (x[i], y[i]);
        assert(a ^ b == b ^ a) by (bit_vector);
    }
    assert(xor_bytes(x, y) =~= xor_bytes(y, x));
    lemma_max_distance_is_largest(xor_bytes(x, y));
    let zeros = Seq::new(32, |i: int| 0u8);
    lemma_zeros(zeros);
    if x == y {
        assert forall|i: int| 0 <= i < 32 implies x[i] ^ y[i] == 0 by {
            let a = x[i];
            assert(a ^ a == 0) by (bit_vector);
        }
        assert(xor_bytes(x, y) =~= zeros);
    }
    if xor_distance(x, y) == 0 {
        lemma_be_value_injective(xor_bytes(x, y), zeros);
        assert forall|i: int| 0 <= i < 32 implies x[i] == y[i] by {
            let (a, b) = (x[i], y[i]);
            assert(xor_bytes(x, y)[i] == zeros[i]);
            assert(a ^ b == 0 ==> a == b) by (bit_vector);
        }
        assert(x =~= y);
    }
}

/// No two contents are equally far from a node.
pub proof fn law_distance_tells_contents_apart(node_id: Seq<u8>, x: Seq<u8>, y: Seq<u8>)
    requires
        node_id.len() == 32,
        x.len() == 32,
        y.len() == 32,
        xor_distance(x, node_id) == xor_distance(y, node_id),
    ensures
        x == y,
{
    lemma_be_value_injective(xor_bytes(x, node_id), xor_bytes(y, node_id));
    assert forall|i: int| 0 <= i < 32 implies x[i] == y[i] by {
        let (a, b, n) = (x[i], y[i], node_id[i]);
        assert(xor_bytes(x, node_id)[i] == xor_bytes(y, node_id)[i]);
        assert(a ^ n == b ^ n ==> a == b) by (bit_vector);
    }
    assert(x =~= y);
}

/// Zero bytes stand for zero.
proof fn lemma_zeros(x: Seq<u8>)
    requires
        forall|i: int| 0 <= i < x.len() ==> x[i] == 0,
    ensures
        be_value(x) == 0,
    decreases x.len(),
{
    if x.len() > 0 {
        lemma_zeros(x.drop_last());
    }
}

/// No 32-byte number exceeds the largest distance.
pub(crate) proof fn lemma_max_distance_is_largest(x: Seq<u8>)
    requires
        x.len() == 32,
    ensures
        be_value(x) <= max_distance(),
{
    let top = Seq::new(32, |i: int| 255u8);
    if x =~= top {
    } else {
        let i = lemma_first_difference(x, top);
        lemma_first_difference_decides(x, top, i);
    }
}

/// The first place at which two different sequences of one length differ.
proof fn lemma_first_difference(x: Seq<u8>, y: Seq<u8>) -> (i: int)
    requires
        x.len() == y.len(),
        x != y,
    ensures
        0 <= i < x.len(),
        forall|j: int| 0 <= j < i ==> x[j] == y[j],
        x[i] != y[i],
    decreases x.len(),
{
    if x.len() == 0 {
        assert(x =~= y);
        0
    } else if x.drop_last() == y.drop_last() {
        assert(x =~= x.drop_last().push(x.last()));
        assert(y =~= y.drop_last().push(y.last()));
        assert forall|j: int| 0 <= j < x.len() - 1 implies x[j] == y[j] by {
            assert(x.drop_last()[j] == y.drop_last()[j]);
        }
        x.len() - 1
    } else {
        let i = lemma_first_difference(x.drop_last(), y.drop_last());
        assert forall|j: int| 0 <= j < i implies x[j] == y[j] by {
            assert(x.drop_last()[j] == y.drop_last()[j]);
        }
        i
    }
}

impl Distance {
    /// The largest distance. Every identifier lies within it.
    pub fn max_value() -> (distance: Distance)
        ensures
            distance@ == max_distance(),
            forall|i: int| 0 <= i < 32 ==> distance.bytes@[i] == 255,
    {
        let distance = Distance { bytes: [255u8; 32] };
        assert(distance.bytes@ =~= Seq::new(32, |i: int| 255u8));
        distance
    }
}

impl PartialEq for Distance {
    fn eq(&self, other: &Distance) -> (equal: bool) {
        let mut i: usize = 0;
        while i < 32
            invariant
                i <= 32,
                forall|j: int| 0 <= j < i ==> self.bytes@[j] == other.bytes@[j],
            decreases 32 - i,
        {
            if self.bytes[i] != other.bytes[i] {
                proof {
                    if self@ == other@ {
                        lemma_be_value_injective(self.bytes@, other.bytes@);
                    }
                }
                return false;
            }
            i = i + 1;
        }
        assert(self.bytes@ =~= other.bytes@);
        true
    }
}

impl vstd::std_specs::cmp::PartialEqSpecImpl for Distance {
    open spec fn obeys_eq_spec() -> bool {
        true
    }

    open spec fn eq_spec(&self, other: &Distance) -> bool {
        self@ == other@
    }
}

impl PartialOrd for Distance {
    fn partial_cmp(&self, other: &Distance) -> (order: Option<Ordering>) {
        let mut i: usize = 0;
        while i < 32
            invariant
                i <= 32,
                forall|j: int| 0 <= j < i ==> self.bytes@[j] == other.bytes@[j],
            decreases 32 - i,
        {
            if self.bytes[i] < other.bytes[i] {
                proof {
                    lemma_first_difference_decides(self.bytes@, other.bytes@, i + 0);
                }
                return Some(Ordering::Less);
            }
            if self.bytes[i] > other.bytes[i] {
                proof {
                    lemma_first_difference_decides(other.bytes@, self.bytes@, i + 0);
                }
                return Some(Ordering::Greater);
            }
            i = i + 1;
        }
        assert(self.bytes@ =~= other.bytes@);
        Some(Ordering::Equal)
    }
}

impl vstd::std_specs::cmp::PartialOrdSpecImpl for Distance {
    open spec fn obeys_partial_cmp_spec() -> bool {
        true
    }

    open spec fn partial_cmp_spec(&self, other: &Distance) -> Option<Ordering> {
        if self@ < other@ {
            Some(Ordering::Less)
        } else if self@ > other@ {
            Some(Ordering::Greater)
        } else {
            Some(Ordering::Equal)
        }
    }
}

/// The metric by which content is assigned to nodes: the exclusive or of two identifiers, read as
/// a number.
pub struct XorMetric;

impl XorMetric {
    /// The distance between two identifiers.
    pub fn distance(x: &[u8; 32], y: &[u8; 32]) -> (distance: Distance)
        ensures
            distance@ == xor_distance(x@, y@),
            forall|i: int| 0 <= i < 32 ==> #[trigger] distance.bytes@[i] == x@[i] ^ y@[i],
    {
        let mut bytes: [u8; 32] = [0u8; 32];
        let mut i: usize = 0;
        while i < 32
            invariant
                i <= 32,
                forall|j: int| 0 <= j < i ==> bytes@[j] == x@[j] ^ y@[j],
            decreases 32 - i,
        {
            bytes[i] = x[i] ^ y[i];
            i = i + 1;
        }
        assert(bytes@ =~= xor_bytes(x@, y@));
        Distance { bytes }
    }
}

} // verus!
