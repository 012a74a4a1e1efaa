//! Identities of parties and storage slots, and their total order.

use vstd::prelude::*;

verus! {

/// The 32-byte identity of a party, a storage slot or a program.
#[derive(Clone, Copy, Debug, PartialEq, Eq, Hash)]
pub struct Identity {
    pub bytes: [u8; 32],
}

impl Identity {
    /// The two identities hold the same byte at every position below `n`.
    pub open spec fn agrees_below(self, other: Identity, n: int) -> bool {
        forall|j: int| 0 <= j < n ==> self.bytes[j] == other.bytes[j]
    }

    /// Lexicographic order on the bytes: at the first position where the two
    /// differ, `self` holds the smaller byte.
    pub open spec fn precedes(self, other: Identity) -> bool {
        exists|i: int| 0 <= i < 32 && self.agrees_below(other, i) && self.bytes[i] < other.bytes[i]
    }

    pub fn new(bytes: [u8; 32]) -> (id: Identity)
        ensures
            id.bytes == bytes,
    {
        Identity { bytes }
    }

    /// The first position at which the two identities differ, or 32 when they
    /// are the same.
    pub fn first_difference(&self, other: &Identity) -> (at: usize)
        ensures
            at <= 32,
            self.agrees_below(*other, at as int),
            at < 32 ==> self.bytes[at as int] != other.bytes[at as int],
            at == 32 <==> *self == *other,
    {
        let mut i: usize = 0;
        while i < 32
            invariant
                i <= 32,
                self.agrees_below(*other, i as int),
            decreases 32 - i,
        {
            if self.bytes[i] != other.bytes[i] {
                return i;
            }
            i += 1;
        }
        proof {
            assert(self.bytes =~= other.bytes);
        }
        i
    }

    /// Whether the two identities are the same.
    pub fn same(&self, other: &Identity) -> (r: bool)
        ensures
            r == (*self == *other),
    {
        self.first_difference(other) == 32
    }

    /// Whether `self` comes strictly before `other` in the order of identities.
    pub fn before(&self, other: &Identity) -> (r: bool)
        ensures
            r == self.precedes(*other),
    {
        let at = self.first_difference(other);
        if at < 32 && self.bytes[at] < other.bytes[at] {
            true
        } else {
            proof {
                lemma_first_difference_decides(*self, *other, at as int);
            }
            false
        }
    }
}

/// Where two identities agree below `at` and `me` holds the larger byte at
/// `at`, `me` does not precede `other`.
proof fn lemma_first_difference_decides(me: Identity, other: Identity, at: int)
    requires
        0 <= at <= 32,
        me.agrees_below(other, at),
        at < 32 ==> me.bytes[at] > other.bytes[at],
    ensures
        !me.precedes(other),
{
    if me.precedes(other) {
        let i = choose|i: int| 0 <= i < 32 && me.agrees_below(other, i) && me.bytes[i] < other.bytes[i];
        if i < at {
            assert(me.bytes[i] == other.bytes[i]);
        } else if i > at {
            assert(me.bytes[at] == other.bytes[at]);
        }
    }
}

/// No identity precedes itself.
pub proof fn lemma_precedes_irreflexive(a: Identity)
    ensures
        !a.precedes(a),
{
}

/// The order of identities is transitive.
pub proof fn lemma_precedes_transitive(a: Identity, b: Identity, c: Identity)
    requires
        a.precedes(b),
        b.precedes(c),
    ensures
        a.precedes(c),
{
    let i = choose|i: int| 0 <= i < 32 && a.agrees_below(b, i) && a.bytes[i] < b.bytes[i];
    let j = choose|j: int| 0 <= j < 32 && b.agrees_below(c, j) && b.bytes[j] < c.bytes[j];
    let m = if i <= j { i } else { j };
    assert(a.agrees_below(c, m));
    assert(a.bytes[m] < c.bytes[m]);
}

/// Of two different identities exactly one precedes the other.
pub proof fn lemma_precedes_total(a: Identity, b: Identity)
    ensures
        a == b || a.precedes(b) || b.precedes(a),
        !(a.precedes(b) && b.precedes(a)),
        a == b ==> !a.precedes(b),
{
    if a.precedes(b) && b.precedes(a) {
        lemma_precedes_transitive(a, b, a);
    }
    if a != b {
        if a.agrees_below(b, 32) {
            assert(a.bytes =~= b.bytes);
        } else {
            let k = choose|k: int| 0 <= k < 32 && a.bytes[k] != b.bytes[k];
            lemma_first_gap(a, b, k);
        }
    }
}

/// Where two identities differ at `k`, they are ordered one way or the other.
proof fn lemma_first_gap(a: Identity, b: Identity, k: int)
    requires
        0 <= k < 32,
        a.bytes[k] != b.bytes[k],
    ensures
        a.precedes(b) || b.precedes(a),
    decreases k,
{
    if a.agrees_below(b, k) {
        assert(b.agrees_below(a, k));
    } else {
        let j = choose|j: int| 0 <= j < k && a.bytes[j] != b.bytes[j];
        lemma_first_gap(a, b, j);
    }
}

} // verus!
