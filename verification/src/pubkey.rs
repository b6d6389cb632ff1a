//! Account addresses and their order.
use vstd::prelude::*;

verus! {

/// The address of an account: 32 bytes, ordered byte by byte from the left.
#[derive(Clone, Copy, Debug, PartialEq, Eq)]
pub struct Pubkey {
    pub bytes: [u8; 32],
}

impl View for Pubkey {
    type V = Seq<u8>;

    open spec fn view(&self) -> Seq<u8> {
        self.bytes@
    }
}

/// Where one address stands relative to another.
#[derive(Clone, Copy, Debug, PartialEq, Eq)]
pub enum Place {
    Before,
    Same,
    After,
}

/// `i` is the first position at which `a` and `b` differ.
pub open spec fn first_difference(a: Seq<u8>, b: Seq<u8>, i: int) -> bool {
    &&& 0 <= i < a.len()
    &&& i < b.len()
    &&& a[i] != b[i]
    &&& forall|j: int| 0 <= j < i ==> a[j] == b[j]
}

/// `a` comes before `b`: at the first position where they differ, `a` has the smaller byte.
pub open spec fn precedes(a: Seq<u8>, b: Seq<u8>) -> bool {
    exists|i: int| #[trigger] first_difference(a, b, i) && a[i] < b[i]
}

/// Two addresses with the same bytes are the same address.
pub broadcast proof fn lemma_pubkey_ext(a: Pubkey, b: Pubkey)
    ensures
        #[trigger] a@ == #[trigger] b@ ==> a == b,
{
    if a@ == b@ {
        assert forall|i: int| 0 <= i < 32 implies a.bytes[i] == b.bytes[i] by {
            assert(a@[i] == b@[i]);
        }
        assert(a.bytes =~= b.bytes);
    }
}

/// An address is its 32 bytes.
pub proof fn addresses_are_their_bytes(a: Pubkey, i: int)
    requires
        0 <= i < 32,
    ensures
        a@.len() == 32,
        a@[i] == a.bytes[i],
{
}

/// No byte string comes before itself.
pub proof fn lemma_precedes_irreflexive(a: Seq<u8>)
    ensures
        !precedes(a, a),
{
}

/// Of two byte strings at most one comes before the other.
pub proof fn lemma_precedes_asymmetric(a: Seq<u8>, b: Seq<u8>)
    requires
        precedes(a, b),
    ensures
        !precedes(b, a),
{
    let i = choose|i: int| #[trigger] first_difference(a, b, i) && a[i] < b[i];
    if precedes(b, a) {
        let j = choose|j: int| #[trigger] first_difference(b, a, j) && b[j] < a[j];
        assert(i == j) by {
            if i < j {
                assert(b[i] == a[i]);
            }
            if j < i {
                assert(a[j] == b[j]);
            }
        }
    }
}

/// What comes before something that comes before `c` comes before `c`.
pub proof fn lemma_precedes_transitive(a: Seq<u8>, b: Seq<u8>, c: Seq<u8>)
    requires
        a.len() == b.len() == c.len(),
        precedes(a, b),
        precedes(b, c),
    ensures
        precedes(a, c),
{
    let i = choose|i: int| #[trigger] first_difference(a, b, i) && a[i] < b[i];
    let j = choose|j: int| #[trigger] first_difference(b, c, j) && b[j] < c[j];
    let k = if i < j { i } else { j };
    assert(first_difference(a, c, k));
}

/// Of two different byte strings of one length, one comes before the other.
pub proof fn lemma_precedes_total(a: Seq<u8>, b: Seq<u8>)
    requires
        a.len() == b.len(),
        a != b,
    ensures
        precedes(a, b) || precedes(b, a),
{
    lemma_difference(a, b, 0);
    let i = choose|i: int| first_difference(a, b, i);
    if a[i] < b[i] {
        assert(first_difference(a, b, i));
    } else {
        assert(first_difference(b, a, i));
    }
}

/// The first byte in which two addresses differ decides their order, whatever follows it.
pub proof fn the_first_different_byte_decides(a: Pubkey, b: Pubkey, i: int)
    requires
        0 <= i < 32,
        forall|j: int| 0 <= j < i ==> a.bytes[j] == b.bytes[j],
        a.bytes[i] < b.bytes[i],
    ensures
        precedes(a@, b@),
        !precedes(b@, a@),
        a@ != b@,
{
    assert forall|j: int| 0 <= j < i implies a@[j] == b@[j] by {
        assert(a.bytes[j] == b.bytes[j]);
    }
    assert(first_difference(a@, b@, i));
    lemma_precedes_asymmetric(a@, b@);
}

/// Two different byte strings of one length that agree up to `n` have a first difference.
proof fn lemma_difference(a: Seq<u8>, b: Seq<u8>, n: int)
    requires
        a.len() == b.len(),
        a != b,
        0 <= n <= a.len(),
        forall|j: int| 0 <= j < n ==> a[j] == b[j],
    ensures
        exists|i: int| first_difference(a, b, i),
    decreases a.len() - n,
{
    if n == a.len() {
        assert(a =~= b);
    } else if a[n] == b[n] {
        lemma_difference(a, b, n + 1);
    } else {
        assert(first_difference(a, b, n));
    }
}

impl Pubkey {
    /// Compares two addresses byte by byte.
    pub fn place(&self, other: &Pubkey) -> (r: Place)
        ensures
            r is Before <==> precedes(self@, other@),
            r is Same <==> self@ == other@,
            r is Same <==> *self == *other,
            r is After <==> precedes(other@, self@),
    {
        broadcast use lemma_pubkey_ext;

        let mut i: usize = 0;
        while i < 32
            invariant
                0 <= i <= 32,
                forall|j: int| 0 <= j < i ==> self@[j] == other@[j],
            decreases 32 - i,
        {
            let a: u8 = self.bytes[i];
            let b: u8 = other.bytes[i];
            if a < b {
                proof {
                    assert(first_difference(self@, other@, i as int));
                    lemma_precedes_asymmetric(self@, other@);
                }
                return Place::Before;
            }
            if b < a {
                proof {
                    assert(first_difference(other@, self@, i as int));
                    lemma_precedes_asymmetric(other@, self@);
                }
                return Place::After;
            }
            i += 1;
        }
        proof {
            assert(self@ =~= other@);
            lemma_precedes_irreflexive(self@);
        }
        Place::Same
    }

    /// Whether two addresses are the same.
    pub fn same(&self, other: &Pubkey) -> (r: bool)
        ensures
            r <==> *self == *other,
            r <==> self@ == other@,
    {
        match self.place(other) {
            Place::Same => true,
            _ => false,
        }
    }
}

/// Comparing two addresses that first differ in some byte puts the one with the smaller byte there
/// first, and finds them different.
pub proof fn addresses_are_compared_by_their_first_difference(
    a: Pubkey,
    b: Pubkey,
    i: int,
    forth: Place,
    back: Place,
    same: bool,
)
    requires
        0 <= i < 32,
        forall|j: int| 0 <= j < i ==> a.bytes[j] == b.bytes[j],
        a.bytes[i] < b.bytes[i],
        call_ensures(Pubkey::place, (&a, &b), forth),
        call_ensures(Pubkey::place, (&b, &a), back),
        call_ensures(Pubkey::same, (&a, &b), same),
    ensures
        forth is Before,
        back is After,
        !same,
{
    the_first_different_byte_decides(a, b, i);
}

} // verus!
