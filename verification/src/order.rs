//! The order in which names are kept: text is ordered by its bytes, as
//! strings are in Rust.

use vstd::prelude::*;
use vstd::string::StringSliceAdditionalSpecFns;
use vstd::utf8::{encode_utf8, encode_utf8_decode_utf8};

verus! {

/// How one text stands to another in the order.
#[derive(Clone, Copy, Debug, PartialEq, Eq)]
pub enum Order {
    /// It comes first.
    Before,
    /// The two are the same text.
    Same,
    /// It comes second.
    After,
}

/// Whether `a` comes before `b`: at the first place where they differ `a`
/// has the smaller byte, or `a` ends there and `b` goes on.
pub open spec fn bytes_precede(a: Seq<u8>, b: Seq<u8>) -> bool {
    exists|k: int| #[trigger] differ_at(a, b, k)
}

/// Whether `k` is the first place at which `a` and `b` differ, and `a` is
/// the smaller there.
pub open spec fn differ_at(a: Seq<u8>, b: Seq<u8>, k: int) -> bool {
    &&& 0 <= k <= a.len()
    &&& k < b.len()
    &&& forall|i: int| 0 <= i < k ==> a[i] == b[i]
    &&& k < a.len() ==> a[k] < b[k]
}

/// Whether the name `a` comes before the name `b`.
pub open spec fn precedes(a: Seq<char>, b: Seq<char>) -> bool {
    bytes_precede(encode_utf8(a), encode_utf8(b))
}

/// Nothing comes before itself.
pub proof fn lemma_precedes_irreflexive(a: Seq<char>)
    ensures
        !precedes(a, a),
{
}

/// What comes before something that comes before a third comes before the
/// third.
pub proof fn lemma_precedes_transitive(a: Seq<char>, b: Seq<char>, c: Seq<char>)
    requires
        precedes(a, b),
        precedes(b, c),
    ensures
        precedes(a, c),
{
    let (x, y, z) = (encode_utf8(a), encode_utf8(b), encode_utf8(c));
    let k1 = choose|k: int| #[trigger] differ_at(x, y, k);
    let k2 = choose|k: int| #[trigger] differ_at(y, z, k);
    if k1 <= k2 {
        assert(differ_at(x, z, k1));
    } else {
        assert(differ_at(x, z, k2));
    }
}

/// The number of places at the front in which `a` and `b` agree.
pub open spec fn agreement(a: Seq<u8>, b: Seq<u8>) -> nat
    decreases a.len(),
{
    if a.len() == 0 || b.len() == 0 || a[0] != b[0] {
        0
    } else {
        1 + agreement(a.drop_first(), b.drop_first())
    }
}

/// Two texts agree up to the place that [`agreement`] gives and no further.
proof fn lemma_agreement(a: Seq<u8>, b: Seq<u8>)
    ensures
        agreement(a, b) <= a.len(),
        agreement(a, b) <= b.len(),
        forall|i: int| 0 <= i < agreement(a, b) ==> a[i] == b[i],
        agreement(a, b) < a.len() && agreement(a, b) < b.len() ==> a[agreement(a, b) as int]
            != b[agreement(a, b) as int],
    decreases a.len(),
{
    if !(a.len() == 0 || b.len() == 0 || a[0] != b[0]) {
        let (x, y) = (a.drop_first(), b.drop_first());
        lemma_agreement(x, y);
        assert forall|i: int| 0 <= i < agreement(a, b) implies a[i] == b[i] by {
            if i > 0 {
                assert(a[i] == x[i - 1] && b[i] == y[i - 1]);
            }
        }
        if agreement(a, b) < a.len() && agreement(a, b) < b.len() {
            let k = agreement(x, y) as int;
            assert(a[k + 1] == x[k] && b[k + 1] == y[k]);
        }
    }
}

/// Of two different names one comes before the other.
pub proof fn lemma_precedes_total(a: Seq<char>, b: Seq<char>)
    requires
        a != b,
    ensures
        precedes(a, b) || precedes(b, a),
{
    let (x, y) = (encode_utf8(a), encode_utf8(b));
    encode_utf8_decode_utf8(a);
    encode_utf8_decode_utf8(b);
    lemma_agreement(x, y);
    let k = agreement(x, y) as int;
    if k < y.len() && (k == x.len() || x[k] < y[k]) {
        assert(differ_at(x, y, k));
    } else if k < x.len() {
        assert(differ_at(y, x, k));
    } else {
        assert(x =~= y);
    }
}

/// Of two names at most one comes before the other.
pub proof fn lemma_precedes_one_way(a: Seq<char>, b: Seq<char>)
    requires
        precedes(a, b),
    ensures
        !precedes(b, a),
        a != b,
{
    let k = choose|k: int| #[trigger] differ_at(encode_utf8(a), encode_utf8(b), k);
    lemma_one_way(encode_utf8(a), encode_utf8(b), k);
}

/// Of two names one comes first, or they are the same name.
pub fn compare(a: &str, b: &str) -> (order: Order)
    ensures
        order is Before <==> precedes(a@, b@),
        order is Same <==> a@ == b@,
        order is After <==> precedes(b@, a@),
{
    let x = a.as_bytes();
    let y = b.as_bytes();
    proof {
        encode_utf8_decode_utf8(a@);
        encode_utf8_decode_utf8(b@);
        lemma_precedes_irreflexive(a@);
    }
    let mut k: usize = 0;
    while k < x.len() && k < y.len()
        invariant
            k <= x.len(),
            k <= y.len(),
            x@ == encode_utf8(a@),
            y@ == encode_utf8(b@),
            forall|i: int| 0 <= i < k ==> x@[i] == y@[i],
        decreases x.len() - k,
    {
        if x[k] < y[k] {
            assert(differ_at(x@, y@, k as int));
            proof {
                lemma_one_way(x@, y@, k as int);
            }
            return Order::Before;
        }
        if x[k] > y[k] {
            assert(differ_at(y@, x@, k as int));
            proof {
                lemma_one_way(y@, x@, k as int);
            }
            return Order::After;
        }
        k += 1;
    }
    if k < y.len() {
        assert(differ_at(x@, y@, k as int));
        proof {
            lemma_one_way(x@, y@, k as int);
        }
        Order::Before
    } else if k < x.len() {
        assert(differ_at(y@, x@, k as int));
        proof {
            lemma_one_way(y@, x@, k as int);
        }
        Order::After
    } else {
        assert(x@ =~= y@);
        Order::Same
    }
}

/// Where `a` comes before `b`, the two differ and `b` does not come before
/// `a`.
proof fn lemma_one_way(a: Seq<u8>, b: Seq<u8>, k: int)
    requires
        differ_at(a, b, k),
    ensures
        a != b,
        !bytes_precede(b, a),
{
    if bytes_precede(b, a) {
        let j = choose|j: int| #[trigger] differ_at(b, a, j);
        if j < k {
            assert(a[j] == b[j]);
        } else if k < j {
            assert(b[k] == a[k]);
        }
    }
}

} // verus!
