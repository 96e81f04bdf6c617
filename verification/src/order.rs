//! The order of keys: lexicographic by the bytes of their UTF-8 encoding.

use vstd::prelude::*;
use vstd::utf8::*;

verus! {

/// How one key stands to another in byte order.
#[derive(Clone, Copy, Debug, PartialEq, Eq, Structural)]
pub enum Rank {
    /// The first key comes earlier.
    Before,
    /// The two keys are the same text.
    Same,
    /// The first key comes later.
    After,
}

/// `a` and `b` agree on their first `i` bytes, and at byte `i` either `a` has
/// ended while `b` goes on, or `a` holds the smaller byte.
pub open spec fn precedes_at(a: Seq<u8>, b: Seq<u8>, i: int) -> bool {
    &&& 0 <= i <= a.len()
    &&& i < b.len()
    &&& forall|j: int| 0 <= j < i ==> a[j] == b[j]
    &&& (i == a.len() || a[i] < b[i])
}

/// `a` comes strictly before `b` in lexicographic byte order.
pub open spec fn bytes_precede(a: Seq<u8>, b: Seq<u8>) -> bool {
    exists|i: int| precedes_at(a, b, i)
}

/// The text `a` comes strictly before the text `b`: their UTF-8 encodings
/// compare so, byte by byte.
pub open spec fn precedes(a: Seq<char>, b: Seq<char>) -> bool {
    bytes_precede(encode_utf8(a), encode_utf8(b))
}

/// Each element of `keys` comes strictly before the one after it.
pub open spec fn ascending(keys: Seq<Seq<char>>) -> bool {
    forall|i: int, j: int| 0 <= i < j < keys.len() ==> precedes(#[trigger] keys[i], #[trigger] keys[j])
}

/// No byte sequence comes before itself.
pub proof fn lemma_bytes_irreflexive(a: Seq<u8>)
    ensures
        !bytes_precede(a, a),
{
}

/// Of two byte sequences, at most one comes before the other.
pub proof fn lemma_bytes_asymmetric(a: Seq<u8>, b: Seq<u8>)
    requires
        bytes_precede(a, b),
    ensures
        !bytes_precede(b, a),
{
    let i = choose|i: int| precedes_at(a, b, i);
    if bytes_precede(b, a) {
        let j = choose|j: int| precedes_at(b, a, j);
        if i < j {
            assert(b[i] == a[i]);
        } else if j < i {
            assert(a[j] == b[j]);
        }
    }
}

/// What comes before a byte sequence comes before all that it comes
/// before.
pub proof fn lemma_bytes_transitive(a: Seq<u8>, b: Seq<u8>, c: Seq<u8>)
    requires
        bytes_precede(a, b),
        bytes_precede(b, c),
    ensures
        bytes_precede(a, c),
{
    let i = choose|i: int| precedes_at(a, b, i);
    let j = choose|j: int| precedes_at(b, c, j);
    let k = if i <= j { i } else { j };
    assert forall|n: int| 0 <= n < k implies a[n] == c[n] by {
        assert(a[n] == b[n]);
        assert(b[n] == c[n]);
    }
    if i < j {
        assert(b[i] == c[i]);
    } else if j < i {
        assert(a[j] == b[j]);
    }
    assert(precedes_at(a, c, k));
}

/// Two byte sequences that agree on their first `i` bytes and are not the
/// same stand in order, one way or the other.
proof fn lemma_first_difference(a: Seq<u8>, b: Seq<u8>, i: int)
    requires
        a != b,
        0 <= i <= a.len(),
        i <= b.len(),
        forall|j: int| 0 <= j < i ==> a[j] == b[j],
    ensures
        bytes_precede(a, b) || bytes_precede(b, a),
    decreases a.len() - i,
{
    if i == a.len() && i == b.len() {
        assert(a =~= b);
    } else if i == a.len() {
        assert(precedes_at(a, b, i));
    } else if i == b.len() {
        assert(precedes_at(b, a, i));
    } else if a[i] < b[i] {
        assert(precedes_at(a, b, i));
    } else if b[i] < a[i] {
        assert(precedes_at(b, a, i));
    } else {
        lemma_first_difference(a, b, i + 1);
    }
}

/// Two texts with the same encoding are the same text.
pub proof fn lemma_same_bytes_same_text(a: Seq<char>, b: Seq<char>)
    requires
        encode_utf8(a) == encode_utf8(b),
    ensures
        a == b,
{
    encode_utf8_decode_utf8(a);
    encode_utf8_decode_utf8(b);
}

/// No text comes before itself.
pub proof fn lemma_precedes_irreflexive(a: Seq<char>)
    ensures
        !precedes(a, a),
{
    lemma_bytes_irreflexive(encode_utf8(a));
}

/// Of two texts, at most one comes before the other.
pub proof fn lemma_precedes_asymmetric(a: Seq<char>, b: Seq<char>)
    requires
        precedes(a, b),
    ensures
        !precedes(b, a),
        a != b,
{
    lemma_bytes_asymmetric(encode_utf8(a), encode_utf8(b));
    lemma_bytes_irreflexive(encode_utf8(a));
}

/// The order is transitive.
pub proof fn lemma_precedes_transitive(a: Seq<char>, b: Seq<char>, c: Seq<char>)
    requires
        precedes(a, b),
        precedes(b, c),
    ensures
        precedes(a, c),
{
    lemma_bytes_transitive(encode_utf8(a), encode_utf8(b), encode_utf8(c));
}

/// The order is total: of two different texts one comes before the other.
pub proof fn lemma_precedes_total(a: Seq<char>, b: Seq<char>)
    requires
        a != b,
    ensures
        precedes(a, b) || precedes(b, a),
{
    if encode_utf8(a) == encode_utf8(b) {
        lemma_same_bytes_same_text(a, b);
    } else {
        lemma_first_difference(encode_utf8(a), encode_utf8(b), 0);
    }
}

/// Compares two texts by the bytes of their encodings.
pub fn rank(a: &str, b: &str) -> (r: Rank)
    ensures
        r == Rank::Before <==> precedes(a@, b@),
        r == Rank::Same <==> a@ == b@,
        r == Rank::After <==> precedes(b@, a@),
{
    let x = a.as_bytes();
    let y = b.as_bytes();
    let n = x.len();
    let m = y.len();
    let mut i: usize = 0;
    while i < n && i < m
        invariant
            x@ == encode_utf8(a@),
            y@ == encode_utf8(b@),
            n == x@.len(),
            m == y@.len(),
            i <= n,
            i <= m,
            forall|j: int| 0 <= j < i ==> x@[j] == y@[j],
        decreases n - i,
    {
        if x[i] < y[i] {
            proof {
                assert(precedes_at(x@, y@, i as int));
                lemma_precedes_asymmetric(a@, b@);
            }
            return Rank::Before;
        }
        if y[i] < x[i] {
            proof {
                assert(precedes_at(y@, x@, i as int));
                lemma_precedes_asymmetric(b@, a@);
            }
            return Rank::After;
        }
        i += 1;
    }
    if i < m {
        proof {
            assert(precedes_at(x@, y@, i as int));
            lemma_precedes_asymmetric(a@, b@);
        }
        Rank::Before
    } else if i < n {
        proof {
            assert(precedes_at(y@, x@, i as int));
            lemma_precedes_asymmetric(b@, a@);
        }
        Rank::After
    } else {
        proof {
            assert(x@ =~= y@);
            lemma_same_bytes_same_text(a@, b@);
            lemma_precedes_irreflexive(a@);
        }
        Rank::Same
    }
}

} // verus!
