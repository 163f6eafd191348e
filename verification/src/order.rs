//! The order of denominations.

use vstd::prelude::*;
use vstd::utf8::*;

verus! {

/// `a` and `b` agree on their first `k` bytes, and there `a` ends while `b`
/// goes on, or `a` has the smaller byte.
pub open spec fn parts_at(a: Seq<u8>, b: Seq<u8>, k: int) -> bool {
    &&& 0 <= k <= a.len()
    &&& k < b.len()
    &&& forall|j: int| 0 <= j < k ==> a[j] == b[j]
    &&& (k == a.len() || a[k] < b[k])
}

/// Strict lexicographic order on byte strings.
pub open spec fn bytes_before(a: Seq<u8>, b: Seq<u8>) -> bool {
    exists|k: int| parts_at(a, b, k)
}

/// The order in which denominations are listed: lexicographic by the bytes of
/// their UTF-8 text, as `str` is ordered.
pub open spec fn denom_before(a: Seq<char>, b: Seq<char>) -> bool {
    bytes_before(encode_utf8(a), encode_utf8(b))
}

/// Where one denomination stands relative to another.
#[derive(Clone, Copy, Debug, PartialEq, Eq, Structural)]
pub enum Place {
    Before,
    Same,
    After,
}

/// Two byte strings part at one place at most.
pub proof fn lemma_parts_once(a: Seq<u8>, b: Seq<u8>, k: int, m: int)
    requires
        parts_at(a, b, k),
        parts_at(a, b, m) || parts_at(b, a, m),
    ensures
        k == m,
        !parts_at(b, a, m),
{
}

/// No denomination comes before itself, and of two at most one comes first.
pub proof fn lemma_before_asymmetric(a: Seq<char>, b: Seq<char>)
    ensures
        !(denom_before(a, b) && denom_before(b, a)),
        !denom_before(a, a),
{
    let x = encode_utf8(a);
    let y = encode_utf8(b);
    if bytes_before(x, y) && bytes_before(y, x) {
        let k = choose|k: int| parts_at(x, y, k);
        let m = choose|m: int| parts_at(y, x, m);
        lemma_parts_once(x, y, k, m);
    }
    if bytes_before(x, x) {
        let k = choose|k: int| parts_at(x, x, k);
        lemma_parts_once(x, x, k, k);
    }
}

/// The order is transitive.
pub proof fn lemma_before_transitive(a: Seq<char>, b: Seq<char>, c: Seq<char>)
    requires
        denom_before(a, b),
        denom_before(b, c),
    ensures
        denom_before(a, c),
{
    let x = encode_utf8(a);
    let y = encode_utf8(b);
    let z = encode_utf8(c);
    let k = choose|k: int| parts_at(x, y, k);
    let m = choose|m: int| parts_at(y, z, m);
    let n = if k <= m { k } else { m };
    assert(parts_at(x, z, n));
}

/// Texts with the same UTF-8 bytes are the same text.
pub proof fn lemma_same_bytes_same_text(a: Seq<char>, b: Seq<char>)
    requires
        encode_utf8(a) == encode_utf8(b),
    ensures
        a == b,
{
    encode_utf8_decode_utf8(a);
    encode_utf8_decode_utf8(b);
}

/// Finds where `a` stands relative to `b`, in one pass over their bytes.
pub fn place(a: &str, b: &str) -> (at: Place)
    ensures
        at == Place::Before <==> denom_before(a@, b@),
        at == Place::Same <==> a@ == b@,
        at == Place::After <==> denom_before(b@, a@),
{
    let x = a.as_bytes();
    let y = b.as_bytes();
    let mut k: usize = 0;
    while k < x.len() && k < y.len() && x[k] == y[k]
        invariant
            k <= x.len(),
            k <= y.len(),
            forall|j: int| 0 <= j < k ==> x@[j] == y@[j],
        decreases x.len() - k,
    {
        k += 1;
    }
    proof {
        lemma_before_asymmetric(a@, b@);
        lemma_before_asymmetric(b@, a@);
    }
    if k == x.len() && k == y.len() {
        proof {
            assert(x@ =~= y@);
            lemma_same_bytes_same_text(a@, b@);
        }
        Place::Same
    } else if k == x.len() || (k < y.len() && x[k] < y[k]) {
        assert(parts_at(x@, y@, k as int));
        Place::Before
    } else {
        assert(parts_at(y@, x@, k as int));
        Place::After
    }
}

} // verus!
