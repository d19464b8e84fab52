//! The order in which addresses are listed.
//!
//! Addresses are listed in ascending order of their UTF-8 bytes, which is the
//! order of the strings themselves.

use vstd::prelude::*;
use vstd::string::*;
use vstd::utf8::*;

verus! {

/// `a` and `b` agree on their first `i` bytes, and at byte `i` either `a`
/// ends while `b` goes on, or `a` holds the smaller byte.
pub open spec fn parts_at(a: Seq<u8>, b: Seq<u8>, i: int) -> bool {
    &&& 0 <= i <= a.len()
    &&& i < b.len()
    &&& forall|j: int| 0 <= j < i ==> a[j] == b[j]
    &&& i < a.len() ==> a[i] < b[i]
}

/// Strict lexicographic order of byte strings.
pub open spec fn bytes_before(a: Seq<u8>, b: Seq<u8>) -> bool {
    exists|i: int| parts_at(a, b, i)
}

/// Strict order of addresses: that of their UTF-8 encodings.
pub open spec fn address_before(a: Seq<char>, b: Seq<char>) -> bool {
    bytes_before(encode_utf8(a), encode_utf8(b))
}

/// The order of byte strings is transitive.
pub proof fn lemma_bytes_before_transitive(a: Seq<u8>, b: Seq<u8>, c: Seq<u8>)
    requires
        bytes_before(a, b),
        bytes_before(b, c),
    ensures
        bytes_before(a, c),
{
    let i: int = choose|i: int| parts_at(a, b, i);
    let j: int = choose|j: int| parts_at(b, c, j);
    let k: int = if i <= j {
        i
    } else {
        j
    };
    assert(parts_at(a, c, k));
}

/// Two byte strings that agree on their first `k` bytes are equal or one
/// comes before the other.
proof fn lemma_bytes_connected_from(a: Seq<u8>, b: Seq<u8>, k: int)
    requires
        0 <= k <= a.len(),
        k <= b.len(),
        forall|j: int| 0 <= j < k ==> a[j] == b[j],
    ensures
        a == b || bytes_before(a, b) || bytes_before(b, a),
    decreases a.len() - k,
{
    if k == a.len() {
        if k == b.len() {
            assert(a =~= b);
        } else {
            assert(parts_at(a, b, k));
        }
    } else if k == b.len() {
        assert(parts_at(b, a, k));
    } else if a[k] < b[k] {
        assert(parts_at(a, b, k));
    } else if b[k] < a[k] {
        assert(parts_at(b, a, k));
    } else {
        lemma_bytes_connected_from(a, b, k + 1);
    }
}

/// No address comes before itself, and of two addresses at most one comes
/// before the other.
pub proof fn lemma_address_before_asymmetric(a: Seq<char>, b: Seq<char>)
    ensures
        !address_before(a, a),
        !(address_before(a, b) && address_before(b, a)),
{
    if address_before(a, b) && address_before(b, a) {
        lemma_bytes_before_transitive(encode_utf8(a), encode_utf8(b), encode_utf8(a));
    }
}

/// The order of addresses is transitive.
pub proof fn lemma_address_before_transitive(a: Seq<char>, b: Seq<char>, c: Seq<char>)
    requires
        address_before(a, b),
        address_before(b, c),
    ensures
        address_before(a, c),
{
    lemma_bytes_before_transitive(encode_utf8(a), encode_utf8(b), encode_utf8(c));
}

/// Of two different addresses one comes before the other.
pub proof fn lemma_address_before_connected(a: Seq<char>, b: Seq<char>)
    ensures
        a == b || address_before(a, b) || address_before(b, a),
{
    lemma_bytes_connected_from(encode_utf8(a), encode_utf8(b), 0);
    if encode_utf8(a) == encode_utf8(b) {
        encode_utf8_decode_utf8(a);
        encode_utf8_decode_utf8(b);
    }
}

/// Whether `a` comes before `b` in the order of byte strings.
pub fn precedes_bytes(a: &[u8], b: &[u8]) -> (before: bool)
    ensures
        before == bytes_before(a@, b@),
{
    let mut i: usize = 0;
    while i < a.len() && i < b.len()
        invariant
            0 <= i <= a@.len(),
            i <= b@.len(),
            forall|j: int| 0 <= j < i ==> a@[j] == b@[j],
        decreases a@.len() - i,
    {
        if a[i] != b[i] {
            let smaller: bool = a[i] < b[i];
            proof {
                if smaller {
                    assert(parts_at(a@, b@, i as int));
                } else {
                    assert forall|w: int| !parts_at(a@, b@, w) by {
                        if parts_at(a@, b@, w) {
                            if w > i {
                                assert(a@[i as int] == b@[i as int]);
                            }
                        }
                    }
                }
            }
            return smaller;
        }
        i += 1;
    }
    let shorter: bool = a.len() < b.len();
    proof {
        if shorter {
            assert(parts_at(a@, b@, i as int));
        } else {
            assert forall|w: int| !parts_at(a@, b@, w) by {}
        }
    }
    shorter
}

/// Whether address `a` is listed before address `b`.
pub fn precedes(a: &str, b: &str) -> (before: bool)
    ensures
        before == address_before(a@, b@),
{
    precedes_bytes(a.as_bytes(), b.as_bytes())
}

} // verus!
