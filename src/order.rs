//! Lexicographic order on character sequences (by code point, which is also
//! the byte order of their UTF-8 encodings).
use vstd::prelude::*;

verus! {

/// `a` comes no later than `b`, looking from position `i` on.
pub open spec fn chars_le_from(a: Seq<char>, b: Seq<char>, i: int) -> bool
    decreases a.len() - i,
{
    if i >= a.len() {
        true
    } else if i >= b.len() {
        false
    } else if a[i] != b[i] {
        (a[i] as int) < (b[i] as int)
    } else {
        chars_le_from(a, b, i + 1)
    }
}

/// `a` comes no later than `b` in lexicographic order.
pub open spec fn chars_le(a: Seq<char>, b: Seq<char>) -> bool {
    chars_le_from(a, b, 0)
}

/// Two sequences each no later than the other from `i` on agree from `i`
/// on.
pub proof fn lemma_chars_le_from_antisymmetric(a: Seq<char>, b: Seq<char>, i: int)
    requires
        0 <= i <= a.len(),
        i <= b.len(),
        chars_le_from(a, b, i),
        chars_le_from(b, a, i),
    ensures
        a.len() == b.len(),
        forall|k: int| i <= k < a.len() ==> a[k] == b[k],
    decreases a.len() - i,
{
    if i < a.len() && i < b.len() {
        if a[i] == b[i] {
            lemma_chars_le_from_antisymmetric(a, b, i + 1);
        } else {
            assert((a[i] as int) != (b[i] as int));
        }
    }
}

/// The order from `i` on is transitive.
pub proof fn lemma_chars_le_from_transitive(a: Seq<char>, b: Seq<char>, c: Seq<char>, i: int)
    requires
        0 <= i,
        chars_le_from(a, b, i),
        chars_le_from(b, c, i),
    ensures
        chars_le_from(a, c, i),
    decreases a.len() - i,
{
    if i < a.len() && i < b.len() && i < c.len() {
        if a[i] == b[i] && b[i] == c[i] {
            lemma_chars_le_from_transitive(a, b, c, i + 1);
        }
    }
}

/// Any two sequences are ordered one way or the other from `i` on.
pub proof fn lemma_chars_le_from_total(a: Seq<char>, b: Seq<char>, i: int)
    requires
        0 <= i,
    ensures
        chars_le_from(a, b, i) || chars_le_from(b, a, i),
    decreases a.len() - i,
{
    if i < a.len() && i < b.len() {
        if a[i] == b[i] {
            lemma_chars_le_from_total(a, b, i + 1);
        } else {
            assert((a[i] as int) != (b[i] as int));
        }
    }
}

/// A sequence comes no later than itself.
pub proof fn lemma_chars_le_reflexive(a: Seq<char>, i: int)
    requires
        0 <= i,
    ensures
        chars_le_from(a, a, i),
    decreases a.len() - i,
{
    if i < a.len() {
        lemma_chars_le_reflexive(a, i + 1);
    }
}

/// `chars_le` is a total order on character sequences.
pub proof fn lemma_chars_le_total_order()
    ensures
        forall|a: Seq<char>| #[trigger] chars_le(a, a),
        forall|a: Seq<char>, b: Seq<char>|
            #[trigger] chars_le(a, b) && #[trigger] chars_le(b, a) ==> a == b,
        forall|a: Seq<char>, b: Seq<char>, c: Seq<char>|
            #[trigger] chars_le(a, b) && #[trigger] chars_le(b, c) ==> chars_le(a, c),
        forall|a: Seq<char>, b: Seq<char>| #[trigger] chars_le(a, b) || #[trigger] chars_le(b, a),
{
    assert forall|a: Seq<char>| #[trigger] chars_le(a, a) by {
        lemma_chars_le_reflexive(a, 0);
    }
    assert forall|a: Seq<char>, b: Seq<char>|
        #[trigger] chars_le(a, b) && #[trigger] chars_le(b, a) implies a == b by {
        lemma_chars_le_from_antisymmetric(a, b, 0);
        assert(a =~= b);
    }
    assert forall|a: Seq<char>, b: Seq<char>, c: Seq<char>|
        #[trigger] chars_le(a, b) && #[trigger] chars_le(b, c) implies chars_le(a, c) by {
        lemma_chars_le_from_transitive(a, b, c, 0);
    }
    assert forall|a: Seq<char>, b: Seq<char>| #[trigger] chars_le(a, b) || #[trigger] chars_le(
        b,
        a,
    ) by {
        lemma_chars_le_from_total(a, b, 0);
    }
}

/// Whether `a` comes no later than `b` in lexicographic order.
pub fn str_le(a: &str, b: &str) -> (r: bool)
    ensures
        r == chars_le(a@, b@),
{
    let a_len = a.unicode_len();
    let b_len = b.unicode_len();
    let mut i: usize = 0;
    while i < a_len
        invariant
            a_len == a@.len(),
            b_len == b@.len(),
            i <= a_len,
            chars_le(a@, b@) == chars_le_from(a@, b@, i as int),
        decreases a_len - i,
    {
        if i >= b_len {
            return false;
        }
        let ca = a.get_char(i);
        let cb = b.get_char(i);
        if ca != cb {
            return (ca as u32) < (cb as u32);
        }
        i = i + 1;
    }
    true
}

} // verus!
