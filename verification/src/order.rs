//! The order strings sort in: character by character by code point, a
//! prefix before anything that extends it. For UTF-8 strings this is the
//! order of their bytes, which is how `String` compares.

use vstd::prelude::*;
use vstd::relations::total_ordering;
use crate::text::chars_of;

verus! {

/// Whether `a` sorts strictly before `b`.
pub open spec fn chars_lt(a: Seq<char>, b: Seq<char>) -> bool
    decreases a.len(),
{
    if a.len() == 0 {
        b.len() > 0
    } else if b.len() == 0 {
        false
    } else if a[0] != b[0] {
        (a[0] as int) < (b[0] as int)
    } else {
        chars_lt(a.drop_first(), b.drop_first())
    }
}

/// Whether `a` sorts before `b` or is `b`.
pub open spec fn chars_le(a: Seq<char>, b: Seq<char>) -> bool {
    a == b || chars_lt(a, b)
}

/// No string sorts before itself, and of two strings at most one sorts
/// before the other.
pub proof fn lemma_lt_asymmetric(a: Seq<char>, b: Seq<char>)
    ensures
        !(chars_lt(a, b) && chars_lt(b, a)),
        !chars_lt(a, a),
    decreases a.len(),
{
    if a.len() > 0 {
        lemma_lt_asymmetric(a.drop_first(), a.drop_first());
        if b.len() > 0 {
            lemma_lt_asymmetric(a.drop_first(), b.drop_first());
        }
    }
}

/// Sorting before is transitive.
pub proof fn lemma_lt_transitive(a: Seq<char>, b: Seq<char>, c: Seq<char>)
    requires
        chars_lt(a, b),
        chars_lt(b, c),
    ensures
        chars_lt(a, c),
    decreases a.len(),
{
    if a.len() > 0 && b.len() > 0 && c.len() > 0 && a[0] == b[0] && b[0] == c[0] {
        lemma_lt_transitive(a.drop_first(), b.drop_first(), c.drop_first());
    }
}

/// Of two different strings one sorts before the other.
pub proof fn lemma_lt_connected(a: Seq<char>, b: Seq<char>)
    ensures
        a == b || chars_lt(a, b) || chars_lt(b, a),
    decreases a.len(),
{
    if a.len() > 0 && b.len() > 0 {
        if a[0] == b[0] {
            lemma_lt_connected(a.drop_first(), b.drop_first());
            if a.drop_first() == b.drop_first() {
                assert(a == seq![a[0]] + a.drop_first());
                assert(b == seq![b[0]] + b.drop_first());
            }
        } else {
        }
    } else if a.len() == 0 && b.len() == 0 {
        assert(a == b);
    }
}

/// `chars_le` is a total order.
pub proof fn lemma_chars_le_total()
    ensures
        total_ordering(|x: Seq<char>, y: Seq<char>| chars_le(x, y)),
{
    let leq = |x: Seq<char>, y: Seq<char>| chars_le(x, y);
    assert forall|x: Seq<char>| #[trigger] leq(x, x) by {}
    assert forall|x: Seq<char>, y: Seq<char>| #[trigger] leq(x, y) && #[trigger] leq(y, x) implies x == y by {
        lemma_lt_asymmetric(x, y);
    }
    assert forall|x: Seq<char>, y: Seq<char>, z: Seq<char>| #[trigger] leq(x, y) && #[trigger] leq(y, z) implies leq(x, z) by {
        if x != y && y != z {
            lemma_lt_transitive(x, y, z);
        }
    }
    assert forall|x: Seq<char>, y: Seq<char>| #[trigger] leq(x, y) || #[trigger] leq(y, x) by {
        lemma_lt_connected(x, y);
    }
}

proof fn lemma_lt_skip(a: Seq<char>, b: Seq<char>, i: int)
    requires
        0 <= i < a.len(),
        i < b.len(),
        a[i] == b[i],
    ensures
        chars_lt(a.skip(i), b.skip(i)) == chars_lt(a.skip(i + 1), b.skip(i + 1)),
{
    assert(a.skip(i).drop_first() == a.skip(i + 1));
    assert(b.skip(i).drop_first() == b.skip(i + 1));
}

/// Whether `a` sorts strictly before `b`.
pub fn chars_less(a: &Vec<char>, b: &Vec<char>) -> (r: bool)
    ensures
        r == chars_lt(a@, b@),
{
    let mut i: usize = 0;
    assert(a@.skip(0) == a@);
    assert(b@.skip(0) == b@);
    while i < a.len() && i < b.len() && a[i] == b[i]
        invariant
            i <= a.len(),
            i <= b.len(),
            chars_lt(a@, b@) == chars_lt(a@.skip(i as int), b@.skip(i as int)),
        decreases a.len() - i,
    {
        proof { lemma_lt_skip(a@, b@, i as int); }
        i += 1;
    }
    if i == a.len() {
        assert(a@.skip(i as int).len() == 0);
        i < b.len()
    } else if i == b.len() {
        assert(b@.skip(i as int).len() == 0);
        false
    } else {
        assert(a@.skip(i as int)[0] == a@[i as int]);
        assert(b@.skip(i as int)[0] == b@[i as int]);
        a[i] < b[i]
    }
}

/// Whether one string sorts strictly before another.
pub fn str_less(a: &str, b: &str) -> (r: bool)
    ensures
        r == chars_lt(a@, b@),
{
    chars_less(&chars_of(a), &chars_of(b))
}

} // verus!
