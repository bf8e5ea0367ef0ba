//! The order of names: code point by code point, a proper prefix first.
//! This is the order of Rust's `String` comparison (UTF-8 keeps the code
//! point order).

use crate::text::chars_of;
use vstd::prelude::*;

verus! {

/// `a` comes strictly before `b`.
pub open spec fn text_less(a: Seq<char>, b: Seq<char>) -> bool
    decreases a.len(),
{
    if b.len() == 0 {
        false
    } else if a.len() == 0 {
        true
    } else if a[0] != b[0] {
        (a[0] as int) < (b[0] as int)
    } else {
        text_less(a.drop_first(), b.drop_first())
    }
}

/// No name comes before itself.
pub proof fn lemma_text_less_irreflexive(a: Seq<char>)
    ensures
        !text_less(a, a),
    decreases a.len(),
{
    if a.len() > 0 {
        lemma_text_less_irreflexive(a.drop_first());
    }
}

/// Of two different names, exactly one comes first.
pub proof fn lemma_text_less_total(a: Seq<char>, b: Seq<char>)
    ensures
        a == b || text_less(a, b) || text_less(b, a),
        !(text_less(a, b) && text_less(b, a)),
    decreases a.len(),
{
    if a.len() > 0 && b.len() > 0 && a[0] == b[0] {
        lemma_text_less_total(a.drop_first(), b.drop_first());
        if a.drop_first() == b.drop_first() {
            assert(a =~= seq![a[0]] + a.drop_first());
            assert(b =~= seq![b[0]] + b.drop_first());
        }
    } else if a.len() == 0 && b.len() == 0 {
        assert(a =~= b);
    }
}

/// The order is transitive.
pub proof fn lemma_text_less_transitive(a: Seq<char>, b: Seq<char>, c: Seq<char>)
    requires
        text_less(a, b),
        text_less(b, c),
    ensures
        text_less(a, c),
    decreases a.len(),
{
    if a.len() > 0 && a[0] == b[0] && b[0] == c[0] {
        lemma_text_less_transitive(a.drop_first(), b.drop_first(), c.drop_first());
    }
}

/// Names that agree on their first `i` characters compare as their rests do.
proof fn lemma_text_less_skip(a: Seq<char>, b: Seq<char>, i: int)
    requires
        0 <= i <= a.len(),
        i <= b.len(),
        forall|k: int| 0 <= k < i ==> a[k] == b[k],
    ensures
        text_less(a, b) == text_less(a.skip(i), b.skip(i)),
    decreases i,
{
    if i == 0 {
        assert(a.skip(0) =~= a);
        assert(b.skip(0) =~= b);
    } else {
        lemma_text_less_skip(a.drop_first(), b.drop_first(), i - 1);
        assert(a.drop_first().skip(i - 1) =~= a.skip(i));
        assert(b.drop_first().skip(i - 1) =~= b.skip(i));
    }
}

/// Names are ordered code point by code point: where two names first
/// differ, at position `i`, the one with the smaller code point there comes
/// first; where one is a proper prefix of the other, it comes first.
pub proof fn law_text_order(a: Seq<char>, b: Seq<char>, i: int)
    requires
        0 <= i <= a.len(),
        i <= b.len(),
        forall|k: int| 0 <= k < i ==> a[k] == b[k],
    ensures
        i < a.len() && i < b.len() && (a[i] as int) < (b[i] as int) ==> text_less(a, b),
        i < a.len() && i < b.len() && (a[i] as int) < (b[i] as int) ==> !text_less(b, a),
        i == a.len() && i < b.len() ==> text_less(a, b) && !text_less(b, a),
        i == a.len() && i == b.len() ==> !text_less(a, b),
{
    lemma_text_less_skip(a, b, i);
    lemma_text_less_skip(b, a, i);
    if i == a.len() && i == b.len() {
        assert(a.skip(i).len() == 0);
    }
}

/// How two names compare.
#[derive(Clone, Copy, Debug, PartialEq, Eq, Structural)]
pub enum TextOrder {
    Less,
    Equal,
    Greater,
}

/// Compares two names.
pub fn compare_text(a: &str, b: &str) -> (r: TextOrder)
    ensures
        match r {
            TextOrder::Less => text_less(a@, b@),
            TextOrder::Equal => a@ == b@,
            TextOrder::Greater => text_less(b@, a@),
        },
{
    let x = chars_of(a);
    let y = chars_of(b);
    let mut i: usize = 0;
    while i < x.len() && i < y.len()
        invariant
            x@ == a@,
            y@ == b@,
            i <= x.len(),
            i <= y.len(),
            forall|k: int| 0 <= k < i ==> x@[k] == y@[k],
        decreases x.len() - i,
    {
        if x[i] != y[i] {
            proof {
                lemma_text_less_skip(a@, b@, i as int);
                lemma_text_less_skip(b@, a@, i as int);
                assert(a@.skip(i as int)[0] == x@[i as int]);
                assert(b@.skip(i as int)[0] == y@[i as int]);
                assert(a@.skip(i as int).len() > 0 && b@.skip(i as int).len() > 0);
                assert(text_less(a@.skip(i as int), b@.skip(i as int)) == ((x@[i as int] as int)
                    < (y@[i as int] as int)));
                assert(text_less(b@.skip(i as int), a@.skip(i as int)) == ((y@[i as int] as int)
                    < (x@[i as int] as int)));
            }
            if x[i] < y[i] {
                return TextOrder::Less;
            } else {
                return TextOrder::Greater;
            }
        }
        i += 1;
    }
    proof {
        lemma_text_less_skip(a@, b@, i as int);
        lemma_text_less_skip(b@, a@, i as int);
    }
    if x.len() == y.len() {
        assert(x@ =~= y@);
        TextOrder::Equal
    } else if x.len() < y.len() {
        TextOrder::Less
    } else {
        TextOrder::Greater
    }
}

} // verus!
