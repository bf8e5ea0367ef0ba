//! Small character-level helpers shared by the parsers of this crate.

use vstd::prelude::*;

verus! {

/// `c` occurs nowhere in `s`.
pub open spec fn lacks(s: Seq<char>, c: char) -> bool {
    forall|i: int| 0 <= i < s.len() ==> s[i] != c
}

/// `r` is where `c` first stands in `s` at or after `from`, or `None` when
/// it stands nowhere there.
pub open spec fn first_at_or_after(s: Seq<char>, from: int, c: char, r: Option<int>) -> bool {
    match r {
        Some(i) => from <= i < s.len() && s[i] == c && lacks(s.subrange(from, i), c),
        None => lacks(s.subrange(from, s.len() as int), c),
    }
}

/// An optional position, as a mathematical integer.
pub open spec fn opt_index(r: Option<usize>) -> Option<int> {
    match r {
        Some(i) => Some(i as int),
        None => None,
    }
}

/// The characters of `s`, in order, as a vector.
pub fn chars_of(s: &str) -> (cs: Vec<char>)
    ensures
        cs@ == s@,
{
    let mut cs: Vec<char> = Vec::new();
    for c in it: s.chars()
        invariant
            cs@ == it.seq().take(it.index() as int),
    {
        cs.push(c);
    }
    cs
}

/// Whether `a` and `b` hold the same characters.
pub fn text_eq(a: &str, b: &str) -> (r: bool)
    ensures
        r == (a@ == b@),
{
    let x = chars_of(a);
    let y = chars_of(b);
    if x.len() != y.len() {
        return false;
    }
    let mut i: usize = 0;
    while i < x.len()
        invariant
            x@ == a@,
            y@ == b@,
            x.len() == y.len(),
            i <= x.len(),
            forall|k: int| 0 <= k < i ==> x@[k] == y@[k],
        decreases x.len() - i,
    {
        if x[i] != y[i] {
            assert(x@[i as int] != y@[i as int]);
            return false;
        }
        i += 1;
    }
    assert(x@ =~= y@);
    true
}

/// The first position at or after `from` where `c` stands in `cs`.
pub fn find_char(cs: &Vec<char>, from: usize, c: char) -> (r: Option<usize>)
    requires
        from <= cs.len(),
    ensures
        first_at_or_after(
            cs@,
            from as int,
            c,
            opt_index(r),
        ),
{
    let mut i = from;
    while i < cs.len()
        invariant
            from <= i <= cs.len(),
            lacks(cs@.subrange(from as int, i as int), c),
        decreases cs.len() - i,
    {
        if cs[i] == c {
            return Some(i);
        }
        i += 1;
    }
    None
}

/// Splitting at the first occurrence of a separator is unambiguous: if
/// `s == x + [c] + y` and `x` does not hold `c`, then `x` is everything
/// before the first `c` in `s` and `y` everything after it.
pub proof fn lemma_split_at_first(s: Seq<char>, c: char, x: Seq<char>, y: Seq<char>, i: int)
    requires
        s == x + seq![c] + y,
        lacks(x, c),
        0 <= i < s.len(),
        s[i] == c,
        lacks(s.subrange(0, i), c),
    ensures
        i == x.len(),
        x == s.subrange(0, i),
        y == s.subrange(i + 1, s.len() as int),
{
    if i < x.len() {
        assert(s[i] == x[i]);
    } else if i > x.len() {
        assert(s.subrange(0, i)[x.len() as int] == c);
    }
    assert(x =~= s.subrange(0, i));
    assert(y =~= s.subrange(i + 1, s.len() as int));
}

/// Every sequence has a first occurrence of `c` at or after `from`, or none.
pub proof fn lemma_first_occurrence(s: Seq<char>, from: int, c: char) -> (r: Option<int>)
    requires
        0 <= from <= s.len(),
    ensures
        first_at_or_after(s, from, c, r),
    decreases s.len() - from,
{
    if from == s.len() {
        assert(s.subrange(from, from) =~= Seq::<char>::empty());
        None
    } else if s[from] == c {
        assert(s.subrange(from, from) =~= Seq::<char>::empty());
        Some(from)
    } else {
        let r = lemma_first_occurrence(s, from + 1, c);
        match r {
            Some(i) => {
                assert forall|k: int| 0 <= k < i - from implies #[trigger] s.subrange(from, i)[k]
                    != c by {
                    if k > 0 {
                        assert(s.subrange(from, i)[k] == s.subrange(from + 1, i)[k - 1]);
                    }
                }
            },
            None => {
                assert forall|k: int| 0 <= k < s.len() - from implies #[trigger] s.subrange(
                    from,
                    s.len() as int,
                )[k] != c by {
                    if k > 0 {
                        assert(s.subrange(from, s.len() as int)[k] == s.subrange(
                            from + 1,
                            s.len() as int,
                        )[k - 1]);
                    }
                }
            },
        }
        r
    }
}

/// A sequence of the form `x + [c] + y` holds `c`.
pub proof fn lemma_holds_separator(s: Seq<char>, c: char, x: Seq<char>, y: Seq<char>, from: int)
    requires
        s == x + seq![c] + y,
        0 <= from <= x.len(),
    ensures
        !lacks(s.subrange(from, s.len() as int), c),
{
    assert(s.subrange(from, s.len() as int)[x.len() - from] == c);
}

} // verus!
