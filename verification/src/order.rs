//! Three-way comparisons: of integers, of texts in code-point order (the
//! order of their UTF-8 bytes), of optional values with `None` first, and
//! their lexicographic combination.

use vstd::prelude::*;
use crate::text::chars_of;

verus! {

/// -1, 0 or 1 as `a` is below, equal to or above `b`.
pub open spec fn int_order(a: int, b: int) -> int {
    if a < b {
        -1
    } else if a == b {
        0
    } else {
        1
    }
}

/// `first` unless it is 0, else `rest`: the lexicographic combination.
pub open spec fn lex(first: int, rest: int) -> int {
    if first != 0 {
        first
    } else {
        rest
    }
}

/// Texts compared character by character; a proper prefix comes first.
pub open spec fn text_order(a: Seq<char>, b: Seq<char>) -> int
    decreases a.len(),
{
    if a.len() == 0 {
        if b.len() == 0 {
            0
        } else {
            -1
        }
    } else if b.len() == 0 {
        1
    } else if a[0] != b[0] {
        int_order(a[0] as int, b[0] as int)
    } else {
        text_order(a.drop_first(), b.drop_first())
    }
}

/// Optional texts compared with `None` first.
pub open spec fn opt_text_order(a: Option<Seq<char>>, b: Option<Seq<char>>) -> int {
    match (a, b) {
        (None, None) => 0,
        (None, Some(_)) => -1,
        (Some(_), None) => 1,
        (Some(x), Some(y)) => text_order(x, y),
    }
}

/// Optional integers compared with `None` first.
pub open spec fn opt_int_order(a: Option<i64>, b: Option<i64>) -> int {
    match (a, b) {
        (None, None) => 0,
        (None, Some(_)) => -1,
        (Some(_), None) => 1,
        (Some(x), Some(y)) => int_order(x as int, y as int),
    }
}

/// The laws of a comparison of `a`, `b`, `c` pairwise: `p` of `(a, b)`,
/// `q` of `(b, c)`, `r` of `(a, c)`.
pub open spec fn order_law(p: int, q: int, r: int) -> bool {
    &&& (p < 0 && q < 0 ==> r < 0)
    &&& (p == 0 ==> r == q)
    &&& (q == 0 ==> r == p)
}

/// The lexicographic combination keeps the laws.
pub proof fn lemma_lex_law(p1: int, q1: int, r1: int, p: int, q: int, r: int)
    requires
        order_law(p1, q1, r1),
        order_law(p, q, r),
    ensures
        order_law(lex(p1, p), lex(q1, q), lex(r1, r)),
{
}

/// Text comparison is 0 exactly on equal texts and reverses with its
/// arguments.
pub proof fn lemma_text_order_basic(a: Seq<char>, b: Seq<char>)
    ensures
        (text_order(a, b) == 0) == (a == b),
        text_order(a, b) == -text_order(b, a),
        -1 <= text_order(a, b) <= 1,
    decreases a.len(),
{
    if a.len() > 0 && b.len() > 0 && a[0] == b[0] {
        lemma_text_order_basic(a.drop_first(), b.drop_first());
        if a.drop_first() == b.drop_first() {
            assert(a =~= seq![a[0]] + a.drop_first());
            assert(b =~= seq![b[0]] + b.drop_first());
        }
    } else if a.len() > 0 && b.len() > 0 {
        assert(a != b);
    } else if a.len() == 0 && b.len() == 0 {
        assert(a =~= b);
    }
}

/// Text comparison is transitive.
pub proof fn lemma_text_order_law(a: Seq<char>, b: Seq<char>, c: Seq<char>)
    ensures
        order_law(text_order(a, b), text_order(b, c), text_order(a, c)),
    decreases a.len(),
{
    lemma_text_order_basic(a, b);
    lemma_text_order_basic(b, c);
    lemma_text_order_basic(a, c);
    if a.len() > 0 && b.len() > 0 && c.len() > 0 {
        lemma_text_order_law(a.drop_first(), b.drop_first(), c.drop_first());
    }
}

/// Optional text comparison keeps the laws.
pub proof fn lemma_opt_text_order_law(a: Option<Seq<char>>, b: Option<Seq<char>>, c: Option<Seq<char>>)
    ensures
        order_law(opt_text_order(a, b), opt_text_order(b, c), opt_text_order(a, c)),
        (opt_text_order(a, b) == 0) == (a == b),
{
    if a is Some && b is Some && c is Some {
        lemma_text_order_law(a->0, b->0, c->0);
    }
    if a is Some && b is Some {
        lemma_text_order_basic(a->0, b->0);
    }
    if a is Some && c is Some {
        lemma_text_order_basic(a->0, c->0);
    }
    if b is Some && c is Some {
        lemma_text_order_basic(b->0, c->0);
    }
}

/// Three-way comparison of two texts.
pub fn compare_text(a: &str, b: &str) -> (r: i8)
    ensures
        r == text_order(a@, b@),
{
    let x = chars_of(a);
    let y = chars_of(b);
    let mut i: usize = 0;
    assert(a@.skip(0) =~= a@);
    assert(b@.skip(0) =~= b@);
    while i < x.len() && i < y.len()
        invariant
            x@ == a@,
            y@ == b@,
            i <= x.len(),
            i <= y.len(),
            text_order(a@, b@) == text_order(a@.skip(i as int), b@.skip(i as int)),
        decreases x.len() - i,
    {
        assert(a@.skip(i as int)[0] == x@[i as int]);
        assert(b@.skip(i as int)[0] == y@[i as int]);
        if x[i] != y[i] {
            return if x[i] < y[i] {
                -1
            } else {
                1
            };
        }
        assert(a@.skip(i as int).drop_first() =~= a@.skip(i + 1));
        assert(b@.skip(i as int).drop_first() =~= b@.skip(i + 1));
        i = i + 1;
    }
    if i < x.len() {
        1
    } else if i < y.len() {
        -1
    } else {
        0
    }
}

/// Three-way comparison of two optional texts, `None` first.
pub fn compare_opt_text(a: &Option<String>, b: &Option<String>) -> (r: i8)
    ensures
        r == opt_text_order(
            match a {
                Some(s) => Some(s@),
                None => None,
            },
            match b {
                Some(s) => Some(s@),
                None => None,
            },
        ),
{
    match (a, b) {
        (None, None) => 0,
        (None, Some(_)) => -1,
        (Some(_), None) => 1,
        (Some(x), Some(y)) => compare_text(x.as_str(), y.as_str()),
    }
}

/// Three-way comparison of two integers.
pub fn compare_int(a: i64, b: i64) -> (r: i8)
    ensures
        r == int_order(a as int, b as int),
{
    if a < b {
        -1
    } else if a == b {
        0
    } else {
        1
    }
}

/// Three-way comparison of two optional integers, `None` first.
pub fn compare_opt_int(a: Option<i64>, b: Option<i64>) -> (r: i8)
    ensures
        r == opt_int_order(a, b),
{
    match (a, b) {
        (None, None) => 0,
        (None, Some(_)) => -1,
        (Some(_), None) => 1,
        (Some(x), Some(y)) => compare_int(x, y),
    }
}

/// `v` is strictly increasing in text order.
pub open spec fn strictly_sorted(v: Seq<Seq<char>>) -> bool {
    forall|i: int, j: int| 0 <= i < j < v.len() ==> text_order(v[i], v[j]) < 0
}

/// The views of a list of strings.
pub open spec fn string_views(v: Seq<String>) -> Seq<Seq<char>> {
    v.map_values(|s: String| s@)
}

/// Adds `s` to a strictly sorted list of distinct texts, unless present.
pub fn insert_sorted_unique(v: &mut Vec<String>, s: String)
    requires
        strictly_sorted(string_views(old(v)@)),
    ensures
        strictly_sorted(string_views(final(v)@)),
        string_views(final(v)@).to_set() == string_views(old(v)@).to_set().insert(s@),
{
    let ghost old_views = string_views(v@);
    let mut i: usize = 0;
    while i < v.len()
        invariant
            string_views(v@) == old_views,
            strictly_sorted(old_views),
            i <= v.len(),
            forall|k: int| 0 <= k < i ==> text_order(old_views[k], s@) < 0,
        ensures
            string_views(v@) == old_views,
            i <= v.len(),
            forall|k: int| 0 <= k < i ==> text_order(old_views[k], s@) < 0,
            i < v.len() ==> text_order(old_views[i as int], s@) > 0,
        decreases v.len() - i,
    {
        let c = compare_text(v[i].as_str(), s.as_str());
        if c == 0 {
            proof {
                lemma_text_order_basic(v@[i as int]@, s@);
                assert(old_views.to_set().insert(s@) =~= old_views.to_set()) by {
                    assert(old_views[i as int] == s@);
                }
            }
            return;
        }
        if c > 0 {
            break;
        }
        i = i + 1;
    }
    proof {
        assert forall|k: int| i <= k < old_views.len() implies text_order(s@, old_views[k]) < 0 by {
            lemma_text_order_basic(old_views[i as int], s@);
            lemma_text_order_basic(s@, old_views[i as int]);
            if k > i {
                lemma_text_order_law(s@, old_views[i as int], old_views[k]);
            }
        }
    }
    v.insert(i, s);
    proof {
        let nv = string_views(v@);
        assert(nv =~= old_views.insert(i as int, s@));
        assert(nv.to_set() =~= old_views.to_set().insert(s@)) by {
            assert forall|x: Seq<char>| nv.to_set().contains(x) <==> old_views.to_set().insert(s@).contains(
                x,
            ) by {
                if nv.contains(x) {
                    let k = choose|k: int| 0 <= k < nv.len() && nv[k] == x;
                    if k < i {
                        assert(old_views[k] == x);
                    } else if k > i {
                        assert(old_views[k - 1] == x);
                    }
                }
                if old_views.contains(x) {
                    let k = choose|k: int| 0 <= k < old_views.len() && old_views[k] == x;
                    if k < i {
                        assert(nv[k] == x);
                    } else {
                        assert(nv[k + 1] == x);
                    }
                }
                if x == s@ {
                    assert(nv[i as int] == x);
                }
            }
        }
        assert forall|a: int, b: int| 0 <= a < b < nv.len() implies text_order(nv[a], nv[b]) < 0 by {
            if a < i && b == i {
            } else if a == i && b > i {
            } else if a < i && b > i {
                assert(nv[b] == old_views[b - 1]);
            } else if a > i {
                assert(nv[a] == old_views[a - 1]);
                assert(nv[b] == old_views[b - 1]);
            }
        }
    }
}

} // verus!
