//! Path arithmetic on canonical paths held as strings.
//!
//! Every path the library keys on has been canonicalised by discovery: absolute, `/`-separated,
//! with no empty, `.` or `..` component and no trailing separator except on a filesystem root.
//! On such paths a component-wise comparison is a character-wise one in which the separator
//! sorts before every other character, and a component-wise prefix is a character-wise prefix
//! that ends at a separator. The functions here are those two readings, proved.

use vstd::prelude::*;

use crate::text::chars_of;

verus! {

/// The separator.
pub open spec fn is_sep(c: char) -> bool {
    c == '/'
}

/// Character order within paths: the separator first, then every other character in
/// code-point order.
pub open spec fn char_before(x: char, y: char) -> bool {
    if is_sep(x) {
        !is_sep(y)
    } else if is_sep(y) {
        false
    } else {
        x < y
    }
}

/// Strict path order: lexicographic by [`char_before`], a proper prefix first.
pub open spec fn path_lt(a: Seq<char>, b: Seq<char>) -> bool
    decreases a.len(),
{
    if a.len() == 0 {
        b.len() > 0
    } else if b.len() == 0 {
        false
    } else if a[0] == b[0] {
        path_lt(a.drop_first(), b.drop_first())
    } else {
        char_before(a[0], b[0])
    }
}

/// No path is before itself.
pub proof fn lemma_path_lt_irreflexive(a: Seq<char>)
    ensures
        !path_lt(a, a),
    decreases a.len(),
{
    if a.len() > 0 {
        lemma_path_lt_irreflexive(a.drop_first());
    }
}

/// Path order is transitive.
pub proof fn lemma_path_lt_transitive(a: Seq<char>, b: Seq<char>, c: Seq<char>)
    requires
        path_lt(a, b),
        path_lt(b, c),
    ensures
        path_lt(a, c),
    decreases a.len(),
{
    if a.len() > 0 && b.len() > 0 && c.len() > 0 {
        if a[0] == b[0] && b[0] == c[0] {
            lemma_path_lt_transitive(a.drop_first(), b.drop_first(), c.drop_first());
        }
    }
}

/// Of two different paths, one is before the other.
pub proof fn lemma_path_lt_total(a: Seq<char>, b: Seq<char>)
    requires
        a != b,
    ensures
        path_lt(a, b) || path_lt(b, a),
    decreases a.len(),
{
    if a.len() > 0 && b.len() > 0 {
        if a[0] == b[0] {
            if a.drop_first() == b.drop_first() {
                assert(a =~= seq![a[0]] + a.drop_first());
                assert(b =~= seq![b[0]] + b.drop_first());
            }
            lemma_path_lt_total(a.drop_first(), b.drop_first());
        }
    } else if a.len() == 0 && b.len() == 0 {
        assert(a =~= b);
    }
}

/// Path order, one character at a time.
pub fn path_less(a: &str, b: &str) -> (less: bool)
    ensures
        less == path_lt(a@, b@),
{
    let ac = chars_of(a);
    let bc = chars_of(b);
    let mut i: usize = 0;
    assert(ac@.skip(0) =~= ac@);
    assert(bc@.skip(0) =~= bc@);
    while i < ac.len() && i < bc.len()
        invariant
            ac@ == a@,
            bc@ == b@,
            i <= ac@.len(),
            i <= bc@.len(),
            path_lt(a@, b@) == path_lt(ac@.skip(i as int), bc@.skip(i as int)),
        decreases ac@.len() - i,
    {
        let x = ac[i];
        let y = bc[i];
        let ghost ta = ac@.skip(i as int);
        let ghost tb = bc@.skip(i as int);
        assert(ta.len() > 0 && tb.len() > 0);
        assert(ta[0] == x);
        assert(tb[0] == y);
        if x != y {
            if x == '/' {
                return true;
            }
            if y == '/' {
                return false;
            }
            return x < y;
        }
        assert(ta.drop_first() =~= ac@.skip(i + 1));
        assert(tb.drop_first() =~= bc@.skip(i + 1));
        i = i + 1;
    }
    i == ac.len() && i < bc.len()
}

/// `root` is a component-wise prefix of `path`: the same path, or one that continues past
/// `root` at a separator.
pub open spec fn path_starts_with(path: Seq<char>, root: Seq<char>) -> bool {
    ||| path == root
    ||| {
        &&& root.len() < path.len()
        &&& path.take(root.len() as int) == root
        &&& (is_sep(path[root.len() as int]) || (root.len() > 0 && is_sep(root.last())))
    }
}

/// Whether `root` is a component-wise prefix of `path`.
pub fn starts_with(path: &str, root: &str) -> (result: bool)
    ensures
        result == path_starts_with(path@, root@),
{
    let p = chars_of(path);
    let r = chars_of(root);
    if r.len() > p.len() {
        assert(p@.len() != r@.len());
        return false;
    }
    let mut i: usize = 0;
    while i < r.len()
        invariant
            p@ == path@,
            r@ == root@,
            r@.len() <= p@.len(),
            i <= r@.len(),
            p@.take(i as int) == r@.take(i as int),
        decreases r@.len() - i,
    {
        if p[i] != r[i] {
            assert(p@.take(r@.len() as int)[i as int] != r@[i as int]);
            assert(p@[i as int] != r@[i as int]);
            assert(p@ != r@);
            return false;
        }
        assert(p@.take(i + 1) =~= p@.take(i as int).push(p@[i as int]));
        assert(r@.take(i + 1) =~= r@.take(i as int).push(r@[i as int]));
        i = i + 1;
    }
    assert(r@.take(r@.len() as int) =~= r@);
    if r.len() == p.len() {
        assert(p@ =~= p@.take(p@.len() as int));
        return true;
    }
    p[r.len()] == '/' || (r.len() > 0 && r[r.len() - 1] == '/')
}

} // verus!
