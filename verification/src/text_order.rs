//! Texts in order, and sorted lists of texts without repetition.

use crate::text::{chars_of, texts};
use vstd::prelude::*;

verus! {

/// Whether a text stands before another in the order of their characters.
pub open spec fn text_lt(a: Seq<char>, b: Seq<char>) -> bool
    decreases a.len(),
{
    if b.len() == 0 {
        false
    } else if a.len() == 0 {
        true
    } else if a[0] != b[0] {
        a[0] < b[0]
    } else {
        text_lt(a.drop_first(), b.drop_first())
    }
}

pub proof fn lemma_text_lt_irreflexive(a: Seq<char>)
    ensures
        !text_lt(a, a),
    decreases a.len(),
{
    if a.len() > 0 {
        lemma_text_lt_irreflexive(a.drop_first());
    }
}

pub proof fn lemma_text_lt_transitive(a: Seq<char>, b: Seq<char>, c: Seq<char>)
    requires
        text_lt(a, b),
        text_lt(b, c),
    ensures
        text_lt(a, c),
    decreases a.len(),
{
    if a.len() > 0 && a[0] == b[0] && b[0] == c[0] {
        lemma_text_lt_transitive(a.drop_first(), b.drop_first(), c.drop_first());
    }
}

pub proof fn lemma_text_lt_total(a: Seq<char>, b: Seq<char>)
    ensures
        a == b || text_lt(a, b) || text_lt(b, a),
    decreases a.len(),
{
    if a.len() > 0 && b.len() > 0 && a[0] == b[0] {
        lemma_text_lt_total(a.drop_first(), b.drop_first());
        if a.drop_first() == b.drop_first() {
            assert(a =~= seq![a[0]] + a.drop_first());
            assert(b =~= seq![b[0]] + b.drop_first());
        }
    } else if a.len() == 0 && b.len() == 0 {
        assert(a =~= b);
    }
}

/// Whether a text stands before another (`<` on strings).
pub fn str_lt(a: &str, b: &str) -> (r: bool)
    ensures
        r == text_lt(a@, b@),
{
    let x = chars_of(a);
    let y = chars_of(b);
    let mut i: usize = 0;
    proof {
        assert(x@.skip(0) =~= x@);
        assert(y@.skip(0) =~= y@);
    }
    while i < x.len() && i < y.len()
        invariant
            i <= x@.len(),
            i <= y@.len(),
            x@ == a@,
            y@ == b@,
            text_lt(a@, b@) == text_lt(x@.skip(i as int), y@.skip(i as int)),
        decreases x.len() - i,
    {
        if x[i] != y[i] {
            return x[i] < y[i];
        }
        proof {
            assert(x@.skip(i as int).drop_first() =~= x@.skip(i + 1));
            assert(y@.skip(i as int).drop_first() =~= y@.skip(i + 1));
        }
        i += 1;
    }
    i < y.len()
}

/// Whether a list is in order and holds no text twice.
pub open spec fn strictly_sorted(s: Seq<Seq<char>>) -> bool {
    forall|i: int, j: int| 0 <= i < j < s.len() ==> text_lt(#[trigger] s[i], #[trigger] s[j])
}

/// A sorted list with a text put in its place.
pub open spec fn with_sorted(s: Seq<Seq<char>>, x: Seq<char>) -> Seq<Seq<char>>
    decreases s.len(),
{
    if s.len() == 0 {
        seq![x]
    } else if s.last() == x {
        s
    } else if text_lt(s.last(), x) {
        s.push(x)
    } else {
        with_sorted(s.drop_last(), x).push(s.last())
    }
}

pub proof fn lemma_with_sorted(s: Seq<Seq<char>>, x: Seq<char>)
    requires
        strictly_sorted(s),
    ensures
        strictly_sorted(with_sorted(s, x)),
        forall|y: Seq<char>|
            #[trigger] with_sorted(s, x).contains(y) <==> (s.contains(y) || y == x),
    decreases s.len(),
{
    let t = with_sorted(s, x);
    if s.len() == 0 {
        assert(t[0] == x);
        assert forall|y: Seq<char>| t.contains(y) <==> s.contains(y) || y == x by {
            if y == x {
                assert(t[0] == y);
            }
        }
    } else if s.last() == x {
        assert(s.contains(x)) by {
            assert(s[s.len() - 1] == x);
        }
    } else if text_lt(s.last(), x) {
        assert forall|i: int, j: int| 0 <= i < j < t.len() implies text_lt(
            #[trigger] t[i],
            #[trigger] t[j],
        ) by {
            if j == s.len() {
                if i < s.len() - 1 {
                    assert(text_lt(s[i], s[s.len() - 1]));
                    lemma_text_lt_transitive(s[i], s.last(), x);
                }
            } else {
                assert(text_lt(s[i], s[j]));
            }
        }
        assert forall|y: Seq<char>| t.contains(y) <==> s.contains(y) || y == x by {
            if s.contains(y) {
                assert(t[s.index_of(y)] == y);
            }
            if y == x {
                assert(t[s.len() as int] == y);
            }
            if t.contains(y) {
                let k = t.index_of(y);
                if k < s.len() {
                    assert(s[k] == y);
                }
            }
        }
    } else {
        let front = s.drop_last();
        assert(strictly_sorted(front)) by {
            assert forall|i: int, j: int| 0 <= i < j < front.len() implies text_lt(
                #[trigger] front[i],
                #[trigger] front[j],
            ) by {
                assert(text_lt(s[i], s[j]));
            }
        }
        lemma_with_sorted(front, x);
        lemma_text_lt_total(s.last(), x);
        let u = with_sorted(front, x);
        assert(u.contains(x));
        assert forall|i: int, j: int| 0 <= i < j < t.len() implies text_lt(
            #[trigger] t[i],
            #[trigger] t[j],
        ) by {
            if j == u.len() {
                assert(u.contains(u[i]));
                if u[i] != x {
                    let k = front.index_of(u[i]);
                    assert(front.contains(u[i]));
                    assert(text_lt(s[k], s[s.len() - 1]));
                }
            } else {
                assert(text_lt(u[i], u[j]));
            }
        }
        assert forall|y: Seq<char>| t.contains(y) <==> s.contains(y) || y == x by {
            if t.contains(y) {
                let k = t.index_of(y);
                if k < u.len() {
                    assert(u[k] == y);
                    assert(u.contains(y));
                    if front.contains(y) {
                        assert(s[front.index_of(y)] == y);
                    }
                } else {
                    assert(s[s.len() - 1] == y);
                }
            }
            if s.contains(y) {
                let k = s.index_of(y);
                if k < front.len() {
                    assert(front[k] == y);
                    assert(front.contains(y));
                    assert(u.contains(y));
                    assert(t[u.index_of(y)] == y);
                } else {
                    assert(t[u.len() as int] == y);
                }
            }
            if y == x {
                assert(t[u.index_of(x)] == y);
            }
        }
    }
}

/// Puts a text in its place in a sorted list, unless the list holds it.
pub fn insert_sorted(list: &mut Vec<String>, x: String)
    ensures
        texts(final(list)@) == with_sorted(texts(old(list)@), x@),
{
    let ghost before = texts(list@);
    let mut n: usize = list.len();
    let ghost key = x@;
    proof {
        assert(before.take(n as int) =~= before);
        assert(with_sorted(before.take(n as int), key) + before.skip(n as int) =~= with_sorted(
            before,
            key,
        ));
    }
    while n > 0
        invariant
            n <= list@.len(),
            key == x@,
            before == texts(list@),
            list@ == old(list)@,
            before == texts(old(list)@),
            with_sorted(before, key) == with_sorted(before.take(n as int), key) + before.skip(
                n as int,
            ),
        decreases n,
    {
        let item: &str = list[n - 1].as_str();
        let ghost t = before.take(n as int);
        proof {
            assert(t.last() == item@);
        }
        if crate::text::str_eq(item, x.as_str()) {
            proof {
                assert(t + before.skip(n as int) =~= before);
            }
            return;
        }
        if str_lt(item, x.as_str()) {
            let ghost was = list@;
            list.insert(n, x);
            proof {
                assert(texts(list@) =~= t.push(key) + before.skip(n as int));
            }
            return;
        }
        proof {
            assert(t.drop_last() =~= before.take(n - 1));
            assert(with_sorted(before.take(n - 1), key).push(t.last()) + before.skip(n as int)
                =~= with_sorted(before.take(n - 1), key) + before.skip(n - 1));
        }
        n -= 1;
    }
    let ghost was = list@;
    list.insert(0, x);
    proof {
        assert(texts(list@) =~= seq![key] + before.skip(0));
    }
}

} // verus!
