//! Slash-separated paths, held as strings.

use crate::text::{
    chars_of, concat, concat3, lemma_texts_push, split, split_of, str_eq, string_of, texts,
};
use vstd::prelude::*;

verus! {

/// A path without the separators and the `.` components at its end.
pub open spec fn tail_trimmed(p: Seq<char>) -> Seq<char>
    decreases p.len(),
{
    if p.len() > 1 && (p.last() == '/' || (p.last() == '.' && p[p.len() - 2] == '/')) {
        tail_trimmed(p.drop_last())
    } else {
        p
    }
}

/// Where the last component of a path starts: behind its last separator.
pub open spec fn name_start(p: Seq<char>) -> int
    decreases p.len(),
{
    if p.len() == 0 || p.last() == '/' {
        p.len() as int
    } else {
        name_start(p.drop_last())
    }
}

/// The path without its last component; a root and an empty path have none.
pub open spec fn parent_of(p: Seq<char>) -> Option<Seq<char>> {
    let t = tail_trimmed(p);
    if t.len() == 0 || t == seq!['/'] {
        None
    } else {
        Some(tail_trimmed(t.take(name_start(t))))
    }
}

/// The last component of a path, where it names a file or a directory.
pub open spec fn file_name_of(p: Seq<char>) -> Option<Seq<char>> {
    let t = tail_trimmed(p);
    let name = t.skip(name_start(t));
    if name.len() == 0 || t == seq!['.'] || name == seq!['.', '.'] {
        None
    } else {
        Some(name)
    }
}

/// Whether a path starts at the root.
pub open spec fn is_absolute_path(p: Seq<char>) -> bool {
    p.len() > 0 && p[0] == '/'
}

/// A path seen from a base directory; an absolute path stands for itself.
pub open spec fn joined(base: Seq<char>, p: Seq<char>) -> Seq<char> {
    if is_absolute_path(p) || base.len() == 0 {
        p
    } else if base.last() == '/' {
        base + p
    } else {
        base + seq!['/'] + p
    }
}

proof fn lemma_tail_trimmed_len(p: Seq<char>)
    ensures
        tail_trimmed(p).len() <= p.len(),
    decreases p.len(),
{
    if p.len() > 1 && (p.last() == '/' || (p.last() == '.' && p[p.len() - 2] == '/')) {
        lemma_tail_trimmed_len(p.drop_last());
    }
}

proof fn lemma_name_start(p: Seq<char>)
    ensures
        0 <= name_start(p) <= p.len(),
        name_start(p) == p.len() ==> p.len() == 0 || p.last() == '/',
    decreases p.len(),
{
    if p.len() > 0 && p.last() != '/' {
        lemma_name_start(p.drop_last());
    }
}

proof fn lemma_tail_trimmed_end(p: Seq<char>)
    ensures
        tail_trimmed(p).len() > 1 ==> tail_trimmed(p).last() != '/',
    decreases p.len(),
{
    if p.len() > 1 && (p.last() == '/' || (p.last() == '.' && p[p.len() - 2] == '/')) {
        lemma_tail_trimmed_end(p.drop_last());
    }
}

/// The parent of a path is shorter than the path.
pub proof fn lemma_parent_is_shorter(p: Seq<char>)
    ensures
        parent_of(p) matches Some(q) ==> q.len() < p.len(),
{
    let t = tail_trimmed(p);
    lemma_tail_trimmed_len(p);
    lemma_tail_trimmed_end(p);
    lemma_name_start(t);
    lemma_tail_trimmed_len(t.take(name_start(t)));
    if t.len() == 1 && t.last() == '/' {
        assert(t =~= seq!['/']);
    }
}

/// A path without the separators and the `.` components at its end.
pub fn trim_tail(p: &str) -> (r: String)
    ensures
        r@ == tail_trimmed(p@),
{
    let v = chars_of(p);
    let n: usize = trimmed_len(&v, v.len());
    proof {
        assert(v@.take(v@.len() as int) =~= v@);
        assert(v@.subrange(0, n as int) =~= v@.take(n as int));
    }
    string_of(&v, 0, n)
}

fn trimmed_len(v: &Vec<char>, end: usize) -> (n: usize)
    requires
        end <= v@.len(),
    ensures
        n <= end,
        tail_trimmed(v@.take(end as int)) == v@.take(n as int),
{
    let mut n: usize = end;
    while n > 1 && (v[n - 1] == '/' || (v[n - 1] == '.' && v[n - 2] == '/'))
        invariant
            n <= end <= v@.len(),
            tail_trimmed(v@.take(end as int)) == tail_trimmed(v@.take(n as int)),
        decreases n,
    {
        proof {
            assert(v@.take(n as int).drop_last() =~= v@.take(n - 1));
        }
        n -= 1;
    }
    n
}

fn start_of_name(v: &Vec<char>, end: usize) -> (n: usize)
    requires
        end <= v@.len(),
    ensures
        n <= end,
        n == name_start(v@.take(end as int)),
{
    let mut n: usize = end;
    while n > 0 && v[n - 1] != '/'
        invariant
            n <= end <= v@.len(),
            name_start(v@.take(end as int)) == name_start(v@.take(n as int)),
        decreases n,
    {
        proof {
            assert(v@.take(n as int).drop_last() =~= v@.take(n - 1));
        }
        n -= 1;
    }
    n
}

/// The path without its last component.
pub fn parent(p: &str) -> (r: Option<String>)
    ensures
        match r {
            Some(q) => parent_of(p@) == Some(q@) && q@.len() < p@.len(),
            None => parent_of(p@) is None,
        },
{
    let v = chars_of(p);
    let end: usize = trimmed_len(&v, v.len());
    proof {
        assert(v@.take(v@.len() as int) =~= v@);
        lemma_parent_is_shorter(p@);
    }
    if end == 0 {
        return None;
    }
    if end == 1 && v[0] == '/' {
        proof {
            assert(v@.take(1) =~= seq!['/']);
        }
        return None;
    }
    proof {
        let t = v@.take(end as int);
        if t == seq!['/'] {
            assert(t.len() == 1);
            assert(t[0] == '/');
            assert(v@[0] == '/');
        }
    }
    let n: usize = start_of_name(&v, end);
    let m: usize = trimmed_len(&v, n);
    proof {
        assert(v@.take(end as int).take(n as int) =~= v@.take(n as int));
        assert(v@.take(m as int) =~= v@.subrange(0, m as int));
    }
    Some(string_of(&v, 0, m))
}

/// The last component of a path, where it names a file or a directory.
pub fn file_name(p: &str) -> (r: Option<String>)
    ensures
        match r {
            Some(q) => file_name_of(p@) == Some(q@),
            None => file_name_of(p@) is None,
        },
{
    let v = chars_of(p);
    let end: usize = trimmed_len(&v, v.len());
    let n: usize = start_of_name(&v, end);
    let name = string_of(&v, n, end);
    proof {
        assert(v@.take(v@.len() as int) =~= v@);
        assert(v@.take(end as int).skip(n as int) =~= name@);
        reveal_strlit("..");
        assert(".."@ =~= seq!['.', '.']);
    }
    if n == end || str_eq(name.as_str(), "..") {
        return None;
    }
    if end == 1 && v[0] == '.' {
        proof {
            assert(v@.take(end as int) =~= seq!['.']);
        }
        return None;
    }
    proof {
        if v@.take(end as int) == seq!['.'] {
            assert(v@.take(end as int)[0] == '.');
        }
    }
    Some(name)
}

/// Whether a path starts at the root.
pub fn is_absolute(p: &str) -> (r: bool)
    ensures
        r == is_absolute_path(p@),
{
    let v = chars_of(p);
    v.len() > 0 && v[0] == '/'
}

/// A path seen from a base directory.
pub fn join(base: &str, p: &str) -> (r: String)
    ensures
        r@ == joined(base@, p@),
{
    let b = chars_of(base);
    if is_absolute(p) || b.len() == 0 {
        p.to_owned()
    } else if b[b.len() - 1] == '/' {
        concat(base, p)
    } else {
        proof {
            reveal_strlit("/");
            assert("/"@ =~= seq!['/']);
        }
        concat3(base, "/", p)
    }
}

/// The parts of a path that count: none is empty, and `.` counts only in front.
pub open spec fn parts_that_count(parts: Seq<Seq<char>>) -> Seq<Seq<char>>
    decreases parts.len(),
{
    if parts.len() == 0 {
        Seq::empty()
    } else {
        let before = parts_that_count(parts.drop_last());
        let part = parts.last();
        if part.len() == 0 || (part == "."@ && parts.len() > 1) {
            before
        } else {
            before.push(part)
        }
    }
}

/// The components of a path; the first of an absolute path is the root.
pub open spec fn components_of(p: Seq<char>) -> Seq<Seq<char>> {
    if is_absolute_path(p) {
        seq!["/"@] + parts_that_count(split_of(p, '/'))
    } else {
        parts_that_count(split_of(p, '/'))
    }
}

/// The components of a path.
pub fn components(p: &str) -> (r: Vec<String>)
    ensures
        texts(r@) == components_of(p@),
{
    broadcast use lemma_texts_push;

    let parts = split(p, '/');
    let ghost all = texts(parts@);
    let mut out: Vec<String> = Vec::new();
    let ghost mut root: Seq<Seq<char>> = Seq::empty();
    if is_absolute(p) {
        out.push("/".to_owned());
        proof {
            root = seq!["/"@];
        }
    }
    let mut i: usize = 0;
    proof {
        assert(all.take(0) =~= Seq::empty());
        assert(texts(out@) =~= root + parts_that_count(all.take(0)));
    }
    while i < parts.len()
        invariant
            i <= parts@.len(),
            all == texts(parts@),
            texts(out@) =~= root + parts_that_count(all.take(i as int)),
        decreases parts.len() - i,
    {
        proof {
            assert(all.take(i + 1).drop_last() =~= all.take(i as int));
            assert(all.take(i + 1).last() == parts@[i as int]@);
        }
        if !parts[i].as_str().is_empty() && (i == 0 || !str_eq(parts[i].as_str(), ".")) {
            out.push(parts[i].clone());
            proof {
                assert((root + parts_that_count(all.take(i as int))).push(all[i as int]) =~= root
                    + parts_that_count(all.take(i as int)).push(all[i as int]));
            }
        }
        i += 1;
    }
    proof {
        assert(all.take(all.len() as int) =~= all);
    }
    out
}

/// The place of the last dot of a name, or -1.
pub open spec fn last_dot(name: Seq<char>) -> int
    decreases name.len(),
{
    if name.len() == 0 {
        -1
    } else if name.last() == '.' {
        name.len() - 1
    } else {
        last_dot(name.drop_last())
    }
}

/// A file's name without its extension. A name that starts with its only dot has none.
pub open spec fn stem_of(name: Seq<char>) -> Seq<char> {
    if last_dot(name) <= 0 {
        name
    } else {
        name.take(last_dot(name))
    }
}

/// A file's name without its extension.
pub fn stem(name: &str) -> (r: String)
    ensures
        r@ == stem_of(name@),
{
    let v = chars_of(name);
    let mut i: usize = v.len();
    proof {
        assert(name@.take(name@.len() as int) =~= name@);
    }
    while i > 0 && v[i - 1] != '.'
        invariant
            i <= v@.len(),
            v@ == name@,
            last_dot(name@.take(i as int)) == last_dot(name@),
        decreases i,
    {
        proof {
            assert(name@.take(i as int).drop_last() =~= name@.take(i - 1));
        }
        i -= 1;
    }
    proof {
        if i > 0 {
            assert(name@.take(i as int).last() == '.');
        }
    }
    if i <= 1 {
        return name.to_owned();
    }
    let s = string_of(&v, 0, i - 1);
    proof {
        assert(s@ =~= name@.take(i - 1));
    }
    s
}

} // verus!
