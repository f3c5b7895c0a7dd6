//! What holds of the texts and paths that everything else is made of.

use crate::paths::{
    file_name_of, is_absolute_path, joined, last_dot, name_start, parent_of, stem_of, tail_trimmed,
};
use crate::text::{
    ascii_lower, ascii_lower_of, char_bytes, find_from, find_of, index_of_char, is_space, join_of,
    lines_of, occurs_at, prefix_within, replaced, split_of, split_once_of, trim_end_of,
    trim_start_of, trimmed, word_scan, words_of,
};
use vstd::prelude::*;

verus! {

// -------------------------------------------------------------------------- blanks

/// Whether a text is made of white space only.
pub open spec fn all_space(s: Seq<char>) -> bool {
    forall|i: int| 0 <= i < s.len() ==> is_space(#[trigger] s[i])
}

proof fn lemma_trim_start(lead: Seq<char>, t: Seq<char>)
    requires
        all_space(lead),
        t.len() == 0 || !is_space(t[0]),
    ensures
        trim_start_of(lead + t) == t,
    decreases lead.len(),
{
    let s = lead + t;
    if lead.len() > 0 {
        assert(s[0] == lead[0]);
        assert(s.drop_first() =~= lead.drop_first() + t);
        assert forall|i: int| 0 <= i < lead.drop_first().len() implies is_space(
            #[trigger] lead.drop_first()[i],
        ) by {
            assert(lead.drop_first()[i] == lead[i + 1]);
        }
        lemma_trim_start(lead.drop_first(), t);
    } else {
        assert(s =~= t);
    }
}

proof fn lemma_trim_end(t: Seq<char>, tail: Seq<char>)
    requires
        all_space(tail),
        t.len() == 0 || !is_space(t.last()),
    ensures
        trim_end_of(t + tail) == t,
    decreases tail.len(),
{
    let s = t + tail;
    if tail.len() > 0 {
        assert(s.last() == tail.last());
        assert(s.drop_last() =~= t + tail.drop_last());
        assert forall|i: int| 0 <= i < tail.drop_last().len() implies is_space(
            #[trigger] tail.drop_last()[i],
        ) by {
            assert(tail.drop_last()[i] == tail[i]);
        }
        lemma_trim_end(t, tail.drop_last());
    } else {
        assert(s =~= t);
    }
}

/// Trimming takes the white space off both ends of a text and nothing else.
pub proof fn law_trimming(lead: Seq<char>, t: Seq<char>, tail: Seq<char>)
    requires
        all_space(lead),
        all_space(tail),
        t.len() == 0 || (!is_space(t[0]) && !is_space(t.last())),
    ensures
        trimmed(lead + t + tail) == t,
{
    if t.len() == 0 {
        let s = lead + t + tail;
        assert forall|i: int| 0 <= i < s.len() implies is_space(#[trigger] s[i]) by {
            if i < lead.len() {
                assert(s[i] == lead[i]);
            } else {
                assert(s[i] == tail[i - lead.len()]);
            }
        }
        lemma_trim_start(s, Seq::empty());
        assert(s + Seq::<char>::empty() =~= s);
        assert(trim_end_of(Seq::<char>::empty()) =~= t);
    } else {
        assert(lead + t + tail =~= lead + (t + tail));
        assert((t + tail)[0] == t[0]);
        lemma_trim_start(lead, t + tail);
        lemma_trim_end(t, tail);
    }
}

/// A text that is trimmed neither begins nor ends with white space, and trimming it again
/// changes nothing.
pub proof fn law_trimmed_ends(s: Seq<char>)
    ensures
        trimmed(s).len() > 0 ==> !is_space(trimmed(s)[0]) && !is_space(trimmed(s).last()),
        trimmed(trimmed(s)) == trimmed(s),
        trimmed(s).len() <= s.len(),
{
    lemma_trim_start_ends(s);
    lemma_trim_end_ends(trim_start_of(s));
    let none = Seq::<char>::empty();
    let t = trimmed(s);
    law_trimming(none, t, none);
    assert(none + t + none =~= t);
}

proof fn lemma_trim_start_ends(s: Seq<char>)
    ensures
        trim_start_of(s).len() > 0 ==> !is_space(trim_start_of(s)[0]),
        trim_start_of(s).len() <= s.len(),
    decreases s.len(),
{
    if s.len() > 0 && is_space(s[0]) {
        lemma_trim_start_ends(s.drop_first());
    }
}

proof fn lemma_trim_end_ends(s: Seq<char>)
    ensures
        trim_end_of(s).len() > 0 ==> !is_space(trim_end_of(s).last()) && trim_end_of(s)[0] == s[0],
        trim_end_of(s).len() <= s.len(),
    decreases s.len(),
{
    if s.len() > 0 && is_space(s.last()) {
        lemma_trim_end_ends(s.drop_last());
    }
}

// ------------------------------------------------------------------------- finding

proof fn lemma_find_from(s: Seq<char>, p: Seq<char>, i: int)
    requires
        0 <= i,
    ensures
        match find_from(s, p, i) {
            Some(k) => i <= k && occurs_at(s, p, k) && forall|j: int|
                i <= j < k ==> !#[trigger] occurs_at(s, p, j),
            None => forall|j: int| i <= j ==> !#[trigger] occurs_at(s, p, j),
        },
    decreases s.len() - i + 1,
{
    if i + p.len() <= s.len() && !occurs_at(s, p, i) {
        lemma_find_from(s, p, i + 1);
    }
}

/// A text is found where it stands first, and is not found just where it stands nowhere.
pub proof fn law_find_is_first(s: Seq<char>, p: Seq<char>)
    ensures
        match find_of(s, p) {
            Some(k) => occurs_at(s, p, k) && forall|j: int|
                0 <= j < k ==> !#[trigger] occurs_at(s, p, j),
            None => forall|j: int| !#[trigger] occurs_at(s, p, j),
        },
{
    lemma_find_from(s, p, 0);
}

/// What stands before and behind the first separator; together with it they are the whole.
pub proof fn law_split_once(s: Seq<char>, sep: Seq<char>)
    ensures
        match split_once_of(s, sep) {
            Some((a, b)) => s == a + sep + b && forall|j: int|
                0 <= j < a.len() ==> !#[trigger] occurs_at(s, sep, j),
            None => forall|j: int| !#[trigger] occurs_at(s, sep, j),
        },
{
    law_find_is_first(s, sep);
    if let Some(k) = find_of(s, sep) {
        assert(s =~= s.take(k) + sep + s.skip(k + sep.len())) by {
            assert(s.subrange(k, k + sep.len()) == sep);
            assert forall|i: int| k <= i < k + sep.len() implies s[i] == sep[i - k] by {
                assert(s.subrange(k, k + sep.len())[i - k] == s[i]);
            }
        }
    }
}

/// A text with a separator of one character that does not stand in its head is split there.
pub proof fn law_split_once_at(a: Seq<char>, c: char, b: Seq<char>)
    requires
        !a.contains(c),
    ensures
        split_once_of(a + seq![c] + b, seq![c]) == Some((a, b)),
{
    let s = a + seq![c] + b;
    let sep = seq![c];
    law_find_is_first(s, sep);
    assert(s.subrange(a.len() as int, a.len() as int + 1) =~= sep);
    assert(occurs_at(s, sep, a.len() as int));
    let k = find_of(s, sep)->0;
    if k < a.len() {
        assert(s.subrange(k, k + 1)[0] == s[k]);
        assert(s[k] == a[k]);
        assert(a.contains(a[k]));
    }
    assert(k == a.len());
    assert(s.take(k) =~= a);
    assert(s.skip(k + 1) =~= b);
}

/// A text without a separator of one character is not split.
pub proof fn law_no_split(s: Seq<char>, c: char)
    requires
        !s.contains(c),
    ensures
        split_once_of(s, seq![c]) is None,
{
    law_find_is_first(s, seq![c]);
    if let Some(k) = find_of(s, seq![c]) {
        assert(s.subrange(k, k + 1)[0] == s[k]);
        assert(s.contains(s[k]));
    }
}

// --------------------------------------------------------------------------- lines

/// The lines of a text: a first line without a line end in it, which may end with a
/// carriage return, and those behind it.
pub proof fn law_lines(line: Seq<char>, rest: Seq<char>)
    requires
        !line.contains('\n'),
    ensures
        lines_of(Seq::empty()) == Seq::<Seq<char>>::empty(),
        line.len() > 0 ==> lines_of(line) == seq![line],
        line.len() == 0 || line.last() != '\r' ==> lines_of(line + seq!['\n'] + rest) == seq![line]
            + lines_of(rest),
        lines_of(line + seq!['\r', '\n'] + rest) == seq![line] + lines_of(rest),
{
    let a = line + seq!['\n'] + rest;
    lemma_index_of_char_at(line, '\n', rest);
    assert(a.take(line.len() as int) =~= line);
    assert(a.skip(line.len() as int + 1) =~= rest);
    lemma_no_index(line, '\n');
    let with_cr = line.push('\r');
    assert forall|i: int| 0 <= i < with_cr.len() implies with_cr[i] != '\n' by {
        if i < line.len() {
            assert(line.contains(line[i]));
        }
    }
    assert(!with_cr.contains('\n'));
    let b = line + seq!['\r', '\n'] + rest;
    assert(b =~= with_cr + seq!['\n'] + rest);
    lemma_index_of_char_at(with_cr, '\n', rest);
    assert(b.take(with_cr.len() as int) =~= with_cr);
    assert(b.skip(with_cr.len() as int + 1) =~= rest);
    assert(with_cr.drop_last() =~= line);
}

proof fn lemma_index_of_char_at(a: Seq<char>, c: char, b: Seq<char>)
    requires
        !a.contains(c),
    ensures
        index_of_char(a + seq![c] + b, c) == a.len(),
    decreases a.len(),
{
    let s = a + seq![c] + b;
    if a.len() > 0 {
        assert(a.contains(a[0]));
        assert(s[0] == a[0]);
        assert(s.drop_first() =~= a.drop_first() + seq![c] + b);
        assert forall|i: int| 0 <= i < a.drop_first().len() implies a.drop_first()[i] != c by {
            assert(a.drop_first()[i] == a[i + 1]);
            assert(a.contains(a[i + 1]));
        }
        lemma_index_of_char_at(a.drop_first(), c, b);
    }
}

proof fn lemma_no_index(a: Seq<char>, c: char)
    requires
        !a.contains(c),
    ensures
        index_of_char(a, c) == a.len(),
    decreases a.len(),
{
    if a.len() > 0 {
        assert(a.contains(a[0]));
        assert forall|i: int| 0 <= i < a.drop_first().len() implies a.drop_first()[i] != c by {
            assert(a.drop_first()[i] == a[i + 1]);
            assert(a.contains(a[i + 1]));
        }
        lemma_no_index(a.drop_first(), c);
    }
}

/// Splitting a text at a character: the head up to it, and what the rest is split into.
pub proof fn law_splitting(head: Seq<char>, c: char, rest: Seq<char>)
    requires
        !head.contains(c),
    ensures
        split_of(head, c) == seq![head],
        split_of(head + seq![c] + rest, c) == seq![head] + split_of(rest, c),
{
    let s = head + seq![c] + rest;
    lemma_no_index(head, c);
    lemma_index_of_char_at(head, c, rest);
    assert(s.take(head.len() as int) =~= head);
    assert(s.skip(head.len() as int + 1) =~= rest);
}

/// Texts that are joined stand one behind the other with the separator between them.
pub proof fn law_joining(parts: Seq<Seq<char>>, last: Seq<char>, sep: Seq<char>)
    ensures
        join_of(Seq::empty(), sep) == Seq::<char>::empty(),
        join_of(seq![last], sep) == last,
        parts.len() > 0 ==> join_of(parts.push(last), sep) == join_of(parts, sep) + sep + last,
{
    assert(parts.push(last).drop_last() =~= parts);
}

/// Texts without a character that are joined by it are what the whole is split into there.
pub proof fn law_split_undoes_join(parts: Seq<Seq<char>>, c: char)
    requires
        parts.len() > 0,
        forall|i: int| 0 <= i < parts.len() ==> !(#[trigger] parts[i]).contains(c),
    ensures
        split_of(join_of(parts, seq![c]), c) == parts,
    decreases parts.len(),
{
    let head = parts[0];
    if parts.len() == 1 {
        law_splitting(head, c, Seq::empty());
        assert(seq![head] =~= parts);
    } else {
        let rest = parts.drop_first();
        assert forall|i: int| 0 <= i < rest.len() implies !(#[trigger] rest[i]).contains(c) by {
            assert(rest[i] == parts[i + 1]);
        }
        law_split_undoes_join(rest, c);
        lemma_join_head(parts, seq![c]);
        law_splitting(head, c, join_of(rest, seq![c]));
        assert(seq![head] + rest =~= parts);
    }
}

proof fn lemma_join_head(parts: Seq<Seq<char>>, sep: Seq<char>)
    requires
        parts.len() > 1,
    ensures
        join_of(parts, sep) == parts[0] + sep + join_of(parts.drop_first(), sep),
    decreases parts.len(),
{
    let front = parts.drop_last();
    let rest = parts.drop_first();
    if parts.len() == 2 {
        assert(front =~= seq![parts[0]]);
        assert(rest =~= seq![parts[1]]);
        assert(join_of(front, sep) == parts[0]);
        assert(join_of(rest, sep) == parts[1]);
        assert(parts.last() == parts[1]);
    } else {
        lemma_join_head(front, sep);
        assert(front.drop_first() =~= rest.drop_last());
        assert(front[0] == parts[0]);
        assert(rest.last() == parts.last());
        let inner = join_of(rest.drop_last(), sep);
        assert(parts[0] + sep + inner + sep + parts.last() =~= parts[0] + sep + (inner + sep
            + parts.last()));
    }
}

// --------------------------------------------------------------------- other texts

/// Replacing a character changes each of its places and no other.
pub proof fn law_replacing(s: Seq<char>, from: char, to: char, i: int)
    requires
        0 <= i < s.len(),
    ensures
        replaced(s, from, to).len() == s.len(),
        s[i] == from ==> replaced(s, from, to)[i] == to,
        s[i] != from ==> replaced(s, from, to)[i] == s[i],
        from != to ==> !replaced(s, from, to).contains(from),
{
    let r = replaced(s, from, to);
    if from != to && r.contains(from) {
        let k = r.index_of(from);
        assert(r[k] == from);
    }
}

/// Lower case by ASCII changes capital letters and nothing else, and changes nothing the
/// second time.
pub proof fn law_ascii_lower(s: Seq<char>, i: int)
    requires
        0 <= i < s.len(),
    ensures
        ascii_lower_of(s).len() == s.len(),
        'A' <= s[i] <= 'Z' ==> ascii_lower_of(s)[i] as int == s[i] as int + ('a' as int
            - 'A' as int),
        !('A' <= s[i] <= 'Z') ==> ascii_lower_of(s)[i] == s[i],
        ascii_lower_of(ascii_lower_of(s)) == ascii_lower_of(s),
{
    assert forall|k: int| 0 <= k < s.len() implies ascii_lower(ascii_lower(s[k])) == ascii_lower(
        s[k],
    ) by {}
    assert(ascii_lower_of(ascii_lower_of(s)) =~= ascii_lower_of(s));
}

/// The bytes of a text as UTF-8.
pub open spec fn bytes_in(s: Seq<char>) -> nat
    decreases s.len(),
{
    if s.len() == 0 {
        0
    } else {
        char_bytes(s[0]) + bytes_in(s.drop_first())
    }
}

/// The beginning of a text that fits into a number of bytes is the longest one that does.
pub proof fn law_longest_prefix_that_fits(s: Seq<char>, max: nat)
    ensures
        prefix_within(s, max).is_prefix_of(s),
        bytes_in(prefix_within(s, max)) <= max,
        bytes_in(s) <= max ==> prefix_within(s, max) == s,
        prefix_within(s, max).len() < s.len() ==> bytes_in(prefix_within(s, max)) + char_bytes(
            s[prefix_within(s, max).len() as int],
        ) > max,
    decreases s.len(),
{
    if s.len() > 0 && char_bytes(s[0]) <= max {
        let left = (max - char_bytes(s[0])) as nat;
        let rest = s.drop_first();
        law_longest_prefix_that_fits(rest, left);
        let p = prefix_within(s, max);
        let q = prefix_within(rest, left);
        assert(p.drop_first() =~= q);
        assert(p[0] == s[0]);
        assert(p =~= s.take(p.len() as int)) by {
            assert forall|i: int| 0 <= i < p.len() implies p[i] == s[i] by {
                if i > 0 {
                    assert(p[i] == q[i - 1]);
                    assert(q[i - 1] == rest[i - 1]);
                }
            }
        }
        if bytes_in(s) <= max {
            assert(p =~= s);
        }
        if p.len() < s.len() {
            assert(rest[q.len() as int] == s[p.len() as int]);
        }
    } else if s.len() > 0 {
        assert(prefix_within(s, max) =~= Seq::empty());
    }
}

/// The words of a text that ends with a word behind white space are those before it and
/// that word.
pub proof fn law_last_word(s: Seq<char>, blank: char, word: Seq<char>)
    requires
        is_space(blank),
        word.len() > 0,
        forall|i: int| 0 <= i < word.len() ==> !is_space(#[trigger] word[i]),
    ensures
        words_of(s + seq![blank] + word) == words_of(s).push(word),
        words_of(word) == seq![word],
{
    let t = s + seq![blank];
    assert(t.drop_last() =~= s);
    assert(word_scan(t).0 == words_of(s) && word_scan(t).1.len() == 0);
    lemma_word_at_end(t, word);
    assert(word_scan(t).1 + word =~= word);
    let none = Seq::<char>::empty();
    lemma_word_at_end(none, word);
    assert(none + word =~= word);
    assert(words_of(word) =~= seq![word]);
}

proof fn lemma_word_at_end(s: Seq<char>, word: Seq<char>)
    requires
        forall|i: int| 0 <= i < word.len() ==> !is_space(#[trigger] word[i]),
    ensures
        word_scan(s + word).0 == word_scan(s).0,
        word_scan(s + word).1 == word_scan(s).1 + word,
    decreases word.len(),
{
    if word.len() == 0 {
        assert(s + word =~= s);
        assert(word_scan(s).1 + word =~= word_scan(s).1);
    } else {
        let front = word.drop_last();
        assert((s + word).drop_last() =~= s + front);
        assert forall|i: int| 0 <= i < front.len() implies !is_space(#[trigger] front[i]) by {
            assert(front[i] == word[i]);
        }
        lemma_word_at_end(s, front);
        assert(!is_space(word[word.len() - 1]));
        assert((word_scan(s).1 + front).push(word.last()) =~= word_scan(s).1 + word);
    }
}

// --------------------------------------------------------------------------- paths

/// A path that is joined to a base stands behind it with one slash between; an absolute
/// one stands alone.
pub proof fn law_joined_paths(base: Seq<char>, p: Seq<char>)
    ensures
        is_absolute_path(p) ==> joined(base, p) == p,
        base.len() == 0 ==> joined(base, p) == p,
        !is_absolute_path(p) && base.len() > 0 && base.last() != '/' ==> joined(base, p) == base
            + seq!['/'] + p,
        !is_absolute_path(p) && base.len() > 0 && base.last() == '/' ==> joined(base, p) == base + p,
{
}

proof fn lemma_name_start(dir: Seq<char>, name: Seq<char>)
    requires
        !name.contains('/'),
    ensures
        name_start(dir + seq!['/'] + name) == dir.len() + 1,
    decreases name.len(),
{
    let p = dir + seq!['/'] + name;
    if name.len() > 0 {
        assert(name.contains(name[name.len() - 1]));
        assert(p.last() == name.last());
        assert(p.drop_last() =~= dir + seq!['/'] + name.drop_last());
        assert forall|i: int| 0 <= i < name.drop_last().len() implies name.drop_last()[i] != '/' by {
            assert(name.drop_last()[i] == name[i]);
            assert(name.contains(name[i]));
        }
        lemma_name_start(dir, name.drop_last());
    } else {
        assert(p.last() == '/');
    }
}

/// The name of a path is what stands behind its last slash, and its parent what stands
/// before it.
pub proof fn law_name_and_parent(dir: Seq<char>, name: Seq<char>)
    requires
        name.len() > 0,
        !name.contains('/'),
        name != seq!['.'],
        name != seq!['.', '.'],
        dir.len() > 0,
        dir.last() != '/',
        dir.last() != '.',
    ensures
        file_name_of(dir + seq!['/'] + name) == Some(name),
        parent_of(dir + seq!['/'] + name) == Some(dir),
        joined(dir, name) == dir + seq!['/'] + name,
{
    let p = dir + seq!['/'] + name;
    assert(name.contains(name[name.len() - 1]));
    assert(name.contains(name[0]));
    assert(p.last() == name.last());
    if p.last() == '.' && p[p.len() - 2] == '/' {
        if name.len() == 1 {
            assert(name =~= seq!['.']);
        } else {
            assert(p[p.len() - 2] == name[name.len() - 2]);
            assert(name.contains(name[name.len() - 2]));
        }
    }
    assert(tail_trimmed(p) == p);
    lemma_name_start(dir, name);
    assert(p.skip(dir.len() as int + 1) =~= name);
    assert(p.len() > 1);
    let up = p.take(dir.len() as int + 1);
    assert(up =~= dir.push('/'));
    assert(up.drop_last() =~= dir);
    assert(tail_trimmed(dir) == dir);
}

/// The stem of a name ends before its last dot, where that is not the first character.
pub proof fn law_stem(front: Seq<char>, ending: Seq<char>)
    requires
        !ending.contains('.'),
    ensures
        front.len() > 0 ==> stem_of(front + seq!['.'] + ending) == front,
        stem_of(ending) == ending,
        stem_of(seq!['.'] + ending) == seq!['.'] + ending,
{
    lemma_last_dot(front, ending);
    assert((front + seq!['.'] + ending).take(front.len() as int) =~= front);
    lemma_no_dot(ending);
    let none = Seq::<char>::empty();
    lemma_last_dot(none, ending);
    assert(none + seq!['.'] + ending =~= seq!['.'] + ending);
}

proof fn lemma_last_dot(front: Seq<char>, ending: Seq<char>)
    requires
        !ending.contains('.'),
    ensures
        last_dot(front + seq!['.'] + ending) == front.len(),
    decreases ending.len(),
{
    let s = front + seq!['.'] + ending;
    if ending.len() > 0 {
        assert(ending.contains(ending[ending.len() - 1]));
        assert(s.last() == ending.last());
        assert(s.drop_last() =~= front + seq!['.'] + ending.drop_last());
        assert forall|i: int| 0 <= i < ending.drop_last().len() implies ending.drop_last()[i] != '.' by {
            assert(ending.drop_last()[i] == ending[i]);
            assert(ending.contains(ending[i]));
        }
        lemma_last_dot(front, ending.drop_last());
    } else {
        assert(s.last() == '.');
    }
}

proof fn lemma_no_dot(s: Seq<char>)
    requires
        !s.contains('.'),
    ensures
        last_dot(s) == -1,
    decreases s.len(),
{
    if s.len() > 0 {
        assert(s.contains(s[s.len() - 1]));
        assert forall|i: int| 0 <= i < s.drop_last().len() implies s.drop_last()[i] != '.' by {
            assert(s.drop_last()[i] == s[i]);
            assert(s.contains(s[i]));
        }
        lemma_no_dot(s.drop_last());
    }
}

} // verus!
