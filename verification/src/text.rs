//! Text primitives.
//!
//! A string is modelled by the sequence of its characters. The functions here
//! do on `&str` what the rest of the library needs of string handling, each
//! stated over that model.

use crate::model::opt_view;
use vstd::prelude::*;
use vstd::string::*;
use vstd::utf8::*;

verus! {

/// `std::string::String::push`: appends one character.
pub assume_specification[ String::push ](s: &mut String, c: char)
    ensures
        final(s)@ == old(s)@.push(c),
;

/// The character sequences of a sequence of strings.
pub open spec fn texts(v: Seq<String>) -> Seq<Seq<char>> {
    Seq::new(v.len(), |i: int| v[i]@)
}

pub broadcast proof fn lemma_texts_push(v: Seq<String>, s: String)
    ensures
        #[trigger] texts(v.push(s)) == texts(v).push(s@),
{
    assert(texts(v.push(s)) =~= texts(v).push(s@));
}

/// Whether two strings hold the same characters.
pub fn str_eq(a: &str, b: &str) -> (r: bool)
    ensures
        r == (a@ == b@),
{
    let x: &[u8] = a.as_bytes();
    let y: &[u8] = b.as_bytes();
    if x.len() != y.len() {
        return false;
    }
    let mut i: usize = 0;
    while i < x.len()
        invariant
            x@.len() == y@.len(),
            x@ == encode_utf8(a@),
            y@ == encode_utf8(b@),
            i <= x@.len(),
            forall|k: int| 0 <= k < i ==> x@[k] == y@[k],
        decreases x.len() - i,
    {
        if x[i] != y[i] {
            return false;
        }
        i += 1;
    }
    proof {
        assert(x@ =~= y@);
        encode_utf8_decode_utf8(a@);
        encode_utf8_decode_utf8(b@);
    }
    true
}

/// The characters of a string, in order.
pub fn chars_of(s: &str) -> (v: Vec<char>)
    ensures
        v@ == s@,
{
    let mut v: Vec<char> = Vec::new();
    for c in it: s.chars()
        invariant
            v@ == s@.take(it.index() as int),
            it.seq() == s@,
    {
        v.push(c);
    }
    v
}

/// The string made of the characters from `from` up to `to`.
pub fn string_of(v: &Vec<char>, from: usize, to: usize) -> (r: String)
    requires
        from <= to <= v@.len(),
    ensures
        r@ == v@.subrange(from as int, to as int),
{
    let mut r = String::new();
    let mut i: usize = from;
    while i < to
        invariant
            from <= i <= to <= v@.len(),
            r@ == v@.subrange(from as int, i as int),
        decreases to - i,
    {
        r.push(v[i]);
        proof {
            assert(v@.subrange(from as int, i + 1) =~= v@.subrange(from as int, i as int).push(v@[i as int]));
        }
        i += 1;
    }
    r
}

/// The concatenation of two strings.
pub fn concat(a: &str, b: &str) -> (r: String)
    ensures
        r@ == a@ + b@,
{
    let mut r = a.to_owned();
    r.append(b);
    r
}

/// The concatenation of three strings.
pub fn concat3(a: &str, b: &str, c: &str) -> (r: String)
    ensures
        r@ == a@ + b@ + c@,
{
    let mut r = concat(a, b);
    r.append(c);
    r
}

/// A copy of a list of strings.
pub fn clone_strings(v: &[String]) -> (r: Vec<String>)
    ensures
        texts(r@) == texts(v@),
        r@.len() == v@.len(),
{
    let mut r: Vec<String> = Vec::new();
    let mut i: usize = 0;
    while i < v.len()
        invariant
            i <= v@.len(),
            r@.len() == i,
            texts(r@) == texts(v@).take(i as int),
        decreases v.len() - i,
    {
        r.push(v[i].clone());
        proof {
            assert(texts(v@).take(i + 1) =~= texts(v@).take(i as int).push(v@[i as int]@));
            assert(texts(r@) =~= texts(v@).take(i as int).push(v@[i as int]@));
        }
        i += 1;
    }
    proof {
        assert(texts(v@).take(i as int) =~= texts(v@));
    }
    r
}

// ---------------------------------------------------------------- whitespace

/// The characters of the Unicode `White_Space` property.
pub open spec fn is_space(c: char) -> bool {
    ||| '\u{9}' <= c <= '\u{d}'
    ||| c == '\u{20}'
    ||| c == '\u{85}'
    ||| c == '\u{a0}'
    ||| c == '\u{1680}'
    ||| '\u{2000}' <= c <= '\u{200a}'
    ||| c == '\u{2028}'
    ||| c == '\u{2029}'
    ||| c == '\u{202f}'
    ||| c == '\u{205f}'
    ||| c == '\u{3000}'
}

/// Whether a character is white space.
pub fn char_is_space(c: char) -> (r: bool)
    ensures
        r == is_space(c),
{
    ('\u{9}' <= c && c <= '\u{d}') || c == '\u{20}' || c == '\u{85}' || c == '\u{a0}' || c
        == '\u{1680}' || ('\u{2000}' <= c && c <= '\u{200a}') || c == '\u{2028}' || c == '\u{2029}'
        || c == '\u{202f}' || c == '\u{205f}' || c == '\u{3000}'
}

/// A text without its leading white space.
pub open spec fn trim_start_of(s: Seq<char>) -> Seq<char>
    decreases s.len(),
{
    if s.len() > 0 && is_space(s[0]) {
        trim_start_of(s.drop_first())
    } else {
        s
    }
}

/// A text without its trailing white space.
pub open spec fn trim_end_of(s: Seq<char>) -> Seq<char>
    decreases s.len(),
{
    if s.len() > 0 && is_space(s.last()) {
        trim_end_of(s.drop_last())
    } else {
        s
    }
}

/// A text without the white space around it.
pub open spec fn trimmed(s: Seq<char>) -> Seq<char> {
    trim_end_of(trim_start_of(s))
}

/// The text without leading white space (`str::trim_start`).
pub fn trim_start(s: &str) -> (r: String)
    ensures
        r@ == trim_start_of(s@),
{
    let v = chars_of(s);
    let mut i: usize = 0;
    proof {
        assert(v@.skip(0) =~= v@);
    }
    while i < v.len() && char_is_space(v[i])
        invariant
            i <= v@.len(),
            trim_start_of(v@) == trim_start_of(v@.skip(i as int)),
        decreases v.len() - i,
    {
        proof {
            assert(v@.skip(i as int).drop_first() =~= v@.skip(i + 1));
        }
        i += 1;
    }
    proof {
        assert(v@.skip(i as int) =~= v@.subrange(i as int, v@.len() as int));
    }
    string_of(&v, i, v.len())
}

/// The text without trailing white space (`str::trim_end`).
pub fn trim_end(s: &str) -> (r: String)
    ensures
        r@ == trim_end_of(s@),
{
    let v = chars_of(s);
    let mut n: usize = v.len();
    proof {
        assert(v@.take(n as int) =~= v@);
    }
    while n > 0 && char_is_space(v[n - 1])
        invariant
            n <= v@.len(),
            trim_end_of(v@) == trim_end_of(v@.take(n as int)),
        decreases n,
    {
        proof {
            assert(v@.take(n as int).drop_last() =~= v@.take(n - 1));
        }
        n -= 1;
    }
    proof {
        assert(v@.take(n as int) =~= v@.subrange(0, n as int));
    }
    string_of(&v, 0, n)
}

/// The text without the white space around it (`str::trim`).
pub fn trim(s: &str) -> (r: String)
    ensures
        r@ == trimmed(s@),
{
    let t = trim_start(s);
    trim_end(t.as_str())
}

// ------------------------------------------------------- prefixes and search

/// Whether `p` stands in `s` at position `i`.
pub open spec fn occurs_at(s: Seq<char>, p: Seq<char>, i: int) -> bool {
    0 <= i && i + p.len() <= s.len() && s.subrange(i, i + p.len()) == p
}

/// Whether `s` begins with `p`.
pub open spec fn has_prefix(s: Seq<char>, p: Seq<char>) -> bool {
    p.len() <= s.len() && s.take(p.len() as int) == p
}

/// Whether `s` ends with `p`.
pub open spec fn has_suffix(s: Seq<char>, p: Seq<char>) -> bool {
    p.len() <= s.len() && s.skip(s.len() - p.len()) == p
}

/// The first position at or after `i` at which `p` stands in `s`.
pub open spec fn find_from(s: Seq<char>, p: Seq<char>, i: int) -> Option<int>
    decreases s.len() - i + 1,
{
    if i + p.len() > s.len() {
        None
    } else if occurs_at(s, p, i) {
        Some(i)
    } else {
        find_from(s, p, i + 1)
    }
}

/// The first position at which `p` stands in `s`.
pub open spec fn find_of(s: Seq<char>, p: Seq<char>) -> Option<int> {
    find_from(s, p, 0)
}

fn chars_at(v: &Vec<char>, p: &Vec<char>, at: usize) -> (r: bool)
    requires
        at + p@.len() <= v@.len(),
    ensures
        r == occurs_at(v@, p@, at as int),
{
    let mut k: usize = 0;
    let n: usize = v.len();
    while k < p.len()
        invariant
            at + p@.len() <= v@.len(),
            v@.len() == n,
            k <= p@.len(),
            forall|j: int| 0 <= j < k ==> v@[at + j] == p@[j],
        decreases p.len() - k,
    {
        if v[at + k] != p[k] {
            proof {
                assert(v@.subrange(at as int, at + p@.len())[k as int] != p@[k as int]);
            }
            return false;
        }
        k += 1;
    }
    proof {
        assert(v@.subrange(at as int, at + p@.len()) =~= p@);
    }
    true
}

/// Whether the text begins with a prefix (`str::starts_with`).
pub fn starts_with(s: &str, p: &str) -> (r: bool)
    ensures
        r == has_prefix(s@, p@),
{
    let v = chars_of(s);
    let q = chars_of(p);
    if q.len() > v.len() {
        return false;
    }
    proof {
        assert(v@.subrange(0, q@.len() as int) =~= v@.take(q@.len() as int));
    }
    chars_at(&v, &q, 0)
}

/// Whether the text ends with a suffix (`str::ends_with`).
pub fn ends_with(s: &str, p: &str) -> (r: bool)
    ensures
        r == has_suffix(s@, p@),
{
    let v = chars_of(s);
    let q = chars_of(p);
    if q.len() > v.len() {
        return false;
    }
    proof {
        assert(v@.subrange(v@.len() - q@.len(), v@.len() as int) =~= v@.skip(v@.len() - q@.len()));
    }
    chars_at(&v, &q, v.len() - q.len())
}

/// The rest of the text behind a prefix (`str::strip_prefix`).
pub fn strip_prefix(s: &str, p: &str) -> (r: Option<String>)
    ensures
        match r {
            Some(rest) => has_prefix(s@, p@) && rest@ == s@.skip(p@.len() as int),
            None => !has_prefix(s@, p@),
        },
{
    if starts_with(s, p) {
        let v = chars_of(s);
        let n: usize = chars_of(p).len();
        proof {
            assert(v@.subrange(n as int, v@.len() as int) =~= v@.skip(n as int));
        }
        Some(string_of(&v, n, v.len()))
    } else {
        None
    }
}

/// The text before a suffix (`str::strip_suffix`).
pub fn strip_suffix(s: &str, p: &str) -> (r: Option<String>)
    ensures
        match r {
            Some(rest) => has_suffix(s@, p@) && rest@ == s@.take(s@.len() - p@.len()),
            None => !has_suffix(s@, p@),
        },
{
    if ends_with(s, p) {
        let v = chars_of(s);
        let n: usize = chars_of(p).len();
        proof {
            assert(v@.subrange(0, v@.len() - n) =~= v@.take(v@.len() - n));
        }
        Some(string_of(&v, 0, v.len() - n))
    } else {
        None
    }
}

/// The position, in characters, of the first occurrence of a text.
pub fn find(s: &str, p: &str) -> (r: Option<usize>)
    ensures
        match r {
            Some(i) => find_of(s@, p@) == Some(i as int),
            None => find_of(s@, p@) is None,
        },
        r is Some ==> r->0 + p@.len() <= s@.len(),
{
    let v = chars_of(s);
    let q = chars_of(p);
    let mut i: usize = 0;
    if q.len() > v.len() {
        return None;
    }
    while i <= v.len() - q.len()
        invariant
            v@ == s@,
            q@ == p@,
            q@.len() <= v@.len(),
            i <= v@.len() - q@.len() + 1,
            find_of(v@, q@) == find_from(v@, q@, i as int),
        decreases v.len() - q.len() + 1 - i,
    {
        if chars_at(&v, &q, i) {
            return Some(i);
        }
        if i == v.len() - q.len() {
            proof {
                assert(find_from(v@, q@, i + 1) is None);
            }
            return None;
        }
        i += 1;
    }
    None
}

/// Whether a text stands in another (`str::contains`).
pub fn contains(s: &str, p: &str) -> (r: bool)
    ensures
        r == (find_of(s@, p@) is Some),
{
    find(s, p).is_some()
}

/// The two sides of the first occurrence of a separator (`str::split_once`).
pub open spec fn split_once_of(s: Seq<char>, sep: Seq<char>) -> Option<(Seq<char>, Seq<char>)> {
    match find_of(s, sep) {
        Some(i) => Some((s.take(i), s.skip(i + sep.len()))),
        None => None,
    }
}

/// The two sides of the first occurrence of a separator (`str::split_once`).
pub fn split_once(s: &str, sep: &str) -> (r: Option<(String, String)>)
    ensures
        match r {
            Some((a, b)) => split_once_of(s@, sep@) == Some((a@, b@)),
            None => split_once_of(s@, sep@) is None,
        },
{
    match find(s, sep) {
        Some(i) => {
            let v = chars_of(s);
            let n: usize = chars_of(sep).len();
            let len: usize = v.len();
            proof {
                assert(i + n <= len);
                assert(v@.subrange(0, i as int) =~= v@.take(i as int));
                assert(v@.subrange(i + n, v@.len() as int) =~= v@.skip(i + n));
            }
            Some((string_of(&v, 0, i), string_of(&v, i + n, len)))
        },
        None => None,
    }
}

// ------------------------------------------------------------------ splitting

/// The length of the part of `s` before the first `c` (all of `s` without one).
pub open spec fn index_of_char(s: Seq<char>, c: char) -> int
    decreases s.len(),
{
    if s.len() == 0 || s[0] == c {
        0
    } else {
        1 + index_of_char(s.drop_first(), c)
    }
}

pub proof fn lemma_index_of_char(s: Seq<char>, c: char)
    ensures
        0 <= index_of_char(s, c) <= s.len(),
        index_of_char(s, c) < s.len() ==> s[index_of_char(s, c)] == c,
        forall|k: int| 0 <= k < index_of_char(s, c) ==> s[k] != c,
    decreases s.len(),
{
    if s.len() > 0 && s[0] != c {
        lemma_index_of_char(s.drop_first(), c);
        let n = index_of_char(s.drop_first(), c);
        assert forall|k: int| 0 <= k < n + 1 implies s[k] != c by {
            if k > 0 {
                assert(s.drop_first()[k - 1] == s[k]);
            }
        }
    }
}

proof fn lemma_index_of_char_is(s: Seq<char>, c: char, n: int)
    requires
        0 <= n <= s.len(),
        n < s.len() ==> s[n] == c,
        forall|k: int| 0 <= k < n ==> s[k] != c,
    ensures
        index_of_char(s, c) == n,
{
    lemma_index_of_char(s, c);
    let m = index_of_char(s, c);
    if m < n {
        assert(s[m] != c);
    } else if m > n {
        assert(s[n] != c);
    }
}

/// The parts of a text between the occurrences of a character.
pub open spec fn split_of(s: Seq<char>, c: char) -> Seq<Seq<char>>
    decreases s.len(),
{
    let n = index_of_char(s, c);
    if 0 <= n < s.len() {
        seq![s.take(n)] + split_of(s.skip(n + 1), c)
    } else {
        seq![s]
    }
}

/// The parts of a text between the occurrences of a character (`str::split`).
pub fn split(s: &str, c: char) -> (r: Vec<String>)
    ensures
        texts(r@) == split_of(s@, c),
        r@.len() > 0,
{
    let v = chars_of(s);
    let mut r: Vec<String> = Vec::new();
    let mut start: usize = 0;
    let mut i: usize = 0;
    proof {
        assert(v@.skip(0) =~= v@);
        assert(texts(r@) + split_of(v@, c) =~= split_of(v@, c));
    }
    while i < v.len()
        invariant
            start <= i <= v@.len(),
            forall|k: int| start <= k < i ==> v@[k] != c,
            split_of(v@, c) == texts(r@) + split_of(v@.skip(start as int), c),
        decreases v.len() - i,
    {
        if v[i] == c {
            let ghost rest = v@.skip(start as int);
            let part = string_of(&v, start, i);
            let ghost before = texts(r@);
            r.push(part);
            proof {
                lemma_index_of_char_is(rest, c, i - start);
                assert(rest.take(i - start) =~= v@.subrange(start as int, i as int));
                assert(rest.skip(i - start + 1) =~= v@.skip(i + 1));
                assert(texts(r@) =~= before.push(part@));
                assert(before + (seq![part@] + split_of(v@.skip(i + 1), c)) =~= before.push(part@)
                    + split_of(v@.skip(i + 1), c));
            }
            start = i + 1;
        }
        i += 1;
    }
    let ghost rest = v@.skip(start as int);
    let part = string_of(&v, start, v.len());
    let ghost before = texts(r@);
    r.push(part);
    proof {
        lemma_index_of_char_is(rest, c, rest.len() as int);
        assert(rest =~= part@);
        assert(texts(r@) =~= before + seq![part@]);
    }
    r
}

/// The first part of a text, up to the first occurrence of a character, and
/// the parts of what follows.
pub proof fn lemma_split_head(head: Seq<char>, c: char, rest: Seq<char>)
    requires
        !head.contains(c),
    ensures
        split_of(head + seq![c] + rest, c) == seq![head] + split_of(rest, c),
{
    let s = head + seq![c] + rest;
    lemma_index_of_char_is(s, c, head.len() as int);
    assert(s.take(head.len() as int) =~= head);
    assert(s.skip(head.len() as int + 1) =~= rest);
}

/// A text without a character is a single part.
pub proof fn lemma_split_whole(s: Seq<char>, c: char)
    requires
        !s.contains(c),
    ensures
        split_of(s, c) == seq![s],
{
    lemma_index_of_char_is(s, c, s.len() as int);
}

/// A line without the carriage return that ends it.
pub open spec fn strip_cr(s: Seq<char>) -> Seq<char> {
    if s.len() > 0 && s.last() == '\r' {
        s.drop_last()
    } else {
        s
    }
}

/// The lines of a text: each ends at a line feed or at the end of the text, and
/// a carriage return before a line feed belongs to the line's end.
pub open spec fn lines_of(s: Seq<char>) -> Seq<Seq<char>>
    decreases s.len(),
{
    let n = index_of_char(s, '\n');
    if s.len() == 0 {
        seq![]
    } else if 0 <= n < s.len() {
        seq![strip_cr(s.take(n))] + lines_of(s.skip(n + 1))
    } else {
        seq![s]
    }
}

/// The lines of a text (`str::lines`).
pub fn lines(s: &str) -> (r: Vec<String>)
    ensures
        texts(r@) == lines_of(s@),
{
    let v = chars_of(s);
    let mut r: Vec<String> = Vec::new();
    let mut start: usize = 0;
    let mut i: usize = 0;
    proof {
        assert(v@.skip(0) =~= v@);
        assert(texts(r@) + lines_of(v@) =~= lines_of(v@));
    }
    while i < v.len()
        invariant
            start <= i <= v@.len(),
            forall|k: int| start <= k < i ==> v@[k] != '\n',
            lines_of(v@) == texts(r@) + lines_of(v@.skip(start as int)),
        decreases v.len() - i,
    {
        if v[i] == '\n' {
            let ghost rest = v@.skip(start as int);
            let end: usize = if i > start && v[i - 1] == '\r' {
                i - 1
            } else {
                i
            };
            let part = string_of(&v, start, end);
            let ghost before = texts(r@);
            r.push(part);
            proof {
                lemma_index_of_char_is(rest, '\n', i - start);
                assert(rest.take(i - start) =~= v@.subrange(start as int, i as int));
                assert(strip_cr(rest.take(i - start)) =~= part@);
                assert(rest.skip(i - start + 1) =~= v@.skip(i + 1));
                assert(texts(r@) =~= before.push(part@));
                assert(before + (seq![part@] + lines_of(v@.skip(i + 1))) =~= before.push(part@)
                    + lines_of(v@.skip(i + 1)));
            }
            start = i + 1;
        }
        i += 1;
    }
    let ghost rest = v@.skip(start as int);
    proof {
        lemma_index_of_char_is(rest, '\n', rest.len() as int);
    }
    if start < v.len() {
        let part = string_of(&v, start, v.len());
        let ghost before = texts(r@);
        r.push(part);
        proof {
            assert(rest =~= part@);
            assert(texts(r@) =~= before + seq![part@]);
        }
    } else {
        proof {
            assert(texts(r@) + Seq::<Seq<char>>::empty() =~= texts(r@));
        }
    }
    r
}

/// What scanning a text for words has found: the words that have ended, and
/// the characters of the word that has not.
pub open spec fn word_scan(s: Seq<char>) -> (Seq<Seq<char>>, Seq<char>)
    decreases s.len(),
{
    if s.len() == 0 {
        (seq![], seq![])
    } else {
        let (ended, word) = word_scan(s.drop_last());
        if !is_space(s.last()) {
            (ended, word.push(s.last()))
        } else if word.len() > 0 {
            (ended.push(word), seq![])
        } else {
            (ended, word)
        }
    }
}

/// Characters that are no white space go on with the word.
pub proof fn lemma_scan_word(s: Seq<char>, word: Seq<char>)
    requires
        forall|i: int| 0 <= i < word.len() ==> !is_space(#[trigger] word[i]),
    ensures
        word_scan(s + word) == (word_scan(s).0, word_scan(s).1 + word),
    decreases word.len(),
{
    if word.len() == 0 {
        assert(s + word =~= s);
        assert(word_scan(s).1 + word =~= word_scan(s).1);
    } else {
        let front = word.drop_last();
        assert forall|i: int| 0 <= i < front.len() implies !is_space(#[trigger] front[i]) by {
            assert(front[i] == word[i]);
        }
        lemma_scan_word(s, front);
        assert((s + word).drop_last() =~= s + front);
        assert((s + word).last() == word[word.len() - 1]);
        assert((word_scan(s).1 + front).push(word.last()) =~= word_scan(s).1 + word);
    }
}

/// A space ends the word.
pub proof fn lemma_scan_space(s: Seq<char>)
    requires
        word_scan(s).1.len() > 0,
    ensures
        word_scan(s + seq![' ']) == (
            word_scan(s).0.push(word_scan(s).1),
            Seq::<char>::empty(),
        ),
{
    assert((s + seq![' ']).drop_last() =~= s);
    assert((s + seq![' ']).last() == ' ');
}

/// The words that have ended stay, whatever comes behind them.
pub proof fn lemma_scan_extends(s: Seq<char>, more: Seq<char>)
    ensures
        word_scan(s).0.len() <= word_scan(s + more).0.len(),
        word_scan(s + more).0.take(word_scan(s).0.len() as int) == word_scan(s).0,
    decreases more.len(),
{
    let n = word_scan(s).0.len() as int;
    if more.len() == 0 {
        assert(s + more =~= s);
        assert(word_scan(s).0.take(n) =~= word_scan(s).0);
    } else {
        let front = more.drop_last();
        lemma_scan_extends(s, front);
        assert((s + more).drop_last() =~= s + front);
        assert(word_scan(s + more).0.take(n) =~= word_scan(s + front).0.take(n));
    }
}

/// The words of a text: its longest runs of characters that are not white space.
pub open spec fn words_of(s: Seq<char>) -> Seq<Seq<char>> {
    let (ended, word) = word_scan(s);
    if word.len() > 0 {
        ended.push(word)
    } else {
        ended
    }
}

/// The words of a text (`str::split_whitespace`).
pub fn words(s: &str) -> (r: Vec<String>)
    ensures
        texts(r@) == words_of(s@),
{
    broadcast use lemma_texts_push;

    let v = chars_of(s);
    let mut r: Vec<String> = Vec::new();
    let mut word = String::new();
    let mut any: bool = false;
    let mut i: usize = 0;
    proof {
        assert(v@.take(0) =~= seq![]);
        assert(texts(r@) =~= seq![]);
    }
    while i < v.len()
        invariant
            i <= v@.len(),
            any == (word@.len() > 0),
            word_scan(v@.take(i as int)) == (texts(r@), word@),
        decreases v.len() - i,
    {
        proof {
            lemma_texts_push(r@, word);
            assert(v@.take(i + 1).drop_last() =~= v@.take(i as int));
            assert(v@.take(i + 1).last() == v@[i as int]);
        }
        if !char_is_space(v[i]) {
            word.push(v[i]);
            any = true;
        } else if any {
            r.push(word);
            word = String::new();
            any = false;
        }
        i += 1;
    }
    proof {
        lemma_texts_push(r@, word);
        assert(v@.take(i as int) =~= s@);
    }
    if any {
        r.push(word);
    }
    r
}

/// Texts joined by a separator.
pub open spec fn join_of(parts: Seq<Seq<char>>, sep: Seq<char>) -> Seq<char>
    decreases parts.len(),
{
    if parts.len() == 0 {
        seq![]
    } else if parts.len() == 1 {
        parts[0]
    } else {
        join_of(parts.drop_last(), sep) + sep + parts.last()
    }
}

/// Texts joined by a separator (`[String]::join`).
pub fn join(parts: &[String], sep: &str) -> (r: String)
    ensures
        r@ == join_of(texts(parts@), sep@),
{
    let mut r = String::new();
    let mut i: usize = 0;
    proof {
        assert(texts(parts@).take(0) =~= seq![]);
    }
    while i < parts.len()
        invariant
            i <= parts@.len(),
            r@ == join_of(texts(parts@).take(i as int), sep@),
        decreases parts.len() - i,
    {
        if i > 0 {
            r.append(sep);
        }
        r.append(parts[i].as_str());
        proof {
            let t = texts(parts@).take(i + 1);
            assert(t.drop_last() =~= texts(parts@).take(i as int));
            assert(t.last() == parts@[i as int]@);
            assert(seq![] + parts@[i as int]@ =~= parts@[i as int]@);
        }
        i += 1;
    }
    proof {
        assert(texts(parts@).take(i as int) =~= texts(parts@));
    }
    r
}

// -------------------------------------------------------------------- numbers

/// The decimal digits.
pub open spec fn is_digit(c: char) -> bool {
    '0' <= c <= '9'
}

/// Whether a text is made of decimal digits, at least one.
pub open spec fn all_digits(s: Seq<char>) -> bool {
    s.len() > 0 && forall|i: int| 0 <= i < s.len() ==> is_digit(#[trigger] s[i])
}

/// The number that decimal digits stand for.
pub open spec fn digits_value(s: Seq<char>) -> nat
    decreases s.len(),
{
    if s.len() == 0 {
        0
    } else {
        digits_value(s.drop_last()) * 10 + ((s.last() as int - '0' as int) as nat)
    }
}

/// A number's text without the plus sign that may stand before it.
pub open spec fn without_plus(s: Seq<char>) -> Seq<char> {
    if s.len() > 0 && s[0] == '+' {
        s.drop_first()
    } else {
        s
    }
}

/// The number up to `max` that a text writes in decimal.
pub open spec fn unsigned_of(s: Seq<char>, max: nat) -> Option<nat> {
    let d = without_plus(s);
    if all_digits(d) && digits_value(d) <= max {
        Some(digits_value(d))
    } else {
        None
    }
}

proof fn lemma_digits_value_prefix(s: Seq<char>, n: int)
    requires
        all_digits(s),
        0 <= n <= s.len(),
    ensures
        digits_value(s.take(n)) <= digits_value(s),
    decreases s.len() - n,
{
    if n < s.len() {
        lemma_digits_value_prefix(s, n + 1);
        assert(s.take(n + 1).drop_last() =~= s.take(n));
        assert(is_digit(s[n]));
    } else {
        assert(s.take(n) =~= s);
    }
}

/// The number up to `max` that a text writes in decimal.
pub fn parse_unsigned(s: &str, max: u64) -> (r: Option<u64>)
    ensures
        match r {
            Some(n) => unsigned_of(s@, max as nat) == Some(n as nat),
            None => unsigned_of(s@, max as nat) is None,
        },
{
    let v = chars_of(s);
    let from: usize = if v.len() > 0 && v[0] == '+' {
        1
    } else {
        0
    };
    let ghost d = without_plus(s@);
    proof {
        assert(d =~= v@.skip(from as int));
    }
    if from == v.len() {
        return None;
    }
    let mut n: u64 = 0;
    let mut i: usize = from;
    proof {
        assert(d.take(0) =~= seq![]);
    }
    while i < v.len()
        invariant
            from <= i <= v@.len(),
            from <= 1,
            v@ == s@,
            d == without_plus(s@),
            d =~= v@.skip(from as int),
            n <= max,
            n as nat == digits_value(d.take(i - from)),
            forall|k: int| 0 <= k < i - from ==> is_digit(d[k]),
        decreases v.len() - i,
    {
        let c: char = v[i];
        proof {
            assert(d[i - from] == c);
        }
        if c < '0' || c > '9' {
            return None;
        }
        let digit: u64 = (c as u32 - '0' as u32) as u64;
        let ghost m = i - from + 1;
        proof {
            assert(d.take(m).drop_last() =~= d.take(m - 1));
            assert(digits_value(d.take(m)) == n * 10 + digit);
        }
        let wide: u128 = (n as u128) * 10 + digit as u128;
        if wide > max as u128 {
            proof {
                if all_digits(d) {
                    lemma_digits_value_prefix(d, m);
                }
            }
            return None;
        }
        n = wide as u64;
        i += 1;
    }
    proof {
        assert(d.take(i - from) =~= d);
    }
    Some(n)
}

/// The `u64` that a text writes in decimal (`str::parse::<u64>`).
pub fn parse_u64(s: &str) -> (r: Option<u64>)
    ensures
        match r {
            Some(n) => unsigned_of(s@, u64::MAX as nat) == Some(n as nat),
            None => unsigned_of(s@, u64::MAX as nat) is None,
        },
{
    parse_unsigned(s, u64::MAX)
}

/// The `u32` that a text writes in decimal (`str::parse::<u32>`).
pub fn parse_u32(s: &str) -> (r: Option<u32>)
    ensures
        match r {
            Some(n) => unsigned_of(s@, u32::MAX as nat) == Some(n as nat),
            None => unsigned_of(s@, u32::MAX as nat) is None,
        },
{
    match parse_unsigned(s, u32::MAX as u64) {
        Some(n) => Some(n as u32),
        None => None,
    }
}

/// The `usize` that a text writes in decimal (`str::parse::<usize>`).
pub fn parse_usize(s: &str) -> (r: Option<usize>)
    ensures
        match r {
            Some(n) => unsigned_of(s@, usize::MAX as nat) == Some(n as nat),
            None => unsigned_of(s@, usize::MAX as nat) is None,
        },
{
    match parse_unsigned(s, usize::MAX as u64) {
        Some(n) => Some(n as usize),
        None => None,
    }
}

/// The `i64` that a text writes in decimal, with an optional sign.
pub open spec fn signed_of(s: Seq<char>) -> Option<int> {
    if s.len() > 0 && s[0] == '-' {
        let d = s.drop_first();
        if all_digits(d) && digits_value(d) <= i64::MAX as nat + 1 {
            Some(-(digits_value(d) as int))
        } else {
            None
        }
    } else {
        match unsigned_of(s, i64::MAX as nat) {
            Some(n) => Some(n as int),
            None => None,
        }
    }
}

/// The `i64` that a text writes in decimal (`str::parse::<i64>`).
pub fn parse_i64(s: &str) -> (r: Option<i64>)
    ensures
        match r {
            Some(n) => signed_of(s@) == Some(n as int),
            None => signed_of(s@) is None,
        },
{
    let v = chars_of(s);
    if v.len() > 0 && v[0] == '-' {
        let rest = string_of(&v, 1, v.len());
        proof {
            assert(rest@ =~= s@.drop_first());
        }
        if v.len() > 1 && v[1] == '+' {
            proof {
                assert(rest@[0] == '+');
                assert(!is_digit(rest@[0]));
            }
            return None;
        }
        match parse_unsigned(rest.as_str(), 0x8000_0000_0000_0000) {
            Some(n) => {
                if n == 0x8000_0000_0000_0000 {
                    Some(i64::MIN)
                } else {
                    Some(-(n as i64))
                }
            },
            None => None,
        }
    } else {
        match parse_unsigned(s, i64::MAX as u64) {
            Some(n) => Some(n as i64),
            None => None,
        }
    }
}

/// The character of a decimal digit.
pub open spec fn digit_char(d: nat) -> char {
    ('0' as int + d) as char
}

/// The decimal digits of a number.
pub open spec fn decimal_of(n: nat) -> Seq<char>
    decreases n,
{
    if n < 10 {
        seq![digit_char(n)]
    } else {
        decimal_of(n / 10).push(digit_char(n % 10))
    }
}

/// The decimal text of a number (`u64::to_string`).
pub fn decimal(n: u64) -> (r: String)
    ensures
        r@ == decimal_of(n as nat),
    decreases n,
{
    let c: char = match n % 10 {
        0 => '0',
        1 => '1',
        2 => '2',
        3 => '3',
        4 => '4',
        5 => '5',
        6 => '6',
        7 => '7',
        8 => '8',
        _ => '9',
    };
    if n < 10 {
        let mut r = String::new();
        r.push(c);
        proof {
            assert(r@ =~= seq![digit_char(n as nat)]);
        }
        r
    } else {
        let mut r = decimal(n / 10);
        r.push(c);
        r
    }
}

/// The decimal text of a signed number.
pub open spec fn signed_decimal_of(n: int) -> Seq<char> {
    if n < 0 {
        "-"@ + decimal_of((-n) as nat)
    } else {
        decimal_of(n as nat)
    }
}

/// An integer as a decimal numeral, with a minus sign where it is negative.
pub fn signed_decimal(n: i64) -> (r: String)
    ensures
        r@ == signed_decimal_of(n as int),
{
    if n >= 0 {
        return decimal(n as u64);
    }
    let m: u64 = (-(n + 1)) as u64 + 1;
    concat("-", decimal(m).as_str())
}

/// A number's text reads back as the number.
pub proof fn law_decimal_reads_back(n: nat)
    ensures
        all_digits(decimal_of(n)),
        digits_value(decimal_of(n)) == n,
        without_plus(decimal_of(n)) == decimal_of(n),
    decreases n,
{
    let t = decimal_of(n);
    if n < 10 {
        assert(t.drop_last() =~= seq![]);
        assert(digits_value(t.drop_last()) == 0);
        assert(is_digit(t[0]));
    } else {
        law_decimal_reads_back(n / 10);
        assert(t.drop_last() =~= decimal_of(n / 10));
        assert(is_digit(t.last()));
        assert(t[0] == decimal_of(n / 10)[0]);
        assert(is_digit(decimal_of(n / 10)[0]));
        assert forall|i: int| 0 <= i < t.len() implies is_digit(#[trigger] t[i]) by {
            if i < t.len() - 1 {
                assert(t[i] == decimal_of(n / 10)[i]);
            }
        }
    }
}

// ---------------------------------------------------------------- replacements

/// A text with each `from` replaced by `to`.
pub open spec fn replaced(s: Seq<char>, from: char, to: char) -> Seq<char> {
    Seq::new(
        s.len(),
        |i: int|
            if s[i] == from {
                to
            } else {
                s[i]
            },
    )
}

/// A text with one character in place of another.
pub fn replace_char(s: &str, from: char, to: char) -> (r: String)
    ensures
        r@ == replaced(s@, from, to),
{
    let v = chars_of(s);
    let mut r = String::new();
    let mut i: usize = 0;
    while i < v.len()
        invariant
            i <= v@.len(),
            r@ == replaced(v@, from, to).take(i as int),
        decreases v.len() - i,
    {
        if v[i] == from {
            r.push(to);
        } else {
            r.push(v[i]);
        }
        proof {
            assert(r@ =~= replaced(v@, from, to).take(i + 1));
        }
        i += 1;
    }
    proof {
        assert(replaced(v@, from, to).take(i as int) =~= replaced(v@, from, to));
    }
    r
}

// ------------------------------------------------------------------ letter case

/// An ASCII letter in lower case; any other character as it is.
pub open spec fn ascii_lower(c: char) -> char {
    if 'A' <= c <= 'Z' {
        (c as int + 32) as char
    } else {
        c
    }
}

/// A text with its ASCII letters in lower case.
pub open spec fn ascii_lower_of(s: Seq<char>) -> Seq<char> {
    Seq::new(s.len(), |i: int| ascii_lower(s[i]))
}

/// What `str::to_lowercase` makes of a text.
pub uninterp spec fn lowercase_of(s: Seq<char>) -> Seq<char>;

/// `str::to_lowercase`: the text in lower case, by the rules of Unicode. An ASCII
/// text gets its ASCII letters in lower case.
#[verifier::external_body]
pub(crate) fn to_lowercase(s: &str) -> (r: String)
    ensures
        r@ == lowercase_of(s@),
        is_ascii_chars(s@) ==> r@ == ascii_lower_of(s@),
{
    s.to_lowercase()
}

fn lower_letter(c: char) -> (r: char)
    ensures
        r == ascii_lower(c),
{
    match c {
        'A' => 'a',
        'B' => 'b',
        'C' => 'c',
        'D' => 'd',
        'E' => 'e',
        'F' => 'f',
        'G' => 'g',
        'H' => 'h',
        'I' => 'i',
        'J' => 'j',
        'K' => 'k',
        'L' => 'l',
        'M' => 'm',
        'N' => 'n',
        'O' => 'o',
        'P' => 'p',
        'Q' => 'q',
        'R' => 'r',
        'S' => 's',
        'T' => 't',
        'U' => 'u',
        'V' => 'v',
        'W' => 'w',
        'X' => 'x',
        'Y' => 'y',
        'Z' => 'z',
        _ => c,
    }
}

/// Whether two texts differ at most in the case of ASCII letters
/// (`str::eq_ignore_ascii_case`).
pub fn eq_ignore_ascii_case(a: &str, b: &str) -> (r: bool)
    ensures
        r == (ascii_lower_of(a@) == ascii_lower_of(b@)),
{
    let x = chars_of(a);
    let y = chars_of(b);
    if x.len() != y.len() {
        proof {
            assert(ascii_lower_of(a@).len() != ascii_lower_of(b@).len());
        }
        return false;
    }
    let mut i: usize = 0;
    while i < x.len()
        invariant
            i <= x@.len(),
            x@.len() == y@.len(),
            x@ == a@,
            y@ == b@,
            forall|k: int| 0 <= k < i ==> ascii_lower(x@[k]) == ascii_lower(y@[k]),
        decreases x.len() - i,
    {
        if lower_letter(x[i]) != lower_letter(y[i]) {
            proof {
                assert(ascii_lower_of(a@)[i as int] != ascii_lower_of(b@)[i as int]);
            }
            return false;
        }
        i += 1;
    }
    proof {
        assert(ascii_lower_of(a@) =~= ascii_lower_of(b@));
    }
    true
}

/// The texts of a list, where there is one.
pub open spec fn opt_texts(v: Option<Vec<String>>) -> Option<Seq<Seq<char>>> {
    match v {
        Some(list) => Some(texts(list@)),
        None => None,
    }
}

/// A copy of a text, where there is one.
pub fn clone_option(v: &Option<String>) -> (r: Option<String>)
    ensures
        opt_view(r) == opt_view(*v),
{
    match v {
        Some(s) => Some(s.clone()),
        None => None,
    }
}

/// The number of bytes of a character in UTF-8.
pub open spec fn char_bytes(c: char) -> nat {
    if (c as u32) < 0x80 {
        1
    } else if (c as u32) < 0x800 {
        2
    } else if (c as u32) < 0x10000 {
        3
    } else {
        4
    }
}

/// The longest start of a text that takes no more than a number of bytes.
pub open spec fn prefix_within(s: Seq<char>, max: nat) -> Seq<char>
    decreases s.len(),
{
    if s.len() == 0 || char_bytes(s[0]) > max {
        Seq::empty()
    } else {
        seq![s[0]] + prefix_within(s.drop_first(), (max - char_bytes(s[0])) as nat)
    }
}

/// The longest start of a text that takes no more than a number of bytes.
pub fn take_bytes(s: &str, max: usize) -> (r: String)
    ensures
        r@ == prefix_within(s@, max as nat),
{
    let v = chars_of(s);
    let mut left: usize = max;
    let mut i: usize = 0;
    proof {
        assert(s@.skip(0) =~= s@);
        assert(s@.take(0) + prefix_within(s@, max as nat) =~= prefix_within(s@, max as nat));
    }
    while i < v.len()
        invariant
            i <= v@.len(),
            v@ == s@,
            s@.take(i as int) + prefix_within(s@.skip(i as int), left as nat) == prefix_within(
                s@,
                max as nat,
            ),
        decreases v.len() - i,
    {
        let c: char = v[i];
        let code: u32 = c as u32;
        let n: usize = if code < 0x80 {
            1
        } else if code < 0x800 {
            2
        } else if code < 0x10000 {
            3
        } else {
            4
        };
        if n > left {
            let r = string_of(&v, 0, i);
            proof {
                assert(prefix_within(s@.skip(i as int), left as nat) =~= Seq::empty());
                assert(r@ =~= s@.take(i as int));
                assert(s@.take(i as int) + Seq::<char>::empty() =~= s@.take(i as int));
            }
            return r;
        }
        proof {
            let rest = s@.skip(i as int);
            assert(rest.drop_first() =~= s@.skip(i + 1));
            assert(s@.take(i as int) + (seq![rest[0]] + prefix_within(
                s@.skip(i + 1),
                (left - n) as nat,
            )) =~= s@.take(i + 1) + prefix_within(s@.skip(i + 1), (left - n) as nat));
        }
        left -= n;
        i += 1;
    }
    proof {
        assert(prefix_within(s@.skip(s@.len() as int), left as nat) =~= Seq::empty());
        assert(s@.take(s@.len() as int) + Seq::<char>::empty() =~= s@);
    }
    s.to_owned()
}

/// Whether a list holds a text.
pub fn list_contains(list: &[String], s: &str) -> (r: bool)
    ensures
        r == texts(list@).contains(s@),
{
    let mut i: usize = 0;
    while i < list.len()
        invariant
            i <= list@.len(),
            forall|k: int| 0 <= k < i ==> #[trigger] texts(list@)[k] != s@,
        decreases list.len() - i,
    {
        proof {
            assert(texts(list@)[i as int] == list@[i as int]@);
        }
        if str_eq(list[i].as_str(), s) {
            return true;
        }
        i += 1;
    }
    false
}

// ------------------------------------------------------------------- repeated trimming

/// A text without what stands at its end again and again.
pub open spec fn trim_end_text_of(s: Seq<char>, p: Seq<char>) -> Seq<char>
    decreases s.len(),
{
    if p.len() > 0 && has_suffix(s, p) {
        trim_end_text_of(s.take(s.len() - p.len()), p)
    } else {
        s
    }
}

/// A text without what stands at its start again and again.
pub open spec fn trim_start_text_of(s: Seq<char>, p: Seq<char>) -> Seq<char>
    decreases s.len(),
{
    if p.len() > 0 && has_prefix(s, p) {
        trim_start_text_of(s.skip(p.len() as int), p)
    } else {
        s
    }
}

/// A text without what stands at its end again and again
/// (`str::trim_end_matches`; an empty pattern takes nothing away).
pub fn trim_end_text(s: &str, p: &str) -> (r: String)
    ensures
        r@ == trim_end_text_of(s@, p@),
{
    let mut r = s.to_owned();
    if p.is_empty() {
        return r;
    }
    loop
        invariant
            p@.len() > 0,
            trim_end_text_of(s@, p@) == trim_end_text_of(r@, p@),
        ensures
            r@ == trim_end_text_of(s@, p@),
        decreases r@.len(),
    {
        match strip_suffix(r.as_str(), p) {
            Some(shorter) => {
                r = shorter;
            },
            None => {
                break;
            },
        }
    }
    r
}

/// A text without what stands at its start again and again
/// (`str::trim_start_matches`; an empty pattern takes nothing away).
pub fn trim_start_text(s: &str, p: &str) -> (r: String)
    ensures
        r@ == trim_start_text_of(s@, p@),
{
    let mut r = s.to_owned();
    if p.is_empty() {
        return r;
    }
    loop
        invariant
            p@.len() > 0,
            trim_start_text_of(s@, p@) == trim_start_text_of(r@, p@),
        ensures
            r@ == trim_start_text_of(s@, p@),
        decreases r@.len(),
    {
        match strip_prefix(r.as_str(), p) {
            Some(shorter) => {
                r = shorter;
            },
            None => {
                break;
            },
        }
    }
    r
}

} // verus!
