//! What holds of numbers, of the order of texts, of files and of the members of JSON texts.
use vstd::prelude::*;
use vstd::utf8::{decode_utf8, valid_utf8};

use crate::file_tree::{FileNode, FileTree};
use crate::json::json_text_of;
use crate::json_members::{
    FieldsView, ScanView, field_in, members_of, once_in, scan_of, scan_step, values_named,
};
use crate::text::{
    all_digits, decimal_of, digits_value, has_prefix, has_suffix, is_digit, is_space, signed_of,
    trim_end_of, trim_end_text_of, trim_start_of, trim_start_text_of, unsigned_of,
};
use crate::text_laws::all_space;
use crate::text_order::{text_lt, with_sorted};

verus! {

// --------------------------------------------------------------------------- numbers

/// Numbers are written in decimal: the digits in their order, ten times each before the
/// next.
pub proof fn law_decimal_digits(n: nat, d: nat)
    requires
        d < 10,
        n > 0,
    ensures
        decimal_of(0) == seq!['0'],
        decimal_of(1) == seq!['1'],
        decimal_of(2) == seq!['2'],
        decimal_of(3) == seq!['3'],
        decimal_of(4) == seq!['4'],
        decimal_of(5) == seq!['5'],
        decimal_of(6) == seq!['6'],
        decimal_of(7) == seq!['7'],
        decimal_of(8) == seq!['8'],
        decimal_of(9) == seq!['9'],
        decimal_of(10 * n + d) == decimal_of(n) + decimal_of(d),
{
    assert((10 * n + d) / 10 == n);
    assert((10 * n + d) % 10 == d);
    assert(decimal_of(n) + decimal_of(d) =~= decimal_of(n).push(decimal_of(d)[0]));
}

/// Numbers are read in decimal, with a sign or without; what is too large, or is no number,
/// is not read.
pub proof fn law_read_numbers(s: Seq<char>, c: char, max: nat)
    ensures
        '0' <= c <= '9' ==> digits_value(s.push(c)) == 10 * digits_value(s) + (c as int - '0' as int),
        digits_value(Seq::empty()) == 0,
        all_digits(s) && digits_value(s) <= max ==> unsigned_of(s, max) == Some(digits_value(s)) && unsigned_of(seq!['+'] + s, max) == Some(digits_value(s)),
        all_digits(s) && digits_value(s) > max ==> unsigned_of(s, max) is None,
        s.len() > 0 && s[0] != '+' && !all_digits(s) ==> unsigned_of(s, max) is None,
        unsigned_of(Seq::empty(), max) is None,
        all_digits(s) && digits_value(s) <= 9223372036854775807 ==> signed_of(s) == Some(digits_value(s) as int) && signed_of(seq!['-'] + s) == Some(-(digits_value(s) as int)),
        all_digits(s) && digits_value(s) > 9223372036854775808 ==> signed_of(s) is None && signed_of(seq!['-'] + s) is None,
{
    assert(s.push(c).drop_last() =~= s);
    assert((seq!['+'] + s).drop_first() =~= s);
    assert((seq!['-'] + s).drop_first() =~= s);
    if s.len() > 0 && all_digits(s) {
        assert(is_digit(s[0]));
    }
}

/// Whether a character is blank.
pub proof fn law_blanks(c: char)
    ensures
        is_space(' ') && is_space('\t') && is_space('\n') && is_space('\r'),
        '!' <= c <= '~' ==> !is_space(c),
{
}

// --------------------------------------------------------------------------- the ends of texts

/// The blanks at the start, or at the end, are taken off; what stands between stays.
pub proof fn law_halves_of_trimming(lead: Seq<char>, t: Seq<char>)
    requires
        all_space(lead),
    ensures
        t.len() == 0 || !is_space(t[0]) ==> trim_start_of(lead + t) == t,
        t.len() == 0 || !is_space(t.last()) ==> trim_end_of(t + lead) == t,
    decreases lead.len(),
{
    if lead.len() > 0 {
        let s = lead + t;
        assert(s[0] == lead[0]);
        assert(is_space(lead[0]));
        assert(s.drop_first() =~= lead.drop_first() + t);
        assert forall|i: int| 0 <= i < lead.drop_first().len() implies is_space(#[trigger] lead.drop_first()[i]) by {
            assert(lead.drop_first()[i] == lead[i + 1]);
        }
        law_halves_of_trimming(lead.drop_first(), t);
        let r = t + lead;
        assert(r.last() == lead.last());
        assert(is_space(lead[lead.len() - 1]));
        assert(r.drop_last() =~= t + lead.drop_last());
        assert forall|i: int| 0 <= i < lead.drop_last().len() implies is_space(#[trigger] lead.drop_last()[i]) by {
            assert(lead.drop_last()[i] == lead[i]);
        }
        law_halves_of_trimming(lead.drop_last(), t);
    } else {
        assert(lead + t =~= t);
        assert(t + lead =~= t);
    }
}

/// A text that stands at an end is taken off as often as it stands there.
pub proof fn law_trimmed_texts(s: Seq<char>, p: Seq<char>)
    requires
        p.len() > 0,
    ensures
        trim_end_text_of(s + p, p) == trim_end_text_of(s, p),
        !has_suffix(s, p) ==> trim_end_text_of(s, p) == s,
        trim_start_text_of(p + s, p) == trim_start_text_of(s, p),
        !has_prefix(s, p) ==> trim_start_text_of(s, p) == s,
{
    let a = s + p;
    assert(a.skip(a.len() - p.len()) =~= p);
    assert(a.take(a.len() - p.len()) =~= s);
    let b = p + s;
    assert(b.take(p.len() as int) =~= p);
    assert(b.skip(p.len() as int) =~= s);
}

// --------------------------------------------------------------------------- the order of texts

/// Texts are ordered by the first character in which they differ; a text goes before those
/// that go on from it.
pub proof fn law_order_of_texts(p: Seq<char>, a: char, b: char, x: Seq<char>, y: Seq<char>)
    ensures
        a != b ==> (text_lt(p + seq![a] + x, p + seq![b] + y) <==> a < b),
        text_lt(p, p + seq![a] + x),
        !text_lt(p + seq![a] + x, p),
        !text_lt(p, p),
    decreases p.len(),
{
    let l = p + seq![a] + x;
    let r = p + seq![b] + y;
    if p.len() > 0 {
        let q = p.drop_first();
        assert(l.drop_first() =~= q + seq![a] + x);
        assert(r.drop_first() =~= q + seq![b] + y);
        assert(l[0] == p[0] && r[0] == p[0]);
        law_order_of_texts(q, a, b, x, y);
    } else {
        assert(l[0] == a && r[0] == b);
    }
}

/// A text is put into its place among sorted ones.
pub proof fn law_place_in_the_order(s: Seq<Seq<char>>, last: Seq<char>, x: Seq<char>)
    ensures
        with_sorted(Seq::empty(), x) == seq![x],
        with_sorted(s.push(x), x) == s.push(x),
        last != x && text_lt(last, x) ==> with_sorted(s.push(last), x) == s.push(last).push(x),
        last != x && !text_lt(last, x) ==> with_sorted(s.push(last), x) == with_sorted(s, x).push(last),
{
    assert(s.push(last).drop_last() =~= s);
}

// --------------------------------------------------------------------------- files

/// What stands at a path: the bytes of a file, and its text where it holds one.
pub proof fn law_files(t: FileTree, path: Seq<char>, bytes: Vec<u8>)
    ensures
        t.nodes@.dom().contains(path) && t.nodes@[path] == FileNode::File(bytes) ==> t.is_file_at(path) && !t.is_dir_at(path) && t.bytes_at(path) == Some(bytes@) && t.size_at(path) == Some(bytes@.len()) && t.failure_at(path) is None,
        t.nodes@.dom().contains(path) && t.nodes@[path] == FileNode::File(bytes) && valid_utf8(bytes@) ==> t.text_at(path) == Some(decode_utf8(bytes@)),
        t.nodes@.dom().contains(path) && t.nodes@[path] == FileNode::File(bytes) && !valid_utf8(bytes@) ==> t.text_at(path) is None,
        t.nodes@.dom().contains(path) && t.nodes@[path] == FileNode::Directory ==> t.is_dir_at(path) && !t.is_file_at(path) && t.bytes_at(path) is None && t.text_at(path) is None,
        !t.nodes@.dom().contains(path) ==> !t.is_dir_at(path) && !t.is_file_at(path) && t.bytes_at(path) is None && t.text_at(path) is None,
{
}

/// Why a path cannot be read: as the system said, or as it says of such paths.
pub proof fn law_causes(t: FileTree, path: Seq<char>)
    ensures
        t.causes@.dom().contains(path) ==> t.cause_at(path) == t.causes@[path]@,
        !t.causes@.dom().contains(path) && t.is_file_at(path) ==> t.cause_at(path) == "stream did not contain valid UTF-8"@,
        !t.causes@.dom().contains(path) && t.is_dir_at(path) ==> t.cause_at(path) == "Is a directory (os error 21)"@,
        !t.causes@.dom().contains(path) && !t.is_file_at(path) && !t.is_dir_at(path) ==> t.cause_at(path) == "No such file or directory (os error 2)"@ && t.failure_at(path) is None,
        t.is_dir_at(path) ==> t.failure_at(path) == Some(t.cause_at(path)),
        !t.is_file_at(path) && t.causes@.dom().contains(path) ==> t.failure_at(path) == Some(t.cause_at(path)),
{
}

/// The size of a path: that of its bytes, else the one that the system gave; a directory
/// has none of its own, and what is not there has no size.
pub proof fn law_sizes(t: FileTree, path: Seq<char>)
    ensures
        t.bytes_at(path) is None && t.sizes@.dom().contains(path) ==> t.size_at(path) == Some(t.sizes@[path] as nat),
        t.bytes_at(path) is None && !t.sizes@.dom().contains(path) && t.is_dir_at(path) ==> t.size_at(path) == Some(0nat),
        t.bytes_at(path) is None && !t.sizes@.dom().contains(path) && !t.is_dir_at(path) ==> t.size_at(path) is None,
        t.size_at(path) is Some ==> t.size_failure_at(path) is None,
        t.size_at(path) is None && t.causes@.dom().contains(path) ==> t.size_failure_at(path) == Some(t.causes@[path]@),
        t.size_at(path) is None && !t.causes@.dom().contains(path) ==> t.size_failure_at(path) is None,
{
}

// --------------------------------------------------------------------------- members of JSON texts

/// Whether a text holds none of the signs that JSON is built with.
pub open spec fn is_simple(s: Seq<char>) -> bool {
    forall|i: int| 0 <= i < s.len() ==> {
        let c = #[trigger] s[i];
        c != '"' && c != '\\' && c != '{' && c != '}' && c != '[' && c != ']' && c != ',' && c != ':'
    }
}

proof fn lemma_scan_char(t: Seq<char>, c: char)
    ensures
        scan_of(t + seq![c]) == scan_step(scan_of(t), c),
{
    assert((t + seq![c]).drop_last() =~= t);
}

proof fn lemma_scan_simple(t: Seq<char>, s: Seq<char>)
    requires
        is_simple(s),
        !scan_of(t).escaped,
    ensures
        scan_of(t + s) == (ScanView { current: scan_of(t).current + s, ..scan_of(t) }),
    decreases s.len(),
{
    if s.len() > 0 {
        let front = s.drop_last();
        assert forall|i: int| 0 <= i < front.len() implies ({
            let c = #[trigger] front[i];
            c != '"' && c != '\\' && c != '{' && c != '}' && c != '[' && c != ']' && c != ',' && c != ':'
        }) by {
            assert(front[i] == s[i]);
        }
        lemma_scan_simple(t, front);
        assert(t + s =~= (t + front) + seq![s.last()]);
        lemma_scan_char(t + front, s.last());
        assert(s[s.len() - 1] == s.last());
        assert((scan_of(t).current + front).push(s.last()) =~= scan_of(t).current + s);
    } else {
        assert(t + s =~= t);
        assert(scan_of(t).current + s =~= scan_of(t).current);
    }
}

proof fn lemma_scan_quoted(t: Seq<char>, s: Seq<char>)
    requires
        is_simple(s),
        !scan_of(t).escaped,
        !scan_of(t).quoted,
    ensures
        scan_of(t + (seq!['"'] + s + seq!['"'])) == (ScanView { current: scan_of(t).current + (seq!['"'] + s + seq!['"']), ..scan_of(t) }),
{
    lemma_scan_char(t, '"');
    lemma_scan_simple(t + seq!['"'], s);
    lemma_scan_char(t + seq!['"'] + s, '"');
    assert(t + (seq!['"'] + s + seq!['"']) =~= t + seq!['"'] + s + seq!['"']);
    assert((scan_of(t).current.push('"') + s).push('"') =~= scan_of(t).current + (seq!['"'] + s + seq!['"']));
}

/// An object of one member, and one of two: each member is its quoted key and what is
/// written behind the colon. An array has items without keys.
pub proof fn law_members(k: Seq<char>, v: Seq<char>, l: Seq<char>, w: Seq<char>)
    requires
        is_simple(k),
        is_simple(v),
        is_simple(l),
        is_simple(w),
    ensures
        ({
            let a = seq!['"'] + k + seq!['"'];
            let b = seq!['"'] + l + seq!['"'];
            let none = Seq::<char>::empty();
            &&& members_of(seq!['{'] + a + seq![':'] + v + seq!['}']) == seq![(a, v)]
            &&& members_of(seq!['{'] + a + seq![':'] + v + seq![','] + b + seq![':'] + w + seq!['}']) == seq![(a, v), (b, w)]
            &&& members_of(seq!['['] + v + seq![','] + w + seq![']']) == seq![(none, v), (none, w)]
        }),
{
    let a = seq!['"'] + k + seq!['"'];
    let b = seq!['"'] + l + seq!['"'];
    let none = Seq::<char>::empty();
    let members = Seq::<(Seq<char>, Seq<char>)>::empty();
    lemma_scan_char(none, '{');
    assert(none + seq!['{'] =~= seq!['{']);
    let o = seq!['{'];
    assert(scan_of(o) == (ScanView { depth: 1, quoted: false, escaped: false, current: none, key: none, members }));
    lemma_scan_quoted(o, k);
    assert(none + a =~= a);
    let s1 = o + a;
    assert(scan_of(s1) == (ScanView { depth: 1, quoted: false, escaped: false, current: a, key: none, members }));
    lemma_scan_char(s1, ':');
    let s2 = s1 + seq![':'];
    lemma_scan_simple(s2, v);
    let s3 = s2 + v;
    assert(none + v =~= v);
    assert(scan_of(s3) == (ScanView { depth: 1, quoted: false, escaped: false, current: v, key: a, members }));
    lemma_scan_char(s3, '}');
    assert(members.push((a, v)) =~= seq![(a, v)]);
    lemma_scan_char(s3, ',');
    let s4 = s3 + seq![','];
    assert(scan_of(s4) == (ScanView { depth: 1, quoted: false, escaped: false, current: none, key: none, members: seq![(a, v)] }));
    lemma_scan_quoted(s4, l);
    assert(none + b =~= b);
    let s5 = s4 + b;
    lemma_scan_char(s5, ':');
    let s6 = s5 + seq![':'];
    lemma_scan_simple(s6, w);
    assert(none + w =~= w);
    let s7 = s6 + w;
    lemma_scan_char(s7, '}');
    assert(seq![(a, v)].push((b, w)) =~= seq![(a, v), (b, w)]);
    lemma_scan_char(none, '[');
    assert(none + seq!['['] =~= seq!['[']);
    let p = seq!['['];
    lemma_scan_simple(p, v);
    let q = p + v;
    lemma_scan_char(q, ',');
    lemma_scan_simple(q + seq![','], w);
    lemma_scan_char(q + seq![','] + w, ']');
    assert(members.push((none, v)).push((none, w)) =~= seq![(none, v), (none, w)]);
}

/// Signs within quotes, and within an inner value, belong to what is written there.
pub proof fn law_inner_values(s: ScanView, c: char)
    ensures
        s.quoted && !s.escaped && c != '"' ==> scan_step(s, c).members == s.members && scan_step(s, c).current == s.current.push(c) && scan_step(s, c).quoted,
        s.quoted && s.escaped ==> scan_step(s, c).quoted && !scan_step(s, c).escaped,
        s.quoted && !s.escaped ==> scan_step(s, c).escaped == (c == '\\'),
        !s.quoted && s.depth > 1 && (c == ',' || c == ':') ==> scan_step(s, c) == (ScanView { current: s.current.push(c), ..s }),
        !s.quoted && s.depth > 0 && (c == '{' || c == '[') ==> scan_step(s, c) == (ScanView { depth: s.depth + 1, current: s.current.push(c), ..s }),
        !s.quoted && s.depth > 1 && (c == '}' || c == ']') ==> scan_step(s, c) == (ScanView { depth: (s.depth - 1) as nat, current: s.current.push(c), ..s }),
{
}

/// The values under a key, in their order; the last counts. The fields of an array are
/// known by their places.
pub proof fn law_fields(all: Seq<(Seq<char>, Seq<char>)>, key: Seq<char>, value: Seq<char>, name: Seq<char>, place: nat, n: nat)
    ensures
        values_named(Seq::empty(), name) == Seq::<Seq<char>>::empty(),
        json_text_of(key, ""@) == Some(name) ==> values_named(all.push((key, value)), name) == values_named(all, name).push(value) && field_in(FieldsView { items: None, all: all.push((key, value)) }, name, place) == Some(value),
        json_text_of(key, ""@) != Some(name) ==> values_named(all.push((key, value)), name) == values_named(all, name) && field_in(FieldsView { items: None, all: all.push((key, value)) }, name, place) == field_in(FieldsView { items: None, all }, name, place),
        field_in(FieldsView { items: None, all: Seq::empty() }, name, place) is None,
        place < n && place < all.len() ==> field_in(FieldsView { items: Some(n), all }, name, place) == Some(all[place as int].1),
        place >= n || place >= all.len() ==> field_in(FieldsView { items: Some(n), all }, name, place) is None,
        once_in(FieldsView { items: Some(n), all }, name),
        once_in(FieldsView { items: None, all }, name) <==> values_named(all, name).len() <= 1,
{
    assert(all.push((key, value)).drop_last() =~= all);
}

} // verus!
