//! The members of a JSON object, and the items of a JSON array, as they are written.
//!
//! A JSON value holds each key once, while a text may name one twice. What is read into a
//! record is more strict: a text that names one of the record's fields twice is refused.
//! And a record may also be written as an array, with its fields by position.

use crate::json::{
    JsonKind, i64_or_zero, json_i64, json_i64_of, json_i64_or_zero, json_items, json_items_of,
    json_kind, json_kind_of, json_object, json_object_of, json_text, json_text_of,
};
use crate::model::opt_view;
use crate::text::{chars_of, concat3, str_eq, string_of};
use vstd::prelude::*;
use vstd::string::*;

verus! {

// ------------------------------------------------------------------------------ scanning

/// A text that is read from left to right: how deep the place is, whether it is inside
/// a string and behind a backslash there, what was read since the last mark, the key
/// before the last colon, and the members that are complete.
#[verifier::ext_equal]
pub struct ScanView {
    pub depth: nat,
    pub quoted: bool,
    pub escaped: bool,
    pub current: Seq<char>,
    pub key: Seq<char>,
    pub members: Seq<(Seq<char>, Seq<char>)>,
}

/// What was read since the last mark ends a member.
pub open spec fn with_member(s: ScanView) -> ScanView {
    ScanView {
        current: Seq::empty(),
        key: Seq::empty(),
        members: s.members.push((s.key, s.current)),
        ..s
    }
}

/// One more character.
pub open spec fn scan_step(s: ScanView, c: char) -> ScanView {
    let read = ScanView { current: s.current.push(c), ..s };
    if s.quoted {
        ScanView {
            quoted: s.escaped || c != '"',
            escaped: !s.escaped && c == '\\',
            ..read
        }
    } else if c == '"' {
        ScanView { quoted: true, ..read }
    } else if c == '{' || c == '[' {
        if s.depth == 0 {
            ScanView { depth: 1, current: Seq::empty(), ..s }
        } else {
            ScanView { depth: s.depth + 1, ..read }
        }
    } else if c == '}' || c == ']' {
        if s.depth <= 1 {
            ScanView { depth: 0, ..with_member(s) }
        } else {
            ScanView { depth: (s.depth - 1) as nat, ..read }
        }
    } else if c == ',' && s.depth == 1 {
        with_member(s)
    } else if c == ':' && s.depth == 1 {
        ScanView { key: s.current, current: Seq::empty(), ..s }
    } else {
        read
    }
}

/// A text, read to its end.
pub open spec fn scan_of(text: Seq<char>) -> ScanView
    decreases text.len(),
{
    if text.len() == 0 {
        ScanView {
            depth: 0,
            quoted: false,
            escaped: false,
            current: Seq::empty(),
            key: Seq::empty(),
            members: Seq::empty(),
        }
    } else {
        scan_step(scan_of(text.drop_last()), text.last())
    }
}

/// The members of an object, each with its key and its value as they are written; the
/// items of an array, with nothing for the key.
pub open spec fn members_of(text: Seq<char>) -> Seq<(Seq<char>, Seq<char>)> {
    scan_of(text).members
}

/// The texts of a list of members.
pub open spec fn members_view(v: Seq<(String, String)>) -> Seq<(Seq<char>, Seq<char>)> {
    Seq::new(v.len(), |i: int| (v[i].0@, v[i].1@))
}

struct Scan {
    depth: usize,
    quoted: bool,
    escaped: bool,
    current: Vec<char>,
    key: Vec<char>,
    members: Vec<(String, String)>,
}

impl View for Scan {
    type V = ScanView;

    closed spec fn view(&self) -> ScanView {
        ScanView {
            depth: self.depth as nat,
            quoted: self.quoted,
            escaped: self.escaped,
            current: self.current@,
            key: self.key@,
            members: members_view(self.members@),
        }
    }
}

impl Scan {
    fn end_member(&mut self)
        ensures
            final(self)@ == with_member(old(self)@),
    {
        let ghost before = self.members@;
        let key = string_of(&self.key, 0, self.key.len());
        let value = string_of(&self.current, 0, self.current.len());
        proof {
            assert(self.key@.subrange(0, self.key@.len() as int) =~= self.key@);
            assert(self.current@.subrange(0, self.current@.len() as int) =~= self.current@);
        }
        let ghost added = (key@, value@);
        self.members.push((key, value));
        self.key = Vec::new();
        self.current = Vec::new();
        proof {
            assert(members_view(self.members@) =~= members_view(before).push(added));
        }
    }

    fn step(&mut self, c: char)
        requires
            old(self)@.depth < usize::MAX,
        ensures
            final(self)@ == scan_step(old(self)@, c),
    {
        if self.quoted {
            self.quoted = self.escaped || c != '"';
            self.escaped = !self.escaped && c == '\\';
            self.current.push(c);
        } else if c == '"' {
            self.quoted = true;
            self.current.push(c);
        } else if c == '{' || c == '[' {
            if self.depth == 0 {
                self.depth = 1;
                self.current = Vec::new();
            } else {
                self.depth = self.depth + 1;
                self.current.push(c);
            }
        } else if c == '}' || c == ']' {
            if self.depth <= 1 {
                self.end_member();
                self.depth = 0;
            } else {
                self.depth = self.depth - 1;
                self.current.push(c);
            }
        } else if c == ',' && self.depth == 1 {
            self.end_member();
        } else if c == ':' && self.depth == 1 {
            let mut read: Vec<char> = Vec::new();
            std::mem::swap(&mut read, &mut self.current);
            self.key = read;
        } else {
            self.current.push(c);
        }
    }
}

/// The members of an object, or the items of an array, as they are written.
pub fn members(text: &str) -> (r: Vec<(String, String)>)
    ensures
        members_view(r@) == members_of(text@),
{
    let v = chars_of(text);
    let mut s = Scan {
        depth: 0,
        quoted: false,
        escaped: false,
        current: Vec::new(),
        key: Vec::new(),
        members: Vec::new(),
    };
    let mut i: usize = 0;
    proof {
        assert(members_view(s.members@) =~= Seq::empty());
        assert(v@.take(0) =~= Seq::empty());
    }
    while i < v.len()
        invariant
            i <= v@.len(),
            s@ == scan_of(v@.take(i as int)),
            s@.depth <= i,
        decreases v.len() - i,
    {
        s.step(v[i]);
        proof {
            assert(v@.take(i + 1).drop_last() =~= v@.take(i as int));
        }
        i += 1;
    }
    proof {
        assert(v@.take(v@.len() as int) =~= v@);
    }
    s.members
}

// ------------------------------------------------------------------------------- fields

/// The values under a key, in their order.
pub open spec fn values_named(members: Seq<(Seq<char>, Seq<char>)>, name: Seq<char>) -> Seq<
    Seq<char>,
>
    decreases members.len(),
{
    if members.len() == 0 {
        Seq::empty()
    } else {
        let before = values_named(members.drop_last(), name);
        if json_text_of(members.last().0, ""@) == Some(name) {
            before.push(members.last().1)
        } else {
            before
        }
    }
}

/// What a record is read from: its fields by key, or, in an array, by their places.
#[verifier::ext_equal]
pub struct FieldsView {
    /// The number of items of an array.
    pub items: Option<nat>,
    pub all: Seq<(Seq<char>, Seq<char>)>,
}

/// What a record is read from in a text.
pub open spec fn fields_of(text: Seq<char>) -> FieldsView {
    FieldsView { items: json_items_of(text), all: members_of(text) }
}

/// A field as it is written, by its key or by its place in an array.
pub open spec fn field_in(f: FieldsView, name: Seq<char>, place: nat) -> Option<Seq<char>> {
    let named = values_named(f.all, name);
    match f.items {
        Some(n) => if place < n && place < f.all.len() {
            Some(f.all[place as int].1)
        } else {
            None
        },
        None => if named.len() > 0 {
            Some(named.last())
        } else {
            None
        },
    }
}

/// Whether a field is named at most once.
pub open spec fn once_in(f: FieldsView, name: Seq<char>) -> bool {
    f.items is Some || values_named(f.all, name).len() <= 1
}

/// Whether a text can be read into a record: an object, or an array with as many items
/// as the record has fields. Fields that have a value of their own may be left out at its
/// end. What is not read into a field may hold anything.
pub open spec fn is_record(text: Seq<char>, fewest: nat, most: nat) -> bool {
    json_object_of(text) || (json_items_of(text) matches Some(n) && fewest <= n <= most)
}

/// How often a key is named, and what is written under it last.
fn named_values(all: &Vec<(String, String)>, name: &str) -> (r: (usize, String))
    ensures
        r.0 == values_named(members_view(all@), name@).len(),
        r.1@ == (if r.0 > 0 {
            values_named(members_view(all@), name@).last()
        } else {
            ""@
        }),
{
    let ghost seen = members_view(all@);
    let mut count: usize = 0;
    let mut last = "".to_owned();
    let mut i: usize = 0;
    while i < all.len()
        invariant
            i <= all@.len(),
            seen == members_view(all@),
            count <= i,
            count == values_named(seen.take(i as int), name@).len(),
            last@ == (if count > 0 {
                values_named(seen.take(i as int), name@).last()
            } else {
                ""@
            }),
        decreases all.len() - i,
    {
        proof {
            assert(seen.take(i + 1).drop_last() =~= seen.take(i as int));
            assert(seen.take(i + 1).last() == (all@[i as int].0@, all@[i as int].1@));
        }
        let here = match json_text(all[i].0.as_str(), "") {
            Some(key) => str_eq(key.as_str(), name),
            None => false,
        };
        if here {
            count += 1;
            last = all[i].1.clone();
        }
        i += 1;
    }
    proof {
        assert(seen.take(seen.len() as int) =~= seen);
    }
    (count, last)
}

/// What a record is read from.
pub struct Fields {
    items: Option<usize>,
    all: Vec<(String, String)>,
}

impl View for Fields {
    type V = FieldsView;

    closed spec fn view(&self) -> FieldsView {
        FieldsView {
            items: match self.items {
                Some(n) => Some(n as nat),
                None => None,
            },
            all: members_view(self.all@),
        }
    }
}

impl Fields {
    /// What a record is read from in a text.
    pub fn new(text: &str) -> (r: Self)
        ensures
            r@ == fields_of(text@),
    {
        Fields { items: json_items(text), all: members(text) }
    }

    /// The number of items, in an array.
    pub fn items(&self) -> (r: Option<usize>)
        ensures
            match r {
                Some(n) => self@.items == Some(n as nat),
                None => self@.items is None,
            },
    {
        self.items
    }

    /// A field as it is written, by its key or by its place in an array.
    pub fn get(&self, name: &str, place: usize) -> (r: Option<String>)
        ensures
            opt_view(r) == field_in(self@, name@, place as nat),
    {
        match self.items {
            Some(n) => if place < n && place < self.all.len() {
                Some(self.all[place].1.clone())
            } else {
                None
            },
            None => {
                let (count, last) = named_values(&self.all, name);
                if count > 0 {
                    Some(last)
                } else {
                    None
                }
            },
        }
    }

    /// Whether a field is named at most once.
    pub fn once(&self, name: &str) -> (r: bool)
        ensures
            r == once_in(self@, name@),
    {
        self.items.is_some() || named_values(&self.all, name).0 <= 1
    }
}

/// Whether a text can be read into a record.
pub fn can_be_record(text: &str, fewest: usize, most: usize) -> (r: bool)
    ensures
        r == is_record(text@, fewest as nat, most as nat),
{
    if json_object(text) {
        return true;
    }
    match json_items(text) {
        Some(n) => fewest <= n && n <= most,
        None => false,
    }
}

// ------------------------------------------------------------------------------- values

/// Whether a field is missing or null.
pub open spec fn null_or_missing(field: Option<Seq<char>>) -> bool {
    field matches Some(text) ==> json_kind_of(text, ""@) == Some(JsonKind::Null)
}

/// Whether a field is missing, null or of a kind.
pub open spec fn optional(field: Option<Seq<char>>, kind: JsonKind) -> bool {
    null_or_missing(field) || json_kind_of(field->0, ""@) == Some(kind)
}

/// The string that a field is.
pub open spec fn field_text(field: Option<Seq<char>>) -> Option<Seq<char>> {
    match field {
        Some(text) => json_text_of(text, ""@),
        None => None,
    }
}

/// Whether a field is missing or an integer.
pub open spec fn count_or_missing(field: Option<Seq<char>>) -> bool {
    field matches Some(text) ==> json_i64_of(text, ""@) is Some
}

/// The integer that a field is, or zero.
pub open spec fn field_count(field: Option<Seq<char>>) -> i64 {
    match field {
        Some(text) => json_i64_or_zero(text, ""@),
        None => 0,
    }
}

/// A field as the only item of an array. It stands as deep there as in its record.
pub open spec fn alone(field: Seq<char>) -> Seq<char> {
    "["@ + field + "]"@
}

/// Whether a field is missing or any JSON value.
pub open spec fn value_or_missing(field: Option<Seq<char>>) -> bool {
    field matches Some(text) ==> json_kind_of(alone(text), "/0"@) is Some
}

/// Whether a field is missing or null.
pub fn is_null_or_missing(field: &Option<String>) -> (r: bool)
    ensures
        r == null_or_missing(opt_view(*field)),
{
    match field {
        Some(text) => match json_kind(text.as_str(), "") {
            Some(JsonKind::Null) => true,
            _ => false,
        },
        None => true,
    }
}

/// Whether a field is missing, null or of a kind.
pub fn is_optional(field: &Option<String>, kind: JsonKind) -> (r: bool)
    ensures
        r == optional(opt_view(*field), kind),
{
    match field {
        Some(text) => match json_kind(text.as_str(), "") {
            Some(k) => k == JsonKind::Null || k == kind,
            None => false,
        },
        None => true,
    }
}

/// The string that a field is.
pub fn read_text(field: &Option<String>) -> (r: Option<String>)
    ensures
        opt_view(r) == field_text(opt_view(*field)),
{
    match field {
        Some(text) => json_text(text.as_str(), ""),
        None => None,
    }
}

/// Whether a field is missing or an integer.
pub fn is_count_or_missing(field: &Option<String>) -> (r: bool)
    ensures
        r == count_or_missing(opt_view(*field)),
{
    match field {
        Some(text) => json_i64(text.as_str(), "").is_some(),
        None => true,
    }
}

/// The integer that a field is, or zero.
pub fn read_integer(field: &Option<String>) -> (r: i64)
    ensures
        r == field_count(opt_view(*field)),
{
    match field {
        Some(text) => i64_or_zero(text.as_str(), ""),
        None => 0,
    }
}

/// A field as the only item of an array.
pub fn put_alone(field: &str) -> (r: String)
    ensures
        r@ == alone(field@),
{
    concat3("[", field, "]")
}

/// Whether a field is missing or any JSON value.
pub fn is_value_or_missing(field: &Option<String>) -> (r: bool)
    ensures
        r == value_or_missing(opt_view(*field)),
{
    match field {
        Some(text) => json_kind(put_alone(text.as_str()).as_str(), "/0").is_some(),
        None => true,
    }
}

} // verus!
