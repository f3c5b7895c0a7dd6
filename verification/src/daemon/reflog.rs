//! Reading reflogs as bytes, with the offset at which each record ends.

use crate::file_tree::{lossy_text, utf8_lossy};
use crate::git::repo_state::{is_hex, is_oid, is_valid_git_oid};
use crate::model::{lemma_views_push, opt_view, views};
use crate::text::{
    chars_of, find_from, is_space, lemma_scan_extends, lemma_scan_space, lemma_scan_word,
    split_once, split_once_of, string_of, texts, trim, trimmed, word_scan, words, words_of,
};
use vstd::prelude::*;
use vstd::string::*;

verus! {

/// One move that a reflog records, and the offset behind its line.
pub struct ReflogRecord {
    pub old: String,
    pub new: String,
    pub message: String,
    pub end_offset: u64,
}

/// The texts and the offset of a record.
pub struct RecordView {
    pub old: Seq<char>,
    pub new: Seq<char>,
    pub message: Seq<char>,
    pub end_offset: int,
}

impl View for ReflogRecord {
    type V = RecordView;

    open spec fn view(&self) -> RecordView {
        RecordView {
            old: self.old@,
            new: self.new@,
            message: self.message@,
            end_offset: self.end_offset as int,
        }
    }
}

/// The record of a reflog line that ends at an offset: two object ids, then, behind
/// the first tab, a message.
pub open spec fn record_of(line: Seq<char>, end_offset: int) -> Option<RecordView> {
    let (head, message) = match split_once_of(line, "\t"@) {
        Some((head, message)) => (head, message),
        None => (line, ""@),
    };
    let parts = words_of(head);
    if parts.len() >= 2 && is_oid(trimmed(parts[0])) && is_oid(trimmed(parts[1])) {
        Some(
            RecordView { old: trimmed(parts[0]), new: trimmed(parts[1]), message, end_offset },
        )
    } else {
        None
    }
}

/// The record of a reflog line that ends at an offset.
pub fn parse_reflog_line(line: &str, end_offset: u64) -> (r: Option<ReflogRecord>)
    ensures
        opt_view(r) == record_of(line@, end_offset as int),
{
    let (head, message) = match split_once(line, "\t") {
        Some((head, message)) => (head, message),
        None => (line.to_owned(), "".to_owned()),
    };
    let parts = words(head.as_str());
    if parts.len() < 2 {
        return None;
    }
    proof {
        assert(texts(parts@)[0] == parts@[0]@);
        assert(texts(parts@)[1] == parts@[1]@);
    }
    let old = trim(parts[0].as_str());
    let new = trim(parts[1].as_str());
    if is_valid_git_oid(old.as_str()) && is_valid_git_oid(new.as_str()) {
        Some(ReflogRecord { old, new, message, end_offset })
    } else {
        None
    }
}

proof fn lemma_first_tab(s: Seq<char>, at: int, i: int)
    requires
        0 <= i <= at < s.len(),
        s[at] == '\t',
        forall|k: int| 0 <= k < at ==> #[trigger] s[k] != '\t',
    ensures
        find_from(s, "\t"@, i) == Some(at),
    decreases at - i,
{
    reveal_strlit("\t");
    assert("\t"@ =~= seq!['\t']);
    if i < at {
        assert(s.subrange(i, i + 1)[0] == s[i]);
        assert(s[i] != '\t');
        lemma_first_tab(s, at, i + 1);
    } else {
        assert(s.subrange(i, i + 1) =~= "\t"@);
    }
}

proof fn lemma_oid_is_a_word(oid: Seq<char>)
    requires
        is_oid(oid),
    ensures
        oid.len() > 0,
        forall|i: int| 0 <= i < oid.len() ==> !is_space(#[trigger] oid[i]) && oid[i] != '\t',
        trimmed(oid) == oid,
{
    assert forall|i: int| 0 <= i < oid.len() implies !is_space(#[trigger] oid[i]) && oid[i]
        != '\t' by {
        assert(is_hex(oid[i]));
    }
    assert(!is_space(oid[0]));
    assert(!is_space(oid[oid.len() - 1]));
}

/// A record reads back from its line: the two ids, whoever made the move, and the
/// message behind the tab.
pub proof fn law_record_reads_back(
    old_oid: Seq<char>,
    new_oid: Seq<char>,
    who: Seq<char>,
    message: Seq<char>,
    end_offset: int,
)
    requires
        is_oid(old_oid),
        is_oid(new_oid),
        !who.contains('\t'),
    ensures
        record_of(
            old_oid + seq![' '] + new_oid + seq![' '] + who + seq!['\t'] + message,
            end_offset,
        ) == Some(RecordView { old: old_oid, new: new_oid, message, end_offset }),
{
    let ids = old_oid + seq![' '] + new_oid + seq![' '];
    let head = ids + who;
    let line = head + seq!['\t'] + message;
    lemma_oid_is_a_word(old_oid);
    lemma_oid_is_a_word(new_oid);
    reveal_strlit("\t");
    assert forall|k: int| 0 <= k < head.len() implies #[trigger] line[k] != '\t' by {
        let n = old_oid.len();
        let m = new_oid.len();
        if k < n {
            assert(line[k] == old_oid[k]);
        } else if n < k < n + 1 + m {
            assert(line[k] == new_oid[k - n - 1]);
        } else if k > n + 1 + m {
            assert(line[k] == who[k - n - m - 2]);
            assert(who.contains(who[k - n - m - 2]));
        }
    }
    lemma_first_tab(line, head.len() as int, 0);
    assert(line.take(head.len() as int) =~= head);
    assert(line.skip(head.len() as int + 1) =~= message);
    let none = Seq::<char>::empty();
    lemma_scan_word(none, old_oid);
    assert(none + old_oid =~= old_oid);
    lemma_scan_space(old_oid);
    lemma_scan_word(old_oid + seq![' '], new_oid);
    assert(none + new_oid =~= new_oid);
    lemma_scan_space(old_oid + seq![' '] + new_oid);
    lemma_scan_extends(ids, who);
    let ended = word_scan(ids).0;
    assert(ended =~= seq![old_oid, new_oid]);
    let found = word_scan(head).0;
    assert(found.take(2)[0] == found[0]);
    assert(found.take(2)[1] == found[1]);
    assert(words_of(head)[0] == old_oid);
    assert(words_of(head)[1] == new_oid);
}

/// A text without the line ends at its end.
pub open spec fn without_line_ends(s: Seq<char>) -> Seq<char>
    decreases s.len(),
{
    if s.len() > 0 && (s.last() == '\r' || s.last() == '\n') {
        without_line_ends(s.drop_last())
    } else {
        s
    }
}

fn strip_line_ends(s: &str) -> (r: String)
    ensures
        r@ == without_line_ends(s@),
{
    let v = chars_of(s);
    let mut n: usize = v.len();
    proof {
        assert(v@.take(n as int) =~= v@);
    }
    while n > 0 && (v[n - 1] == '\r' || v[n - 1] == '\n')
        invariant
            n <= v@.len(),
            without_line_ends(v@) == without_line_ends(v@.take(n as int)),
        decreases n,
    {
        proof {
            assert(v@.take(n as int).drop_last() =~= v@.take(n - 1));
        }
        n -= 1;
    }
    proof {
        assert(v@.take(n as int) =~= v@.subrange(0, n as int));
    }
    string_of(&v, 0, n)
}

/// The offset behind the line that starts at `at`.
pub open spec fn line_end(b: Seq<u8>, at: int) -> int
    decreases b.len() - at,
{
    if !(0 <= at < b.len()) {
        at
    } else if b[at] == 10 {
        at + 1
    } else {
        line_end(b, at + 1)
    }
}

proof fn lemma_line_end(b: Seq<u8>, at: int)
    requires
        0 <= at < b.len(),
    ensures
        at < line_end(b, at) <= b.len(),
    decreases b.len() - at,
{
    if b[at] != 10 && at + 1 < b.len() {
        lemma_line_end(b, at + 1);
    } else if b[at] != 10 {
        assert(line_end(b, at + 1) == at + 1);
    }
}

/// The records of the lines from `at` on that end behind `start`.
pub open spec fn records_from(b: Seq<u8>, at: int, start: int) -> Seq<RecordView>
    decreases b.len() - at,
{
    if !(0 <= at < b.len()) || line_end(b, at) <= at || line_end(b, at) > b.len() {
        seq![]
    } else {
        let end = line_end(b, at);
        let rest = records_from(b, end, start);
        if end <= start {
            rest
        } else {
            match record_of(without_line_ends(utf8_lossy(b.subrange(at, end))), end) {
                Some(r) => seq![r] + rest,
                None => rest,
            }
        }
    }
}

/// Where reading starts: at the offset, or at the start of a log that has become
/// shorter than the offset.
pub open spec fn start_of(b: Seq<u8>, offset: Option<u64>) -> int {
    match offset {
        Some(o) => if o > b.len() {
            0
        } else {
            o as int
        },
        None => 0,
    }
}

/// The records of a log behind an offset.
pub open spec fn records_of(b: Seq<u8>, offset: Option<u64>) -> Seq<RecordView> {
    records_from(b, 0, start_of(b, offset))
}

/// The records of a log behind an offset.
pub fn read_reflog_records(bytes: &[u8], start_offset: Option<u64>) -> (r: Vec<ReflogRecord>)
    ensures
        views(r@) == records_of(bytes@, start_offset),
{
    let len: u64 = bytes.len() as u64;
    let start: u64 = match start_offset {
        Some(offset) => if offset > len {
            0
        } else {
            offset
        },
        None => 0,
    };
    let mut out: Vec<ReflogRecord> = Vec::new();
    let mut at: usize = 0;
    proof {
        assert(views(out@) =~= seq![]);
        assert(views(out@) + records_from(bytes@, 0, start as int) =~= records_from(
            bytes@,
            0,
            start as int,
        ));
    }
    while at < bytes.len()
        invariant
            at <= bytes@.len(),
            records_from(bytes@, 0, start as int) == views(out@) + records_from(
                bytes@,
                at as int,
                start as int,
            ),
        decreases bytes.len() - at,
    {
        let mut end: usize = at;
        let mut open = true;
        while open
            invariant
                at <= end <= bytes@.len(),
                at < bytes@.len(),
                open ==> line_end(bytes@, at as int) == line_end(bytes@, end as int),
                open ==> end < bytes@.len(),
                !open ==> end == line_end(bytes@, at as int),
            decreases bytes@.len() - end + (if open {
                1int
            } else {
                0int
            }),
        {
            if bytes[end] == 10 {
                open = false;
            } else if end + 1 == bytes.len() {
                open = false;
                proof {
                    assert(line_end(bytes@, end + 1) == end + 1);
                }
            }
            end += 1;
        }
        proof {
            lemma_line_end(bytes@, at as int);
        }
        let end_offset: u64 = end as u64;
        let ghost rest = records_from(bytes@, end as int, start as int);
        if end_offset > start {
            let raw: &[u8] = vstd::slice::slice_subrange(bytes, at, end);
            let text = lossy_text(raw);
            let line = strip_line_ends(text.as_str());
            if let Some(record) = parse_reflog_line(line.as_str(), end_offset) {
                proof {
                    lemma_views_push(out@, record);
                    assert(views(out@) + (seq![record@] + rest) =~= views(out@).push(record@)
                        + rest);
                }
                out.push(record);
            }
        }
        at = end;
    }
    proof {
        assert(views(out@) + Seq::<RecordView>::empty() =~= views(out@));
    }
    out
}

/// Every record that is read ends behind the offset and within the log.
pub proof fn lemma_records_behind_offset(b: Seq<u8>, at: int, start: int)
    requires
        0 <= at,
        0 <= start,
    ensures
        forall|i: int|
            0 <= i < records_from(b, at, start).len() ==> start < (#[trigger] records_from(
                b,
                at,
                start,
            )[i]).end_offset <= b.len(),
    decreases b.len() - at,
{
    if at < b.len() && at < line_end(b, at) <= b.len() {
        let end = line_end(b, at);
        lemma_records_behind_offset(b, end, start);
        let rest = records_from(b, end, start);
        let all = records_from(b, at, start);
        if end > start {
            if let Some(r) = record_of(without_line_ends(utf8_lossy(b.subrange(at, end))), end) {
                assert forall|i: int| 0 <= i < all.len() implies start < (
                #[trigger] all[i]).end_offset <= b.len() by {
                    if i > 0 {
                        assert(all[i] == rest[i - 1]);
                    }
                }
            }
        }
    }
}

/// Where reading starts makes no difference to the lines behind it.
proof fn lemma_start_behind(b: Seq<u8>, at: int, start: int)
    requires
        0 <= start <= at,
    ensures
        records_from(b, at, start) == records_from(b, at, 0),
    decreases b.len() - at,
{
    if at < b.len() && at < line_end(b, at) <= b.len() {
        lemma_start_behind(b, line_end(b, at), start);
    }
}

proof fn lemma_rest_of_records(b: Seq<u8>, at: int, k: int)
    requires
        0 <= at,
        0 <= k < records_from(b, at, 0).len(),
    ensures
        records_from(b, at, records_from(b, at, 0)[k].end_offset) == records_from(b, at, 0).skip(
            k + 1,
        ),
    decreases b.len() - at,
{
    let all = records_from(b, at, 0);
    let end = line_end(b, at);
    let rest = records_from(b, end, 0);
    let start = all[k].end_offset;
    lemma_records_behind_offset(b, end, 0);
    match record_of(without_line_ends(utf8_lossy(b.subrange(at, end))), end) {
        Some(r) => {
            assert(all =~= seq![r] + rest);
            if k == 0 {
                lemma_start_behind(b, end, end);
                assert(all.skip(1) =~= rest);
            } else {
                assert(all[k] == rest[k - 1]);
                lemma_start_behind(b, end, end);
                lemma_records_behind_offset(b, end, end);
                assert(rest[k - 1].end_offset > end);
                lemma_rest_of_records(b, end, k - 1);
                assert(all.skip(k + 1) =~= rest.skip(k));
            }
        },
        None => {
            lemma_start_behind(b, end, end);
            lemma_records_behind_offset(b, end, end);
            assert(rest[k].end_offset > end);
            lemma_rest_of_records(b, end, k);
        },
    }
}

/// Reading resumes where it stopped: behind the offset of a record stand the records
/// that come after it, and no others.
pub proof fn law_reading_resumes(b: Seq<u8>, k: int)
    requires
        b.len() <= u64::MAX,
        0 <= k < records_of(b, None).len(),
    ensures
        records_of(b, Some(records_of(b, None)[k].end_offset as u64)) == records_of(b, None).skip(
            k + 1,
        ),
{
    lemma_records_behind_offset(b, 0, 0);
    lemma_rest_of_records(b, 0, k);
}

proof fn lemma_line_end_kept(b: Seq<u8>, more: Seq<u8>, at: int)
    requires
        0 <= at < b.len(),
        b.last() == 10,
    ensures
        line_end(b + more, at) == line_end(b, at),
    decreases b.len() - at,
{
    assert((b + more)[at] == b[at]);
    if b[at] != 10 {
        assert(at != b.len() - 1);
        lemma_line_end_kept(b, more, at + 1);
    }
}

proof fn lemma_appended(b: Seq<u8>, more: Seq<u8>, at: int)
    requires
        0 <= at <= b.len(),
        b.len() == 0 || b.last() == 10,
    ensures
        records_from(b + more, at, 0) == records_from(b, at, 0) + records_from(
            b + more,
            b.len() as int,
            0,
        ),
        records_from(b + more, at, b.len() as int) == records_from(b + more, b.len() as int, 0),
    decreases b.len() - at,
{
    let all = b + more;
    let n = b.len() as int;
    let new = records_from(all, n, 0);
    if at == n {
        lemma_start_behind(all, n, n);
        assert(Seq::<RecordView>::empty() + new =~= new);
    } else {
        lemma_line_end(b, at);
        lemma_line_end_kept(b, more, at);
        let end = line_end(b, at);
        lemma_appended(b, more, end);
        assert(all.subrange(at, end) =~= b.subrange(at, end));
        let rest = records_from(b, end, 0);
        if let Some(r) = record_of(without_line_ends(utf8_lossy(b.subrange(at, end))), end) {
            assert(seq![r] + (rest + new) =~= (seq![r] + rest) + new);
        }
    }
}

/// What is appended to a log changes nothing of what stands in it: the records that were
/// there come first, and reading from the old end gives those that were added.
pub proof fn law_appending_keeps_records(b: Seq<u8>, more: Seq<u8>)
    requires
        b.len() <= u64::MAX,
        b.len() == 0 || b.last() == 10,
    ensures
        records_of(b + more, None) == records_of(b, None) + records_of(
            b + more,
            Some(b.len() as u64),
        ),
{
    lemma_appended(b, more, 0);
}

proof fn lemma_one_line(b: Seq<u8>, at: int)
    requires
        0 <= at < b.len(),
        b.last() == 10,
        forall|i: int| at <= i < b.len() - 1 ==> #[trigger] b[i] != 10,
    ensures
        line_end(b, at) == b.len(),
    decreases b.len() - at,
{
    if at < b.len() - 1 {
        assert(b[at] != 10);
        lemma_one_line(b, at + 1);
    }
}

/// The record that a command writes as the one line behind the end of a log is what is
/// read from that end on: the two ids and the message.
pub proof fn law_written_line_is_read(
    b: Seq<u8>,
    line: Seq<u8>,
    old_oid: Seq<char>,
    new_oid: Seq<char>,
    who: Seq<char>,
    message: Seq<char>,
)
    requires
        b.len() + line.len() <= u64::MAX,
        b.len() == 0 || b.last() == 10,
        line.len() > 0,
        line.last() == 10,
        forall|i: int| 0 <= i < line.len() - 1 ==> #[trigger] line[i] != 10,
        is_oid(old_oid),
        is_oid(new_oid),
        !who.contains('\t'),
        message.len() == 0 || (message.last() != '\n' && message.last() != '\r'),
    ensures
        utf8_lossy(line) == old_oid + seq![' '] + new_oid + seq![' '] + who + seq!['\t'] + message
            + seq!['\n'] ==> records_of(b + line, Some(b.len() as u64)) == seq![
            RecordView {
                old: old_oid,
                new: new_oid,
                message,
                end_offset: (b + line).len() as int,
            },
        ],
{
    let all = b + line;
    let n = b.len() as int;
    lemma_appended(b, line, 0);
    assert forall|i: int| n <= i < all.len() - 1 implies #[trigger] all[i] != 10 by {
        assert(all[i] == line[i - n]);
    }
    assert(all.last() == line.last());
    lemma_one_line(all, n);
    assert(all.subrange(n, all.len() as int) =~= line);
    let text = old_oid + seq![' '] + new_oid + seq![' '] + who + seq!['\t'] + message;
    let whole = text + seq!['\n'];
    assert(whole.drop_last() =~= text);
    assert(whole.last() == '\n');
    if message.len() > 0 {
        assert(text.last() == message.last());
    } else {
        assert(text.last() == '\t');
    }
    assert(without_line_ends(text) == text);
    assert(without_line_ends(whole) == text);
    law_record_reads_back(old_oid, new_oid, who, message, all.len() as int);
    assert(records_from(all, all.len() as int, 0) =~= seq![]);
    assert(records_of(all, Some(b.len() as u64)) == records_from(all, n, 0));
    if utf8_lossy(line) == whole {
        let r = RecordView { old: old_oid, new: new_oid, message, end_offset: all.len() as int };
        assert(seq![r] + records_from(all, all.len() as int, 0) =~= seq![r]);
    }
}

} // verus!
