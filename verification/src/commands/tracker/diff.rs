//! The changes of a commit, as far as they are changes of code.

use crate::file_tree::{lossy_text, utf8_lossy};
use crate::text::{
    chars_of, contains, find_of, has_prefix, lines, lines_of, starts_with, string_of, texts,
};
use flate2::Compression;
use flate2::write::GzEncoder;
use std::io::Write;
use vstd::prelude::*;
use vstd::string::*;
use vstd::utf8::*;

verus! {

/// The size up to which changes are taken whole.
pub const MAX_DIFF_SIZE: usize = 102_400;

/// Whether a line names a file of code: one of the endings occurs in it.
pub open spec fn names_code(line: Seq<char>) -> bool {
    ||| find_of(line, ".rs"@) is Some
    ||| find_of(line, ".py"@) is Some
    ||| find_of(line, ".js"@) is Some
    ||| find_of(line, ".ts"@) is Some
    ||| find_of(line, ".tsx"@) is Some
    ||| find_of(line, ".jsx"@) is Some
    ||| find_of(line, ".go"@) is Some
    ||| find_of(line, ".java"@) is Some
    ||| find_of(line, ".c"@) is Some
    ||| find_of(line, ".cpp"@) is Some
    ||| find_of(line, ".h"@) is Some
    ||| find_of(line, ".hpp"@) is Some
    ||| find_of(line, ".rb"@) is Some
    ||| find_of(line, ".php"@) is Some
    ||| find_of(line, ".swift"@) is Some
    ||| find_of(line, ".kt"@) is Some
    ||| find_of(line, ".scala"@) is Some
    ||| find_of(line, ".sh"@) is Some
    ||| find_of(line, ".sql"@) is Some
    ||| find_of(line, ".css"@) is Some
    ||| find_of(line, ".html"@) is Some
    ||| find_of(line, ".vue"@) is Some
    ||| find_of(line, ".svelte"@) is Some
}

/// Whether a line names a file of code.
pub fn is_code_line(line: &str) -> (r: bool)
    ensures
        r == names_code(line@),
{
    contains(line, ".rs") || contains(line, ".py") || contains(line, ".js") || contains(line, ".ts") || contains(line, ".tsx") || contains(line, ".jsx") || contains(line, ".go") || contains(line, ".java") || contains(line, ".c") || contains(line, ".cpp") || contains(line, ".h") || contains(line, ".hpp") || contains(line, ".rb") || contains(line, ".php") || contains(line, ".swift") || contains(line, ".kt") || contains(line, ".scala") || contains(line, ".sh") || contains(line, ".sql") || contains(line, ".css") || contains(line, ".html") || contains(line, ".vue") || contains(line, ".svelte")
}

/// Whether the line behind the given ones belongs to a file of code: the last
/// header among them names one.
pub open spec fn in_code(lines: Seq<Seq<char>>) -> bool
    decreases lines.len(),
{
    if lines.len() == 0 {
        false
    } else if has_prefix(lines.last(), "diff --git"@) {
        names_code(lines.last())
    } else {
        in_code(lines.drop_last())
    }
}

/// The lines of the files of code, each with its end.
pub open spec fn code_lines(lines: Seq<Seq<char>>) -> Seq<char>
    decreases lines.len(),
{
    if lines.len() == 0 {
        Seq::empty()
    } else if in_code(lines) {
        (code_lines(lines.drop_last()) + lines.last()).push('\n')
    } else {
        code_lines(lines.drop_last())
    }
}

/// Changes without those of files that are no code.
pub fn filter_code_only(diff: &str) -> (r: String)
    ensures
        r@ == code_lines(lines_of(diff@)),
{
    let all = lines(diff);
    let ghost seen = texts(all@);
    let mut out = String::new();
    let mut inside = false;
    let mut i: usize = 0;
    assert(seen.take(0) =~= Seq::empty());
    while i < all.len()
        invariant
            i <= all@.len(),
            seen == texts(all@),
            inside == in_code(seen.take(i as int)),
            out@ == code_lines(seen.take(i as int)),
        decreases all.len() - i,
    {
        proof {
            assert(seen.take(i + 1).drop_last() =~= seen.take(i as int));
            assert(seen.take(i + 1).last() == all@[i as int]@);
        }
        let line = all[i].as_str();
        if starts_with(line, "diff --git") {
            inside = is_code_line(line);
        }
        if inside {
            out.append(line);
            out.push('\n');
        }
        i += 1;
    }
    assert(seen.take(seen.len() as int) =~= seen);
    out
}

/// A text of at most the given size in bytes as it is, and of a longer one as
/// many characters.
pub open spec fn cut_to_size(text: Seq<char>, max: nat) -> Seq<char> {
    if encode_utf8(text).len() <= max || text.len() <= max {
        text
    } else {
        text.take(max as int)
    }
}

/// Changes, cut to the size that is uploaded.
pub fn truncate_to_100kb(text: &str) -> (r: String)
    ensures
        r@ == cut_to_size(text@, MAX_DIFF_SIZE as nat),
{
    if text.as_bytes().len() <= MAX_DIFF_SIZE {
        return text.to_owned();
    }
    let v = chars_of(text);
    if v.len() <= MAX_DIFF_SIZE {
        return text.to_owned();
    }
    let r = string_of(&v, 0, MAX_DIFF_SIZE);
    assert(r@ =~= text@.take(MAX_DIFF_SIZE as int));
    r
}

/// What the gzip encoder makes of a text at the default level: the
/// compressed bytes, or why that failed.
pub uninterp spec fn gzip_of(text: Seq<char>) -> Result<Seq<u8>, Seq<char>>;

/// `flate2::write::GzEncoder`, made with `new` for a vector and the default
/// level, filled with `write_all` and ended with `finish`: the gzip stream of
/// the text's UTF-8 bytes. The stream depends on the bytes alone: its header
/// holds neither a time nor the system. It has ten bytes of header, which
/// start with the magic number, and eight bytes of trailer.
#[verifier::external_body]
fn gzip_compress(text: &str) -> (r: Result<Vec<u8>, String>)
    ensures
        match r {
            Ok(data) => gzip_of(text@) == Ok::<Seq<u8>, Seq<char>>(data@) && data@.len() >= 18
                && data@[0] == 0x1f && data@[1] == 0x8b,
            Err(e) => gzip_of(text@) == Err::<Seq<u8>, Seq<char>>(e@),
        },
{
    let mut encoder = GzEncoder::new(Vec::new(), Compression::default());
    encoder.write_all(text.as_bytes()).map_err(|e| e.to_string())?;
    encoder.finish().map_err(|e| e.to_string())
}

/// The changes of a commit that are uploaded, before they are compressed.
pub open spec fn uploaded_text(diff: Seq<char>) -> Seq<char> {
    cut_to_size(code_lines(lines_of(diff)), MAX_DIFF_SIZE as nat)
}

/// The changes of a commit, as `git show` printed them, compressed; where the
/// command failed, what it complained of.
pub fn collect_code_diff(success: bool, stdout: &[u8], stderr: &[u8]) -> (r: Result<
    Vec<u8>,
    String,
>)
    ensures
        match r {
            Ok(data) => success && gzip_of(uploaded_text(utf8_lossy(stdout@))) == Ok::<
                Seq<u8>,
                Seq<char>,
            >(data@) && data@.len() > 0,
            Err(e) => if success {
                gzip_of(uploaded_text(utf8_lossy(stdout@))) == Err::<Seq<u8>, Seq<char>>(e@)
            } else {
                e@ == utf8_lossy(stderr@)
            },
        },
{
    if !success {
        return Err(lossy_text(stderr));
    }
    let diff = lossy_text(stdout);
    let code = filter_code_only(diff.as_str());
    let cut = truncate_to_100kb(code.as_str());
    gzip_compress(cut.as_str())
}

/// Changes in which no header names a file of code come to nothing.
pub proof fn law_no_code_no_changes(lines: Seq<Seq<char>>)
    requires
        forall|i: int|
            0 <= i < lines.len() && has_prefix(#[trigger] lines[i], "diff --git"@) ==> !names_code(
                lines[i],
            ),
    ensures
        !in_code(lines),
        code_lines(lines) == Seq::<char>::empty(),
    decreases lines.len(),
{
    if lines.len() > 0 {
        let front = lines.drop_last();
        assert forall|i: int|
            0 <= i < front.len() && has_prefix(
                #[trigger] front[i],
                "diff --git"@,
            ) implies !names_code(front[i]) by {
            assert(front[i] == lines[i]);
        }
        assert(lines[lines.len() - 1] == lines.last());
        law_no_code_no_changes(front);
    }
}

proof fn lemma_utf8_length(text: Seq<char>)
    ensures
        text.len() <= encode_utf8(text).len(),
    decreases text.len(),
{
    if text.len() > 0 {
        lemma_utf8_length(text.drop_first());
    }
}

/// What is uploaded is the start of the code's changes, and at most so many
/// characters of it.
pub proof fn law_upload_is_bounded(diff: Seq<char>)
    ensures
        uploaded_text(diff).len() <= MAX_DIFF_SIZE,
        has_prefix(code_lines(lines_of(diff)), uploaded_text(diff)),
{
    let code = code_lines(lines_of(diff));
    lemma_utf8_length(code);
    assert(uploaded_text(diff) =~= code.take(uploaded_text(diff).len() as int));
}

} // verus!
