//! What the shown form of a transcript promises, line by line.
use vstd::prelude::*;

use crate::commands::prompt_replay::{
    BOLD, CODE_BG, CODE_FG, CODE_RESET, CYAN, DIM, GREEN, RESET, cells_of, closing, in_block,
    inline_cells, inline_from, is_fence, is_rule_cell, is_table_row, line_text, longest,
    markdown_text, padded, repeated, row_inner, shown_lines, table_row_text,
};
use crate::text::{has_prefix, has_suffix, join_of, lines_of, split_of, trimmed};

verus! {

/// The colours and styles of a terminal.
pub proof fn law_styles()
    ensures
        CYAN@ == "\x1b[36m"@,
        GREEN@ == "\x1b[32m"@,
        BOLD@ == "\x1b[1m"@,
        DIM@ == "\x1b[2m"@,
        RESET@ == "\x1b[0m"@,
        CODE_BG@ == "\x1b[48;5;236m"@,
        CODE_FG@ == "\x1b[38;5;252m"@,
        CODE_RESET@ == "\x1b[0m"@,
{
}

// --------------------------------------------------------------------------- within a line

/// The first place at or behind another where a mark stands.
pub proof fn law_closing_mark(s: Seq<char>, c: char, i: int)
    requires
        0 <= i <= s.len(),
    ensures
        match closing(s, c, false, i) {
            Some(k) => i <= k < s.len() && s[k] == c && (forall|j: int| i <= j < k ==> #[trigger] s[j] != c),
            None => forall|j: int| i <= j < s.len() ==> #[trigger] s[j] != c,
        },
        match closing(s, c, true, i) {
            Some(k) => i <= k && k + 1 < s.len() && s[k] == c && s[k + 1] == c && (forall|j: int| i <= j < k ==> !(#[trigger] s[j] == c && s[j + 1] == c)),
            None => forall|j: int| i <= j && j + 1 < s.len() ==> !(#[trigger] s[j] == c && s[j + 1] == c),
        },
    decreases s.len() - i,
{
    if i < s.len() {
        law_closing_mark(s, c, i + 1);
    }
}

/// Text between two pairs of stars is bold, text between two backticks is green; what has
/// no second mark is shown as it is, and so is all else.
pub proof fn law_marks_in_a_line(s: Seq<char>, i: int, k: int)
    requires
        0 <= i < s.len(),
    ensures
        s[i] != '*' && s[i] != '`' ==> inline_from(s, i) == seq![s[i]] + inline_from(s, i + 1),
        s[i] == '*' && (i + 1 == s.len() || s[i + 1] != '*') ==> inline_from(s, i) == seq![s[i]] + inline_from(s, i + 1),
        s[i] == '`' && i < k < s.len() && s[k] == '`' && (forall|j: int| i < j < k ==> #[trigger] s[j] != '`') ==> inline_from(s, i) == "\x1b[32m"@ + s.subrange(i + 1, k) + "\x1b[0m"@ + inline_from(s, k + 1),
        s[i] == '`' && (forall|j: int| i < j < s.len() ==> #[trigger] s[j] != '`') ==> inline_from(s, i) == s.skip(i),
        i + 2 <= k && k + 1 < s.len() && s[i] == '*' && s[i + 1] == '*' && s[k] == '*' && s[k + 1] == '*' && (forall|j: int| i + 2 <= j < k ==> #[trigger] s[j] != '*') ==> inline_from(s, i) == "\x1b[1m"@ + s.subrange(i + 2, k) + "\x1b[0m"@ + inline_from(s, k + 2),
        i + 1 < s.len() && s[i] == '*' && s[i + 1] == '*' && (forall|j: int| i + 2 <= j < s.len() ==> #[trigger] s[j] != '*') ==> inline_from(s, i) == s.skip(i),
        inline_from(s, s.len() as int) == Seq::<char>::empty(),
{
    law_closing_mark(s, '`', i + 1);
    if i + 2 <= s.len() {
        law_closing_mark(s, '*', i + 2);
    }
}

// --------------------------------------------------------------------------- lines

proof fn lemma_starts(p: Seq<char>, rest: Seq<char>)
    ensures
        has_prefix(p + rest, p),
        (p + rest).skip(p.len() as int) == rest,
{
    assert((p + rest).take(p.len() as int) =~= p);
    assert((p + rest).skip(p.len() as int) =~= rest);
}

/// A title is bold, and a large one coloured too; an item of a list gets a dot.
pub proof fn law_titles_and_items(t: Seq<char>)
    ensures
        trimmed("# "@ + t) != "---"@ && !is_table_row("# "@ + t) ==> line_text("# "@ + t) == "\x1b[1m"@ + "\x1b[36m"@ + inline_from(t, 0) + "\x1b[0m"@ + "\n"@,
        trimmed("## "@ + t) != "---"@ && !is_table_row("## "@ + t) ==> line_text("## "@ + t) == "\x1b[1m"@ + "\x1b[36m"@ + inline_from(t, 0) + "\x1b[0m"@ + "\n"@,
        trimmed("### "@ + t) != "---"@ && !is_table_row("### "@ + t) ==> line_text("### "@ + t) == "\x1b[1m"@ + "\x1b[36m"@ + inline_from(t, 0) + "\x1b[0m"@ + "\n"@,
        trimmed("#### "@ + t) != "---"@ && !is_table_row("#### "@ + t) ==> line_text("#### "@ + t) == "\x1b[1m"@ + inline_from(t, 0) + "\x1b[0m"@ + "\n"@,
        trimmed("- "@ + t) != "---"@ && !is_table_row("- "@ + t) ==> line_text("- "@ + t) == "  "@ + "\x1b[36m"@ + "•"@ + "\x1b[0m"@ + " "@ + inline_from(t, 0) + "\n"@,
{
    let p1 = "# "@;
    let p2 = "## "@;
    let p3 = "### "@;
    let p4 = "#### "@;
    let p5 = "- "@;
    reveal_strlit("# ");
    reveal_strlit("## ");
    reveal_strlit("### ");
    reveal_strlit("#### ");
    reveal_strlit("- ");
    assert(p1.len() == 2 && p1[0] == '#' && p1[1] == ' ');
    assert(p2.len() == 3 && p2[0] == '#' && p2[1] == '#' && p2[2] == ' ');
    assert(p3.len() == 4 && p3[0] == '#' && p3[1] == '#' && p3[2] == '#' && p3[3] == ' ');
    assert(p4.len() == 5 && p4[0] == '#' && p4[1] == '#' && p4[2] == '#' && p4[3] == '#');
    assert(p5.len() == 2 && p5[0] == '-');
    lemma_starts(p1, t);
    lemma_starts(p2, t);
    lemma_starts(p3, t);
    lemma_starts(p4, t);
    lemma_starts(p5, t);
    assert forall|s: Seq<char>, p: Seq<char>, i: int| #![trigger has_prefix(s, p), p[i]] has_prefix(s, p) && 0 <= i < p.len() implies s[i] == p[i] by {
        assert(s.take(p.len() as int)[i] == s[i]);
    }
    assert((p1 + t)[1] == ' ');
    assert((p2 + t)[1] == '#' && (p2 + t)[2] == ' ');
    assert((p3 + t)[1] == '#' && (p3 + t)[2] == '#' && (p3 + t)[3] == ' ');
    assert((p5 + t)[0] == '-');
    assert(!has_prefix(p1 + t, p2) && !has_prefix(p1 + t, p3) && !has_prefix(p1 + t, p4));
    assert(!has_prefix(p2 + t, p3) && !has_prefix(p2 + t, p4));
    assert(!has_prefix(p3 + t, p4));
    assert(!has_prefix(p5 + t, p1) && !has_prefix(p5 + t, p2) && !has_prefix(p5 + t, p3) && !has_prefix(p5 + t, p4));
}

/// A rule is a faint line; a row of a table is shown as such; any other line is shown with
/// its marks.
pub proof fn law_other_lines(line: Seq<char>)
    ensures
        trimmed(line) == "---"@ ==> line_text(line) == "\x1b[2m"@ + "─────────────────────────────────────────────────"@ + "\x1b[0m"@ + "\x1b[0m"@ + "\n"@,
        trimmed(line) != "---"@ && has_prefix(trimmed(line), "|"@) && has_suffix(trimmed(line), "|"@) ==> line_text(line) == table_row_text(trimmed(line)),
        trimmed(line) != "---"@ && !is_table_row(line) && !has_prefix(line, "# "@) && !has_prefix(line, "## "@) && !has_prefix(line, "### "@) && !has_prefix(line, "#### "@) && !has_prefix(line, "- "@) ==> line_text(line) == inline_from(line, 0) + "\n"@,
{
}

/// A row of a table: its cells between bars, or, where they hold dashes and colons only, a
/// faint line.
pub proof fn law_rows_of_a_table(row: Seq<char>, inner: Seq<char>, i: int)
    ensures
        row_inner("|"@ + inner + "|"@) == inner,
        cells_of(row).len() == split_of(row_inner(row), '|').len(),
        0 <= i < cells_of(row).len() ==> cells_of(row)[i] == trimmed(split_of(row_inner(row), '|')[i]),
        (forall|k: int| 0 <= k < cells_of(row).len() ==> is_rule_cell(#[trigger] cells_of(row)[k])) ==> table_row_text(row) == "\x1b[2m"@ + "  │"@ + repeated('─', cells_of(row).len() * (longest(cells_of(row)) + 3)) + "\x1b[0m"@ + "\n"@,
        0 <= i < cells_of(row).len() && !is_rule_cell(cells_of(row)[i]) ==> table_row_text(row) == "\x1b[2m"@ + "  │ "@ + join_of(cells_of(row).map_values(|c: Seq<char>| inline_from(c, 0)), "\x1b[2m"@ + " │ "@ + "\x1b[0m"@ + "\x1b[2m"@) + "\x1b[0m"@ + "\x1b[0m"@ + "\n"@,
        !is_rule_cell(seq!['a']) && is_rule_cell(seq!['-', ':']),
{
    reveal_strlit("|");
    let s = "|"@ + inner + "|"@;
    assert(s.subrange(1, s.len() - 1) =~= inner);
    assert(inline_cells(cells_of(row)) =~= cells_of(row).map_values(|c: Seq<char>| inline_from(c, 0)));
    assert(seq!['a'][0] == 'a');
}

/// Lines are shown in their order. A fence starts or ends a block of code; within a block a
/// line is shown as code, as wide as the screen; a block that is never ended ends with the
/// text.
pub proof fn law_shown_lines(lines: Seq<Seq<char>>, line: Seq<char>, width: nat, text: Seq<char>)
    ensures
        shown_lines(Seq::empty(), width) == Seq::<char>::empty(),
        is_fence(line) && in_block(lines) ==> shown_lines(lines.push(line), width) == shown_lines(lines, width) + ("\x1b[0m"@ + "\n"@),
        is_fence(line) && !in_block(lines) ==> shown_lines(lines.push(line), width) == shown_lines(lines, width) + "\n"@,
        !is_fence(line) && in_block(lines) ==> shown_lines(lines.push(line), width) == shown_lines(lines, width) + ("\x1b[48;5;236m"@ + "\x1b[38;5;252m"@ + padded(line, width) + "\x1b[0m"@ + "\n"@),
        !is_fence(line) && !in_block(lines) ==> shown_lines(lines.push(line), width) == shown_lines(lines, width) + line_text(line),
        in_block(lines_of(text)) ==> markdown_text(text, width) == shown_lines(lines_of(text), width) + "\x1b[0m"@ + "\n"@,
        !in_block(lines_of(text)) ==> markdown_text(text, width) == shown_lines(lines_of(text), width),
        is_fence(line) <==> has_prefix(trimmed(line), "```"@),
{
    assert(lines.push(line).drop_last() =~= lines);
}

} // verus!
