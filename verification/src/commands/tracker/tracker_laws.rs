//! What holds of the tracker: of what is uploaded, logged and tried again.

use crate::commands::tracker::remote_refs_of;
use crate::commands::tracker::config::without_text;
use crate::commands::tracker::diff::{code_lines, cut_to_size, in_code, names_code};
use crate::commands::tracker::log::{
    LogStatus, entry_of, law_log_entry_reads_back, reason_shown, repo_name_of, shown_line,
    status_name, status_shown, status_text_shown,
};
use crate::commands::tracker::retry::{RetryEntryView, left_in_queue, left_of};
use crate::commands::tracker::upload::{IdentitySources, base64_char, base64_of, pusher_of};
use crate::text::{find_of, has_prefix, has_suffix, occurs_at, trim_end_text_of, trim_start_text_of};
use crate::text_laws::{law_find_is_first, law_split_once_at, law_splitting};
use vstd::prelude::*;
use vstd::string::*;
use vstd::utf8::*;

verus! {

// -------------------------------------------------------------------------- changes

/// A line names code just where the ending of a language's files stands in it.
pub proof fn law_endings_of_code(line: Seq<char>, ending: Seq<char>, at: int)
    ensures
        seq![".rs"@, ".py"@, ".js"@, ".ts"@, ".tsx"@, ".jsx"@, ".go"@, ".java"@, ".c"@, ".cpp"@, ".h"@, ".hpp"@, ".rb"@, ".php"@, ".swift"@, ".kt"@, ".scala"@, ".sh"@, ".sql"@, ".css"@, ".html"@, ".vue"@, ".svelte"@].contains(ending) && occurs_at(line, ending, at) ==> names_code(line),
        (forall|e: Seq<char>, k: int| seq![".rs"@, ".py"@, ".js"@, ".ts"@, ".tsx"@, ".jsx"@, ".go"@, ".java"@, ".c"@, ".cpp"@, ".h"@, ".hpp"@, ".rb"@, ".php"@, ".swift"@, ".kt"@, ".scala"@, ".sh"@, ".sql"@, ".css"@, ".html"@, ".vue"@, ".svelte"@].contains(e) ==> !#[trigger] occurs_at(line, e, k)) ==> !names_code(line),
{
    let all = seq![".rs"@, ".py"@, ".js"@, ".ts"@, ".tsx"@, ".jsx"@, ".go"@, ".java"@, ".c"@, ".cpp"@, ".h"@, ".hpp"@, ".rb"@, ".php"@, ".swift"@, ".kt"@, ".scala"@, ".sh"@, ".sql"@, ".css"@, ".html"@, ".vue"@, ".svelte"@];
    assert(all[0] == ".rs"@);
    assert(all.contains(".rs"@));
    law_find_is_first(line, ".rs"@);
    assert(all[1] == ".py"@);
    assert(all.contains(".py"@));
    law_find_is_first(line, ".py"@);
    assert(all[2] == ".js"@);
    assert(all.contains(".js"@));
    law_find_is_first(line, ".js"@);
    assert(all[3] == ".ts"@);
    assert(all.contains(".ts"@));
    law_find_is_first(line, ".ts"@);
    assert(all[4] == ".tsx"@);
    assert(all.contains(".tsx"@));
    law_find_is_first(line, ".tsx"@);
    assert(all[5] == ".jsx"@);
    assert(all.contains(".jsx"@));
    law_find_is_first(line, ".jsx"@);
    assert(all[6] == ".go"@);
    assert(all.contains(".go"@));
    law_find_is_first(line, ".go"@);
    assert(all[7] == ".java"@);
    assert(all.contains(".java"@));
    law_find_is_first(line, ".java"@);
    assert(all[8] == ".c"@);
    assert(all.contains(".c"@));
    law_find_is_first(line, ".c"@);
    assert(all[9] == ".cpp"@);
    assert(all.contains(".cpp"@));
    law_find_is_first(line, ".cpp"@);
    assert(all[10] == ".h"@);
    assert(all.contains(".h"@));
    law_find_is_first(line, ".h"@);
    assert(all[11] == ".hpp"@);
    assert(all.contains(".hpp"@));
    law_find_is_first(line, ".hpp"@);
    assert(all[12] == ".rb"@);
    assert(all.contains(".rb"@));
    law_find_is_first(line, ".rb"@);
    assert(all[13] == ".php"@);
    assert(all.contains(".php"@));
    law_find_is_first(line, ".php"@);
    assert(all[14] == ".swift"@);
    assert(all.contains(".swift"@));
    law_find_is_first(line, ".swift"@);
    assert(all[15] == ".kt"@);
    assert(all.contains(".kt"@));
    law_find_is_first(line, ".kt"@);
    assert(all[16] == ".scala"@);
    assert(all.contains(".scala"@));
    law_find_is_first(line, ".scala"@);
    assert(all[17] == ".sh"@);
    assert(all.contains(".sh"@));
    law_find_is_first(line, ".sh"@);
    assert(all[18] == ".sql"@);
    assert(all.contains(".sql"@));
    law_find_is_first(line, ".sql"@);
    assert(all[19] == ".css"@);
    assert(all.contains(".css"@));
    law_find_is_first(line, ".css"@);
    assert(all[20] == ".html"@);
    assert(all.contains(".html"@));
    law_find_is_first(line, ".html"@);
    assert(all[21] == ".vue"@);
    assert(all.contains(".vue"@));
    law_find_is_first(line, ".vue"@);
    assert(all[22] == ".svelte"@);
    assert(all.contains(".svelte"@));
    law_find_is_first(line, ".svelte"@);
}

/// Behind a header the lines are those of its file: they count where it names code, up to
/// the next header.
pub proof fn law_lines_of_code(lines: Seq<Seq<char>>, line: Seq<char>)
    ensures
        !in_code(Seq::empty()),
        has_prefix(line, "diff --git"@) ==> in_code(lines.push(line)) == names_code(line),
        !has_prefix(line, "diff --git"@) ==> in_code(lines.push(line)) == in_code(lines),
        in_code(lines.push(line)) ==> code_lines(lines.push(line)) == code_lines(lines) + line + seq!['\n'],
        !in_code(lines.push(line)) ==> code_lines(lines.push(line)) == code_lines(lines),
        code_lines(Seq::empty()) == Seq::<char>::empty(),
{
    assert(lines.push(line).drop_last() =~= lines);
    assert((code_lines(lines) + line).push('\n') =~= code_lines(lines) + line + seq!['\n']);
}

/// Changes that fit are uploaded whole, and of others as many characters as may be.
pub proof fn law_cut_changes(text: Seq<char>, max: nat)
    ensures
        encode_utf8(text).len() <= max ==> cut_to_size(text, max) == text,
        text.len() <= max ==> cut_to_size(text, max) == text,
        encode_utf8(text).len() > max && text.len() > max ==> cut_to_size(text, max) == text.take(max as int),
{
}

// ------------------------------------------------------------------------------ log

/// The reasons for which a commit is passed over, in words; any other reason as it is.
pub proof fn law_shown_reasons(reason: Seq<char>)
    ensures
        reason == "already_reported"@ ==> reason_shown(reason) == "已上报过"@,
        reason == "blacklisted"@ ==> reason_shown(reason) == "黑名单过滤"@,
        reason == "merge_commit"@ ==> reason_shown(reason) == "合并提交"@,
        reason == "synthetic_message"@ ==> reason_shown(reason) == "自动生成的提交信息"@,
        reason == "copy_paste_threshold"@ ==> reason_shown(reason) == "手动添加代码超过阈值（>1500行）"@,
        reason != "already_reported"@ && reason != "blacklisted"@ && reason != "merge_commit"@ && reason != "synthetic_message"@ && reason != "copy_paste_threshold"@ ==> reason_shown(reason) == reason,
{
    reveal_strlit("already_reported");
    reveal_strlit("blacklisted");
    reveal_strlit("merge_commit");
    reveal_strlit("synthetic_message");
    reveal_strlit("copy_paste_threshold");
    assert("already_reported"@.len() == 16);
    assert("blacklisted"@.len() == 11);
    assert("merge_commit"@.len() == 12);
    assert("synthetic_message"@.len() == 17);
    assert("copy_paste_threshold"@.len() == 20);
}

/// The names of what became of a commit, and how they are shown.
pub proof fn law_shown_statuses(name: Seq<char>)
    ensures
        status_name(LogStatus::Uploaded) == "uploaded"@ && status_name(LogStatus::Skipped) == "skipped"@ && status_name(LogStatus::Failed) == "failed"@ && status_name(LogStatus::RetryOk) == "retry_ok"@,
        status_shown(LogStatus::Uploaded) == "✓ 上报成功"@ && status_shown(LogStatus::Skipped) == "⊘ 已跳过"@ && status_shown(LogStatus::Failed) == "✗ 上报失败"@ && status_shown(LogStatus::RetryOk) == "↻ 重试成功"@,
        name != "uploaded"@ && name != "skipped"@ && name != "failed"@ && name != "retry_ok"@ ==> status_text_shown(name) == name,
{
}

/// An entry of the log is shown with its time, what became of the commit, the commit, the
/// repository's name before the branch, and the reason where there is one.
pub proof fn law_shown_entries(timestamp: Seq<char>, status: LogStatus, sha: Seq<char>, branch: Seq<char>, path: Seq<char>, reason: Seq<char>, time: Seq<char>)
    requires
        !timestamp.contains('\t'),
        !sha.contains('\t'),
        !branch.contains('\t'),
        !path.contains('\t'),
        !reason.contains('\t'),
    ensures
        shown_line(entry_of(timestamp, status, sha, branch, path, None), None) == timestamp + " "@ + status_text_shown(status_name(status)) + " "@ + sha + " "@ + repo_name_of(path) + "/"@ + branch,
        shown_line(entry_of(timestamp, status, sha, branch, path, None), Some(time)) == time + " "@ + status_text_shown(status_name(status)) + " "@ + sha + " "@ + repo_name_of(path) + "/"@ + branch,
        shown_line(entry_of(timestamp, status, sha, branch, path, Some(reason)), Some(time)) == time + " "@ + status_text_shown(status_name(status)) + " "@ + sha + " "@ + repo_name_of(path) + "/"@ + branch + " - "@ + reason_shown(reason),
{
    law_log_entry_reads_back(timestamp, status, sha, branch, path, None);
    law_log_entry_reads_back(timestamp, status, sha, branch, path, Some(reason));
    let five = seq![timestamp, status_name(status), sha, branch, path];
    assert(five + Seq::<Seq<char>>::empty() =~= five);
    assert((five + seq![reason])[5] == reason);
}

/// A repository is named by the last part of its path, without its git directory.
pub proof fn law_repository_names(name: Seq<char>)
    requires
        !name.contains('/'),
        name.len() > 0,
        name != seq!['.', 'g', 'i', 't'],
    ensures
        repo_name_of(name) == name,
        repo_name_of(seq!['/'] + name) == name,
        repo_name_of(name + "/.git"@) == name,
{
    reveal_strlit("/.git");
    lemma_no_git_dir(name);
    law_splitting(name, '/', Seq::empty());
    let rooted = seq!['/'] + name;
    let none = Seq::<char>::empty();
    assert(rooted =~= none + seq!['/'] + name);
    law_splitting(none, '/', name);
    assert(!has_suffix(rooted, "/.git"@)) by {
        if has_suffix(rooted, "/.git"@) {
            let n = rooted.len() - 5;
            assert(rooted.skip(n)[1] == rooted[n + 1]);
            assert(rooted.skip(n)[0] == rooted[n]);
            if n > 0 {
                assert(rooted[n] == name[n - 1]);
                assert(name.contains(name[n - 1]));
            } else {
                assert(false) by {
                    assert(name =~= seq!['.', 'g', 'i', 't']) by {
                        assert(rooted.skip(0)[1] == '.' && rooted.skip(0)[2] == 'g' && rooted.skip(0)[3] == 'i' && rooted.skip(0)[4] == 't');
                        assert(rooted.len() == 5);
                        assert(name[0] == rooted[1] && name[1] == rooted[2] && name[2] == rooted[3] && name[3] == rooted[4]);
                    }
                }
            }
        }
    }
    let own = name + "/.git"@;
    assert(own.skip(own.len() - 5) =~= "/.git"@);
    assert(own.take(own.len() - 5) =~= name);
}

proof fn lemma_no_git_dir(name: Seq<char>)
    requires
        !name.contains('/'),
    ensures
        trim_end_text_of(name, "/.git"@) == name,
{
    reveal_strlit("/.git");
    if has_suffix(name, "/.git"@) {
        let n = name.len() - 5;
        assert(name.skip(n)[0] == name[n]);
        assert(name.contains(name[n]));
    }
}

// --------------------------------------------------------------------------- remotes

/// A line of a remote names a commit and, behind a tab, a branch; the last line of a branch
/// stands, and a line without a tab names nothing.
pub proof fn law_lines_of_a_remote(lines: Seq<Seq<char>>, sha: Seq<char>, branch: Seq<char>, other: Seq<char>)
    requires
        !sha.contains('\t'),
        !has_prefix(branch, "refs/heads/"@),
    ensures
        remote_refs_of(Seq::empty()) == Map::<Seq<char>, Seq<char>>::empty(),
        remote_refs_of(lines.push(sha + seq!['\t'] + "refs/heads/"@ + branch)) == remote_refs_of(lines).insert(branch, sha),
        find_of(other, "\t"@) is None ==> remote_refs_of(lines.push(other)) == remote_refs_of(lines),
{
    reveal_strlit("\t");
    reveal_strlit("refs/heads/");
    assert("\t"@ =~= seq!['\t']);
    let reference = "refs/heads/"@ + branch;
    let line = sha + seq!['\t'] + "refs/heads/"@ + branch;
    assert(line =~= sha + seq!['\t'] + reference);
    law_split_once_at(sha, '\t', reference);
    assert(reference.take("refs/heads/"@.len() as int) =~= "refs/heads/"@);
    assert(reference.skip("refs/heads/"@.len() as int) =~= branch);
    reveal_with_fuel(trim_start_text_of, 2);
    assert(lines.push(line).drop_last() =~= lines);
    assert(lines.push(other).drop_last() =~= lines);
}

/// Who pushed is the first of the repository's own, the user's and the commit's identity
/// that has an address, with its name or none; else the machine stands for the person.
pub proof fn law_who_pushed(s: IdentitySources)
    ensures
        s.local_email matches Some(email) ==> pusher_of(s).email == email@ && (s.local_name matches Some(name) ==> pusher_of(s).name == name@) && (s.local_name is None ==> pusher_of(s).name.len() == 0),
        s.local_email is None ==> (s.global_email matches Some(email) ==> pusher_of(s).email == email@ && (s.global_name matches Some(name) ==> pusher_of(s).name == name@) && (s.global_name is None ==> pusher_of(s).name.len() == 0)),
        s.local_email is None && s.global_email is None ==> (s.author_email matches Some(email) ==> pusher_of(s).email == email@ && (s.author_name matches Some(name) ==> pusher_of(s).name == name@) && (s.author_name is None ==> pusher_of(s).name.len() == 0)),
        s.local_email is None && s.global_email is None && s.author_email is None ==> (s.hostname matches Some(host) ==> pusher_of(s).email == host@ + "@localhost"@ && pusher_of(s).name == host@),
        s.local_email is None && s.global_email is None && s.author_email is None && s.hostname is None ==> pusher_of(s).email.len() == 0 && pusher_of(s).name.len() == 0,
{
}

/// The digits to the base of 64 are the capital letters, the small ones, the figures, the
/// plus and the slash, in this order; a group that is not full is filled with equals signs.
pub proof fn law_base64_digits(d: int, bytes: Seq<u8>)
    ensures
        0 <= d < 26 ==> base64_char(d) as int == 'A' as int + d,
        26 <= d < 52 ==> base64_char(d) as int == 'a' as int + d - 26,
        52 <= d < 62 ==> base64_char(d) as int == '0' as int + d - 52,
        base64_char(62) == '+',
        base64_char(63) == '/',
        bytes.len() == 1 ==> base64_of(bytes).len() == 4 && base64_of(bytes)[2] == '=' && base64_of(bytes)[3] == '=',
        bytes.len() == 2 ==> base64_of(bytes).len() == 4 && base64_of(bytes)[3] == '=',
        bytes.len() == 3 ==> base64_of(bytes) == seq![base64_char(bytes[0] as int / 4), base64_char((bytes[0] as int % 4) * 16 + bytes[1] as int / 16), base64_char((bytes[1] as int % 16) * 4 + bytes[2] as int / 64), base64_char(bytes[2] as int % 64)],
{
}

// ---------------------------------------------------------------------------- retries

/// What is left of a queue are the entries that are tried again, in their order.
pub proof fn law_queue_after_a_round(entries: Seq<RetryEntryView>, uploaded: Seq<bool>)
    ensures
        left_in_queue(entries, uploaded) == Seq::new(entries.len(), |i: int| left_of(entries[i], uploaded[i])).filter(|e: Option<RetryEntryView>| e is Some).map_values(|e: Option<RetryEntryView>| e->0),
    decreases entries.len(),
{
    reveal(Seq::filter);
    let at = |i: int| left_of(entries[i], uploaded[i]);
    let pred = |e: Option<RetryEntryView>| e is Some;
    let of = |e: Option<RetryEntryView>| e->0;
    let all = Seq::new(entries.len(), at);
    if entries.len() == 0 {
        assert(all.filter(pred).map_values(of) =~= Seq::empty());
    } else {
        let front = entries.drop_last();
        law_queue_after_a_round(front, uploaded);
        let before = Seq::new(front.len(), |i: int| left_of(front[i], uploaded[i]));
        assert(all.drop_last() =~= before);
        if pred(all.last()) {
            assert(all.filter(pred) == before.filter(pred).push(all.last()));
            assert(all.filter(pred).map_values(of) =~= before.filter(pred).map_values(of).push(of(all.last())));
        }
    }
}

/// An entry that was uploaded is done; one that failed keeps all but the number of tries,
/// which is one more, up to the third.
pub proof fn law_entries_after_a_try(entry: RetryEntryView)
    ensures
        left_of(entry, true) is None,
        entry.retry_count < 2 ==> (left_of(entry, false) matches Some(e) && e.repo_path == entry.repo_path && e.commit_sha == entry.commit_sha && e.diff_gz == entry.diff_gz && e.remote == entry.remote && e.branch == entry.branch && e.retry_count == entry.retry_count + 1),
        entry.retry_count >= 2 ==> left_of(entry, false) is None,
{
}

/// Taking a pattern off a list leaves all others, in their order.
pub proof fn law_blacklist_keeps_others(list: Seq<Seq<char>>, pattern: Seq<char>)
    ensures
        without_text(list, pattern) == list.filter(|p: Seq<char>| p != pattern),
    decreases list.len(),
{
    reveal(Seq::filter);
    if list.len() > 0 {
        law_blacklist_keeps_others(list.drop_last(), pattern);
    }
}

} // verus!
