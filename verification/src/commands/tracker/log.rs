//! The log of what was reported.

use crate::model::opt_view;
use crate::paths::{join, joined};
use crate::text::{
    concat, lemma_split_head, lemma_split_whole, prefix_within, split, split_of, str_eq, take_bytes,
    texts, trim_end_text, trim_end_text_of,
};
use vstd::prelude::*;
use vstd::string::*;

verus! {

/// What came of a commit.
#[derive(Clone, Copy, PartialEq, Eq, Structural, Debug)]
pub enum LogStatus {
    Uploaded,
    Skipped,
    Failed,
    RetryOk,
}

/// The name of a status in the log.
pub open spec fn status_name(status: LogStatus) -> Seq<char> {
    match status {
        LogStatus::Uploaded => "uploaded"@,
        LogStatus::Skipped => "skipped"@,
        LogStatus::Failed => "failed"@,
        LogStatus::RetryOk => "retry_ok"@,
    }
}

/// A status as it is shown.
pub open spec fn status_shown(status: LogStatus) -> Seq<char> {
    match status {
        LogStatus::Uploaded => "✓ 上报成功"@,
        LogStatus::Skipped => "⊘ 已跳过"@,
        LogStatus::Failed => "✗ 上报失败"@,
        LogStatus::RetryOk => "↻ 重试成功"@,
    }
}

impl LogStatus {
    /// The name of a status in the log.
    pub fn as_str(&self) -> (r: &'static str)
        ensures
            r@ == status_name(*self),
    {
        match self {
            LogStatus::Uploaded => "uploaded",
            LogStatus::Skipped => "skipped",
            LogStatus::Failed => "failed",
            LogStatus::RetryOk => "retry_ok",
        }
    }

    /// A status as it is shown.
    pub fn display_name(&self) -> (r: &'static str)
        ensures
            r@ == status_shown(*self),
    {
        match self {
            LogStatus::Uploaded => "✓ 上报成功",
            LogStatus::Skipped => "⊘ 已跳过",
            LogStatus::Failed => "✗ 上报失败",
            LogStatus::RetryOk => "↻ 重试成功",
        }
    }
}

/// A reason as it is shown.
pub open spec fn reason_shown(reason: Seq<char>) -> Seq<char> {
    if reason == "already_reported"@ {
        "已上报过"@
    } else if reason == "blacklisted"@ {
        "黑名单过滤"@
    } else if reason == "merge_commit"@ {
        "合并提交"@
    } else if reason == "synthetic_message"@ {
        "自动生成的提交信息"@
    } else if reason == "copy_paste_threshold"@ {
        "手动添加代码超过阈值（>1500行）"@
    } else {
        reason
    }
}

/// A reason as it is shown.
pub fn reason_display(reason: &str) -> (r: String)
    ensures
        r@ == reason_shown(reason@),
{
    if str_eq(reason, "already_reported") {
        "已上报过".to_owned()
    } else if str_eq(reason, "blacklisted") {
        "黑名单过滤".to_owned()
    } else if str_eq(reason, "merge_commit") {
        "合并提交".to_owned()
    } else if str_eq(reason, "synthetic_message") {
        "自动生成的提交信息".to_owned()
    } else if str_eq(reason, "copy_paste_threshold") {
        "手动添加代码超过阈值（>1500行）".to_owned()
    } else {
        reason.to_owned()
    }
}

/// The log's file in a home directory.
pub fn log_path(home: &str) -> (r: String)
    ensures
        r@ == joined(joined(home@, ".git-ai"@), "tracker-upload.log"@),
{
    join(join(home, ".git-ai").as_str(), "tracker-upload.log")
}

/// An entry of the log, without the end of its line.
pub open spec fn entry_of(
    timestamp: Seq<char>,
    status: LogStatus,
    sha: Seq<char>,
    remote_branch: Seq<char>,
    repo_path: Seq<char>,
    reason: Option<Seq<char>>,
) -> Seq<char> {
    let entry = timestamp + "\t"@ + status_name(status) + "\t"@ + sha + "\t"@ + remote_branch
        + "\t"@ + repo_path;
    match reason {
        Some(text) => entry + "\t"@ + text,
        None => entry,
    }
}

/// The line of the log for a commit: the time, what came of it, the start of
/// the commit's name, the branch, the repository, and a reason if there is
/// one.
pub fn log_line(
    timestamp: &str,
    status: LogStatus,
    commit_sha: &str,
    remote: &str,
    branch: &str,
    repo_path: &str,
    reason: &Option<String>,
) -> (r: String)
    ensures
        r@ == entry_of(
            timestamp@,
            status,
            prefix_within(commit_sha@, 7),
            remote@ + "/"@ + branch@,
            repo_path@,
            opt_view(*reason),
        ) + "\n"@,
{
    let sha = take_bytes(commit_sha, 7);
    let mut remote_branch = concat(remote, "/");
    remote_branch.append(branch);
    let mut line = concat(timestamp, "\t");
    line.append(status.as_str());
    line.append("\t");
    line.append(sha.as_str());
    line.append("\t");
    line.append(remote_branch.as_str());
    line.append("\t");
    line.append(repo_path);
    if let Some(text) = reason {
        line.append("\t");
        line.append(text.as_str());
    }
    line.append("\n");
    line
}

/// The number of lines that are passed over to show the last ones.
pub fn first_shown(total: usize, shown: usize) -> (r: usize)
    ensures
        r == (if total > shown {
            total - shown
        } else {
            0
        }),
{
    if total > shown {
        total - shown
    } else {
        0
    }
}

/// The time that a line of the log starts with, if the line is whole.
pub fn line_timestamp(line: &str) -> (r: Option<String>)
    ensures
        opt_view(r) == (if split_of(line@, '\t').len() < 5 {
            None
        } else {
            Some(split_of(line@, '\t')[0])
        }),
{
    let parts = split(line, '\t');
    if parts.len() < 5 {
        None
    } else {
        assert(texts(parts@)[0] == parts@[0]@);
        Some(parts[0].clone())
    }
}

/// A status of the log as it is shown. One that is not known is shown as it
/// is.
pub open spec fn status_text_shown(name: Seq<char>) -> Seq<char> {
    if name == "uploaded"@ {
        status_shown(LogStatus::Uploaded)
    } else if name == "skipped"@ {
        status_shown(LogStatus::Skipped)
    } else if name == "failed"@ {
        status_shown(LogStatus::Failed)
    } else if name == "retry_ok"@ {
        status_shown(LogStatus::RetryOk)
    } else {
        name
    }
}

fn show_status(name: &str) -> (r: String)
    ensures
        r@ == status_text_shown(name@),
{
    if str_eq(name, "uploaded") {
        LogStatus::Uploaded.display_name().to_owned()
    } else if str_eq(name, "skipped") {
        LogStatus::Skipped.display_name().to_owned()
    } else if str_eq(name, "failed") {
        LogStatus::Failed.display_name().to_owned()
    } else if str_eq(name, "retry_ok") {
        LogStatus::RetryOk.display_name().to_owned()
    } else {
        name.to_owned()
    }
}

/// The name under which a repository is shown: the last part of its path.
pub open spec fn repo_name_of(repo_path: Seq<char>) -> Seq<char> {
    split_of(trim_end_text_of(repo_path, "/.git"@), '/').last()
}

fn repo_name(repo_path: &str) -> (r: String)
    ensures
        r@ == repo_name_of(repo_path@),
{
    let path = trim_end_text(repo_path, "/.git");
    let parts = split(path.as_str(), '/');
    let n: usize = parts.len();
    assert(texts(parts@).last() == parts@[n - 1]@);
    parts[n - 1].clone()
}

/// A line of the log as it is shown. A line that is not whole is shown as it
/// is, and so is a time that cannot be read.
pub open spec fn shown_line(line: Seq<char>, local_time: Option<Seq<char>>) -> Seq<char> {
    let parts = split_of(line, '\t');
    if parts.len() < 5 {
        line
    } else {
        let time = match local_time {
            Some(text) => text,
            None => parts[0],
        };
        let shown = time + " "@ + status_text_shown(parts[1]) + " "@ + parts[2] + " "@
            + repo_name_of(parts[4]) + "/"@ + parts[3];
        if parts.len() > 5 {
            shown + " - "@ + reason_shown(parts[5])
        } else {
            shown
        }
    }
}

/// A line of the log as it is shown, with its time as the clock here showed
/// it, if that could be told.
pub fn formatted_line(line: &str, local_time: &Option<String>) -> (r: String)
    ensures
        r@ == shown_line(line@, opt_view(*local_time)),
{
    let parts = split(line, '\t');
    if parts.len() < 5 {
        return line.to_owned();
    }
    proof {
        let t = texts(parts@);
        assert(t[0] == parts@[0]@);
        assert(t[1] == parts@[1]@);
        assert(t[2] == parts@[2]@);
        assert(t[3] == parts@[3]@);
        assert(t[4] == parts@[4]@);
    }
    let time = match local_time {
        Some(text) => text.clone(),
        None => parts[0].clone(),
    };
    let mut shown = concat(time.as_str(), " ");
    shown.append(show_status(parts[1].as_str()).as_str());
    shown.append(" ");
    shown.append(parts[2].as_str());
    shown.append(" ");
    shown.append(repo_name(parts[4].as_str()).as_str());
    shown.append("/");
    shown.append(parts[3].as_str());
    if parts.len() > 5 {
        assert(texts(parts@)[5] == parts@[5]@);
        shown.append(" - ");
        shown.append(reason_display(parts[5].as_str()).as_str());
    }
    shown
}

/// An entry of the log reads back: its parts between the tabs are what was
/// written, where no part holds a tab itself.
pub proof fn law_log_entry_reads_back(
    timestamp: Seq<char>,
    status: LogStatus,
    sha: Seq<char>,
    remote_branch: Seq<char>,
    repo_path: Seq<char>,
    reason: Option<Seq<char>>,
)
    requires
        !timestamp.contains('\t'),
        !sha.contains('\t'),
        !remote_branch.contains('\t'),
        !repo_path.contains('\t'),
        reason matches Some(text) ==> !text.contains('\t'),
    ensures
        split_of(entry_of(timestamp, status, sha, remote_branch, repo_path, reason), '\t') == seq![
            timestamp,
            status_name(status),
            sha,
            remote_branch,
            repo_path,
        ] + match reason {
            Some(text) => seq![text],
            None => Seq::empty(),
        },
{
    reveal_strlit("\t");
    let tab = seq!['\t'];
    assert("\t"@ =~= tab);
    lemma_status_name(status);
    let end = match reason {
        Some(text) => repo_path + tab + text,
        None => repo_path,
    };
    let ends = match reason {
        Some(text) => seq![repo_path, text],
        None => seq![repo_path],
    };
    match reason {
        Some(text) => {
            lemma_split_whole(text, '\t');
            lemma_split_head(repo_path, '\t', text);
            assert(split_of(end, '\t') =~= ends);
        },
        None => {
            lemma_split_whole(repo_path, '\t');
        },
    }
    let s3 = remote_branch + tab + end;
    let s2 = sha + tab + s3;
    let s1 = status_name(status) + tab + s2;
    let s0 = timestamp + tab + s1;
    lemma_split_head(remote_branch, '\t', end);
    lemma_split_head(sha, '\t', s3);
    lemma_split_head(status_name(status), '\t', s2);
    lemma_split_head(timestamp, '\t', s1);
    assert(entry_of(timestamp, status, sha, remote_branch, repo_path, reason) =~= s0);
    assert(split_of(s0, '\t') =~= seq![
        timestamp,
        status_name(status),
        sha,
        remote_branch,
    ] + ends);
    assert(seq![timestamp, status_name(status), sha, remote_branch] + ends =~= seq![
        timestamp,
        status_name(status),
        sha,
        remote_branch,
        repo_path,
    ] + match reason {
        Some(text) => seq![text],
        None => Seq::empty(),
    });
}

proof fn lemma_status_name(status: LogStatus)
    ensures
        !status_name(status).contains('\t'),
        status_text_shown(status_name(status)) == status_shown(status),
{
    reveal_strlit("uploaded");
    reveal_strlit("skipped");
    reveal_strlit("failed");
    reveal_strlit("retry_ok");
    assert("uploaded"@[0] == 'u');
    assert("skipped"@[0] == 's');
    assert("failed"@[0] == 'f');
    assert("retry_ok"@[0] == 'r');
}

/// The status of an entry is shown as what it stands for.
pub proof fn law_status_is_shown(status: LogStatus)
    ensures
        status_text_shown(status_name(status)) == status_shown(status),
{
    lemma_status_name(status);
}

} // verus!
