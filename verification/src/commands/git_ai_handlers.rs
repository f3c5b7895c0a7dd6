//! Which command `git-ai` is asked for, and the small commands.

use crate::agents::{AgentNames, AgentNamesView};
use crate::commands::checkpoint_args::{absolute, absolute_of};
use crate::commands::tracker::upload::{answer_of, command_answer};
use crate::git::repo_state::is_hex;
use crate::json::{json_quoted, json_quoted_of};
use crate::model::{lemma_views_push, opt_view, views};
use crate::paths::{file_name, file_name_of, join, joined};
use crate::text::{
    ascii_lower_of, chars_of, concat, concat3, contains, eq_ignore_ascii_case, find_of, has_prefix,
    lemma_texts_push, parse_usize, split_once, split_once_of, starts_with, str_eq, string_of, texts,
    trim, trimmed, unsigned_of,
};
use vstd::prelude::*;
use vstd::string::*;
use vstd::utf8::*;

verus! {

// ---------------------------------------------------------------------- dispatch

/// The commands of `git-ai`.
#[derive(Clone, Copy, PartialEq, Eq, Structural, Debug)]
pub enum GitAiCommand {
    Help,
    Version,
    Config,
    Debug,
    Daemon,
    Stats,
    Status,
    Show,
    Checkpoint,
    Log,
    Blame,
    Diff,
    GitPath,
    InstallHooks,
    UninstallHooks,
    GitHooks,
    SquashAuthorship,
    Ci,
    Upgrade,
    FlushCas,
    FlushMetricsDb,
    Login,
    Logout,
    Whoami,
    ExchangeNonce,
    Dashboard,
    ShowPrompt,
    Share,
    SyncPrompts,
    Prompts,
    Prompt,
    Search,
    Continue,
    FetchNotes,
    EffectiveIgnorePatterns,
    BlameAnalysis,
    FetchAuthorshipNotes,
    PushAuthorshipNotes,
    Tracker,
    ReportTokenUsage,
    /// Only in builds for development.
    ShowTranscript,
    Unknown,
}

/// The command that a name stands for. One of them is there in builds for development
/// only.
#[verifier::opaque]
pub open spec fn command_of(name: Seq<char>, development: bool) -> GitAiCommand {
    if name == "help"@ || name == "--help"@ || name == "-h"@ {
        GitAiCommand::Help
    } else if name == "version"@ || name == "--version"@ || name == "-v"@ {
        GitAiCommand::Version
    } else if name == "config"@ {
        GitAiCommand::Config
    } else if name == "debug"@ {
        GitAiCommand::Debug
    } else if name == "bg"@ || name == "d"@ || name == "daemon"@ {
        GitAiCommand::Daemon
    } else if name == "stats"@ {
        GitAiCommand::Stats
    } else if name == "status"@ {
        GitAiCommand::Status
    } else if name == "show"@ {
        GitAiCommand::Show
    } else if name == "checkpoint"@ {
        GitAiCommand::Checkpoint
    } else if name == "log"@ {
        GitAiCommand::Log
    } else if name == "blame"@ {
        GitAiCommand::Blame
    } else if name == "diff"@ {
        GitAiCommand::Diff
    } else if name == "git-path"@ {
        GitAiCommand::GitPath
    } else if name == "install-hooks"@ || name == "install"@ {
        GitAiCommand::InstallHooks
    } else if name == "uninstall-hooks"@ {
        GitAiCommand::UninstallHooks
    } else if name == "git-hooks"@ {
        GitAiCommand::GitHooks
    } else if name == "squash-authorship"@ {
        GitAiCommand::SquashAuthorship
    } else if name == "ci"@ {
        GitAiCommand::Ci
    } else if name == "upgrade"@ {
        GitAiCommand::Upgrade
    } else if name == "flush-cas"@ {
        GitAiCommand::FlushCas
    } else if name == "flush-metrics-db"@ {
        GitAiCommand::FlushMetricsDb
    } else if name == "login"@ {
        GitAiCommand::Login
    } else if name == "logout"@ {
        GitAiCommand::Logout
    } else if name == "whoami"@ {
        GitAiCommand::Whoami
    } else if name == "exchange-nonce"@ {
        GitAiCommand::ExchangeNonce
    } else if name == "dash"@ || name == "dashboard"@ {
        GitAiCommand::Dashboard
    } else if name == "show-prompt"@ {
        GitAiCommand::ShowPrompt
    } else if name == "share"@ {
        GitAiCommand::Share
    } else if name == "sync-prompts"@ {
        GitAiCommand::SyncPrompts
    } else if name == "prompts"@ {
        GitAiCommand::Prompts
    } else if name == "prompt"@ {
        GitAiCommand::Prompt
    } else if name == "search"@ {
        GitAiCommand::Search
    } else if name == "continue"@ {
        GitAiCommand::Continue
    } else if name == "fetch-notes"@ {
        GitAiCommand::FetchNotes
    } else if name == "effective-ignore-patterns"@ {
        GitAiCommand::EffectiveIgnorePatterns
    } else if name == "blame-analysis"@ {
        GitAiCommand::BlameAnalysis
    } else if name == "fetch-authorship-notes"@ || name == "fetch_authorship_notes"@ {
        GitAiCommand::FetchAuthorshipNotes
    } else if name == "push-authorship-notes"@ || name == "push_authorship_notes"@ {
        GitAiCommand::PushAuthorshipNotes
    } else if name == "tracker"@ {
        GitAiCommand::Tracker
    } else if name == "report-token-usage"@ {
        GitAiCommand::ReportTokenUsage
    } else if development && name == "show-transcript"@ {
        GitAiCommand::ShowTranscript
    } else {
        GitAiCommand::Unknown
    }
}

/// The command that a name stands for.
pub fn git_ai_command(name: &str, development: bool) -> (r: GitAiCommand)
    ensures
        r == command_of(name@, development),
{
    proof {
        reveal(command_of);
    }
    if str_eq(name, "help") || str_eq(name, "--help") || str_eq(name, "-h") {
        GitAiCommand::Help
    } else if str_eq(name, "version") || str_eq(name, "--version") || str_eq(name, "-v") {
        GitAiCommand::Version
    } else if str_eq(name, "config") {
        GitAiCommand::Config
    } else if str_eq(name, "debug") {
        GitAiCommand::Debug
    } else if str_eq(name, "bg") || str_eq(name, "d") || str_eq(name, "daemon") {
        GitAiCommand::Daemon
    } else if str_eq(name, "stats") {
        GitAiCommand::Stats
    } else if str_eq(name, "status") {
        GitAiCommand::Status
    } else if str_eq(name, "show") {
        GitAiCommand::Show
    } else if str_eq(name, "checkpoint") {
        GitAiCommand::Checkpoint
    } else if str_eq(name, "log") {
        GitAiCommand::Log
    } else if str_eq(name, "blame") {
        GitAiCommand::Blame
    } else if str_eq(name, "diff") {
        GitAiCommand::Diff
    } else if str_eq(name, "git-path") {
        GitAiCommand::GitPath
    } else if str_eq(name, "install-hooks") || str_eq(name, "install") {
        GitAiCommand::InstallHooks
    } else if str_eq(name, "uninstall-hooks") {
        GitAiCommand::UninstallHooks
    } else if str_eq(name, "git-hooks") {
        GitAiCommand::GitHooks
    } else if str_eq(name, "squash-authorship") {
        GitAiCommand::SquashAuthorship
    } else if str_eq(name, "ci") {
        GitAiCommand::Ci
    } else if str_eq(name, "upgrade") {
        GitAiCommand::Upgrade
    } else if str_eq(name, "flush-cas") {
        GitAiCommand::FlushCas
    } else if str_eq(name, "flush-metrics-db") {
        GitAiCommand::FlushMetricsDb
    } else if str_eq(name, "login") {
        GitAiCommand::Login
    } else if str_eq(name, "logout") {
        GitAiCommand::Logout
    } else if str_eq(name, "whoami") {
        GitAiCommand::Whoami
    } else if str_eq(name, "exchange-nonce") {
        GitAiCommand::ExchangeNonce
    } else if str_eq(name, "dash") || str_eq(name, "dashboard") {
        GitAiCommand::Dashboard
    } else if str_eq(name, "show-prompt") {
        GitAiCommand::ShowPrompt
    } else if str_eq(name, "share") {
        GitAiCommand::Share
    } else if str_eq(name, "sync-prompts") {
        GitAiCommand::SyncPrompts
    } else if str_eq(name, "prompts") {
        GitAiCommand::Prompts
    } else if str_eq(name, "prompt") {
        GitAiCommand::Prompt
    } else if str_eq(name, "search") {
        GitAiCommand::Search
    } else if str_eq(name, "continue") {
        GitAiCommand::Continue
    } else if str_eq(name, "fetch-notes") {
        GitAiCommand::FetchNotes
    } else if str_eq(name, "effective-ignore-patterns") {
        GitAiCommand::EffectiveIgnorePatterns
    } else if str_eq(name, "blame-analysis") {
        GitAiCommand::BlameAnalysis
    } else if str_eq(name, "fetch-authorship-notes") || str_eq(name, "fetch_authorship_notes") {
        GitAiCommand::FetchAuthorshipNotes
    } else if str_eq(name, "push-authorship-notes") || str_eq(name, "push_authorship_notes") {
        GitAiCommand::PushAuthorshipNotes
    } else if str_eq(name, "tracker") {
        GitAiCommand::Tracker
    } else if str_eq(name, "report-token-usage") {
        GitAiCommand::ReportTokenUsage
    } else if development && str_eq(name, "show-transcript") {
        GitAiCommand::ShowTranscript
    } else {
        GitAiCommand::Unknown
    }
}

/// Whether a command needs the background service to be reachable. Those that help to
/// set it up or to find out what is wrong with it do not.
pub open spec fn needs_service(name: Seq<char>) -> bool {
    !(name == "help"@ || name == "--help"@ || name == "-h"@ || name == "version"@ || name == "--version"@ || name == "-v"@ || name == "config"@ || name == "bg"@ || name == "d"@ || name == "daemon"@ || name == "debug"@ || name == "upgrade"@ || name == "install-hooks"@ || name == "install"@ || name == "uninstall-hooks"@ || name == "report-token-usage"@)
}

/// Whether a command needs the background service to be reachable.
pub fn needs_daemon(name: &str) -> (r: bool)
    ensures
        r == needs_service(name@),
{
    !(str_eq(name, "help") || str_eq(name, "--help") || str_eq(name, "-h") || str_eq(name, "version") || str_eq(name, "--version") || str_eq(name, "-v") || str_eq(name, "config") || str_eq(name, "bg") || str_eq(name, "d") || str_eq(name, "daemon") || str_eq(name, "debug") || str_eq(name, "upgrade") || str_eq(name, "install-hooks") || str_eq(name, "install") || str_eq(name, "uninstall-hooks") || str_eq(name, "report-token-usage"))
}

/// Whether a command reads or writes the database of prompts.
pub open spec fn uses_database(name: Seq<char>) -> bool {
    name == "checkpoint"@ || name == "show-prompt"@ || name == "share"@ || name == "sync-prompts"@ || name == "flush-cas"@ || name == "search"@ || name == "continue"@
}

/// Whether a command reads or writes the database of prompts.
pub fn needs_database(name: &str) -> (r: bool)
    ensures
        r == uses_database(name@),
{
    str_eq(name, "checkpoint") || str_eq(name, "show-prompt") || str_eq(name, "share") || str_eq(name, "sync-prompts") || str_eq(name, "flush-cas") || str_eq(name, "search") || str_eq(name, "continue")
}

/// What running `git-ai` is to do first.
pub struct GitAiPlan {
    pub command: GitAiCommand,
    pub connect_service: bool,
    pub warm_database: bool,
}

/// What running `git-ai` with arguments is to do first; without arguments it shows the
/// help. The service is reached for only in the asynchronous mode.
pub fn plan_git_ai(args: &[String], async_mode: bool, development: bool) -> (r: GitAiPlan)
    ensures
        args@.len() == 0 ==> r.command == GitAiCommand::Help && !r.connect_service
            && !r.warm_database,
        args@.len() > 0 ==> r.command == command_of(args@[0]@, development) && r.connect_service == (
        async_mode && needs_service(args@[0]@)) && r.warm_database == uses_database(args@[0]@),
{
    if args.len() == 0 {
        return GitAiPlan {
            command: GitAiCommand::Help,
            connect_service: false,
            warm_database: false,
        };
    }
    let name: &str = args[0].as_str();
    GitAiPlan {
        command: git_ai_command(name, development),
        connect_service: async_mode && needs_daemon(name),
        warm_database: needs_database(name),
    }
}

// ----------------------------------------------------------------------- tracker

/// What `git-ai tracker` is asked for.
pub enum TrackerCommand {
    /// Show how it is used.
    Usage,
    Retry,
    /// Show the last lines of the upload log.
    Log(usize),
    /// Show how the blacklist is used.
    BlacklistUsage,
    BlacklistList,
    /// Add a pattern, or the current repository.
    BlacklistAdd(Option<String>),
    /// Remove a pattern, or the current repository.
    BlacklistRemove(Option<String>),
    UnknownBlacklist(String),
    Unknown(String),
}

/// The texts of what `git-ai tracker` is asked for.
pub enum TrackerView {
    Usage,
    Retry,
    Log(nat),
    BlacklistUsage,
    BlacklistList,
    BlacklistAdd(Option<Seq<char>>),
    BlacklistRemove(Option<Seq<char>>),
    UnknownBlacklist(Seq<char>),
    Unknown(Seq<char>),
}

impl View for TrackerCommand {
    type V = TrackerView;

    open spec fn view(&self) -> TrackerView {
        match self {
            TrackerCommand::Usage => TrackerView::Usage,
            TrackerCommand::Retry => TrackerView::Retry,
            TrackerCommand::Log(n) => TrackerView::Log(*n as nat),
            TrackerCommand::BlacklistUsage => TrackerView::BlacklistUsage,
            TrackerCommand::BlacklistList => TrackerView::BlacklistList,
            TrackerCommand::BlacklistAdd(p) => TrackerView::BlacklistAdd(opt_view(*p)),
            TrackerCommand::BlacklistRemove(p) => TrackerView::BlacklistRemove(opt_view(*p)),
            TrackerCommand::UnknownBlacklist(s) => TrackerView::UnknownBlacklist(s@),
            TrackerCommand::Unknown(s) => TrackerView::Unknown(s@),
        }
    }
}

/// The number of lines that `tracker log` shows: what stands behind `-n`, where it is
/// a number, else 100.
pub open spec fn log_lines_of(args: Seq<Seq<char>>) -> nat {
    if args.len() > 3 && args[2] == "-n"@ && unsigned_of(args[3], usize::MAX as nat) is Some {
        unsigned_of(args[3], usize::MAX as nat)->0
    } else {
        100
    }
}

/// What `git-ai` with the given arguments, the first of which is `tracker`, is asked
/// for.
pub open spec fn tracker_of(args: Seq<Seq<char>>) -> TrackerView {
    let pattern = if args.len() >= 4 {
        Some(args[3])
    } else {
        None
    };
    if args.len() < 2 {
        TrackerView::Usage
    } else if args[1] == "retry"@ {
        TrackerView::Retry
    } else if args[1] == "log"@ {
        TrackerView::Log(log_lines_of(args))
    } else if args[1] == "blacklist"@ {
        if args.len() < 3 {
            TrackerView::BlacklistUsage
        } else if args[2] == "list"@ {
            TrackerView::BlacklistList
        } else if args[2] == "add"@ {
            TrackerView::BlacklistAdd(pattern)
        } else if args[2] == "remove"@ {
            TrackerView::BlacklistRemove(pattern)
        } else {
            TrackerView::UnknownBlacklist(args[2])
        }
    } else {
        TrackerView::Unknown(args[1])
    }
}

/// What `git-ai` with the given arguments, the first of which is `tracker`, is asked
/// for.
pub fn tracker_command(args: &[String]) -> (r: TrackerCommand)
    ensures
        r@ == tracker_of(texts(args@)),
{
    let ghost ts = texts(args@);
    proof {
        assert forall|k: int| 0 <= k < ts.len() implies ts[k] == args@[k]@ by {}
    }
    if args.len() < 2 {
        return TrackerCommand::Usage;
    }
    let sub: &str = args[1].as_str();
    if str_eq(sub, "retry") {
        return TrackerCommand::Retry;
    }
    if str_eq(sub, "log") {
        if args.len() > 3 && str_eq(args[2].as_str(), "-n") {
            if let Some(n) = parse_usize(args[3].as_str()) {
                return TrackerCommand::Log(n);
            }
        }
        return TrackerCommand::Log(100);
    }
    if str_eq(sub, "blacklist") {
        if args.len() < 3 {
            return TrackerCommand::BlacklistUsage;
        }
        let what: &str = args[2].as_str();
        let pattern = if args.len() >= 4 {
            Some(args[3].clone())
        } else {
            None
        };
        if str_eq(what, "list") {
            return TrackerCommand::BlacklistList;
        }
        if str_eq(what, "add") {
            return TrackerCommand::BlacklistAdd(pattern);
        }
        if str_eq(what, "remove") {
            return TrackerCommand::BlacklistRemove(pattern);
        }
        return TrackerCommand::UnknownBlacklist(args[2].clone());
    }
    TrackerCommand::Unknown(args[1].clone())
}

// ------------------------------------------------------------------ small commands

/// Whether notes about authorship were found on a remote.
#[derive(Clone, Copy, PartialEq, Eq, Structural, Debug)]
pub enum NotesExistence {
    Found,
    NotFound,
}

/// How it is written whether notes were found.
pub fn notes_existence_label(existence: NotesExistence) -> (r: &'static str)
    ensures
        r@ == match existence {
            NotesExistence::Found => "found"@,
            NotesExistence::NotFound => "not_found"@,
        },
{
    match existence {
        NotesExistence::Found => "found",
        NotesExistence::NotFound => "not_found",
    }
}

/// A text without the byte order mark at its start.
pub open spec fn without_bom(s: Seq<char>) -> Seq<char> {
    if s.len() > 0 && s[0] == '\u{feff}' {
        s.drop_first()
    } else {
        s
    }
}

/// A text without the byte order mark at its start.
pub fn strip_utf8_bom(input: String) -> (r: String)
    ensures
        r@ == without_bom(input@),
{
    let v = chars_of(input.as_str());
    if v.len() > 0 && v[0] == '\u{feff}' {
        let t = string_of(&v, 1, v.len());
        proof {
            assert(t@ =~= input@.drop_first());
        }
        return t;
    }
    input
}

/// The JSON that a command for programs is given, or what is wrong with its
/// arguments.
pub open spec fn machine_json_of(args: Seq<Seq<char>>, command: Seq<char>) -> Result<
    Seq<char>,
    Seq<char>,
> {
    if args.len() != 2 || args[0] != "--json"@ {
        Err("Usage: git-ai "@ + command + " --json '<json-payload>'"@)
    } else if trimmed(without_bom(args[1])).len() == 0 {
        Err("JSON payload cannot be empty"@)
    } else {
        Ok(without_bom(args[1]))
    }
}

/// The JSON that a command for programs is given.
pub fn parse_machine_json_arg(args: &[String], command: &str) -> (r: Result<String, String>)
    ensures
        match r {
            Ok(payload) => machine_json_of(texts(args@), command@) == Ok::<Seq<char>, Seq<char>>(
                payload@,
            ),
            Err(e) => machine_json_of(texts(args@), command@) == Err::<Seq<char>, Seq<char>>(e@),
        },
{
    let ghost ts = texts(args@);
    proof {
        assert forall|k: int| 0 <= k < ts.len() implies ts[k] == args@[k]@ by {}
    }
    if args.len() != 2 || !str_eq(args[0].as_str(), "--json") {
        let mut m = concat("Usage: git-ai ", command);
        m.append(" --json '<json-payload>'");
        return Err(m);
    }
    let payload = strip_utf8_bom(args[1].clone());
    if trim(payload.as_str()).as_str().is_empty() {
        return Err("JSON payload cannot be empty".to_owned());
    }
    Ok(payload)
}

/// A revision with `head` at its start in capitals, where it stands for `HEAD`: alone
/// or before `~`, `^` or `@`.
pub open spec fn head_rev_of(rev: Seq<char>) -> Seq<char> {
    if rev.len() >= 4 && ascii_lower_of(rev.take(4)) == ascii_lower_of("head"@) && (rev.len() == 4
        || rev[4] == '~' || rev[4] == '^' || rev[4] == '@') {
        "HEAD"@ + rev.skip(4)
    } else {
        rev
    }
}

/// A revision with `head` at its start in capitals, where it stands for `HEAD`.
pub fn normalize_head_rev(rev: &str) -> (r: String)
    ensures
        r@ == head_rev_of(rev@),
{
    let v = chars_of(rev);
    if v.len() >= 4 {
        let start = string_of(&v, 0, 4);
        proof {
            assert(start@ =~= rev@.take(4));
        }
        if eq_ignore_ascii_case(start.as_str(), "head") && (v.len() == 4 || v[4] == '~' || v[4]
            == '^' || v[4] == '@') {
            let rest = string_of(&v, 4, v.len());
            proof {
                assert(rest@ =~= rev@.skip(4));
            }
            return concat("HEAD", rest.as_str());
        }
    }
    rev.to_owned()
}

/// Bringing a revision into form twice is bringing it into form once.
pub proof fn law_head_rev_is_idempotent(rev: Seq<char>)
    ensures
        head_rev_of(head_rev_of(rev)) == head_rev_of(rev),
{
    reveal_strlit("HEAD");
    reveal_strlit("head");
    let h = head_rev_of(rev);
    if h != rev {
        assert(h.take(4) =~= "HEAD"@);
        assert(h.skip(4) =~= rev.skip(4));
        assert(head_rev_of(h) =~= h);
    }
}

/// Whether `git-ai git-hooks` is asked to remove the hooks.
pub fn git_hooks_removes(args: &[String]) -> (r: bool)
    ensures
        r == (args@.len() > 0 && (args@[0]@ == "remove"@ || args@[0]@ == "uninstall"@)),
{
    args.len() > 0 && (str_eq(args[0].as_str(), "remove") || str_eq(args[0].as_str(), "uninstall"))
}

// --------------------------------------------------------------------------- stats

/// The two ends of a range of commits.
pub struct RevRange {
    pub from: String,
    pub to: String,
}

impl View for RevRange {
    type V = (Seq<char>, Seq<char>);

    open spec fn view(&self) -> (Seq<char>, Seq<char>) {
        (self.from@, self.to@)
    }
}

/// What `git-ai stats` is asked for. The ranges stand in the order in which they are
/// to be looked up; an error stands behind them.
pub struct StatsRequest {
    pub json: bool,
    pub commit: Option<String>,
    pub ranges: Vec<RevRange>,
    pub ignore: Vec<String>,
    pub error: Option<String>,
}

/// The texts of what `git-ai stats` is asked for.
#[verifier::ext_equal]
pub struct StatsView {
    pub json: bool,
    pub commit: Option<Seq<char>>,
    pub ranges: Seq<(Seq<char>, Seq<char>)>,
    pub ignore: Seq<Seq<char>>,
    pub error: Option<Seq<char>>,
}

impl View for StatsRequest {
    type V = StatsView;

    open spec fn view(&self) -> StatsView {
        StatsView {
            json: self.json,
            commit: opt_view(self.commit),
            ranges: views(self.ranges@),
            ignore: texts(self.ignore@),
            error: opt_view(self.error),
        }
    }
}

/// Whether a text can be the name of a commit: at least seven hexadecimal digits.
pub open spec fn can_name_commit(s: Seq<char>) -> bool {
    s.len() >= 7 && forall|i: int| 0 <= i < s.len() ==> is_hex(#[trigger] s[i])
}

fn looks_like_commit(s: &str) -> (r: bool)
    ensures
        r == can_name_commit(s@),
{
    let v = chars_of(s);
    let mut i: usize = 0;
    while i < v.len()
        invariant
            i <= v@.len(),
            v@ == s@,
            forall|k: int| 0 <= k < i ==> is_hex(#[trigger] v@[k]),
        decreases v.len() - i,
    {
        let c: char = v[i];
        if !(('0' <= c && c <= '9') || ('a' <= c && c <= 'f') || ('A' <= c && c <= 'F')) {
            proof {
                assert(!is_hex(s@[i as int]));
            }
            return false;
        }
        i += 1;
    }
    v.len() >= 7
}

/// Where the patterns behind `--ignore` end: before a flag, before a range, and, where
/// no commit was named yet, before a first argument that can name one.
pub open spec fn ignore_end(args: Seq<Seq<char>>, i: int, no_commit: bool, found: bool) -> int
    decreases args.len() - i,
{
    if i < 0 || i >= args.len() || has_prefix(args[i], "--"@) || find_of(args[i], ".."@) is Some
        || (no_commit && !found && can_name_commit(args[i])) {
        i
    } else {
        ignore_end(args, i + 1, no_commit, true)
    }
}

/// What the arguments of `git-ai stats` from a place on ask for, after `st`.
pub open spec fn stats_scan(args: Seq<Seq<char>>, i: int, st: StatsView) -> StatsView
    decreases args.len() - i,
{
    if i < 0 || i >= args.len() {
        st
    } else if args[i] == "--json"@ {
        stats_scan(args, i + 1, StatsView { json: true, ..st })
    } else if args[i] == "--ignore"@ {
        let end = ignore_end(args, i + 1, st.commit is None, false);
        if end <= i + 1 || end > args.len() {
            StatsView {
                error: Some("--ignore requires at least one pattern argument"@),
                ..st
            }
        } else {
            stats_scan(
                args,
                end,
                StatsView { ignore: st.ignore + args.subrange(i + 1, end), ..st },
            )
        }
    } else if st.commit is Some {
        StatsView { error: Some("Unknown stats argument: "@ + args[i]), ..st }
    } else {
        match split_once_of(args[i], ".."@) {
            None => stats_scan(
                args,
                i + 1,
                StatsView { commit: Some(head_rev_of(args[i])), ..st },
            ),
            Some(ends) => if find_of(ends.1, ".."@) is Some {
                StatsView {
                    error: Some("Invalid commit range format. Expected: <commit>..<commit>"@),
                    ..st
                }
            } else {
                stats_scan(
                    args,
                    i + 1,
                    StatsView {
                        ranges: st.ranges.push((head_rev_of(ends.0), head_rev_of(ends.1))),
                        ..st
                    },
                )
            },
        }
    }
}

/// What the arguments of `git-ai stats` ask for.
pub open spec fn stats_of(args: Seq<Seq<char>>) -> StatsView {
    stats_scan(
        args,
        0,
        StatsView {
            json: false,
            commit: None,
            ranges: Seq::empty(),
            ignore: Seq::empty(),
            error: None,
        },
    )
}

fn find_ignore_end(args: &[String], from: usize, no_commit: bool) -> (r: usize)
    requires
        from <= args@.len(),
    ensures
        r == ignore_end(texts(args@), from as int, no_commit, false),
        from <= r <= args@.len(),
{
    let ghost ts = texts(args@);
    let mut i: usize = from;
    while i < args.len()
        invariant
            from <= i <= args@.len(),
            ts == texts(args@),
            ignore_end(ts, i as int, no_commit, i > from) == ignore_end(
                ts,
                from as int,
                no_commit,
                false,
            ),
        decreases args.len() - i,
    {
        proof {
            assert(ts[i as int] == args@[i as int]@);
        }
        let arg: &str = args[i].as_str();
        if starts_with(arg, "--") || contains(arg, "..") || (no_commit && i == from
            && looks_like_commit(arg)) {
            return i;
        }
        i += 1;
    }
    i
}

fn push_args(out: &mut Vec<String>, args: &[String], from: usize, to: usize)
    requires
        from <= to <= args@.len(),
    ensures
        texts(final(out)@) == texts(old(out)@) + texts(args@).subrange(from as int, to as int),
{
    broadcast use lemma_texts_push;

    let ghost ts = texts(args@);
    let ghost before = texts(out@);
    let mut k: usize = from;
    proof {
        assert(before + ts.subrange(from as int, from as int) =~= before);
    }
    while k < to
        invariant
            from <= k <= to <= args@.len(),
            ts == texts(args@),
            texts(out@) == before + ts.subrange(from as int, k as int),
        decreases to - k,
    {
        out.push(args[k].clone());
        proof {
            assert(ts[k as int] == args@[k as int]@);
            assert(before + ts.subrange(from as int, k + 1) =~= (before + ts.subrange(
                from as int,
                k as int,
            )).push(ts[k as int]));
        }
        k += 1;
    }
}

/// What the arguments of `git-ai stats` ask for.
pub fn parse_stats_args(args: &[String]) -> (r: StatsRequest)
    ensures
        r@ == stats_of(texts(args@)),
{
    let ghost ts = texts(args@);
    let mut json = false;
    let mut commit: Option<String> = None;
    let mut ranges: Vec<RevRange> = Vec::new();
    let mut ignore: Vec<String> = Vec::new();
    let mut i: usize = 0;
    proof {
        assert(views(ranges@) =~= Seq::empty());
        assert(texts(ignore@) =~= Seq::empty());
    }
    while i < args.len()
        invariant
            i <= args@.len(),
            ts == texts(args@),
            stats_of(ts) == stats_scan(
                ts,
                i as int,
                StatsView {
                    json,
                    commit: opt_view(commit),
                    ranges: views(ranges@),
                    ignore: texts(ignore@),
                    error: None,
                },
            ),
        decreases args.len() - i,
    {
        proof {
            assert(ts[i as int] == args@[i as int]@);
        }
        let arg: &str = args[i].as_str();
        if str_eq(arg, "--json") {
            json = true;
            i += 1;
        } else if str_eq(arg, "--ignore") {
            let end = find_ignore_end(args, i + 1, commit.is_none());
            if end == i + 1 {
                return StatsRequest {
                    json,
                    commit,
                    ranges,
                    ignore,
                    error: Some("--ignore requires at least one pattern argument".to_owned()),
                };
            }
            push_args(&mut ignore, args, i + 1, end);
            i = end;
        } else if commit.is_some() {
            return StatsRequest {
                json,
                commit,
                ranges,
                ignore,
                error: Some(concat("Unknown stats argument: ", arg)),
            };
        } else {
            match split_once(arg, "..") {
                None => {
                    commit = Some(normalize_head_rev(arg));
                },
                Some(ends) => {
                    if contains(ends.1.as_str(), "..") {
                        return StatsRequest {
                            json,
                            commit,
                            ranges,
                            ignore,
                            error: Some(
                                "Invalid commit range format. Expected: <commit>..<commit>".to_owned(),
                            ),
                        };
                    }
                    let range = RevRange {
                        from: normalize_head_rev(ends.0.as_str()),
                        to: normalize_head_rev(ends.1.as_str()),
                    };
                    let ghost before = ranges@;
                    ranges.push(range);
                    proof {
                        lemma_views_push(before, range);
                    }
                },
            }
            i += 1;
        }
    }
    StatsRequest { json, commit, ranges, ignore, error: None }
}

/// What is said of statistics that failed: that no commit was found as it is, any
/// other error with a word before it.
pub fn stats_failure(message: &str) -> (r: String)
    ensures
        r@ == if has_prefix(message@, "No commit found:"@) {
            message@
        } else {
            "Stats failed: "@ + message@
        },
{
    if starts_with(message, "No commit found:") {
        message.to_owned()
    } else {
        concat("Stats failed: ", message)
    }
}

// --------------------------------------------------------------------------- blame

/// The files to look for, in order, that list the revisions which blame ignores: the
/// configured one and the repository's own.
pub open spec fn ignore_revs_of(config: Option<Seq<char>>, workdir: Option<Seq<char>>) -> Seq<
    Seq<char>,
> {
    match workdir {
        None => Seq::empty(),
        Some(dir) => {
            let own = joined(dir, ".git-blame-ignore-revs"@);
            if config is Some && config->0.len() > 0 {
                seq![absolute_of(config->0, dir), own]
            } else {
                seq![own]
            }
        },
    }
}

/// The files to look for, in order, that list the revisions which blame ignores.
pub fn ignore_revs_candidates(config: &Option<String>, workdir: &Option<String>) -> (r: Vec<String>)
    ensures
        texts(r@) == ignore_revs_of(opt_view(*config), opt_view(*workdir)),
{
    let mut out: Vec<String> = Vec::new();
    if let Some(dir) = workdir {
        if let Some(path) = config {
            if !path.as_str().is_empty() {
                out.push(absolute(path.as_str(), dir.as_str()));
            }
        }
        out.push(join(dir.as_str(), ".git-blame-ignore-revs"));
    }
    proof {
        assert(texts(out@) =~= ignore_revs_of(opt_view(*config), opt_view(*workdir)));
    }
    out
}

// ------------------------------------------------------------------ other commands

/// The address of a remote, as `git remote get-url` printed it: none where the
/// command failed or printed nothing.
pub fn remote_url(success: bool, stdout: &[u8]) -> (r: Option<String>)
    ensures
        opt_view(r) == answer_of(success, stdout@),
{
    command_answer(success, stdout)
}

/// The agents whose transcripts can be shown.
#[derive(Clone, Copy, PartialEq, Eq, Structural, Debug)]
pub enum TranscriptAgent {
    Claude,
    Codex,
    Gemini,
    Windsurf,
    ContinueCli,
    GithubCopilot,
    Cursor,
    Amp,
}

/// The agent of a name whose transcripts can be shown.
pub open spec fn transcript_agent_of(name: Seq<char>, names: AgentNamesView) -> Option<
    TranscriptAgent,
> {
    if name == names.name {
        Some(TranscriptAgent::Claude)
    } else if name == "codex"@ {
        Some(TranscriptAgent::Codex)
    } else if name == "gemini"@ {
        Some(TranscriptAgent::Gemini)
    } else if name == "windsurf"@ {
        Some(TranscriptAgent::Windsurf)
    } else if name == "continue-cli"@ {
        Some(TranscriptAgent::ContinueCli)
    } else if name == "github-copilot"@ {
        Some(TranscriptAgent::GithubCopilot)
    } else if name == "cursor"@ {
        Some(TranscriptAgent::Cursor)
    } else if name == "amp"@ {
        Some(TranscriptAgent::Amp)
    } else {
        None
    }
}

/// The agent of a name whose transcripts can be shown.
pub fn transcript_agent(name: &str, names: &AgentNames) -> (r: Option<TranscriptAgent>)
    ensures
        r == transcript_agent_of(name@, names@),
{
    if str_eq(name, names.name.as_str()) {
        Some(TranscriptAgent::Claude)
    } else if str_eq(name, "codex") {
        Some(TranscriptAgent::Codex)
    } else if str_eq(name, "gemini") {
        Some(TranscriptAgent::Gemini)
    } else if str_eq(name, "windsurf") {
        Some(TranscriptAgent::Windsurf)
    } else if str_eq(name, "continue-cli") {
        Some(TranscriptAgent::ContinueCli)
    } else if str_eq(name, "github-copilot") {
        Some(TranscriptAgent::GithubCopilot)
    } else if str_eq(name, "cursor") {
        Some(TranscriptAgent::Cursor)
    } else if str_eq(name, "amp") {
        Some(TranscriptAgent::Amp)
    } else {
        None
    }
}

/// The name of an agent in what is said of its transcripts.
pub open spec fn transcript_agent_name(agent: TranscriptAgent, names: AgentNamesView) -> Seq<char> {
    match agent {
        TranscriptAgent::Claude => names.title,
        TranscriptAgent::Codex => "Codex"@,
        TranscriptAgent::Gemini => "Gemini"@,
        TranscriptAgent::Windsurf => "Windsurf"@,
        TranscriptAgent::ContinueCli => "Continue CLI"@,
        TranscriptAgent::GithubCopilot => "GitHub Copilot"@,
        TranscriptAgent::Cursor => "Cursor"@,
        TranscriptAgent::Amp => "Amp"@,
    }
}

/// What is said of a transcript that cannot be loaded.
pub fn transcript_failure(agent: TranscriptAgent, names: &AgentNames, error: &str) -> (r: String)
    ensures
        r@ == "Error loading "@ + transcript_agent_name(agent, names@) + " transcript: "@ + error@,
{
    let name: &str = match agent {
        TranscriptAgent::Claude => names.title.as_str(),
        TranscriptAgent::Codex => "Codex",
        TranscriptAgent::Gemini => "Gemini",
        TranscriptAgent::Windsurf => "Windsurf",
        TranscriptAgent::ContinueCli => "Continue CLI",
        TranscriptAgent::GithubCopilot => "GitHub Copilot",
        TranscriptAgent::Cursor => "Cursor",
        TranscriptAgent::Amp => "Amp",
    };
    let mut m = concat("Error loading ", name);
    m.append(" transcript: ");
    m.append(error);
    m
}

/// The agents whose transcripts can be shown, in words.
pub open spec fn transcript_agents_listed(names: AgentNamesView) -> Seq<char> {
    names.name + ", codex, gemini, continue-cli, github-copilot, cursor, amp, windsurf"@
}

/// Which transcript is to be shown, of which agent and from where; or what is wrong with
/// the arguments, line by line.
pub open spec fn transcript_request_of(args: Seq<Seq<char>>, names: AgentNamesView) -> Result<
    (TranscriptAgent, Seq<char>),
    Seq<Seq<char>>,
> {
    if args.len() < 2 {
        Err(
            seq![
                "Error: show-transcript requires agent name and path/id"@,
                "Usage: git-ai show-transcript <agent> <path|id>"@,
                "  Agents: "@ + transcript_agents_listed(names),
                "  For amp, provide conversation/thread id instead of path"@,
            ],
        )
    } else {
        match transcript_agent_of(args[0], names) {
            Some(agent) => Ok((agent, args[1])),
            None => Err(
                seq![
                    "Error: Unknown agent '"@ + args[0] + "'"@,
                    "Supported agents: "@ + transcript_agents_listed(names),
                ],
            ),
        }
    }
}

fn listed_agents(start: &str, names: &AgentNames) -> (r: String)
    ensures
        r@ == start@ + transcript_agents_listed(names@),
{
    let mut m = concat(
        names.name.as_str(),
        ", codex, gemini, continue-cli, github-copilot, cursor, amp, windsurf",
    );
    m = concat(start, m.as_str());
    m
}

/// Which transcript is to be shown; or what is wrong with the arguments, line by line.
pub fn transcript_request(args: &[String], names: &AgentNames) -> (r: Result<
    (TranscriptAgent, String),
    Vec<String>,
>)
    ensures
        match r {
            Ok((agent, from)) => transcript_request_of(texts(args@), names@) == Ok::<
                _,
                Seq<Seq<char>>,
            >((agent, from@)),
            Err(lines) => transcript_request_of(texts(args@), names@) == Err::<
                (TranscriptAgent, Seq<char>),
                _,
            >(texts(lines@)),
        },
{
    let mut lines: Vec<String> = Vec::new();
    if args.len() < 2 {
        lines.push("Error: show-transcript requires agent name and path/id".to_owned());
        lines.push("Usage: git-ai show-transcript <agent> <path|id>".to_owned());
        lines.push(listed_agents("  Agents: ", names));
        lines.push("  For amp, provide conversation/thread id instead of path".to_owned());
        proof {
            assert(texts(lines@) =~= transcript_request_of(texts(args@), names@)->Err_0);
        }
        return Err(lines);
    }
    proof {
        assert(texts(args@)[0] == args@[0]@);
        assert(texts(args@)[1] == args@[1]@);
    }
    match transcript_agent(args[0].as_str(), names) {
        Some(agent) => Ok((agent, args[1].clone())),
        None => {
            let mut first = concat("Error: Unknown agent '", args[0].as_str());
            first.append("'");
            lines.push(first);
            lines.push(listed_agents("Supported agents: ", names));
            proof {
                assert(texts(lines@) =~= transcript_request_of(texts(args@), names@)->Err_0);
            }
            Err(lines)
        },
    }
}

/// What is said of the model of a transcript.
pub fn transcript_model_line(model: &Option<String>) -> (r: String)
    ensures
        r@ == "Model: "@ + match *model {
            Some(name) => name@,
            None => "(not available)"@,
        },
{
    match model {
        Some(name) => concat("Model: ", name.as_str()),
        None => concat("Model: ", "(not available)"),
    }
}

// ------------------------------------------------------------------ blame

/// Whether a file with revisions to be ignored is looked for: none is named,
/// that is not switched off, and git can use one.
pub fn looks_for_ignore_revs(named: bool, switched_off: bool, supported: bool) -> (r: bool)
    ensures
        r == (!named && !switched_off && supported),
{
    !named && !switched_off && supported
}

/// What is wrong with a blame, before it is run: it has no file, or its
/// results are to come one by one on a terminal.
pub fn blame_failure(has_args: bool, interactive: bool, incremental: bool) -> (r: Option<
    &'static str,
>)
    ensures
        match r {
            Some(m) => if !has_args {
                m@ == "Error: blame requires a file argument"@
            } else {
                interactive && incremental && m@
                    == "Error: incremental mode is not supported in interactive terminal"@
            },
            None => has_args && !(interactive && incremental),
        },
{
    if !has_args {
        Some("Error: blame requires a file argument")
    } else if interactive && incremental {
        Some("Error: incremental mode is not supported in interactive terminal")
    } else {
        None
    }
}

// ------------------------------------------------------------------ machines

/// An error as it is told to a machine: a JSON object with the message.
pub open spec fn machine_error_of(message: Seq<char>) -> Seq<char> {
    "{\"error\":"@ + json_quoted_of(message) + "}"@
}

/// An error as it is told to a machine.
pub fn machine_error(message: &str) -> (r: String)
    ensures
        r@ == machine_error_of(message@),
{
    concat3("{\"error\":", json_quoted(message).as_str(), "}")
}

/// What is wrong with a field of a machine's request: it is blank.
pub fn blank_field(name: &str, value: &str) -> (r: Option<String>)
    ensures
        opt_view(r) == (if trimmed(value@).len() == 0 {
            Some(name@ + " cannot be empty"@)
        } else {
            None
        }),
{
    let rest = trim(value);
    if rest.as_str().is_empty() {
        Some(concat(name, " cannot be empty"))
    } else {
        None
    }
}

// ------------------------------------------------------------------ the program

/// What the program does, by the name that it was started under.
#[derive(Clone, Copy, PartialEq, Eq, Structural, Debug)]
pub enum Program {
    /// It stands for a hook: say that hooks are gone.
    RetiredHook,
    /// It runs its own commands.
    GitAi,
    /// It stands for git.
    Git,
}

/// The name that the program was started under: the last part of the path, or
/// its own name where there is none.
pub open spec fn binary_name_of(path: Option<Seq<char>>) -> Seq<char> {
    match path {
        Some(p) => match file_name_of(p) {
            Some(name) => name,
            None => "git-ai"@,
        },
        None => "git-ai"@,
    }
}

/// The name that the program was started under.
pub fn binary_name(path: &Option<String>) -> (r: String)
    ensures
        r@ == binary_name_of(opt_view(*path)),
{
    if let Some(p) = path {
        if let Some(name) = file_name(p.as_str()) {
            return name;
        }
    }
    "git-ai".to_owned()
}

/// Whether a name is one of the program's own.
pub open spec fn is_program_name(name: Seq<char>) -> bool {
    name == "git-ai"@ || name == "git-ai.exe"@ || name == "easylife-ai"@ || name
        == "easylife-ai.exe"@
}

/// What the program does: a hook's name comes first, then, in a debug build,
/// the wish to stand for git, then the name that it was started under.
pub fn program_of(name: &str, is_hook_name: bool, debug: bool, stands_for: &Option<String>) -> (r:
    Program)
    ensures
        r == (if is_hook_name {
            Program::RetiredHook
        } else if debug && opt_view(*stands_for) == Some("git"@) {
            Program::Git
        } else if is_program_name(name@) {
            Program::GitAi
        } else {
            Program::Git
        }),
{
    if is_hook_name {
        return Program::RetiredHook;
    }
    if debug {
        if let Some(wish) = stands_for {
            if str_eq(wish.as_str(), "git") {
                return Program::Git;
            }
        }
    }
    if str_eq(name, "git-ai") || str_eq(name, "git-ai.exe") || str_eq(name, "easylife-ai")
        || str_eq(name, "easylife-ai.exe") {
        Program::GitAi
    } else {
        Program::Git
    }
}

/// Each name of a command stands for its own command, and any other name for none; the
/// transcript is shown in builds for development only.
#[verifier::rlimit(40)]
pub proof fn law_each_name_has_its_command(name: Seq<char>, development: bool)
    ensures
        (name == "help"@ || name == "--help"@ || name == "-h"@) ==> command_of(name, development) == GitAiCommand::Help,
        (name == "version"@ || name == "--version"@ || name == "-v"@) ==> command_of(name, development) == GitAiCommand::Version,
        name == "config"@ ==> command_of(name, development) == GitAiCommand::Config,
        name == "debug"@ ==> command_of(name, development) == GitAiCommand::Debug,
        (name == "bg"@ || name == "d"@ || name == "daemon"@) ==> command_of(name, development) == GitAiCommand::Daemon,
        name == "stats"@ ==> command_of(name, development) == GitAiCommand::Stats,
        name == "status"@ ==> command_of(name, development) == GitAiCommand::Status,
        name == "show"@ ==> command_of(name, development) == GitAiCommand::Show,
        name == "checkpoint"@ ==> command_of(name, development) == GitAiCommand::Checkpoint,
        name == "log"@ ==> command_of(name, development) == GitAiCommand::Log,
        name == "blame"@ ==> command_of(name, development) == GitAiCommand::Blame,
        name == "diff"@ ==> command_of(name, development) == GitAiCommand::Diff,
        name == "git-path"@ ==> command_of(name, development) == GitAiCommand::GitPath,
        (name == "install-hooks"@ || name == "install"@) ==> command_of(name, development) == GitAiCommand::InstallHooks,
        name == "uninstall-hooks"@ ==> command_of(name, development) == GitAiCommand::UninstallHooks,
        name == "git-hooks"@ ==> command_of(name, development) == GitAiCommand::GitHooks,
        name == "squash-authorship"@ ==> command_of(name, development) == GitAiCommand::SquashAuthorship,
        name == "ci"@ ==> command_of(name, development) == GitAiCommand::Ci,
        name == "upgrade"@ ==> command_of(name, development) == GitAiCommand::Upgrade,
        name == "flush-cas"@ ==> command_of(name, development) == GitAiCommand::FlushCas,
        name == "flush-metrics-db"@ ==> command_of(name, development) == GitAiCommand::FlushMetricsDb,
        name == "login"@ ==> command_of(name, development) == GitAiCommand::Login,
        name == "logout"@ ==> command_of(name, development) == GitAiCommand::Logout,
        name == "whoami"@ ==> command_of(name, development) == GitAiCommand::Whoami,
        name == "exchange-nonce"@ ==> command_of(name, development) == GitAiCommand::ExchangeNonce,
        (name == "dash"@ || name == "dashboard"@) ==> command_of(name, development) == GitAiCommand::Dashboard,
        name == "show-prompt"@ ==> command_of(name, development) == GitAiCommand::ShowPrompt,
        name == "share"@ ==> command_of(name, development) == GitAiCommand::Share,
        name == "sync-prompts"@ ==> command_of(name, development) == GitAiCommand::SyncPrompts,
        name == "prompts"@ ==> command_of(name, development) == GitAiCommand::Prompts,
        name == "prompt"@ ==> command_of(name, development) == GitAiCommand::Prompt,
        name == "search"@ ==> command_of(name, development) == GitAiCommand::Search,
        name == "continue"@ ==> command_of(name, development) == GitAiCommand::Continue,
        name == "fetch-notes"@ ==> command_of(name, development) == GitAiCommand::FetchNotes,
        name == "effective-ignore-patterns"@ ==> command_of(name, development) == GitAiCommand::EffectiveIgnorePatterns,
        name == "blame-analysis"@ ==> command_of(name, development) == GitAiCommand::BlameAnalysis,
        (name == "fetch-authorship-notes"@ || name == "fetch_authorship_notes"@) ==> command_of(name, development) == GitAiCommand::FetchAuthorshipNotes,
        (name == "push-authorship-notes"@ || name == "push_authorship_notes"@) ==> command_of(name, development) == GitAiCommand::PushAuthorshipNotes,
        name == "tracker"@ ==> command_of(name, development) == GitAiCommand::Tracker,
        name == "report-token-usage"@ ==> command_of(name, development) == GitAiCommand::ReportTokenUsage,
        name == "show-transcript"@ ==> command_of(name, development) == (if development { GitAiCommand::ShowTranscript } else { GitAiCommand::Unknown }),
        (name != "help"@ && name != "--help"@ && name != "-h"@ && name != "version"@ && name != "--version"@ && name != "-v"@ && name != "config"@ && name != "debug"@ && name != "bg"@ && name != "d"@ && name != "daemon"@ && name != "stats"@ && name != "status"@ && name != "show"@ && name != "checkpoint"@ && name != "log"@ && name != "blame"@ && name != "diff"@ && name != "git-path"@ && name != "install-hooks"@ && name != "install"@ && name != "uninstall-hooks"@ && name != "git-hooks"@ && name != "squash-authorship"@ && name != "ci"@ && name != "upgrade"@ && name != "flush-cas"@ && name != "flush-metrics-db"@ && name != "login"@ && name != "logout"@ && name != "whoami"@ && name != "exchange-nonce"@ && name != "dash"@ && name != "dashboard"@ && name != "show-prompt"@ && name != "share"@ && name != "sync-prompts"@ && name != "prompts"@ && name != "prompt"@ && name != "search"@ && name != "continue"@ && name != "fetch-notes"@ && name != "effective-ignore-patterns"@ && name != "blame-analysis"@ && name != "fetch-authorship-notes"@ && name != "fetch_authorship_notes"@ && name != "push-authorship-notes"@ && name != "push_authorship_notes"@ && name != "tracker"@ && name != "report-token-usage"@ && name != "show-transcript"@) ==> command_of(name, development) == GitAiCommand::Unknown,
{
    reveal(command_of);
    reveal_strlit("help");
    reveal_strlit("--help");
    reveal_strlit("-h");
    reveal_strlit("version");
    reveal_strlit("--version");
    reveal_strlit("-v");
    reveal_strlit("config");
    reveal_strlit("debug");
    reveal_strlit("bg");
    reveal_strlit("d");
    reveal_strlit("daemon");
    reveal_strlit("stats");
    reveal_strlit("status");
    reveal_strlit("show");
    reveal_strlit("checkpoint");
    reveal_strlit("log");
    reveal_strlit("blame");
    reveal_strlit("diff");
    reveal_strlit("git-path");
    reveal_strlit("install-hooks");
    reveal_strlit("install");
    reveal_strlit("uninstall-hooks");
    reveal_strlit("git-hooks");
    reveal_strlit("squash-authorship");
    reveal_strlit("ci");
    reveal_strlit("upgrade");
    reveal_strlit("flush-cas");
    reveal_strlit("flush-metrics-db");
    reveal_strlit("login");
    reveal_strlit("logout");
    reveal_strlit("whoami");
    reveal_strlit("exchange-nonce");
    reveal_strlit("dash");
    reveal_strlit("dashboard");
    reveal_strlit("show-prompt");
    reveal_strlit("share");
    reveal_strlit("sync-prompts");
    reveal_strlit("prompts");
    reveal_strlit("prompt");
    reveal_strlit("search");
    reveal_strlit("continue");
    reveal_strlit("fetch-notes");
    reveal_strlit("effective-ignore-patterns");
    reveal_strlit("blame-analysis");
    reveal_strlit("fetch-authorship-notes");
    reveal_strlit("fetch_authorship_notes");
    reveal_strlit("push-authorship-notes");
    reveal_strlit("push_authorship_notes");
    reveal_strlit("tracker");
    reveal_strlit("report-token-usage");
    reveal_strlit("show-transcript");
    assert("help"@.len() == 4);
    assert("--help"@.len() == 6);
    assert("-h"@.len() == 2);
    assert("version"@.len() == 7);
    assert("--version"@.len() == 9);
    assert("-v"@.len() == 2);
    assert("config"@.len() == 6);
    assert("debug"@.len() == 5);
    assert("bg"@.len() == 2);
    assert("d"@.len() == 1);
    assert("daemon"@.len() == 6);
    assert("stats"@.len() == 5);
    assert("status"@.len() == 6);
    assert("show"@.len() == 4);
    assert("checkpoint"@.len() == 10);
    assert("log"@.len() == 3);
    assert("blame"@.len() == 5);
    assert("diff"@.len() == 4);
    assert("git-path"@.len() == 8);
    assert("install-hooks"@.len() == 13);
    assert("install"@.len() == 7);
    assert("uninstall-hooks"@.len() == 15);
    assert("git-hooks"@.len() == 9);
    assert("squash-authorship"@.len() == 17);
    assert("ci"@.len() == 2);
    assert("upgrade"@.len() == 7);
    assert("flush-cas"@.len() == 9);
    assert("flush-metrics-db"@.len() == 16);
    assert("login"@.len() == 5);
    assert("logout"@.len() == 6);
    assert("whoami"@.len() == 6);
    assert("exchange-nonce"@.len() == 14);
    assert("dash"@.len() == 4);
    assert("dashboard"@.len() == 9);
    assert("show-prompt"@.len() == 11);
    assert("share"@.len() == 5);
    assert("sync-prompts"@.len() == 12);
    assert("prompts"@.len() == 7);
    assert("prompt"@.len() == 6);
    assert("search"@.len() == 6);
    assert("continue"@.len() == 8);
    assert("fetch-notes"@.len() == 11);
    assert("effective-ignore-patterns"@.len() == 25);
    assert("blame-analysis"@.len() == 14);
    assert("fetch-authorship-notes"@.len() == 22);
    assert("fetch_authorship_notes"@.len() == 22);
    assert("push-authorship-notes"@.len() == 21);
    assert("push_authorship_notes"@.len() == 21);
    assert("tracker"@.len() == 7);
    assert("report-token-usage"@.len() == 18);
    assert("show-transcript"@.len() == 15);
    assert("help"@[0] == 'h');
    assert("--help"@[0] == '-');
    assert("-h"@[0] == '-');
    assert("-h"@[1] == 'h');
    assert("version"@[0] == 'v');
    assert("--version"@[0] == '-');
    assert("-v"@[0] == '-');
    assert("-v"@[1] == 'v');
    assert("config"@[0] == 'c');
    assert("debug"@[0] == 'd');
    assert("bg"@[0] == 'b');
    assert("daemon"@[0] == 'd');
    assert("stats"@[0] == 's');
    assert("stats"@[1] == 't');
    assert("status"@[0] == 's');
    assert("status"@[1] == 't');
    assert("show"@[0] == 's');
    assert("blame"@[0] == 'b');
    assert("diff"@[0] == 'd');
    assert("diff"@[1] == 'i');
    assert("git-path"@[0] == 'g');
    assert("install"@[0] == 'i');
    assert("uninstall-hooks"@[0] == 'u');
    assert("git-hooks"@[0] == 'g');
    assert("ci"@[0] == 'c');
    assert("upgrade"@[0] == 'u');
    assert("flush-cas"@[0] == 'f');
    assert("login"@[0] == 'l');
    assert("logout"@[0] == 'l');
    assert("whoami"@[0] == 'w');
    assert("exchange-nonce"@[0] == 'e');
    assert("dash"@[0] == 'd');
    assert("dash"@[1] == 'a');
    assert("dashboard"@[0] == 'd');
    assert("show-prompt"@[0] == 's');
    assert("share"@[0] == 's');
    assert("share"@[1] == 'h');
    assert("prompts"@[0] == 'p');
    assert("prompt"@[0] == 'p');
    assert("search"@[0] == 's');
    assert("search"@[1] == 'e');
    assert("continue"@[0] == 'c');
    assert("fetch-notes"@[0] == 'f');
    assert("blame-analysis"@[0] == 'b');
    assert("fetch-authorship-notes"@[5] == '-');
    assert("fetch_authorship_notes"@[5] == '_');
    assert("push-authorship-notes"@[4] == '-');
    assert("push_authorship_notes"@[4] == '_');
    assert("tracker"@[0] == 't');
    assert("show-transcript"@[0] == 's');
}

/// Each agent whose transcripts can be shown is found by its own name, the configured
/// name before all others, and by no other name.
pub proof fn law_each_name_has_its_transcripts(name: Seq<char>, names: AgentNamesView)
    ensures
        name == names.name ==> transcript_agent_of(name, names) == Some(TranscriptAgent::Claude),
        name != names.name && name == "codex"@ ==> transcript_agent_of(name, names) == Some(TranscriptAgent::Codex),
        name != names.name && name == "gemini"@ ==> transcript_agent_of(name, names) == Some(TranscriptAgent::Gemini),
        name != names.name && name == "windsurf"@ ==> transcript_agent_of(name, names) == Some(TranscriptAgent::Windsurf),
        name != names.name && name == "continue-cli"@ ==> transcript_agent_of(name, names) == Some(TranscriptAgent::ContinueCli),
        name != names.name && name == "github-copilot"@ ==> transcript_agent_of(name, names) == Some(TranscriptAgent::GithubCopilot),
        name != names.name && name == "cursor"@ ==> transcript_agent_of(name, names) == Some(TranscriptAgent::Cursor),
        name != names.name && name == "amp"@ ==> transcript_agent_of(name, names) == Some(TranscriptAgent::Amp),
        name != names.name && name != "codex"@ && name != "gemini"@ && name != "windsurf"@ && name != "continue-cli"@ && name != "github-copilot"@ && name != "cursor"@ && name != "amp"@ ==> transcript_agent_of(name, names) is None,
{
    reveal_strlit("codex");
    reveal_strlit("gemini");
    reveal_strlit("windsurf");
    reveal_strlit("continue-cli");
    reveal_strlit("github-copilot");
    reveal_strlit("cursor");
    reveal_strlit("amp");
    assert("codex"@.len() == 5);
    assert("gemini"@.len() == 6);
    assert("windsurf"@.len() == 8);
    assert("continue-cli"@.len() == 12);
    assert("github-copilot"@.len() == 14);
    assert("cursor"@.len() == 6);
    assert("amp"@.len() == 3);
    assert("gemini"@[0] == 'g');
    assert("cursor"@[0] == 'c');
}

} // verus!
