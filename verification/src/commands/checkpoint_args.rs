//! What a checkpoint is asked for: the hook's input, the preset and the files.

use crate::agents::{AgentNames, AgentNamesView};
use crate::authorship::AgentId;
use crate::commands::git_ai_handlers::{strip_utf8_bom, without_bom};
use crate::json::{
    JsonKind, item_pointer, item_pointer_of, json_keys, json_keys_of, json_len, json_len_of,
    json_member, json_member_of, json_text, json_text_of,
};
use crate::model::opt_view;
use crate::paths::{is_absolute, is_absolute_path, join, joined};
use crate::text::{
    clone_option, clone_strings, concat, concat3, has_prefix, lemma_texts_push, opt_texts,
    starts_with, str_eq, texts, trim, trimmed,
};
use crate::text_map::{TextMap, clone_text_map_option, opt_texts_map, text_values};
use vstd::prelude::*;
use vstd::string::*;

verus! {

/// Who wrote what a checkpoint records.
#[derive(Clone, Copy, PartialEq, Eq, Structural, Debug)]
pub enum CheckpointKind {
    Human,
    AiAgent,
    AiTab,
    KnownHuman,
}

/// The name of a kind of checkpoint.
pub open spec fn kind_name(kind: CheckpointKind) -> Seq<char> {
    match kind {
        CheckpointKind::Human => "human"@,
        CheckpointKind::AiAgent => "ai_agent"@,
        CheckpointKind::AiTab => "ai_tab"@,
        CheckpointKind::KnownHuman => "known_human"@,
    }
}

/// The name of a kind of checkpoint.
pub fn checkpoint_kind_to_str(kind: CheckpointKind) -> (r: &'static str)
    ensures
        r@ == kind_name(kind),
{
    match kind {
        CheckpointKind::Human => "human",
        CheckpointKind::AiAgent => "ai_agent",
        CheckpointKind::AiTab => "ai_tab",
        CheckpointKind::KnownHuman => "known_human",
    }
}

/// No two kinds of checkpoint have the same name.
pub proof fn law_kind_names_differ(a: CheckpointKind, b: CheckpointKind)
    requires
        kind_name(a) == kind_name(b),
    ensures
        a == b,
{
    reveal_strlit("human");
    reveal_strlit("ai_agent");
    reveal_strlit("ai_tab");
    reveal_strlit("known_human");
    assert("human"@.len() == 5);
    assert("ai_agent"@.len() == 8);
    assert("ai_tab"@.len() == 6);
    assert("known_human"@.len() == 11);
}

/// What an agent's hook says of the work to be recorded. Its transcript travels
/// beside it.
pub struct AgentRunResult {
    pub agent_id: AgentId,
    pub agent_metadata: Option<TextMap<String>>,
    pub checkpoint_kind: CheckpointKind,
    pub repo_working_dir: Option<String>,
    pub edited_filepaths: Option<Vec<String>>,
    pub will_edit_filepaths: Option<Vec<String>>,
    pub dirty_files: Option<TextMap<String>>,
    pub captured_checkpoint_id: Option<String>,
}

/// The texts of what an agent's hook says.
#[verifier::ext_equal]
pub struct RunView {
    pub tool: Seq<char>,
    pub id: Seq<char>,
    pub model: Seq<char>,
    pub metadata: Option<Map<Seq<char>, Seq<char>>>,
    pub kind: CheckpointKind,
    pub dir: Option<Seq<char>>,
    pub edited: Option<Seq<Seq<char>>>,
    pub will_edit: Option<Seq<Seq<char>>>,
    pub dirty: Option<Map<Seq<char>, Seq<char>>>,
    pub capture: Option<Seq<char>>,
}

impl View for AgentRunResult {
    type V = RunView;

    open spec fn view(&self) -> RunView {
        RunView {
            tool: self.agent_id.tool@,
            id: self.agent_id.id@,
            model: self.agent_id.model@,
            metadata: opt_texts_map(self.agent_metadata),
            kind: self.checkpoint_kind,
            dir: opt_view(self.repo_working_dir),
            edited: opt_texts(self.edited_filepaths),
            will_edit: opt_texts(self.will_edit_filepaths),
            dirty: opt_texts_map(self.dirty_files),
            capture: opt_view(self.captured_checkpoint_id),
        }
    }
}

// --------------------------------------------------------------------- hook input

/// What is known of the standard input.
pub enum Stdin {
    /// It was not read yet.
    Unread,
    /// It was read whole.
    Content(String),
    /// It could not be read.
    Failed(String),
}

/// The input of a checkpoint's hook.
pub enum HookInput {
    /// The input, where there is one.
    Ready(Option<String>),
    /// The standard input has to be read first.
    NeedStdin,
    /// There is nothing to do, and why.
    Stop(String),
}

/// The texts of a hook's input.
pub enum HookView {
    Ready(Option<Seq<char>>),
    NeedStdin,
    Stop(Seq<char>),
}

impl View for HookInput {
    type V = HookView;

    open spec fn view(&self) -> HookView {
        match self {
            HookInput::Ready(s) => HookView::Ready(opt_view(*s)),
            HookInput::NeedStdin => HookView::NeedStdin,
            HookInput::Stop(m) => HookView::Stop(m@),
        }
    }
}

/// What the standard input gives when it is read for a hook, where it was read
/// before or not: a second time it is empty.
pub open spec fn stdin_text(stdin: Stdin, read: bool) -> Seq<char> {
    match stdin {
        Stdin::Content(s) => if read {
            ""@
        } else {
            s@
        },
        _ => ""@,
    }
}

/// The hook's input that the arguments from a place on give, after `found` was found
/// and the standard input was read or not. The last `--hook-input` counts; the
/// value `stdin` stands for the standard input.
pub open spec fn hook_scan(
    args: Seq<Seq<char>>,
    stdin: Stdin,
    i: int,
    found: Option<Seq<char>>,
    read: bool,
) -> HookView
    decreases args.len() - i,
{
    if i < 0 || i >= args.len() {
        HookView::Ready(found)
    } else if args[i] == "--hook-input"@ {
        if i + 1 >= args.len() {
            HookView::Stop("Error: --hook-input requires a value or 'stdin' to read from stdin"@)
        } else {
            let value = without_bom(args[i + 1]);
            if value == "stdin"@ {
                if stdin is Unread {
                    HookView::NeedStdin
                } else if stdin is Failed {
                    HookView::Stop("Failed to read stdin for hook input: "@ + stdin->Failed_0@)
                } else if trimmed(stdin_text(stdin, read)).len() == 0 {
                    HookView::Stop("No hook input provided (via --hook-input or stdin)."@)
                } else {
                    hook_scan(
                        args,
                        stdin,
                        i + 2,
                        Some(without_bom(stdin_text(stdin, read))),
                        true,
                    )
                }
            } else if trimmed(value).len() == 0 {
                HookView::Stop("Error: --hook-input requires a value"@)
            } else {
                hook_scan(args, stdin, i + 2, Some(value), read)
            }
        }
    } else {
        hook_scan(args, stdin, i + 1, found, read)
    }
}

/// The hook's input that the arguments of a checkpoint give.
pub fn parse_hook_input(args: &[String], stdin: &Stdin) -> (r: HookInput)
    ensures
        r@ == hook_scan(texts(args@), *stdin, 0, None, false),
{
    let ghost ts = texts(args@);
    let mut found: Option<String> = None;
    let mut read = false;
    let mut i: usize = 0;
    while i < args.len()
        invariant
            i <= args@.len(),
            ts == texts(args@),
            hook_scan(ts, *stdin, i as int, opt_view(found), read) == hook_scan(
                ts,
                *stdin,
                0,
                None,
                false,
            ),
        decreases args.len() - i,
    {
        proof {
            assert(ts[i as int] == args@[i as int]@);
        }
        if !str_eq(args[i].as_str(), "--hook-input") {
            i += 1;
            continue;
        }
        if args.len() - i < 2 {
            return HookInput::Stop(
                "Error: --hook-input requires a value or 'stdin' to read from stdin".to_owned(),
            );
        }
        proof {
            assert(ts[i + 1] == args@[i + 1]@);
        }
        let value = strip_utf8_bom(args[i + 1].clone());
        if str_eq(value.as_str(), "stdin") {
            let text: String = match stdin {
                Stdin::Unread => {
                    return HookInput::NeedStdin;
                },
                Stdin::Failed(e) => {
                    return HookInput::Stop(
                        concat("Failed to read stdin for hook input: ", e.as_str()),
                    );
                },
                Stdin::Content(s) => if read {
                    "".to_owned()
                } else {
                    s.clone()
                },
            };
            if trim(text.as_str()).as_str().is_empty() {
                return HookInput::Stop(
                    "No hook input provided (via --hook-input or stdin).".to_owned(),
                );
            }
            found = Some(strip_utf8_bom(text));
            read = true;
        } else {
            if trim(value.as_str()).as_str().is_empty() {
                return HookInput::Stop("Error: --hook-input requires a value".to_owned());
            }
            found = Some(value);
        }
        i += 2;
    }
    HookInput::Ready(found)
}

// ------------------------------------------------------------------------- presets

/// What stands behind the first argument of a checkpoint.
#[derive(Clone, Copy, PartialEq, Eq, Structural, Debug)]
pub enum Preset {
    Claude,
    Codex,
    Gemini,
    Windsurf,
    ContinueCli,
    Cursor,
    GithubCopilot,
    Amp,
    AiTab,
    Firebender,
    AgentV1,
    Droid,
    OpenCode,
    Pi,
    MockAi,
    KnownHuman,
    MockKnownHuman,
    Nothing,
}

/// The preset that the arguments of a checkpoint name.
pub open spec fn preset_of(args: Seq<Seq<char>>, names: AgentNamesView) -> Preset {
    if args.len() == 0 {
        Preset::Nothing
    } else if args[0] == names.name {
        Preset::Claude
    } else if args[0] == "codex"@ {
        Preset::Codex
    } else if args[0] == "gemini"@ {
        Preset::Gemini
    } else if args[0] == "windsurf"@ {
        Preset::Windsurf
    } else if args[0] == "continue-cli"@ {
        Preset::ContinueCli
    } else if args[0] == "cursor"@ {
        Preset::Cursor
    } else if args[0] == "github-copilot"@ {
        Preset::GithubCopilot
    } else if args[0] == "amp"@ {
        Preset::Amp
    } else if args[0] == "ai_tab"@ {
        Preset::AiTab
    } else if args[0] == "firebender"@ {
        Preset::Firebender
    } else if args[0] == "agent-v1"@ {
        Preset::AgentV1
    } else if args[0] == "droid"@ {
        Preset::Droid
    } else if args[0] == "opencode"@ {
        Preset::OpenCode
    } else if args[0] == "pi"@ {
        Preset::Pi
    } else if args[0] == "mock_ai"@ {
        Preset::MockAi
    } else if args[0] == "known_human"@ {
        Preset::KnownHuman
    } else if args[0] == "mock_known_human"@ {
        Preset::MockKnownHuman
    } else {
        Preset::Nothing
    }
}

/// The preset that the arguments of a checkpoint name.
pub fn checkpoint_preset(args: &[String], names: &AgentNames) -> (r: Preset)
    ensures
        r == preset_of(texts(args@), names@),
        args@.len() == 0 ==> r == Preset::Nothing,
        !(args@.len() == 0) && args@[0]@ == names.name@ ==> r == Preset::Claude,
        !(args@.len() == 0) && args@[0]@ != names.name@ && args@[0]@ == "codex"@ ==> r == Preset::Codex,
        !(args@.len() == 0) && args@[0]@ != names.name@ && args@[0]@ == "gemini"@ ==> r == Preset::Gemini,
        !(args@.len() == 0) && args@[0]@ != names.name@ && args@[0]@ == "windsurf"@ ==> r == Preset::Windsurf,
        !(args@.len() == 0) && args@[0]@ != names.name@ && args@[0]@ == "continue-cli"@ ==> r == Preset::ContinueCli,
        !(args@.len() == 0) && args@[0]@ != names.name@ && args@[0]@ == "cursor"@ ==> r == Preset::Cursor,
        !(args@.len() == 0) && args@[0]@ != names.name@ && args@[0]@ == "github-copilot"@ ==> r == Preset::GithubCopilot,
        !(args@.len() == 0) && args@[0]@ != names.name@ && args@[0]@ == "amp"@ ==> r == Preset::Amp,
        !(args@.len() == 0) && args@[0]@ != names.name@ && args@[0]@ == "ai_tab"@ ==> r == Preset::AiTab,
        !(args@.len() == 0) && args@[0]@ != names.name@ && args@[0]@ == "firebender"@ ==> r == Preset::Firebender,
        !(args@.len() == 0) && args@[0]@ != names.name@ && args@[0]@ == "agent-v1"@ ==> r == Preset::AgentV1,
        !(args@.len() == 0) && args@[0]@ != names.name@ && args@[0]@ == "droid"@ ==> r == Preset::Droid,
        !(args@.len() == 0) && args@[0]@ != names.name@ && args@[0]@ == "opencode"@ ==> r == Preset::OpenCode,
        !(args@.len() == 0) && args@[0]@ != names.name@ && args@[0]@ == "pi"@ ==> r == Preset::Pi,
        !(args@.len() == 0) && args@[0]@ != names.name@ && args@[0]@ == "mock_ai"@ ==> r == Preset::MockAi,
        !(args@.len() == 0) && args@[0]@ != names.name@ && args@[0]@ == "known_human"@ ==> r == Preset::KnownHuman,
        !(args@.len() == 0) && args@[0]@ != names.name@ && args@[0]@ == "mock_known_human"@ ==> r == Preset::MockKnownHuman,
        !(args@.len() == 0) && args@[0]@ != names.name@ && args@[0]@ != "codex"@ && args@[0]@ != "gemini"@ && args@[0]@ != "windsurf"@ && args@[0]@ != "continue-cli"@ && args@[0]@ != "cursor"@ && args@[0]@ != "github-copilot"@ && args@[0]@ != "amp"@ && args@[0]@ != "ai_tab"@ && args@[0]@ != "firebender"@ && args@[0]@ != "agent-v1"@ && args@[0]@ != "droid"@ && args@[0]@ != "opencode"@ && args@[0]@ != "pi"@ && args@[0]@ != "mock_ai"@ && args@[0]@ != "known_human"@ && args@[0]@ != "mock_known_human"@ ==> r == Preset::Nothing,
{
    if args.len() == 0 {
        return Preset::Nothing;
    }
    proof {
        law_each_name_has_its_preset(texts(args@), names@);
        assert(texts(args@)[0] == args@[0]@);
    }
    let name: &str = args[0].as_str();
    if str_eq(name, names.name.as_str()) {
        Preset::Claude
    } else if str_eq(name, "codex") {
        Preset::Codex
    } else if str_eq(name, "gemini") {
        Preset::Gemini
    } else if str_eq(name, "windsurf") {
        Preset::Windsurf
    } else if str_eq(name, "continue-cli") {
        Preset::ContinueCli
    } else if str_eq(name, "cursor") {
        Preset::Cursor
    } else if str_eq(name, "github-copilot") {
        Preset::GithubCopilot
    } else if str_eq(name, "amp") {
        Preset::Amp
    } else if str_eq(name, "ai_tab") {
        Preset::AiTab
    } else if str_eq(name, "firebender") {
        Preset::Firebender
    } else if str_eq(name, "agent-v1") {
        Preset::AgentV1
    } else if str_eq(name, "droid") {
        Preset::Droid
    } else if str_eq(name, "opencode") {
        Preset::OpenCode
    } else if str_eq(name, "pi") {
        Preset::Pi
    } else if str_eq(name, "mock_ai") {
        Preset::MockAi
    } else if str_eq(name, "known_human") {
        Preset::KnownHuman
    } else if str_eq(name, "mock_known_human") {
        Preset::MockKnownHuman
    } else {
        Preset::Nothing
    }
}

/// Whether an agent stands behind a preset, which reads the hook's input itself.
pub open spec fn is_agent_preset(preset: Preset) -> bool {
    !(preset is MockAi || preset is KnownHuman || preset is MockKnownHuman || preset is Nothing)
}

/// What is said before the error of an agent's preset.
pub open spec fn preset_error_label(preset: Preset, names: AgentNamesView) -> Seq<char> {
    match preset {
        Preset::Claude => names.title + " preset error: "@,
        Preset::Codex => "Codex preset error: "@,
        Preset::Gemini => "Gemini preset error: "@,
        Preset::Windsurf => "Windsurf preset error: "@,
        Preset::ContinueCli => "Continue CLI preset error: "@,
        Preset::Cursor => "Error running Cursor preset: "@,
        Preset::GithubCopilot => "Github Copilot preset error: "@,
        Preset::Amp => "Amp preset error: "@,
        Preset::AiTab => "ai_tab preset error: "@,
        Preset::Firebender => "Firebender preset error: "@,
        Preset::AgentV1 => "Agent V1 preset error: "@,
        Preset::Droid => "Droid preset error: "@,
        Preset::OpenCode => "OpenCode preset error: "@,
        Preset::Pi => "Pi preset error: "@,
        _ => ""@,
    }
}

/// What is said of an agent's preset that fails.
pub fn preset_failure(preset: Preset, names: &AgentNames, error: &str) -> (r: String)
    requires
        is_agent_preset(preset),
    ensures
        r@ == preset_error_label(preset, names@) + error@,
{
    if preset == Preset::Claude {
        return concat3(names.title.as_str(), " preset error: ", error);
    }
    let label: &str = match preset {
        Preset::Codex => "Codex preset error: ",
        Preset::Gemini => "Gemini preset error: ",
        Preset::Windsurf => "Windsurf preset error: ",
        Preset::ContinueCli => "Continue CLI preset error: ",
        Preset::Cursor => "Error running Cursor preset: ",
        Preset::GithubCopilot => "Github Copilot preset error: ",
        Preset::Amp => "Amp preset error: ",
        Preset::AiTab => "ai_tab preset error: ",
        Preset::Firebender => "Firebender preset error: ",
        Preset::AgentV1 => "Agent V1 preset error: ",
        Preset::Droid => "Droid preset error: ",
        Preset::OpenCode => "OpenCode preset error: ",
        Preset::Pi => "Pi preset error: ",
        _ => "",
    };
    concat(label, error)
}

/// The directory against which relative paths are read, once a preset has run: the
/// one that the agent gives, but for two presets, else the current one.
pub open spec fn base_dir_of(preset: Preset, current: Seq<char>, given: Option<Seq<char>>) -> Seq<
    char,
> {
    if is_agent_preset(preset) && !(preset is GithubCopilot) && !(preset is AgentV1)
        && given is Some {
        given->0
    } else {
        current
    }
}

/// The directory against which relative paths are read, once a preset has run.
pub fn base_directory(preset: Preset, current: &str, given: &Option<String>) -> (r: String)
    ensures
        r@ == base_dir_of(preset, current@, opt_view(*given)),
{
    let agent = match preset {
        Preset::MockAi => false,
        Preset::KnownHuman => false,
        Preset::MockKnownHuman => false,
        Preset::Nothing => false,
        Preset::GithubCopilot => false,
        Preset::AgentV1 => false,
        _ => true,
    };
    match given {
        Some(dir) => if agent {
            dir.clone()
        } else {
            current.to_owned()
        },
        None => current.to_owned(),
    }
}

/// The arguments that are no flags.
pub open spec fn paths_in(args: Seq<Seq<char>>) -> Seq<Seq<char>>
    decreases args.len(),
{
    if args.len() == 0 {
        Seq::empty()
    } else {
        let before = paths_in(args.drop_last());
        if has_prefix(args.last(), "--"@) {
            before
        } else {
            before.push(args.last())
        }
    }
}

/// The arguments from a place on that are no flags.
pub fn paths_from(args: &[String], from: usize) -> (r: Vec<String>)
    requires
        from <= args@.len(),
    ensures
        texts(r@) == paths_in(texts(args@).skip(from as int)),
{
    broadcast use lemma_texts_push;

    let ghost rest = texts(args@).skip(from as int);
    let mut out: Vec<String> = Vec::new();
    let mut i: usize = from;
    proof {
        assert(rest.take(0) =~= Seq::empty());
        assert(texts(out@) =~= Seq::empty());
    }
    while i < args.len()
        invariant
            from <= i <= args@.len(),
            rest == texts(args@).skip(from as int),
            texts(out@) == paths_in(rest.take(i - from)),
        decreases args.len() - i,
    {
        proof {
            assert(rest.take(i + 1 - from).drop_last() =~= rest.take(i - from));
            assert(rest.take(i + 1 - from).last() == args@[i as int]@);
        }
        if !starts_with(args[i].as_str(), "--") {
            out.push(args[i].clone());
        }
        i += 1;
    }
    proof {
        assert(rest.take(rest.len() as int) =~= rest);
    }
    out
}

/// The arguments behind the first `--`, where there is one.
pub open spec fn after_separator(args: Seq<Seq<char>>) -> Option<Seq<Seq<char>>>
    decreases args.len(),
{
    if args.len() == 0 {
        None
    } else if args[0] == "--"@ {
        Some(args.drop_first())
    } else {
        after_separator(args.drop_first())
    }
}

fn separator_end(args: &[String]) -> (r: Option<usize>)
    ensures
        match r {
            Some(i) => i <= args@.len() && after_separator(texts(args@)) == Some(
                texts(args@).skip(i as int),
            ),
            None => after_separator(texts(args@)) is None,
        },
{
    let ghost ts = texts(args@);
    let mut i: usize = 0;
    proof {
        assert(ts.skip(0) =~= ts);
    }
    while i < args.len()
        invariant
            i <= args@.len(),
            ts == texts(args@),
            after_separator(ts.skip(i as int)) == after_separator(ts),
        decreases args.len() - i,
    {
        proof {
            assert(ts.skip(i as int)[0] == args@[i as int]@);
            assert(ts.skip(i as int).drop_first() =~= ts.skip(i + 1));
        }
        if str_eq(args[i].as_str(), "--") {
            return Some(i + 1);
        }
        i += 1;
    }
    None
}

/// A list that is there only where it holds something.
pub open spec fn unless_empty(list: Seq<Seq<char>>) -> Option<Seq<Seq<char>>> {
    if list.len() == 0 {
        None
    } else {
        Some(list)
    }
}

fn some_unless_empty(list: Vec<String>) -> (r: Option<Vec<String>>)
    ensures
        opt_texts(r) == unless_empty(texts(list@)),
{
    if list.len() == 0 {
        None
    } else {
        Some(list)
    }
}

/// What a run of the `mock_ai` preset says: the paths among the arguments, or, where
/// there are none at all, every changed file.
pub open spec fn mock_ai_run(
    args: Seq<Seq<char>>,
    stamp: Seq<char>,
    changed: Seq<Seq<char>>,
) -> RunView {
    RunView {
        tool: "mock_ai"@,
        id: "ai-thread-"@ + stamp,
        model: "unknown"@,
        metadata: None,
        kind: CheckpointKind::AiAgent,
        dir: None,
        edited: if args.len() > 1 {
            unless_empty(paths_in(args.skip(1)))
        } else {
            Some(changed)
        },
        will_edit: None,
        dirty: None,
        capture: None,
    }
}

/// What a run of the `mock_ai` preset says.
pub fn mock_ai_result(args: &[String], stamp: &str, changed: Vec<String>) -> (r: AgentRunResult)
    ensures
        r@ == mock_ai_run(texts(args@), stamp@, texts(changed@)),
{
    let edited_filepaths = if args.len() > 1 {
        some_unless_empty(paths_from(args, 1))
    } else {
        Some(changed)
    };
    AgentRunResult {
        agent_id: AgentId {
            tool: "mock_ai".to_owned(),
            id: concat("ai-thread-", stamp),
            model: "unknown".to_owned(),
        },
        agent_metadata: None,
        checkpoint_kind: CheckpointKind::AiAgent,
        repo_working_dir: None,
        edited_filepaths,
        will_edit_filepaths: None,
        dirty_files: None,
        captured_checkpoint_id: None,
    }
}

/// What a run of the `mock_known_human` preset says.
pub open spec fn mock_known_human_run(args: Seq<Seq<char>>) -> RunView {
    RunView {
        tool: "mock_known_human"@,
        id: "mock_known_human_session"@,
        model: "unknown"@,
        metadata: None,
        kind: CheckpointKind::KnownHuman,
        dir: None,
        edited: if args.len() > 1 {
            unless_empty(paths_in(args.skip(1)))
        } else {
            None
        },
        will_edit: None,
        dirty: None,
        capture: None,
    }
}

/// What a run of the `mock_known_human` preset says.
pub fn mock_known_human_result(args: &[String]) -> (r: AgentRunResult)
    ensures
        r@ == mock_known_human_run(texts(args@)),
{
    let edited_filepaths = if args.len() > 1 {
        some_unless_empty(paths_from(args, 1))
    } else {
        None
    };
    AgentRunResult {
        agent_id: AgentId {
            tool: "mock_known_human".to_owned(),
            id: "mock_known_human_session".to_owned(),
            model: "unknown".to_owned(),
        },
        agent_metadata: None,
        checkpoint_kind: CheckpointKind::KnownHuman,
        repo_working_dir: None,
        edited_filepaths,
        will_edit_filepaths: None,
        dirty_files: None,
        captured_checkpoint_id: None,
    }
}

// --------------------------------------------------------------------- known human

/// What an editor says of lines that a human wrote.
pub struct KnownHuman {
    pub editor: String,
    pub editor_version: String,
    pub extension_version: String,
    pub cwd: Option<String>,
    pub edited_filepaths: Option<Vec<String>>,
    pub dirty_files: Option<TextMap<String>>,
}

/// The texts of what an editor says.
#[verifier::ext_equal]
pub struct KnownHumanView {
    pub editor: Seq<char>,
    pub editor_version: Seq<char>,
    pub extension_version: Seq<char>,
    pub cwd: Option<Seq<char>>,
    pub edited: Option<Seq<Seq<char>>>,
    pub dirty: Option<Map<Seq<char>, Seq<char>>>,
}

impl View for KnownHuman {
    type V = KnownHumanView;

    open spec fn view(&self) -> KnownHumanView {
        KnownHumanView {
            editor: self.editor@,
            editor_version: self.editor_version@,
            extension_version: self.extension_version@,
            cwd: opt_view(self.cwd),
            edited: opt_texts(self.edited_filepaths),
            dirty: opt_texts_map(self.dirty_files),
        }
    }
}

/// What the arguments of `known_human` from a place on say, after the given editor,
/// versions and files were read.
pub open spec fn known_human_scan(
    args: Seq<Seq<char>>,
    i: int,
    editor: Seq<char>,
    editor_version: Seq<char>,
    extension_version: Seq<char>,
    files: Seq<Seq<char>>,
) -> KnownHumanView
    decreases args.len() - i,
{
    let more = i + 1 < args.len();
    if i < 0 || i >= args.len() {
        KnownHumanView {
            editor,
            editor_version,
            extension_version,
            cwd: None,
            edited: unless_empty(files),
            dirty: None,
        }
    } else if args[i] == "--editor"@ && more {
        known_human_scan(args, i + 2, args[i + 1], editor_version, extension_version, files)
    } else if args[i] == "--editor-version"@ && more {
        known_human_scan(args, i + 2, editor, args[i + 1], extension_version, files)
    } else if args[i] == "--extension-version"@ && more {
        known_human_scan(args, i + 2, editor, editor_version, args[i + 1], files)
    } else if args[i] == "--"@ {
        KnownHumanView {
            editor,
            editor_version,
            extension_version,
            cwd: None,
            edited: unless_empty(files + args.skip(i + 1)),
            dirty: None,
        }
    } else if has_prefix(args[i], "--"@) {
        known_human_scan(args, i + 1, editor, editor_version, extension_version, files)
    } else {
        known_human_scan(args, i + 1, editor, editor_version, extension_version, files.push(args[i]))
    }
}

/// What the arguments of `known_human` say.
pub open spec fn known_human_of_args(args: Seq<Seq<char>>) -> KnownHumanView {
    known_human_scan(args, 1, "unknown"@, "unknown"@, "unknown"@, Seq::empty())
}

fn append_args(files: &mut Vec<String>, args: &[String], from: usize)
    requires
        from <= args@.len(),
    ensures
        texts(final(files)@) == texts(old(files)@) + texts(args@).skip(from as int),
{
    broadcast use lemma_texts_push;

    let ghost ts = texts(args@);
    let ghost before = texts(files@);
    let mut k: usize = from;
    proof {
        assert(before + ts.subrange(from as int, from as int) =~= before);
    }
    while k < args.len()
        invariant
            from <= k <= args@.len(),
            ts == texts(args@),
            texts(files@) == before + ts.subrange(from as int, k as int),
        decreases args.len() - k,
    {
        files.push(args[k].clone());
        proof {
            assert(ts[k as int] == args@[k as int]@);
            assert(before + ts.subrange(from as int, k + 1) =~= (before + ts.subrange(
                from as int,
                k as int,
            )).push(ts[k as int]));
        }
        k += 1;
    }
    proof {
        assert(ts.subrange(from as int, ts.len() as int) =~= ts.skip(from as int));
    }
}

/// What the arguments of `known_human` say.
pub fn known_human_from_args(args: &[String]) -> (r: KnownHuman)
    requires
        args@.len() > 0,
    ensures
        r@ == known_human_of_args(texts(args@)),
{
    broadcast use lemma_texts_push;

    let ghost ts = texts(args@);
    let mut editor = "unknown".to_owned();
    let mut editor_version = "unknown".to_owned();
    let mut extension_version = "unknown".to_owned();
    let mut files: Vec<String> = Vec::new();
    let mut i: usize = 1;
    proof {
        assert(texts(files@) =~= Seq::empty());
    }
    while i < args.len()
        invariant
            1 <= i <= args@.len(),
            ts == texts(args@),
            known_human_scan(
                ts,
                i as int,
                editor@,
                editor_version@,
                extension_version@,
                texts(files@),
            ) == known_human_of_args(ts),
        decreases args.len() - i,
    {
        let more = args.len() - i >= 2;
        proof {
            assert(ts[i as int] == args@[i as int]@);
            if more {
                assert(ts[i + 1] == args@[i + 1]@);
            }
        }
        let arg: &str = args[i].as_str();
        if str_eq(arg, "--editor") && more {
            editor = args[i + 1].clone();
            i += 2;
        } else if str_eq(arg, "--editor-version") && more {
            editor_version = args[i + 1].clone();
            i += 2;
        } else if str_eq(arg, "--extension-version") && more {
            extension_version = args[i + 1].clone();
            i += 2;
        } else if str_eq(arg, "--") {
            append_args(&mut files, args, i + 1);
            return KnownHuman {
                editor,
                editor_version,
                extension_version,
                cwd: None,
                edited_filepaths: some_unless_empty(files),
                dirty_files: None,
            };
        } else if starts_with(arg, "--") {
            i += 1;
        } else {
            let ghost before = files@;
            let file = args[i].clone();
            files.push(file);
            proof {
                lemma_texts_push(before, file);
            }
            i += 1;
        }
    }
    KnownHuman {
        editor,
        editor_version,
        extension_version,
        cwd: None,
        edited_filepaths: some_unless_empty(files),
        dirty_files: None,
    }
}

/// The strings among the first items of the array that a pointer names.
pub open spec fn strings_among(text: Seq<char>, pointer: Seq<char>, n: nat) -> Seq<Seq<char>>
    decreases n,
{
    if n == 0 {
        Seq::empty()
    } else {
        let before = strings_among(text, pointer, (n - 1) as nat);
        match json_text_of(text, item_pointer_of(pointer, (n - 1) as nat)) {
            Some(s) => before.push(s),
            None => before,
        }
    }
}

/// The strings among the members of the object that a pointer names, under the given
/// keys.
pub open spec fn string_members(text: Seq<char>, pointer: Seq<char>, keys: Seq<Seq<char>>) -> Map<
    Seq<char>,
    Seq<char>,
>
    decreases keys.len(),
{
    if keys.len() == 0 {
        Map::empty()
    } else {
        let before = string_members(text, pointer, keys.drop_last());
        match json_member_of(text, pointer, keys.last()) {
            Some(v) => if v.0 is Text {
                before.insert(keys.last(), v.1)
            } else {
                before
            },
            None => before,
        }
    }
}

/// A named string of a JSON object, or `unknown`.
pub open spec fn known_or_unknown(text: Seq<char>, pointer: Seq<char>) -> Seq<char> {
    match json_text_of(text, pointer) {
        Some(s) => s,
        None => "unknown"@,
    }
}

/// The files that an editor names as edited.
pub open spec fn edited_of_json(text: Seq<char>) -> Option<Seq<Seq<char>>> {
    match json_len_of(text, "/edited_filepaths"@) {
        Some(n) => unless_empty(strings_among(text, "/edited_filepaths"@, n)),
        None => None,
    }
}

/// The unsaved files that an editor sends, with what they hold.
pub open spec fn dirty_of_json(text: Seq<char>) -> Option<Map<Seq<char>, Seq<char>>> {
    match json_keys_of(text, "/dirty_files"@) {
        Some(keys) => {
            let m = string_members(text, "/dirty_files"@, keys);
            if m == Map::<Seq<char>, Seq<char>>::empty() {
                None
            } else {
                Some(m)
            }
        },
        None => None,
    }
}

/// What an editor says as JSON.
pub open spec fn known_human_of_json(text: Seq<char>) -> KnownHumanView {
    KnownHumanView {
        editor: known_or_unknown(text, "/editor"@),
        editor_version: known_or_unknown(text, "/editor_version"@),
        extension_version: known_or_unknown(text, "/extension_version"@),
        cwd: json_text_of(text, "/cwd"@),
        edited: edited_of_json(text),
        dirty: dirty_of_json(text),
    }
}

fn text_or_unknown(text: &str, pointer: &str) -> (r: String)
    ensures
        r@ == known_or_unknown(text@, pointer@),
{
    match json_text(text, pointer) {
        Some(s) => s,
        None => "unknown".to_owned(),
    }
}

fn edited_from_json(text: &str) -> (r: Option<Vec<String>>)
    ensures
        opt_texts(r) == edited_of_json(text@),
{
    broadcast use lemma_texts_push;

    let n: usize = match json_len(text, "/edited_filepaths") {
        Some(n) => n,
        None => {
            return None;
        },
    };
    let mut out: Vec<String> = Vec::new();
    let mut i: usize = 0;
    proof {
        assert(texts(out@) =~= Seq::empty());
    }
    while i < n
        invariant
            i <= n,
            texts(out@) == strings_among(text@, "/edited_filepaths"@, i as nat),
        decreases n - i,
    {
        let pointer = item_pointer("/edited_filepaths", i);
        if let Some(s) = json_text(text, pointer.as_str()) {
            out.push(s);
        }
        i += 1;
    }
    some_unless_empty(out)
}

fn dirty_from_json(text: &str) -> (r: Option<TextMap<String>>)
    ensures
        opt_texts_map(r) == dirty_of_json(text@),
{
    let keys = match json_keys(text, "/dirty_files") {
        Some(keys) => keys,
        None => {
            return None;
        },
    };
    let ghost all = texts(keys@);
    let mut out: TextMap<String> = TextMap::new();
    let mut i: usize = 0;
    proof {
        assert(all.take(0) =~= Seq::empty());
        assert(text_values(out@) =~= Map::empty());
    }
    while i < keys.len()
        invariant
            i <= keys@.len(),
            all == texts(keys@),
            text_values(out@) == string_members(text@, "/dirty_files"@, all.take(i as int)),
            out.key_order().len() == 0 <==> out@.dom() =~= Set::empty(),
        decreases keys.len() - i,
    {
        proof {
            assert(all.take(i + 1).drop_last() =~= all.take(i as int));
            assert(all.take(i + 1).last() == keys@[i as int]@);
        }
        if let Some((JsonKind::Text, s)) = json_member(text, "/dirty_files", keys[i].as_str()) {
            let ghost before = out@;
            let ghost order = out.key_order();
            let ghost sv = s;
            out.insert(keys[i].clone(), s);
            proof {
                let k = keys@[i as int]@;
                assert(text_values(before.insert(k, sv)) =~= text_values(before).insert(k, sv@));
                assert(out@.dom().contains(k));
                if before.dom().contains(k) {
                    assert(order.len() != 0);
                }
            }
        }
        i += 1;
    }
    proof {
        assert(all.take(all.len() as int) =~= all);
    }
    if out.len() == 0 {
        proof {
            assert(text_values(out@) =~= Map::empty());
        }
        None
    } else {
        proof {
            assert(text_values(out@).dom() =~= out@.dom());
        }
        Some(out)
    }
}

/// What an editor says as JSON. A text that is no JSON says nothing.
pub fn known_human_from_json(text: &str) -> (r: KnownHuman)
    ensures
        r@ == known_human_of_json(text@),
{
    KnownHuman {
        editor: text_or_unknown(text, "/editor"),
        editor_version: text_or_unknown(text, "/editor_version"),
        extension_version: text_or_unknown(text, "/extension_version"),
        cwd: json_text(text, "/cwd"),
        edited_filepaths: edited_from_json(text),
        dirty_files: dirty_from_json(text),
    }
}

/// What a run of the `known_human` preset says.
pub open spec fn known_human_run(kh: KnownHumanView) -> RunView {
    RunView {
        tool: "known_human"@,
        id: "known_human_session"@,
        model: "unknown"@,
        metadata: Some(
            Map::<Seq<char>, Seq<char>>::empty().insert("kh_editor"@, kh.editor).insert(
                "kh_editor_version"@,
                kh.editor_version,
            ).insert("kh_extension_version"@, kh.extension_version),
        ),
        kind: CheckpointKind::KnownHuman,
        dir: kh.cwd,
        edited: kh.edited,
        will_edit: None,
        dirty: kh.dirty,
        capture: None,
    }
}

/// What a run of the `known_human` preset says.
pub fn known_human_result(kh: KnownHuman) -> (r: AgentRunResult)
    ensures
        r@ == known_human_run(kh@),
{
    let mut metadata: TextMap<String> = TextMap::new();
    let ghost v = kh@;
    let ghost e = kh.editor;
    let ghost ev = kh.editor_version;
    let ghost xv = kh.extension_version;
    metadata.insert("kh_editor".to_owned(), kh.editor);
    metadata.insert("kh_editor_version".to_owned(), kh.editor_version);
    metadata.insert("kh_extension_version".to_owned(), kh.extension_version);
    proof {
        assert(text_values(metadata@) =~= Map::<Seq<char>, Seq<char>>::empty().insert(
            "kh_editor"@,
            v.editor,
        ).insert("kh_editor_version"@, v.editor_version).insert(
            "kh_extension_version"@,
            v.extension_version,
        ));
    }
    AgentRunResult {
        agent_id: AgentId {
            tool: "known_human".to_owned(),
            id: "known_human_session".to_owned(),
            model: "unknown".to_owned(),
        },
        agent_metadata: Some(metadata),
        checkpoint_kind: CheckpointKind::KnownHuman,
        repo_working_dir: kh.cwd,
        edited_filepaths: kh.edited_filepaths,
        will_edit_filepaths: None,
        dirty_files: kh.dirty_files,
        captured_checkpoint_id: None,
    }
}

/// What the `known_human` preset says of its arguments and of the hook's input: the
/// input counts where there is one.
pub fn known_human_preset(args: &[String], hook_input: &Option<String>) -> (r: AgentRunResult)
    requires
        args@.len() > 0,
    ensures
        r@ == known_human_run(
            match hook_input {
                Some(text) => known_human_of_json(text@),
                None => known_human_of_args(texts(args@)),
            },
        ),
{
    match hook_input {
        Some(text) => known_human_result(known_human_from_json(text.as_str())),
        None => known_human_result(known_human_from_args(args)),
    }
}

// --------------------------------------------------------------------------- files

/// The files that a run speaks of: before a human's edit the files to be edited,
/// else the edited ones.
pub open spec fn files_of(run: RunView) -> Option<Seq<Seq<char>>> {
    if run.kind is Human {
        run.will_edit
    } else {
        run.edited
    }
}

/// A path that is absolute, or read against a directory.
pub open spec fn absolute_of(path: Seq<char>, base: Seq<char>) -> Seq<char> {
    if is_absolute_path(path) {
        path
    } else {
        joined(base, path)
    }
}

/// A path that is absolute, or read against a directory.
pub fn absolute(path: &str, base: &str) -> (r: String)
    ensures
        r@ == absolute_of(path@, base@),
{
    if is_absolute(path) {
        path.to_owned()
    } else {
        join(base, path)
    }
}

/// Paths, each absolute or read against a directory.
pub open spec fn absolutes_of(paths: Seq<Seq<char>>, base: Seq<char>) -> Seq<Seq<char>> {
    Seq::new(paths.len(), |i: int| absolute_of(paths[i], base))
}

/// Paths, each absolute or read against a directory.
pub fn absolute_files(paths: &[String], base: &str) -> (r: Vec<String>)
    ensures
        texts(r@) == absolutes_of(texts(paths@), base@),
{
    broadcast use lemma_texts_push;

    let ghost ts = texts(paths@);
    let mut out: Vec<String> = Vec::new();
    let mut i: usize = 0;
    while i < paths.len()
        invariant
            i <= paths@.len(),
            ts == texts(paths@),
            texts(out@) =~= absolutes_of(ts, base@).take(i as int),
        decreases paths.len() - i,
    {
        proof {
            assert(ts[i as int] == paths@[i as int]@);
        }
        out.push(absolute(paths[i].as_str(), base));
        proof {
            assert(absolutes_of(ts, base@).take(i + 1) =~= absolutes_of(ts, base@).take(
                i as int,
            ).push(absolute_of(ts[i as int], base@)));
        }
        i += 1;
    }
    out
}

/// Whether the repositories have to be found by the files: no repository stands at
/// the working directory, or some file lies outside its working tree.
pub open spec fn found_by_files(found: bool, inside: Seq<bool>) -> bool {
    !found || exists|i: int| 0 <= i < inside.len() && !(#[trigger] inside[i])
}

/// Whether the repositories have to be found by the files. `inside` says of each file
/// whether it lies in the working tree of the repository found.
pub fn needs_file_based_detection(found: bool, inside: &[bool]) -> (r: bool)
    ensures
        r == found_by_files(found, inside@),
{
    if !found {
        return true;
    }
    let mut i: usize = 0;
    while i < inside.len()
        invariant
            i <= inside@.len(),
            forall|k: int| 0 <= k < i ==> #[trigger] inside@[k],
        decreases inside.len() - i,
    {
        if !inside[i] {
            return true;
        }
        i += 1;
    }
    false
}

/// What a checkpoint is to do.
pub enum Course {
    /// Nothing, and why.
    Stop(String),
    /// Take the checkpoints of the repositories that hold these files.
    Repositories(Vec<String>),
    /// Take the checkpoint of the repository at the working directory.
    Here,
}

/// The texts of what a checkpoint is to do.
pub enum CourseView {
    Stop(Seq<char>),
    Repositories(Seq<Seq<char>>),
    Here,
}

impl View for Course {
    type V = CourseView;

    open spec fn view(&self) -> CourseView {
        match self {
            Course::Stop(why) => CourseView::Stop(why@),
            Course::Repositories(files) => CourseView::Repositories(texts(files@)),
            Course::Here => CourseView::Here,
        }
    }
}

/// What a checkpoint is to do. A repository that may not be worked on gets none. Where
/// the repositories have to be found by files, there have to be files.
pub open spec fn course_of(
    found: bool,
    allowed: bool,
    files: Option<Seq<Seq<char>>>,
    inside: Seq<bool>,
    base: Seq<char>,
) -> CourseView {
    if found && !allowed {
        CourseView::Stop(
            "Skipping checkpoint because repository is excluded or not in allow_repositories list"@,
        )
    } else if found_by_files(found, inside) {
        if files is Some && files->0.len() > 0 {
            CourseView::Repositories(absolutes_of(files->0, base))
        } else {
            CourseView::Stop(
                "Failed to find repository: workspace root is not a git repository and no edited files provided"@,
            )
        }
    } else {
        CourseView::Here
    }
}

/// What a checkpoint is to do: whether a repository stands at the working directory,
/// whether it may be worked on, the files that the run speaks of, and, of each file,
/// whether it lies in the repository's working tree.
pub fn checkpoint_course(
    found: bool,
    allowed: bool,
    files: &Option<Vec<String>>,
    inside: &[bool],
    base: &str,
) -> (r: Course)
    ensures
        r@ == course_of(found, allowed, opt_texts(*files), inside@, base@),
{
    if found && !allowed {
        return Course::Stop(
            "Skipping checkpoint because repository is excluded or not in allow_repositories list".to_owned(),
        );
    }
    if !needs_file_based_detection(found, inside) {
        return Course::Here;
    }
    match files {
        Some(list) => if list.len() > 0 {
            return Course::Repositories(absolute_files(list.as_slice(), base));
        },
        None => {},
    }
    Course::Stop(
        "Failed to find repository: workspace root is not a git repository and no edited files provided".to_owned(),
    )
}

/// A repository that may not be worked on gets no checkpoint, and one whose files all
/// lie in its tree gets its own.
pub proof fn law_course_keeps_to_allowed_repositories(
    allowed: bool,
    files: Option<Seq<Seq<char>>>,
    inside: Seq<bool>,
    base: Seq<char>,
)
    ensures
        !allowed ==> course_of(true, allowed, files, inside, base) is Stop,
        allowed && (forall|i: int| 0 <= i < inside.len() ==> #[trigger] inside[i]) ==> course_of(
            true,
            allowed,
            files,
            inside,
            base,
        ) is Here,
{
}

/// The files that lie outside the working tree, as absolute paths.
pub open spec fn outside_of(paths: Seq<Seq<char>>, inside: Seq<bool>, base: Seq<char>) -> Seq<
    Seq<char>,
>
    decreases paths.len(),
{
    if paths.len() == 0 {
        Seq::empty()
    } else {
        let before = outside_of(paths.drop_last(), inside, base);
        if inside[paths.len() - 1] {
            before
        } else {
            before.push(absolute_of(paths.last(), base))
        }
    }
}

/// The files that lie outside the working tree, as absolute paths. `inside` says of
/// each path whether it lies in the tree.
pub fn external_files(paths: &[String], inside: &[bool], base: &str) -> (r: Vec<String>)
    requires
        paths@.len() == inside@.len(),
    ensures
        texts(r@) == outside_of(texts(paths@), inside@, base@),
{
    broadcast use lemma_texts_push;

    let ghost ts = texts(paths@);
    let mut out: Vec<String> = Vec::new();
    let mut i: usize = 0;
    proof {
        assert(ts.take(0) =~= Seq::empty());
        assert(texts(out@) =~= Seq::empty());
    }
    while i < paths.len()
        invariant
            i <= paths@.len(),
            paths@.len() == inside@.len(),
            ts == texts(paths@),
            texts(out@) == outside_of(ts.take(i as int), inside@, base@),
        decreases paths.len() - i,
    {
        proof {
            assert(ts.take(i + 1).drop_last() =~= ts.take(i as int));
            assert(ts.take(i + 1).last() == paths@[i as int]@);
        }
        if !inside[i] {
            out.push(absolute(paths[i].as_str(), base));
        }
        i += 1;
    }
    proof {
        assert(ts.take(ts.len() as int) =~= ts);
    }
    out
}

/// A run cut down to one repository and the files in it.
pub open spec fn run_in_repository(run: RunView, workdir: Seq<char>, files: Seq<Seq<char>>) -> RunView {
    RunView {
        dir: Some(workdir),
        edited: if run.kind is Human {
            None
        } else {
            Some(files)
        },
        will_edit: if run.kind is Human {
            Some(files)
        } else {
            None
        },
        ..run
    }
}

impl AgentRunResult {
    /// The files that the run speaks of.
    pub fn files(&self) -> (r: &Option<Vec<String>>)
        ensures
            opt_texts(*r) == files_of(self@),
    {
        match self.checkpoint_kind {
            CheckpointKind::Human => &self.will_edit_filepaths,
            _ => &self.edited_filepaths,
        }
    }

    /// The run cut down to one repository and the files in it. A checkpoint that was
    /// captured before is kept or, where it belongs to another repository, dropped.
    pub fn for_repository(&self, workdir: &str, files: &[String], keep_capture: bool) -> (r: Self)
        ensures
            r@ == (RunView {
                capture: if keep_capture {
                    self@.capture
                } else {
                    None
                },
                ..run_in_repository(self@, workdir@, texts(files@))
            }),
    {
        let human = match self.checkpoint_kind {
            CheckpointKind::Human => true,
            _ => false,
        };
        AgentRunResult {
            agent_id: AgentId {
                tool: self.agent_id.tool.clone(),
                id: self.agent_id.id.clone(),
                model: self.agent_id.model.clone(),
            },
            agent_metadata: clone_text_map_option(&self.agent_metadata),
            checkpoint_kind: self.checkpoint_kind,
            repo_working_dir: Some(workdir.to_owned()),
            edited_filepaths: if human {
                None
            } else {
                Some(clone_strings(files))
            },
            will_edit_filepaths: if human {
                Some(clone_strings(files))
            } else {
                None
            },
            dirty_files: clone_text_map_option(&self.dirty_files),
            captured_checkpoint_id: if keep_capture {
                clone_option(&self.captured_checkpoint_id)
            } else {
                None
            },
        }
    }
}

/// A run cut down to one repository speaks of the files given, and of no others.
pub proof fn law_run_in_repository_files(run: RunView, workdir: Seq<char>, files: Seq<Seq<char>>)
    ensures
        files_of(run_in_repository(run, workdir, files)) == Some(files),
        run_in_repository(run, workdir, files).kind == run.kind,
{
}

/// What a human's checkpoint says: the paths behind `--`, or, where there is no
/// `--`, every changed file.
pub open spec fn human_run(
    args: Seq<Seq<char>>,
    stamp: Seq<char>,
    workdir: Seq<char>,
    changed: Seq<Seq<char>>,
) -> RunView {
    RunView {
        tool: "mock_ai"@,
        id: "ai-thread-"@ + stamp,
        model: "unknown"@,
        metadata: None,
        kind: CheckpointKind::Human,
        dir: Some(workdir),
        edited: None,
        will_edit: Some(
            match after_separator(args) {
                Some(rest) => paths_in(rest),
                None => changed,
            },
        ),
        dirty: None,
        capture: None,
    }
}

/// What a human's checkpoint says.
pub fn human_result(args: &[String], stamp: &str, workdir: &str, changed: Vec<String>) -> (r:
    AgentRunResult)
    ensures
        r@ == human_run(texts(args@), stamp@, workdir@, texts(changed@)),
{
    let will_edit = match separator_end(args) {
        Some(i) => paths_from(args, i),
        None => changed,
    };
    AgentRunResult {
        agent_id: AgentId {
            tool: "mock_ai".to_owned(),
            id: concat("ai-thread-", stamp),
            model: "unknown".to_owned(),
        },
        agent_metadata: None,
        checkpoint_kind: CheckpointKind::Human,
        repo_working_dir: Some(workdir.to_owned()),
        edited_filepaths: None,
        will_edit_filepaths: Some(will_edit),
        dirty_files: None,
        captured_checkpoint_id: None,
    }
}

/// Whether some of the arguments is a path.
pub open spec fn names_paths(args: Seq<Seq<char>>) -> bool {
    exists|i: int| 0 <= i < args.len() && !has_prefix(#[trigger] args[i], "--"@)
}

fn any_path(args: &[String], from: usize) -> (r: bool)
    requires
        from <= args@.len(),
    ensures
        r == names_paths(texts(args@).skip(from as int)),
{
    let ghost rest = texts(args@).skip(from as int);
    let mut i: usize = from;
    while i < args.len()
        invariant
            from <= i <= args@.len(),
            rest == texts(args@).skip(from as int),
            forall|k: int| 0 <= k < i - from ==> has_prefix(#[trigger] rest[k], "--"@),
        decreases args.len() - i,
    {
        proof {
            assert(rest[i - from] == args@[i as int]@);
        }
        if !starts_with(args[i].as_str(), "--") {
            return true;
        }
        i += 1;
    }
    false
}

/// Whether a request for a checkpoint says which files to capture: by its arguments,
/// or else by the run, of which `run_has_targets` tells.
pub open spec fn explicit_scope(args: Seq<Seq<char>>, run_has_targets: bool) -> bool {
    if args.len() > 0 && args[0] == "mock_ai"@ {
        names_paths(args.skip(1))
    } else {
        match after_separator(args) {
            Some(rest) => names_paths(rest),
            None => run_has_targets,
        }
    }
}

/// Whether a request for a checkpoint says which files to capture.
pub fn checkpoint_request_has_explicit_capture_scope(args: &[String], run_has_targets: bool) -> (r:
    bool)
    ensures
        r == explicit_scope(texts(args@), run_has_targets),
{
    if args.len() > 0 {
        proof {
            assert(texts(args@)[0] == args@[0]@);
        }
        if str_eq(args[0].as_str(), "mock_ai") {
            return any_path(args, 1);
        }
    }
    match separator_end(args) {
        Some(i) => any_path(args, i),
        None => run_has_targets,
    }
}

/// The number of files that a checkpoint is taken to cover.
pub open spec fn estimated_files(kind: CheckpointKind, run: Option<RunView>) -> nat {
    match run {
        Some(run) => {
            let files = if kind is Human {
                run.will_edit
            } else {
                run.edited
            };
            match files {
                Some(list) => list.len(),
                None => 0,
            }
        },
        None => 0,
    }
}

/// The number of files that a checkpoint is taken to cover.
pub fn estimate_checkpoint_file_count(kind: CheckpointKind, run: &Option<AgentRunResult>) -> (r:
    usize)
    ensures
        r == estimated_files(kind, opt_view(*run)),
{
    match run {
        Some(run) => {
            let files = match kind {
                CheckpointKind::Human => &run.will_edit_filepaths,
                _ => &run.edited_filepaths,
            };
            match files {
                Some(list) => list.len(),
                None => 0,
            }
        },
        None => 0,
    }
}

/// The kind of checkpoint that is taken and the run it records. A checkpoint without
/// a run is a human's, unless a command of an agent is under way, which `active`
/// tells of.
pub fn effective_run(
    run: Option<AgentRunResult>,
    active: Option<(CheckpointKind, Option<AgentRunResult>)>,
) -> (r: (CheckpointKind, Option<AgentRunResult>))
    ensures
        match run {
            Some(given) => r.0 == given.checkpoint_kind && r.1 == run,
            None => match active {
                Some(context) => r == context,
                None => r.0 == CheckpointKind::Human && r.1 is None,
            },
        },
{
    match run {
        Some(given) => (given.checkpoint_kind, Some(given)),
        None => match active {
            Some(context) => context,
            None => (CheckpointKind::Human, None),
        },
    }
}

/// The name of each agent, given as the first argument, selects its own preset, and no
/// preset is selected just where there is no argument or the first one is none of the
/// names. The configured name comes before all others.
pub proof fn law_each_name_has_its_preset(args: Seq<Seq<char>>, names: AgentNamesView)
    ensures
        args.len() == 0 ==> preset_of(args, names) == Preset::Nothing,
        !(args.len() == 0) && args[0] == names.name ==> preset_of(args, names) == Preset::Claude,
        !(args.len() == 0) && args[0] != names.name && args[0] == "codex"@ ==> preset_of(args, names) == Preset::Codex,
        !(args.len() == 0) && args[0] != names.name && args[0] == "gemini"@ ==> preset_of(args, names) == Preset::Gemini,
        !(args.len() == 0) && args[0] != names.name && args[0] == "windsurf"@ ==> preset_of(args, names) == Preset::Windsurf,
        !(args.len() == 0) && args[0] != names.name && args[0] == "continue-cli"@ ==> preset_of(args, names) == Preset::ContinueCli,
        !(args.len() == 0) && args[0] != names.name && args[0] == "cursor"@ ==> preset_of(args, names) == Preset::Cursor,
        !(args.len() == 0) && args[0] != names.name && args[0] == "github-copilot"@ ==> preset_of(args, names) == Preset::GithubCopilot,
        !(args.len() == 0) && args[0] != names.name && args[0] == "amp"@ ==> preset_of(args, names) == Preset::Amp,
        !(args.len() == 0) && args[0] != names.name && args[0] == "ai_tab"@ ==> preset_of(args, names) == Preset::AiTab,
        !(args.len() == 0) && args[0] != names.name && args[0] == "firebender"@ ==> preset_of(args, names) == Preset::Firebender,
        !(args.len() == 0) && args[0] != names.name && args[0] == "agent-v1"@ ==> preset_of(args, names) == Preset::AgentV1,
        !(args.len() == 0) && args[0] != names.name && args[0] == "droid"@ ==> preset_of(args, names) == Preset::Droid,
        !(args.len() == 0) && args[0] != names.name && args[0] == "opencode"@ ==> preset_of(args, names) == Preset::OpenCode,
        !(args.len() == 0) && args[0] != names.name && args[0] == "pi"@ ==> preset_of(args, names) == Preset::Pi,
        !(args.len() == 0) && args[0] != names.name && args[0] == "mock_ai"@ ==> preset_of(args, names) == Preset::MockAi,
        !(args.len() == 0) && args[0] != names.name && args[0] == "known_human"@ ==> preset_of(args, names) == Preset::KnownHuman,
        !(args.len() == 0) && args[0] != names.name && args[0] == "mock_known_human"@ ==> preset_of(args, names) == Preset::MockKnownHuman,
        !(args.len() == 0) && args[0] != names.name && args[0] != "codex"@ && args[0] != "gemini"@ && args[0] != "windsurf"@ && args[0] != "continue-cli"@ && args[0] != "cursor"@ && args[0] != "github-copilot"@ && args[0] != "amp"@ && args[0] != "ai_tab"@ && args[0] != "firebender"@ && args[0] != "agent-v1"@ && args[0] != "droid"@ && args[0] != "opencode"@ && args[0] != "pi"@ && args[0] != "mock_ai"@ && args[0] != "known_human"@ && args[0] != "mock_known_human"@ ==> preset_of(args, names) == Preset::Nothing,
{
    reveal_strlit("codex");
    reveal_strlit("gemini");
    reveal_strlit("windsurf");
    reveal_strlit("continue-cli");
    reveal_strlit("cursor");
    reveal_strlit("github-copilot");
    reveal_strlit("amp");
    reveal_strlit("ai_tab");
    reveal_strlit("firebender");
    reveal_strlit("agent-v1");
    reveal_strlit("droid");
    reveal_strlit("opencode");
    reveal_strlit("pi");
    reveal_strlit("mock_ai");
    reveal_strlit("known_human");
    reveal_strlit("mock_known_human");
    assert("codex"@.len() == 5);
    assert("gemini"@.len() == 6);
    assert("windsurf"@.len() == 8);
    assert("continue-cli"@.len() == 12);
    assert("cursor"@.len() == 6);
    assert("github-copilot"@.len() == 14);
    assert("amp"@.len() == 3);
    assert("ai_tab"@.len() == 6);
    assert("firebender"@.len() == 10);
    assert("agent-v1"@.len() == 8);
    assert("droid"@.len() == 5);
    assert("opencode"@.len() == 8);
    assert("pi"@.len() == 2);
    assert("mock_ai"@.len() == 7);
    assert("known_human"@.len() == 11);
    assert("mock_known_human"@.len() == 16);
    assert("codex"@[0] == 'c');
    assert("gemini"@[0] == 'g');
    assert("windsurf"@[0] == 'w');
    assert("cursor"@[0] == 'c');
    assert("ai_tab"@[0] == 'a');
    assert("agent-v1"@[0] == 'a');
    assert("droid"@[0] == 'd');
    assert("opencode"@[0] == 'o');
}

} // verus!
