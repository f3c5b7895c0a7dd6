//! What holds of the checkpoints that are asked for and of how they are handed over.

use crate::agents::AgentNamesView;
use crate::commands::checkpoint_args::{
    CheckpointKind, CourseView, HookView, KnownHumanView, Preset, RunView, Stdin, absolute_of,
    after_separator, base_dir_of, course_of, estimated_files, explicit_scope, hook_scan, human_run,
    kind_name, known_human_of_args, known_human_of_json, known_human_run, known_human_scan,
    mock_ai_run, mock_known_human_run, names_paths, outside_of, paths_in, preset_error_label,
    string_members, strings_among, unless_empty,
};
use crate::commands::checkpoint_dispatch::{
    EventView, InputView, PhaseView, first_phase_of, step_of, workspace_summary_of,
};
use crate::commands::git_ai_handlers::without_bom;
use crate::json::{item_pointer_of, json_keys_of, json_len_of, json_member_of, json_text_of};
use crate::paths::{is_absolute_path, joined};
use crate::text::{decimal_of, has_prefix, trimmed};
use vstd::prelude::*;
use vstd::string::*;

verus! {

// ------------------------------------------------------------------------- arguments

/// The paths among arguments are those that do not begin with two dashes, in their order.
pub proof fn law_paths_are_no_options(args: Seq<Seq<char>>)
    ensures
        paths_in(args) == args.filter(|a: Seq<char>| !has_prefix(a, "--"@)),
    decreases args.len(),
{
    reveal(Seq::filter);
    if args.len() > 0 {
        law_paths_are_no_options(args.drop_last());
    }
}

/// What stands behind the first separator is found whole; without a separator there is
/// nothing.
pub proof fn law_separator(args: Seq<Seq<char>>, i: int)
    ensures
        0 <= i < args.len() && args[i] == "--"@ && (forall|j: int|
            0 <= j < i ==> #[trigger] args[j] != "--"@) ==> after_separator(args) == Some(
            args.skip(i + 1),
        ),
        !args.contains("--"@) ==> after_separator(args) is None,
    decreases args.len(),
{
    if args.len() > 0 {
        let rest = args.drop_first();
        assert(args.contains(args[0]));
        if args[0] == "--"@ {
            assert(args.skip(1) =~= rest);
        } else {
            law_separator(rest, i - 1);
            if !args.contains("--"@) {
                assert forall|j: int| 0 <= j < rest.len() implies rest[j] != "--"@ by {
                    assert(rest[j] == args[j + 1]);
                    assert(args.contains(args[j + 1]));
                }
                assert(!rest.contains("--"@));
            }
            if 0 < i < args.len() {
                assert(rest[i - 1] == args[i]);
                assert(forall|j: int| 0 <= j < rest.len() ==> #[trigger] rest[j] == args[j + 1]);
                assert(rest.skip(i) =~= args.skip(i + 1));
            }
        }
    }
}

proof fn lemma_hook_skips(
    args: Seq<Seq<char>>,
    stdin: Stdin,
    i: int,
    n: int,
    found: Option<Seq<char>>,
    read: bool,
)
    requires
        0 <= i <= n <= args.len(),
        forall|k: int| i <= k < n ==> #[trigger] args[k] != "--hook-input"@,
    ensures
        hook_scan(args, stdin, i, found, read) == hook_scan(args, stdin, n, found, read),
    decreases n - i,
{
    if i < n {
        lemma_hook_skips(args, stdin, i + 1, n, found, read);
    }
}

/// Without the option there is no hook's input.
pub proof fn law_no_hook_input(args: Seq<Seq<char>>, stdin: Stdin)
    requires
        !args.contains("--hook-input"@),
    ensures
        hook_scan(args, stdin, 0, None, false) == HookView::Ready(None),
{
    assert forall|k: int| 0 <= k < args.len() implies #[trigger] args[k] != "--hook-input"@ by {
        assert(args.contains(args[k]));
    }
    lemma_hook_skips(args, stdin, 0, args.len() as int, None, false);
}

/// The hook's input that the one option gives: the value behind it without a byte order
/// mark; behind `stdin`, what stands there, which has to be read first. A blank one, or one
/// that is missing or cannot be read, stops the command and says why.
pub proof fn law_hook_input(args: Seq<Seq<char>>, stdin: Stdin, i: int)
    requires
        0 <= i < args.len(),
        args[i] == "--hook-input"@,
        forall|k: int|
            0 <= k < args.len() && k != i && k != i + 1 ==> #[trigger] args[k] != "--hook-input"@,
    ensures
        i + 1 == args.len() ==> hook_scan(args, stdin, 0, None, false) == HookView::Stop(
            "Error: --hook-input requires a value or 'stdin' to read from stdin"@,
        ),
        i + 1 < args.len() && without_bom(args[i + 1]) != "stdin"@ && trimmed(
            without_bom(args[i + 1]),
        ).len() > 0 ==> hook_scan(args, stdin, 0, None, false) == HookView::Ready(
            Some(without_bom(args[i + 1])),
        ),
        i + 1 < args.len() && without_bom(args[i + 1]) != "stdin"@ && trimmed(
            without_bom(args[i + 1]),
        ).len() == 0 ==> hook_scan(args, stdin, 0, None, false) == HookView::Stop(
            "Error: --hook-input requires a value"@,
        ),
        i + 1 < args.len() && without_bom(args[i + 1]) == "stdin"@ && stdin is Unread ==> hook_scan(
            args,
            stdin,
            0,
            None,
            false,
        ) == HookView::NeedStdin,
        i + 1 < args.len() && without_bom(args[i + 1]) == "stdin"@ ==> (
        stdin matches Stdin::Failed(e) ==> hook_scan(args, stdin, 0, None, false) == HookView::Stop(
            "Failed to read stdin for hook input: "@ + e@,
        )),
        i + 1 < args.len() && without_bom(args[i + 1]) == "stdin"@ ==> (
        stdin matches Stdin::Content(s) ==> hook_scan(args, stdin, 0, None, false) == (if trimmed(
            s@,
        ).len() == 0 {
            HookView::Stop("No hook input provided (via --hook-input or stdin)."@)
        } else {
            HookView::Ready(Some(without_bom(s@)))
        })),
{
    lemma_hook_skips(args, stdin, 0, i, None, false);
    if i + 1 < args.len() {
        let value = without_bom(args[i + 1]);
        lemma_hook_skips(args, stdin, i + 2, args.len() as int, Some(value), false);
        if let Stdin::Content(s) = stdin {
            lemma_hook_skips(args, stdin, i + 2, args.len() as int, Some(without_bom(s@)), true);
        }
    }
}

/// The base directory is the one that the run gives just where an agent's own preset made
/// the run, of those but two; else the current one.
pub proof fn law_base_directory(preset: Preset, current: Seq<char>, given: Seq<char>)
    ensures
        base_dir_of(preset, current, None) == current,
        (preset is GithubCopilot || preset is AgentV1 || preset is MockAi || preset is KnownHuman
            || preset is MockKnownHuman || preset is Nothing) ==> base_dir_of(
            preset,
            current,
            Some(given),
        ) == current,
        (preset is Claude || preset is Codex || preset is Gemini || preset is Windsurf
            || preset is ContinueCli || preset is Cursor || preset is Amp || preset is AiTab
            || preset is Firebender || preset is Droid || preset is OpenCode || preset is Pi)
            ==> base_dir_of(preset, current, Some(given)) == given,
{
}

/// What is said of a preset that fails begins with the agent's own name.
pub proof fn law_preset_labels(preset: Preset, names: AgentNamesView)
    ensures
        preset is Claude ==> preset_error_label(preset, names) == names.title + " preset error: "@,
        preset is Codex ==> preset_error_label(preset, names) == "Codex preset error: "@,
        preset is Gemini ==> preset_error_label(preset, names) == "Gemini preset error: "@,
        preset is Windsurf ==> preset_error_label(preset, names) == "Windsurf preset error: "@,
        preset is ContinueCli ==> preset_error_label(preset, names) == "Continue CLI preset error: "@,
        preset is Cursor ==> preset_error_label(preset, names) == "Error running Cursor preset: "@,
        preset is GithubCopilot ==> preset_error_label(preset, names)
            == "Github Copilot preset error: "@,
        preset is Amp ==> preset_error_label(preset, names) == "Amp preset error: "@,
        preset is AiTab ==> preset_error_label(preset, names) == "ai_tab preset error: "@,
        preset is Firebender ==> preset_error_label(preset, names) == "Firebender preset error: "@,
        preset is AgentV1 ==> preset_error_label(preset, names) == "Agent V1 preset error: "@,
        preset is Droid ==> preset_error_label(preset, names) == "Droid preset error: "@,
        preset is OpenCode ==> preset_error_label(preset, names) == "OpenCode preset error: "@,
        preset is Pi ==> preset_error_label(preset, names) == "Pi preset error: "@,
{
}

/// The name of each kind of checkpoint.
pub proof fn law_kind_names()
    ensures
        kind_name(CheckpointKind::Human) == "human"@,
        kind_name(CheckpointKind::AiAgent) == "ai_agent"@,
        kind_name(CheckpointKind::AiTab) == "ai_tab"@,
        kind_name(CheckpointKind::KnownHuman) == "known_human"@,
{
}

// ------------------------------------------------------------------------------ runs

/// A trial run of an agent speaks of the paths behind its name, or, where nothing stands
/// there, of all that has changed; where only options stand there, of nothing.
pub proof fn law_trial_runs(args: Seq<Seq<char>>, stamp: Seq<char>, changed: Seq<Seq<char>>)
    ensures
        mock_ai_run(args, stamp, changed).kind is AiAgent,
        mock_ai_run(args, stamp, changed).tool == "mock_ai"@,
        mock_ai_run(args, stamp, changed).id == "ai-thread-"@ + stamp,
        mock_ai_run(args, stamp, changed).will_edit is None,
        args.len() <= 1 ==> mock_ai_run(args, stamp, changed).edited == Some(changed),
        mock_known_human_run(args).kind is KnownHuman,
        mock_known_human_run(args).tool == "mock_known_human"@,
        mock_known_human_run(args).will_edit is None,
        args.len() <= 1 ==> mock_known_human_run(args).edited is None,
        args.len() > 1 ==> ({
            let paths = args.skip(1).filter(|a: Seq<char>| !has_prefix(a, "--"@));
            let told = if paths.len() == 0 {
                None
            } else {
                Some(paths)
            };
            mock_ai_run(args, stamp, changed).edited == told && mock_known_human_run(args).edited
                == told
        }),
{
    law_paths_are_no_options(args.skip(1));
}

/// A person's checkpoint covers the paths behind the separator, or all that has changed
/// where there is none, as files that are about to be edited.
pub proof fn law_human_run(
    args: Seq<Seq<char>>,
    stamp: Seq<char>,
    workdir: Seq<char>,
    changed: Seq<Seq<char>>,
    i: int,
)
    ensures
        human_run(args, stamp, workdir, changed).kind is Human,
        human_run(args, stamp, workdir, changed).dir == Some(workdir),
        human_run(args, stamp, workdir, changed).edited is None,
        !args.contains("--"@) ==> human_run(args, stamp, workdir, changed).will_edit == Some(changed),
        0 <= i < args.len() && args[i] == "--"@ && (forall|j: int|
            0 <= j < i ==> #[trigger] args[j] != "--"@) ==> human_run(
            args,
            stamp,
            workdir,
            changed,
        ).will_edit == Some(args.skip(i + 1).filter(|a: Seq<char>| !has_prefix(a, "--"@))),
{
    law_separator(args, i);
    if 0 <= i < args.len() {
        law_paths_are_no_options(args.skip(i + 1));
    }
}

proof fn lemma_known_human_files(
    args: Seq<Seq<char>>,
    i: int,
    n: int,
    editor: Seq<char>,
    editor_version: Seq<char>,
    extension_version: Seq<char>,
    files: Seq<Seq<char>>,
)
    requires
        0 <= i <= n <= args.len(),
        forall|k: int| i <= k < n ==> !has_prefix(#[trigger] args[k], "--"@),
    ensures
        known_human_scan(args, i, editor, editor_version, extension_version, files)
            == known_human_scan(
            args,
            n,
            editor,
            editor_version,
            extension_version,
            files + args.subrange(i, n),
        ),
    decreases n - i,
{
    reveal_strlit("--");
    reveal_strlit("--editor");
    reveal_strlit("--editor-version");
    reveal_strlit("--extension-version");
    assert("--editor"@.take(2) =~= "--"@);
    assert("--editor-version"@.take(2) =~= "--"@);
    assert("--extension-version"@.take(2) =~= "--"@);
    assert("--"@.take(2) =~= "--"@);
    if i < n {
        assert(!has_prefix(args[i], "--"@));
        lemma_known_human_files(
            args,
            i + 1,
            n,
            editor,
            editor_version,
            extension_version,
            files.push(args[i]),
        );
        assert(files.push(args[i]) + args.subrange(i + 1, n) =~= files + args.subrange(i, n));
    } else {
        assert(files + args.subrange(i, n) =~= files);
    }
}

/// The options of a known person's checkpoint give the editor and the versions, and the
/// files are the other arguments, up to a separator, and all behind it.
pub proof fn law_known_human_args(
    name: Seq<char>,
    editor: Seq<char>,
    editor_version: Seq<char>,
    extension_version: Seq<char>,
    files: Seq<Seq<char>>,
    more: Seq<Seq<char>>,
)
    requires
        forall|k: int| 0 <= k < files.len() ==> !has_prefix(#[trigger] files[k], "--"@),
    ensures
        known_human_of_args(seq![name] + files) == (KnownHumanView {
            editor: "unknown"@,
            editor_version: "unknown"@,
            extension_version: "unknown"@,
            cwd: None,
            edited: unless_empty(files),
            dirty: None,
        }),
        known_human_of_args(
            seq![
                name,
                "--editor"@,
                editor,
                "--editor-version"@,
                editor_version,
                "--extension-version"@,
                extension_version,
            ] + files + seq!["--"@] + more,
        ) == (KnownHumanView {
            editor,
            editor_version,
            extension_version,
            cwd: None,
            edited: unless_empty(files + more),
            dirty: None,
        }),
{
    let unknown = "unknown"@;
    let plain = seq![name] + files;
    lemma_known_human_files(
        plain,
        1,
        plain.len() as int,
        unknown,
        unknown,
        unknown,
        Seq::empty(),
    );
    assert(Seq::<Seq<char>>::empty() + plain.subrange(1, plain.len() as int) =~= files);
    let options = seq![
        name,
        "--editor"@,
        editor,
        "--editor-version"@,
        editor_version,
        "--extension-version"@,
        extension_version,
    ];
    let args = options + files + seq!["--"@] + more;
    reveal_strlit("--editor");
    reveal_strlit("--editor-version");
    reveal_strlit("--extension-version");
    reveal_strlit("--");
    assert("--editor"@.len() == 8);
    assert("--editor-version"@.len() == 16);
    assert("--extension-version"@.len() == 19);
    assert("--"@.len() == 2);
    let none = Seq::<Seq<char>>::empty();
    let n = 7 + files.len() as int;
    assert(args[1] == "--editor"@ && args[2] == editor);
    assert(args[3] == "--editor-version"@ && args[4] == editor_version);
    assert(args[5] == "--extension-version"@ && args[6] == extension_version);
    assert(known_human_of_args(args) == known_human_scan(args, 3, editor, unknown, unknown, none));
    assert(known_human_of_args(args) == known_human_scan(
        args,
        5,
        editor,
        editor_version,
        unknown,
        none,
    ));
    assert(known_human_of_args(args) == known_human_scan(
        args,
        7,
        editor,
        editor_version,
        extension_version,
        none,
    ));
    assert forall|k: int| 7 <= k < n implies !has_prefix(#[trigger] args[k], "--"@) by {
        assert(args[k] == files[k - 7]);
    }
    lemma_known_human_files(args, 7, n, editor, editor_version, extension_version, none);
    assert(none + args.subrange(7, n) =~= files);
    assert(args[n] == "--"@);
    assert(args.skip(n + 1) =~= more);
}

/// The strings of a list are those of its items that are strings, in their order.
pub proof fn law_strings_of_a_list(text: Seq<char>, pointer: Seq<char>, n: nat)
    ensures
        strings_among(text, pointer, n) == Seq::new(
            n,
            |i: int| json_text_of(text, item_pointer_of(pointer, i as nat)),
        ).filter(|s: Option<Seq<char>>| s is Some).map_values(|s: Option<Seq<char>>| s->0),
    decreases n,
{
    reveal(Seq::filter);
    let item = |i: int| json_text_of(text, item_pointer_of(pointer, i as nat));
    let some = |s: Option<Seq<char>>| s is Some;
    let value = |s: Option<Seq<char>>| s->0;
    let all = Seq::new(n, item);
    if n == 0 {
        assert(all.filter(some).map_values(value) =~= Seq::empty());
    } else {
        law_strings_of_a_list(text, pointer, (n - 1) as nat);
        let front = Seq::new((n - 1) as nat, item);
        assert(all.drop_last() =~= front);
        assert(all.last() == item(n - 1));
        if some(all.last()) {
            assert(all.filter(some) == front.filter(some).push(all.last()));
            assert(all.filter(some).map_values(value) =~= front.filter(some).map_values(value).push(
                value(all.last()),
            ));
        } else {
            assert(all.filter(some) == front.filter(some));
        }
    }
}

/// The texts of an object are those of its members that are strings, each under its key.
pub proof fn law_texts_of_an_object(
    text: Seq<char>,
    pointer: Seq<char>,
    keys: Seq<Seq<char>>,
    key: Seq<char>,
)
    ensures
        string_members(text, pointer, keys).dom().contains(key) <==> keys.contains(key)
            && (json_member_of(text, pointer, key) matches Some(v) && v.0 is Text),
        json_member_of(text, pointer, key) matches Some(v) ==> (string_members(
            text,
            pointer,
            keys,
        ).dom().contains(key) ==> string_members(text, pointer, keys)[key] == v.1),
    decreases keys.len(),
{
    if keys.len() > 0 {
        let front = keys.drop_last();
        law_texts_of_an_object(text, pointer, front, key);
        if front.contains(key) {
            assert(keys[front.index_of(key)] == key);
        }
        if keys.contains(key) {
            let k = keys.index_of(key);
            if k < front.len() {
                assert(front[k] == key);
            }
        }
        assert(keys[keys.len() - 1] == keys.last());
    }
}

/// What an editor says of a known person: the editor and the versions that it names, or
/// that they are not known, its directory, and the edited and the unsaved files, where it
/// names some.
pub proof fn law_known_human_json(text: Seq<char>)
    ensures
        known_human_of_json(text).editor == (match json_text_of(text, "/editor"@) {
            Some(s) => s,
            None => "unknown"@,
        }),
        known_human_of_json(text).editor_version == (match json_text_of(text, "/editor_version"@) {
            Some(s) => s,
            None => "unknown"@,
        }),
        known_human_of_json(text).extension_version == (match json_text_of(
            text,
            "/extension_version"@,
        ) {
            Some(s) => s,
            None => "unknown"@,
        }),
        known_human_of_json(text).cwd == json_text_of(text, "/cwd"@),
        json_len_of(text, "/edited_filepaths"@) is None ==> known_human_of_json(text).edited is None,
        json_len_of(text, "/edited_filepaths"@) matches Some(n) ==> known_human_of_json(text).edited
            == unless_empty(strings_among(text, "/edited_filepaths"@, n)),
        json_keys_of(text, "/dirty_files"@) is None ==> known_human_of_json(text).dirty is None,
        json_keys_of(text, "/dirty_files"@) matches Some(keys) ==> (known_human_of_json(
            text,
        ).dirty matches Some(m) ==> m == string_members(text, "/dirty_files"@, keys)),
        json_keys_of(text, "/dirty_files"@) matches Some(keys) ==> (known_human_of_json(text).dirty
            is None <==> string_members(text, "/dirty_files"@, keys) == Map::<
            Seq<char>,
            Seq<char>,
        >::empty()),
{
}

/// A known person's run carries what was said of the person, each under its own key.
pub proof fn law_known_human_run(kh: KnownHumanView)
    ensures
        known_human_run(kh).kind is KnownHuman,
        known_human_run(kh).tool == "known_human"@,
        known_human_run(kh).id == "known_human_session"@,
        known_human_run(kh).model == "unknown"@,
        known_human_run(kh).capture is None,
        known_human_run(kh).dir == kh.cwd,
        known_human_run(kh).edited == kh.edited,
        known_human_run(kh).dirty == kh.dirty,
        known_human_run(kh).will_edit is None,
        known_human_run(kh).metadata is Some,
        known_human_run(kh).metadata->0.dom() == set![
            "kh_editor"@,
            "kh_editor_version"@,
            "kh_extension_version"@,
        ],
        known_human_run(kh).metadata->0["kh_editor"@] == kh.editor,
        known_human_run(kh).metadata->0["kh_editor_version"@] == kh.editor_version,
        known_human_run(kh).metadata->0["kh_extension_version"@] == kh.extension_version,
{
    reveal_strlit("kh_editor");
    reveal_strlit("kh_editor_version");
    reveal_strlit("kh_extension_version");
    assert("kh_editor"@.len() == 9);
    assert("kh_editor_version"@.len() == 17);
    assert("kh_extension_version"@.len() == 20);
    assert(known_human_run(kh).metadata->0.dom() =~= set![
        "kh_editor"@,
        "kh_editor_version"@,
        "kh_extension_version"@,
    ]);
}

/// The files outside of a repository are those that do not lie in it, in their order, each
/// made absolute.
pub proof fn law_files_outside(paths: Seq<Seq<char>>, inside: Seq<bool>, base: Seq<char>)
    requires
        paths.len() <= inside.len(),
    ensures
        outside_of(paths, inside, base) == Seq::new(
            paths.len(),
            |i: int| (inside[i], absolute_of(paths[i], base)),
        ).filter(|p: (bool, Seq<char>)| !p.0).map_values(|p: (bool, Seq<char>)| p.1),
    decreases paths.len(),
{
    reveal(Seq::filter);
    let item = |i: int| (inside[i], absolute_of(paths[i], base));
    let out = |p: (bool, Seq<char>)| !p.0;
    let path = |p: (bool, Seq<char>)| p.1;
    let all = Seq::new(paths.len(), item);
    if paths.len() == 0 {
        assert(all.filter(out).map_values(path) =~= Seq::empty());
    } else {
        let front = paths.drop_last();
        law_files_outside(front, inside, base);
        let before = Seq::new(front.len(), |i: int| (inside[i], absolute_of(front[i], base)));
        assert(all.drop_last() =~= before);
        if out(all.last()) {
            assert(all.filter(out) == before.filter(out).push(all.last()));
            assert(all.filter(out).map_values(path) =~= before.filter(out).map_values(path).push(
                path(all.last()),
            ));
        } else {
            assert(all.filter(out) == before.filter(out));
        }
    }
}

/// An absolute path stays as it is, and any other is taken from the base.
pub proof fn law_absolute_paths(path: Seq<char>, base: Seq<char>)
    ensures
        is_absolute_path(path) ==> absolute_of(path, base) == path,
        !is_absolute_path(path) ==> absolute_of(path, base) == joined(base, path),
{
}

/// Where the repository is not found, or a file lies outside of it, the checkpoint is that
/// of the files' own repositories, or there is none where no files are known.
pub proof fn law_course_follows_the_files(
    found: bool,
    files: Option<Seq<Seq<char>>>,
    inside: Seq<bool>,
    base: Seq<char>,
    i: int,
)
    requires
        !found || (0 <= i < inside.len() && !inside[i]),
    ensures
        files is Some && files->0.len() > 0 ==> (course_of(
            found,
            true,
            files,
            inside,
            base,
        ) matches CourseView::Repositories(of) && of.len() == files->0.len() && forall|k: int|
            0 <= k < of.len() ==> #[trigger] of[k] == absolute_of(files->0[k], base)),
        files is None || files->0.len() == 0 ==> course_of(found, true, files, inside, base) is Stop,
{
}

/// The files of a checkpoint are known beforehand where a path stands behind the
/// separator, or, for a trial run, behind its name; without a separator the run decides.
pub proof fn law_explicit_scope(args: Seq<Seq<char>>, has_targets: bool, i: int)
    ensures
        args.len() > 0 && args[0] == "mock_ai"@ ==> explicit_scope(args, has_targets) == exists|k: int|
            1 <= k < args.len() && !has_prefix(#[trigger] args[k], "--"@),
        !(args.len() > 0 && args[0] == "mock_ai"@) && !args.contains("--"@) ==> explicit_scope(
            args,
            has_targets,
        ) == has_targets,
        !(args.len() > 0 && args[0] == "mock_ai"@) && 0 <= i < args.len() && args[i] == "--"@ && (
        forall|j: int| 0 <= j < i ==> #[trigger] args[j] != "--"@) ==> explicit_scope(
            args,
            has_targets,
        ) == exists|k: int| i < k < args.len() && !has_prefix(#[trigger] args[k], "--"@),
{
    law_separator(args, i);
    if args.len() > 0 {
        lemma_names_paths(args, 1);
    }
    if 0 <= i < args.len() {
        lemma_names_paths(args, i + 1);
    }
}

proof fn lemma_names_paths(args: Seq<Seq<char>>, n: int)
    requires
        0 <= n <= args.len(),
    ensures
        names_paths(args.skip(n)) == exists|k: int|
            n <= k < args.len() && !has_prefix(#[trigger] args[k], "--"@),
{
    let rest = args.skip(n);
    if names_paths(rest) {
        let i = choose|i: int| 0 <= i < rest.len() && !has_prefix(#[trigger] rest[i], "--"@);
        assert(args[n + i] == rest[i]);
    }
    if exists|k: int| n <= k < args.len() && !has_prefix(#[trigger] args[k], "--"@) {
        let k = choose|k: int| n <= k < args.len() && !has_prefix(#[trigger] args[k], "--"@);
        assert(rest[k - n] == args[k]);
    }
}

/// A checkpoint is taken to cover as many files as the run names: for a person those about
/// to be edited, else those that were.
pub proof fn law_estimated_files(kind: CheckpointKind, run: RunView)
    ensures
        estimated_files(kind, None) == 0,
        kind is Human ==> (run.will_edit matches Some(list) ==> estimated_files(kind, Some(run))
            == list.len()),
        kind is Human && run.will_edit is None ==> estimated_files(kind, Some(run)) == 0,
        !(kind is Human) ==> (run.edited matches Some(list) ==> estimated_files(kind, Some(run))
            == list.len()),
        !(kind is Human) && run.edited is None ==> estimated_files(kind, Some(run)) == 0,
{
}

// -------------------------------------------------------------------- handing over

/// A checkpoint is handed to the service just where that is wanted and the repository has a
/// working directory.
pub proof fn law_first_phase(input: InputView)
    ensures
        input.delegate && input.has_workdir ==> first_phase_of(input) is Starting,
        !input.delegate || !input.has_workdir ==> first_phase_of(input) is Local,
{
}

/// Once the service runs, a checkpoint that was captured before is sent; else the files are
/// captured where they are known, and the service looks at the working tree where they are
/// not.
pub proof fn law_after_the_start(input: InputView, cause: Seq<char>)
    ensures
        input.capture_id matches Some(id) ==> step_of(
            input,
            PhaseView::Starting,
            EventView::Started(None),
        ).1 == PhaseView::SendingEarlier(id),
        input.capture_id is None && input.explicit_targets ==> step_of(
            input,
            PhaseView::Starting,
            EventView::Started(None),
        ).1 == PhaseView::Capturing,
        input.capture_id is None && !input.explicit_targets ==> step_of(
            input,
            PhaseView::Starting,
            EventView::Started(None),
        ).1 == PhaseView::SendingLive,
        step_of(input, PhaseView::Starting, EventView::Started(None)).0.len() == 0,
        step_of(input, PhaseView::Starting, EventView::Started(Some(cause))) == (
            seq![("startup_failed"@, cause)],
            PhaseView::Local,
        ),
{
}

/// What the service takes is done: a captured checkpoint is queued with the number of its
/// files, one from the working tree is not queued, and one that was taken here has its own
/// numbers. Where there is nothing to capture, nothing was done.
pub proof fn law_accepted_checkpoints(
    input: InputView,
    dir: Seq<char>,
    id: Seq<char>,
    n: nat,
    a: nat,
    b: nat,
    c: nat,
)
    ensures
        step_of(input, PhaseView::SendingEarlier(id), EventView::Accepted) == (
            Seq::<(Seq<char>, Seq<char>)>::empty(),
            PhaseView::Done((0, input.estimated_files, 0), true),
        ),
        step_of(input, PhaseView::SendingCapture(dir, id, n), EventView::Accepted) == (
            Seq::<(Seq<char>, Seq<char>)>::empty(),
            PhaseView::Done((0, n, 0), true),
        ),
        step_of(input, PhaseView::SendingLive, EventView::Accepted) == (
            Seq::<(Seq<char>, Seq<char>)>::empty(),
            PhaseView::Done((0, input.estimated_files, 0), false),
        ),
        step_of(input, PhaseView::Local, EventView::Ran(a, b, c)) == (
            Seq::<(Seq<char>, Seq<char>)>::empty(),
            PhaseView::Done((a, b, c), false),
        ),
        step_of(input, PhaseView::Capturing, EventView::Captured(Some((dir, id, n)))) == (
            Seq::<(Seq<char>, Seq<char>)>::empty(),
            PhaseView::SendingCapture(dir, id, n),
        ),
        step_of(input, PhaseView::Capturing, EventView::Captured(None)) == (
            Seq::<(Seq<char>, Seq<char>)>::empty(),
            PhaseView::Done((0, 0, 0), false),
        ),
{
}

/// What the service does not take is tried in the next way, and each failure is logged
/// under its own name with its cause.
pub proof fn law_refused_checkpoints(
    input: InputView,
    dir: Seq<char>,
    id: Seq<char>,
    n: nat,
    cause: Seq<char>,
)
    ensures
        step_of(input, PhaseView::Capturing, EventView::CaptureFailed(cause)) == (
            seq![("capture_prepare_failed"@, cause)],
            PhaseView::SendingLive,
        ),
        step_of(input, PhaseView::SendingLive, EventView::Rejected(cause)) == (
            seq![("request_rejected"@, cause)],
            PhaseView::Local,
        ),
        step_of(input, PhaseView::SendingLive, EventView::Unreachable(cause)) == (
            seq![("connect_failed"@, cause)],
            PhaseView::Local,
        ),
        step_of(input, PhaseView::Local, EventView::RunFailed(cause)).1 == PhaseView::Failed(cause),
        step_of(input, PhaseView::SendingEarlier(id), EventView::Rejected(cause)).1
            == PhaseView::DeletingEarlier(id, true, cause),
        step_of(input, PhaseView::SendingEarlier(id), EventView::Unreachable(cause)).1
            == PhaseView::DeletingEarlier(id, false, cause),
        step_of(input, PhaseView::SendingCapture(dir, id, n), EventView::Rejected(cause)).1
            == PhaseView::DeletingCapture(id, true, cause),
        step_of(input, PhaseView::SendingCapture(dir, id, n), EventView::Unreachable(cause)).1
            == PhaseView::DeletingCapture(id, false, cause),
{
}

/// Behind a captured checkpoint that was deleted, the next way is tried; the log names the
/// refusal with its cause, and before it the capture that could not be deleted.
pub proof fn law_deleted_captures(
    input: InputView,
    id: Seq<char>,
    cause: Seq<char>,
    why: Seq<char>,
)
    ensures
        step_of(
            input,
            PhaseView::DeletingEarlier(id, true, cause),
            EventView::Deleted(None),
        ).0 == seq![("bash_captured_request_rejected"@, cause)],
        step_of(
            input,
            PhaseView::DeletingEarlier(id, false, cause),
            EventView::Deleted(None),
        ).0 == seq![("bash_captured_connect_failed"@, cause)],
        step_of(
            input,
            PhaseView::DeletingEarlier(id, true, cause),
            EventView::Deleted(Some(why)),
        ).0 == seq![
            (
                "bash_captured_request_cleanup_failed"@,
                "failed cleaning up captured checkpoint "@ + id + ": "@ + why,
            ),
            ("bash_captured_request_rejected"@, cause),
        ],
        step_of(
            input,
            PhaseView::DeletingEarlier(id, false, cause),
            EventView::Deleted(Some(why)),
        ).0 == seq![
            (
                "bash_captured_connect_cleanup_failed"@,
                "failed cleaning up captured checkpoint "@ + id + ": "@ + why,
            ),
            ("bash_captured_connect_failed"@, cause),
        ],
        step_of(
            input,
            PhaseView::DeletingCapture(id, true, cause),
            EventView::Deleted(None),
        ).0 == seq![("captured_request_rejected"@, cause)],
        step_of(
            input,
            PhaseView::DeletingCapture(id, false, cause),
            EventView::Deleted(None),
        ).0 == seq![("captured_connect_failed"@, cause)],
        step_of(
            input,
            PhaseView::DeletingCapture(id, true, cause),
            EventView::Deleted(Some(why)),
        ).0 == seq![
            (
                "captured_request_cleanup_failed"@,
                "failed cleaning up captured checkpoint "@ + id + ": "@ + why,
            ),
            ("captured_request_rejected"@, cause),
        ],
        step_of(
            input,
            PhaseView::DeletingCapture(id, false, cause),
            EventView::Deleted(Some(why)),
        ).0 == seq![
            (
                "captured_connect_cleanup_failed"@,
                "failed cleaning up captured checkpoint "@ + id + ": "@ + why,
            ),
            ("captured_connect_failed"@, cause),
        ],
        forall|rejected: bool, gone: Option<Seq<char>>|
            #![trigger step_of(input, PhaseView::DeletingEarlier(id, rejected, cause), EventView::Deleted(gone))]
            step_of(
                input,
                PhaseView::DeletingEarlier(id, rejected, cause),
                EventView::Deleted(gone),
            ).1 == (if input.explicit_targets {
                PhaseView::Capturing
            } else {
                PhaseView::SendingLive
            }),
        forall|rejected: bool, gone: Option<Seq<char>>|
            #![trigger step_of(input, PhaseView::DeletingCapture(id, rejected, cause), EventView::Deleted(gone))]
            step_of(
                input,
                PhaseView::DeletingCapture(id, rejected, cause),
                EventView::Deleted(gone),
            ).1 == PhaseView::SendingLive,
{
}

/// The summary of several repositories says that all were queued, that none was, or how
/// many were and how many are complete; that of one says whether it was queued.
pub proof fn law_workspace_summary(processed: nat, queued: nat, files: nat, elapsed: Seq<char>)
    requires
        queued <= processed,
    ensures
        queued == processed && queued > 0 ==> workspace_summary_of(
            true,
            processed,
            queued,
            files,
            elapsed,
        ) == "Checkpoint queued in "@ + elapsed + " ("@ + decimal_of(processed) + " repositories, "@
            + decimal_of(files) + " total files)"@,
        queued == 0 ==> workspace_summary_of(true, processed, queued, files, elapsed)
            == "Checkpoint completed in "@ + elapsed + " ("@ + decimal_of(processed)
            + " repositories, "@ + decimal_of(files) + " total files)"@,
        0 < queued < processed ==> workspace_summary_of(true, processed, queued, files, elapsed)
            == "Checkpoint dispatched in "@ + elapsed + " ("@ + decimal_of(queued) + " queued, "@
            + decimal_of((processed - queued) as nat) + " completed, "@ + decimal_of(files)
            + " total files)"@,
        queued > 0 ==> workspace_summary_of(false, processed, queued, files, elapsed)
            == "Checkpoint queued in "@ + elapsed,
        queued == 0 ==> workspace_summary_of(false, processed, queued, files, elapsed)
            == "Checkpoint completed in "@ + elapsed,
{
}

} // verus!
