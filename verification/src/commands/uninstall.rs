//! What is removed when the application is uninstalled.

use crate::config::{APP_DIR_NAME, app_dir};
use crate::model::{lemma_views_push, opt_view, views};
use crate::paths::{join, joined};
use crate::text::{
    concat, contains, find_of, join_of, lemma_texts_push, lines, lines_of, list_contains,
    lowercase_of, str_eq, texts, to_lowercase,
};
use vstd::prelude::*;
use vstd::string::*;

verus! {

// ------------------------------------------------------------------ arguments

/// What the arguments ask for.
#[derive(Clone, Copy, PartialEq, Eq, Structural, Debug)]
pub struct UninstallOptions {
    pub dry_run: bool,
    pub purge: bool,
    pub keep_config: bool,
}

/// Whether an argument is one that the command knows.
pub open spec fn is_known(arg: Seq<char>) -> bool {
    arg == "--dry-run"@ || arg == "--dry-run=true"@ || arg == "--purge"@ || arg
        == "--keep-config"@
}

/// What the arguments ask for, if all of them are known.
pub fn parse_uninstall_args(args: &[String]) -> (r: Result<UninstallOptions, String>)
    ensures
        match r {
            Ok(o) => {
                &&& forall|i: int| 0 <= i < args@.len() ==> is_known(#[trigger] texts(args@)[i])
                &&& o.dry_run == (texts(args@).contains("--dry-run"@) || texts(args@).contains(
                    "--dry-run=true"@,
                ))
                &&& o.purge == texts(args@).contains("--purge"@)
                &&& o.keep_config == texts(args@).contains("--keep-config"@)
            },
            Err(e) => {
                &&& exists|i: int| 0 <= i < args@.len() && !is_known(#[trigger] texts(args@)[i])
                &&& e@
                    == "Usage: easylife-ai uninstall [--dry-run] [--keep-config] [--purge]"@
            },
        },
{
    let mut i: usize = 0;
    while i < args.len()
        invariant
            i <= args@.len(),
            forall|j: int| 0 <= j < i ==> is_known(#[trigger] texts(args@)[j]),
        decreases args.len() - i,
    {
        let arg = args[i].as_str();
        assert(texts(args@)[i as int] == arg@);
        if !(str_eq(arg, "--dry-run") || str_eq(arg, "--dry-run=true") || str_eq(arg, "--purge")
            || str_eq(arg, "--keep-config")) {
            return Err(
                "Usage: easylife-ai uninstall [--dry-run] [--keep-config] [--purge]".to_owned(),
            );
        }
        i += 1;
    }
    Ok(
        UninstallOptions {
            dry_run: list_contains(args, "--dry-run") || list_contains(args, "--dry-run=true"),
            purge: list_contains(args, "--purge"),
            keep_config: list_contains(args, "--keep-config"),
        },
    )
}

// ------------------------------------------------------------------ paths

fn push_path(out: &mut Vec<String>, path: String)
    ensures
        texts(final(out)@) == texts(old(out)@).push(path@),
{
    let ghost before = out@;
    let ghost added = path;
    out.push(path);
    proof {
        lemma_texts_push(before, added);
    }
}

/// The application's directory of programs in a home directory.
pub open spec fn bin_dir(home: Seq<char>) -> Seq<char> {
    joined(app_dir(home), "bin"@)
}

/// The programs that the application has put in a home directory.
pub fn managed_binary_paths(home: &str) -> (r: Vec<String>)
    ensures
        texts(r@) == managed_paths_of(home@),
{
    let app = join(home, APP_DIR_NAME);
    let bin = join(app.as_str(), "bin");
    let local = join(join(home, ".local").as_str(), "bin");
    let mut out: Vec<String> = Vec::new();
    assert(texts(out@) =~= Seq::empty());
    push_path(&mut out, join(bin.as_str(), "easylife-ai"));
    push_path(&mut out, join(bin.as_str(), "git"));
    push_path(&mut out, join(bin.as_str(), "git-og"));
    push_path(&mut out, join(bin.as_str(), "easylife-ai.exe"));
    push_path(&mut out, join(bin.as_str(), "git.exe"));
    push_path(&mut out, join(bin.as_str(), "git-og.cmd"));
    push_path(&mut out, join(local.as_str(), "easylife-ai"));
    out
}

/// The shell profiles in a home directory that may name the application.
pub fn shell_profiles(home: &str) -> (r: Vec<String>)
    ensures
        texts(r@) == profiles_of(home@),
{
    let mut out: Vec<String> = Vec::new();
    assert(texts(out@) =~= Seq::empty());
    push_path(&mut out, join(home, ".bashrc"));
    push_path(&mut out, join(home, ".bash_profile"));
    push_path(&mut out, join(home, ".profile"));
    push_path(&mut out, join(home, ".zshrc"));
    push_path(&mut out, join(home, ".zshenv"));
    push_path(&mut out, join(home, ".config/fish/config.fish"));
    out
}

/// Whether the configuration and the data go too.
pub open spec fn removes_everything(o: UninstallOptions) -> bool {
    o.purge && !o.keep_config
}

/// What is removed besides the programs: everything, or what the application
/// can make again.
pub fn data_paths(o: UninstallOptions, home: &str) -> (r: Vec<String>)
    ensures
        texts(r@) == data_paths_of(o, home@),
{
    let app = join(home, APP_DIR_NAME);
    let mut out: Vec<String> = Vec::new();
    assert(texts(out@) =~= Seq::empty());
    if o.purge && !o.keep_config {
        push_path(&mut out, app);
    } else {
        push_path(&mut out, join(app.as_str(), "internal"));
        push_path(&mut out, join(app.as_str(), "tmp"));
        push_path(&mut out, join(app.as_str(), "skills"));
    }
    out
}

// ------------------------------------------------------------------ profiles

/// The lines that do not hold a text.
pub open spec fn lines_without(lines: Seq<Seq<char>>, marker: Seq<char>) -> Seq<Seq<char>>
    decreases lines.len(),
{
    if lines.len() == 0 {
        lines
    } else if find_of(lines.last(), marker) is Some {
        lines_without(lines.drop_last(), marker)
    } else {
        lines_without(lines.drop_last(), marker).push(lines.last())
    }
}

/// A profile without the lines that hold a text; nothing where no line does.
pub open spec fn cleaned_profile(content: Seq<char>, marker: Seq<char>) -> Option<Seq<char>> {
    let all = lines_of(content);
    let kept = lines_without(all, marker);
    if kept.len() == all.len() {
        None
    } else {
        Some(join_of(kept, "\n"@) + "\n"@)
    }
}

fn keep_lines(all: &Vec<String>, marker: &str) -> (r: Vec<String>)
    ensures
        texts(r@) == lines_without(texts(all@), marker@),
{
    let ghost seen = texts(all@);
    let mut kept: Vec<String> = Vec::new();
    let mut i: usize = 0;
    proof {
        assert(seen.take(0) =~= Seq::empty());
        assert(texts(kept@) =~= Seq::empty());
    }
    while i < all.len()
        invariant
            i <= all@.len(),
            seen == texts(all@),
            texts(kept@) == lines_without(seen.take(i as int), marker@),
        decreases all.len() - i,
    {
        proof {
            assert(seen.take(i + 1).drop_last() =~= seen.take(i as int));
            assert(seen.take(i + 1).last() == all@[i as int]@);
        }
        if !contains(all[i].as_str(), marker) {
            push_path(&mut kept, all[i].clone());
        }
        i += 1;
    }
    assert(seen.take(seen.len() as int) =~= seen);
    kept
}

/// A shell profile without the lines that name the application's programs in
/// a home directory; nothing where it has none and stays as it is.
pub fn cleanup_profile_lines(content: &str, home: &str) -> (r: Option<String>)
    ensures
        opt_view(r) == cleaned_profile(content@, bin_dir(home@)),
{
    let marker = join(join(home, APP_DIR_NAME).as_str(), "bin");
    let all = lines(content);
    let kept = keep_lines(&all, marker.as_str());
    proof {
        assert(texts(kept@).len() == kept@.len());
        assert(texts(all@).len() == all@.len());
    }
    if kept.len() == all.len() {
        return None;
    }
    let mut text = crate::text::join(kept.as_slice(), "\n");
    text.append("\n");
    Some(text)
}

/// The entries of a search path that do not hold a text, without regard to
/// case.
pub open spec fn entries_without(entries: Seq<Seq<char>>, marker: Seq<char>) -> Seq<Seq<char>>
    decreases entries.len(),
{
    if entries.len() == 0 {
        entries
    } else if find_of(lowercase_of(entries.last()), lowercase_of(marker)) is Some {
        entries_without(entries.drop_last(), marker)
    } else {
        entries_without(entries.drop_last(), marker).push(entries.last())
    }
}

/// The entries of the user's search path without the application's; nothing
/// where it has none and stays as it is.
pub fn cleanup_search_path(entries: &Vec<String>, home: &str) -> (r: Option<Vec<String>>)
    ensures
        match r {
            Some(kept) => texts(kept@) == entries_without(texts(entries@), bin_dir(home@))
                && kept@.len() != entries@.len(),
            None => entries_without(texts(entries@), bin_dir(home@)).len() == entries@.len(),
        },
{
    let ghost all = texts(entries@);
    let marker = join(join(home, APP_DIR_NAME).as_str(), "bin");
    let lower = to_lowercase(marker.as_str());
    let mut kept: Vec<String> = Vec::new();
    let mut i: usize = 0;
    proof {
        assert(all.take(0) =~= Seq::empty());
        assert(texts(kept@) =~= Seq::empty());
    }
    while i < entries.len()
        invariant
            i <= entries@.len(),
            all == texts(entries@),
            marker@ == bin_dir(home@),
            lower@ == lowercase_of(marker@),
            texts(kept@) == entries_without(all.take(i as int), marker@),
        decreases entries.len() - i,
    {
        proof {
            assert(all.take(i + 1).drop_last() =~= all.take(i as int));
            assert(all.take(i + 1).last() == entries@[i as int]@);
        }
        let entry = to_lowercase(entries[i].as_str());
        if !contains(entry.as_str(), lower.as_str()) {
            push_path(&mut kept, entries[i].clone());
        }
        i += 1;
    }
    proof {
        assert(all.take(all.len() as int) =~= all);
        assert(texts(kept@).len() == kept@.len());
    }
    if kept.len() == entries.len() {
        None
    } else {
        Some(kept)
    }
}

// ------------------------------------------------------------------ messages

/// What is said of a path that is removed, or would be.
pub fn removal_message(path: &str, dry_run: bool) -> (r: String)
    ensures
        r@ == (if dry_run {
            "Would remove "@
        } else {
            "Removed "@
        }) + path@,
{
    if dry_run {
        concat("Would remove ", path)
    } else {
        concat("Removed ", path)
    }
}

/// What is said of a profile that is changed, or would be.
pub fn profile_message(path: &str, dry_run: bool) -> (r: String)
    ensures
        r@ == (if dry_run {
            "Would remove easylife-ai PATH lines from "@
        } else {
            "Removed easylife-ai PATH lines from "@
        }) + path@,
{
    if dry_run {
        concat("Would remove easylife-ai PATH lines from ", path)
    } else {
        concat("Removed easylife-ai PATH lines from ", path)
    }
}

/// Whether it is said that the running program goes when it ends: it does not
/// go in a dry run, and not under another name.
pub fn warns_of_running_program(dry_run: bool, name: &Option<String>) -> (r: bool)
    ensures
        r == (!dry_run && (opt_view(*name) == Some("easylife-ai"@) || opt_view(*name) == Some(
            "easylife-ai.exe"@,
        ))),
{
    match name {
        Some(n) => !dry_run && (str_eq(n.as_str(), "easylife-ai") || str_eq(
            n.as_str(),
            "easylife-ai.exe",
        )),
        None => false,
    }
}

/// The argument with which the hooks are removed.
pub fn hook_argument(dry_run: bool) -> (r: &'static str)
    ensures
        r@ == (if dry_run {
            "--dry-run"@
        } else {
            "--dry-run=false"@
        }),
{
    if dry_run {
        "--dry-run"
    } else {
        "--dry-run=false"
    }
}

/// What is said at the end; nothing after a dry run.
pub fn completion_message(o: UninstallOptions) -> (r: Option<String>)
    ensures
        opt_view(r) == completion_of(o),
{
    if o.dry_run {
        None
    } else if o.purge && !o.keep_config {
        Some(
            "easylife-ai uninstall completed. Configuration, data, and backups were removed."
                .to_owned(),
        )
    } else {
        Some(
            "easylife-ai uninstall completed. Configuration, data, and backups were retained."
                .to_owned(),
        )
    }
}

// ------------------------------------------------------------------ the run

/// One step of an uninstallation.
pub enum UninstallStep {
    Say(String),
    StopService,
    /// Remove the hooks, with this argument.
    RemoveHooks(String),
    /// Remove a path, where it is there.
    Remove(String),
    /// Say that a path would be removed, where it is there.
    WouldRemove(String),
    /// Clean a shell profile, where it is there.
    CleanProfile(String),
    /// Say that a shell profile would be cleaned, where it is there.
    WouldCleanProfile(String),
    /// Clean the search path that the system keeps for the user.
    CleanSearchPath,
    /// Say that this search path would be cleaned.
    WouldCleanSearchPath,
    /// End with an error.
    Fail(String),
}

/// The texts of a step.
pub enum StepView {
    Say(Seq<char>),
    StopService,
    RemoveHooks(Seq<char>),
    Remove(Seq<char>),
    WouldRemove(Seq<char>),
    CleanProfile(Seq<char>),
    WouldCleanProfile(Seq<char>),
    CleanSearchPath,
    WouldCleanSearchPath,
    Fail(Seq<char>),
}

impl View for UninstallStep {
    type V = StepView;

    open spec fn view(&self) -> StepView {
        match self {
            UninstallStep::Say(s) => StepView::Say(s@),
            UninstallStep::StopService => StepView::StopService,
            UninstallStep::RemoveHooks(s) => StepView::RemoveHooks(s@),
            UninstallStep::Remove(s) => StepView::Remove(s@),
            UninstallStep::WouldRemove(s) => StepView::WouldRemove(s@),
            UninstallStep::CleanProfile(s) => StepView::CleanProfile(s@),
            UninstallStep::WouldCleanProfile(s) => StepView::WouldCleanProfile(s@),
            UninstallStep::CleanSearchPath => StepView::CleanSearchPath,
            UninstallStep::WouldCleanSearchPath => StepView::WouldCleanSearchPath,
            UninstallStep::Fail(s) => StepView::Fail(s@),
        }
    }
}

/// The programs that the application has put in a home directory.
pub open spec fn managed_paths_of(home: Seq<char>) -> Seq<Seq<char>> {
    seq![
        joined(bin_dir(home), "easylife-ai"@),
        joined(bin_dir(home), "git"@),
        joined(bin_dir(home), "git-og"@),
        joined(bin_dir(home), "easylife-ai.exe"@),
        joined(bin_dir(home), "git.exe"@),
        joined(bin_dir(home), "git-og.cmd"@),
        joined(joined(joined(home, ".local"@), "bin"@), "easylife-ai"@),
    ]
}

/// The shell profiles in a home directory that may name the application.
pub open spec fn profiles_of(home: Seq<char>) -> Seq<Seq<char>> {
    seq![
        joined(home, ".bashrc"@),
        joined(home, ".bash_profile"@),
        joined(home, ".profile"@),
        joined(home, ".zshrc"@),
        joined(home, ".zshenv"@),
        joined(home, ".config/fish/config.fish"@),
    ]
}

/// What is removed besides the programs.
pub open spec fn data_paths_of(o: UninstallOptions, home: Seq<char>) -> Seq<Seq<char>> {
    if removes_everything(o) {
        seq![app_dir(home)]
    } else {
        seq![
            joined(app_dir(home), "internal"@),
            joined(app_dir(home), "tmp"@),
            joined(app_dir(home), "skills"@),
        ]
    }
}

/// Whether it is said that the running program goes when it ends.
pub open spec fn runs_managed_program(o: UninstallOptions, name: Option<Seq<char>>) -> bool {
    !o.dry_run && (name == Some("easylife-ai"@) || name == Some("easylife-ai.exe"@))
}

/// What is said at the end.
pub open spec fn completion_of(o: UninstallOptions) -> Option<Seq<char>> {
    if o.dry_run {
        None
    } else if removes_everything(o) {
        Some("easylife-ai uninstall completed. Configuration, data, and backups were removed."@)
    } else {
        Some("easylife-ai uninstall completed. Configuration, data, and backups were retained."@)
    }
}

/// The steps that say something, where there is something to say.
pub open spec fn says(text: Option<Seq<char>>) -> Seq<StepView> {
    match text {
        Some(t) => seq![StepView::Say(t)],
        None => Seq::empty(),
    }
}

/// The step that removes a path, or says that it would be removed.
pub open spec fn removal(path: Seq<char>, dry_run: bool) -> StepView {
    if dry_run {
        StepView::WouldRemove(path)
    } else {
        StepView::Remove(path)
    }
}

/// The step that cleans a profile, or says that it would be cleaned.
pub open spec fn cleaning(path: Seq<char>, dry_run: bool) -> StepView {
    if dry_run {
        StepView::WouldCleanProfile(path)
    } else {
        StepView::CleanProfile(path)
    }
}

/// The steps that remove paths, or say that they would be removed.
pub open spec fn removals(paths: Seq<Seq<char>>, dry_run: bool) -> Seq<StepView> {
    Seq::new(paths.len(), |i: int| removal(paths[i], dry_run))
}

/// The steps that clean profiles, or say that they would be cleaned.
pub open spec fn cleanings(paths: Seq<Seq<char>>, dry_run: bool) -> Seq<StepView> {
    Seq::new(paths.len(), |i: int| cleaning(paths[i], dry_run))
}

/// Whether a step changes anything outside the process. The hooks stay as they are where
/// their removal is a dry run as well.
pub open spec fn changes_something(step: StepView) -> bool {
    match step {
        StepView::StopService => true,
        StepView::RemoveHooks(argument) => argument != "--dry-run"@,
        StepView::Remove(_) => true,
        StepView::CleanProfile(_) => true,
        StepView::CleanSearchPath => true,
        _ => false,
    }
}

/// The steps that need no home directory: the service is stopped, unless the run is dry,
/// and the hooks go.
pub open spec fn first_steps_of(o: UninstallOptions, program: Option<Seq<char>>) -> Seq<StepView> {
    says(
        if o.dry_run {
            Some("Dry-run: no changes will be made."@)
        } else {
            None
        },
    ) + (if o.dry_run {
        Seq::empty()
    } else {
        seq![StepView::StopService]
    }) + says(
        if runs_managed_program(o, program) {
            Some("The currently running executable will be removed after this process exits."@)
        } else {
            None
        },
    ) + seq![
        StepView::RemoveHooks(
            if o.dry_run {
                "--dry-run"@
            } else {
                "--dry-run=false"@
            },
        ),
    ]
}

/// The steps in a home directory: the programs go, the places that name them are cleaned,
/// and the data goes last.
pub open spec fn home_steps_of(o: UninstallOptions, home: Seq<char>, windows: bool) -> Seq<
    StepView,
> {
    removals(managed_paths_of(home), o.dry_run) + cleanings(profiles_of(home), o.dry_run) + (
    if windows {
        seq![
            if o.dry_run {
                StepView::WouldCleanSearchPath
            } else {
                StepView::CleanSearchPath
            },
        ]
    } else {
        Seq::empty()
    }) + removals(data_paths_of(o, home), o.dry_run) + says(completion_of(o))
}

/// The steps of an uninstallation, in order. Without a home directory it ends with an
/// error before anything is removed.
pub open spec fn uninstall_steps_of(
    o: UninstallOptions,
    home: Option<Seq<char>>,
    program: Option<Seq<char>>,
    windows: bool,
) -> Seq<StepView> {
    first_steps_of(o, program) + match home {
        Some(dir) => home_steps_of(o, dir, windows),
        None => seq![StepView::Fail("Could not determine application directory"@)],
    }
}

fn push_step(out: &mut Vec<UninstallStep>, step: UninstallStep)
    ensures
        views(final(out)@) == views(old(out)@) + seq![step@],
{
    let ghost before = out@;
    let ghost added = step;
    out.push(step);
    proof {
        lemma_views_push(before, added);
        assert(views(before).push(added@) =~= views(before) + seq![added@]);
    }
}

fn push_removals(out: &mut Vec<UninstallStep>, paths: Vec<String>, dry_run: bool)
    ensures
        views(final(out)@) == views(old(out)@) + removals(texts(paths@), dry_run),
{
    let ghost before = views(out@);
    let ghost all = texts(paths@);
    let mut i: usize = 0;
    proof {
        assert(removals(all.take(0), dry_run) =~= Seq::empty());
        assert(before + removals(all.take(0), dry_run) =~= before);
    }
    while i < paths.len()
        invariant
            i <= paths@.len(),
            all == texts(paths@),
            views(out@) == before + removals(all.take(i as int), dry_run),
        decreases paths.len() - i,
    {
        push_step(
            out,
            if dry_run {
                UninstallStep::WouldRemove(paths[i].clone())
            } else {
                UninstallStep::Remove(paths[i].clone())
            },
        );
        proof {
            assert(all.take(i + 1)[i as int] == paths@[i as int]@);
            assert(removals(all.take(i + 1), dry_run) =~= removals(all.take(i as int), dry_run) + seq![
                removal(paths@[i as int]@, dry_run),
            ]);
            assert(views(out@) =~= before + removals(all.take(i + 1), dry_run));
        }
        i += 1;
    }
    proof {
        assert(all.take(all.len() as int) =~= all);
    }
}

fn push_cleanings(out: &mut Vec<UninstallStep>, paths: Vec<String>, dry_run: bool)
    ensures
        views(final(out)@) == views(old(out)@) + cleanings(texts(paths@), dry_run),
{
    let ghost before = views(out@);
    let ghost all = texts(paths@);
    let mut i: usize = 0;
    proof {
        assert(cleanings(all.take(0), dry_run) =~= Seq::empty());
        assert(before + cleanings(all.take(0), dry_run) =~= before);
    }
    while i < paths.len()
        invariant
            i <= paths@.len(),
            all == texts(paths@),
            views(out@) == before + cleanings(all.take(i as int), dry_run),
        decreases paths.len() - i,
    {
        push_step(
            out,
            if dry_run {
                UninstallStep::WouldCleanProfile(paths[i].clone())
            } else {
                UninstallStep::CleanProfile(paths[i].clone())
            },
        );
        proof {
            assert(all.take(i + 1)[i as int] == paths@[i as int]@);
            assert(cleanings(all.take(i + 1), dry_run) =~= cleanings(all.take(i as int), dry_run) + seq![
                cleaning(paths@[i as int]@, dry_run),
            ]);
            assert(views(out@) =~= before + cleanings(all.take(i + 1), dry_run));
        }
        i += 1;
    }
    proof {
        assert(all.take(all.len() as int) =~= all);
    }
}

fn push_saying(out: &mut Vec<UninstallStep>, text: Option<String>)
    ensures
        views(final(out)@) == views(old(out)@) + says(opt_view(text)),
{
    match text {
        Some(t) => push_step(out, UninstallStep::Say(t)),
        None => {
            proof {
                assert(views(out@) + Seq::<StepView>::empty() =~= views(out@));
            }
        },
    }
}

fn first_steps(o: UninstallOptions, program: &Option<String>) -> (r: Vec<UninstallStep>)
    ensures
        views(r@) == first_steps_of(o, opt_view(*program)),
{
    let mut out: Vec<UninstallStep> = Vec::new();
    proof {
        assert(views(out@) =~= Seq::empty());
    }
    let dry = if o.dry_run {
        Some("Dry-run: no changes will be made.".to_owned())
    } else {
        None
    };
    push_saying(&mut out, dry);
    proof {
        assert(Seq::<StepView>::empty() + says(opt_view(dry)) =~= says(opt_view(dry)));
    }
    if o.dry_run {
        proof {
            assert(views(out@) + Seq::<StepView>::empty() =~= views(out@));
        }
    } else {
        push_step(&mut out, UninstallStep::StopService);
    }
    let running = if warns_of_running_program(o.dry_run, program) {
        Some(
            "The currently running executable will be removed after this process exits.".to_owned(),
        )
    } else {
        None
    };
    push_saying(&mut out, running);
    push_step(&mut out, UninstallStep::RemoveHooks(hook_argument(o.dry_run).to_owned()));
    out
}

/// The steps of an uninstallation, in order.
pub fn uninstall_steps(
    o: UninstallOptions,
    home: &Option<String>,
    program: &Option<String>,
    windows: bool,
) -> (r: Vec<UninstallStep>)
    ensures
        views(r@) == uninstall_steps_of(o, opt_view(*home), opt_view(*program), windows),
{
    let mut out = first_steps(o, program);
    let home: &str = match home {
        Some(dir) => dir.as_str(),
        None => {
            push_step(
                &mut out,
                UninstallStep::Fail("Could not determine application directory".to_owned()),
            );
            return out;
        },
    };
    push_removals(&mut out, managed_binary_paths(home), o.dry_run);
    push_cleanings(&mut out, shell_profiles(home), o.dry_run);
    if windows {
        push_step(
            &mut out,
            if o.dry_run {
                UninstallStep::WouldCleanSearchPath
            } else {
                UninstallStep::CleanSearchPath
            },
        );
    } else {
        proof {
            assert(views(out@) + Seq::<StepView>::empty() =~= views(out@));
        }
    }
    push_removals(&mut out, data_paths(o, home), o.dry_run);
    push_saying(&mut out, completion_message(o));
    proof {
        assert(views(out@) =~= first_steps_of(o, opt_view(*program)) + home_steps_of(
            o,
            home@,
            windows,
        ));
    }
    out
}

/// What is said of a step that failed and after which the uninstallation goes on; nothing
/// where it ends with the error.
pub fn step_warning(step: &UninstallStep, error: &str) -> (r: Option<String>)
    ensures
        opt_view(r) == match step@ {
            StepView::RemoveHooks(_) => Some("Warning: failed to remove some hooks: "@ + error@),
            StepView::CleanSearchPath | StepView::WouldCleanSearchPath => Some(
                "Warning: failed to clean up the Windows user PATH: "@ + error@,
            ),
            _ => None,
        },
{
    match step {
        UninstallStep::RemoveHooks(_) => Some(
            concat("Warning: failed to remove some hooks: ", error),
        ),
        UninstallStep::CleanSearchPath | UninstallStep::WouldCleanSearchPath => Some(
            concat("Warning: failed to clean up the Windows user PATH: ", error),
        ),
        _ => None,
    }
}

// ------------------------------------------------------------------ laws

/// Cleaning a profile takes away the lines that hold the text and keeps all
/// others, in their order.
pub proof fn law_profile_keeps_other_lines(lines: Seq<Seq<char>>, marker: Seq<char>)
    ensures
        forall|i: int|
            0 <= i < lines_without(lines, marker).len() ==> find_of(
                #[trigger] lines_without(lines, marker)[i],
                marker,
            ) is None,
        forall|i: int|
            0 <= i < lines.len() && find_of(#[trigger] lines[i], marker) is None
                ==> lines_without(lines, marker).contains(lines[i]),
        lines_without(lines, marker) == lines.filter(
            |line: Seq<char>| find_of(line, marker) is None,
        ),
        lines_without(lines_without(lines, marker), marker) == lines_without(lines, marker),
    decreases lines.len(),
{
    reveal(Seq::filter);
    if lines.len() > 0 {
        let front = lines.drop_last();
        law_profile_keeps_other_lines(front, marker);
        let before = lines_without(front, marker);
        let all = lines_without(lines, marker);
        if find_of(lines.last(), marker) is None {
            assert(all.drop_last() =~= before);
            assert(all[before.len() as int] == lines.last());
        }
        assert forall|i: int|
            0 <= i < lines.len() && find_of(#[trigger] lines[i], marker) is None implies all.contains(
            lines[i],
        ) by {
            if i < front.len() {
                assert(front[i] == lines[i]);
                let k = choose|k: int| 0 <= k < before.len() && before[k] == lines[i];
                assert(all[k] == lines[i]);
            }
        }
    }
}

/// Nothing is removed but the programs and the data: the configuration stays, unless
/// everything goes.
pub proof fn law_only_own_files_are_removed(
    o: UninstallOptions,
    home: Seq<char>,
    program: Option<Seq<char>>,
    windows: bool,
    path: Seq<char>,
)
    requires
        uninstall_steps_of(o, Some(home), program, windows).contains(StepView::Remove(path)),
    ensures
        managed_paths_of(home).contains(path) || data_paths_of(o, home).contains(path),
{
    let steps = uninstall_steps_of(o, Some(home), program, windows);
    let k = steps.index_of(StepView::Remove(path));
    let managed = managed_paths_of(home);
    let data = data_paths_of(o, home);
    let from = first_steps_of(o, program).len();
    let last = steps.len() - data.len() - says(completion_of(o)).len();
    if last <= k < last + data.len() {
        assert(steps[k] == removals(data, o.dry_run)[k - last]);
        assert(data[k - last] == path);
    } else {
        assert(from <= k < from + managed.len());
        assert(steps[k] == removals(managed, o.dry_run)[k - from]);
        assert(managed[k - from] == path);
    }
}

/// A dry run changes nothing: no service is stopped, and no hook, file, profile or search
/// path is changed.
pub proof fn law_dry_run_changes_nothing(
    o: UninstallOptions,
    home: Option<Seq<char>>,
    program: Option<Seq<char>>,
    windows: bool,
)
    requires
        o.dry_run,
    ensures
        forall|i: int|
            0 <= i < uninstall_steps_of(o, home, program, windows).len() ==> !changes_something(
                #[trigger] uninstall_steps_of(o, home, program, windows)[i],
            ),
{
}

/// A dry run speaks of what a run would do: its paths, profiles and search path are those
/// of the run with the same options, in the same order.
pub proof fn law_dry_run_shows_the_run(o: UninstallOptions, home: Seq<char>, windows: bool, i: int)
    requires
        0 <= i < home_steps_of(UninstallOptions { dry_run: true, ..o }, home, windows).len(),
    ensures
        ({
            let shown = home_steps_of(UninstallOptions { dry_run: true, ..o }, home, windows)[i];
            let done = home_steps_of(UninstallOptions { dry_run: false, ..o }, home, windows)[i];
            match shown {
                StepView::WouldRemove(path) => done == StepView::Remove(path),
                StepView::WouldCleanProfile(path) => done == StepView::CleanProfile(path),
                StepView::WouldCleanSearchPath => done == StepView::CleanSearchPath,
                _ => false,
            }
        }),
{
}

/// Where the home directory is not known, nothing is removed and no profile is cleaned.
pub proof fn law_nothing_goes_without_a_home(
    o: UninstallOptions,
    program: Option<Seq<char>>,
    windows: bool,
    path: Seq<char>,
)
    ensures
        !uninstall_steps_of(o, None, program, windows).contains(StepView::Remove(path)),
        !uninstall_steps_of(o, None, program, windows).contains(StepView::CleanProfile(path)),
        !uninstall_steps_of(o, None, program, windows).contains(StepView::CleanSearchPath),
{
}

/// Keeping the configuration wins over removing everything.
pub proof fn law_keeping_wins(o: UninstallOptions)
    ensures
        o.keep_config ==> !removes_everything(o),
        !o.purge ==> !removes_everything(o),
{
}

} // verus!
