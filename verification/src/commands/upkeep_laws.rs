//! What holds of the uninstaller and of what is said of the login.

use crate::commands::uninstall::{
    StepView, UninstallOptions, bin_dir, cleaned_profile, completion_of, data_paths_of,
    entries_without, first_steps_of, is_known, lines_without, managed_paths_of, profiles_of,
    uninstall_steps_of,
};
use crate::commands::whoami::{
    AuthState, OrgView, WhoamiFacts, asks_for_help, auth_state_line, masked_of, org_line, org_lines,
    org_section, whoami_lines,
};
use crate::model::views;
use crate::paths::joined;
use crate::text::{find_of, join_of, lines_of, lowercase_of};
use vstd::prelude::*;
use vstd::string::*;

verus! {

/// The options of the uninstaller.
pub proof fn law_uninstall_options(arg: Seq<char>)
    ensures
        is_known(arg) <==> seq!["--dry-run"@, "--dry-run=true"@, "--purge"@, "--keep-config"@].contains(arg),
{
    let all = seq!["--dry-run"@, "--dry-run=true"@, "--purge"@, "--keep-config"@];
    assert(all[0] == "--dry-run"@ && all[1] == "--dry-run=true"@ && all[2] == "--purge"@ && all[3] == "--keep-config"@);
}

/// A run removes every program that was installed and all its data, and cleans every
/// profile.
pub proof fn law_everything_installed_is_removed(o: UninstallOptions, home: Seq<char>, program: Option<Seq<char>>, windows: bool, path: Seq<char>)
    requires
        !o.dry_run,
    ensures
        managed_paths_of(home).contains(path) ==> uninstall_steps_of(o, Some(home), program, windows).contains(StepView::Remove(path)),
        data_paths_of(o, home).contains(path) ==> uninstall_steps_of(o, Some(home), program, windows).contains(StepView::Remove(path)),
        profiles_of(home).contains(path) ==> uninstall_steps_of(o, Some(home), program, windows).contains(StepView::CleanProfile(path)),
        windows ==> uninstall_steps_of(o, Some(home), program, windows).contains(StepView::CleanSearchPath),
        uninstall_steps_of(o, Some(home), program, windows).contains(StepView::StopService),
        uninstall_steps_of(o, Some(home), program, windows).contains(StepView::RemoveHooks("--dry-run=false"@)),
{
    let first = first_steps_of(o, program);
    let steps = uninstall_steps_of(o, Some(home), program, windows);
    let paths = managed_paths_of(home);
    let profiles = profiles_of(home);
    let data = data_paths_of(o, home);
    let n = first.len() as int;
    if paths.contains(path) {
        let i = paths.index_of(path);
        assert(steps[n + i] == StepView::Remove(path));
    }
    let m = n + paths.len();
    if profiles.contains(path) {
        let i = profiles.index_of(path);
        assert(steps[m + i] == StepView::CleanProfile(path));
    }
    let k = m + profiles.len();
    if windows {
        assert(steps[k] == StepView::CleanSearchPath);
    }
    let d = k + if windows {
        1int
    } else {
        0
    };
    if data.contains(path) {
        let i = data.index_of(path);
        assert(steps[d + i] == StepView::Remove(path));
    }
    assert(steps[0] == first[0]);
    assert(first[0] == StepView::StopService);
    assert(first[first.len() - 1] == StepView::RemoveHooks("--dry-run=false"@));
    assert(steps[n - 1] == StepView::RemoveHooks("--dry-run=false"@));
}

/// What is installed: the program and the programs that stand for git, for each system,
/// and the link in the user's own directory.
pub proof fn law_installed_programs(home: Seq<char>)
    ensures
        managed_paths_of(home).to_set() == set![joined(bin_dir(home), "easylife-ai"@), joined(bin_dir(home), "git"@), joined(bin_dir(home), "git-og"@), joined(bin_dir(home), "easylife-ai.exe"@), joined(bin_dir(home), "git.exe"@), joined(bin_dir(home), "git-og.cmd"@), joined(joined(joined(home, ".local"@), "bin"@), "easylife-ai"@)],
        profiles_of(home).to_set() == set![joined(home, ".bashrc"@), joined(home, ".bash_profile"@), joined(home, ".profile"@), joined(home, ".zshrc"@), joined(home, ".zshenv"@), joined(home, ".config/fish/config.fish"@)],
{
    let a = managed_paths_of(home);
    let b = profiles_of(home);
    assert forall|p: Seq<char>| a.to_set().contains(p) <==> #[trigger] set![joined(bin_dir(home), "easylife-ai"@), joined(bin_dir(home), "git"@), joined(bin_dir(home), "git-og"@), joined(bin_dir(home), "easylife-ai.exe"@), joined(bin_dir(home), "git.exe"@), joined(bin_dir(home), "git-og.cmd"@), joined(joined(joined(home, ".local"@), "bin"@), "easylife-ai"@)].contains(p) by {
        assert(a[0] == joined(bin_dir(home), "easylife-ai"@) && a[1] == joined(bin_dir(home), "git"@) && a[2] == joined(bin_dir(home), "git-og"@) && a[3] == joined(bin_dir(home), "easylife-ai.exe"@) && a[4] == joined(bin_dir(home), "git.exe"@) && a[5] == joined(bin_dir(home), "git-og.cmd"@) && a[6] == joined(joined(joined(home, ".local"@), "bin"@), "easylife-ai"@));
        if a.contains(p) {
            let i = a.index_of(p);
            assert(i == 0 || i == 1 || i == 2 || i == 3 || i == 4 || i == 5 || i == 6);
        }
    }
    assert forall|p: Seq<char>| b.to_set().contains(p) <==> #[trigger] set![joined(home, ".bashrc"@), joined(home, ".bash_profile"@), joined(home, ".profile"@), joined(home, ".zshrc"@), joined(home, ".zshenv"@), joined(home, ".config/fish/config.fish"@)].contains(p) by {
        assert(b[0] == joined(home, ".bashrc"@) && b[1] == joined(home, ".bash_profile"@) && b[2] == joined(home, ".profile"@) && b[3] == joined(home, ".zshrc"@) && b[4] == joined(home, ".zshenv"@) && b[5] == joined(home, ".config/fish/config.fish"@));
        if b.contains(p) {
            let i = b.index_of(p);
            assert(i == 0 || i == 1 || i == 2 || i == 3 || i == 4 || i == 5);
        }
    }
}

/// What a run says in the end: nothing of a dry run, and whether the configuration and the
/// data were removed or kept.
pub proof fn law_last_words(o: UninstallOptions)
    ensures
        o.dry_run ==> completion_of(o) is None,
        !o.dry_run && o.purge && !o.keep_config ==> completion_of(o) == Some("easylife-ai uninstall completed. Configuration, data, and backups were removed."@),
        !o.dry_run && (!o.purge || o.keep_config) ==> completion_of(o) == Some("easylife-ai uninstall completed. Configuration, data, and backups were retained."@),
{
}

/// A profile is written anew just where a line goes, with the lines that stay.
pub proof fn law_cleaned_profiles(content: Seq<char>, marker: Seq<char>)
    ensures
        (forall|i: int| 0 <= i < lines_of(content).len() ==> find_of(#[trigger] lines_of(content)[i], marker) is None) ==> cleaned_profile(content, marker) is None,
        cleaned_profile(content, marker) matches Some(text) ==> text == join_of(lines_of(content).filter(|l: Seq<char>| find_of(l, marker) is None), "\n"@) + "\n"@,
        (exists|i: int| 0 <= i < lines_of(content).len() && find_of(#[trigger] lines_of(content)[i], marker) is Some) ==> cleaned_profile(content, marker) is Some,
{
    lemma_kept_lines(lines_of(content), marker);
}

proof fn lemma_kept_lines(lines: Seq<Seq<char>>, marker: Seq<char>)
    ensures
        lines_without(lines, marker) == lines.filter(|l: Seq<char>| find_of(l, marker) is None),
        lines_without(lines, marker).len() <= lines.len(),
        (forall|i: int| 0 <= i < lines.len() ==> find_of(#[trigger] lines[i], marker) is None) ==> lines_without(lines, marker).len() == lines.len(),
        (exists|i: int| 0 <= i < lines.len() && find_of(#[trigger] lines[i], marker) is Some) ==> lines_without(lines, marker).len() < lines.len(),
    decreases lines.len(),
{
    reveal(Seq::filter);
    if lines.len() > 0 {
        let front = lines.drop_last();
        lemma_kept_lines(front, marker);
        assert(forall|i: int| 0 <= i < front.len() ==> #[trigger] front[i] == lines[i]);
        if exists|i: int| 0 <= i < lines.len() && find_of(#[trigger] lines[i], marker) is Some {
            let i = choose|i: int| 0 <= i < lines.len() && find_of(#[trigger] lines[i], marker) is Some;
            if i < front.len() {
                assert(find_of(front[i], marker) is Some);
            }
        }
    }
}

/// The search path keeps the entries that do not hold the directory in any case, in their
/// order.
pub proof fn law_cleaned_search_path(entries: Seq<Seq<char>>, marker: Seq<char>)
    ensures
        entries_without(entries, marker) == entries.filter(|e: Seq<char>| find_of(lowercase_of(e), lowercase_of(marker)) is None),
    decreases entries.len(),
{
    reveal(Seq::filter);
    if entries.len() > 0 {
        law_cleaned_search_path(entries.drop_last(), marker);
    }
}

// ---------------------------------------------------------------------------- the login

/// Help is asked for by each of its words.
pub proof fn law_help_words(args: Seq<Seq<char>>)
    ensures
        asks_for_help(args) <==> exists|i: int| 0 <= i < args.len() && (#[trigger] args[i] == "--help"@ || args[i] == "-h"@ || args[i] == "help"@),
{
    if asks_for_help(args) {
        let word = if args.contains("--help"@) {
            "--help"@
        } else if args.contains("-h"@) {
            "-h"@
        } else {
            "help"@
        };
        assert(args[args.index_of(word)] == word);
    }
}

/// Of a key only its two ends are shown.
pub proof fn law_ends_of_a_key(key: Seq<char>)
    ensures
        key.len() > 8 ==> masked_of(key) == key.take(4) + "..."@ + key.skip(key.len() - 4),
        key.len() <= 8 ==> masked_of(key).len() == key.len(),
{
}

/// What is said of each state of the login.
pub proof fn law_login_states(cause: String)
    ensures
        auth_state_line(AuthState::LoggedOut) == "Auth state: logged out"@,
        auth_state_line(AuthState::LoggedIn) == "Auth state: logged in"@,
        auth_state_line(AuthState::RefreshExpired) == "Auth state: credentials expired (refresh token expired)"@,
        auth_state_line(AuthState::Error(cause)) == "Auth state: error ("@ + cause@ + ")"@,
{
}

/// What is said of the login: where it goes to, the key in disguise, and its state; and,
/// with a login or a key, until when it holds, who the person is, and the organizations in
/// their order.
pub proof fn law_login_report(f: WhoamiFacts)
    ensures
        whoami_lines(f).len() >= 3,
        whoami_lines(f)[0] == "API Base URL: "@ + f.api_base_url@,
        whoami_lines(f)[1] == "Credential backend: "@ + f.backend@,
        f.api_key matches Some(key) ==> whoami_lines(f)[2] == "API key: "@ + masked_of(key@) && whoami_lines(f)[3] == auth_state_line(f.state),
        f.api_key is None ==> whoami_lines(f)[2] == auth_state_line(f.state),
        !(f.state is LoggedIn) && f.api_key is None ==> whoami_lines(f).len() == 3,
        (f.state is LoggedIn || f.api_key is Some) ==> ({
            let n = 3 + (if f.api_key is Some { 1int } else { 0int });
            let m = n + (if f.access_token_expires_at is Some { 1int } else { 0int });
            let k = m + (if f.refresh_token_expires_at is Some { 1int } else { 0int });
            &&& f.access_token_expires_at matches Some(t) ==> whoami_lines(f)[n] == "Access token expires at: "@ + t@
            &&& f.refresh_token_expires_at matches Some(t) ==> whoami_lines(f)[m] == "Refresh token expires at: "@ + t@
            &&& whoami_lines(f)[k] == "User ID: "@ + (match f.user_id { Some(t) => t@, None => "<unavailable>"@ })
            &&& whoami_lines(f)[k + 1] == "Email: "@ + (match f.email { Some(t) => t@, None => "<unavailable>"@ })
            &&& whoami_lines(f)[k + 2] == "Name: "@ + (match f.name { Some(t) => t@, None => "<unavailable>"@ })
            &&& whoami_lines(f)[k + 3] == "Personal org ID: "@ + (match f.personal_org_id { Some(t) => t@, None => "<unavailable>"@ })
            &&& f.orgs@.len() == 0 ==> whoami_lines(f)[k + 4] == "Organizations: <none>"@ && whoami_lines(f).len() == k + 5
            &&& f.orgs@.len() > 0 ==> whoami_lines(f)[k + 4] == "Organizations:"@ && whoami_lines(f).len() == k + 5 + f.orgs@.len()
        }),
{
    lemma_org_lines(views(f.orgs@));
}

proof fn lemma_org_lines(orgs: Seq<OrgView>)
    ensures
        org_lines(orgs) == orgs.map_values(|o: OrgView| org_line(o)),
    decreases orgs.len(),
{
    let of = |o: OrgView| org_line(o);
    if orgs.len() > 0 {
        lemma_org_lines(orgs.drop_last());
        assert(orgs.map_values(of) =~= orgs.drop_last().map_values(of).push(of(orgs.last())));
    } else {
        assert(orgs.map_values(of) =~= Seq::empty());
    }
}

/// Each organization has a line of its own, with its short name, its name, its id and the
/// role, or that they are not known.
pub proof fn law_organizations(orgs: Seq<OrgView>, i: int)
    requires
        0 <= i < orgs.len(),
    ensures
        org_section(orgs).len() == orgs.len() + 1,
        org_section(orgs)[i + 1] == "  - "@ + (match orgs[i].org_slug { Some(t) => t, None => "<unknown-slug>"@ }) + " ("@ + (match orgs[i].org_name { Some(t) => t, None => "<unknown-name>"@ }) + ") ["@ + (match orgs[i].org_id { Some(t) => t, None => "<unknown-id>"@ }) + "] role="@ + (match orgs[i].role { Some(t) => t, None => "<unknown-role>"@ }),
{
    lemma_org_lines(orgs);
}

} // verus!
