//! What the configuration promises, stated over what is written in it.
use vstd::prelude::*;

use crate::config::{
    Config, ConfigEnv, ConfigPatch, FileConfig, PromptStorageMode, UpdateChannel, allowed, app_dir,
    bytes_without_bom, channel_name, channel_named, channel_or_latest, commands_of, effective_mode,
    file_warnings, follows, git_candidates_of, glob_error_of, glob_matches_of, hooks_of,
    is_own_name, is_patched, items, masked_key_of, mode_name, mode_named, mode_of, other_storage_of,
    other_storage_warnings, patch_pattern_warnings, patch_warnings, pattern_warnings,
    prompts_excluded, prompts_included, says_nothing, some_matches, some_url_matches, storage_of,
    storage_warnings, valid_patterns,
};
use crate::feature_flags::{
    DeserializableFeatureFlags, FeatureFlags, bool_of, default_flags, env_flags, file_flags_of,
    merged,
};
use crate::json::json_bool_of;
use crate::json_members::{field_in, fields_of};
use crate::model::{opt_view, views};
use crate::text::{has_prefix, has_suffix, lowercase_of, trimmed};
use crate::text_map::text_values;

verus! {

// --------------------------------------------------------------------------- names

/// The names of the ways to keep prompts, and no others.
pub proof fn law_names_of_modes(name: Seq<char>)
    ensures
        name == "default"@ ==> mode_named(name) == Some(PromptStorageMode::Default),
        name == "notes"@ ==> mode_named(name) == Some(PromptStorageMode::Notes),
        name == "local"@ ==> mode_named(name) == Some(PromptStorageMode::Local),
        name != "default"@ && name != "notes"@ && name != "local"@ ==> mode_named(name) is None,
        mode_name(PromptStorageMode::Default) == "default"@,
        mode_name(PromptStorageMode::Notes) == "notes"@,
        mode_name(PromptStorageMode::Local) == "local"@,
{
    reveal_strlit("default");
    reveal_strlit("notes");
    reveal_strlit("local");
    assert("default"@.len() == 7);
    assert("notes"@.len() == 5);
    assert("local"@.len() == 5);
    assert("notes"@[0] == 'n');
    assert("local"@[0] == 'l');
}

/// The names of the update channels, and no others.
pub proof fn law_names_of_channels(name: Seq<char>)
    ensures
        name == "latest"@ ==> channel_named(name) == Some(UpdateChannel::Latest),
        name == "next"@ ==> channel_named(name) == Some(UpdateChannel::Next),
        name == "enterprise-latest"@ ==> channel_named(name) == Some(UpdateChannel::EnterpriseLatest),
        name == "enterprise-next"@ ==> channel_named(name) == Some(UpdateChannel::EnterpriseNext),
        name != "latest"@ && name != "next"@ && name != "enterprise-latest"@ && name != "enterprise-next"@
            ==> channel_named(name) is None,
        channel_name(UpdateChannel::Latest) == "latest"@,
        channel_name(UpdateChannel::Next) == "next"@,
        channel_name(UpdateChannel::EnterpriseLatest) == "enterprise-latest"@,
        channel_name(UpdateChannel::EnterpriseNext) == "enterprise-next"@,
{
    reveal_strlit("latest");
    reveal_strlit("next");
    reveal_strlit("enterprise-latest");
    reveal_strlit("enterprise-next");
    assert("latest"@.len() == 6);
    assert("next"@.len() == 4);
    assert("enterprise-latest"@.len() == 17);
    assert("enterprise-next"@.len() == 15);
}

/// A name is read whatever its case and the space around it.
pub proof fn law_names_are_read_loosely(text: Seq<char>)
    ensures
        lowercase_of(trimmed(text)) == "default"@ ==> mode_of(text) == Some(PromptStorageMode::Default),
        lowercase_of(trimmed(text)) == "notes"@ ==> mode_of(text) == Some(PromptStorageMode::Notes),
        lowercase_of(trimmed(text)) == "local"@ ==> mode_of(text) == Some(PromptStorageMode::Local),
        lowercase_of(trimmed(text)) == "next"@ ==> channel_or_latest(Some(text)) == UpdateChannel::Next,
        lowercase_of(trimmed(text)) == "enterprise-latest"@ ==> channel_or_latest(Some(text)) == UpdateChannel::EnterpriseLatest,
        lowercase_of(trimmed(text)) == "enterprise-next"@ ==> channel_or_latest(Some(text)) == UpdateChannel::EnterpriseNext,
        channel_named(lowercase_of(trimmed(text))) is None ==> channel_or_latest(Some(text)) == UpdateChannel::Latest,
        channel_or_latest(None) == UpdateChannel::Latest,
{
    law_names_of_modes(lowercase_of(trimmed(text)));
    law_names_of_channels(lowercase_of(trimmed(text)));
}

// --------------------------------------------------------------------------- repositories

/// A repository is worked on exactly if none of its addresses is excluded and, where there
/// is a list of those to work on, one of them is on it. Without addresses only the second
/// matters.
pub proof fn law_where_work_is_done(allow: Seq<Seq<char>>, exclude: Seq<Seq<char>>, urls: Seq<Seq<char>>)
    ensures
        allowed(allow, exclude, Some(urls)) <==> {
            &&& forall|k: int, i: int| #![trigger urls[k], exclude[i]]
                0 <= k < urls.len() && 0 <= i < exclude.len() ==> !glob_matches_of(exclude[i], urls[k])
            &&& allow.len() == 0 || exists|k: int, i: int| #![trigger urls[k], allow[i]]
                0 <= k < urls.len() && 0 <= i < allow.len() && glob_matches_of(allow[i], urls[k])
        },
        allowed(allow, exclude, None) == (allow.len() == 0),
{
    if some_url_matches(exclude, urls) {
        let k = choose|k: int| 0 <= k < urls.len() && some_matches(exclude, #[trigger] urls[k]);
        let i = choose|i: int| 0 <= i < exclude.len() && glob_matches_of(#[trigger] exclude[i], urls[k]);
        assert(glob_matches_of(exclude[i], urls[k]));
    } else {
        assert forall|k: int, i: int| #![trigger urls[k], exclude[i]]
            0 <= k < urls.len() && 0 <= i < exclude.len() implies !glob_matches_of(exclude[i], urls[k]) by {
            if glob_matches_of(exclude[i], urls[k]) {
                assert(some_matches(exclude, urls[k]));
            }
        }
        if allow.len() > 0 {
            if some_url_matches(allow, urls) {
                let k = choose|k: int| 0 <= k < urls.len() && some_matches(allow, #[trigger] urls[k]);
                let i = choose|i: int| 0 <= i < allow.len() && glob_matches_of(#[trigger] allow[i], urls[k]);
                assert(glob_matches_of(allow[i], urls[k]));
            } else {
                assert forall|k: int, i: int| #![trigger urls[k], allow[i]]
                    0 <= k < urls.len() && 0 <= i < allow.len() implies !glob_matches_of(allow[i], urls[k]) by {
                    if glob_matches_of(allow[i], urls[k]) {
                        assert(some_matches(allow, urls[k]));
                    }
                }
            }
        }
    }
}

/// Prompts are kept back exactly if the list holds the pattern for all, or one that an
/// address matches.
pub proof fn law_prompts_kept_back(exclude: Seq<Seq<char>>, urls: Seq<Seq<char>>)
    ensures
        prompts_excluded(exclude, Some(urls)) <==> {
            ||| exclude.contains("*"@)
            ||| exists|k: int, i: int| #![trigger urls[k], exclude[i]]
                0 <= k < urls.len() && 0 <= i < exclude.len() && glob_matches_of(exclude[i], urls[k])
        },
        prompts_excluded(exclude, None) == exclude.contains("*"@),
{
    if some_url_matches(exclude, urls) {
        let k = choose|k: int| 0 <= k < urls.len() && some_matches(exclude, #[trigger] urls[k]);
        let i = choose|i: int| 0 <= i < exclude.len() && glob_matches_of(#[trigger] exclude[i], urls[k]);
        assert(glob_matches_of(exclude[i], urls[k]));
    } else {
        assert forall|k: int, i: int| #![trigger urls[k], exclude[i]]
            0 <= k < urls.len() && 0 <= i < exclude.len() implies !glob_matches_of(exclude[i], urls[k]) by {
            if glob_matches_of(exclude[i], urls[k]) {
                assert(some_matches(exclude, urls[k]));
            }
        }
    }
}

/// A repository is on the list of shared ones by one of its addresses; one without an
/// address only by the pattern for all.
pub proof fn law_prompts_shared(shared: Seq<Seq<char>>, urls: Seq<Seq<char>>)
    ensures
        prompts_included(shared, None) == shared.contains("*"@),
        prompts_included(shared, Some(Seq::empty())) == shared.contains("*"@),
        urls.len() > 0 ==> (prompts_included(shared, Some(urls)) <==> exists|k: int, i: int| #![trigger urls[k], shared[i]]
            0 <= k < urls.len() && 0 <= i < shared.len() && glob_matches_of(shared[i], urls[k])),
{
    if some_url_matches(shared, urls) {
        let k = choose|k: int| 0 <= k < urls.len() && some_matches(shared, #[trigger] urls[k]);
        let i = choose|i: int| 0 <= i < shared.len() && glob_matches_of(#[trigger] shared[i], urls[k]);
        assert(glob_matches_of(shared[i], urls[k]));
    } else {
        assert forall|k: int, i: int| #![trigger urls[k], shared[i]]
            0 <= k < urls.len() && 0 <= i < shared.len() implies !glob_matches_of(shared[i], urls[k]) by {
            if glob_matches_of(shared[i], urls[k]) {
                assert(some_matches(shared, urls[k]));
            }
        }
    }
}

/// Where nothing readable says how prompts are kept, those of shared repositories go to
/// the service and those of the others stay local.
pub proof fn law_how_prompts_are_kept_unsaid(
    exclude: Seq<Seq<char>>,
    shared: Seq<Seq<char>>,
    mode: PromptStorageMode,
    urls: Option<Seq<Seq<char>>>,
)
    requires
        !prompts_excluded(exclude, urls),
    ensures
        shared.len() == 0 || prompts_included(shared, urls) ==> effective_mode(exclude, shared, None, Some(mode), urls) == PromptStorageMode::Default,
        shared.len() == 0 || prompts_included(shared, urls) ==> effective_mode(exclude, shared, Some(mode), None, urls) == mode,
        shared.len() > 0 && !prompts_included(shared, urls) ==> effective_mode(exclude, shared, Some(mode), None, urls) == PromptStorageMode::Local,
        shared.len() > 0 && !prompts_included(shared, urls) ==> effective_mode(exclude, shared, None, Some(mode), urls) == mode,
{
}

// --------------------------------------------------------------------------- patterns

/// The patterns that can be read stay, in their order.
pub proof fn law_valid_patterns(list: Seq<Seq<char>>)
    ensures
        valid_patterns(list) == list.filter(|p: Seq<char>| glob_error_of(p) is None),
    decreases list.len(),
{
    reveal(Seq::filter);
    if list.len() > 0 {
        law_valid_patterns(list.drop_last());
    }
}

/// Each pattern that cannot be read is warned of, with where it stands, what it is and what
/// is wrong with it; no other is.
pub proof fn law_pattern_warnings(list: Seq<Seq<char>>, p: Seq<char>, setting: Seq<char>)
    ensures
        pattern_warnings(Seq::empty(), setting) == Seq::<Seq<char>>::empty(),
        patch_pattern_warnings(Seq::empty()) == Seq::<Seq<char>>::empty(),
        glob_error_of(p) is None ==> pattern_warnings(list.push(p), setting) == pattern_warnings(list, setting),
        glob_error_of(p) is None ==> patch_pattern_warnings(list.push(p)) == patch_pattern_warnings(list),
        glob_error_of(p) matches Some(e) ==> pattern_warnings(list.push(p), setting) == pattern_warnings(list, setting)
            + seq!["Warning: Invalid glob pattern in "@ + setting + " '"@ + p + "': "@ + e],
        glob_error_of(p) matches Some(e) ==> patch_pattern_warnings(list.push(p)) == patch_pattern_warnings(list)
            + seq!["Warning: Invalid test pattern in exclude_prompts_in_repositories '"@ + p + "': "@ + e],
{
    assert(list.push(p).drop_last() =~= list);
}

// --------------------------------------------------------------------------- the file

/// A mark of the byte order in front is left out; a file without one is taken whole.
pub proof fn law_byte_order_mark(data: Seq<u8>)
    ensures
        bytes_without_bom(seq![0xEFu8, 0xBBu8, 0xBFu8] + data) == data,
        data.len() < 3 || data.take(3) != seq![0xEFu8, 0xBBu8, 0xBFu8] ==> bytes_without_bom(data) == data,
{
    let s = seq![0xEFu8, 0xBBu8, 0xBFu8] + data;
    assert(s.skip(3) =~= data);
    if data.len() >= 3 && data[0] == 0xEF && data[1] == 0xBB && data[2] == 0xBF {
        assert(data.take(3) =~= seq![0xEFu8, 0xBBu8, 0xBFu8]);
    }
}

/// A way to keep prompts that is written is taken where it is one; else the usual one is,
/// with a warning.
pub proof fn law_storage_setting(s: Seq<char>)
    ensures
        storage_of(None) == "default"@,
        storage_warnings(None).len() == 0,
        other_storage_of(None) is None,
        other_storage_warnings(None).len() == 0,
        s == "default"@ || s == "notes"@ || s == "local"@ ==> storage_of(Some(s)) == s && other_storage_of(Some(s)) == Some(s)
            && storage_warnings(Some(s)).len() == 0 && other_storage_warnings(Some(s)).len() == 0,
        s != "default"@ && s != "notes"@ && s != "local"@ ==> storage_of(Some(s)) == "default"@ && other_storage_of(Some(s)) is None
            && storage_warnings(Some(s)) == seq!["Warning: Invalid prompt_storage value '"@ + s + "', using 'default'"@]
            && other_storage_warnings(Some(s)) == seq!["Warning: Invalid default_prompt_storage value '"@ + s + "', ignoring"@],
{
    law_names_of_modes(s);
}

/// The warnings come in the order of the settings: the patterns first, then how prompts are
/// kept.
pub proof fn law_order_of_warnings(f: FileConfig)
    ensures
        ({
            let a = pattern_warnings(items(f.exclude_prompts_in_repositories), "exclude_prompts_in_repositories"@);
            let b = pattern_warnings(items(f.include_prompts_in_repositories), "include_prompts_in_repositories"@);
            let c = pattern_warnings(items(f.allow_repositories), "allow_repositories"@);
            let d = pattern_warnings(items(f.exclude_repositories), "exclude_repositories"@);
            let e = storage_warnings(opt_view(f.prompt_storage));
            let g = other_storage_warnings(opt_view(f.default_prompt_storage));
            file_warnings(f) == a + (b + (c + (d + (e + g))))
        }),
        says_nothing(f) ==> file_warnings(f).len() == 0,
{
    reveal_with_fuel(pattern_warnings, 2);
    let a = pattern_warnings(items(f.exclude_prompts_in_repositories), "exclude_prompts_in_repositories"@);
    let b = pattern_warnings(items(f.include_prompts_in_repositories), "include_prompts_in_repositories"@);
    let c = pattern_warnings(items(f.allow_repositories), "allow_repositories"@);
    let d = pattern_warnings(items(f.exclude_repositories), "exclude_repositories"@);
    let e = storage_warnings(opt_view(f.prompt_storage));
    let g = other_storage_warnings(opt_view(f.default_prompt_storage));
    assert(file_warnings(f) =~= a + (b + (c + (d + (e + g)))));
}

/// The commands of a hook, without the space around them and without empty ones.
pub proof fn law_hook_commands(list: Seq<Seq<char>>)
    ensures
        commands_of(list) == list.map_values(|c: Seq<char>| trimmed(c)).filter(|c: Seq<char>| c.len() > 0),
    decreases list.len(),
{
    reveal(Seq::filter);
    let trim = |c: Seq<char>| trimmed(c);
    if list.len() > 0 {
        law_hook_commands(list.drop_last());
        assert(list.map_values(trim).drop_last() =~= list.drop_last().map_values(trim));
        assert(list.map_values(trim).last() == trimmed(list.last()));
    } else {
        assert(list.map_values(trim) =~= Seq::empty());
    }
}

/// A hook is kept under its name without the space around it, with its commands; one
/// without a name or without commands is not. A later one goes before an earlier one of the
/// same name.
pub proof fn law_hooks(m: Map<Seq<char>, Seq<Seq<char>>>, names: Seq<Seq<char>>, name: Seq<char>)
    ensures
        hooks_of(m, Seq::empty()) == Map::<Seq<char>, Seq<Seq<char>>>::empty(),
        trimmed(name).len() > 0 && commands_of(m[name]).len() > 0 ==> hooks_of(m, names.push(name)) == hooks_of(m, names).insert(
            trimmed(name),
            commands_of(m[name]),
        ),
        trimmed(name).len() == 0 || commands_of(m[name]).len() == 0 ==> hooks_of(m, names.push(name)) == hooks_of(m, names),
{
    assert(names.push(name).drop_last() =~= names);
}

/// With nothing written and nothing in the environment, every setting has its usual value.
pub proof fn law_usual_settings(c: Config, f: FileConfig, env: ConfigEnv, git_path: Seq<char>)
    requires
        follows(c, f, env, git_path),
        says_nothing(f),
        text_values(env.vars@) == Map::<Seq<char>, Seq<char>>::empty(),
    ensures
        c.git_path@ == git_path,
        c.exclude_prompts_in_repositories@.len() == 0,
        c.include_prompts_in_repositories@.len() == 0,
        c.allow_repositories@.len() == 0,
        c.exclude_repositories@.len() == 0,
        !c.telemetry_oss_disabled,
        c.telemetry_enterprise_dsn is None,
        c.disable_version_checks == !env.oss_build,
        c.disable_auto_updates == !env.oss_build,
        c.update_channel == UpdateChannel::Latest,
        c.api_base_url@ == "https://usegitai.com"@,
        c.prompt_storage@ == "default"@,
        c.default_prompt_storage is None,
        c.api_key is None,
        !c.quiet,
        c.feature_flags == (FeatureFlags { rewrite_stash: true, auth_keyring: false, git_hooks_enabled: false, git_hooks_externally_managed: false, transcript_streaming: env.debug }),
        text_values(c.custom_attributes@) == Map::<Seq<char>, Seq<char>>::empty(),
{
    assert(views(c.exclude_prompts_in_repositories@).len() == 0);
    assert(views(c.include_prompts_in_repositories@).len() == 0);
    assert(views(c.allow_repositories@).len() == 0);
    assert(views(c.exclude_repositories@).len() == 0);
}

/// What is written in the file is what is used.
pub proof fn law_written_settings(c: Config, f: FileConfig, env: ConfigEnv, git_path: Seq<char>)
    requires
        follows(c, f, env, git_path),
    ensures
        f.telemetry_oss matches Some(s) ==> c.telemetry_oss_disabled == (s@ == "off"@),
        f.telemetry_enterprise_dsn matches Some(s) ==> s@.len() > 0 ==> opt_view(c.telemetry_enterprise_dsn) == Some(s@),
        f.telemetry_enterprise_dsn matches Some(s) ==> s@.len() == 0 ==> c.telemetry_enterprise_dsn is None,
        f.disable_version_checks matches Some(b) ==> c.disable_version_checks == b,
        f.disable_auto_updates matches Some(b) ==> c.disable_auto_updates == b,
        f.quiet matches Some(b) ==> c.quiet == b,
        f.api_base_url matches Some(s) ==> c.api_base_url@ == s@,
        f.update_channel matches Some(s) ==> lowercase_of(trimmed(s@)) == "next"@ ==> c.update_channel == UpdateChannel::Next,
        f.prompt_storage matches Some(s) ==> s@ == "notes"@ || s@ == "local"@ || s@ == "default"@ ==> c.prompt_storage@ == s@,
        f.default_prompt_storage matches Some(s) ==> s@ == "notes"@ || s@ == "local"@ || s@ == "default"@ ==> opt_view(c.default_prompt_storage) == Some(s@),
        views(c.exclude_prompts_in_repositories@) == items(f.exclude_prompts_in_repositories).filter(|p: Seq<char>| glob_error_of(p) is None),
        views(c.include_prompts_in_repositories@) == items(f.include_prompts_in_repositories).filter(|p: Seq<char>| glob_error_of(p) is None),
        views(c.allow_repositories@) == items(f.allow_repositories).filter(|p: Seq<char>| glob_error_of(p) is None),
        views(c.exclude_repositories@) == items(f.exclude_repositories).filter(|p: Seq<char>| glob_error_of(p) is None),
{
    law_valid_patterns(items(f.exclude_prompts_in_repositories));
    law_valid_patterns(items(f.include_prompts_in_repositories));
    law_valid_patterns(items(f.allow_repositories));
    law_valid_patterns(items(f.exclude_repositories));
    if let Some(s) = f.prompt_storage {
        law_names_of_modes(s@);
    }
    if let Some(s) = f.default_prompt_storage {
        law_names_of_modes(s@);
    }
    if let Some(s) = f.update_channel {
        law_names_of_channels(lowercase_of(trimmed(s@)));
    }
}

/// The key of the environment goes before that of the file; the address of the file goes
/// before that of the environment. An empty key counts as none.
pub proof fn law_environment_and_file(c: Config, f: FileConfig, env: ConfigEnv, git_path: Seq<char>)
    requires
        follows(c, f, env, git_path),
    ensures
        ({
            let vars = text_values(env.vars@);
            let key = "GIT_AI_API_KEY"@;
            let url = "GIT_AI_API_BASE_URL"@;
            &&& vars.dom().contains(key) && vars[key].len() > 0 ==> opt_view(c.api_key) == Some(vars[key])
            &&& !(vars.dom().contains(key) && vars[key].len() > 0) ==> (match f.api_key {
                Some(s) => if s@.len() > 0 { opt_view(c.api_key) == Some(s@) } else { c.api_key is None },
                None => c.api_key is None,
            })
            &&& f.api_base_url is None && vars.dom().contains(url) ==> c.api_base_url@ == vars[url]
            &&& f.api_base_url is None && !vars.dom().contains(url) ==> c.api_base_url@ == "https://usegitai.com"@
        }),
{
}

// --------------------------------------------------------------------------- patches

/// A patch that says nothing changes nothing.
pub proof fn law_empty_patch(config: Config, patch: ConfigPatch, r: Config)
    requires
        is_patched(config, patch, r),
        patch.exclude_prompts_in_repositories is None,
        patch.telemetry_oss_disabled is None,
        patch.disable_version_checks is None,
        patch.disable_auto_updates is None,
        patch.prompt_storage is None,
        patch.custom_attributes is None,
        patch.feature_flags is None,
    ensures
        r.prompt_storage@ == config.prompt_storage@,
        r == (Config { prompt_storage: r.prompt_storage, ..config }),
        patch_warnings(patch).len() == 0,
{
    reveal_with_fuel(patch_pattern_warnings, 2);
}

/// Each setting that a patch holds is as the patch says; what it does not hold stays.
pub proof fn law_patched_settings(config: Config, patch: ConfigPatch, r: Config)
    requires
        is_patched(config, patch, r),
    ensures
        patch.exclude_prompts_in_repositories is Some ==> views(r.exclude_prompts_in_repositories@) == items(patch.exclude_prompts_in_repositories).filter(|p: Seq<char>| glob_error_of(p) is None),
        patch.telemetry_oss_disabled matches Some(b) ==> r.telemetry_oss_disabled == b,
        patch.telemetry_oss_disabled is None ==> r.telemetry_oss_disabled == config.telemetry_oss_disabled,
        patch.disable_version_checks matches Some(b) ==> r.disable_version_checks == b,
        patch.disable_version_checks is None ==> r.disable_version_checks == config.disable_version_checks,
        patch.disable_auto_updates matches Some(b) ==> r.disable_auto_updates == b,
        patch.disable_auto_updates is None ==> r.disable_auto_updates == config.disable_auto_updates,
        patch.prompt_storage matches Some(s) ==> s@ == "default"@ || s@ == "notes"@ || s@ == "local"@ ==> r.prompt_storage@ == s@,
        patch.prompt_storage matches Some(s) ==> s@ != "default"@ && s@ != "notes"@ && s@ != "local"@ ==> r.prompt_storage@ == config.prompt_storage@
            && patch_warnings(patch) == patch_pattern_warnings(items(patch.exclude_prompts_in_repositories))
            + seq!["Warning: Invalid test prompt_storage value '"@ + s@ + "', ignoring"@],
        patch.custom_attributes matches Some(m) ==> r.custom_attributes == m,
        patch.custom_attributes is None ==> r.custom_attributes == config.custom_attributes,
        patch.feature_flags is None ==> r.feature_flags == config.feature_flags,
        r == (Config {
            exclude_prompts_in_repositories: r.exclude_prompts_in_repositories,
            telemetry_oss_disabled: r.telemetry_oss_disabled,
            disable_version_checks: r.disable_version_checks,
            disable_auto_updates: r.disable_auto_updates,
            prompt_storage: r.prompt_storage,
            custom_attributes: r.custom_attributes,
            feature_flags: r.feature_flags,
            ..config
        }),
{
    law_valid_patterns(items(patch.exclude_prompts_in_repositories));
    if let Some(s) = patch.prompt_storage {
        law_names_of_modes(s@);
    }
}

// --------------------------------------------------------------------------- switches

/// The words for on and off, and no others.
pub proof fn law_words_for_on_and_off(v: Seq<char>)
    ensures
        bool_of(None) is None,
        v == "1"@ || v == "true"@ || v == "True"@ || v == "TRUE"@ ==> bool_of(Some(v)) == Some(true),
        v == "0"@ || v == "false"@ || v == "False"@ || v == "FALSE"@ ==> bool_of(Some(v)) == Some(false),
        v != "1"@ && v != "true"@ && v != "True"@ && v != "TRUE"@ && v != "0"@ && v != "false"@ && v != "False"@ && v != "FALSE"@ ==> bool_of(Some(v)) is None,
{
    reveal_strlit("1");
    reveal_strlit("true");
    reveal_strlit("True");
    reveal_strlit("TRUE");
    reveal_strlit("0");
    reveal_strlit("false");
    reveal_strlit("False");
    reveal_strlit("FALSE");
    assert("1"@.len() == 1);
    assert("true"@.len() == 4);
    assert("True"@.len() == 4);
    assert("TRUE"@.len() == 4);
    assert("0"@.len() == 1);
    assert("false"@.len() == 5);
    assert("False"@.len() == 5);
    assert("FALSE"@.len() == 5);
    assert("1"@[0] == '1');
    assert("true"@[0] == 't');
    assert("True"@[0] == 'T');
    assert("True"@[1] == 'r');
    assert("TRUE"@[0] == 'T');
    assert("TRUE"@[1] == 'R');
    assert("0"@[0] == '0');
    assert("false"@[0] == 'f');
    assert("False"@[0] == 'F');
    assert("False"@[1] == 'a');
    assert("FALSE"@[0] == 'F');
    assert("FALSE"@[1] == 'A');
}

/// The switches that are on where nothing is said.
pub proof fn law_usual_switches(debug: bool)
    ensures
        default_flags(debug).rewrite_stash,
        !default_flags(debug).auth_keyring,
        !default_flags(debug).git_hooks_enabled,
        !default_flags(debug).git_hooks_externally_managed,
        default_flags(debug).transcript_streaming == debug,
{
}

/// A switch that is set is as it is set; one that is not is as it was. No switch depends on
/// another.
pub proof fn law_switches_are_set_one_by_one(base: FeatureFlags, set: DeserializableFeatureFlags)
    ensures
        merged(base, set).rewrite_stash == (if set.rewrite_stash is Some { set.rewrite_stash->0 } else { base.rewrite_stash }),
        merged(base, set).auth_keyring == (if set.auth_keyring is Some { set.auth_keyring->0 } else { base.auth_keyring }),
        merged(base, set).git_hooks_enabled == (if set.git_hooks_enabled is Some { set.git_hooks_enabled->0 } else { base.git_hooks_enabled }),
        merged(base, set).git_hooks_externally_managed == (if set.git_hooks_externally_managed is Some { set.git_hooks_externally_managed->0 } else { base.git_hooks_externally_managed }),
        merged(base, set).transcript_streaming == (if set.transcript_streaming is Some { set.transcript_streaming->0 } else { base.transcript_streaming }),
{
}

/// Each switch has its variable: setting one variable sets that switch and no other.
pub proof fn law_each_switch_has_its_variable(env: Map<Seq<char>, Seq<char>>, on: Seq<char>)
    requires
        on == "1"@ || on == "true"@ || on == "True"@ || on == "TRUE"@,
    ensures
        env_flags(env.insert("GIT_AI_REWRITE_STASH"@, on)) == (DeserializableFeatureFlags { rewrite_stash: Some(true), ..env_flags(env) }),
        env_flags(env.insert("GIT_AI_AUTH_KEYRING"@, on)) == (DeserializableFeatureFlags { auth_keyring: Some(true), ..env_flags(env) }),
        env_flags(env.insert("GIT_AI_GIT_HOOKS_ENABLED"@, on)) == (DeserializableFeatureFlags { git_hooks_enabled: Some(true), ..env_flags(env) }),
        env_flags(env.insert("GIT_AI_GIT_HOOKS_EXTERNALLY_MANAGED"@, on)) == (DeserializableFeatureFlags { git_hooks_externally_managed: Some(true), ..env_flags(env) }),
        env_flags(env.insert("GIT_AI_TRANSCRIPT_STREAMING"@, on)) == (DeserializableFeatureFlags { transcript_streaming: Some(true), ..env_flags(env) }),
        env_flags(Map::empty()) == (DeserializableFeatureFlags { rewrite_stash: None, auth_keyring: None, git_hooks_enabled: None, git_hooks_externally_managed: None, transcript_streaming: None }),
{
    law_words_for_on_and_off(on);
    reveal_strlit("GIT_AI_REWRITE_STASH");
    reveal_strlit("GIT_AI_AUTH_KEYRING");
    reveal_strlit("GIT_AI_GIT_HOOKS_ENABLED");
    reveal_strlit("GIT_AI_GIT_HOOKS_EXTERNALLY_MANAGED");
    reveal_strlit("GIT_AI_TRANSCRIPT_STREAMING");
    assert("GIT_AI_REWRITE_STASH"@.len() == 20);
    assert("GIT_AI_AUTH_KEYRING"@.len() == 19);
    assert("GIT_AI_GIT_HOOKS_ENABLED"@.len() == 24);
    assert("GIT_AI_GIT_HOOKS_EXTERNALLY_MANAGED"@.len() == 35);
    assert("GIT_AI_TRANSCRIPT_STREAMING"@.len() == 27);
}

/// The file's switches are read from the members of their names, in this order.
pub proof fn law_switches_of_the_file(text: Seq<char>)
    ensures
        file_flags_of(text) matches Some(f) ==> {
            let fields = fields_of(text);
            &&& field_in(fields, "rewrite_stash"@, 0) is None ==> f.rewrite_stash is None
            &&& field_in(fields, "auth_keyring"@, 1) is None ==> f.auth_keyring is None
            &&& field_in(fields, "git_hooks_enabled"@, 2) is None ==> f.git_hooks_enabled is None
            &&& field_in(fields, "git_hooks_externally_managed"@, 3) is None ==> f.git_hooks_externally_managed is None
            &&& field_in(fields, "transcript_streaming"@, 4) is None ==> f.transcript_streaming is None
            &&& field_in(fields, "rewrite_stash"@, 0) matches Some(t) ==> f.rewrite_stash == json_bool_of(t, ""@)
            &&& field_in(fields, "auth_keyring"@, 1) matches Some(t) ==> f.auth_keyring == json_bool_of(t, ""@)
            &&& field_in(fields, "git_hooks_enabled"@, 2) matches Some(t) ==> f.git_hooks_enabled == json_bool_of(t, ""@)
            &&& field_in(fields, "git_hooks_externally_managed"@, 3) matches Some(t) ==> f.git_hooks_externally_managed == json_bool_of(t, ""@)
            &&& field_in(fields, "transcript_streaming"@, 4) matches Some(t) ==> f.transcript_streaming == json_bool_of(t, ""@)
        },
{
}

// --------------------------------------------------------------------------- places

/// The application's directory stands in the home directory.
pub proof fn law_own_directory(home: Seq<char>)
    requires
        home.len() > 0,
        home.last() != '/',
    ensures
        app_dir(home) == home + "/"@ + ".easylife-ai"@,
{
    reveal_strlit(".easylife-ai");
    reveal_strlit("/");
    assert("/"@ =~= seq!['/']);
}

/// Of a key no more than its first and last four characters are shown, and of a short one
/// nothing.
pub proof fn law_disguised_key(key: Seq<char>, other: Seq<char>)
    ensures
        key.len() <= 8 && other.len() <= 8 ==> masked_key_of(key) == masked_key_of(other),
        key.len() <= 8 ==> masked_key_of(key) == "****"@,
        key.len() > 8 ==> masked_key_of(key).len() == 11 && masked_key_of(key).take(4) == key.take(4) && masked_key_of(key).skip(7) == key.skip(key.len() - 4) && masked_key_of(key).subrange(4, 7) == "..."@,
{
    reveal_strlit("...");
    if key.len() > 8 {
        assert(masked_key_of(key).take(4) =~= key.take(4));
        assert(masked_key_of(key).skip(7) =~= key.skip(key.len() - 4));
        assert(masked_key_of(key).subrange(4, 7) =~= "..."@);
    }
}

/// The configured path is tried first; the usual places follow in this order.
pub proof fn law_places_of_git(path: Seq<char>, home: Seq<char>)
    ensures
        git_candidates_of(None, home, false) == seq![home + "/.local/bin/git"@] + git_candidates_of(None, home, true),
        git_candidates_of(None, home, true) == seq![
            "/opt/homebrew/bin/git"@,
            "/usr/local/bin/git"@,
            "/usr/bin/git"@,
            "/bin/git"@,
            "/usr/local/sbin/git"@,
            "/usr/sbin/git"@,
            "C:\\\\Program Files\\\\Git\\\\bin\\\\git.exe"@,
            "C:\\\\Program Files (x86)\\\\Git\\\\bin\\\\git.exe"@,
        ],
        forall|windows: bool| trimmed(path).len() == 0 ==> #[trigger] git_candidates_of(Some(path), home, windows) == git_candidates_of(None, home, windows),
        forall|windows: bool| trimmed(path).len() > 0 ==> #[trigger] git_candidates_of(Some(path), home, windows) == seq![trimmed(path)] + git_candidates_of(None, home, windows),
{
    assert(git_candidates_of(None, home, true) =~= seq![
        "/opt/homebrew/bin/git"@,
        "/usr/local/bin/git"@,
        "/usr/bin/git"@,
        "/bin/git"@,
        "/usr/local/sbin/git"@,
        "/usr/sbin/git"@,
        "C:\\\\Program Files\\\\Git\\\\bin\\\\git.exe"@,
        "C:\\\\Program Files (x86)\\\\Git\\\\bin\\\\git.exe"@,
    ]);
}

/// The names under which this application is installed: its own, with or without a suffix,
/// and with or without the extension. A name that does not begin so is another program's.
pub proof fn law_own_names(suffix: Seq<char>, name: Seq<char>)
    ensures
        is_own_name("git-ai"@),
        is_own_name("git-ai"@ + ".exe"@),
        !has_suffix("git-ai-"@ + suffix, ".exe"@) ==> is_own_name("git-ai-"@ + suffix),
        is_own_name("git-ai-"@ + suffix + ".exe"@),
        is_own_name("git_ai"@ + suffix + ".exe"@),
        !has_suffix("git_ai"@ + suffix, ".exe"@) ==> is_own_name("git_ai"@ + suffix),
        !has_prefix(name, "git-ai"@) && !has_prefix(name, "git_ai"@) ==> !is_own_name(name),
        has_prefix(name, "git-ai"@) && name.len() > 6 && name[6] != '-' && name[6] != '.' ==> !is_own_name(name),
{
    reveal_strlit("git-ai");
    reveal_strlit("git-ai-");
    reveal_strlit("git_ai");
    reveal_strlit(".exe");
    assert("git-ai"@.len() == 6);
    assert("git-ai-"@.len() == 7);
    assert("git_ai"@.len() == 6);
    assert(".exe"@.len() == 4);
    assert("git-ai"@[3] == '-');
    assert("git_ai"@[3] == '_');
    let e = ".exe"@;
    assert(!has_suffix("git-ai"@, e)) by {
        if has_suffix("git-ai"@, e) {
            assert("git-ai"@.skip(2)[0] == 't');
        }
    }
    assert forall|s: Seq<char>| (#[trigger] (s + e)).take((s + e).len() - e.len()) == s && has_suffix(s + e, e) by {
        assert((s + e).take((s + e).len() - e.len()) =~= s);
        assert((s + e).skip((s + e).len() - e.len()) =~= e);
    }
    assert(has_prefix("git-ai-"@ + suffix, "git-ai-"@)) by {
        assert(("git-ai-"@ + suffix).take(7) =~= "git-ai-"@);
    }
    assert(has_prefix("git_ai"@ + suffix, "git_ai"@)) by {
        assert(("git_ai"@ + suffix).take(6) =~= "git_ai"@);
    }
    let stem = if has_suffix(name, e) { name.take(name.len() - e.len()) } else { name };
    if has_prefix(stem, "git_ai"@) {
        assert(name.take(6) =~= stem.take(6));
    }
    if has_prefix(stem, "git-ai-"@) || stem == "git-ai"@ {
        assert(stem.take(6) =~= "git-ai"@) by {
            if has_prefix(stem, "git-ai-"@) {
                assert forall|i: int| 0 <= i < 6 implies stem[i] == "git-ai"@[i] by {
                    assert(stem.take(7)[i] == stem[i]);
                    assert("git-ai-"@[i] == "git-ai"@[i]);
                }
            }
        }
        assert(name.take(6) =~= stem.take(6));
        if stem == "git-ai"@ {
            if name.len() > 6 {
                assert(name.skip(name.len() - 4)[0] == name[6]);
            }
        } else {
            assert(stem.take(7)[6] == stem[6]);
        }
    }
    if has_prefix(stem, "git_ai"@) && has_prefix(name, "git-ai"@) {
        assert(name.take(6)[3] == name[3]);
        assert(stem.take(6)[3] == stem[3]);
        assert("git_ai"@[3] == '_');
        assert("git-ai"@[3] == '-');
    }
}

} // verus!
