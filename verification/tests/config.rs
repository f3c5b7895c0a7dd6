//! Settings: repositories, prompts, channels and the file of settings.

use git_ai::config::{
    Config, ConfigEnv, ConfigPatch, DEFAULT_API_BASE_URL, FileConfig, GitCandidate, Pattern,
    PromptStorageMode, UpdateChannel, apply_config_patch, build_config, build_custom_attributes, channel_from_name,
    choose_git, config_file_bytes, config_file_path_public, distinct_id, git_ai_dir_path,
    git_candidates, id_file_path, internal_dir_path, is_real_git_candidate, masked_api_key,
    mode_from_name, path_is_git_ai_binary, sibling_path, skills_dir_path, update_check_path,
};
use git_ai::feature_flags::FeatureFlags;
use git_ai::text_map::TextMap;

fn create_test_config(
    allow_repositories: Vec<String>,
    exclude_repositories: Vec<String>,
) -> Config {
    Config {
        git_path: "/usr/bin/git".to_string(),
        exclude_prompts_in_repositories: vec![],
        include_prompts_in_repositories: vec![],
        allow_repositories: allow_repositories
            .into_iter()
            .filter_map(|s| Pattern::new(&s).ok())
            .collect(),
        exclude_repositories: exclude_repositories
            .into_iter()
            .filter_map(|s| Pattern::new(&s).ok())
            .collect(),
        telemetry_oss_disabled: false,
        telemetry_enterprise_dsn: None,
        disable_version_checks: false,
        disable_auto_updates: false,
        update_channel: UpdateChannel::Latest,
        feature_flags: FeatureFlags::defaults(true),
        api_base_url: DEFAULT_API_BASE_URL.to_string(),
        prompt_storage: "default".to_string(),
        default_prompt_storage: None,
        api_key: None,
        quiet: false,
        custom_attributes: TextMap::new(),
        git_ai_hooks: TextMap::new(),
    }
}

#[test]
fn test_exclusion_takes_precedence_over_allow() {
    let config = create_test_config(
        vec!["https://github.com/allowed/repo".to_string()],
        vec!["https://github.com/allowed/repo".to_string()],
    );

    // Test with None repository - should return false when allowlist is active
    assert!(!config.is_allowed_repository(&None));
}

#[test]
fn test_empty_allowlist_allows_everything() {
    let config = create_test_config(vec![], vec![]);

    // With empty allowlist, should allow everything
    assert!(config.is_allowed_repository(&None));
}

#[test]
fn test_exclude_without_allow() {
    let config =
        create_test_config(vec![], vec!["https://github.com/excluded/repo".to_string()]);

    // With empty allowlist but exclusions, should allow everything (exclusions only matter when checking remotes)
    assert!(config.is_allowed_repository(&None));
}

#[test]
fn test_allow_without_exclude() {
    let config =
        create_test_config(vec!["https://github.com/allowed/repo".to_string()], vec![]);

    // With allowlist but no exclusions, should deny when no repository provided
    assert!(!config.is_allowed_repository(&None));
}

#[test]
fn test_glob_pattern_wildcard_in_allow() {
    let config = create_test_config(vec!["https://github.com/myorg/*".to_string()], vec![]);

    // Test that the pattern would match (note: we can't easily test with real Repository objects,
    // but the pattern compilation is tested by the fact that create_test_config succeeds)
    assert!(!config.allow_repositories.is_empty());
    assert!(config.allow_repositories[0].matches("https://github.com/myorg/repo1"));
    assert!(config.allow_repositories[0].matches("https://github.com/myorg/repo2"));
    assert!(!config.allow_repositories[0].matches("https://github.com/other/repo"));
}

#[test]
fn test_glob_pattern_wildcard_in_exclude() {
    let config = create_test_config(vec![], vec!["https://github.com/private/*".to_string()]);

    // Test pattern matching
    assert!(!config.exclude_repositories.is_empty());
    assert!(config.exclude_repositories[0].matches("https://github.com/private/repo1"));
    assert!(config.exclude_repositories[0].matches("https://github.com/private/secret"));
    assert!(!config.exclude_repositories[0].matches("https://github.com/public/repo"));
}

#[test]
fn test_exact_match_still_works() {
    let config = create_test_config(vec!["https://github.com/exact/match".to_string()], vec![]);

    // Test that exact matches still work (glob treats them as literals)
    assert!(!config.allow_repositories.is_empty());
    assert!(config.allow_repositories[0].matches("https://github.com/exact/match"));
    assert!(!config.allow_repositories[0].matches("https://github.com/exact/other"));
}

#[test]
fn test_complex_glob_patterns() {
    let config = create_test_config(vec!["*@github.com:company/*".to_string()], vec![]);

    // Test more complex patterns with wildcards
    assert!(!config.allow_repositories.is_empty());
    assert!(config.allow_repositories[0].matches("git@github.com:company/repo"));
    assert!(config.allow_repositories[0].matches("user@github.com:company/project"));
    assert!(!config.allow_repositories[0].matches("git@github.com:other/repo"));
}

// Tests for exclude_prompts_in_repositories (blacklist)

fn create_test_config_with_exclude_prompts(exclude_prompts_patterns: Vec<String>) -> Config {
    Config {
        git_path: "/usr/bin/git".to_string(),
        exclude_prompts_in_repositories: exclude_prompts_patterns
            .into_iter()
            .filter_map(|s| Pattern::new(&s).ok())
            .collect(),
        include_prompts_in_repositories: vec![],
        allow_repositories: vec![],
        exclude_repositories: vec![],
        telemetry_oss_disabled: false,
        telemetry_enterprise_dsn: None,
        disable_version_checks: false,
        disable_auto_updates: false,
        update_channel: UpdateChannel::Latest,
        feature_flags: FeatureFlags::defaults(true),
        api_base_url: DEFAULT_API_BASE_URL.to_string(),
        prompt_storage: "default".to_string(),
        default_prompt_storage: None,
        api_key: None,
        quiet: false,
        custom_attributes: TextMap::new(),
        git_ai_hooks: TextMap::new(),
    }
}

#[test]
fn test_should_exclude_prompts_empty_patterns_returns_false() {
    let config = create_test_config_with_exclude_prompts(vec![]);

    // Empty patterns = share everywhere (blacklist model)
    assert!(!config.should_exclude_prompts(&None));
}

#[test]
fn test_should_exclude_prompts_no_repository_returns_false() {
    let config =
        create_test_config_with_exclude_prompts(vec!["https://github.com/*".to_string()]);

    // Even with patterns, no repository provided = don't exclude (can't verify)
    assert!(!config.should_exclude_prompts(&None));
}

#[test]
fn test_should_exclude_prompts_pattern_matching() {
    let config =
        create_test_config_with_exclude_prompts(vec!["https://github.com/myorg/*".to_string()]);

    // Test that pattern is compiled correctly
    assert!(!config.exclude_prompts_in_repositories.is_empty());
    assert!(
        config.exclude_prompts_in_repositories[0].matches("https://github.com/myorg/repo1")
    );
    assert!(
        config.exclude_prompts_in_repositories[0].matches("https://github.com/myorg/repo2")
    );
    assert!(
        !config.exclude_prompts_in_repositories[0].matches("https://github.com/other/repo")
    );
}

#[test]
fn test_should_exclude_prompts_wildcard_all() {
    let config = create_test_config_with_exclude_prompts(vec!["*".to_string()]);

    // Wildcard * should match any remote URL pattern (exclude all)
    assert!(!config.exclude_prompts_in_repositories.is_empty());
    assert!(config.exclude_prompts_in_repositories[0].matches("https://github.com/any/repo"));
    assert!(config.exclude_prompts_in_repositories[0].matches("git@gitlab.com:any/project"));

    // Wildcard * should also exclude repos without remotes (None case)
    assert!(config.should_exclude_prompts(&None));
}

#[test]
fn test_should_exclude_prompts_local_repo_not_excluded_without_wildcard() {
    // Test 1: Local repo with no patterns configured - never excluded
    let config_no_patterns = create_test_config_with_exclude_prompts(vec![]);
    assert!(!config_no_patterns.should_exclude_prompts(&None));

    // Test 2: Local repo with non-wildcard patterns - not excluded
    // (patterns only match against remotes, local repos have none)
    let config_with_patterns =
        create_test_config_with_exclude_prompts(vec!["https://github.com/*".to_string()]);
    assert!(
        config_with_patterns.exclude_prompts_in_repositories[0]
            .matches("https://github.com/myorg/repo")
    );
    // Non-wildcard patterns should NOT exclude repos without remotes
    assert!(!config_with_patterns.should_exclude_prompts(&None));
}

#[test]
fn test_should_exclude_prompts_respects_patterns_when_remotes_exist() {
    let config = create_test_config_with_exclude_prompts(vec![
        "https://github.com/private/*".to_string(),
    ]);

    // Pattern should match private repos (to exclude)
    assert!(
        config.exclude_prompts_in_repositories[0].matches("https://github.com/private/repo")
    );
    // Pattern should not match other repos
    assert!(
        !config.exclude_prompts_in_repositories[0].matches("https://github.com/public/repo")
    );
}

// Tests for effective_prompt_storage() with include_prompts_in_repositories

fn create_test_config_with_include_prompts(
    include_patterns: Vec<String>,
    exclude_patterns: Vec<String>,
    prompt_storage: &str,
    default_prompt_storage: Option<&str>,
) -> Config {
    Config {
        git_path: "/usr/bin/git".to_string(),
        exclude_prompts_in_repositories: exclude_patterns
            .into_iter()
            .filter_map(|s| Pattern::new(&s).ok())
            .collect(),
        include_prompts_in_repositories: include_patterns
            .into_iter()
            .filter_map(|s| Pattern::new(&s).ok())
            .collect(),
        allow_repositories: vec![],
        exclude_repositories: vec![],
        telemetry_oss_disabled: false,
        telemetry_enterprise_dsn: None,
        disable_version_checks: false,
        disable_auto_updates: false,
        update_channel: UpdateChannel::Latest,
        feature_flags: FeatureFlags::defaults(true),
        api_base_url: DEFAULT_API_BASE_URL.to_string(),
        prompt_storage: prompt_storage.to_string(),
        default_prompt_storage: default_prompt_storage.map(|s| s.to_string()),
        api_key: None,
        quiet: false,
        custom_attributes: TextMap::new(),
        git_ai_hooks: TextMap::new(),
    }
}

#[test]
fn test_effective_prompt_storage_no_include_list_uses_global() {
    // No include list = legacy behavior, use global prompt_storage
    let config = create_test_config_with_include_prompts(vec![], vec![], "notes", None);
    assert_eq!(
        config.effective_prompt_storage(&None),
        PromptStorageMode::Notes
    );

    let config = create_test_config_with_include_prompts(vec![], vec![], "local", None);
    assert_eq!(
        config.effective_prompt_storage(&None),
        PromptStorageMode::Local
    );

    let config = create_test_config_with_include_prompts(vec![], vec![], "default", None);
    assert_eq!(
        config.effective_prompt_storage(&None),
        PromptStorageMode::Default
    );
}

#[test]
fn test_effective_prompt_storage_exclude_always_wins() {
    // Exclusion with wildcard should always return Local, regardless of include list
    let config = create_test_config_with_include_prompts(
        vec!["https://github.com/work/*".to_string()],
        vec!["*".to_string()], // Exclude everything
        "default",
        Some("notes"),
    );
    assert_eq!(
        config.effective_prompt_storage(&None),
        PromptStorageMode::Local
    );
}

#[test]
fn test_effective_prompt_storage_wildcard_include_matches_no_repo() {
    // Wildcard include should match repos without remotes (None case)
    let config = create_test_config_with_include_prompts(
        vec!["*".to_string()],
        vec![],
        "default",
        Some("notes"),
    );
    // With wildcard include and None repo, should use prompt_storage (not fallback)
    assert_eq!(
        config.effective_prompt_storage(&None),
        PromptStorageMode::Default
    );
}

#[test]
fn test_effective_prompt_storage_non_wildcard_include_no_match_uses_fallback() {
    // Non-wildcard include with None repo = no match, use fallback
    let config = create_test_config_with_include_prompts(
        vec!["https://github.com/work/*".to_string()],
        vec![],
        "default",
        Some("notes"),
    );
    // None repo can't match non-wildcard pattern, should use default_prompt_storage
    assert_eq!(
        config.effective_prompt_storage(&None),
        PromptStorageMode::Notes
    );
}

#[test]
fn test_effective_prompt_storage_no_fallback_defaults_to_local() {
    // Non-wildcard include with None repo and no fallback = Local
    let config = create_test_config_with_include_prompts(
        vec!["https://github.com/work/*".to_string()],
        vec![],
        "default",
        None, // No fallback configured
    );
    // None repo can't match, and no fallback, should default to Local
    assert_eq!(
        config.effective_prompt_storage(&None),
        PromptStorageMode::Local
    );
}

#[test]
fn test_effective_prompt_storage_include_pattern_matching() {
    let config = create_test_config_with_include_prompts(
        vec!["https://github.com/positron-ai/*".to_string()],
        vec![],
        "default",
        Some("notes"),
    );

    // Test that patterns are compiled correctly
    assert!(!config.include_prompts_in_repositories.is_empty());
    assert!(
        config.include_prompts_in_repositories[0]
            .matches("https://github.com/positron-ai/repo1")
    );
    assert!(
        config.include_prompts_in_repositories[0]
            .matches("https://github.com/positron-ai/project")
    );
    assert!(
        !config.include_prompts_in_repositories[0].matches("https://github.com/other-org/repo")
    );
}

#[test]
fn test_prompt_storage_mode_from_str() {
    assert_eq!(
        "default".parse::<PromptStorageMode>().ok(),
        Some(PromptStorageMode::Default)
    );
    assert_eq!(
        "DEFAULT".parse::<PromptStorageMode>().ok(),
        Some(PromptStorageMode::Default)
    );
    assert_eq!(
        "notes".parse::<PromptStorageMode>().ok(),
        Some(PromptStorageMode::Notes)
    );
    assert_eq!(
        "NOTES".parse::<PromptStorageMode>().ok(),
        Some(PromptStorageMode::Notes)
    );
    assert_eq!(
        "local".parse::<PromptStorageMode>().ok(),
        Some(PromptStorageMode::Local)
    );
    assert_eq!(
        "LOCAL".parse::<PromptStorageMode>().ok(),
        Some(PromptStorageMode::Local)
    );
    assert_eq!("invalid".parse::<PromptStorageMode>().ok(), None);
    assert_eq!("".parse::<PromptStorageMode>().ok(), None);
}

#[test]
fn test_prompt_storage_mode_as_str() {
    assert_eq!(PromptStorageMode::Default.as_str(), "default");
    assert_eq!(PromptStorageMode::Notes.as_str(), "notes");
    assert_eq!(PromptStorageMode::Local.as_str(), "local");
}

#[test]
fn test_update_channel_default_is_latest() {
    let channel = UpdateChannel::default();
    assert_eq!(channel, UpdateChannel::Latest);
    assert_eq!(channel.as_str(), "latest");
}

#[test]
fn test_update_channel_enterprise_latest_maps_to_enterprise_latest() {
    let channel = UpdateChannel::from_str("enterprise-latest").unwrap();
    assert_eq!(channel, UpdateChannel::EnterpriseLatest);
    assert_eq!(channel.as_str(), "enterprise-latest");
}

#[test]
fn test_update_channel_enterprise_next_maps_to_enterprise_next() {
    let channel = UpdateChannel::from_str("enterprise-next").unwrap();
    assert_eq!(channel, UpdateChannel::EnterpriseNext);
    assert_eq!(channel.as_str(), "enterprise-next");
}

#[test]
fn test_update_channel_enterprise_latest_parses() {
    let channel = UpdateChannel::from_str("enterprise-latest").unwrap();
    assert_eq!(channel, UpdateChannel::EnterpriseLatest);
    assert_eq!(channel.as_str(), "enterprise-latest");
}

#[test]
fn test_update_channel_enterprise_next_parses() {
    let channel = UpdateChannel::from_str("enterprise-next").unwrap();
    assert_eq!(channel, UpdateChannel::EnterpriseNext);
    assert_eq!(channel.as_str(), "enterprise-next");
}

#[test]
fn test_quiet_default_is_false() {
    let config = create_test_config(vec![], vec![]);
    assert!(!config.is_quiet());
}

#[test]
fn test_quiet_can_be_enabled() {
    let mut config = create_test_config(vec![], vec![]);
    config.quiet = true;
    assert!(config.is_quiet());
}

#[test]
fn test_excluded_repo_with_remotes() {
    let config = create_test_config(vec![], vec!["https://github.com/excluded/*".to_string()]);
    let remotes = vec![(
        "origin".to_string(),
        "https://github.com/excluded/repo".to_string(),
    )];
    assert!(!config.is_allowed_repository_with_remotes(Some(&remotes)));
}

#[test]
fn test_allowed_repo_not_excluded_with_remotes() {
    let config = create_test_config(vec![], vec!["https://github.com/excluded/*".to_string()]);
    let remotes = vec![(
        "origin".to_string(),
        "https://github.com/allowed/repo".to_string(),
    )];
    assert!(config.is_allowed_repository_with_remotes(Some(&remotes)));
}

#[test]
fn test_allowlist_with_remotes() {
    let config = create_test_config(vec!["https://github.com/myorg/*".to_string()], vec![]);
    let remotes = vec![(
        "origin".to_string(),
        "https://github.com/myorg/project".to_string(),
    )];
    assert!(config.is_allowed_repository_with_remotes(Some(&remotes)));
}

#[test]
fn test_allowlist_denies_unmatched_remotes() {
    let config = create_test_config(vec!["https://github.com/myorg/*".to_string()], vec![]);
    let remotes = vec![(
        "origin".to_string(),
        "https://github.com/other/project".to_string(),
    )];
    assert!(!config.is_allowed_repository_with_remotes(Some(&remotes)));
}

#[test]
fn test_exclusion_takes_precedence_with_remotes() {
    let config = create_test_config(
        vec!["https://github.com/myorg/*".to_string()],
        vec!["https://github.com/myorg/secret".to_string()],
    );
    let remotes = vec![(
        "origin".to_string(),
        "https://github.com/myorg/secret".to_string(),
    )];
    assert!(!config.is_allowed_repository_with_remotes(Some(&remotes)));
}

#[test]
fn test_no_remotes_allowed_when_only_excludes() {
    let config = create_test_config(vec![], vec!["https://github.com/excluded/*".to_string()]);
    assert!(config.is_allowed_repository_with_remotes(None));
}

#[test]
fn test_no_remotes_denied_when_allowlist_active() {
    let config = create_test_config(vec!["https://github.com/myorg/*".to_string()], vec![]);
    assert!(!config.is_allowed_repository_with_remotes(None));
}

#[test]
fn test_empty_remotes_treated_as_no_match_for_exclusion() {
    let config = create_test_config(vec![], vec!["https://github.com/excluded/*".to_string()]);
    let remotes: Vec<(String, String)> = vec![];
    assert!(config.is_allowed_repository_with_remotes(Some(&remotes)));
}

#[test]
fn test_multiple_remotes_one_excluded() {
    let config = create_test_config(vec![], vec!["https://github.com/excluded/*".to_string()]);
    let remotes = vec![
        (
            "origin".to_string(),
            "https://github.com/allowed/repo".to_string(),
        ),
        (
            "upstream".to_string(),
            "https://github.com/excluded/repo".to_string(),
        ),
    ];
    assert!(!config.is_allowed_repository_with_remotes(Some(&remotes)));
}

fn git_path_in(data: &[u8]) -> Option<String> {
    let value: serde_json::Value = serde_json::from_slice(&config_file_bytes(data)).ok()?;
    Some(value["git_path"].as_str()?.to_string())
}

#[test]
fn test_parse_file_config_bytes_accepts_utf8_bom() {
    let mut data = vec![0xEF, 0xBB, 0xBF];
    data.extend_from_slice(br#"{"git_path":"C:\\Program Files\\Git\\cmd\\git.exe"}"#);

    let parsed = git_path_in(&data);
    assert_eq!(
        parsed.as_deref(),
        Some(r"C:\Program Files\Git\cmd\git.exe")
    );
}

#[test]
fn test_parse_file_config_bytes_without_bom_still_parses() {
    let data = br#"{"git_path":"/usr/bin/git"}"#;

    let parsed = git_path_in(data);
    assert_eq!(parsed.as_deref(), Some("/usr/bin/git"));
}

#[test]
fn test_path_is_git_ai_binary_symlink_to_git_ai() {
    // A link `git` that leads to `git-ai`.
    assert!(path_is_git_ai_binary(&Some("/tmp/dir/git-ai".to_string()), true));
    assert!(path_is_git_ai_binary(&Some("/tmp/dir/git-ai".to_string()), false));
}

#[test]
fn test_path_is_git_ai_binary_real_git_with_sibling_symlink() {
    // A real `git` beside a `git-ai` that is another file.
    assert!(!path_is_git_ai_binary(&Some("/tmp/dir/git".to_string()), false));
}

#[test]
fn test_path_is_git_ai_binary_hardlink() {
    // A `git` that is the same file as the `git-ai` beside it.
    assert!(path_is_git_ai_binary(&Some("/tmp/dir/git".to_string()), true));
}

fn some(text: &str) -> Option<String> {
    Some(text.to_string())
}

fn no_env() -> ConfigEnv {
    ConfigEnv {
        vars: TextMap::new(),
        debug: false,
        oss_build: true,
    }
}

#[test]
fn settings_are_built_from_the_file() {
    let (config, warnings) = build_config(&FileConfig::default(), &no_env(), "/usr/bin/git".to_string());
    assert!(warnings.is_empty());
    assert_eq!(config.git_cmd(), "/usr/bin/git");
    assert_eq!(config.api_base_url, DEFAULT_API_BASE_URL);
    assert_eq!(config.prompt_storage, "default");
    assert!(!config.is_telemetry_oss_disabled());
    assert!(!config.version_checks_disabled());
    assert!(!config.auto_updates_disabled());
    assert_eq!(config.update_channel, UpdateChannel::Latest);
    let mut hooks = TextMap::new();
    hooks.insert(" post ".to_string(), vec![" a ".to_string(), " ".to_string()]);
    hooks.insert("empty".to_string(), vec![]);
    let file = FileConfig {
        allow_repositories: Some(vec!["ok/*".to_string(), "***".to_string()]),
        telemetry_oss: some("off"),
        telemetry_enterprise_dsn: some(""),
        update_channel: some("next"),
        prompt_storage: some("odd"),
        default_prompt_storage: some("local"),
        api_key: some("file"),
        quiet: Some(true),
        feature_flags: some("{\"auth_keyring\":true}"),
        git_ai_hooks: Some(hooks),
        ..FileConfig::default()
    };
    let mut env = no_env();
    env.oss_build = false;
    env.vars.insert("GIT_AI_API_KEY".to_string(), "env".to_string());
    env.vars.insert("GIT_AI_REWRITE_STASH".to_string(), "0".to_string());
    env.vars.insert(
        "GIT_AI_CUSTOM_ATTRIBUTES".to_string(),
        "{\"team\":\"x\",\"n\":1}".to_string(),
    );
    let (config, warnings) = build_config(&file, &env, "git".to_string());
    assert_eq!(warnings.len(), 2);
    assert_eq!(config.allow_repositories.len(), 1);
    assert!(config.is_telemetry_oss_disabled());
    assert_eq!(config.telemetry_enterprise_dsn(), None);
    assert!(config.version_checks_disabled() && config.auto_updates_disabled());
    assert_eq!(config.update_channel, UpdateChannel::Next);
    assert_eq!(config.prompt_storage, "default");
    assert_eq!(config.default_prompt_storage.as_deref(), Some("local"));
    assert_eq!(config.api_key.as_deref(), Some("env"));
    assert!(config.quiet);
    assert!(config.feature_flags.auth_keyring && !config.feature_flags.rewrite_stash);
    assert_eq!(config.custom_attributes().get("team").map(String::as_str), Some("x"));
    assert_eq!(config.custom_attributes.get("n").map(String::as_str), Some("1"));
    assert_eq!(config.git_ai_hook_commands("post"), Some(&vec!["a".to_string()]));
    assert_eq!(config.git_ai_hook_commands("empty"), None);
}

#[test]
fn attributes_of_the_environment_win() {
    let mut file = TextMap::new();
    file.insert("team".to_string(), "file".to_string());
    file.insert("kept".to_string(), "file".to_string());
    let attrs = build_custom_attributes(&Some(file), &some("{\"team\":\"env\",\"kept\":null}"));
    assert_eq!(attrs.get("team").map(String::as_str), Some("env"));
    assert_eq!(attrs.get("kept").map(String::as_str), Some("file"));
    assert_eq!(attrs.get("other"), None);
}

#[test]
fn settings_are_patched() {
    let config = create_test_config(vec![], vec![]);
    let patch = ConfigPatch {
        exclude_prompts_in_repositories: Some(vec!["x".to_string(), "***".to_string()]),
        telemetry_oss_disabled: Some(true),
        disable_version_checks: None,
        disable_auto_updates: Some(true),
        prompt_storage: some("notes"),
        custom_attributes: None,
        feature_flags: some("{\"rewrite_stash\":false}"),
    };
    let (config, warnings) = apply_config_patch(config, patch);
    assert_eq!(warnings.len(), 1);
    assert!(warnings[0].starts_with(
        "Warning: Invalid test pattern in exclude_prompts_in_repositories '***': "
    ));
    assert_eq!(config.exclude_prompts_in_repositories.len(), 1);
    assert!(config.telemetry_oss_disabled && config.disable_auto_updates);
    assert!(!config.disable_version_checks);
    assert_eq!(config.prompt_storage, "notes");
    assert!(!config.feature_flags.rewrite_stash);
    let patch = ConfigPatch {
        exclude_prompts_in_repositories: None,
        telemetry_oss_disabled: None,
        disable_version_checks: None,
        disable_auto_updates: None,
        prompt_storage: some("odd"),
        custom_attributes: None,
        feature_flags: some("[]"),
    };
    let (config, warnings) = apply_config_patch(config, patch);
    assert_eq!(
        warnings,
        vec!["Warning: Invalid test prompt_storage value 'odd', ignoring".to_string()]
    );
    assert_eq!(config.prompt_storage, "notes");
    assert!(!config.feature_flags.rewrite_stash);
}

#[test]
fn files_of_the_application_stand_in_its_directory() {
    assert_eq!(git_ai_dir_path("/h").as_deref(), Some("/h/.easylife-ai"));
    assert_eq!(config_file_path_public("/h").as_deref(), Some("/h/.easylife-ai/config.json"));
    assert_eq!(internal_dir_path("/h").as_deref(), Some("/h/.easylife-ai/internal"));
    assert_eq!(skills_dir_path("/h").as_deref(), Some("/h/.easylife-ai/skills"));
    assert_eq!(id_file_path("/h").as_deref(), Some("/h/.easylife-ai/internal/distinct_id"));
    assert_eq!(
        update_check_path("/h").as_deref(),
        Some("/h/.easylife-ai/internal/update_check")
    );
    assert_eq!(distinct_id(&some(" id\n"), "new".to_string()), ("id".to_string(), false));
    assert_eq!(distinct_id(&some(" "), "new".to_string()), ("new".to_string(), true));
    assert_eq!(masked_api_key("123456789"), "1234...6789");
    assert_eq!(masked_api_key("12345678"), "****");
}

#[test]
fn git_is_not_this_application() {
    let candidates = git_candidates(&some(" /my/git "), "/h", false);
    assert_eq!(candidates[0], "/my/git");
    assert_eq!(candidates[1], "/h/.local/bin/git");
    assert_eq!(candidates.len(), 10);
    assert_eq!(git_candidates(&some(" "), "/h", false).len(), 9);
    let windows = git_candidates(&None, "/h", true);
    assert_eq!(windows.len(), 8);
    assert_eq!(windows[0], "/opt/homebrew/bin/git");
    let candidate = |canonical: &str, same: bool| GitCandidate {
        is_file: true,
        canonical: Some(canonical.to_string()),
        same_as_sibling: same,
    };
    assert!(is_real_git_candidate(&candidate("/usr/bin/git", false)));
    assert!(!is_real_git_candidate(&candidate("/usr/bin/git", true)));
    assert!(!is_real_git_candidate(&candidate("/x/git-ai", false)));
    assert!(!is_real_git_candidate(&candidate("/x/git-ai-1.exe", false)));
    assert_eq!(sibling_path("/x/git", false).as_deref(), Some("/x/git-ai"));
    assert_eq!(sibling_path("/x/git", true).as_deref(), Some("/x/git-ai.exe"));
    let list = vec!["a".to_string(), "b".to_string(), "c".to_string()];
    assert_eq!(choose_git(&list, &[false, true, true]).as_deref(), Some("b"));
    assert_eq!(choose_git(&list, &[false, false, false]), None);
}

#[test]
fn names_are_read_back() {
    assert_eq!(mode_from_name("local"), Some(PromptStorageMode::Local));
    assert_eq!(mode_from_name("odd"), None);
    assert_eq!(channel_from_name("enterprise-next"), Some(UpdateChannel::EnterpriseNext));
    assert_eq!(channel_from_name("odd"), None);
}
