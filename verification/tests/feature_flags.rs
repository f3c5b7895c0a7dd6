//! The switches.

use git_ai::feature_flags::{DeserializableFeatureFlags, FeatureFlags, parse_bool_env};
use git_ai::text_map::TextMap;

#[test]
fn test_default_feature_flags() {
    // The defaults of a debug build.
    let flags = FeatureFlags::defaults(true);
    {
        assert!(flags.rewrite_stash);
        assert!(!flags.auth_keyring);
        assert!(!flags.git_hooks_enabled);
        assert!(!flags.git_hooks_externally_managed);
        assert!(flags.transcript_streaming);
    }
    // The defaults of a release.
    let flags = FeatureFlags::defaults(false);
    {
        assert!(flags.rewrite_stash);
        assert!(!flags.auth_keyring);
        assert!(!flags.git_hooks_enabled);
        assert!(!flags.git_hooks_externally_managed);
        assert!(!flags.transcript_streaming);
    }
}

#[test]
fn test_from_deserializable() {
    let deserializable = DeserializableFeatureFlags {
        rewrite_stash: Some(false),
        auth_keyring: Some(true),
        ..Default::default()
    };

    let flags = FeatureFlags::from_deserializable(deserializable, true);
    assert!(!flags.rewrite_stash);
    assert!(flags.auth_keyring);
}

#[test]
fn test_from_env_and_file_defaults_only() {
    let flags = FeatureFlags::from_env_and_file(None, &TextMap::new(), true);
    let defaults = FeatureFlags::defaults(true);
    assert_eq!(flags.rewrite_stash, defaults.rewrite_stash);
    assert_eq!(flags.auth_keyring, defaults.auth_keyring);
}

#[test]
fn test_from_env_and_file_file_overrides() {
    let file_flags = DeserializableFeatureFlags {
        rewrite_stash: Some(true),
        auth_keyring: Some(true),
        ..Default::default()
    };

    let flags = FeatureFlags::from_env_and_file(Some(file_flags), &TextMap::new(), true);
    assert!(flags.rewrite_stash);
    assert!(flags.auth_keyring);
}

#[test]
fn test_clone_trait() {
    let flags = FeatureFlags {
        rewrite_stash: true,
        auth_keyring: true,
        git_hooks_enabled: true,
        git_hooks_externally_managed: false,
        transcript_streaming: true,
    };
    let cloned = flags.clone();
    assert_eq!(cloned.rewrite_stash, flags.rewrite_stash);
    assert_eq!(cloned.auth_keyring, flags.auth_keyring);
    assert_eq!(cloned.git_hooks_enabled, flags.git_hooks_enabled);
    assert_eq!(
        cloned.git_hooks_externally_managed,
        flags.git_hooks_externally_managed
    );
    assert_eq!(cloned.transcript_streaming, flags.transcript_streaming);
}

#[test]
fn test_debug_trait() {
    let flags = FeatureFlags::defaults(true);
    let debug_str = format!("{:?}", flags);
    assert!(debug_str.contains("FeatureFlags"));
}

#[test]
fn switches_are_read_from_variables() {
    for (text, value) in [
        ("1", Some(true)),
        ("TRUE", Some(true)),
        ("False", Some(false)),
        ("yes", None),
    ] {
        assert_eq!(parse_bool_env(Some(&text.to_string())), value);
    }
    assert_eq!(parse_bool_env(None), None);
    let mut env = TextMap::new();
    env.insert("GIT_AI_AUTH_KEYRING".to_string(), "1".to_string());
    let set = DeserializableFeatureFlags::from_env(&env);
    assert_eq!((set.auth_keyring, set.rewrite_stash), (Some(true), None));
    assert!(FeatureFlags::from_env(&env, false).auth_keyring);
}

#[test]
fn switches_are_read_from_json() {
    let set = DeserializableFeatureFlags::from_json("{\"auth_keyring\":true,\"rewrite_stash\":null}").unwrap();
    assert_eq!((set.auth_keyring, set.rewrite_stash), (Some(true), None));
    assert!(DeserializableFeatureFlags::from_json("{\"auth_keyring\":1}").is_none());
    assert!(DeserializableFeatureFlags::from_json("nonsense").is_none());
    let merged = FeatureFlags::merge_with(FeatureFlags::defaults(false), set);
    assert!(merged.auth_keyring && merged.rewrite_stash);
}
