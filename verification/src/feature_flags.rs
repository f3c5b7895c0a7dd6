//! Switches for features that are not on for everyone.

use crate::json::{JsonKind, json_bool, json_bool_of};
use crate::json_members::{
    Fields, can_be_record, field_in, fields_of, is_optional, is_record, optional,
};
use crate::model::opt_view;
use crate::text::str_eq;
use crate::text_map::{TextMap, text_values};
use vstd::prelude::*;
use vstd::string::*;

verus! {

/// A truth value as an environment variable has it; none where it is no such value.
pub open spec fn bool_of(value: Option<Seq<char>>) -> Option<bool> {
    match value {
        None => None,
        Some(v) => if v == "1"@ || v == "true"@ || v == "True"@ || v == "TRUE"@ {
            Some(true)
        } else if v == "0"@ || v == "false"@ || v == "False"@ || v == "FALSE"@ {
            Some(false)
        } else {
            None
        },
    }
}

/// A truth value as an environment variable has it.
pub fn parse_bool_env(value: Option<&String>) -> (r: Option<bool>)
    ensures
        r == bool_of(
            match value {
                Some(v) => Some(v@),
                None => None,
            },
        ),
{
    match value {
        None => None,
        Some(v) => {
            let v: &str = v.as_str();
            if str_eq(v, "1") || str_eq(v, "true") || str_eq(v, "True") || str_eq(v, "TRUE") {
                Some(true)
            } else if str_eq(v, "0") || str_eq(v, "false") || str_eq(v, "False") || str_eq(
                v,
                "FALSE",
            ) {
                Some(false)
            } else {
                None
            }
        },
    }
}

/// The switches.
#[derive(Clone, Copy, PartialEq, Eq, Structural, Debug)]
pub struct FeatureFlags {
    pub rewrite_stash: bool,
    pub auth_keyring: bool,
    pub git_hooks_enabled: bool,
    pub git_hooks_externally_managed: bool,
    pub transcript_streaming: bool,
}

/// The switches that are set on purpose.
#[derive(Clone, Copy, Debug)]
pub struct DeserializableFeatureFlags {
    pub rewrite_stash: Option<bool>,
    pub auth_keyring: Option<bool>,
    pub git_hooks_enabled: Option<bool>,
    pub git_hooks_externally_managed: Option<bool>,
    pub transcript_streaming: Option<bool>,
}

impl Default for DeserializableFeatureFlags {
    /// No switch is set.
    fn default() -> (r: Self)
        ensures
            r == no_overrides(),
    {
        DeserializableFeatureFlags {
            rewrite_stash: None,
            auth_keyring: None,
            git_hooks_enabled: None,
            git_hooks_externally_managed: None,
            transcript_streaming: None,
        }
    }
}

/// No switch set.
pub open spec fn no_overrides() -> DeserializableFeatureFlags {
    DeserializableFeatureFlags {
        rewrite_stash: None,
        auth_keyring: None,
        git_hooks_enabled: None,
        git_hooks_externally_managed: None,
        transcript_streaming: None,
    }
}

/// The switches of a debug build or of a release.
pub open spec fn default_flags(debug: bool) -> FeatureFlags {
    FeatureFlags {
        rewrite_stash: true,
        auth_keyring: false,
        git_hooks_enabled: false,
        git_hooks_externally_managed: false,
        transcript_streaming: debug,
    }
}

/// A switch: as it is set, or else as it was.
pub open spec fn or_base(set: Option<bool>, base: bool) -> bool {
    match set {
        Some(b) => b,
        None => base,
    }
}

/// Switches with those that are set on purpose.
pub open spec fn merged(base: FeatureFlags, set: DeserializableFeatureFlags) -> FeatureFlags {
    FeatureFlags {
        rewrite_stash: or_base(set.rewrite_stash, base.rewrite_stash),
        auth_keyring: or_base(set.auth_keyring, base.auth_keyring),
        git_hooks_enabled: or_base(set.git_hooks_enabled, base.git_hooks_enabled),
        git_hooks_externally_managed: or_base(
            set.git_hooks_externally_managed,
            base.git_hooks_externally_managed,
        ),
        transcript_streaming: or_base(set.transcript_streaming, base.transcript_streaming),
    }
}

/// The switch that an environment variable sets.
pub open spec fn env_flag(env: Map<Seq<char>, Seq<char>>, name: Seq<char>) -> Option<bool> {
    bool_of(
        if env.dom().contains(name) {
            Some(env[name])
        } else {
            None
        },
    )
}

/// The switches that the environment sets.
pub open spec fn env_flags(env: Map<Seq<char>, Seq<char>>) -> DeserializableFeatureFlags {
    DeserializableFeatureFlags {
        rewrite_stash: env_flag(env, "GIT_AI_REWRITE_STASH"@),
        auth_keyring: env_flag(env, "GIT_AI_AUTH_KEYRING"@),
        git_hooks_enabled: env_flag(env, "GIT_AI_GIT_HOOKS_ENABLED"@),
        git_hooks_externally_managed: env_flag(env, "GIT_AI_GIT_HOOKS_EXTERNALLY_MANAGED"@),
        transcript_streaming: env_flag(env, "GIT_AI_TRANSCRIPT_STREAMING"@),
    }
}

/// The truth value that a field is.
pub open spec fn field_bool(field: Option<Seq<char>>) -> Option<bool> {
    match field {
        Some(text) => json_bool_of(text, ""@),
        None => None,
    }
}

fn read_bool(field: &Option<String>) -> (r: Option<bool>)
    ensures
        r == field_bool(opt_view(*field)),
{
    match field {
        Some(text) => json_bool(text.as_str(), ""),
        None => None,
    }
}

/// Whether a JSON text is a record of switches, each of them a truth value or left out.
pub open spec fn is_file_flags(text: Seq<char>) -> bool {
    let f = fields_of(text);
    &&& is_record(text, 0, 5)
    &&& optional(field_in(f, "rewrite_stash"@, 0), JsonKind::Bool)
    &&& optional(field_in(f, "auth_keyring"@, 1), JsonKind::Bool)
    &&& optional(field_in(f, "git_hooks_enabled"@, 2), JsonKind::Bool)
    &&& optional(field_in(f, "git_hooks_externally_managed"@, 3), JsonKind::Bool)
    &&& optional(field_in(f, "transcript_streaming"@, 4), JsonKind::Bool)
}

/// The switches that a JSON text sets, where it is a record of switches.
pub open spec fn file_flags_of(text: Seq<char>) -> Option<DeserializableFeatureFlags> {
    let f = fields_of(text);
    if is_file_flags(text) {
        Some(
            DeserializableFeatureFlags {
                rewrite_stash: field_bool(field_in(f, "rewrite_stash"@, 0)),
                auth_keyring: field_bool(field_in(f, "auth_keyring"@, 1)),
                git_hooks_enabled: field_bool(field_in(f, "git_hooks_enabled"@, 2)),
                git_hooks_externally_managed: field_bool(field_in(f, "git_hooks_externally_managed"@, 3)),
                transcript_streaming: field_bool(field_in(f, "transcript_streaming"@, 4)),
            },
        )
    } else {
        None
    }
}

fn env_bool(env: &TextMap<String>, name: &str) -> (r: Option<bool>)
    ensures
        r == env_flag(text_values(env@), name@),
{
    parse_bool_env(env.get(name))
}

impl DeserializableFeatureFlags {
    /// The switches that the environment sets.
    pub fn from_env(env: &TextMap<String>) -> (r: Self)
        ensures
            r == env_flags(text_values(env@)),
    {
        DeserializableFeatureFlags {
            rewrite_stash: env_bool(env, "GIT_AI_REWRITE_STASH"),
            auth_keyring: env_bool(env, "GIT_AI_AUTH_KEYRING"),
            git_hooks_enabled: env_bool(env, "GIT_AI_GIT_HOOKS_ENABLED"),
            git_hooks_externally_managed: env_bool(env, "GIT_AI_GIT_HOOKS_EXTERNALLY_MANAGED"),
            transcript_streaming: env_bool(env, "GIT_AI_TRANSCRIPT_STREAMING"),
        }
    }

    /// The switches that a JSON text sets, where it is a record of switches.
    pub fn from_json(text: &str) -> (r: Option<Self>)
        ensures
            r == file_flags_of(text@),
    {
        let f = Fields::new(text);
        if can_be_record(text, 0, 5) && is_optional(&f.get("rewrite_stash", 0), JsonKind::Bool)
            && is_optional(&f.get("auth_keyring", 1), JsonKind::Bool)
            && is_optional(&f.get("git_hooks_enabled", 2), JsonKind::Bool)
            && is_optional(&f.get("git_hooks_externally_managed", 3), JsonKind::Bool)
            && is_optional(&f.get("transcript_streaming", 4), JsonKind::Bool) {
            Some(
                DeserializableFeatureFlags {
                    rewrite_stash: read_bool(&f.get("rewrite_stash", 0)),
                    auth_keyring: read_bool(&f.get("auth_keyring", 1)),
                    git_hooks_enabled: read_bool(&f.get("git_hooks_enabled", 2)),
                    git_hooks_externally_managed: read_bool(&f.get("git_hooks_externally_managed", 3)),
                    transcript_streaming: read_bool(&f.get("transcript_streaming", 4)),
                },
            )
        } else {
            None
        }
    }
}

impl FeatureFlags {
    /// The switches of a debug build or of a release.
    pub fn defaults(debug: bool) -> (r: Self)
        ensures
            r == default_flags(debug),
    {
        FeatureFlags {
            rewrite_stash: true,
            auth_keyring: false,
            git_hooks_enabled: false,
            git_hooks_externally_managed: false,
            transcript_streaming: debug,
        }
    }

    /// Switches with those that are set on purpose.
    pub fn merge_with(base: Self, overrides: DeserializableFeatureFlags) -> (r: Self)
        ensures
            r == merged(base, overrides),
    {
        FeatureFlags {
            rewrite_stash: match overrides.rewrite_stash {
                Some(b) => b,
                None => base.rewrite_stash,
            },
            auth_keyring: match overrides.auth_keyring {
                Some(b) => b,
                None => base.auth_keyring,
            },
            git_hooks_enabled: match overrides.git_hooks_enabled {
                Some(b) => b,
                None => base.git_hooks_enabled,
            },
            git_hooks_externally_managed: match overrides.git_hooks_externally_managed {
                Some(b) => b,
                None => base.git_hooks_externally_managed,
            },
            transcript_streaming: match overrides.transcript_streaming {
                Some(b) => b,
                None => base.transcript_streaming,
            },
        }
    }

    /// The default switches with those that are set on purpose.
    pub fn from_deserializable(flags: DeserializableFeatureFlags, debug: bool) -> (r: Self)
        ensures
            r == merged(default_flags(debug), flags),
    {
        Self::merge_with(Self::defaults(debug), flags)
    }

    /// The default switches with those that the environment sets.
    pub fn from_env(env: &TextMap<String>, debug: bool) -> (r: Self)
        ensures
            r == merged(default_flags(debug), env_flags(text_values(env@))),
    {
        Self::from_deserializable(DeserializableFeatureFlags::from_env(env), debug)
    }

    /// The default switches with those that the configuration sets, and over them those
    /// that the environment sets.
    pub fn from_env_and_file(
        file_flags: Option<DeserializableFeatureFlags>,
        env: &TextMap<String>,
        debug: bool,
    ) -> (r: Self)
        ensures
            r == merged(
                match file_flags {
                    Some(file) => merged(default_flags(debug), file),
                    None => default_flags(debug),
                },
                env_flags(text_values(env@)),
            ),
    {
        let base = match file_flags {
            Some(file) => Self::merge_with(Self::defaults(debug), file),
            None => Self::defaults(debug),
        };
        Self::merge_with(base, DeserializableFeatureFlags::from_env(env))
    }
}

/// A switch that the environment sets is as the environment sets it, whatever the
/// configuration says.
pub proof fn law_environment_wins(
    base: FeatureFlags,
    file: DeserializableFeatureFlags,
    env: DeserializableFeatureFlags,
)
    ensures
        env.rewrite_stash matches Some(b) ==> merged(merged(base, file), env).rewrite_stash == b,
        env.auth_keyring matches Some(b) ==> merged(merged(base, file), env).auth_keyring == b,
        env.git_hooks_enabled matches Some(b) ==> merged(
            merged(base, file),
            env,
        ).git_hooks_enabled == b,
        env.git_hooks_externally_managed matches Some(b) ==> merged(
            merged(base, file),
            env,
        ).git_hooks_externally_managed == b,
        env.transcript_streaming matches Some(b) ==> merged(
            merged(base, file),
            env,
        ).transcript_streaming == b,
{
}

/// Setting nothing changes nothing.
pub proof fn law_nothing_set_changes_nothing(base: FeatureFlags)
    ensures
        merged(base, no_overrides()) == base,
{
}

} // verus!
