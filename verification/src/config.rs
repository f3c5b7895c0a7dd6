//! The configuration: what a file and the environment say, and what follows from it.

use crate::feature_flags::{
    DeserializableFeatureFlags, FeatureFlags, default_flags, env_flags, file_flags_of, merged,
};
use crate::json::{JsonKind, json_keys, json_keys_of, json_member, json_member_of};
use crate::model::{lemma_views_push, opt_view, views};
use crate::paths::{file_name, file_name_of, join, joined, parent, parent_of};
use crate::text::{
    chars_of, clone_option, concat, has_prefix, has_suffix, lemma_texts_push, lowercase_of,
    starts_with, str_eq, string_of, strip_suffix, texts, to_lowercase, trim, trimmed,
};
use crate::text_map::{TextMap, clone_text_map, opt_texts_map, text_values};
use vstd::prelude::*;
use vstd::string::*;

verus! {

/// The address of the service where none is configured.
pub const DEFAULT_API_BASE_URL: &'static str = "https://usegitai.com";

/// The directory, below the home directory, that holds the application's data.
pub const APP_DIR_NAME: &'static str = ".easylife-ai";

// ----------------------------------------------------------------------------- modes

/// Where the texts of prompts are kept.
#[derive(Clone, Copy, Debug, PartialEq, Eq, Structural)]
pub enum PromptStorageMode {
    /// With the service.
    Default,
    /// In git notes, with secrets taken out.
    Notes,
    /// In a local database only.
    Local,
}

/// The name of a mode.
pub open spec fn mode_name(mode: PromptStorageMode) -> Seq<char> {
    match mode {
        PromptStorageMode::Default => "default"@,
        PromptStorageMode::Notes => "notes"@,
        PromptStorageMode::Local => "local"@,
    }
}

/// The mode of a name in lower case.
pub open spec fn mode_named(name: Seq<char>) -> Option<PromptStorageMode> {
    if name == "default"@ {
        Some(PromptStorageMode::Default)
    } else if name == "notes"@ {
        Some(PromptStorageMode::Notes)
    } else if name == "local"@ {
        Some(PromptStorageMode::Local)
    } else {
        None
    }
}

/// The mode that a text stands for, in any case and with spaces around it.
pub open spec fn mode_of(text: Seq<char>) -> Option<PromptStorageMode> {
    mode_named(lowercase_of(trimmed(text)))
}

/// The mode of a name in lower case.
pub fn mode_from_name(name: &str) -> (r: Option<PromptStorageMode>)
    ensures
        r == mode_named(name@),
{
    if str_eq(name, "default") {
        Some(PromptStorageMode::Default)
    } else if str_eq(name, "notes") {
        Some(PromptStorageMode::Notes)
    } else if str_eq(name, "local") {
        Some(PromptStorageMode::Local)
    } else {
        None
    }
}

impl PromptStorageMode {
    /// The name of the mode.
    pub fn as_str(&self) -> (r: &'static str)
        ensures
            r@ == mode_name(*self),
    {
        match self {
            PromptStorageMode::Default => "default",
            PromptStorageMode::Notes => "notes",
            PromptStorageMode::Local => "local",
        }
    }

    /// The mode that a text stands for, or what is wrong with it.
    pub fn parse(input: &str) -> (r: Result<Self, String>)
        ensures
            match r {
                Ok(mode) => mode_of(input@) == Some(mode),
                Err(e) => mode_of(input@) is None && e@ == "invalid prompt storage mode: '"@
                    + lowercase_of(trimmed(input@)) + "'"@,
            },
    {
        let name = to_lowercase(trim(input).as_str());
        match mode_from_name(name.as_str()) {
            Some(mode) => Ok(mode),
            None => {
                let mut e = concat("invalid prompt storage mode: '", name.as_str());
                e.append("'");
                Err(e)
            },
        }
    }
}

impl std::str::FromStr for PromptStorageMode {
    type Err = String;

    fn from_str(input: &str) -> Result<Self, String> {
        PromptStorageMode::parse(input)
    }
}

/// The name of a mode stands for that mode.
pub proof fn law_mode_names_read_back(mode: PromptStorageMode)
    ensures
        mode_named(mode_name(mode)) == Some(mode),
{
    reveal_strlit("default");
    reveal_strlit("notes");
    reveal_strlit("local");
    assert("default"@.len() == 7);
    assert("notes"@.len() == 5);
    assert("local"@.len() == 5);
    assert("notes"@[0] == 'n');
    assert("local"@[0] == 'l');
}

/// Which releases updates are taken from.
#[derive(Clone, Copy, Debug, PartialEq, Eq, Structural)]
pub enum UpdateChannel {
    Latest,
    Next,
    EnterpriseLatest,
    EnterpriseNext,
}

impl Default for UpdateChannel {
    /// The latest release.
    fn default() -> (r: Self)
        ensures
            r == UpdateChannel::Latest,
    {
        UpdateChannel::Latest
    }
}

/// The channel of a name in lower case.
pub open spec fn channel_named(name: Seq<char>) -> Option<UpdateChannel> {
    if name == "latest"@ {
        Some(UpdateChannel::Latest)
    } else if name == "next"@ {
        Some(UpdateChannel::Next)
    } else if name == "enterprise-latest"@ {
        Some(UpdateChannel::EnterpriseLatest)
    } else if name == "enterprise-next"@ {
        Some(UpdateChannel::EnterpriseNext)
    } else {
        None
    }
}

/// The channel of a name in lower case.
pub fn channel_from_name(name: &str) -> (r: Option<UpdateChannel>)
    ensures
        r == channel_named(name@),
{
    if str_eq(name, "latest") {
        Some(UpdateChannel::Latest)
    } else if str_eq(name, "next") {
        Some(UpdateChannel::Next)
    } else if str_eq(name, "enterprise-latest") {
        Some(UpdateChannel::EnterpriseLatest)
    } else if str_eq(name, "enterprise-next") {
        Some(UpdateChannel::EnterpriseNext)
    } else {
        None
    }
}

/// The name of a channel.
pub open spec fn channel_name(channel: UpdateChannel) -> Seq<char> {
    match channel {
        UpdateChannel::Latest => "latest"@,
        UpdateChannel::Next => "next"@,
        UpdateChannel::EnterpriseLatest => "enterprise-latest"@,
        UpdateChannel::EnterpriseNext => "enterprise-next"@,
    }
}

impl UpdateChannel {
    /// The name of the channel.
    pub fn as_str(&self) -> (r: &'static str)
        ensures
            r@ == channel_name(*self),
    {
        match self {
            UpdateChannel::Latest => "latest",
            UpdateChannel::Next => "next",
            UpdateChannel::EnterpriseLatest => "enterprise-latest",
            UpdateChannel::EnterpriseNext => "enterprise-next",
        }
    }

    /// The channel that a text stands for, in any case and with spaces around it.
    pub fn from_str(input: &str) -> (r: Option<Self>)
        ensures
            r == channel_named(lowercase_of(trimmed(input@))),
    {
        channel_from_name(to_lowercase(trim(input).as_str()).as_str())
    }
}

/// The name of a channel stands for that channel.
pub proof fn law_channel_names_read_back(channel: UpdateChannel)
    ensures
        channel_named(channel_name(channel)) == Some(channel),
{
    reveal_strlit("latest");
    reveal_strlit("next");
    reveal_strlit("enterprise-latest");
    reveal_strlit("enterprise-next");
    assert("latest"@.len() == 6);
    assert("next"@.len() == 4);
    assert("enterprise-latest"@.len() == 17);
    assert("enterprise-next"@.len() == 15);
}

// -------------------------------------------------------------------------- patterns

/// What is wrong with a glob pattern; none where it is valid.
pub uninterp spec fn glob_error_of(pattern: Seq<char>) -> Option<Seq<char>>;

/// Whether a glob pattern matches a text; an invalid pattern matches nothing.
pub uninterp spec fn glob_matches_of(pattern: Seq<char>, text: Seq<char>) -> bool;

/// `glob::Pattern::new`: what is wrong with a pattern, as its error says it; none where
/// it is valid. The result depends on the pattern alone.
#[verifier::external_body]
pub(crate) fn glob_error(pattern: &str) -> (r: Option<String>)
    ensures
        match r {
            Some(e) => glob_error_of(pattern@) == Some(e@),
            None => glob_error_of(pattern@) is None,
        },
{
    glob::Pattern::new(pattern).err().map(|e| e.to_string())
}

/// `glob::Pattern::new` and `glob::Pattern::matches`: whether a pattern matches a text.
/// A pattern that is invalid matches nothing. The result depends on the two texts
/// alone.
#[verifier::external_body]
pub(crate) fn glob_matches(pattern: &str, text: &str) -> (r: bool)
    ensures
        r == glob_matches_of(pattern@, text@),
{
    glob::Pattern::new(pattern).is_ok_and(|p| p.matches(text))
}

/// A glob pattern for addresses of repositories.
pub struct Pattern {
    pub text: String,
}

impl View for Pattern {
    type V = Seq<char>;

    open spec fn view(&self) -> Seq<char> {
        self.text@
    }
}

impl Pattern {
    /// A pattern, or what is wrong with it.
    pub fn new(text: &str) -> (r: Result<Pattern, String>)
        ensures
            match r {
                Ok(p) => glob_error_of(text@) is None && p@ == text@,
                Err(e) => glob_error_of(text@) == Some(e@),
            },
    {
        match glob_error(text) {
            None => Ok(Pattern { text: text.to_owned() }),
            Some(e) => Err(e),
        }
    }

    /// Whether the pattern matches a text.
    pub fn matches(&self, text: &str) -> (r: bool)
        ensures
            r == glob_matches_of(self@, text@),
    {
        glob_matches(self.text.as_str(), text)
    }
}

/// The valid patterns among texts.
pub open spec fn valid_patterns(list: Seq<Seq<char>>) -> Seq<Seq<char>>
    decreases list.len(),
{
    if list.len() == 0 {
        Seq::empty()
    } else {
        let before = valid_patterns(list.drop_last());
        if glob_error_of(list.last()) is None {
            before.push(list.last())
        } else {
            before
        }
    }
}

/// What is said of the invalid patterns among those of a setting.
pub open spec fn pattern_warnings(list: Seq<Seq<char>>, setting: Seq<char>) -> Seq<Seq<char>>
    decreases list.len(),
{
    if list.len() == 0 {
        Seq::empty()
    } else {
        let before = pattern_warnings(list.drop_last(), setting);
        match glob_error_of(list.last()) {
            Some(e) => before.push(
                "Warning: Invalid glob pattern in "@ + setting + " '"@ + list.last() + "': "@ + e,
            ),
            None => before,
        }
    }
}

/// The items of a list that may be missing.
pub open spec fn items(list: Option<Vec<String>>) -> Seq<Seq<char>> {
    match list {
        Some(v) => texts(v@),
        None => Seq::empty(),
    }
}

fn compile_patterns(list: &Option<Vec<String>>, setting: &str, warnings: &mut Vec<String>) -> (r:
    Vec<Pattern>)
    ensures
        views(r@) == valid_patterns(items(*list)),
        texts(final(warnings)@) == texts(old(warnings)@) + pattern_warnings(items(*list), setting@),
{
    let mut out: Vec<Pattern> = Vec::new();
    let ghost start = texts(warnings@);
    proof {
        assert(views(out@) =~= Seq::empty());
        assert(start + Seq::<Seq<char>>::empty() =~= start);
    }
    if let Some(v) = list {
        let ghost all = texts(v@);
        let mut i: usize = 0;
        proof {
            assert(all.take(0) =~= Seq::empty());
        }
        while i < v.len()
            invariant
                i <= v@.len(),
                all == texts(v@),
                views(out@) == valid_patterns(all.take(i as int)),
                texts(warnings@) == start + pattern_warnings(all.take(i as int), setting@),
            decreases v.len() - i,
        {
            proof {
                assert(all.take(i + 1).drop_last() =~= all.take(i as int));
                assert(all.take(i + 1).last() == v@[i as int]@);
            }
            match Pattern::new(v[i].as_str()) {
                Ok(p) => {
                    let ghost before = out@;
                    let ghost pv = p;
                    out.push(p);
                    proof {
                        lemma_views_push(before, pv);
                    }
                },
                Err(e) => {
                    let mut m = concat("Warning: Invalid glob pattern in ", setting);
                    m.append(" '");
                    m.append(v[i].as_str());
                    m.append("': ");
                    m.append(e.as_str());
                    let ghost before = warnings@;
                    let ghost mv = m;
                    warnings.push(m);
                    proof {
                        lemma_texts_push(before, mv);
                        assert((start + pattern_warnings(all.take(i as int), setting@)).push(mv@)
                            =~= start + pattern_warnings(all.take(i as int), setting@).push(mv@));
                    }
                },
            }
            i += 1;
        }
        proof {
            assert(all.take(all.len() as int) =~= all);
        }
    }
    out
}

/// Whether some pattern matches a text.
pub open spec fn some_matches(patterns: Seq<Seq<char>>, text: Seq<char>) -> bool {
    exists|i: int| 0 <= i < patterns.len() && glob_matches_of(#[trigger] patterns[i], text)
}

/// The addresses of remotes.
pub open spec fn urls_of(remotes: Seq<(String, String)>) -> Seq<Seq<char>> {
    Seq::new(remotes.len(), |i: int| remotes[i].1@)
}

/// The addresses of remotes, where they are known.
pub open spec fn opt_urls(remotes: Option<Vec<(String, String)>>) -> Option<Seq<Seq<char>>> {
    match remotes {
        Some(v) => Some(urls_of(v@)),
        None => None,
    }
}

/// Whether some pattern matches some address.
pub open spec fn some_url_matches(patterns: Seq<Seq<char>>, urls: Seq<Seq<char>>) -> bool {
    exists|k: int| 0 <= k < urls.len() && some_matches(patterns, #[trigger] urls[k])
}

fn any_matches(patterns: &Vec<Pattern>, text: &str) -> (r: bool)
    ensures
        r == some_matches(views(patterns@), text@),
{
    let ghost ps = views(patterns@);
    let mut i: usize = 0;
    while i < patterns.len()
        invariant
            i <= patterns@.len(),
            ps == views(patterns@),
            forall|k: int| 0 <= k < i ==> !glob_matches_of(#[trigger] ps[k], text@),
        decreases patterns.len() - i,
    {
        proof {
            assert(ps[i as int] == patterns@[i as int]@);
        }
        if patterns[i].matches(text) {
            return true;
        }
        i += 1;
    }
    false
}

fn any_url_matches(patterns: &Vec<Pattern>, remotes: &Vec<(String, String)>) -> (r: bool)
    ensures
        r == some_url_matches(views(patterns@), urls_of(remotes@)),
{
    let ghost ps = views(patterns@);
    let ghost urls = urls_of(remotes@);
    let mut i: usize = 0;
    while i < remotes.len()
        invariant
            i <= remotes@.len(),
            ps == views(patterns@),
            urls == urls_of(remotes@),
            forall|k: int| 0 <= k < i ==> !some_matches(ps, #[trigger] urls[k]),
        decreases remotes.len() - i,
    {
        proof {
            assert(urls[i as int] == remotes@[i as int].1@);
        }
        if any_matches(patterns, remotes[i].1.as_str()) {
            return true;
        }
        i += 1;
    }
    false
}

fn has_star(patterns: &Vec<Pattern>) -> (r: bool)
    ensures
        r == views(patterns@).contains("*"@),
{
    let ghost ps = views(patterns@);
    let mut i: usize = 0;
    while i < patterns.len()
        invariant
            i <= patterns@.len(),
            ps == views(patterns@),
            forall|k: int| 0 <= k < i ==> #[trigger] ps[k] != "*"@,
        decreases patterns.len() - i,
    {
        proof {
            assert(ps[i as int] == patterns@[i as int]@);
        }
        if str_eq(patterns[i].text.as_str(), "*") {
            return true;
        }
        i += 1;
    }
    false
}

// ----------------------------------------------------------------------- configuration

/// The configuration in force.
pub struct Config {
    pub git_path: String,
    pub exclude_prompts_in_repositories: Vec<Pattern>,
    pub include_prompts_in_repositories: Vec<Pattern>,
    pub allow_repositories: Vec<Pattern>,
    pub exclude_repositories: Vec<Pattern>,
    pub telemetry_oss_disabled: bool,
    pub telemetry_enterprise_dsn: Option<String>,
    pub disable_version_checks: bool,
    pub disable_auto_updates: bool,
    pub update_channel: UpdateChannel,
    pub feature_flags: FeatureFlags,
    pub api_base_url: String,
    pub prompt_storage: String,
    pub default_prompt_storage: Option<String>,
    pub api_key: Option<String>,
    pub quiet: bool,
    pub custom_attributes: TextMap<String>,
    pub git_ai_hooks: TextMap<Vec<String>>,
}

/// Whether a repository may be worked on: no address is excluded, and some address is
/// allowed where a list of allowed ones is given.
pub open spec fn allowed(
    allow: Seq<Seq<char>>,
    exclude: Seq<Seq<char>>,
    urls: Option<Seq<Seq<char>>>,
) -> bool {
    if urls is Some && some_url_matches(exclude, urls->0) {
        false
    } else if allow.len() == 0 {
        true
    } else {
        urls is Some && some_url_matches(allow, urls->0)
    }
}

/// Whether the prompts of a repository are kept back: every repository's where `*` is
/// excluded, else those of which some address is excluded.
pub open spec fn prompts_excluded(exclude: Seq<Seq<char>>, urls: Option<Seq<Seq<char>>>) -> bool {
    exclude.contains("*"@) || (urls is Some && some_url_matches(exclude, urls->0))
}

/// Whether a repository is on the list of those whose prompts are shared. One without
/// addresses is where `*` is.
pub open spec fn prompts_included(shared: Seq<Seq<char>>, urls: Option<Seq<Seq<char>>>) -> bool {
    if urls is Some && urls->0.len() > 0 {
        some_url_matches(shared, urls->0)
    } else {
        shared.contains("*"@)
    }
}

/// A mode, or another where there is none.
pub open spec fn mode_or(mode: Option<PromptStorageMode>, other: PromptStorageMode) -> PromptStorageMode {
    match mode {
        Some(m) => m,
        None => other,
    }
}

/// Where the prompts of a repository are kept: excluded ones locally; without a list of
/// repositories, or for one on it, as configured; for the others as configured for
/// them, or locally.
pub open spec fn effective_mode(
    exclude: Seq<Seq<char>>,
    shared: Seq<Seq<char>>,
    storage: Option<PromptStorageMode>,
    other_storage: Option<PromptStorageMode>,
    urls: Option<Seq<Seq<char>>>,
) -> PromptStorageMode {
    if prompts_excluded(exclude, urls) {
        PromptStorageMode::Local
    } else if shared.len() == 0 || prompts_included(shared, urls) {
        mode_or(storage, PromptStorageMode::Default)
    } else {
        mode_or(other_storage, PromptStorageMode::Local)
    }
}

/// The mode that a setting names, where it is there and names one.
pub open spec fn opt_mode(setting: Option<String>) -> Option<PromptStorageMode> {
    match setting {
        Some(s) => mode_of(s@),
        None => None,
    }
}

fn parse_mode(text: &str) -> (r: Option<PromptStorageMode>)
    ensures
        r == mode_of(text@),
{
    match PromptStorageMode::parse(text) {
        Ok(mode) => Some(mode),
        Err(_) => None,
    }
}

impl Config {
    /// The command that invokes git.
    pub fn git_cmd(&self) -> (r: &str)
        ensures
            r@ == self.git_path@,
    {
        self.git_path.as_str()
    }

    /// Whether a repository may be worked on.
    pub fn is_allowed_repository(&self, remotes: &Option<Vec<(String, String)>>) -> (r: bool)
        ensures
            r == allowed(
                views(self.allow_repositories@),
                views(self.exclude_repositories@),
                opt_urls(*remotes),
            ),
    {
        match remotes {
            Some(v) => self.is_allowed_repository_with_remotes(Some(v)),
            None => self.is_allowed_repository_with_remotes(None),
        }
    }

    /// Whether a repository with the given remotes may be worked on.
    pub fn is_allowed_repository_with_remotes(&self, remotes: Option<&Vec<(String, String)>>) -> (r:
        bool)
        ensures
            r == allowed(
                views(self.allow_repositories@),
                views(self.exclude_repositories@),
                match remotes {
                    Some(v) => Some(urls_of(v@)),
                    None => None,
                },
            ),
    {
        if let Some(v) = remotes {
            if any_url_matches(&self.exclude_repositories, v) {
                return false;
            }
        }
        if self.allow_repositories.len() == 0 {
            return true;
        }
        match remotes {
            Some(v) => any_url_matches(&self.allow_repositories, v),
            None => false,
        }
    }

    /// Whether the prompts of a repository are kept back.
    pub fn should_exclude_prompts(&self, remotes: &Option<Vec<(String, String)>>) -> (r: bool)
        ensures
            r == prompts_excluded(
                views(self.exclude_prompts_in_repositories@),
                opt_urls(*remotes),
            ),
    {
        if has_star(&self.exclude_prompts_in_repositories) {
            return true;
        }
        match remotes {
            Some(v) => any_url_matches(&self.exclude_prompts_in_repositories, v),
            None => false,
        }
    }

    /// Where the prompts of a repository are kept.
    pub fn effective_prompt_storage(&self, remotes: &Option<Vec<(String, String)>>) -> (r:
        PromptStorageMode)
        ensures
            r == effective_mode(
                views(self.exclude_prompts_in_repositories@),
                views(self.include_prompts_in_repositories@),
                mode_of(self.prompt_storage@),
                opt_mode(self.default_prompt_storage),
                opt_urls(*remotes),
            ),
    {
        if self.should_exclude_prompts(remotes) {
            return PromptStorageMode::Local;
        }
        let included = if self.include_prompts_in_repositories.len() == 0 {
            true
        } else {
            match remotes {
                Some(v) => if v.len() > 0 {
                    any_url_matches(&self.include_prompts_in_repositories, v)
                } else {
                    has_star(&self.include_prompts_in_repositories)
                },
                None => has_star(&self.include_prompts_in_repositories),
            }
        };
        let mode = if included {
            parse_mode(self.prompt_storage.as_str())
        } else {
            match &self.default_prompt_storage {
                Some(s) => parse_mode(s.as_str()),
                None => None,
            }
        };
        match mode {
            Some(m) => m,
            None => if included {
                PromptStorageMode::Default
            } else {
                PromptStorageMode::Local
            },
        }
    }

    /// Whether telemetry is off.
    pub fn is_telemetry_oss_disabled(&self) -> (r: bool)
        ensures
            r == self.telemetry_oss_disabled,
    {
        self.telemetry_oss_disabled
    }

    /// Where telemetry of the enterprise goes.
    pub fn telemetry_enterprise_dsn(&self) -> (r: Option<&str>)
        ensures
            match r {
                Some(s) => opt_view(self.telemetry_enterprise_dsn) == Some(s@),
                None => self.telemetry_enterprise_dsn is None,
            },
    {
        match &self.telemetry_enterprise_dsn {
            Some(s) => Some(s.as_str()),
            None => None,
        }
    }

    /// Whether looking for new versions is off.
    pub fn version_checks_disabled(&self) -> (r: bool)
        ensures
            r == self.disable_version_checks,
    {
        self.disable_version_checks
    }

    /// Whether updating by itself is off.
    pub fn auto_updates_disabled(&self) -> (r: bool)
        ensures
            r == self.disable_auto_updates,
    {
        self.disable_auto_updates
    }

    /// Which releases updates are taken from.
    pub fn update_channel(&self) -> (r: UpdateChannel)
        ensures
            r == self.update_channel,
    {
        self.update_channel
    }

    /// The switches.
    pub fn feature_flags(&self) -> (r: &FeatureFlags)
        ensures
            *r == self.feature_flags,
    {
        &self.feature_flags
    }

    /// The address of the service.
    pub fn api_base_url(&self) -> (r: &str)
        ensures
            r@ == self.api_base_url@,
    {
        self.api_base_url.as_str()
    }

    /// The name of the mode that is configured.
    pub fn prompt_storage(&self) -> (r: &str)
        ensures
            r@ == self.prompt_storage@,
    {
        self.prompt_storage.as_str()
    }

    /// The key for the service.
    pub fn api_key(&self) -> (r: Option<&str>)
        ensures
            match r {
                Some(s) => opt_view(self.api_key) == Some(s@),
                None => self.api_key is None,
            },
    {
        match &self.api_key {
            Some(s) => Some(s.as_str()),
            None => None,
        }
    }

    /// Whether nothing is printed after commits.
    pub fn is_quiet(&self) -> (r: bool)
        ensures
            r == self.quiet,
    {
        self.quiet
    }

    /// The attributes that are configured.
    pub fn custom_attributes(&self) -> (r: &TextMap<String>)
        ensures
            *r == self.custom_attributes,
    {
        &self.custom_attributes
    }

    /// The commands that are configured for the hooks.
    pub fn git_ai_hooks(&self) -> (r: &TextMap<Vec<String>>)
        ensures
            *r == self.git_ai_hooks,
    {
        &self.git_ai_hooks
    }

    /// The commands that are configured for a hook.
    pub fn git_ai_hook_commands(&self, hook_name: &str) -> (r: Option<&Vec<String>>)
        ensures
            match r {
                Some(v) => self.git_ai_hooks@.dom().contains(hook_name@) && *v
                    == self.git_ai_hooks@[hook_name@],
                None => !self.git_ai_hooks@.dom().contains(hook_name@),
            },
    {
        self.git_ai_hooks.get(hook_name)
    }
}

// -------------------------------------------------------------------------------- laws

/// Exclusion wins over permission: a repository with an excluded address is never
/// worked on.
pub proof fn law_exclusion_wins(
    allow: Seq<Seq<char>>,
    exclude: Seq<Seq<char>>,
    urls: Seq<Seq<char>>,
    k: int,
    i: int,
)
    requires
        0 <= k < urls.len(),
        0 <= i < exclude.len(),
        glob_matches_of(exclude[i], urls[k]),
    ensures
        !allowed(allow, exclude, Some(urls)),
{
    assert(some_matches(exclude, urls[k]));
}

/// Without lists every repository may be worked on.
pub proof fn law_no_lists_allow_everything(urls: Option<Seq<Seq<char>>>)
    ensures
        allowed(Seq::empty(), Seq::empty(), urls),
{
    let none = Seq::<Seq<char>>::empty();
    if urls is Some {
        assert forall|k: int| 0 <= k < urls->0.len() implies !some_matches(
            none,
            #[trigger] urls->0[k],
        ) by {}
    }
}

/// Prompts that are kept back stay local, whatever else is configured.
pub proof fn law_excluded_prompts_stay_local(
    exclude: Seq<Seq<char>>,
    shared: Seq<Seq<char>>,
    storage: Option<PromptStorageMode>,
    other_storage: Option<PromptStorageMode>,
    urls: Option<Seq<Seq<char>>>,
)
    requires
        prompts_excluded(exclude, urls),
    ensures
        effective_mode(exclude, shared, storage, other_storage, urls) == PromptStorageMode::Local,
{
}

/// Without a list of repositories whose prompts are shared, and for one on that list,
/// the prompts are kept as configured.
pub proof fn law_shared_prompts_are_kept_as_configured(
    exclude: Seq<Seq<char>>,
    shared: Seq<Seq<char>>,
    storage: Option<PromptStorageMode>,
    other_storage: Option<PromptStorageMode>,
    urls: Option<Seq<Seq<char>>>,
)
    requires
        !prompts_excluded(exclude, urls),
        shared.len() == 0 || prompts_included(shared, urls),
    ensures
        effective_mode(exclude, shared, storage, other_storage, urls) == mode_or(
            storage,
            PromptStorageMode::Default,
        ),
{
}

/// The prompts of a repository that is not on the list of shared ones never go where
/// those of the others go, unless that is configured for them.
pub proof fn law_unlisted_prompts_use_the_fallback(
    exclude: Seq<Seq<char>>,
    shared: Seq<Seq<char>>,
    storage: Option<PromptStorageMode>,
    other_storage: Option<PromptStorageMode>,
    urls: Option<Seq<Seq<char>>>,
)
    requires
        !prompts_excluded(exclude, urls),
        shared.len() > 0,
        !prompts_included(shared, urls),
    ensures
        effective_mode(exclude, shared, storage, other_storage, urls) == mode_or(
            other_storage,
            PromptStorageMode::Local,
        ),
{
}

/// With no pattern the prompts of every repository are shared. A repository without
/// addresses is kept back only by the pattern for all of them.
pub proof fn law_prompts_are_shared_unless_excluded(
    exclude: Seq<Seq<char>>,
    urls: Option<Seq<Seq<char>>>,
)
    ensures
        !prompts_excluded(Seq::empty(), urls),
        urls is None || urls->0.len() == 0 ==> prompts_excluded(exclude, urls)
            == exclude.contains("*"@),
{
    let none = Seq::<Seq<char>>::empty();
    if urls is Some {
        assert forall|k: int| 0 <= k < urls->0.len() implies !some_matches(
            none,
            #[trigger] urls->0[k],
        ) by {}
    }
}

// ---------------------------------------------------------------------- configuration file

/// What the configuration file says.
pub struct FileConfig {
    pub git_path: Option<String>,
    pub exclude_prompts_in_repositories: Option<Vec<String>>,
    pub include_prompts_in_repositories: Option<Vec<String>>,
    pub allow_repositories: Option<Vec<String>>,
    pub exclude_repositories: Option<Vec<String>>,
    pub telemetry_oss: Option<String>,
    pub telemetry_enterprise_dsn: Option<String>,
    pub disable_version_checks: Option<bool>,
    pub disable_auto_updates: Option<bool>,
    pub update_channel: Option<String>,
    /// The switches, as JSON.
    pub feature_flags: Option<String>,
    pub api_base_url: Option<String>,
    pub prompt_storage: Option<String>,
    pub default_prompt_storage: Option<String>,
    pub api_key: Option<String>,
    pub quiet: Option<bool>,
    pub custom_attributes: Option<TextMap<String>>,
    pub git_ai_hooks: Option<TextMap<Vec<String>>>,
}

impl Default for FileConfig {
    /// A file that says nothing.
    fn default() -> (r: Self)
        ensures
            says_nothing(r),
    {
        FileConfig {
            git_path: None,
            exclude_prompts_in_repositories: None,
            include_prompts_in_repositories: None,
            allow_repositories: None,
            exclude_repositories: None,
            telemetry_oss: None,
            telemetry_enterprise_dsn: None,
            disable_version_checks: None,
            disable_auto_updates: None,
            update_channel: None,
            feature_flags: None,
            api_base_url: None,
            prompt_storage: None,
            default_prompt_storage: None,
            api_key: None,
            quiet: None,
            custom_attributes: None,
            git_ai_hooks: None,
        }
    }
}

/// Whether a file says nothing.
pub open spec fn says_nothing(f: FileConfig) -> bool {
    &&& f.git_path is None
    &&& f.exclude_prompts_in_repositories is None
    &&& f.include_prompts_in_repositories is None
    &&& f.allow_repositories is None
    &&& f.exclude_repositories is None
    &&& f.telemetry_oss is None
    &&& f.telemetry_enterprise_dsn is None
    &&& f.disable_version_checks is None
    &&& f.disable_auto_updates is None
    &&& f.update_channel is None
    &&& f.feature_flags is None
    &&& f.api_base_url is None
    &&& f.prompt_storage is None
    &&& f.default_prompt_storage is None
    &&& f.api_key is None
    &&& f.quiet is None
    &&& f.custom_attributes is None
    &&& f.git_ai_hooks is None
}

/// Bytes without the byte order mark at their start.
pub open spec fn bytes_without_bom(data: Seq<u8>) -> Seq<u8> {
    if data.len() >= 3 && data[0] == 0xEF && data[1] == 0xBB && data[2] == 0xBF {
        data.skip(3)
    } else {
        data
    }
}

/// The bytes of a configuration file without the byte order mark at their start.
pub fn config_file_bytes(data: &[u8]) -> (r: Vec<u8>)
    ensures
        r@ == bytes_without_bom(data@),
{
    let from: usize = if data.len() >= 3 && data[0] == 0xEF && data[1] == 0xBB && data[2] == 0xBF {
        3
    } else {
        0
    };
    let mut out: Vec<u8> = Vec::new();
    let mut i: usize = from;
    while i < data.len()
        invariant
            from <= i <= data@.len(),
            out@ == data@.subrange(from as int, i as int),
        decreases data.len() - i,
    {
        out.push(data[i]);
        proof {
            assert(data@.subrange(from as int, i + 1) =~= data@.subrange(from as int, i as int).push(
                data@[i as int],
            ));
        }
        i += 1;
    }
    proof {
        assert(data@.subrange(from as int, data@.len() as int) =~= bytes_without_bom(data@));
    }
    out
}

/// What the environment says.
pub struct ConfigEnv {
    /// The variables that are set.
    pub vars: TextMap<String>,
    /// Whether this is a debug build.
    pub debug: bool,
    /// Whether updates are on where nothing is configured.
    pub oss_build: bool,
}

/// The value of a variable.
pub open spec fn var_of(vars: Map<Seq<char>, Seq<char>>, name: Seq<char>) -> Option<Seq<char>> {
    if vars.dom().contains(name) {
        Some(vars[name])
    } else {
        None
    }
}

fn var(env: &ConfigEnv, name: &str) -> (r: Option<String>)
    ensures
        opt_view(r) == var_of(text_values(env.vars@), name@),
{
    match env.vars.get(name) {
        Some(s) => Some(s.clone()),
        None => None,
    }
}

/// A text that is there and not empty.
pub open spec fn not_empty(s: Option<Seq<char>>) -> Option<Seq<char>> {
    if s is Some && s->0.len() > 0 {
        s
    } else {
        None
    }
}

fn unless_empty_text(s: Option<String>) -> (r: Option<String>)
    ensures
        opt_view(r) == not_empty(opt_view(s)),
{
    match s {
        Some(t) => if t.as_str().is_empty() {
            None
        } else {
            Some(t)
        },
        None => None,
    }
}

/// The first of two texts that is there.
pub open spec fn first_of(a: Option<Seq<char>>, b: Option<Seq<char>>) -> Option<Seq<char>> {
    if a is Some {
        a
    } else {
        b
    }
}

/// Whether a text names a mode as it is.
pub open spec fn names_mode(s: Seq<char>) -> bool {
    mode_named(s) is Some
}

/// The mode that a file configures by name; the default where it names none.
pub open spec fn storage_of(setting: Option<Seq<char>>) -> Seq<char> {
    match setting {
        Some(s) => if names_mode(s) {
            s
        } else {
            "default"@
        },
        None => "default"@,
    }
}

/// What is said of a mode that a file configures.
pub open spec fn storage_warnings(setting: Option<Seq<char>>) -> Seq<Seq<char>> {
    match setting {
        Some(s) => if names_mode(s) {
            Seq::empty()
        } else {
            seq!["Warning: Invalid prompt_storage value '"@ + s + "', using 'default'"@]
        },
        None => Seq::empty(),
    }
}

/// The mode that a file configures for the other repositories.
pub open spec fn other_storage_of(setting: Option<Seq<char>>) -> Option<Seq<char>> {
    match setting {
        Some(s) => if names_mode(s) {
            Some(s)
        } else {
            None
        },
        None => None,
    }
}

/// What is said of a mode that a file configures for the other repositories.
pub open spec fn other_storage_warnings(setting: Option<Seq<char>>) -> Seq<Seq<char>> {
    match setting {
        Some(s) => if names_mode(s) {
            Seq::empty()
        } else {
            seq!["Warning: Invalid default_prompt_storage value '"@ + s + "', ignoring"@]
        },
        None => Seq::empty(),
    }
}

/// The attributes that a JSON object gives, over others. Strings, numbers and truth
/// values count.
pub open spec fn attributes_with(
    base: Map<Seq<char>, Seq<char>>,
    text: Seq<char>,
    keys: Seq<Seq<char>>,
) -> Map<Seq<char>, Seq<char>>
    decreases keys.len(),
{
    if keys.len() == 0 {
        base
    } else {
        let before = attributes_with(base, text, keys.drop_last());
        match json_member_of(text, ""@, keys.last()) {
            Some(v) => if v.0 is Text || v.0 is Number || v.0 is Bool {
                before.insert(keys.last(), v.1)
            } else {
                before
            },
            None => before,
        }
    }
}

/// The attributes that are configured: those of the file, and over them those of the
/// environment, where it holds a JSON object.
pub open spec fn attributes_of(
    file: Map<Seq<char>, Seq<char>>,
    env: Option<Seq<char>>,
) -> Map<Seq<char>, Seq<char>> {
    match env {
        Some(text) => match json_keys_of(text, ""@) {
            Some(keys) => attributes_with(file, text, keys),
            None => file,
        },
        None => file,
    }
}

/// The attributes of the environment go before those of the file: one that the
/// environment does not name is as the file has it, and none that it gives a text, a
/// number or a truth value is left as the file has it.
pub proof fn law_environment_attributes_win(
    file: Map<Seq<char>, Seq<char>>,
    text: Seq<char>,
    keys: Seq<Seq<char>>,
    key: Seq<char>,
)
    requires
        json_keys_of(text, ""@) == Some(keys),
    ensures
        ({
            let all = attributes_of(file, Some(text));
            let given = match json_member_of(text, ""@, key) {
                Some(v) => keys.contains(key) && (v.0 is Text || v.0 is Number || v.0 is Bool),
                None => false,
            };
            &&& given ==> all.dom().contains(key) && all[key] == (json_member_of(
                text,
                ""@,
                key,
            )->0).1
            &&& !given ==> all.dom().contains(key) == file.dom().contains(key) && all[key]
                == file[key]
        }),
{
    lemma_attributes_with(file, text, keys, key);
}

proof fn lemma_attributes_with(
    base: Map<Seq<char>, Seq<char>>,
    text: Seq<char>,
    keys: Seq<Seq<char>>,
    key: Seq<char>,
)
    ensures
        ({
            let all = attributes_with(base, text, keys);
            let given = match json_member_of(text, ""@, key) {
                Some(v) => keys.contains(key) && (v.0 is Text || v.0 is Number || v.0 is Bool),
                None => false,
            };
            &&& given ==> all.dom().contains(key) && all[key] == (json_member_of(
                text,
                ""@,
                key,
            )->0).1
            &&& !given ==> all.dom().contains(key) == base.dom().contains(key) && all[key]
                == base[key]
        }),
    decreases keys.len(),
{
    if keys.len() > 0 {
        let front = keys.drop_last();
        lemma_attributes_with(base, text, front, key);
        assert(keys[keys.len() - 1] == keys.last());
        if front.contains(key) {
            assert(keys[front.index_of(key)] == key);
        }
        if keys.contains(key) && key != keys.last() {
            assert(front[keys.index_of(key)] == key);
        }
    }
}

/// The attributes that are configured.
pub fn build_custom_attributes(file: &Option<TextMap<String>>, env: &Option<String>) -> (r: TextMap<
    String,
>)
    ensures
        text_values(r@) == attributes_of(
            match opt_texts_map(*file) {
                Some(m) => m,
                None => Map::empty(),
            },
            opt_view(*env),
        ),
{
    let mut attrs: TextMap<String> = match file {
        Some(m) => clone_text_map(m),
        None => TextMap::new(),
    };
    let ghost base = text_values(attrs@);
    proof {
        if file is None {
            assert(base =~= Map::empty());
        }
    }
    if let Some(text) = env {
        if let Some(keys) = json_keys(text.as_str(), "") {
            let ghost all = texts(keys@);
            let mut i: usize = 0;
            proof {
                assert(all.take(0) =~= Seq::empty());
            }
            while i < keys.len()
                invariant
                    i <= keys@.len(),
                    all == texts(keys@),
                    text_values(attrs@) == attributes_with(base, text@, all.take(i as int)),
                decreases keys.len() - i,
            {
                proof {
                    assert(all.take(i + 1).drop_last() =~= all.take(i as int));
                    assert(all.take(i + 1).last() == keys@[i as int]@);
                }
                if let Some((kind, value)) = json_member(text.as_str(), "", keys[i].as_str()) {
                    let scalar = match kind {
                        JsonKind::Text => true,
                        JsonKind::Number => true,
                        JsonKind::Bool => true,
                        _ => false,
                    };
                    if scalar {
                        let ghost before = attrs@;
                        let ghost vv = value;
                        attrs.insert(keys[i].clone(), value);
                        proof {
                            let k = keys@[i as int]@;
                            assert(text_values(before.insert(k, vv)) =~= text_values(before).insert(
                                k,
                                vv@,
                            ));
                        }
                    }
                }
                i += 1;
            }
            proof {
                assert(all.take(all.len() as int) =~= all);
            }
        }
    }
    attrs
}

/// The texts of lists by name.
pub open spec fn lists_view(m: Map<Seq<char>, Vec<String>>) -> Map<Seq<char>, Seq<Seq<char>>> {
    m.map_values(|v: Vec<String>| texts(v@))
}

/// Commands without the spaces around them; blank ones are left out.
pub open spec fn commands_of(list: Seq<Seq<char>>) -> Seq<Seq<char>>
    decreases list.len(),
{
    if list.len() == 0 {
        Seq::empty()
    } else {
        let before = commands_of(list.drop_last());
        if trimmed(list.last()).len() > 0 {
            before.push(trimmed(list.last()))
        } else {
            before
        }
    }
}

/// The hooks that are configured, among the first names of a map. A hook has a name and
/// at least one command.
pub open spec fn hooks_of(m: Map<Seq<char>, Seq<Seq<char>>>, names: Seq<Seq<char>>) -> Map<
    Seq<char>,
    Seq<Seq<char>>,
>
    decreases names.len(),
{
    if names.len() == 0 {
        Map::empty()
    } else {
        let before = hooks_of(m, names.drop_last());
        let commands = commands_of(m[names.last()]);
        if trimmed(names.last()).len() > 0 && commands.len() > 0 {
            before.insert(trimmed(names.last()), commands)
        } else {
            before
        }
    }
}

fn trimmed_commands(list: &Vec<String>) -> (r: Vec<String>)
    ensures
        texts(r@) == commands_of(texts(list@)),
{
    broadcast use lemma_texts_push;

    let ghost all = texts(list@);
    let mut out: Vec<String> = Vec::new();
    let mut i: usize = 0;
    proof {
        assert(all.take(0) =~= Seq::empty());
        assert(texts(out@) =~= Seq::empty());
    }
    while i < list.len()
        invariant
            i <= list@.len(),
            all == texts(list@),
            texts(out@) == commands_of(all.take(i as int)),
        decreases list.len() - i,
    {
        proof {
            assert(all.take(i + 1).drop_last() =~= all.take(i as int));
            assert(all.take(i + 1).last() == list@[i as int]@);
        }
        let command = trim(list[i].as_str());
        if !command.as_str().is_empty() {
            out.push(command);
        }
        i += 1;
    }
    proof {
        assert(all.take(all.len() as int) =~= all);
    }
    out
}

/// The hooks that are configured.
pub fn build_hooks(file: &Option<TextMap<Vec<String>>>) -> (r: TextMap<Vec<String>>)
    ensures
        lists_view(r@) == match file {
            Some(m) => hooks_of(lists_view(m@), m.key_order()),
            None => Map::empty(),
        },
{
    let mut hooks: TextMap<Vec<String>> = TextMap::new();
    proof {
        assert(lists_view(hooks@) =~= Map::empty());
    }
    if let Some(m) = file {
        let ghost names = m.key_order();
        let n: usize = m.len();
        let mut i: usize = 0;
        proof {
            assert(names.take(0) =~= Seq::empty());
        }
        while i < n
            invariant
                i <= n,
                n == m.key_order().len(),
                names == m.key_order(),
                lists_view(hooks@) == hooks_of(lists_view(m@), names.take(i as int)),
            decreases n - i,
        {
            let name = m.key_at(i);
            let list = m.value_at(i);
            proof {
                assert(names.take(i + 1).drop_last() =~= names.take(i as int));
                assert(names.take(i + 1).last() == name@);
                assert(lists_view(m@)[name@] == texts(list@));
            }
            let commands = trimmed_commands(list);
            let hook = trim(name.as_str());
            if !hook.as_str().is_empty() && commands.len() > 0 {
                let ghost before = hooks@;
                let ghost (hv, cv) = (hook@, commands);
                hooks.insert(hook, commands);
                proof {
                    assert(lists_view(before.insert(hv, cv)) =~= lists_view(before).insert(
                        hv,
                        texts(cv@),
                    ));
                }
            }
            i += 1;
        }
        proof {
            assert(names.take(names.len() as int) =~= names);
        }
    }
    hooks
}

/// The switches that are configured. Switches in the file that cannot be read count as
/// not set.
pub fn build_feature_flags(file: &Option<String>, env: &ConfigEnv) -> (r: FeatureFlags)
    ensures
        r == flags_of(opt_view(*file), *env),
{
    let file_flags = match file {
        Some(text) => DeserializableFeatureFlags::from_json(text.as_str()),
        None => None,
    };
    FeatureFlags::from_env_and_file(file_flags, &env.vars, env.debug)
}

/// The switches that are configured.
pub open spec fn flags_of(file: Option<Seq<char>>, env: ConfigEnv) -> FeatureFlags {
    let set = match file {
        Some(text) => file_flags_of(text),
        None => None,
    };
    merged(
        match set {
            Some(f) => merged(default_flags(env.debug), f),
            None => default_flags(env.debug),
        },
        env_flags(text_values(env.vars@)),
    )
}

fn push_storage_warning(warnings: &mut Vec<String>, start: &str, value: &str, end: &str)
    ensures
        texts(final(warnings)@) == texts(old(warnings)@) + seq![start@ + value@ + end@],
{
    let mut m = concat(start, value);
    m.append(end);
    let ghost before = warnings@;
    let ghost mv = m;
    warnings.push(m);
    proof {
        lemma_texts_push(before, mv);
        assert(texts(before).push(mv@) =~= texts(before) + seq![mv@]);
    }
}

fn build_storage(setting: &Option<String>, warnings: &mut Vec<String>) -> (r: String)
    ensures
        r@ == storage_of(opt_view(*setting)),
        texts(final(warnings)@) == texts(old(warnings)@) + storage_warnings(opt_view(*setting)),
{
    proof {
        assert(texts(warnings@) + Seq::<Seq<char>>::empty() =~= texts(warnings@));
    }
    match setting {
        Some(s) => if mode_from_name(s.as_str()).is_some() {
            s.clone()
        } else {
            push_storage_warning(
                warnings,
                "Warning: Invalid prompt_storage value '",
                s.as_str(),
                "', using 'default'",
            );
            "default".to_owned()
        },
        None => "default".to_owned(),
    }
}

fn build_other_storage(setting: &Option<String>, warnings: &mut Vec<String>) -> (r: Option<String>)
    ensures
        opt_view(r) == other_storage_of(opt_view(*setting)),
        texts(final(warnings)@) == texts(old(warnings)@) + other_storage_warnings(
            opt_view(*setting),
        ),
{
    proof {
        assert(texts(warnings@) + Seq::<Seq<char>>::empty() =~= texts(warnings@));
    }
    match setting {
        Some(s) => if mode_from_name(s.as_str()).is_some() {
            Some(s.clone())
        } else {
            push_storage_warning(
                warnings,
                "Warning: Invalid default_prompt_storage value '",
                s.as_str(),
                "', ignoring",
            );
            None
        },
        None => None,
    }
}

/// Whether a configuration follows from a file and the environment.
pub open spec fn follows(c: Config, f: FileConfig, env: ConfigEnv, git_path: Seq<char>) -> bool {
    let vars = text_values(env.vars@);
    &&& c.git_path@ == git_path
    &&& views(c.exclude_prompts_in_repositories@) == valid_patterns(
        items(f.exclude_prompts_in_repositories),
    )
    &&& views(c.include_prompts_in_repositories@) == valid_patterns(
        items(f.include_prompts_in_repositories),
    )
    &&& views(c.allow_repositories@) == valid_patterns(items(f.allow_repositories))
    &&& views(c.exclude_repositories@) == valid_patterns(items(f.exclude_repositories))
    &&& c.telemetry_oss_disabled == (opt_view(f.telemetry_oss) == Some("off"@))
    &&& opt_view(c.telemetry_enterprise_dsn) == not_empty(opt_view(f.telemetry_enterprise_dsn))
    &&& c.disable_version_checks == match f.disable_version_checks {
        Some(b) => b,
        None => !env.oss_build,
    }
    &&& c.disable_auto_updates == match f.disable_auto_updates {
        Some(b) => b,
        None => !env.oss_build,
    }
    &&& c.update_channel == channel_or_latest(opt_view(f.update_channel))
    &&& c.feature_flags == flags_of(opt_view(f.feature_flags), env)
    &&& c.api_base_url@ == match first_of(
        opt_view(f.api_base_url),
        var_of(vars, "GIT_AI_API_BASE_URL"@),
    ) {
        Some(url) => url,
        None => DEFAULT_API_BASE_URL@,
    }
    &&& c.prompt_storage@ == storage_of(opt_view(f.prompt_storage))
    &&& opt_view(c.default_prompt_storage) == other_storage_of(opt_view(f.default_prompt_storage))
    &&& opt_view(c.api_key) == first_of(
        not_empty(var_of(vars, "GIT_AI_API_KEY"@)),
        not_empty(opt_view(f.api_key)),
    )
    &&& c.quiet == (f.quiet == Some(true))
    &&& text_values(c.custom_attributes@) == attributes_of(
        match opt_texts_map(f.custom_attributes) {
            Some(m) => m,
            None => Map::empty(),
        },
        var_of(vars, "GIT_AI_CUSTOM_ATTRIBUTES"@),
    )
    &&& lists_view(c.git_ai_hooks@) == match f.git_ai_hooks {
        Some(m) => hooks_of(lists_view(m@), m.key_order()),
        None => Map::empty(),
    }
}

/// The channel that a setting names; the latest release where it names none.
pub open spec fn channel_or_latest(setting: Option<Seq<char>>) -> UpdateChannel {
    match setting {
        Some(s) => match channel_named(lowercase_of(trimmed(s))) {
            Some(c) => c,
            None => UpdateChannel::Latest,
        },
        None => UpdateChannel::Latest,
    }
}

/// What is said of a file, in order.
pub open spec fn file_warnings(f: FileConfig) -> Seq<Seq<char>> {
    pattern_warnings(
        items(f.exclude_prompts_in_repositories),
        "exclude_prompts_in_repositories"@,
    ) + pattern_warnings(
        items(f.include_prompts_in_repositories),
        "include_prompts_in_repositories"@,
    ) + pattern_warnings(items(f.allow_repositories), "allow_repositories"@) + pattern_warnings(
        items(f.exclude_repositories),
        "exclude_repositories"@,
    ) + storage_warnings(opt_view(f.prompt_storage)) + other_storage_warnings(
        opt_view(f.default_prompt_storage),
    )
}

fn build_channel(setting: &Option<String>) -> (r: UpdateChannel)
    ensures
        r == channel_or_latest(opt_view(*setting)),
{
    match setting {
        Some(s) => match UpdateChannel::from_str(s.as_str()) {
            Some(c) => c,
            None => UpdateChannel::Latest,
        },
        None => UpdateChannel::Latest,
    }
}

fn build_api_base_url(f: &FileConfig, env: &ConfigEnv) -> (r: String)
    ensures
        r@ == match first_of(
            opt_view(f.api_base_url),
            var_of(text_values(env.vars@), "GIT_AI_API_BASE_URL"@),
        ) {
            Some(url) => url,
            None => DEFAULT_API_BASE_URL@,
        },
{
    match &f.api_base_url {
        Some(url) => url.clone(),
        None => match var(env, "GIT_AI_API_BASE_URL") {
            Some(url) => url,
            None => DEFAULT_API_BASE_URL.to_owned(),
        },
    }
}

fn build_api_key(f: &FileConfig, env: &ConfigEnv) -> (r: Option<String>)
    ensures
        opt_view(r) == first_of(
            not_empty(var_of(text_values(env.vars@), "GIT_AI_API_KEY"@)),
            not_empty(opt_view(f.api_key)),
        ),
{
    match unless_empty_text(var(env, "GIT_AI_API_KEY")) {
        Some(key) => Some(key),
        None => unless_empty_text(clone_option(&f.api_key)),
    }
}

/// The configuration that follows from a file and the environment, with what is to be
/// said of the file.
pub fn build_config(f: &FileConfig, env: &ConfigEnv, git_path: String) -> (r: (Config, Vec<String>))
    ensures
        follows(r.0, *f, *env, git_path@),
        texts(r.1@) == file_warnings(*f),
{
    let mut warnings: Vec<String> = Vec::new();
    proof {
        assert(texts(warnings@) =~= Seq::empty());
    }
    let exclude_prompts = compile_patterns(
        &f.exclude_prompts_in_repositories,
        "exclude_prompts_in_repositories",
        &mut warnings,
    );
    let include_prompts = compile_patterns(
        &f.include_prompts_in_repositories,
        "include_prompts_in_repositories",
        &mut warnings,
    );
    let allow = compile_patterns(&f.allow_repositories, "allow_repositories", &mut warnings);
    let exclude = compile_patterns(&f.exclude_repositories, "exclude_repositories", &mut warnings);
    let prompt_storage = build_storage(&f.prompt_storage, &mut warnings);
    let default_prompt_storage = build_other_storage(&f.default_prompt_storage, &mut warnings);
    proof {
        assert(Seq::<Seq<char>>::empty() + pattern_warnings(
            items(f.exclude_prompts_in_repositories),
            "exclude_prompts_in_repositories"@,
        ) =~= pattern_warnings(
            items(f.exclude_prompts_in_repositories),
            "exclude_prompts_in_repositories"@,
        ));
    }
    let telemetry_oss_disabled = match &f.telemetry_oss {
        Some(s) => str_eq(s.as_str(), "off"),
        None => false,
    };
    let config = Config {
        git_path,
        exclude_prompts_in_repositories: exclude_prompts,
        include_prompts_in_repositories: include_prompts,
        allow_repositories: allow,
        exclude_repositories: exclude,
        telemetry_oss_disabled,
        telemetry_enterprise_dsn: unless_empty_text(clone_option(&f.telemetry_enterprise_dsn)),
        disable_version_checks: match f.disable_version_checks {
            Some(b) => b,
            None => !env.oss_build,
        },
        disable_auto_updates: match f.disable_auto_updates {
            Some(b) => b,
            None => !env.oss_build,
        },
        update_channel: build_channel(&f.update_channel),
        feature_flags: build_feature_flags(&f.feature_flags, env),
        api_base_url: build_api_base_url(f, env),
        prompt_storage,
        default_prompt_storage,
        api_key: build_api_key(f, env),
        quiet: match f.quiet {
            Some(b) => b,
            None => false,
        },
        custom_attributes: build_custom_attributes(
            &f.custom_attributes,
            &var(env, "GIT_AI_CUSTOM_ATTRIBUTES"),
        ),
        git_ai_hooks: build_hooks(&f.git_ai_hooks),
    };
    (config, warnings)
}

// -------------------------------------------------------------------------------- patches

/// Settings that are put over a configuration.
pub struct ConfigPatch {
    pub exclude_prompts_in_repositories: Option<Vec<String>>,
    pub telemetry_oss_disabled: Option<bool>,
    pub disable_version_checks: Option<bool>,
    pub disable_auto_updates: Option<bool>,
    pub prompt_storage: Option<String>,
    pub custom_attributes: Option<TextMap<String>>,
    /// The switches, as JSON.
    pub feature_flags: Option<String>,
}

/// What is said of the patterns of a patch that are none.
pub open spec fn patch_pattern_warnings(list: Seq<Seq<char>>) -> Seq<Seq<char>>
    decreases list.len(),
{
    if list.len() == 0 {
        Seq::empty()
    } else {
        let before = patch_pattern_warnings(list.drop_last());
        match glob_error_of(list.last()) {
            Some(e) => before.push(
                "Warning: Invalid test pattern in exclude_prompts_in_repositories '"@ + list.last()
                    + "': "@ + e,
            ),
            None => before,
        }
    }
}

/// What is said of a patch: of the patterns that are none, and of a mode that is none.
pub open spec fn patch_warnings(patch: ConfigPatch) -> Seq<Seq<char>> {
    patch_pattern_warnings(items(patch.exclude_prompts_in_repositories))
        + match patch.prompt_storage {
        Some(s) => if names_mode(s@) {
            Seq::empty()
        } else {
            seq!["Warning: Invalid test prompt_storage value '"@ + s@ + "', ignoring"@]
        },
        None => Seq::empty(),
    }
}

fn warn_of_patch(patch: &ConfigPatch) -> (r: Vec<String>)
    ensures
        texts(r@) == patch_warnings(*patch),
{
    broadcast use lemma_texts_push;

    let mut out: Vec<String> = Vec::new();
    proof {
        assert(texts(out@) =~= Seq::empty());
    }
    if let Some(v) = &patch.exclude_prompts_in_repositories {
        let ghost all = texts(v@);
        let mut i: usize = 0;
        proof {
            assert(all.take(0) =~= Seq::empty());
        }
        while i < v.len()
            invariant
                i <= v@.len(),
                all == texts(v@),
                texts(out@) == patch_pattern_warnings(all.take(i as int)),
            decreases v.len() - i,
        {
            proof {
                assert(all.take(i + 1).drop_last() =~= all.take(i as int));
                assert(all.take(i + 1).last() == v@[i as int]@);
            }
            if let Some(e) = glob_error(v[i].as_str()) {
                let mut m = concat(
                    "Warning: Invalid test pattern in exclude_prompts_in_repositories '",
                    v[i].as_str(),
                );
                m.append("': ");
                m.append(e.as_str());
                out.push(m);
            }
            i += 1;
        }
        proof {
            assert(all.take(all.len() as int) =~= all);
        }
    }
    let ghost first = texts(out@);
    proof {
        assert(first + Seq::<Seq<char>>::empty() =~= first);
    }
    if let Some(s) = &patch.prompt_storage {
        if mode_from_name(s.as_str()).is_none() {
            let mut m = concat("Warning: Invalid test prompt_storage value '", s.as_str());
            m.append("', ignoring");
            let ghost said = m@;
            out.push(m);
            proof {
                assert(first.push(said) =~= first + seq![said]);
            }
        }
    }
    out
}

/// Puts settings over a configuration. A mode that is none, and switches that cannot be
/// read, are left out. What has to be said of the patch comes back too.
pub fn apply_config_patch(config: Config, patch: ConfigPatch) -> (res: (Config, Vec<String>))
    ensures
        texts(res.1@) == patch_warnings(patch),
        is_patched(config, patch, res.0),
{
    let warnings = warn_of_patch(&patch);
    (patched(config, patch), warnings)
}

/// Whether a configuration is another one with settings put over it.
pub open spec fn is_patched(config: Config, patch: ConfigPatch, r: Config) -> bool {
    &&& patch.exclude_prompts_in_repositories is Some ==> views(r.exclude_prompts_in_repositories@)
            == valid_patterns(items(patch.exclude_prompts_in_repositories))
    &&& patch.exclude_prompts_in_repositories is None ==> r.exclude_prompts_in_repositories
            == config.exclude_prompts_in_repositories
    &&& r.telemetry_oss_disabled == match patch.telemetry_oss_disabled {
            Some(b) => b,
            None => config.telemetry_oss_disabled,
        }
    &&& r.disable_version_checks == match patch.disable_version_checks {
            Some(b) => b,
            None => config.disable_version_checks,
        }
    &&& r.disable_auto_updates == match patch.disable_auto_updates {
            Some(b) => b,
            None => config.disable_auto_updates,
        }
    &&& r.prompt_storage@ == if patch.prompt_storage is Some && names_mode(
            patch.prompt_storage->0@,
        ) {
            patch.prompt_storage->0@
        } else {
            config.prompt_storage@
        }
    &&& r.custom_attributes == match patch.custom_attributes {
            Some(m) => m,
            None => config.custom_attributes,
        }
    &&& r.feature_flags == match patch.feature_flags {
            Some(text) => match file_flags_of(text@) {
                Some(set) => merged(config.feature_flags, set),
                None => config.feature_flags,
            },
            None => config.feature_flags,
        }
    &&& r.git_path == config.git_path
    &&& r.include_prompts_in_repositories == config.include_prompts_in_repositories
    &&& r.allow_repositories == config.allow_repositories
    &&& r.exclude_repositories == config.exclude_repositories
    &&& r.telemetry_enterprise_dsn == config.telemetry_enterprise_dsn
    &&& r.update_channel == config.update_channel
    &&& r.api_base_url == config.api_base_url
    &&& r.default_prompt_storage == config.default_prompt_storage
    &&& r.api_key == config.api_key
    &&& r.quiet == config.quiet
    &&& r.git_ai_hooks == config.git_ai_hooks
}

fn patched(config: Config, patch: ConfigPatch) -> (r: Config)
    ensures
        is_patched(config, patch, r),
{
    let mut c = config;
    if patch.exclude_prompts_in_repositories.is_some() {
        let mut warnings: Vec<String> = Vec::new();
        c.exclude_prompts_in_repositories =
        compile_patterns(
            &patch.exclude_prompts_in_repositories,
            "exclude_prompts_in_repositories",
            &mut warnings,
        );
    }
    if let Some(b) = patch.telemetry_oss_disabled {
        c.telemetry_oss_disabled = b;
    }
    if let Some(b) = patch.disable_version_checks {
        c.disable_version_checks = b;
    }
    if let Some(b) = patch.disable_auto_updates {
        c.disable_auto_updates = b;
    }
    if let Some(s) = patch.prompt_storage {
        if mode_from_name(s.as_str()).is_some() {
            c.prompt_storage = s;
        }
    }
    if let Some(m) = patch.custom_attributes {
        c.custom_attributes = m;
    }
    if let Some(text) = patch.feature_flags {
        if let Some(set) = DeserializableFeatureFlags::from_json(text.as_str()) {
            c.feature_flags = FeatureFlags::merge_with(c.feature_flags, set);
        }
    }
    c
}

// ---------------------------------------------------------------------------------- paths

/// The application's directory in a home directory.
pub open spec fn app_dir(home: Seq<char>) -> Seq<char> {
    joined(home, APP_DIR_NAME@)
}

/// The application's directory in a home directory.
pub fn git_ai_dir_path(home: &str) -> (r: Option<String>)
    ensures
        opt_view(r) == Some(app_dir(home@)),
{
    Some(join(home, APP_DIR_NAME))
}

/// The configuration file in a home directory.
pub fn config_file_path_public(home: &str) -> (r: Option<String>)
    ensures
        opt_view(r) == Some(joined(app_dir(home@), "config.json"@)),
{
    Some(join(join(home, APP_DIR_NAME).as_str(), "config.json"))
}

/// The directory for internal state in a home directory.
pub fn internal_dir_path(home: &str) -> (r: Option<String>)
    ensures
        opt_view(r) == Some(joined(app_dir(home@), "internal"@)),
{
    Some(join(join(home, APP_DIR_NAME).as_str(), "internal"))
}

/// The directory for skills in a home directory.
pub fn skills_dir_path(home: &str) -> (r: Option<String>)
    ensures
        opt_view(r) == Some(joined(app_dir(home@), "skills"@)),
{
    Some(join(join(home, APP_DIR_NAME).as_str(), "skills"))
}

/// The file with this installation's identifier in a home directory.
pub fn id_file_path(home: &str) -> (r: Option<String>)
    ensures
        opt_view(r) == Some(joined(joined(app_dir(home@), "internal"@), "distinct_id"@)),
{
    let internal = join(join(home, APP_DIR_NAME).as_str(), "internal");
    Some(join(internal.as_str(), "distinct_id"))
}

/// The file with what was found of new versions in a home directory.
pub fn update_check_path(home: &str) -> (r: Option<String>)
    ensures
        opt_view(r) == Some(joined(joined(app_dir(home@), "internal"@), "update_check"@)),
{
    let internal = join(join(home, APP_DIR_NAME).as_str(), "internal");
    Some(join(internal.as_str(), "update_check"))
}

/// This installation's identifier: the one that its file holds, else the new one given,
/// which is then to be written, as the second part of the result says.
pub fn distinct_id(existing: &Option<String>, fresh: String) -> (r: (String, bool))
    ensures
        ({
            let known = match existing {
                Some(s) => trimmed(s@),
                None => ""@,
            };
            &&& r.1 == !(existing is Some && known.len() > 0)
            &&& r.0@ == if r.1 {
                fresh@
            } else {
                known
            }
        }),
{
    if let Some(s) = existing {
        let id = trim(s.as_str());
        if !id.as_str().is_empty() {
            return (id, false);
        }
    }
    (fresh, true)
}

/// A key that can be shown: its first and its last four characters, or none of a short
/// one.
pub open spec fn masked_key_of(key: Seq<char>) -> Seq<char> {
    if key.len() > 8 {
        key.take(4) + "..."@ + key.skip(key.len() - 4)
    } else {
        "****"@
    }
}

/// A key that can be shown.
pub fn masked_api_key(key: &str) -> (r: String)
    ensures
        r@ == masked_key_of(key@),
{
    let v = chars_of(key);
    let n: usize = v.len();
    if n > 8 {
        let start = string_of(&v, 0, 4);
        let end = string_of(&v, n - 4, n);
        proof {
            assert(start@ =~= key@.take(4));
            assert(end@ =~= key@.skip(key@.len() - 4));
        }
        let mut m = concat(start.as_str(), "...");
        m.append(end.as_str());
        m
    } else {
        "****".to_owned()
    }
}

// ------------------------------------------------------------------------------------ git

/// The places to look for git at, in order: the configured one, one in the home
/// directory, but on Windows, and the usual ones.
pub open spec fn git_candidates_of(
    configured: Option<Seq<char>>,
    home: Seq<char>,
    windows: bool,
) -> Seq<Seq<char>> {
    let own = if windows {
        Seq::empty()
    } else {
        seq![home + "/.local/bin/git"@]
    };
    let usual = own + seq![
        "/opt/homebrew/bin/git"@,
        "/usr/local/bin/git"@,
        "/usr/bin/git"@,
        "/bin/git"@,
        "/usr/local/sbin/git"@,
        "/usr/sbin/git"@,
        "C:\\\\Program Files\\\\Git\\\\bin\\\\git.exe"@,
        "C:\\\\Program Files (x86)\\\\Git\\\\bin\\\\git.exe"@,
    ];
    match configured {
        Some(path) => if trimmed(path).len() > 0 {
            seq![trimmed(path)] + usual
        } else {
            usual
        },
        None => usual,
    }
}

/// The places to look for git at, in order.
pub fn git_candidates(configured: &Option<String>, home: &str, windows: bool) -> (r: Vec<String>)
    ensures
        texts(r@) == git_candidates_of(opt_view(*configured), home@, windows),
{
    let mut out: Vec<String> = Vec::new();
    if let Some(path) = configured {
        let p = trim(path.as_str());
        if !p.as_str().is_empty() {
            out.push(p);
        }
    }
    if !windows {
        out.push(concat(home, "/.local/bin/git"));
    }
    out.push("/opt/homebrew/bin/git".to_owned());
    out.push("/usr/local/bin/git".to_owned());
    out.push("/usr/bin/git".to_owned());
    out.push("/bin/git".to_owned());
    out.push("/usr/local/sbin/git".to_owned());
    out.push("/usr/sbin/git".to_owned());
    out.push("C:\\\\Program Files\\\\Git\\\\bin\\\\git.exe".to_owned());
    out.push("C:\\\\Program Files (x86)\\\\Git\\\\bin\\\\git.exe".to_owned());
    proof {
        assert(texts(out@) =~= git_candidates_of(opt_view(*configured), home@, windows));
    }
    out
}

/// What is known of a path that may be git.
pub struct GitCandidate {
    /// Whether it is a file.
    pub is_file: bool,
    /// The path with every link followed, where that is possible.
    pub canonical: Option<String>,
    /// Whether the `git-ai` beside it is the same file.
    pub same_as_sibling: bool,
}

/// Whether a file's name is one of this application.
pub open spec fn is_own_name(name: Seq<char>) -> bool {
    let stem = if has_suffix(name, ".exe"@) {
        name.take(name.len() - ".exe"@.len())
    } else {
        name
    };
    stem == "git-ai"@ || has_prefix(stem, "git-ai-"@) || has_prefix(stem, "git_ai"@)
}

/// Whether a path leads to this application and not to git: by the name of the file that
/// it leads to, or by that file itself.
pub open spec fn is_own_binary(canonical: Option<Seq<char>>, same_as_sibling: bool) -> bool {
    (canonical is Some && file_name_of(canonical->0) is Some && is_own_name(
        file_name_of(canonical->0)->0,
    )) || same_as_sibling
}

fn own_name(name: &str) -> (r: bool)
    ensures
        r == is_own_name(name@),
{
    let stem = match strip_suffix(name, ".exe") {
        Some(s) => s,
        None => name.to_owned(),
    };
    str_eq(stem.as_str(), "git-ai") || starts_with(stem.as_str(), "git-ai-") || starts_with(
        stem.as_str(),
        "git_ai",
    )
}

/// Whether a path leads to this application and not to git.
pub fn path_is_git_ai_binary(canonical: &Option<String>, same_as_sibling: bool) -> (r: bool)
    ensures
        r == is_own_binary(opt_view(*canonical), same_as_sibling),
{
    if let Some(path) = canonical {
        if let Some(name) = file_name(path.as_str()) {
            if own_name(name.as_str()) {
                return true;
            }
        }
    }
    same_as_sibling
}

/// Whether a path is git, and not this application.
pub fn is_real_git_candidate(p: &GitCandidate) -> (r: bool)
    ensures
        r == (p.is_file && !is_own_binary(opt_view(p.canonical), p.same_as_sibling)),
{
    p.is_file && !path_is_git_ai_binary(&p.canonical, p.same_as_sibling)
}

/// The file beside a path that is this application, where it is installed there.
pub fn sibling_path(path: &str, windows: bool) -> (r: Option<String>)
    ensures
        opt_view(r) == match parent_of(path@) {
            Some(dir) => Some(
                joined(
                    dir,
                    if windows {
                        "git-ai.exe"@
                    } else {
                        "git-ai"@
                    },
                ),
            ),
            None => None,
        },
{
    match parent(path) {
        Some(dir) => Some(
            join(
                dir.as_str(),
                if windows {
                    "git-ai.exe"
                } else {
                    "git-ai"
                },
            ),
        ),
        None => None,
    }
}

/// The first path that is git; none where there is no git.
pub fn choose_git(candidates: &[String], usable: &[bool]) -> (r: Option<String>)
    requires
        candidates@.len() == usable@.len(),
    ensures
        match r {
            Some(path) => exists|i: int|
                0 <= i < usable@.len() && #[trigger] usable@[i] && path@ == candidates@[i]@ && (forall|
                    k: int,
                |
                    0 <= k < i ==> !(#[trigger] usable@[k])),
            None => forall|k: int| 0 <= k < usable@.len() ==> !(#[trigger] usable@[k]),
        },
{
    let mut i: usize = 0;
    while i < usable.len()
        invariant
            i <= usable@.len(),
            candidates@.len() == usable@.len(),
            forall|k: int| 0 <= k < i ==> !(#[trigger] usable@[k]),
        decreases usable.len() - i,
    {
        if usable[i] {
            return Some(candidates[i].clone());
        }
        i += 1;
    }
    None
}

/// No path is chosen that leads to this application: calling git never ends in calling
/// this application again.
pub proof fn law_chosen_git_is_not_this_application(p: GitCandidate)
    requires
        p.is_file && !is_own_binary(opt_view(p.canonical), p.same_as_sibling),
    ensures
        !p.same_as_sibling,
        p.canonical is Some && file_name_of(p.canonical->0@) is Some ==> !is_own_name(
            file_name_of(p.canonical->0@)->0,
        ),
{
}

} // verus!
