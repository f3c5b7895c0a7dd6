//! What is done around a call of git: aliases, hooks, and how the child is started.

use crate::model::{opt_view, views};
use crate::text::{
    char_is_space, chars_of, clone_strings, concat, has_prefix, is_space, lemma_texts_push,
    list_contains, parse_u64, prefix_within, starts_with, str_eq, take_bytes, texts, trim_start,
    trim_start_of, unsigned_of,
};
use vstd::prelude::*;
use vstd::string::*;

verus! {

// ------------------------------------------------------------------------------ aliases

/// A call of git: what stands before the command, the command, and its arguments.
pub struct ParsedGitInvocation {
    pub global_args: Vec<String>,
    pub command: Option<String>,
    pub command_args: Vec<String>,
    pub is_help: bool,
}

/// The texts of a call of git.
pub struct InvocationView {
    pub global_args: Seq<Seq<char>>,
    pub command: Option<Seq<char>>,
    pub command_args: Seq<Seq<char>>,
    pub is_help: bool,
}

impl View for ParsedGitInvocation {
    type V = InvocationView;

    open spec fn view(&self) -> InvocationView {
        InvocationView {
            global_args: texts(self.global_args@),
            command: opt_view(self.command),
            command_args: texts(self.command_args@),
            is_help: self.is_help,
        }
    }
}

/// Where the reading of an alias stands.
#[verifier::ext_equal]
pub struct AliasScan {
    pub tokens: Seq<Seq<char>>,
    pub current: Seq<char>,
    pub in_single: bool,
    pub in_double: bool,
    pub escaped: bool,
}

/// Where the reading of an alias starts.
pub open spec fn alias_start() -> AliasScan {
    AliasScan {
        tokens: Seq::empty(),
        current: Seq::empty(),
        in_single: false,
        in_double: false,
        escaped: false,
    }
}

/// The reading of an alias, one character on. A backslash takes the next character as
/// it is, but between single quotes; a space between tokens ends one.
pub open spec fn alias_step(st: AliasScan, c: char) -> AliasScan {
    if st.escaped {
        AliasScan { current: st.current.push(c), escaped: false, ..st }
    } else if st.in_single {
        if c == '\'' {
            AliasScan { in_single: false, ..st }
        } else {
            AliasScan { current: st.current.push(c), ..st }
        }
    } else if st.in_double {
        if c == '"' {
            AliasScan { in_double: false, ..st }
        } else if c == '\\' {
            AliasScan { escaped: true, ..st }
        } else {
            AliasScan { current: st.current.push(c), ..st }
        }
    } else if c == '\'' {
        AliasScan { in_single: true, ..st }
    } else if c == '"' {
        AliasScan { in_double: true, ..st }
    } else if c == '\\' {
        AliasScan { escaped: true, ..st }
    } else if is_space(c) {
        if st.current.len() > 0 {
            AliasScan { tokens: st.tokens.push(st.current), current: Seq::empty(), ..st }
        } else {
            st
        }
    } else {
        AliasScan { current: st.current.push(c), ..st }
    }
}

/// The reading of an alias after some characters.
pub open spec fn alias_scan(s: Seq<char>) -> AliasScan
    decreases s.len(),
{
    if s.len() == 0 {
        alias_start()
    } else {
        alias_step(alias_scan(s.drop_last()), s.last())
    }
}

/// The tokens that were read once an alias is over; none where a quote is open. A
/// backslash at the end stands for itself.
pub open spec fn alias_end(st: AliasScan) -> Option<Seq<Seq<char>>> {
    let current = if st.escaped {
        st.current.push('\\')
    } else {
        st.current
    };
    if st.in_single || st.in_double {
        None
    } else if current.len() > 0 {
        Some(st.tokens.push(current))
    } else {
        Some(st.tokens)
    }
}

/// The tokens of an alias; none for a command of the shell and where a quote is open.
pub open spec fn alias_tokens_of(value: Seq<char>) -> Option<Seq<Seq<char>>> {
    let s = trim_start_of(value);
    if has_prefix(s, "!"@) {
        None
    } else {
        alias_end(alias_scan(s))
    }
}

/// The tokens of an alias, by quotes and backslashes.
pub fn parse_alias_tokens(value: &str) -> (r: Option<Vec<String>>)
    ensures
        match r {
            Some(v) => alias_tokens_of(value@) == Some(texts(v@)),
            None => alias_tokens_of(value@) is None,
        },
{
    let text = trim_start(value);
    if starts_with(text.as_str(), "!") {
        return None;
    }
    let v = chars_of(text.as_str());
    let ghost s = text@;
    let mut tokens: Vec<String> = Vec::new();
    let mut current = String::new();
    let mut in_single = false;
    let mut in_double = false;
    let mut escaped = false;
    let mut i: usize = 0;
    proof {
        assert(s.take(0) =~= Seq::empty());
        assert(texts(tokens@) =~= Seq::empty());
        assert(current@ =~= Seq::empty());
    }
    while i < v.len()
        invariant
            i <= v@.len(),
            v@ == s,
            alias_scan(s.take(i as int)) == (AliasScan {
                tokens: texts(tokens@),
                current: current@,
                in_single,
                in_double,
                escaped,
            }),
        decreases v.len() - i,
    {
        let c: char = v[i];
        proof {
            assert(s.take(i + 1).drop_last() =~= s.take(i as int));
            assert(s.take(i + 1).last() == c);
        }
        if escaped {
            current.push(c);
            escaped = false;
        } else if in_single {
            if c == '\'' {
                in_single = false;
            } else {
                current.push(c);
            }
        } else if in_double {
            if c == '"' {
                in_double = false;
            } else if c == '\\' {
                escaped = true;
            } else {
                current.push(c);
            }
        } else if c == '\'' {
            in_single = true;
        } else if c == '"' {
            in_double = true;
        } else if c == '\\' {
            escaped = true;
        } else if char_is_space(c) {
            if !current.as_str().is_empty() {
                let ghost before = tokens@;
                let ghost cv = current;
                tokens.push(current);
                current = String::new();
                proof {
                    lemma_texts_push(before, cv);
                    assert(current@ =~= Seq::empty());
                }
            }
        } else {
            current.push(c);
        }
        i += 1;
    }
    proof {
        assert(s.take(s.len() as int) =~= s);
    }
    if escaped {
        current.push('\\');
    }
    if in_single || in_double {
        return None;
    }
    if !current.as_str().is_empty() {
        let ghost before = tokens@;
        let ghost cv = current;
        tokens.push(current);
        proof {
            lemma_texts_push(before, cv);
        }
    }
    Some(tokens)
}

proof fn lemma_scan_tokens_not_empty(s: Seq<char>, i: int)
    requires
        0 <= i < alias_scan(s).tokens.len(),
    ensures
        alias_scan(s).tokens[i].len() > 0,
    decreases s.len(),
{
    if s.len() > 0 {
        let before = alias_scan(s.drop_last());
        if i < before.tokens.len() {
            lemma_scan_tokens_not_empty(s.drop_last(), i);
        }
    }
}

/// No token of an alias is empty.
pub proof fn law_alias_tokens_not_empty(value: Seq<char>, i: int)
    requires
        alias_tokens_of(value) is Some,
        0 <= i < alias_tokens_of(value)->0.len(),
    ensures
        alias_tokens_of(value)->0[i].len() > 0,
{
    let st = alias_scan(trim_start_of(value));
    if i < st.tokens.len() {
        lemma_scan_tokens_not_empty(trim_start_of(value), i);
        assert(alias_tokens_of(value)->0[i] == st.tokens[i]);
    }
}

proof fn lemma_inside_single_quotes(t: Seq<char>)
    requires
        forall|i: int| 0 <= i < t.len() ==> t[i] != '\'',
    ensures
        alias_scan(seq!['\''] + t) == (AliasScan { current: t, in_single: true, ..alias_start() }),
    decreases t.len(),
{
    let q = seq!['\''];
    if t.len() == 0 {
        assert((q + t).drop_last() =~= Seq::empty());
        assert(alias_scan(Seq::<char>::empty()) == alias_start());
        assert(alias_scan(q + t) =~= AliasScan { current: t, in_single: true, ..alias_start() });
    } else {
        lemma_inside_single_quotes(t.drop_last());
        assert((q + t).drop_last() =~= q + t.drop_last());
        assert((q + t).last() == t.last());
        assert(t.drop_last().push(t.last()) =~= t);
    }
}

/// Between single quotes every text but a single quote stands for itself.
pub proof fn law_single_quotes_keep_text(t: Seq<char>)
    requires
        t.len() > 0,
        forall|i: int| 0 <= i < t.len() ==> t[i] != '\'',
    ensures
        alias_tokens_of(seq!['\''] + t + seq!['\'']) == Some(seq![t]),
{
    let q = seq!['\''];
    let s = q + t + q;
    lemma_inside_single_quotes(t);
    assert(s.drop_last() =~= q + t);
    assert(s.last() == '\'');
    reveal_strlit("!");
    assert(s[0] == '\'');
    assert(trim_start_of(s) == s);
    assert(s.take(1) =~= q);
    assert("!"@ =~= seq!['!']);
    assert(!has_prefix(s, "!"@)) by {
        assert(s.subrange(0, 1)[0] == '\'');
        assert("!"@[0] == '!');
    }
    let st = alias_scan(s);
    assert(st.current == t);
    assert(st.tokens =~= Seq::empty());
    assert(Seq::<Seq<char>>::empty().push(t) =~= seq![t]);
}

/// What is to be done next with a call whose command may be an alias.
pub enum AliasStep {
    /// The call is as it is.
    Done,
    /// The aliases go round in a circle, or one cannot be read: the call is left alone.
    Stop,
    /// The call is to be read anew, with these arguments.
    Expand(Vec<String>),
}

/// The texts of what is to be done next.
pub enum AliasStepView {
    Done,
    Stop,
    Expand(Seq<Seq<char>>),
}

impl View for AliasStep {
    type V = AliasStepView;

    open spec fn view(&self) -> AliasStepView {
        match self {
            AliasStep::Done => AliasStepView::Done,
            AliasStep::Stop => AliasStepView::Stop,
            AliasStep::Expand(v) => AliasStepView::Expand(texts(v@)),
        }
    }
}

/// What is to be done next with a call, after the commands seen before and with what the
/// configuration has for its command as an alias.
pub open spec fn alias_step_of(
    call: InvocationView,
    seen: Seq<Seq<char>>,
    alias: Option<Seq<char>>,
) -> AliasStepView {
    if call.command is None {
        AliasStepView::Done
    } else if seen.contains(call.command->0) {
        AliasStepView::Stop
    } else {
        match alias {
            None => AliasStepView::Done,
            Some(value) => match alias_tokens_of(value) {
                None => AliasStepView::Stop,
                Some(tokens) => AliasStepView::Expand(
                    call.global_args + tokens + call.command_args,
                ),
            },
        }
    }
}

fn extend_texts(out: &mut Vec<String>, more: &Vec<String>)
    ensures
        texts(final(out)@) == texts(old(out)@) + texts(more@),
{
    let ghost start = texts(out@);
    let ghost ts = texts(more@);
    let mut i: usize = 0;
    proof {
        assert(start + ts.take(0) =~= start);
    }
    while i < more.len()
        invariant
            i <= more@.len(),
            ts == texts(more@),
            texts(out@) == start + ts.take(i as int),
        decreases more.len() - i,
    {
        let item = more[i].clone();
        let ghost before = out@;
        let ghost iv = item;
        out.push(item);
        proof {
            lemma_texts_push(before, iv);
            assert(ts[i as int] == iv@);
            assert((start + ts.take(i as int)).push(iv@) =~= start + ts.take(i + 1));
        }
        i += 1;
    }
    proof {
        assert(ts.take(ts.len() as int) =~= ts);
    }
}

/// What is to be done next with a call whose command may be an alias. The command is
/// counted among those seen.
pub fn resolve_alias_invocation(
    call: &ParsedGitInvocation,
    seen: &mut Vec<String>,
    alias: &Option<String>,
) -> (r: AliasStep)
    ensures
        r@ == alias_step_of(call@, texts(old(seen)@), opt_view(*alias)),
        texts(final(seen)@) == if call@.command is Some && !texts(old(seen)@).contains(
            call@.command->0,
        ) {
            texts(old(seen)@).push(call@.command->0)
        } else {
            texts(old(seen)@)
        },
{
    let command = match &call.command {
        Some(c) => c,
        None => {
            return AliasStep::Done;
        },
    };
    if list_contains(seen.as_slice(), command.as_str()) {
        return AliasStep::Stop;
    }
    let name = command.clone();
    let ghost before = seen@;
    let ghost nv = name;
    seen.push(name);
    proof {
        lemma_texts_push(before, nv);
    }
    match alias {
        None => AliasStep::Done,
        Some(value) => match parse_alias_tokens(value.as_str()) {
            None => AliasStep::Stop,
            Some(tokens) => {
                let mut args = clone_strings(call.global_args.as_slice());
                extend_texts(&mut args, &tokens);
                extend_texts(&mut args, &call.command_args);
                AliasStep::Expand(args)
            },
        },
    }
}

/// The key under which the configuration has the alias of a command.
pub fn alias_key(command: &str) -> (r: String)
    ensures
        r@ == "alias."@ + command@,
{
    concat("alias.", command)
}

/// No alias is expanded twice: a call is expanded only where its command was not seen
/// before.
pub proof fn law_aliases_do_not_circle(
    call: InvocationView,
    seen: Seq<Seq<char>>,
    alias: Option<Seq<char>>,
)
    requires
        alias_step_of(call, seen, alias) is Expand,
    ensures
        call.command is Some,
        !seen.contains(call.command->0),
        alias is Some,
{
}

// -------------------------------------------------------------------------------- plans

/// What is known of a call of git before it is made.
pub struct GitFacts {
    /// Whether the shell is completing a line.
    pub completion: bool,
    pub async_mode: bool,
    /// Whether the command only reads.
    pub read_only: bool,
    pub command: Option<String>,
    pub is_help: bool,
    pub has_repo: bool,
    /// Whether the repository may be worked on.
    pub allowed: bool,
}

/// How a call of git is made.
#[derive(Clone, Copy, PartialEq, Eq, Structural, Debug)]
pub enum GitPlan {
    /// As it is.
    Passthrough,
    /// As it is, with the repository's state before and after sent to the service.
    Observed {
        /// Whether what is pushed is captured.
        push: bool,
    },
    /// With the hook for a new repository after it.
    CloneWithHook,
    /// With hooks before and after it.
    WithHooks,
    /// Without hooks.
    WithoutHooks,
}

/// How a call of git is made.
pub open spec fn git_plan_of(
    f: GitFacts,
) -> GitPlan {
    let command = opt_view(f.command);
    if f.completion {
        GitPlan::Passthrough
    } else if f.async_mode {
        if f.read_only || command == Some("clone"@) || command == Some("init"@) {
            GitPlan::Passthrough
        } else {
            GitPlan::Observed { push: command == Some("push"@) }
        }
    } else if command == Some("clone"@) && !f.is_help && f.allowed {
        GitPlan::CloneWithHook
    } else if !f.is_help && f.has_repo && f.allowed {
        GitPlan::WithHooks
    } else {
        GitPlan::WithoutHooks
    }
}

fn is_command(command: &Option<String>, name: &str) -> (r: bool)
    ensures
        r == (opt_view(*command) == Some(name@)),
{
    match command {
        Some(c) => str_eq(c.as_str(), name),
        None => false,
    }
}

/// How a call of git is made.
pub fn git_plan(f: &GitFacts) -> (r: GitPlan)
    ensures
        r == git_plan_of(*f),
{
    if f.completion {
        return GitPlan::Passthrough;
    }
    let clone = is_command(&f.command, "clone");
    if f.async_mode {
        return if f.read_only || clone || is_command(&f.command, "init") {
            GitPlan::Passthrough
        } else {
            GitPlan::Observed { push: is_command(&f.command, "push") }
        };
    }
    if clone && !f.is_help && f.allowed {
        GitPlan::CloneWithHook
    } else if !f.is_help && f.has_repo && f.allowed {
        GitPlan::WithHooks
    } else {
        GitPlan::WithoutHooks
    }
}

/// A repository that is excluded gets no hooks.
pub proof fn law_excluded_repositories_get_no_hooks(f: GitFacts)
    requires
        !f.allowed,
    ensures
        !(git_plan_of(f) is WithHooks),
        !(git_plan_of(f) is CloneWithHook),
{
}

/// What is done after a call that was observed: whether the statistics of a commit are
/// shown, and whether pushed commits are reported.
pub fn after_observed(success: bool, command: &Option<String>, has_repo: bool, captured_push: bool) -> (r:
    (bool, bool))
    ensures
        r.0 == (success && opt_view(*command) == Some("commit"@) && has_repo),
        r.1 == (success && captured_push && has_repo),
{
    (success && is_command(command, "commit") && has_repo, success && captured_push && has_repo)
}

/// The hook of a command.
#[derive(Clone, Copy, PartialEq, Eq, Structural, Debug)]
pub enum CommandHook {
    Commit,
    Rebase,
    Reset,
    CherryPick,
    Push,
    Pull,
    Stash,
    Checkout,
    Switch,
    UpdateRef,
    Merge,
    Nothing,
}

/// The hook before a command. That of the stash can be switched off.
pub open spec fn pre_hook_of(command: Option<Seq<char>>, rewrite_stash: bool) -> CommandHook {
    if command == Some("commit"@) {
        CommandHook::Commit
    } else if command == Some("rebase"@) {
        CommandHook::Rebase
    } else if command == Some("reset"@) {
        CommandHook::Reset
    } else if command == Some("cherry-pick"@) {
        CommandHook::CherryPick
    } else if command == Some("push"@) {
        CommandHook::Push
    } else if command == Some("pull"@) {
        CommandHook::Pull
    } else if command == Some("stash"@) {
        if rewrite_stash {
            CommandHook::Stash
        } else {
            CommandHook::Nothing
        }
    } else if command == Some("checkout"@) {
        CommandHook::Checkout
    } else if command == Some("switch"@) {
        CommandHook::Switch
    } else if command == Some("update-ref"@) {
        CommandHook::UpdateRef
    } else {
        CommandHook::Nothing
    }
}

/// The hook before a command.
pub fn pre_command_hook(command: &Option<String>, rewrite_stash: bool) -> (r: CommandHook)
    ensures
        r == pre_hook_of(opt_view(*command), rewrite_stash),
        opt_view(*command) == Some("commit"@) ==> r == CommandHook::Commit,
        opt_view(*command) == Some("rebase"@) ==> r == CommandHook::Rebase,
        opt_view(*command) == Some("reset"@) ==> r == CommandHook::Reset,
        opt_view(*command) == Some("cherry-pick"@) ==> r == CommandHook::CherryPick,
        opt_view(*command) == Some("push"@) ==> r == CommandHook::Push,
        opt_view(*command) == Some("pull"@) ==> r == CommandHook::Pull,
        opt_view(*command) == Some("checkout"@) ==> r == CommandHook::Checkout,
        opt_view(*command) == Some("switch"@) ==> r == CommandHook::Switch,
        opt_view(*command) == Some("update-ref"@) ==> r == CommandHook::UpdateRef,
        opt_view(*command) == Some("stash"@) && rewrite_stash ==> r == CommandHook::Stash,
        opt_view(*command) == Some("stash"@) && !rewrite_stash ==> r == CommandHook::Nothing,
        opt_view(*command) == Some("merge"@) ==> r == CommandHook::Nothing,
        opt_view(*command) != Some("commit"@) && opt_view(*command) != Some("rebase"@) && opt_view(*command) != Some("reset"@) && opt_view(*command) != Some("cherry-pick"@) && opt_view(*command) != Some("push"@) && opt_view(*command) != Some("pull"@) && opt_view(*command) != Some("checkout"@) && opt_view(*command) != Some("switch"@) && opt_view(*command) != Some("update-ref"@) && opt_view(*command) != Some("stash"@) && opt_view(*command) != Some("merge"@) ==> r == CommandHook::Nothing,
{
    proof {
        law_each_command_has_its_hook(opt_view(*command), rewrite_stash);
    }
    if is_command(command, "commit") {
        CommandHook::Commit
    } else if is_command(command, "rebase") {
        CommandHook::Rebase
    } else if is_command(command, "reset") {
        CommandHook::Reset
    } else if is_command(command, "cherry-pick") {
        CommandHook::CherryPick
    } else if is_command(command, "push") {
        CommandHook::Push
    } else if is_command(command, "pull") {
        CommandHook::Pull
    } else if is_command(command, "stash") {
        if rewrite_stash {
            CommandHook::Stash
        } else {
            CommandHook::Nothing
        }
    } else if is_command(command, "checkout") {
        CommandHook::Checkout
    } else if is_command(command, "switch") {
        CommandHook::Switch
    } else if is_command(command, "update-ref") {
        CommandHook::UpdateRef
    } else {
        CommandHook::Nothing
    }
}

/// The hook after a command: that before it, and one more after a merge.
pub open spec fn post_hook_of(command: Option<Seq<char>>, rewrite_stash: bool) -> CommandHook {
    if command == Some("merge"@) {
        CommandHook::Merge
    } else {
        pre_hook_of(command, rewrite_stash)
    }
}

/// The hook after a command.
pub fn post_command_hook(command: &Option<String>, rewrite_stash: bool) -> (r: CommandHook)
    ensures
        r == post_hook_of(opt_view(*command), rewrite_stash),
        opt_view(*command) == Some("commit"@) ==> r == CommandHook::Commit,
        opt_view(*command) == Some("rebase"@) ==> r == CommandHook::Rebase,
        opt_view(*command) == Some("reset"@) ==> r == CommandHook::Reset,
        opt_view(*command) == Some("cherry-pick"@) ==> r == CommandHook::CherryPick,
        opt_view(*command) == Some("push"@) ==> r == CommandHook::Push,
        opt_view(*command) == Some("pull"@) ==> r == CommandHook::Pull,
        opt_view(*command) == Some("checkout"@) ==> r == CommandHook::Checkout,
        opt_view(*command) == Some("switch"@) ==> r == CommandHook::Switch,
        opt_view(*command) == Some("update-ref"@) ==> r == CommandHook::UpdateRef,
        opt_view(*command) == Some("stash"@) && rewrite_stash ==> r == CommandHook::Stash,
        opt_view(*command) == Some("stash"@) && !rewrite_stash ==> r == CommandHook::Nothing,
        opt_view(*command) == Some("merge"@) ==> r == CommandHook::Merge,
        opt_view(*command) != Some("commit"@) && opt_view(*command) != Some("rebase"@) && opt_view(*command) != Some("reset"@) && opt_view(*command) != Some("cherry-pick"@) && opt_view(*command) != Some("push"@) && opt_view(*command) != Some("pull"@) && opt_view(*command) != Some("checkout"@) && opt_view(*command) != Some("switch"@) && opt_view(*command) != Some("update-ref"@) && opt_view(*command) != Some("stash"@) && opt_view(*command) != Some("merge"@) ==> r == CommandHook::Nothing,
{
    proof {
        law_each_command_has_its_hook(opt_view(*command), rewrite_stash);
    }
    if is_command(command, "merge") {
        CommandHook::Merge
    } else {
        pre_command_hook(command, rewrite_stash)
    }
}

/// What is said of a hook that panics.
pub fn hook_panic_message(function: &str, message: &Option<String>) -> (r: String)
    ensures
        r@ == "Panic in "@ + function@ + ": "@ + match message {
            Some(m) => m@,
            None => "unknown panic"@,
        },
{
    let mut s = concat("Panic in ", function);
    s.append(": ");
    match message {
        Some(m) => {
            s.append(m.as_str());
        },
        None => {
            s.append("unknown panic");
        },
    }
    s
}

// --------------------------------------------------------------------------- hooks' path

/// Whether hooks are managed for a command.
pub open spec fn uses_managed_hooks(command: Option<Seq<char>>) -> bool {
    command is Some && (command->0 == "commit"@ || command->0 == "rebase"@ || command->0
        == "cherry-pick"@ || command->0 == "reset"@ || command->0 == "stash"@ || command->0
        == "merge"@ || command->0 == "checkout"@ || command->0 == "switch"@ || command->0 == "pull"@
        || command->0 == "fetch"@ || command->0 == "push"@ || command->0 == "update-ref"@)
}

/// Whether hooks are managed for a command.
pub fn command_uses_managed_hooks(command: &Option<String>) -> (r: bool)
    ensures
        r == uses_managed_hooks(opt_view(*command)),
{
    match command {
        None => false,
        Some(c) => {
            let c: &str = c.as_str();
            str_eq(c, "commit") || str_eq(c, "rebase") || str_eq(c, "cherry-pick") || str_eq(
                c,
                "reset",
            ) || str_eq(c, "stash") || str_eq(c, "merge") || str_eq(c, "checkout") || str_eq(
                c,
                "switch",
            ) || str_eq(c, "pull") || str_eq(c, "fetch") || str_eq(c, "push") || str_eq(
                c,
                "update-ref",
            )
        },
    }
}

/// Whether the arguments set the path of the hooks themselves, at some place.
pub open spec fn sets_hooks_path_at(args: Seq<Seq<char>>, i: int) -> bool {
    ||| (args[i] == "-c"@ && i + 1 < args.len() && has_prefix(args[i + 1], "core.hooksPath="@))
    ||| has_prefix(args[i], "-ccore.hooksPath="@)
    ||| has_prefix(args[i], "--config=core.hooksPath="@)
}

/// Whether the arguments set the path of the hooks themselves.
pub open spec fn sets_hooks_path(args: Seq<Seq<char>>) -> bool {
    exists|i: int| 0 <= i < args.len() && #[trigger] sets_hooks_path_at(args, i)
}

/// Whether the arguments set the path of the hooks themselves.
pub fn has_explicit_hooks_path_override(args: &[String]) -> (r: bool)
    ensures
        r == sets_hooks_path(texts(args@)),
{
    let ghost ts = texts(args@);
    let mut i: usize = 0;
    while i < args.len()
        invariant
            i <= args@.len(),
            ts == texts(args@),
            forall|k: int| 0 <= k < i ==> !(#[trigger] sets_hooks_path_at(ts, k)),
        decreases args.len() - i,
    {
        proof {
            assert(ts[i as int] == args@[i as int]@);
            if i + 1 < args@.len() {
                assert(ts[i + 1] == args@[i + 1]@);
            }
        }
        let arg: &str = args[i].as_str();
        let paired = str_eq(arg, "-c") && args.len() - i >= 2 && starts_with(
            args[i + 1].as_str(),
            "core.hooksPath=",
        );
        if paired || starts_with(arg, "-ccore.hooksPath=") || starts_with(
            arg,
            "--config=core.hooksPath=",
        ) {
            proof {
                assert(sets_hooks_path_at(ts, i as int));
            }
            return true;
        }
        i += 1;
    }
    false
}

/// The path of the hooks that git is to use in place of the managed ones: those from
/// before, or none at all.
pub open spec fn child_hooks_of(
    command: Option<Seq<char>>,
    has_hook_state: bool,
    previous: Option<Seq<char>>,
    windows: bool,
) -> Option<Seq<char>> {
    if !uses_managed_hooks(command) || !has_hook_state {
        None
    } else {
        match previous {
            Some(path) => Some(path),
            None => Some(
                if windows {
                    "NUL"@
                } else {
                    "/dev/null"@
                },
            ),
        }
    }
}

/// The path of the hooks that git is to use in place of the managed ones.
pub fn resolve_child_git_hooks_path_override(
    command: &Option<String>,
    has_hook_state: bool,
    previous: &Option<String>,
    windows: bool,
) -> (r: Option<String>)
    ensures
        opt_view(r) == child_hooks_of(
            opt_view(*command),
            has_hook_state,
            opt_view(*previous),
            windows,
        ),
{
    if !command_uses_managed_hooks(command) || !has_hook_state {
        return None;
    }
    match previous {
        Some(path) => Some(path.clone()),
        None => Some(
            if windows {
                "NUL".to_owned()
            } else {
                "/dev/null".to_owned()
            },
        ),
    }
}

// ------------------------------------------------------------------------------ the child

/// The arguments with which git is started: a path of the hooks stands in front, unless
/// the arguments set one.
pub open spec fn child_args_of(args: Seq<Seq<char>>, hooks_path: Option<Seq<char>>) -> Seq<
    Seq<char>,
> {
    match hooks_path {
        Some(path) => if sets_hooks_path(args) {
            args
        } else {
            seq!["-c"@, "core.hooksPath="@ + path] + args
        },
        None => args,
    }
}

/// The arguments with which git is started.
pub fn git_child_args(args: &Vec<String>, hooks_path: &Option<String>) -> (r: Vec<String>)
    ensures
        texts(r@) == child_args_of(texts(args@), opt_view(*hooks_path)),
{
    let mut out: Vec<String> = Vec::new();
    if let Some(path) = hooks_path {
        if !has_explicit_hooks_path_override(args.as_slice()) {
            out.push("-c".to_owned());
            out.push(concat("core.hooksPath=", path.as_str()));
        }
    }
    let ghost start = texts(out@);
    extend_texts(&mut out, args);
    proof {
        assert(start + texts(args@) =~= child_args_of(texts(args@), opt_view(*hooks_path)));
    }
    out
}

/// A change of the environment: a variable that is set, or that is taken out.
pub struct EnvChange {
    pub name: String,
    pub value: Option<String>,
}

impl View for EnvChange {
    type V = (Seq<char>, Option<Seq<char>>);

    open spec fn view(&self) -> (Seq<char>, Option<Seq<char>>) {
        (self.name@, opt_view(self.value))
    }
}

/// Whether git's trace is switched off: for calls that only read, unless the call is
/// observed.
pub open spec fn suppresses_trace(read_only: bool, observed: bool) -> bool {
    !observed && read_only
}

/// What is changed in the environment of git.
pub open spec fn child_env_of(
    skip_var: Seq<char>,
    read_only: bool,
    invocation: Option<Seq<char>>,
) -> Seq<(Seq<char>, Option<Seq<char>>)> {
    let base = seq![
        (skip_var, Some("1"@)),
        ("GIT_AI_ASYNC_MODE"@, None),
    ];
    let trace = if suppresses_trace(read_only, invocation is Some) {
        base.push(("GIT_TRACE2_EVENT"@, Some("0"@)))
    } else {
        base
    };
    match invocation {
        Some(id) => trace.push(("GIT_AI_WRAPPER_INVOCATION_ID"@, Some(id))).push(
            ("GIT_TRACE2_ENV_VARS"@, Some("GIT_AI_WRAPPER_INVOCATION_ID"@)),
        ),
        None => trace,
    }
}

fn env_change(name: &str, value: Option<String>) -> (r: EnvChange)
    ensures
        r@ == (name@, opt_view(value)),
{
    EnvChange { name: name.to_owned(), value }
}

/// What is changed in the environment of git. `skip_var` is the variable that keeps the
/// managed hooks from running.
pub fn git_child_env(skip_var: &str, read_only: bool, invocation: &Option<String>) -> (r: Vec<
    EnvChange,
>)
    ensures
        views(r@) == child_env_of(skip_var@, read_only, opt_view(*invocation)),
{
    let mut out: Vec<EnvChange> = Vec::new();
    out.push(env_change(skip_var, Some("1".to_owned())));
    out.push(env_change("GIT_AI_ASYNC_MODE", None));
    if invocation.is_none() && read_only {
        out.push(env_change("GIT_TRACE2_EVENT", Some("0".to_owned())));
    }
    if let Some(id) = invocation {
        out.push(env_change("GIT_AI_WRAPPER_INVOCATION_ID", Some(id.clone())));
        out.push(
            env_change("GIT_TRACE2_ENV_VARS", Some("GIT_AI_WRAPPER_INVOCATION_ID".to_owned())),
        );
    }
    proof {
        assert(views(out@) =~= child_env_of(skip_var@, read_only, opt_view(*invocation)));
    }
    out
}

/// How this process ends once git ended: by the same signal, or with the same code.
#[derive(Clone, Copy, PartialEq, Eq, Structural, Debug)]
pub enum ChildEnd {
    Signal(i32),
    Code(i32),
}

/// How this process ends once git ended.
pub fn mirrored_end(signal: Option<i32>, code: Option<i32>) -> (r: ChildEnd)
    ensures
        r == match signal {
            Some(s) => ChildEnd::Signal(s),
            None => match code {
                Some(c) => ChildEnd::Code(c),
                None => ChildEnd::Code(1),
            },
        },
{
    match signal {
        Some(s) => ChildEnd::Signal(s),
        None => match code {
            Some(c) => ChildEnd::Code(c),
            None => ChildEnd::Code(1),
        },
    }
}

/// The signal of an interruption at the terminal.
pub const SIGINT: i32 = 2;

/// The exit code of a program that was interrupted at the terminal of Windows.
pub const CONTROL_C_EXIT: u32 = 0xC000013A;

/// Whether git was interrupted at the terminal of Windows, by its exit code.
pub fn windows_exit_was_interrupted(code: Option<i32>) -> (r: bool)
    ensures
        r == (code matches Some(c) && c as u32 == CONTROL_C_EXIT),
{
    match code {
        Some(c) => c as u32 == CONTROL_C_EXIT,
        None => false,
    }
}

/// Whether git was interrupted at the terminal.
pub fn exit_status_was_interrupted(signal: Option<i32>) -> (r: bool)
    ensures
        r == (signal == Some(SIGINT)),
{
    match signal {
        Some(s) => s == SIGINT,
        None => false,
    }
}

// ------------------------------------------------------------------------- statistics

/// What decides whether the statistics of a commit are shown.
pub struct StatsFacts {
    pub dry_run: bool,
    /// Whether a flag of the command asks for less output.
    pub suppressed: bool,
    /// Whether the configuration asks for no output.
    pub quiet: bool,
    pub interactive: bool,
}

/// Whether the statistics of a commit are shown.
pub fn shows_commit_stats(f: &StatsFacts) -> (r: bool)
    ensures
        r == (!f.dry_run && !f.suppressed && !f.quiet && f.interactive),
{
    !f.dry_run && !f.suppressed && !f.quiet && f.interactive
}

/// The milliseconds for which the service's note is waited for: as configured, else
/// longer under test.
pub open spec fn note_timeout_of(configured: Option<Seq<char>>, test: bool) -> nat {
    if configured is Some && unsigned_of(configured->0, u64::MAX as nat) is Some {
        unsigned_of(configured->0, u64::MAX as nat)->0
    } else if test {
        20000
    } else {
        500
    }
}

/// The milliseconds for which the service's note is waited for.
pub fn note_timeout_ms(configured: &Option<String>, test: bool) -> (r: u64)
    ensures
        r == note_timeout_of(opt_view(*configured), test),
{
    if let Some(s) = configured {
        if let Some(n) = parse_u64(s.as_str()) {
            return n;
        }
    }
    if test {
        20000
    } else {
        500
    }
}

/// What is done while the service's note is waited for.
#[derive(Clone, Copy, PartialEq, Eq, Structural, Debug)]
pub enum Poll {
    Found,
    GiveUp,
    /// Wait for a number of milliseconds and look again.
    Wait(u64),
}

/// What is done while the service's note is waited for.
pub fn poll_note(found: bool, elapsed_ms: u64, timeout_ms: u64) -> (r: Poll)
    ensures
        r == if found {
            Poll::Found
        } else if elapsed_ms >= timeout_ms {
            Poll::GiveUp
        } else {
            Poll::Wait(25)
        },
{
    if found {
        Poll::Found
    } else if elapsed_ms >= timeout_ms {
        Poll::GiveUp
    } else {
        Poll::Wait(25)
    }
}

/// What is said where the note did not come in time.
pub fn still_processing_message(commit: &str) -> (r: String)
    ensures
        r@ == "[git-ai] still processing commit "@ + prefix_within(commit@, 8)
            + "... run `git ai stats` to see stats."@,
{
    let mut m = concat("[git-ai] still processing commit ", take_bytes(commit, 8).as_str());
    m.append("... run `git ai stats` to see stats.");
    m
}

/// What is said in place of the statistics of a merge.
pub fn merge_skipped_message(commit: &str) -> (r: String)
    ensures
        r@ == "[git-ai] Skipped git-ai stats for merge commit "@ + commit@ + "."@,
{
    let mut m = concat("[git-ai] Skipped git-ai stats for merge commit ", commit);
    m.append(".");
    m
}

/// What is said in place of the statistics of a large commit.
pub fn large_skipped_message(commit: &str) -> (r: String)
    ensures
        r@ == "[git-ai] Skipped git-ai stats for large commit. Run `git ai stats "@ + commit@
            + "` to compute stats on demand."@,
{
    let mut m = concat(
        "[git-ai] Skipped git-ai stats for large commit. Run `git ai stats ",
        commit,
    );
    m.append("` to compute stats on demand.");
    m
}

/// Each command that has a hook gets its own one before and after: that of the stash
/// only where it is switched on, that of a merge only after it. A command gets none just
/// where it is not among them.
pub proof fn law_each_command_has_its_hook(command: Option<Seq<char>>, rewrite_stash: bool)
    ensures
        command == Some("commit"@) ==> pre_hook_of(command, rewrite_stash) == CommandHook::Commit,
        command == Some("rebase"@) ==> pre_hook_of(command, rewrite_stash) == CommandHook::Rebase,
        command == Some("reset"@) ==> pre_hook_of(command, rewrite_stash) == CommandHook::Reset,
        command == Some("cherry-pick"@) ==> pre_hook_of(command, rewrite_stash) == CommandHook::CherryPick,
        command == Some("push"@) ==> pre_hook_of(command, rewrite_stash) == CommandHook::Push,
        command == Some("pull"@) ==> pre_hook_of(command, rewrite_stash) == CommandHook::Pull,
        command == Some("checkout"@) ==> pre_hook_of(command, rewrite_stash) == CommandHook::Checkout,
        command == Some("switch"@) ==> pre_hook_of(command, rewrite_stash) == CommandHook::Switch,
        command == Some("update-ref"@) ==> pre_hook_of(command, rewrite_stash) == CommandHook::UpdateRef,
        command == Some("stash"@) && rewrite_stash ==> pre_hook_of(command, rewrite_stash) == CommandHook::Stash,
        command == Some("stash"@) && !rewrite_stash ==> pre_hook_of(command, rewrite_stash) == CommandHook::Nothing,
        command == Some("merge"@) ==> pre_hook_of(command, rewrite_stash) == CommandHook::Nothing,
        command != Some("commit"@) && command != Some("rebase"@) && command != Some("reset"@) && command != Some("cherry-pick"@) && command != Some("push"@) && command != Some("pull"@) && command != Some("checkout"@) && command != Some("switch"@) && command != Some("update-ref"@) && command != Some("stash"@) && command != Some("merge"@) ==> pre_hook_of(command, rewrite_stash) == CommandHook::Nothing,
        command == Some("commit"@) ==> post_hook_of(command, rewrite_stash) == CommandHook::Commit,
        command == Some("rebase"@) ==> post_hook_of(command, rewrite_stash) == CommandHook::Rebase,
        command == Some("reset"@) ==> post_hook_of(command, rewrite_stash) == CommandHook::Reset,
        command == Some("cherry-pick"@) ==> post_hook_of(command, rewrite_stash) == CommandHook::CherryPick,
        command == Some("push"@) ==> post_hook_of(command, rewrite_stash) == CommandHook::Push,
        command == Some("pull"@) ==> post_hook_of(command, rewrite_stash) == CommandHook::Pull,
        command == Some("checkout"@) ==> post_hook_of(command, rewrite_stash) == CommandHook::Checkout,
        command == Some("switch"@) ==> post_hook_of(command, rewrite_stash) == CommandHook::Switch,
        command == Some("update-ref"@) ==> post_hook_of(command, rewrite_stash) == CommandHook::UpdateRef,
        command == Some("stash"@) && rewrite_stash ==> post_hook_of(command, rewrite_stash) == CommandHook::Stash,
        command == Some("stash"@) && !rewrite_stash ==> post_hook_of(command, rewrite_stash) == CommandHook::Nothing,
        command == Some("merge"@) ==> post_hook_of(command, rewrite_stash) == CommandHook::Merge,
        command != Some("commit"@) && command != Some("rebase"@) && command != Some("reset"@) && command != Some("cherry-pick"@) && command != Some("push"@) && command != Some("pull"@) && command != Some("checkout"@) && command != Some("switch"@) && command != Some("update-ref"@) && command != Some("stash"@) && command != Some("merge"@) ==> post_hook_of(command, rewrite_stash) == CommandHook::Nothing,
{
    reveal_strlit("commit");
    reveal_strlit("rebase");
    reveal_strlit("reset");
    reveal_strlit("cherry-pick");
    reveal_strlit("push");
    reveal_strlit("pull");
    reveal_strlit("checkout");
    reveal_strlit("switch");
    reveal_strlit("update-ref");
    reveal_strlit("stash");
    reveal_strlit("merge");
    assert("commit"@.len() == 6);
    assert("rebase"@.len() == 6);
    assert("reset"@.len() == 5);
    assert("cherry-pick"@.len() == 11);
    assert("push"@.len() == 4);
    assert("pull"@.len() == 4);
    assert("checkout"@.len() == 8);
    assert("switch"@.len() == 6);
    assert("update-ref"@.len() == 10);
    assert("stash"@.len() == 5);
    assert("merge"@.len() == 5);
    assert("commit"@[0] == 'c');
    assert("rebase"@[0] == 'r');
    assert("reset"@[0] == 'r');
    assert("push"@[2] == 's');
    assert("pull"@[2] == 'l');
    assert("switch"@[0] == 's');
    assert("stash"@[0] == 's');
    assert("merge"@[0] == 'm');
}

/// Hooks are managed for just the commands that move references, the working tree or
/// notes.
pub proof fn law_managed_commands(command: Seq<char>)
    ensures
        !uses_managed_hooks(None),
        uses_managed_hooks(Some(command)) <==> seq!["commit"@, "rebase"@, "cherry-pick"@, "reset"@, "stash"@, "merge"@, "checkout"@, "switch"@, "pull"@, "fetch"@, "push"@, "update-ref"@].contains(command),
{
    let names = seq!["commit"@, "rebase"@, "cherry-pick"@, "reset"@, "stash"@, "merge"@, "checkout"@, "switch"@, "pull"@, "fetch"@, "push"@, "update-ref"@];
    assert(names[0] == "commit"@);
    assert(names[1] == "rebase"@);
    assert(names[2] == "cherry-pick"@);
    assert(names[3] == "reset"@);
    assert(names[4] == "stash"@);
    assert(names[5] == "merge"@);
    assert(names[6] == "checkout"@);
    assert(names[7] == "switch"@);
    assert(names[8] == "pull"@);
    assert(names[9] == "fetch"@);
    assert(names[10] == "push"@);
    assert(names[11] == "update-ref"@);
}

} // verus!
