//! What the sessions of coding agents used, turn by turn, and what of it is reported.

pub mod claude;
pub mod codex;
pub mod opencode;
pub mod usage_laws;

use crate::agents::{AgentNames, AgentNamesView};
use crate::json::{counts_view, json_counts, json_counts_of, json_quoted, json_quoted_of};
use crate::json_members::{
    Fields, can_be_record, field_in, field_text, fields_of, is_record, once_in, read_text,
};
use crate::model::{lemma_views_push, opt_view, views};
use crate::text::{
    chars_of, clone_option, concat, decimal, decimal_of, parse_i64, signed_decimal,
    signed_decimal_of, signed_of, str_eq, string_of, strip_prefix, texts, trim, trimmed,
};
use vstd::prelude::*;
use vstd::string::*;

verus! {

/// What one turn of a session used.
#[derive(Clone)]
pub struct TokenUsageData {
    pub session_id: String,
    pub turn_index: i64,
    pub model: String,
    pub input_tokens: i64,
    pub output_tokens: i64,
    pub cache_read_tokens: i64,
    pub cache_creation_tokens: i64,
    pub total_tokens: i64,
    pub repo_url: Option<String>,
    pub project_name: Option<String>,
    pub user_prompts: Option<String>,
    pub assistant_responses: Option<String>,
    pub tool_uses: Option<String>,
}

/// The texts and numbers of what a turn used.
#[verifier::ext_equal]
pub struct UsageView {
    pub session_id: Seq<char>,
    pub turn_index: i64,
    pub model: Seq<char>,
    pub input: i64,
    pub output: i64,
    pub cache_read: i64,
    pub cache_creation: i64,
    pub total: i64,
    pub repo_url: Option<Seq<char>>,
    pub project_name: Option<Seq<char>>,
    pub user_prompts: Option<Seq<char>>,
    pub assistant_responses: Option<Seq<char>>,
    pub tool_uses: Option<Seq<char>>,
}

impl View for TokenUsageData {
    type V = UsageView;

    open spec fn view(&self) -> UsageView {
        UsageView {
            session_id: self.session_id@,
            turn_index: self.turn_index,
            model: self.model@,
            input: self.input_tokens,
            output: self.output_tokens,
            cache_read: self.cache_read_tokens,
            cache_creation: self.cache_creation_tokens,
            total: self.total_tokens,
            repo_url: opt_view(self.repo_url),
            project_name: opt_view(self.project_name),
            user_prompts: opt_view(self.user_prompts),
            assistant_responses: opt_view(self.assistant_responses),
            tool_uses: opt_view(self.tool_uses),
        }
    }
}

/// The sum of two counts, as a machine adds them.
pub open spec fn plus(a: i64, b: i64) -> i64 {
    a.wrapping_add(b)
}

/// The tokens of a turn, all together.
pub open spec fn total_of(input: i64, output: i64, cache_read: i64, cache_creation: i64) -> i64 {
    plus(plus(plus(input, output), cache_read), cache_creation)
}

/// The tokens of a turn, all together.
pub fn total_tokens(input: i64, output: i64, cache_read: i64, cache_creation: i64) -> (r: i64)
    ensures
        r == total_of(input, output, cache_read, cache_creation),
{
    input.wrapping_add(output).wrapping_add(cache_read).wrapping_add(cache_creation)
}

/// Whether a count stands for a number: the counter may have gone round.
pub open spec fn stands_for(count: i64, n: int) -> bool {
    (n - count) % 0x1_0000_0000_0000_0000 == 0
}

/// A sum stands for the sum of what is added.
pub proof fn lemma_plus_stands(a: i64, m: int, b: i64, n: int)
    requires
        stands_for(a, m),
        stands_for(b, n),
    ensures
        stands_for(plus(a, b), m + n),
{
}

/// A count that stands for a number that it can hold is that number.
pub proof fn lemma_stands_exactly(count: i64, n: int)
    requires
        stands_for(count, n),
        i64::MIN <= n <= i64::MAX,
    ensures
        count == n,
{
}

/// The total of a turn is the sum of its counts, where a count can hold it.
pub proof fn law_total_is_sum(input: i64, output: i64, cache_read: i64, cache_creation: i64)
    requires
        i64::MIN <= input + output + cache_read + cache_creation <= i64::MAX,
    ensures
        total_of(input, output, cache_read, cache_creation) == input + output + cache_read
            + cache_creation,
{
    lemma_plus_stands(input, input as int, output, output as int);
    let two = plus(input, output);
    lemma_plus_stands(two, input + output, cache_read, cache_read as int);
    let three = plus(two, cache_read);
    lemma_plus_stands(three, input + output + cache_read, cache_creation, cache_creation as int);
    lemma_stands_exactly(
        plus(three, cache_creation),
        input + output + cache_read + cache_creation,
    );
}

/// The most characters of a tool's result that are kept.
pub const MAX_TOOL_RESULT_LEN: usize = 5000;

/// A text cut after a number of characters, with a mark where it was cut.
pub open spec fn truncated(s: Seq<char>, max: nat) -> Seq<char> {
    if s.len() <= max {
        s
    } else {
        s.take(max as int) + "...(truncated)"@
    }
}

/// A text cut after a number of characters, with a mark where it was cut.
pub fn truncate_str(s: &str, max_len: usize) -> (r: String)
    ensures
        r@ == truncated(s@, max_len as nat),
{
    let v = chars_of(s);
    if v.len() <= max_len {
        return s.to_owned();
    }
    let kept = string_of(&v, 0, max_len);
    proof {
        assert(kept@ =~= s@.take(max_len as int));
    }
    concat(kept.as_str(), "...(truncated)")
}

/// None for the empty text.
pub open spec fn text_unless_empty(s: Seq<char>) -> Option<Seq<char>> {
    if s.len() == 0 {
        None
    } else {
        Some(s)
    }
}

/// None for the empty text.
pub fn some_text(s: String) -> (r: Option<String>)
    ensures
        opt_view(r) == text_unless_empty(s@),
{
    if s.as_str().is_empty() {
        None
    } else {
        Some(s)
    }
}

// ------------------------------------------------------------------------ tool uses

/// A call of a tool: its arguments as JSON, and what it gave back, where that is
/// known.
pub struct ToolUse {
    pub name: String,
    pub id: String,
    pub arguments: String,
    pub result: Option<String>,
}

/// The texts of a call of a tool.
pub struct ToolUseView {
    pub name: Seq<char>,
    pub id: Seq<char>,
    pub arguments: Seq<char>,
    pub result: Option<Seq<char>>,
}

impl View for ToolUse {
    type V = ToolUseView;

    open spec fn view(&self) -> ToolUseView {
        ToolUseView {
            name: self.name@,
            id: self.id@,
            arguments: self.arguments@,
            result: opt_view(self.result),
        }
    }
}

/// A text as a JSON string, or `null`.
pub open spec fn quoted_or_null(s: Option<Seq<char>>) -> Seq<char> {
    match s {
        Some(t) => json_quoted_of(t),
        None => "null"@,
    }
}

/// A call of a tool as JSON, with its place among the calls of the turn.
pub open spec fn tool_use_text(u: ToolUseView, order: nat, with_result: bool) -> Seq<char> {
    let start = "{\"arguments\":"@ + u.arguments + ",\"id\":"@ + json_quoted_of(u.id)
        + ",\"name\":"@ + json_quoted_of(u.name) + ",\"order\":"@ + decimal_of(order);
    if with_result {
        start + ",\"result\":"@ + quoted_or_null(u.result) + "}"@
    } else {
        start + "}"@
    }
}

/// Calls of tools as the items of a JSON array, without its brackets.
pub open spec fn tool_items_text(uses: Seq<ToolUseView>, with_result: bool) -> Seq<char>
    decreases uses.len(),
{
    if uses.len() == 0 {
        Seq::empty()
    } else {
        let last = tool_use_text(uses.last(), uses.len(), with_result);
        if uses.len() == 1 {
            last
        } else {
            tool_items_text(uses.drop_last(), with_result) + ","@ + last
        }
    }
}

/// The calls of tools of a turn as a JSON array, with the keys of each in order; none
/// where there are no calls.
pub open spec fn tool_uses_json_of(uses: Seq<ToolUseView>, with_result: bool) -> Option<Seq<char>> {
    if uses.len() == 0 {
        None
    } else {
        Some("["@ + tool_items_text(uses, with_result) + "]"@)
    }
}

fn tool_use_json(u: &ToolUse, order: usize, with_result: bool) -> (r: String)
    ensures
        r@ == tool_use_text(u@, order as nat, with_result),
{
    let mut s = concat("{\"arguments\":", u.arguments.as_str());
    s.append(",\"id\":");
    s.append(json_quoted(u.id.as_str()).as_str());
    s.append(",\"name\":");
    s.append(json_quoted(u.name.as_str()).as_str());
    s.append(",\"order\":");
    s.append(decimal(order as u64).as_str());
    if with_result {
        s.append(",\"result\":");
        match &u.result {
            Some(t) => {
                s.append(json_quoted(t.as_str()).as_str());
            },
            None => {
                s.append("null");
            },
        }
    }
    s.append("}");
    s
}

/// The calls of tools of a turn as a JSON array.
pub fn tool_uses_json(uses: &Vec<ToolUse>, with_result: bool) -> (r: Option<String>)
    ensures
        opt_view(r) == tool_uses_json_of(views(uses@), with_result),
{
    if uses.len() == 0 {
        return None;
    }
    let ghost all = views(uses@);
    let mut items = tool_use_json(&uses[0], 1, with_result);
    let mut i: usize = 1;
    proof {
        assert(all.take(1).last() == uses@[0]@);
        assert(all.take(1).drop_last() =~= Seq::empty());
    }
    while i < uses.len()
        invariant
            1 <= i <= uses@.len(),
            all == views(uses@),
            items@ == tool_items_text(all.take(i as int), with_result),
        decreases uses.len() - i,
    {
        proof {
            assert(all.take(i + 1).drop_last() =~= all.take(i as int));
            assert(all.take(i + 1).last() == uses@[i as int]@);
        }
        items.append(",");
        items.append(tool_use_json(&uses[i], i + 1, with_result).as_str());
        i += 1;
    }
    proof {
        assert(all.take(all.len() as int) =~= all);
    }
    let mut s = concat("[", items.as_str());
    s.append("]");
    Some(s)
}

// ------------------------------------------------------------------------- reporting

/// The value of `--session-id` among the arguments from a place on. A blank value is
/// passed over.
pub open spec fn session_arg_of(args: Seq<Seq<char>>, i: int) -> Option<Seq<char>>
    decreases args.len() - i + 1,
{
    let prefix = "--session-id="@;
    if i < 0 || i >= args.len() {
        None
    } else if crate::text::has_prefix(args[i], prefix) && trimmed(
        args[i].skip(prefix.len() as int),
    ).len() > 0 {
        Some(args[i].skip(prefix.len() as int))
    } else if args[i] == "--session-id"@ {
        if i + 1 < args.len() && trimmed(args[i + 1]).len() > 0 {
            Some(args[i + 1])
        } else {
            session_arg_of(args, i + 2)
        }
    } else {
        session_arg_of(args, i + 1)
    }
}

/// The value of `--session-id` among the arguments.
pub fn parse_session_id_arg(args: &[String]) -> (r: Option<String>)
    ensures
        opt_view(r) == session_arg_of(texts(args@), 0),
{
    let ghost ts = texts(args@);
    let mut i: usize = 0;
    while i < args.len()
        invariant
            i <= args@.len(),
            ts == texts(args@),
            session_arg_of(ts, i as int) == session_arg_of(ts, 0),
        decreases args.len() - i,
    {
        proof {
            assert(ts[i as int] == args@[i as int]@);
        }
        if let Some(value) = strip_prefix(args[i].as_str(), "--session-id=") {
            if !trim(value.as_str()).as_str().is_empty() {
                return Some(value);
            }
        }
        if str_eq(args[i].as_str(), "--session-id") {
            if args.len() - i < 2 {
                proof {
                    assert(session_arg_of(ts, i + 2) is None);
                }
                return None;
            }
            proof {
                assert(ts[i + 1] == args@[i + 1]@);
            }
            if !trim(args[i + 1].as_str()).as_str().is_empty() {
                return Some(args[i + 1].clone());
            }
            i += 2;
        } else {
            i += 1;
        }
    }
    None
}

/// The transcript that a hook's payload names. The payload is a record that names no
/// field twice: the strings `session_id`, `transcript_path` and `cwd`, and
/// `hook_event_name`, which may be left out but is a string as well.
pub open spec fn transcript_of(text: Seq<char>) -> Option<Seq<char>> {
    let f = fields_of(text);
    let event = field_in(f, "hook_event_name"@, 3);
    if is_record(text, 3, 4) && once_in(f, "session_id"@) && once_in(f, "transcript_path"@)
        && once_in(f, "cwd"@) && once_in(f, "hook_event_name"@) && field_text(
        field_in(f, "session_id"@, 0),
    ) is Some && field_text(field_in(f, "cwd"@, 2)) is Some && (event is None || field_text(
        event,
    ) is Some) {
        field_text(field_in(f, "transcript_path"@, 1))
    } else {
        None
    }
}

/// The transcript that a hook's payload names.
pub fn stop_hook_transcript(text: &str) -> (r: Option<String>)
    ensures
        opt_view(r) == transcript_of(text@),
{
    let f = Fields::new(text);
    let event = f.get("hook_event_name", 3);
    if can_be_record(text, 3, 4) && f.once("session_id") && f.once("transcript_path") && f.once(
        "cwd",
    ) && f.once("hook_event_name") && read_text(&f.get("session_id", 0)).is_some() && read_text(
        &f.get("cwd", 2),
    ).is_some() && (event.is_none() || read_text(&event).is_some()) {
        read_text(&f.get("transcript_path", 1))
    } else {
        None
    }
}

/// The agents whose use is reported.
#[derive(Clone, Copy, PartialEq, Eq, Structural, Debug)]
pub enum Platform {
    ClaudeCode,
    Codex,
    OpenCode,
}

/// The agent of a name.
pub open spec fn platform_of(name: Seq<char>, names: AgentNamesView) -> Option<Platform> {
    if name == names.name + "-code"@ {
        Some(Platform::ClaudeCode)
    } else if name == "codex"@ {
        Some(Platform::Codex)
    } else if name == "opencode"@ {
        Some(Platform::OpenCode)
    } else {
        None
    }
}

/// The agent of a name.
pub fn report_platform(name: &str, names: &AgentNames) -> (r: Option<Platform>)
    ensures
        r == platform_of(name@, names@),
{
    if str_eq(name, concat(names.name.as_str(), "-code").as_str()) {
        Some(Platform::ClaudeCode)
    } else if str_eq(name, "codex") {
        Some(Platform::Codex)
    } else if str_eq(name, "opencode") {
        Some(Platform::OpenCode)
    } else {
        None
    }
}

/// The code with which the command ends where an agent's data is not there or cannot be
/// read: only OpenCode's caller is told to try again. Data without turns ends it well.
pub fn nothing_read_exit_code(platform: Platform) -> (r: i32)
    ensures
        r == if platform is OpenCode {
            2i32
        } else {
            0i32
        },
{
    match platform {
        Platform::OpenCode => 2,
        _ => 0,
    }
}

/// The name under which use is reported: the configured one, else the first address
/// that git prints, else the login name.
pub open spec fn reporter_of(
    configured: Option<Seq<char>>,
    emails: Seq<Seq<char>>,
    login: Option<Seq<char>>,
) -> Seq<char>
    decreases emails.len(),
{
    if configured is Some && configured->0.len() > 0 {
        configured->0
    } else if emails.len() > 0 {
        if trimmed(emails[0]).len() > 0 {
            trimmed(emails[0])
        } else {
            reporter_of(configured, emails.drop_first(), login)
        }
    } else if login is Some && login->0.len() > 0 {
        login->0
    } else {
        "unknown"@
    }
}

/// The name under which use is reported. The addresses are what git printed, for each
/// of its configurations that has one, in order.
pub fn reporter(configured: &Option<String>, emails: &[String], login: &Option<String>) -> (r:
    String)
    ensures
        r@ == reporter_of(opt_view(*configured), texts(emails@), opt_view(*login)),
{
    if let Some(name) = configured {
        if !name.as_str().is_empty() {
            return name.clone();
        }
    }
    let ghost ts = texts(emails@);
    let mut i: usize = 0;
    proof {
        assert(ts.skip(0) =~= ts);
    }
    while i < emails.len()
        invariant
            i <= emails@.len(),
            ts == texts(emails@),
            !(opt_view(*configured) is Some && opt_view(*configured)->0.len() > 0),
            reporter_of(opt_view(*configured), ts.skip(i as int), opt_view(*login)) == reporter_of(
                opt_view(*configured),
                ts,
                opt_view(*login),
            ),
        decreases emails.len() - i,
    {
        proof {
            assert(ts.skip(i as int)[0] == emails@[i as int]@);
            assert(ts.skip(i as int).drop_first() =~= ts.skip(i + 1));
        }
        let email = trim(emails[i].as_str());
        if !email.as_str().is_empty() {
            return email;
        }
        i += 1;
    }
    if let Some(name) = login {
        if !name.as_str().is_empty() {
            return name.clone();
        }
    }
    "unknown".to_owned()
}

/// The last turn of a session that was reported before, as the file of reported turns
/// has it; 0 where it has none.
pub open spec fn last_reported_of(text: Seq<char>, key: Seq<char>) -> i64 {
    match json_counts_of(text) {
        Some(counts) => last_count(counts, key),
        None => 0,
    }
}

/// The count that stands last under a key, or 0.
pub open spec fn last_count(counts: Seq<(Seq<char>, i64)>, key: Seq<char>) -> i64
    decreases counts.len(),
{
    if counts.len() == 0 {
        0
    } else if counts.last().0 == key {
        counts.last().1
    } else {
        last_count(counts.drop_last(), key)
    }
}

/// The last turn of a session that was reported before.
pub fn last_reported(text: &str, key: &str) -> (r: i64)
    ensures
        r == last_reported_of(text@, key@),
{
    let counts = match json_counts(text) {
        Some(counts) => counts,
        None => {
            return 0;
        },
    };
    let ghost all = counts_view(counts@);
    let mut i: usize = counts.len();
    proof {
        assert(all.take(all.len() as int) =~= all);
    }
    while i > 0
        invariant
            i <= counts@.len(),
            all == counts_view(counts@),
            json_counts_of(text@) == Some(all),
            last_count(all.take(i as int), key@) == last_count(all, key@),
        decreases i,
    {
        proof {
            assert(all.take(i as int).last() == all[i - 1]);
            assert(all[i - 1] == (counts@[i - 1].0@, counts@[i - 1].1));
            assert(all.take(i as int).drop_last() =~= all.take(i - 1));
        }
        if str_eq(counts[i - 1].0.as_str(), key) {
            return counts[i - 1].1;
        }
        i -= 1;
    }
    proof {
        assert(all.take(0) =~= Seq::empty());
    }
    0
}

/// The turns behind the last one that was reported.
pub open spec fn unreported(turns: Seq<UsageView>, last: int) -> Seq<UsageView>
    decreases turns.len(),
{
    if turns.len() == 0 {
        Seq::empty()
    } else {
        let before = unreported(turns.drop_last(), last);
        if turns.last().turn_index > last {
            before.push(turns.last())
        } else {
            before
        }
    }
}

/// The turns behind the last one that was reported.
pub fn new_turns(turns: Vec<TokenUsageData>, last: i64) -> (r: Vec<TokenUsageData>)
    ensures
        views(r@) == unreported(views(turns@), last as int),
{
    broadcast use lemma_views_push;

    let ghost all = views(turns@);
    let mut stack = turns;
    let mut back: Vec<TokenUsageData> = Vec::new();
    let ghost n = turns@.len();
    while stack.len() > 0
        invariant
            stack@.len() + back@.len() == n,
            n == turns@.len(),
            stack@ == turns@.take(stack@.len() as int),
            forall|k: int| 0 <= k < back@.len() ==> #[trigger] back@[k] == turns@[n - 1 - k],
        decreases stack.len(),
    {
        match stack.pop() {
            Some(t) => {
                back.push(t);
            },
            None => {},
        }
    }
    let mut out: Vec<TokenUsageData> = Vec::new();
    proof {
        assert(all.take(0) =~= Seq::empty());
        assert(views(out@) =~= Seq::empty());
    }
    while back.len() > 0
        invariant
            back@.len() <= n,
            n == turns@.len(),
            all == views(turns@),
            forall|k: int| 0 <= k < back@.len() ==> #[trigger] back@[k] == turns@[n - 1 - k],
            views(out@) == unreported(all.take(n - back@.len()), last as int),
        decreases back.len(),
    {
        let ghost i = n - back@.len();
        proof {
            assert(all.take(i + 1).drop_last() =~= all.take(i));
            assert(all.take(i + 1).last() == turns@[i]@);
            assert(back@[back@.len() - 1] == turns@[i]);
        }
        match back.pop() {
            Some(t) => {
                if t.turn_index > last {
                    out.push(t);
                }
            },
            None => {},
        }
    }
    proof {
        assert(all.take(all.len() as int) =~= all);
    }
    out
}

/// The last turn that counts as reported once the turns given were uploaded.
pub open spec fn reported_up_to(last: int, uploaded: Seq<i64>) -> int
    decreases uploaded.len(),
{
    if uploaded.len() == 0 {
        last
    } else {
        let before = reported_up_to(last, uploaded.drop_last());
        if uploaded.last() > before {
            uploaded.last() as int
        } else {
            before
        }
    }
}

/// The last turn that counts as reported once the turns given were uploaded.
pub fn reported_turn(last: i64, uploaded: &[i64]) -> (r: i64)
    ensures
        r == reported_up_to(last as int, uploaded@),
{
    let mut max: i64 = last;
    let mut i: usize = 0;
    proof {
        assert(uploaded@.take(0) =~= Seq::empty());
    }
    while i < uploaded.len()
        invariant
            i <= uploaded@.len(),
            max == reported_up_to(last as int, uploaded@.take(i as int)),
        decreases uploaded.len() - i,
    {
        proof {
            assert(uploaded@.take(i + 1).drop_last() =~= uploaded@.take(i as int));
        }
        if uploaded[i] > max {
            max = uploaded[i];
        }
        i += 1;
    }
    proof {
        assert(uploaded@.take(uploaded@.len() as int) =~= uploaded@);
    }
    max
}

/// Which of the turns is uploaded next, once one of them was: the one behind it, or none
/// where it failed or was the last.
pub open spec fn next_upload(total: nat, done: nat, ok: bool) -> Option<nat> {
    if ok && done + 1 < total {
        Some(done + 1)
    } else {
        None
    }
}

/// Which of the turns is uploaded next, once one of them was. The turns are reported in
/// order, so that the first failure ends the report.
pub fn after_upload(turns: &[TokenUsageData], done: usize, ok: bool) -> (r: Option<usize>)
    requires
        done < turns@.len(),
    ensures
        match r {
            Some(n) => next_upload(turns@.len(), done as nat, ok) == Some(n as nat),
            None => next_upload(turns@.len(), done as nat, ok) is None,
        },
{
    if ok && done < turns.len() - 1 {
        Some(done + 1)
    } else {
        None
    }
}

/// How many uploads are tried, from one of the turns on, where they come out as given.
pub open spec fn uploads_tried(outcomes: Seq<bool>, from: nat) -> nat
    decreases outcomes.len() - from,
{
    if from >= outcomes.len() {
        0
    } else {
        match next_upload(outcomes.len(), from, outcomes[from as int]) {
            Some(next) => 1 + uploads_tried(outcomes, next),
            None => 1,
        }
    }
}

/// No upload is tried behind the first failure: all that are tried but the last succeed,
/// and where the last one does too, no turn is left.
pub proof fn law_first_failure_ends_the_report(outcomes: Seq<bool>)
    ensures
        ({
            let tried = uploads_tried(outcomes, 0);
            &&& tried <= outcomes.len()
            &&& forall|k: int| 0 <= k < tried - 1 ==> #[trigger] outcomes[k]
            &&& outcomes.len() > 0 ==> tried > 0 && (tried == outcomes.len() || !outcomes[tried
                - 1])
        }),
{
    lemma_uploads_tried(outcomes, 0);
}

proof fn lemma_uploads_tried(outcomes: Seq<bool>, from: nat)
    ensures
        ({
            let tried = uploads_tried(outcomes, from);
            &&& from < outcomes.len() ==> from + tried <= outcomes.len()
            &&& forall|k: int| from <= k < from + tried - 1 ==> #[trigger] outcomes[k]
            &&& from < outcomes.len() ==> tried > 0 && (from + tried == outcomes.len()
                || !outcomes[from + tried - 1])
        }),
    decreases outcomes.len() - from,
{
    if from < outcomes.len() && outcomes[from as int] {
        lemma_uploads_tried(outcomes, from + 1);
    }
}

/// Counts with another one under a key, in its place where the key is there, else before
/// them.
pub open spec fn counts_with(counts: Seq<(Seq<char>, i64)>, key: Seq<char>, turn: i64) -> Seq<
    (Seq<char>, i64),
>
    decreases counts.len(),
{
    if counts.len() == 0 {
        seq![(key, turn)]
    } else if counts.last().0 == key {
        counts.drop_last().push((key, turn))
    } else {
        counts_with(counts.drop_last(), key, turn).push(counts.last())
    }
}

/// The counts that the file of reported turns holds; none where it cannot be read.
pub open spec fn stored_counts(text: Seq<char>) -> Seq<(Seq<char>, i64)> {
    match json_counts_of(text) {
        Some(counts) => counts,
        None => Seq::empty(),
    }
}

/// What the file of reported turns holds once a session's turns are reported up to one.
pub fn with_reported(text: &str, key: &str, turn: i64) -> (r: Vec<(String, i64)>)
    ensures
        counts_view(r@) == counts_with(stored_counts(text@), key@, turn),
{
    let mut counts = match json_counts(text) {
        Some(counts) => counts,
        None => Vec::new(),
    };
    proof {
        if json_counts_of(text@) is None {
            assert(counts_view(counts@) =~= Seq::empty());
        }
    }
    let ghost all = counts_view(counts@);
    let mut i: usize = counts.len();
    proof {
        assert(all.take(all.len() as int) =~= all);
        assert(counts_with(all, key@, turn) + all.skip(all.len() as int) =~= counts_with(
            all,
            key@,
            turn,
        ));
    }
    while i > 0
        invariant
            i <= counts@.len(),
            all == counts_view(counts@),
            all == stored_counts(text@),
            counts_with(all, key@, turn) == counts_with(all.take(i as int), key@, turn) + all.skip(
                i as int,
            ),
        decreases i,
    {
        proof {
            assert(all.take(i as int).last() == all[i - 1]);
            assert(all[i - 1] == (counts@[i - 1].0@, counts@[i - 1].1));
            assert(all.take(i as int).drop_last() =~= all.take(i - 1));
        }
        if str_eq(counts[i - 1].0.as_str(), key) {
            counts.set(i - 1, (key.to_owned(), turn));
            proof {
                assert(counts_view(counts@) =~= all.take(i - 1).push((key@, turn)) + all.skip(
                    i as int,
                ));
            }
            return counts;
        }
        proof {
            let front = counts_with(all.take(i - 1), key@, turn);
            assert(front.push(all[i - 1]) + all.skip(i as int) =~= front + all.skip(i - 1));
        }
        i -= 1;
    }
    let ghost before = counts@;
    counts.insert(0, (key.to_owned(), turn));
    proof {
        assert(all.take(0) =~= Seq::empty());
        assert(all.skip(0) =~= all);
        assert(counts_view(counts@) =~= seq![(key@, turn)] + all);
    }
    counts
}

/// Reporting a session changes its own count and no other.
pub proof fn law_other_sessions_stay(
    counts: Seq<(Seq<char>, i64)>,
    key: Seq<char>,
    turn: i64,
    other: Seq<char>,
)
    ensures
        last_count(counts_with(counts, key, turn), key) == turn,
        other != key ==> last_count(counts_with(counts, key, turn), other) == last_count(
            counts,
            other,
        ),
    decreases counts.len(),
{
    let front = counts.drop_last();
    if counts.len() == 0 {
        assert(counts_with(counts, key, turn).drop_last() =~= counts);
    } else if counts.last().0 == key {
        assert(front.push((key, turn)).drop_last() =~= front);
    } else {
        law_other_sessions_stay(front, key, turn, other);
        let more = counts_with(front, key, turn);
        assert(more.push(counts.last()).drop_last() =~= more);
    }
}

/// What is uploaded is not reported again: no turn that was uploaded is left among
/// the unreported ones.
pub proof fn law_uploaded_turns_are_done(
    turns: Seq<UsageView>,
    last: int,
    uploaded: Seq<i64>,
    i: int,
    j: int,
)
    requires
        0 <= i < uploaded.len(),
        0 <= j < unreported(turns, reported_up_to(last, uploaded)).len(),
    ensures
        unreported(turns, reported_up_to(last, uploaded))[j].turn_index != uploaded[i],
{
    lemma_reported_bounds(last, uploaded, i);
    lemma_unreported_above(turns, reported_up_to(last, uploaded), j);
}

/// Reporting never takes back what was reported before.
pub proof fn law_reported_never_falls(last: int, uploaded: Seq<i64>)
    ensures
        reported_up_to(last, uploaded) >= last,
    decreases uploaded.len(),
{
    if uploaded.len() > 0 {
        law_reported_never_falls(last, uploaded.drop_last());
    }
}

proof fn lemma_reported_bounds(last: int, uploaded: Seq<i64>, i: int)
    requires
        0 <= i < uploaded.len(),
    ensures
        reported_up_to(last, uploaded) >= uploaded[i],
    decreases uploaded.len(),
{
    if i < uploaded.len() - 1 {
        assert(uploaded.drop_last()[i] == uploaded[i]);
        lemma_reported_bounds(last, uploaded.drop_last(), i);
    }
}

proof fn lemma_unreported_above(turns: Seq<UsageView>, last: int, j: int)
    requires
        0 <= j < unreported(turns, last).len(),
    ensures
        unreported(turns, last)[j].turn_index > last,
    decreases turns.len(),
{
    let before = unreported(turns.drop_last(), last);
    if j < before.len() {
        lemma_unreported_above(turns.drop_last(), last, j);
        assert(unreported(turns, last)[j] == before[j]);
    }
}

/// What is sent to the tracker of one turn.
pub struct TokenUsagePayload {
    pub team_id: i64,
    pub team_key: Option<String>,
    pub platform: String,
    pub username: String,
    pub reported_at: String,
    /// The turn, with the current repository where it names none.
    pub turn: TokenUsageData,
}

/// What is sent to the tracker of one turn.
pub fn usage_payload(
    turn: TokenUsageData,
    team_id: i64,
    team_key: &str,
    platform: &str,
    username: &str,
    repo_url: &Option<String>,
    reported_at: String,
) -> (r: TokenUsagePayload)
    ensures
        r.team_id == team_id,
        opt_view(r.team_key) == Some(team_key@),
        r.platform@ == platform@,
        r.username@ == username@,
        r.reported_at@ == reported_at@,
        r.turn@ == (UsageView {
            repo_url: if turn@.repo_url is Some {
                turn@.repo_url
            } else {
                opt_view(*repo_url)
            },
            ..turn@
        }),
{
    let turn = if turn.repo_url.is_some() {
        turn
    } else {
        TokenUsageData { repo_url: clone_option(repo_url), ..turn }
    };
    TokenUsagePayload {
        team_id,
        team_key: Some(team_key.to_owned()),
        platform: platform.to_owned(),
        username: username.to_owned(),
        reported_at,
        turn,
    }
}

/// The team's number, as it is configured.
pub fn team_number(team_id: &str) -> (r: Option<i64>)
    ensures
        match r {
            Some(n) => signed_of(team_id@) == Some(n as int),
            None => signed_of(team_id@) is None,
        },
{
    parse_i64(team_id)
}

/// What is said once turns were reported; nothing where there were none.
pub fn report_message(platform: &str, count: u64, last: i64) -> (r: Option<String>)
    ensures
        opt_view(r) == if count == 0 {
            None
        } else {
            Some(
                "[git-ai token-report] "@ + platform@ + " reported: "@ + decimal_of(count as nat)
                    + " turns (up to turn "@ + signed_decimal_of(last as int) + ")"@,
            )
        },
{
    if count == 0 {
        return None;
    }
    let mut s = concat("[git-ai token-report] ", platform);
    s.append(" reported: ");
    s.append(decimal(count).as_str());
    s.append(" turns (up to turn ");
    s.append(signed_decimal(last).as_str());
    s.append(")");
    Some(s)
}

/// Of turns that are numbered from 1 in order, just those behind the last that was
/// reported are left to report.
pub proof fn law_turns_behind_the_last_are_left(turns: Seq<UsageView>, last: int)
    requires
        0 <= last <= turns.len(),
        forall|i: int| 0 <= i < turns.len() ==> (#[trigger] turns[i]).turn_index == i + 1,
    ensures
        unreported(turns, last) == turns.skip(last),
    decreases turns.len(),
{
    if turns.len() == 0 {
        assert(turns.skip(last) =~= Seq::empty());
    } else {
        let front = turns.drop_last();
        if last == turns.len() {
            if unreported(turns, last).len() > 0 {
                lemma_unreported_above(turns, last, 0);
                lemma_unreported_among(turns, last, 0);
            }
            assert(unreported(turns, last) =~= Seq::empty());
            assert(turns.skip(last) =~= Seq::empty());
        } else {
            law_turns_behind_the_last_are_left(front, last);
            assert(front.skip(last).push(turns.last()) =~= turns.skip(last));
        }
    }
}

proof fn lemma_unreported_among(turns: Seq<UsageView>, last: int, j: int)
    requires
        0 <= j < unreported(turns, last).len(),
    ensures
        exists|i: int| 0 <= i < turns.len() && #[trigger] turns[i] == unreported(turns, last)[j],
    decreases turns.len(),
{
    let before = unreported(turns.drop_last(), last);
    if j < before.len() {
        lemma_unreported_among(turns.drop_last(), last, j);
        let i = choose|i: int|
            0 <= i < turns.drop_last().len() && #[trigger] turns.drop_last()[i] == before[j];
        assert(turns[i] == unreported(turns, last)[j]);
    } else {
        assert(turns[turns.len() - 1] == unreported(turns, last)[j]);
    }
}

/// What is left to report are all turns with a number above the last one that was
/// reported, in their order, and no others.
pub proof fn law_unreported_turns_are_those_above(turns: Seq<UsageView>, last: int)
    ensures
        unreported(turns, last) == turns.filter(|t: UsageView| t.turn_index > last),
    decreases turns.len(),
{
    reveal(Seq::filter);
    if turns.len() > 0 {
        law_unreported_turns_are_those_above(turns.drop_last(), last);
    }
}

/// What counts as reported is the greatest of the last turn reported before and of the
/// turns that were uploaded.
pub proof fn law_reported_is_the_greatest(last: int, uploaded: Seq<i64>)
    ensures
        reported_up_to(last, uploaded) >= last,
        forall|i: int|
            0 <= i < uploaded.len() ==> reported_up_to(last, uploaded) >= #[trigger] uploaded[i],
        reported_up_to(last, uploaded) == last || exists|i: int|
            0 <= i < uploaded.len() && #[trigger] uploaded[i] == reported_up_to(last, uploaded),
    decreases uploaded.len(),
{
    law_reported_never_falls(last, uploaded);
    assert forall|i: int| 0 <= i < uploaded.len() implies reported_up_to(last, uploaded)
        >= #[trigger] uploaded[i] by {
        lemma_reported_bounds(last, uploaded, i);
    }
    if uploaded.len() > 0 {
        let front = uploaded.drop_last();
        law_reported_is_the_greatest(last, front);
        let before = reported_up_to(last, front);
        if uploaded.last() > before {
            assert(uploaded[uploaded.len() - 1] == reported_up_to(last, uploaded));
        } else if before != last {
            let i = choose|i: int| 0 <= i < front.len() && #[trigger] front[i] == before;
            assert(uploaded[i] == reported_up_to(last, uploaded));
        }
    }
}

/// The count under a key is the last one that stands there; without one it is 0.
pub proof fn law_the_last_count_stands(counts: Seq<(Seq<char>, i64)>, key: Seq<char>, i: int)
    ensures
        0 <= i < counts.len() && counts[i].0 == key && (forall|j: int|
            i < j < counts.len() ==> (#[trigger] counts[j]).0 != key) ==> last_count(counts, key)
            == counts[i].1,
        (forall|j: int| 0 <= j < counts.len() ==> (#[trigger] counts[j]).0 != key) ==> last_count(
            counts,
            key,
        ) == 0,
    decreases counts.len(),
{
    if counts.len() > 0 {
        let front = counts.drop_last();
        law_the_last_count_stands(front, key, i);
        assert(forall|j: int| 0 <= j < front.len() ==> #[trigger] front[j] == counts[j]);
        assert(counts[counts.len() - 1] == counts.last());
    }
}

/// Use is reported under the configured name where there is one, else under the first
/// address that is not blank, without the blanks round it, else under the login name;
/// under no other, and as unknown just where none of them is there.
pub proof fn law_reporter(
    configured: Option<Seq<char>>,
    emails: Seq<Seq<char>>,
    login: Option<Seq<char>>,
    i: int,
)
    ensures
        configured is Some && configured->0.len() > 0 ==> reporter_of(configured, emails, login)
            == configured->0,
        (configured is None || configured->0.len() == 0) && 0 <= i < emails.len() && trimmed(
            emails[i],
        ).len() > 0 && (forall|j: int|
            0 <= j < i ==> trimmed(#[trigger] emails[j]).len() == 0) ==> reporter_of(
            configured,
            emails,
            login,
        ) == trimmed(emails[i]),
        (configured is None || configured->0.len() == 0) && (forall|j: int|
            0 <= j < emails.len() ==> trimmed(#[trigger] emails[j]).len() == 0) ==> reporter_of(
            configured,
            emails,
            login,
        ) == (if login is Some && login->0.len() > 0 {
            login->0
        } else {
            "unknown"@
        }),
    decreases emails.len(),
{
    if emails.len() > 0 {
        let rest = emails.drop_first();
        law_reporter(configured, rest, login, i - 1);
        assert(forall|j: int| 0 <= j < rest.len() ==> #[trigger] rest[j] == emails[j + 1]);
        assert(forall|j: int| 1 <= j < emails.len() ==> #[trigger] emails[j] == rest[j - 1]);
    }
}

/// Each agent is found by its own name, the first by the configured name and an ending,
/// and by no other name.
pub proof fn law_each_platform_has_its_name(name: Seq<char>, names: AgentNamesView)
    ensures
        name == names.name + "-code"@ ==> platform_of(name, names) == Some(Platform::ClaudeCode),
        name != names.name + "-code"@ && name == "codex"@ ==> platform_of(name, names) == Some(
            Platform::Codex,
        ),
        name != names.name + "-code"@ && name == "opencode"@ ==> platform_of(name, names) == Some(
            Platform::OpenCode,
        ),
        name != names.name + "-code"@ && name != "codex"@ && name != "opencode"@ ==> platform_of(
            name,
            names,
        ) is None,
{
    reveal_strlit("codex");
    reveal_strlit("opencode");
    assert("codex"@.len() == 5);
    assert("opencode"@.len() == 8);
}

} // verus!
