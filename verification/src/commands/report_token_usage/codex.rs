//! What the sessions of Codex used, turn by turn.
//!
//! A session is a file of JSON lines. Most of them name the turn that they belong to;
//! counts of tokens and calls of tools belong to the turn that was named last.

use crate::commands::report_token_usage::{
    TokenUsageData, ToolUse, ToolUseView, UsageView, law_turns_behind_the_last_are_left, some_text,
    text_unless_empty, tool_uses_json, tool_uses_json_of, unreported,
};
use crate::json::{
    i64_or_zero, json_compact, json_compact_of, json_i64_or_zero, json_kind, json_kind_of,
    json_text, json_text_of, json_text_or_empty, text_or_empty,
};
use crate::model::{lemma_views_push, opt_view, views};
use crate::text::{
    chars_of, clone_option, find, find_of, has_prefix, lemma_texts_push, lines, lines_of,
    list_contains, prefix_within, starts_with, str_eq, string_of, strip_prefix, take_bytes, texts,
    trim, trimmed,
};
use crate::text_map::{TextMap, text_values};
use vstd::prelude::*;
use vstd::string::*;
use vstd::utf8::*;

verus! {

/// The counts of a turn.
#[derive(Clone, Copy, PartialEq, Eq, Structural, Debug)]
pub struct CodexTokens {
    pub input: i64,
    pub output: i64,
    pub cached: i64,
    pub total: i64,
}

/// What a line of a session tells.
pub enum CodexEvent {
    /// A turn starts.
    Started(String),
    /// What the user says in a turn.
    User { turn_id: String, message: String },
    /// What the agent says in a turn, and in which phase of it.
    Agent { turn_id: String, phase: String, message: String },
    /// What the turn used.
    Tokens(CodexTokens),
    /// A turn is broken off.
    Aborted(String),
    /// The model that answers in a turn.
    Context { turn_id: String, model: String },
    /// The call of a tool.
    Call { name: String, id: String, arguments: String },
    /// Nothing that counts.
    Nothing,
}

/// The texts of what a line tells.
pub enum CodexEventView {
    Started(Seq<char>),
    User(Seq<char>, Seq<char>),
    Agent(Seq<char>, Seq<char>, Seq<char>),
    Tokens(CodexTokens),
    Aborted(Seq<char>),
    Context(Seq<char>, Seq<char>),
    Call(Seq<char>, Seq<char>, Seq<char>),
    Nothing,
}

impl View for CodexEvent {
    type V = CodexEventView;

    open spec fn view(&self) -> CodexEventView {
        match self {
            CodexEvent::Started(id) => CodexEventView::Started(id@),
            CodexEvent::User { turn_id, message } => CodexEventView::User(turn_id@, message@),
            CodexEvent::Agent { turn_id, phase, message } => CodexEventView::Agent(
                turn_id@,
                phase@,
                message@,
            ),
            CodexEvent::Tokens(t) => CodexEventView::Tokens(*t),
            CodexEvent::Aborted(id) => CodexEventView::Aborted(id@),
            CodexEvent::Context { turn_id, model } => CodexEventView::Context(turn_id@, model@),
            CodexEvent::Call { name, id, arguments } => CodexEventView::Call(
                name@,
                id@,
                arguments@,
            ),
            CodexEvent::Nothing => CodexEventView::Nothing,
        }
    }
}

// ------------------------------------------------------------------ events from JSON

/// The arguments of a call, which are JSON inside a string: written without spaces,
/// and an empty object where they are no JSON.
pub open spec fn call_arguments_of(text: Seq<char>) -> Seq<char> {
    let raw = match json_text_of(text, "/payload/arguments"@) {
        Some(s) => s,
        None => "{}"@,
    };
    match json_compact_of(raw, ""@) {
        Some(s) => s,
        None => "{}"@,
    }
}

fn call_arguments(text: &str) -> (r: String)
    ensures
        r@ == call_arguments_of(text@),
{
    let raw = match json_text(text, "/payload/arguments") {
        Some(s) => s,
        None => "{}".to_owned(),
    };
    match json_compact(raw.as_str(), "") {
        Some(s) => s,
        None => "{}".to_owned(),
    }
}

/// What a message event of JSON tells.
pub open spec fn codex_message_of(text: Seq<char>) -> CodexEventView {
    let kind = json_text_or_empty(text, "/payload/type"@);
    let turn_id = json_text_or_empty(text, "/payload/turn_id"@);
    let message = json_text_or_empty(text, "/payload/message"@);
    if kind == "task_started"@ {
        match json_text_of(text, "/payload/turn_id"@) {
            Some(id) => CodexEventView::Started(id),
            None => CodexEventView::Nothing,
        }
    } else if kind == "user_message"@ {
        CodexEventView::User(turn_id, message)
    } else if kind == "agent_message"@ {
        CodexEventView::Agent(turn_id, json_text_or_empty(text, "/payload/phase"@), message)
    } else if kind == "token_count"@ {
        if json_kind_of(text, "/payload/info/last_token_usage"@) is Some {
            CodexEventView::Tokens(
                CodexTokens {
                    input: json_i64_or_zero(text, "/payload/info/last_token_usage/input_tokens"@),
                    output: json_i64_or_zero(text, "/payload/info/last_token_usage/output_tokens"@),
                    cached: json_i64_or_zero(
                        text,
                        "/payload/info/last_token_usage/cached_input_tokens"@,
                    ),
                    total: json_i64_or_zero(text, "/payload/info/last_token_usage/total_tokens"@),
                },
            )
        } else {
            CodexEventView::Nothing
        }
    } else if kind == "turn_aborted"@ {
        CodexEventView::Aborted(turn_id)
    } else {
        CodexEventView::Nothing
    }
}

/// What a line of JSON tells.
pub open spec fn codex_event_of(text: Seq<char>) -> CodexEventView {
    let kind = json_text_or_empty(text, "/type"@);
    if kind == "event_msg"@ {
        codex_message_of(text)
    } else if kind == "turn_context"@ {
        CodexEventView::Context(
            json_text_or_empty(text, "/payload/turn_id"@),
            json_text_or_empty(text, "/payload/model"@),
        )
    } else if kind == "response_item"@ {
        if json_text_or_empty(text, "/payload/type"@) == "function_call"@ {
            CodexEventView::Call(
                json_text_or_empty(text, "/payload/name"@),
                json_text_or_empty(text, "/payload/call_id"@),
                call_arguments_of(text),
            )
        } else {
            CodexEventView::Nothing
        }
    } else {
        CodexEventView::Nothing
    }
}

fn codex_message(text: &str) -> (r: CodexEvent)
    ensures
        r@ == codex_message_of(text@),
{
    let kind = text_or_empty(text, "/payload/type");
    let turn_id = text_or_empty(text, "/payload/turn_id");
    let message = text_or_empty(text, "/payload/message");
    if str_eq(kind.as_str(), "task_started") {
        return match json_text(text, "/payload/turn_id") {
            Some(id) => CodexEvent::Started(id),
            None => CodexEvent::Nothing,
        };
    }
    if str_eq(kind.as_str(), "user_message") {
        return CodexEvent::User { turn_id, message };
    }
    if str_eq(kind.as_str(), "agent_message") {
        return CodexEvent::Agent {
            turn_id,
            phase: text_or_empty(text, "/payload/phase"),
            message,
        };
    }
    if str_eq(kind.as_str(), "token_count") {
        if json_kind(text, "/payload/info/last_token_usage").is_none() {
            return CodexEvent::Nothing;
        }
        return CodexEvent::Tokens(
            CodexTokens {
                input: i64_or_zero(text, "/payload/info/last_token_usage/input_tokens"),
                output: i64_or_zero(text, "/payload/info/last_token_usage/output_tokens"),
                cached: i64_or_zero(text, "/payload/info/last_token_usage/cached_input_tokens"),
                total: i64_or_zero(text, "/payload/info/last_token_usage/total_tokens"),
            },
        );
    }
    if str_eq(kind.as_str(), "turn_aborted") {
        return CodexEvent::Aborted(turn_id);
    }
    CodexEvent::Nothing
}

/// What a line of JSON tells.
pub fn codex_event(text: &str) -> (r: CodexEvent)
    ensures
        r@ == codex_event_of(text@),
{
    let kind = text_or_empty(text, "/type");
    if str_eq(kind.as_str(), "event_msg") {
        return codex_message(text);
    }
    if str_eq(kind.as_str(), "turn_context") {
        return CodexEvent::Context {
            turn_id: text_or_empty(text, "/payload/turn_id"),
            model: text_or_empty(text, "/payload/model"),
        };
    }
    if str_eq(kind.as_str(), "response_item") {
        let item = text_or_empty(text, "/payload/type");
        if str_eq(item.as_str(), "function_call") {
            return CodexEvent::Call {
                name: text_or_empty(text, "/payload/name"),
                id: text_or_empty(text, "/payload/call_id"),
                arguments: call_arguments(text),
            };
        }
    }
    CodexEvent::Nothing
}

// --------------------------------------------------------------------------- sessions

/// What is gathered of a session, by turn.
pub struct CodexSession {
    pub user: TextMap<String>,
    pub assistant: TextMap<String>,
    pub tokens: TextMap<CodexTokens>,
    pub models: TextMap<String>,
    pub calls: TextMap<Vec<ToolUse>>,
    /// The turns, in the order in which they were first named.
    pub order: Vec<String>,
    /// The turn that counts and calls belong to.
    pub latest: Option<String>,
    pub aborted: Vec<String>,
}

/// The texts and numbers of what is gathered of a session.
#[verifier::ext_equal]
pub struct CodexView {
    pub user: Map<Seq<char>, Seq<char>>,
    pub assistant: Map<Seq<char>, Seq<char>>,
    pub tokens: Map<Seq<char>, CodexTokens>,
    pub models: Map<Seq<char>, Seq<char>>,
    pub calls: Map<Seq<char>, Seq<ToolUseView>>,
    pub order: Seq<Seq<char>>,
    pub latest: Option<Seq<char>>,
    pub aborted: Seq<Seq<char>>,
}

/// The calls of each turn.
pub open spec fn calls_view(m: Map<Seq<char>, Vec<ToolUse>>) -> Map<Seq<char>, Seq<ToolUseView>> {
    m.map_values(|v: Vec<ToolUse>| views(v@))
}

impl View for CodexSession {
    type V = CodexView;

    open spec fn view(&self) -> CodexView {
        CodexView {
            user: text_values(self.user@),
            assistant: text_values(self.assistant@),
            tokens: self.tokens@,
            models: text_values(self.models@),
            calls: calls_view(self.calls@),
            order: texts(self.order@),
            latest: opt_view(self.latest),
            aborted: texts(self.aborted@),
        }
    }
}

/// What is gathered of a session before its first line.
pub open spec fn codex_start() -> CodexView {
    CodexView {
        user: Map::empty(),
        assistant: Map::empty(),
        tokens: Map::empty(),
        models: Map::empty(),
        calls: Map::empty(),
        order: Seq::empty(),
        latest: None,
        aborted: Seq::empty(),
    }
}

/// A session with a turn named. A turn is told by its name: one that was named before
/// is the same turn. It becomes the latest turn, unless it was named before and the user
/// has spoken in it.
pub open spec fn with_turn(s: CodexView, id: Seq<char>) -> CodexView {
    CodexView {
        order: if s.order.contains(id) {
            s.order
        } else {
            s.order.push(id)
        },
        latest: if s.order.contains(id) && s.user.dom().contains(id) {
            s.latest
        } else {
            Some(id)
        },
        ..s
    }
}

/// The calls of a turn.
pub open spec fn calls_in(s: CodexView, id: Seq<char>) -> Seq<ToolUseView> {
    if s.calls.dom().contains(id) {
        s.calls[id]
    } else {
        Seq::empty()
    }
}

/// What is gathered of a session, with one more event.
pub open spec fn codex_with(s: CodexView, event: CodexEventView) -> CodexView {
    match event {
        CodexEventView::Started(id) => with_turn(s, id),
        CodexEventView::User(id, message) => if message.len() > 0 && !has_prefix(
            message,
            "# Context from my IDE setup"@,
        ) && id.len() > 0 {
            CodexView { user: s.user.insert(id, message), ..s }
        } else {
            s
        },
        CodexEventView::Agent(id, phase, message) => if phase == "final_answer"@ && message.len()
            > 0 && id.len() > 0 {
            CodexView { assistant: s.assistant.insert(id, message), ..s }
        } else {
            s
        },
        CodexEventView::Tokens(t) => match s.latest {
            Some(turn) => CodexView { tokens: s.tokens.insert(turn, t), ..s },
            None => s,
        },
        CodexEventView::Aborted(id) => if id.len() > 0 {
            CodexView { aborted: s.aborted.push(id), ..s }
        } else {
            s
        },
        CodexEventView::Context(id, model) => {
            let named = if id.len() > 0 && model.len() > 0 {
                CodexView { models: s.models.insert(id, model), ..s }
            } else {
                s
            };
            if id.len() > 0 {
                with_turn(named, id)
            } else {
                named
            }
        },
        CodexEventView::Call(name, id, arguments) => match s.latest {
            Some(turn) => CodexView {
                calls: s.calls.insert(
                    turn,
                    calls_in(s, turn).push(ToolUseView { name, id, arguments, result: None }),
                ),
                ..s
            },
            None => s,
        },
        CodexEventView::Nothing => s,
    }
}

/// What is gathered of a session after some events.
pub open spec fn codex_after(events: Seq<CodexEventView>) -> CodexView
    decreases events.len(),
{
    if events.len() == 0 {
        codex_start()
    } else {
        codex_with(codex_after(events.drop_last()), events.last())
    }
}

/// One turn of a session.
pub struct CodexTurn {
    pub model: String,
    pub user_content: String,
    pub assistant_text: String,
    pub tool_uses_json: Option<String>,
    pub input_tokens: i64,
    pub output_tokens: i64,
    pub cache_read_tokens: i64,
    pub cache_creation_tokens: i64,
    pub total_tokens: i64,
}

/// The texts and numbers of a turn.
#[verifier::ext_equal]
pub struct CodexTurnView {
    pub model: Seq<char>,
    pub user_content: Seq<char>,
    pub assistant_text: Seq<char>,
    pub tool_uses_json: Option<Seq<char>>,
    pub input: i64,
    pub output: i64,
    pub cache_read: i64,
    pub cache_creation: i64,
    pub total: i64,
}

impl View for CodexTurn {
    type V = CodexTurnView;

    open spec fn view(&self) -> CodexTurnView {
        CodexTurnView {
            model: self.model@,
            user_content: self.user_content@,
            assistant_text: self.assistant_text@,
            tool_uses_json: opt_view(self.tool_uses_json),
            input: self.input_tokens,
            output: self.output_tokens,
            cache_read: self.cache_read_tokens,
            cache_creation: self.cache_creation_tokens,
            total: self.total_tokens,
        }
    }
}

/// A difference, held within the range of the type.
pub open spec fn difference(a: i64, b: i64) -> int {
    if a - b > i64::MAX {
        i64::MAX as int
    } else if a - b < i64::MIN {
        i64::MIN as int
    } else {
        a - b
    }
}

fn saturating_difference(a: i64, b: i64) -> (r: i64)
    ensures
        r == difference(a, b),
{
    let d: i128 = a as i128 - b as i128;
    if d > i64::MAX as i128 {
        i64::MAX
    } else if d < i64::MIN as i128 {
        i64::MIN
    } else {
        d as i64
    }
}

/// A text of a turn, or the empty text.
pub open spec fn said(m: Map<Seq<char>, Seq<char>>, id: Seq<char>) -> Seq<char> {
    if m.dom().contains(id) {
        m[id]
    } else {
        ""@
    }
}

/// The counts of a turn, or zeros.
pub open spec fn counted(s: CodexView, id: Seq<char>) -> CodexTokens {
    if s.tokens.dom().contains(id) {
        s.tokens[id]
    } else {
        CodexTokens { input: 0, output: 0, cached: 0, total: 0 }
    }
}

/// A turn of a session; none where it was broken off, or where the user said nothing
/// and nothing was used. What was read from the cache does not count as input.
pub open spec fn codex_turn_of(s: CodexView, id: Seq<char>) -> Option<CodexTurnView> {
    let t = counted(s, id);
    if s.aborted.contains(id) || (said(s.user, id).len() == 0 && t.total == 0) {
        None
    } else {
        Some(
            CodexTurnView {
                model: if s.models.dom().contains(id) {
                    s.models[id]
                } else {
                    "unknown"@
                },
                user_content: said(s.user, id),
                assistant_text: said(s.assistant, id),
                tool_uses_json: tool_uses_json_of(calls_in(s, id), false),
                input: difference(t.input, t.cached) as i64,
                output: t.output,
                cache_read: t.cached,
                cache_creation: 0,
                total: t.total,
            },
        )
    }
}

/// The turns of a session, as they were named.
pub open spec fn codex_turns_of(s: CodexView, order: Seq<Seq<char>>) -> Seq<CodexTurnView>
    decreases order.len(),
{
    if order.len() == 0 {
        Seq::empty()
    } else {
        let before = codex_turns_of(s, order.drop_last());
        match codex_turn_of(s, order.last()) {
            Some(t) => before.push(t),
            None => before,
        }
    }
}

fn text_in(m: &TextMap<String>, id: &str) -> (r: String)
    ensures
        r@ == said(text_values(m@), id@),
{
    match m.get(id) {
        Some(s) => s.clone(),
        None => "".to_owned(),
    }
}

impl CodexSession {
    /// A session of which no line was read.
    pub fn new() -> (r: Self)
        ensures
            r@ == codex_start(),
    {
        let r = CodexSession {
            user: TextMap::new(),
            assistant: TextMap::new(),
            tokens: TextMap::new(),
            models: TextMap::new(),
            calls: TextMap::new(),
            order: Vec::new(),
            latest: None,
            aborted: Vec::new(),
        };
        proof {
            assert(r@ =~= codex_start());
        }
        r
    }

    fn name_turn(&mut self, id: String)
        ensures
            final(self)@ == with_turn(old(self)@, id@),
    {
        let known = list_contains(self.order.as_slice(), id.as_str());
        if !known {
            let ghost before = self.order@;
            let name = id.clone();
            let ghost named = name;
            self.order.push(name);
            proof {
                lemma_texts_push(before, named);
            }
        }
        let ghost idv = id@;
        if !known || self.user.get(id.as_str()).is_none() {
            self.latest = Some(id);
        }
        proof {
            assert(self@ =~= with_turn(old(self)@, idv));
        }
    }

    fn add_call(&mut self, call: ToolUse)
        requires
            call.result is None,
        ensures
            final(self)@ == codex_with(
                old(self)@,
                CodexEventView::Call(call@.name, call@.id, call@.arguments),
            ),
    {
        let turn = match &self.latest {
            Some(turn) => turn.clone(),
            None => {
                return;
            },
        };
        let ghost was = self@;
        let ghost m0 = self.calls@;
        let mut list = match self.calls.take(turn.as_str()) {
            Some(list) => list,
            None => {
                let v: Vec<ToolUse> = Vec::new();
                proof {
                    assert(views(v@) =~= Seq::empty());
                }
                v
            },
        };
        let ghost before = list@;
        list.push(call);
        let ghost list_v = list;
        let ghost turn_v = turn@;
        self.calls.insert(turn, list);
        proof {
            lemma_views_push(before, call);
            assert(calls_view(self.calls@) =~= calls_view(m0).insert(turn_v, views(list_v@)));
            assert(self@ =~= codex_with(
                was,
                CodexEventView::Call(call@.name, call@.id, call@.arguments),
            ));
        }
    }

    /// Reads what one more line tells.
    pub fn record(&mut self, event: CodexEvent)
        ensures
            final(self)@ == codex_with(old(self)@, event@),
    {
        let ghost was = self@;
        match event {
            CodexEvent::Started(id) => {
                self.name_turn(id);
            },
            CodexEvent::User { turn_id, message } => {
                if !message.as_str().is_empty() && !starts_with(
                    message.as_str(),
                    "# Context from my IDE setup",
                ) && !turn_id.as_str().is_empty() {
                    let ghost m0 = self.user@;
                    let ghost (k, v) = (turn_id@, message);
                    self.user.insert(turn_id, message);
                    proof {
                        assert(text_values(m0.insert(k, v)) =~= text_values(m0).insert(k, v@));
                        assert(self@ =~= codex_with(was, event@));
                    }
                }
            },
            CodexEvent::Agent { turn_id, phase, message } => {
                if str_eq(phase.as_str(), "final_answer") && !message.as_str().is_empty()
                    && !turn_id.as_str().is_empty() {
                    let ghost m0 = self.assistant@;
                    let ghost (k, v) = (turn_id@, message);
                    self.assistant.insert(turn_id, message);
                    proof {
                        assert(text_values(m0.insert(k, v)) =~= text_values(m0).insert(k, v@));
                        assert(self@ =~= codex_with(was, event@));
                    }
                }
            },
            CodexEvent::Tokens(t) => {
                if let Some(turn) = clone_option(&self.latest) {
                    self.tokens.insert(turn, t);
                }
            },
            CodexEvent::Aborted(id) => {
                if !id.as_str().is_empty() {
                    let ghost before = self.aborted@;
                    let ghost idv = id;
                    self.aborted.push(id);
                    proof {
                        lemma_texts_push(before, idv);
                        assert(self@ =~= codex_with(was, event@));
                    }
                }
            },
            CodexEvent::Context { turn_id, model } => {
                if !turn_id.as_str().is_empty() {
                    if !model.as_str().is_empty() {
                        let ghost m0 = self.models@;
                        let ghost (k, v) = (turn_id@, model);
                        self.models.insert(turn_id.clone(), model);
                        proof {
                            assert(text_values(m0.insert(k, v)) =~= text_values(m0).insert(k, v@));
                            assert(self@ =~= CodexView { models: was.models.insert(k, v@), ..was });
                        }
                    }
                    self.name_turn(turn_id);
                }
            },
            CodexEvent::Call { name, id, arguments } => {
                self.add_call(ToolUse { name, id, arguments, result: None });
            },
            CodexEvent::Nothing => {},
        }
    }

    fn turn(&self, id: &str) -> (r: Option<CodexTurn>)
        ensures
            opt_view(r) == codex_turn_of(self@, id@),
    {
        if list_contains(self.aborted.as_slice(), id) {
            return None;
        }
        let t = match self.tokens.get(id) {
            Some(t) => *t,
            None => CodexTokens { input: 0, output: 0, cached: 0, total: 0 },
        };
        let user_content = text_in(&self.user, id);
        if user_content.as_str().is_empty() && t.total == 0 {
            return None;
        }
        let model = match self.models.get(id) {
            Some(s) => s.clone(),
            None => "unknown".to_owned(),
        };
        let calls = match self.calls.get(id) {
            Some(list) => tool_uses_json(list, false),
            None => None,
        };
        Some(
            CodexTurn {
                model,
                user_content,
                assistant_text: text_in(&self.assistant, id),
                tool_uses_json: calls,
                input_tokens: saturating_difference(t.input, t.cached),
                output_tokens: t.output,
                cache_read_tokens: t.cached,
                cache_creation_tokens: 0,
                total_tokens: t.total,
            },
        )
    }

    /// The turns of the session.
    pub fn turns(&self) -> (r: Vec<CodexTurn>)
        ensures
            views(r@) == codex_turns_of(self@, self@.order),
    {
        let ghost all = texts(self.order@);
        let mut out: Vec<CodexTurn> = Vec::new();
        let mut i: usize = 0;
        proof {
            assert(all.take(0) =~= Seq::empty());
            assert(views(out@) =~= Seq::empty());
        }
        while i < self.order.len()
            invariant
                i <= self.order@.len(),
                all == texts(self.order@),
                views(out@) == codex_turns_of(self@, all.take(i as int)),
            decreases self.order.len() - i,
        {
            proof {
                assert(all.take(i + 1).drop_last() =~= all.take(i as int));
                assert(all.take(i + 1).last() == self.order@[i as int]@);
            }
            if let Some(t) = self.turn(self.order[i].as_str()) {
                let ghost before = out@;
                let ghost tv = t;
                out.push(t);
                proof {
                    lemma_views_push(before, tv);
                }
            }
            i += 1;
        }
        proof {
            assert(all.take(all.len() as int) =~= all);
        }
        out
    }
}

/// What the lines of a session tell; blank lines are passed over.
pub open spec fn codex_events_of(lines: Seq<Seq<char>>) -> Seq<CodexEventView>
    decreases lines.len(),
{
    if lines.len() == 0 {
        Seq::empty()
    } else {
        let before = codex_events_of(lines.drop_last());
        if trimmed(lines.last()).len() == 0 {
            before
        } else {
            before.push(codex_event_of(lines.last()))
        }
    }
}

/// The turns that the text of a session's file makes.
pub open spec fn codex_turns_of_content(content: Seq<char>) -> Seq<CodexTurnView> {
    let s = codex_after(codex_events_of(lines_of(content)));
    codex_turns_of(s, s.order)
}

/// The turns that the text of a session's file makes.
pub fn parse_turns_from_content(content: &str) -> (r: Vec<CodexTurn>)
    ensures
        views(r@) == codex_turns_of_content(content@),
{
    let all = lines(content);
    let ghost ls = texts(all@);
    let mut session = CodexSession::new();
    let mut i: usize = 0;
    proof {
        assert(ls.take(0) =~= Seq::empty());
        assert(codex_events_of(ls.take(0)) =~= Seq::empty());
    }
    while i < all.len()
        invariant
            i <= all@.len(),
            ls == texts(all@),
            session@ == codex_after(codex_events_of(ls.take(i as int))),
        decreases all.len() - i,
    {
        let ghost before = codex_events_of(ls.take(i as int));
        proof {
            assert(ls.take(i + 1).drop_last() =~= ls.take(i as int));
            assert(ls.take(i + 1).last() == all@[i as int]@);
        }
        if !trim(all[i].as_str()).as_str().is_empty() {
            let event = codex_event(all[i].as_str());
            proof {
                assert(before.push(event@).drop_last() =~= before);
                assert(before.push(event@).last() == event@);
            }
            session.record(event);
        }
        i += 1;
    }
    proof {
        assert(ls.take(ls.len() as int) =~= ls);
    }
    session.turns()
}

/// What the turns of a session used, numbered from 1.
pub open spec fn codex_usage_of(turns: Seq<CodexTurnView>, session: Seq<char>) -> Seq<UsageView> {
    Seq::new(
        turns.len(),
        |i: int|
            UsageView {
                session_id: session,
                turn_index: (i + 1) as i64,
                model: turns[i].model,
                input: turns[i].input,
                output: turns[i].output,
                cache_read: turns[i].cache_read,
                cache_creation: turns[i].cache_creation,
                total: turns[i].total,
                repo_url: None,
                project_name: None,
                user_prompts: text_unless_empty(turns[i].user_content),
                assistant_responses: text_unless_empty(turns[i].assistant_text),
                tool_uses: turns[i].tool_uses_json,
            },
    )
}

/// What the turns of a session used, numbered from 1.
pub fn session_usage(turns: &Vec<CodexTurn>, session: &str) -> (r: Vec<TokenUsageData>)
    ensures
        views(r@) == codex_usage_of(views(turns@), session@),
        r@.len() == turns@.len(),
        forall|i: int|
            0 <= i < turns@.len() && i < i64::MAX ==> (#[trigger] r@[i]).turn_index == i + 1,
        forall|i: int|
            0 <= i < turns@.len() ==> (#[trigger] r@[i]).input_tokens == turns@[i].input_tokens
                && r@[i].output_tokens == turns@[i].output_tokens && r@[i].cache_read_tokens
                == turns@[i].cache_read_tokens && r@[i].cache_creation_tokens
                == turns@[i].cache_creation_tokens && r@[i].total_tokens == turns@[i].total_tokens
                && r@[i].model@ == turns@[i].model@ && opt_view(r@[i].tool_uses) == opt_view(
                turns@[i].tool_uses_json,
            ) && r@[i].repo_url is None,
        forall|i: int|
            0 <= i < turns@.len() ==> opt_view((#[trigger] r@[i]).user_prompts) == (if turns@[i].user_content@.len()
                == 0 {
                None
            } else {
                Some(turns@[i].user_content@)
            }) && opt_view(r@[i].assistant_responses) == (if turns@[i].assistant_text@.len() == 0 {
                None
            } else {
                Some(turns@[i].assistant_text@)
            }),
        forall|i: int|
            0 <= i < turns@.len() ==> (#[trigger] r@[i]).session_id@ == session@ && r@[i].project_name is None,
{
    let ghost ts = views(turns@);
    let ghost want = codex_usage_of(ts, session@);
    let mut out: Vec<TokenUsageData> = Vec::new();
    let mut i: usize = 0;
    while i < turns.len()
        invariant
            i <= turns@.len(),
            ts == views(turns@),
            want == codex_usage_of(ts, session@),
            out@.len() == i,
            forall|k: int| 0 <= k < i ==> (#[trigger] out@[k])@ == want[k],
        decreases turns.len() - i,
    {
        let t = &turns[i];
        proof {
            assert(ts[i as int] == t@);
        }
        out.push(
            TokenUsageData {
                session_id: session.to_owned(),
                turn_index: (i + 1) as i64,
                model: t.model.clone(),
                input_tokens: t.input_tokens,
                output_tokens: t.output_tokens,
                cache_read_tokens: t.cache_read_tokens,
                cache_creation_tokens: t.cache_creation_tokens,
                total_tokens: t.total_tokens,
                repo_url: None,
                project_name: None,
                user_prompts: some_text(t.user_content.clone()),
                assistant_responses: some_text(t.assistant_text.clone()),
                tool_uses: clone_option(&t.tool_uses_json),
            },
        );
        i += 1;
    }
    proof {
        assert(views(out@) =~= want);
        assert forall|i: int| 0 <= i < turns@.len() implies (#[trigger] out@[i])@ == want[i] && ts[i]
            == turns@[i]@ by {}
    }
    out
}

// ------------------------------------------------------------------------------- laws

/// No turn is named twice, whatever the events are.
pub proof fn law_turns_are_named_once(events: Seq<CodexEventView>)
    ensures
        codex_after(events).order.no_duplicates(),
    decreases events.len(),
{
    if events.len() > 0 {
        law_turns_are_named_once(events.drop_last());
        let s = codex_after(events.drop_last());
        let next = codex_with(s, events.last());
        assert forall|i: int, j: int|
            0 <= i < next.order.len() && 0 <= j < next.order.len() && i != j implies next.order[i]
            != next.order[j] by {
            if i < s.order.len() && j < s.order.len() {
                assert(s.order[i] == next.order[i] && s.order[j] == next.order[j]);
            } else if i < s.order.len() {
                assert(s.order.contains(s.order[i]));
            } else {
                assert(s.order.contains(s.order[j]));
            }
        }
    }
}

/// What is used is used in a turn that was named: the latest turn is one of those in order.
pub proof fn law_the_latest_turn_was_named(events: Seq<CodexEventView>)
    ensures
        match codex_after(events).latest {
            Some(id) => codex_after(events).order.contains(id),
            None => codex_after(events).order.len() == 0,
        },
    decreases events.len(),
{
    if events.len() > 0 {
        law_the_latest_turn_was_named(events.drop_last());
        let s = codex_after(events.drop_last());
        let next = codex_with(s, events.last());
        match next.latest {
            Some(id) => {
                if s.order.contains(id) {
                    let k = s.order.index_of(id);
                    assert(next.order[k] == id);
                } else {
                    assert(next.order.last() == id);
                }
            },
            None => {},
        }
    }
}

/// The names of the turns that are reported, in order.
pub open spec fn reported_names(s: CodexView, order: Seq<Seq<char>>) -> Seq<Seq<char>> {
    order.filter(|id: Seq<char>| codex_turn_of(s, id) is Some)
}

/// A name gives at most one turn: the turns of a file are those of distinct names, one
/// for each name that is reported, in the order in which they were named.
pub proof fn law_one_turn_for_a_name(content: Seq<char>)
    ensures
        ({
            let s = codex_after(codex_events_of(lines_of(content)));
            let names = reported_names(s, s.order);
            let turns = codex_turns_of_content(content);
            &&& names.no_duplicates()
            &&& turns.len() == names.len()
            &&& forall|i: int|
                0 <= i < turns.len() ==> codex_turn_of(s, #[trigger] names[i]) == Some(turns[i])
        }),
{
    let events = codex_events_of(lines_of(content));
    let s = codex_after(events);
    law_turns_are_named_once(events);
    lemma_reported_names(s, s.order);
}

proof fn lemma_reported_names(s: CodexView, order: Seq<Seq<char>>)
    requires
        order.no_duplicates(),
    ensures
        ({
            let names = reported_names(s, order);
            let turns = codex_turns_of(s, order);
            &&& names.no_duplicates()
            &&& forall|x: Seq<char>| #[trigger] names.contains(x) ==> order.contains(x)
            &&& turns.len() == names.len()
            &&& forall|i: int|
                0 <= i < turns.len() ==> codex_turn_of(s, #[trigger] names[i]) == Some(turns[i])
        }),
    decreases order.len(),
{
    reveal(Seq::filter);
    if order.len() > 0 {
        let front = order.drop_last();
        let last = order.last();
        lemma_reported_names(s, front);
        let before = reported_names(s, front);
        let names = reported_names(s, order);
        assert(!front.contains(last)) by {
            if front.contains(last) {
                let k = front.index_of(last);
                assert(order[k] == order[order.len() - 1]);
            }
        }
        assert forall|x: Seq<char>| #[trigger] names.contains(x) implies order.contains(x) by {
            let k = names.index_of(x);
            if k < before.len() {
                assert(before[k] == x);
                assert(before.contains(x));
                assert(order[front.index_of(x)] == x);
            } else {
                assert(order[order.len() - 1] == x);
            }
        }
        assert forall|i: int, j: int|
            0 <= i < names.len() && 0 <= j < names.len() && i != j implies names[i] != names[j] by {
            if i < before.len() && j < before.len() {
                assert(before[i] == names[i] && before[j] == names[j]);
            } else if i < before.len() {
                assert(before.contains(before[i]));
            } else {
                assert(before.contains(before[j]));
            }
        }
    }
}

/// A turn that was broken off is not reported, whatever was gathered of it.
pub proof fn law_aborted_turns_are_left_out(s: CodexView, id: Seq<char>, event: CodexEventView)
    requires
        s.aborted.contains(id),
    ensures
        codex_turn_of(s, id) is None,
        codex_turn_of(codex_with(s, event), id) is None,
{
    let next = codex_with(s, event);
    let k = s.aborted.index_of(id);
    assert(next.aborted[k] == id);
    assert(next.aborted.contains(id));
}

/// What the tokens of a turn count is the input that was not cached, the cache and the
/// output: the cache is not counted twice.
pub proof fn law_cache_is_not_input(s: CodexView, id: Seq<char>)
    requires
        codex_turn_of(s, id) is Some,
        0 <= counted(s, id).cached <= counted(s, id).input,
    ensures
        ({
            let t = codex_turn_of(s, id)->0;
            t.input + t.cache_read == counted(s, id).input
        }),
{
}

// ------------------------------------------------------------------------------- files

/// By what a session's file is ordered: the date and the time in its name.
pub open spec fn sort_key_of(stem: Seq<char>) -> Option<Seq<u8>> {
    let prefix = "rollout-"@;
    let b = encode_utf8(stem.skip(prefix.len() as int));
    if has_prefix(stem, prefix) && b.len() >= 19 {
        Some(
            b.subrange(0, 10) + seq![58u8] + b.subrange(11, 13) + seq![58u8] + b.subrange(14, 16)
                + seq![58u8] + b.subrange(17, 19),
        )
    } else {
        None
    }
}

fn push_bytes(out: &mut Vec<u8>, b: &[u8], from: usize, to: usize)
    requires
        from <= to <= b@.len(),
    ensures
        final(out)@ == old(out)@ + b@.subrange(from as int, to as int),
{
    let ghost before = out@;
    let mut i: usize = from;
    proof {
        assert(before + b@.subrange(from as int, from as int) =~= before);
    }
    while i < to
        invariant
            from <= i <= to <= b@.len(),
            out@ == before + b@.subrange(from as int, i as int),
        decreases to - i,
    {
        out.push(b[i]);
        proof {
            assert(before + b@.subrange(from as int, i + 1) =~= (before + b@.subrange(
                from as int,
                i as int,
            )).push(b@[i as int]));
        }
        i += 1;
    }
}

/// By what a session's file is ordered: the date and the time in its name.
pub fn session_sort_key(stem: &str) -> (r: Option<Vec<u8>>)
    ensures
        match r {
            Some(key) => sort_key_of(stem@) == Some(key@),
            None => sort_key_of(stem@) is None,
        },
{
    let start = match strip_prefix(stem, "rollout-") {
        Some(s) => s,
        None => {
            return None;
        },
    };
    let b = start.as_str().as_bytes();
    if b.len() < 19 {
        return None;
    }
    let mut key: Vec<u8> = Vec::new();
    push_bytes(&mut key, b, 0, 10);
    key.push(58);
    push_bytes(&mut key, b, 11, 13);
    key.push(58);
    push_bytes(&mut key, b, 14, 16);
    key.push(58);
    push_bytes(&mut key, b, 17, 19);
    proof {
        assert(key@ =~= sort_key_of(stem@)->0);
    }
    Some(key)
}

/// Whether bytes come before others, byte by byte.
pub open spec fn bytes_lt(a: Seq<u8>, b: Seq<u8>) -> bool
    decreases a.len(),
{
    if b.len() == 0 {
        false
    } else if a.len() == 0 {
        true
    } else if a[0] != b[0] {
        a[0] < b[0]
    } else {
        bytes_lt(a.drop_first(), b.drop_first())
    }
}

fn bytes_before(a: &Vec<u8>, b: &Vec<u8>) -> (r: bool)
    ensures
        r == bytes_lt(a@, b@),
{
    let mut i: usize = 0;
    proof {
        assert(a@.skip(0) =~= a@);
        assert(b@.skip(0) =~= b@);
    }
    while i < a.len() && i < b.len()
        invariant
            i <= a@.len(),
            i <= b@.len(),
            bytes_lt(a@.skip(i as int), b@.skip(i as int)) == bytes_lt(a@, b@),
        decreases a.len() - i,
    {
        proof {
            assert(a@.skip(i as int).drop_first() =~= a@.skip(i + 1));
            assert(b@.skip(i as int).drop_first() =~= b@.skip(i + 1));
        }
        if a[i] != b[i] {
            return a[i] < b[i];
        }
        i += 1;
    }
    i < b.len()
}

/// The place of the session's file that is the latest by its name; of several the one
/// that stands first. Files with other names are passed over.
pub open spec fn latest_session_of(stems: Seq<Seq<char>>) -> Option<int>
    decreases stems.len(),
{
    if stems.len() == 0 {
        None
    } else {
        let before = latest_session_of(stems.drop_last());
        match sort_key_of(stems.last()) {
            None => before,
            Some(key) => match before {
                None => Some(stems.len() - 1),
                Some(i) => if bytes_lt(sort_key_of(stems[i])->0, key) {
                    Some(stems.len() - 1)
                } else {
                    before
                },
            },
        }
    }
}

/// The place of the session's file that is the latest by its name.
pub fn latest_session(stems: &[String]) -> (r: Option<usize>)
    ensures
        match r {
            Some(i) => latest_session_of(texts(stems@)) == Some(i as int) && i < stems@.len(),
            None => latest_session_of(texts(stems@)) is None,
        },
{
    let ghost all = texts(stems@);
    let mut best: Option<(usize, Vec<u8>)> = None;
    let mut i: usize = 0;
    proof {
        assert(all.take(0) =~= Seq::empty());
    }
    while i < stems.len()
        invariant
            i <= stems@.len(),
            all == texts(stems@),
            match best {
                Some(b) => b.0 < i && latest_session_of(all.take(i as int)) == Some(b.0 as int)
                    && sort_key_of(all[b.0 as int]) == Some(b.1@),
                None => latest_session_of(all.take(i as int)) is None,
            },
        decreases stems.len() - i,
    {
        proof {
            assert(all.take(i + 1).drop_last() =~= all.take(i as int));
            assert(all.take(i + 1).last() == stems@[i as int]@);
            assert(all[i as int] == stems@[i as int]@);
        }
        if let Some(key) = session_sort_key(stems[i].as_str()) {
            let better = match &best {
                None => true,
                Some(b) => bytes_before(&b.1, &key),
            };
            if better {
                best = Some((i, key));
            }
        }
        i += 1;
    }
    proof {
        assert(all.take(all.len() as int) =~= all);
    }
    match best {
        Some(b) => Some(b.0),
        None => None,
    }
}

/// The session of a file: the identifier behind the first `-` before `019`, where it is
/// long enough, else the whole name.
pub open spec fn codex_session_of(stem: Seq<char>) -> Seq<char> {
    match find_of(stem, "-019"@) {
        Some(i) => if encode_utf8(stem.skip(i + 1)).len() >= 36 {
            prefix_within(stem.skip(i + 1), 36)
        } else {
            stem
        },
        None => stem,
    }
}

/// The session of a file.
pub fn codex_session_id(stem: &str) -> (r: String)
    ensures
        r@ == codex_session_of(stem@),
{
    match find(stem, "-019") {
        Some(i) => {
            let v = chars_of(stem);
            proof {
                reveal_strlit("-019");
            }
            let len: usize = v.len();
            let rest = string_of(&v, i + 1, len);
            proof {
                assert(rest@ =~= stem@.skip(i + 1));
            }
            if rest.as_str().as_bytes().len() >= 36 {
                take_bytes(rest.as_str(), 36)
            } else {
                stem.to_owned()
            }
        },
        None => stem.to_owned(),
    }
}

/// The turns of a session are numbered from 1 in order, so that the numbers strictly
/// increase, and once they are reported up to one of them just those behind it are left
/// to report.
pub proof fn law_codex_turns_are_numbered(turns: Seq<CodexTurnView>, session: Seq<char>, k: int)
    requires
        turns.len() <= i64::MAX,
        0 <= k <= turns.len(),
    ensures
        codex_usage_of(turns, session).len() == turns.len(),
        forall|i: int| 0 <= i < turns.len() ==> (#[trigger] codex_usage_of(turns, session)[i]).turn_index == i + 1,
        forall|i: int, j: int|
            0 <= i < j < turns.len() ==> (#[trigger] codex_usage_of(turns, session)[i]).turn_index < (
            #[trigger] codex_usage_of(turns, session)[j]).turn_index,
        unreported(codex_usage_of(turns, session), k) == codex_usage_of(turns, session).skip(k),
{
    law_turns_behind_the_last_are_left(codex_usage_of(turns, session), k);
}

} // verus!
