//! What the sessions of the first agent used, turn by turn.
//!
//! A session is a file of JSON lines. A turn starts where the user typed something and
//! lasts until the user types again.

use crate::agents::AgentNames;
use crate::commands::report_token_usage::{
    MAX_TOOL_RESULT_LEN, TokenUsageData, ToolUse, ToolUseView, UsageView,
    law_turns_behind_the_last_are_left, lemma_plus_stands, lemma_stands_exactly, plus, some_text,
    stands_for, text_unless_empty, tool_uses_json, tool_uses_json_of, total_of, total_tokens,
    truncate_str, truncated, unreported,
};
use crate::json::{
    JsonKind, i64_or_zero, item_pointer, item_pointer_of, json_compact, json_compact_of,
    json_i64_or_zero, json_kind, json_kind_of, json_len, json_len_of, json_text, json_text_of,
    json_text_or_empty, text_or_empty,
};
use crate::json_members::{
    Fields, can_be_record, field_in, field_text, fields_of, is_optional, is_record,
    is_value_or_missing, once_in, optional, read_text, value_or_missing,
};
use crate::model::{lemma_views_push, opt_view, views};
use crate::paths::{components, components_of, file_name, file_name_of, join, joined, stem, stem_of};
use crate::text::{
    clone_option, concat, has_prefix, join_of, lemma_texts_push, lines, lines_of, list_contains,
    split, split_of, starts_with, str_eq, strip_prefix, texts, trim, trimmed,
};
use crate::text::join as join_texts;
use vstd::prelude::*;
use vstd::string::*;

verus! {

// ---------------------------------------------------------------------------- lines

/// What a message of the model says that it used.
#[derive(Clone, Copy, PartialEq, Eq, Structural, Debug)]
pub struct Usage {
    pub input: i64,
    pub output: i64,
    pub cache_read: i64,
    pub cache_creation: i64,
}

/// What a tool gave back.
pub struct ToolResult {
    pub tool_use_id: String,
    pub content: String,
}

impl View for ToolResult {
    type V = (Seq<char>, Seq<char>);

    open spec fn view(&self) -> (Seq<char>, Seq<char>) {
        (self.tool_use_id@, self.content@)
    }
}

/// A part of a message of the model: text, or the call of a tool.
pub enum Block {
    Text(String),
    Call { name: String, id: String, arguments: String },
}

/// The texts of a part of a message.
pub enum BlockView {
    Text(Seq<char>),
    Call(Seq<char>, Seq<char>, Seq<char>),
}

impl View for Block {
    type V = BlockView;

    open spec fn view(&self) -> BlockView {
        match self {
            Block::Text(s) => BlockView::Text(s@),
            Block::Call { name, id, arguments } => BlockView::Call(name@, id@, arguments@),
        }
    }
}

/// What a line of a session tells.
pub enum ClaudeEvent {
    /// A text in the user's name, and where it came from.
    UserText { ts: String, text: String, source: String },
    /// What tools gave back.
    Results(Vec<ToolResult>),
    /// A message of the model.
    Assistant {
        ts: String,
        id: String,
        usage: Option<Usage>,
        model: Option<String>,
        end_turn: bool,
        blocks: Vec<Block>,
    },
    /// Nothing that counts.
    Nothing,
}

/// The texts of what a line tells.
pub enum ClaudeEventView {
    UserText(Seq<char>, Seq<char>, Seq<char>),
    Results(Seq<(Seq<char>, Seq<char>)>),
    Assistant(AssistantView),
    Nothing,
}

/// The texts of a message of the model.
pub struct AssistantView {
    pub ts: Seq<char>,
    pub id: Seq<char>,
    pub usage: Option<Usage>,
    pub model: Option<Seq<char>>,
    pub end_turn: bool,
    pub blocks: Seq<BlockView>,
}

impl View for ClaudeEvent {
    type V = ClaudeEventView;

    open spec fn view(&self) -> ClaudeEventView {
        match self {
            ClaudeEvent::UserText { ts, text, source } => ClaudeEventView::UserText(
                ts@,
                text@,
                source@,
            ),
            ClaudeEvent::Results(v) => ClaudeEventView::Results(views(v@)),
            ClaudeEvent::Assistant {
                ts,
                id,
                usage,
                model,
                end_turn,
                blocks,
            } => ClaudeEventView::Assistant(
                AssistantView {
                    ts: ts@,
                    id: id@,
                    usage: *usage,
                    model: opt_view(*model),
                    end_turn: *end_turn,
                    blocks: views(blocks@),
                },
            ),
            ClaudeEvent::Nothing => ClaudeEventView::Nothing,
        }
    }
}

/// A line of a session: the session that it names, and what it tells.
pub struct ClaudeLine {
    pub session_id: Option<String>,
    pub event: ClaudeEvent,
}

/// The texts of a line of a session.
pub struct ClaudeLineView {
    pub session_id: Option<Seq<char>>,
    pub event: ClaudeEventView,
}

impl View for ClaudeLine {
    type V = ClaudeLineView;

    open spec fn view(&self) -> ClaudeLineView {
        ClaudeLineView { session_id: opt_view(self.session_id), event: self.event@ }
    }
}

// ------------------------------------------------------------------- lines from JSON

/// The texts of the first blocks of a list.
pub open spec fn block_texts(text: Seq<char>, pointer: Seq<char>, n: nat) -> Seq<Seq<char>>
    decreases n,
{
    if n == 0 {
        Seq::empty()
    } else {
        let before = block_texts(text, pointer, (n - 1) as nat);
        match json_text_of(text, item_pointer_of(pointer, (n - 1) as nat) + "/text"@) {
            Some(s) => before.push(s),
            None => before,
        }
    }
}

/// What a tool gave back: a text, or the texts of a list of blocks.
pub open spec fn result_content_of(text: Seq<char>, pointer: Seq<char>) -> Seq<char> {
    let content = pointer + "/content"@;
    match json_text_of(text, content) {
        Some(s) => s,
        None => match json_len_of(text, content) {
            Some(n) => join_of(block_texts(text, content, n), "\n"@),
            None => ""@,
        },
    }
}

fn result_content(text: &str, pointer: &str) -> (r: String)
    ensures
        r@ == result_content_of(text@, pointer@),
{
    broadcast use lemma_texts_push;

    let content = concat(pointer, "/content");
    if let Some(s) = json_text(text, content.as_str()) {
        return s;
    }
    let n: usize = match json_len(text, content.as_str()) {
        Some(n) => n,
        None => {
            return "".to_owned();
        },
    };
    let mut parts: Vec<String> = Vec::new();
    let mut i: usize = 0;
    proof {
        assert(texts(parts@) =~= Seq::empty());
    }
    while i < n
        invariant
            i <= n,
            texts(parts@) == block_texts(text@, content@, i as nat),
        decreases n - i,
    {
        let at = concat(item_pointer(content.as_str(), i).as_str(), "/text");
        if let Some(s) = json_text(text, at.as_str()) {
            parts.push(s);
        }
        i += 1;
    }
    join_texts(parts.as_slice(), "\n")
}

/// What tools gave back, among the first items of a list.
pub open spec fn tool_results_of(text: Seq<char>, pointer: Seq<char>, n: nat) -> Seq<
    (Seq<char>, Seq<char>),
>
    decreases n,
{
    if n == 0 {
        Seq::empty()
    } else {
        let before = tool_results_of(text, pointer, (n - 1) as nat);
        let item = item_pointer_of(pointer, (n - 1) as nat);
        if json_text_or_empty(text, item + "/type"@) == "tool_result"@ {
            before.push(
                (
                    json_text_or_empty(text, item + "/tool_use_id"@),
                    result_content_of(text, item),
                ),
            )
        } else {
            before
        }
    }
}

fn tool_results(text: &str, pointer: &str, n: usize) -> (r: Vec<ToolResult>)
    ensures
        views(r@) == tool_results_of(text@, pointer@, n as nat),
{
    let mut out: Vec<ToolResult> = Vec::new();
    let mut i: usize = 0;
    proof {
        assert(views(out@) =~= Seq::empty());
    }
    while i < n
        invariant
            i <= n,
            views(out@) == tool_results_of(text@, pointer@, i as nat),
        decreases n - i,
    {
        let item = item_pointer(pointer, i);
        let kind = text_or_empty(text, concat(item.as_str(), "/type").as_str());
        if str_eq(kind.as_str(), "tool_result") {
            let result = ToolResult {
                tool_use_id: text_or_empty(text, concat(item.as_str(), "/tool_use_id").as_str()),
                content: result_content(text, item.as_str()),
            };
            let ghost before = out@;
            out.push(result);
            proof {
                lemma_views_push(before, result);
            }
        }
        i += 1;
    }
    out
}

/// The part of a message that a block is, where it is one that counts.
pub open spec fn block_of(text: Seq<char>, item: Seq<char>) -> Option<BlockView> {
    let kind = json_text_or_empty(text, item + "/type"@);
    if kind == "text"@ {
        match json_text_of(text, item + "/text"@) {
            Some(s) => Some(BlockView::Text(s)),
            None => None,
        }
    } else if kind == "tool_use"@ {
        Some(
            BlockView::Call(
                json_text_or_empty(text, item + "/name"@),
                json_text_or_empty(text, item + "/id"@),
                match json_compact_of(text, item + "/input"@) {
                    Some(s) => s,
                    None => "null"@,
                },
            ),
        )
    } else {
        None
    }
}

fn block(text: &str, item: &str) -> (r: Option<Block>)
    ensures
        opt_view(r) == block_of(text@, item@),
{
    let kind = text_or_empty(text, concat(item, "/type").as_str());
    if str_eq(kind.as_str(), "text") {
        return match json_text(text, concat(item, "/text").as_str()) {
            Some(s) => Some(Block::Text(s)),
            None => None,
        };
    }
    if str_eq(kind.as_str(), "tool_use") {
        return Some(
            Block::Call {
                name: text_or_empty(text, concat(item, "/name").as_str()),
                id: text_or_empty(text, concat(item, "/id").as_str()),
                arguments: match json_compact(text, concat(item, "/input").as_str()) {
                    Some(s) => s,
                    None => "null".to_owned(),
                },
            },
        );
    }
    None
}

/// The parts of a message that count, among the first blocks of a list.
pub open spec fn blocks_of(text: Seq<char>, pointer: Seq<char>, n: nat) -> Seq<BlockView>
    decreases n,
{
    if n == 0 {
        Seq::empty()
    } else {
        let before = blocks_of(text, pointer, (n - 1) as nat);
        match block_of(text, item_pointer_of(pointer, (n - 1) as nat)) {
            Some(b) => before.push(b),
            None => before,
        }
    }
}

fn blocks(text: &str, pointer: &str, n: usize) -> (r: Vec<Block>)
    ensures
        views(r@) == blocks_of(text@, pointer@, n as nat),
{
    let mut out: Vec<Block> = Vec::new();
    let mut i: usize = 0;
    proof {
        assert(views(out@) =~= Seq::empty());
    }
    while i < n
        invariant
            i <= n,
            views(out@) == blocks_of(text@, pointer@, i as nat),
        decreases n - i,
    {
        let item = item_pointer(pointer, i);
        if let Some(b) = block(text, item.as_str()) {
            let ghost before = out@;
            let ghost added = b;
            out.push(b);
            proof {
                lemma_views_push(before, added);
            }
        }
        i += 1;
    }
    out
}

/// What a message of the model says that it used, where it says so.
pub open spec fn usage_of(text: Seq<char>) -> Option<Usage> {
    if json_kind_of(text, "/message/usage"@) is Some {
        Some(
            Usage {
                input: json_i64_or_zero(text, "/message/usage/input_tokens"@),
                output: json_i64_or_zero(text, "/message/usage/output_tokens"@),
                cache_read: json_i64_or_zero(text, "/message/usage/cache_read_input_tokens"@),
                cache_creation: json_i64_or_zero(
                    text,
                    "/message/usage/cache_creation_input_tokens"@,
                ),
            },
        )
    } else {
        None
    }
}

fn usage(text: &str) -> (r: Option<Usage>)
    ensures
        r == usage_of(text@),
{
    if json_kind(text, "/message/usage").is_none() {
        return None;
    }
    Some(
        Usage {
            input: i64_or_zero(text, "/message/usage/input_tokens"),
            output: i64_or_zero(text, "/message/usage/output_tokens"),
            cache_read: i64_or_zero(text, "/message/usage/cache_read_input_tokens"),
            cache_creation: i64_or_zero(text, "/message/usage/cache_creation_input_tokens"),
        },
    )
}

/// What a line of JSON tells.
pub open spec fn claude_event_of(text: Seq<char>) -> ClaudeEventView {
    let kind = json_text_or_empty(text, "/type"@);
    let role = json_text_or_empty(text, "/message/role"@);
    let ts = json_text_or_empty(text, "/timestamp"@);
    let n = json_len_of(text, "/message/content"@);
    if kind == "user"@ && role == "user"@ {
        match json_text_of(text, "/message/content"@) {
            Some(s) => ClaudeEventView::UserText(ts, s, json_text_or_empty(text, "/promptSource"@)),
            None => match n {
                Some(n) => ClaudeEventView::Results(
                    tool_results_of(text, "/message/content"@, n),
                ),
                None => ClaudeEventView::Nothing,
            },
        }
    } else if kind == "assistant"@ && role == "assistant"@ {
        ClaudeEventView::Assistant(
            AssistantView {
                ts,
                id: json_text_or_empty(text, "/message/id"@),
                usage: usage_of(text),
                model: json_text_of(text, "/message/model"@),
                end_turn: json_text_or_empty(text, "/message/stop_reason"@) == "end_turn"@,
                blocks: match n {
                    Some(n) => blocks_of(text, "/message/content"@, n),
                    None => Seq::empty(),
                },
            },
        )
    } else {
        ClaudeEventView::Nothing
    }
}

/// Whether a line of JSON is a line of a session: a record that names no field twice,
/// whose session, time and costs are of the right kinds and whose message is any value.
pub open spec fn is_claude_line(text: Seq<char>) -> bool {
    let f = fields_of(text);
    &&& is_record(text, 5, 5)
    &&& once_in(f, "sessionId"@) && once_in(f, "timestamp"@) && once_in(f, "message"@) && once_in(
        f,
        "cost_usd"@,
    ) && once_in(f, "costUSD"@)
    &&& optional(field_in(f, "sessionId"@, 0), JsonKind::Text)
    &&& optional(field_in(f, "timestamp"@, 1), JsonKind::Text)
    &&& value_or_missing(field_in(f, "message"@, 2))
    &&& optional(field_in(f, "cost_usd"@, 3), JsonKind::Number)
    &&& optional(field_in(f, "costUSD"@, 4), JsonKind::Number)
}

/// A line of JSON as a line of a session, where it is one. A line that is written as an
/// array has no type, so nothing happens in it.
pub open spec fn claude_line_of(text: Seq<char>) -> Option<ClaudeLineView> {
    if is_claude_line(text) {
        Some(
            ClaudeLineView {
                session_id: field_text(field_in(fields_of(text), "sessionId"@, 0)),
                event: if fields_of(text).items is Some {
                    ClaudeEventView::Nothing
                } else {
                    claude_event_of(text)
                },
            },
        )
    } else {
        None
    }
}

fn claude_event(text: &str) -> (r: ClaudeEvent)
    ensures
        r@ == claude_event_of(text@),
{
    let kind = text_or_empty(text, "/type");
    let role = text_or_empty(text, "/message/role");
    let ts = text_or_empty(text, "/timestamp");
    if str_eq(kind.as_str(), "user") && str_eq(role.as_str(), "user") {
        if let Some(s) = json_text(text, "/message/content") {
            return ClaudeEvent::UserText {
                ts,
                text: s,
                source: text_or_empty(text, "/promptSource"),
            };
        }
        return match json_len(text, "/message/content") {
            Some(n) => ClaudeEvent::Results(tool_results(text, "/message/content", n)),
            None => ClaudeEvent::Nothing,
        };
    }
    if str_eq(kind.as_str(), "assistant") && str_eq(role.as_str(), "assistant") {
        let stop = text_or_empty(text, "/message/stop_reason");
        let blocks = match json_len(text, "/message/content") {
            Some(n) => blocks(text, "/message/content", n),
            None => {
                let v: Vec<Block> = Vec::new();
                proof {
                    assert(views(v@) =~= Seq::empty());
                }
                v
            },
        };
        return ClaudeEvent::Assistant {
            ts,
            id: text_or_empty(text, "/message/id"),
            usage: usage(text),
            model: json_text(text, "/message/model"),
            end_turn: str_eq(stop.as_str(), "end_turn"),
            blocks,
        };
    }
    ClaudeEvent::Nothing
}

fn can_be_claude_line(text: &str, f: &Fields) -> (r: bool)
    requires
        f@ == fields_of(text@),
    ensures
        r == is_claude_line(text@),
{
    can_be_record(text, 5, 5) && f.once("sessionId") && f.once("timestamp") && f.once("message")
        && f.once("cost_usd") && f.once("costUSD") && is_optional(
        &f.get("sessionId", 0),
        JsonKind::Text,
    ) && is_optional(&f.get("timestamp", 1), JsonKind::Text) && is_value_or_missing(
        &f.get("message", 2),
    ) && is_optional(&f.get("cost_usd", 3), JsonKind::Number) && is_optional(
        &f.get("costUSD", 4),
        JsonKind::Number,
    )
}

/// A line of JSON as a line of a session, where it is one.
pub fn claude_line(text: &str) -> (r: Option<ClaudeLine>)
    ensures
        opt_view(r) == claude_line_of(text@),
{
    let f = Fields::new(text);
    if !can_be_claude_line(text, &f) {
        return None;
    }
    let event = if f.items().is_some() {
        ClaudeEvent::Nothing
    } else {
        claude_event(text)
    };
    Some(ClaudeLine { session_id: read_text(&f.get("sessionId", 0)), event })
}

// ---------------------------------------------------------------------------- turns

/// One turn of a session.
pub struct ParsedTurn {
    pub session_id: String,
    pub model: String,
    pub user_timestamp: String,
    pub user_content: String,
    pub assistant_text: String,
    pub assistant_timestamp: String,
    pub tool_uses_json: Option<String>,
    pub input_tokens: i64,
    pub output_tokens: i64,
    pub cache_read_tokens: i64,
    pub cache_creation_tokens: i64,
    pub total_tokens: i64,
    pub project_name: Option<String>,
}

/// The texts and numbers of a turn.
#[verifier::ext_equal]
pub struct ParsedTurnView {
    pub session_id: Seq<char>,
    pub model: Seq<char>,
    pub user_timestamp: Seq<char>,
    pub user_content: Seq<char>,
    pub assistant_text: Seq<char>,
    pub assistant_timestamp: Seq<char>,
    pub tool_uses_json: Option<Seq<char>>,
    pub input: i64,
    pub output: i64,
    pub cache_read: i64,
    pub cache_creation: i64,
    pub total: i64,
    pub project_name: Option<Seq<char>>,
}

impl View for ParsedTurn {
    type V = ParsedTurnView;

    open spec fn view(&self) -> ParsedTurnView {
        ParsedTurnView {
            session_id: self.session_id@,
            model: self.model@,
            user_timestamp: self.user_timestamp@,
            user_content: self.user_content@,
            assistant_text: self.assistant_text@,
            assistant_timestamp: self.assistant_timestamp@,
            tool_uses_json: opt_view(self.tool_uses_json),
            input: self.input_tokens,
            output: self.output_tokens,
            cache_read: self.cache_read_tokens,
            cache_creation: self.cache_creation_tokens,
            total: self.total_tokens,
            project_name: opt_view(self.project_name),
        }
    }
}

/// What was gathered of the turn under way.
pub struct TurnState {
    /// Whether the user has typed anything yet.
    pub open: bool,
    pub user_ts: String,
    pub user_content: String,
    pub assistant_texts: Vec<String>,
    pub assistant_ts: String,
    pub tool_uses: Vec<ToolUse>,
    pub tool_results: Vec<ToolResult>,
    pub usage: Usage,
    pub model: Option<String>,
    /// The messages whose use was counted.
    pub seen: Vec<String>,
}

/// The texts and numbers of the turn under way.
#[verifier::ext_equal]
pub struct TurnView {
    pub open: bool,
    pub user_ts: Seq<char>,
    pub user_content: Seq<char>,
    pub assistant_texts: Seq<Seq<char>>,
    pub assistant_ts: Seq<char>,
    pub tool_uses: Seq<ToolUseView>,
    pub tool_results: Seq<(Seq<char>, Seq<char>)>,
    pub usage: Usage,
    pub model: Option<Seq<char>>,
    pub seen: Seq<Seq<char>>,
}

impl View for TurnState {
    type V = TurnView;

    open spec fn view(&self) -> TurnView {
        TurnView {
            open: self.open,
            user_ts: self.user_ts@,
            user_content: self.user_content@,
            assistant_texts: texts(self.assistant_texts@),
            assistant_ts: self.assistant_ts@,
            tool_uses: views(self.tool_uses@),
            tool_results: views(self.tool_results@),
            usage: self.usage,
            model: opt_view(self.model),
            seen: texts(self.seen@),
        }
    }
}

/// A turn in which nothing was gathered yet.
pub open spec fn fresh_turn(open: bool, user_ts: Seq<char>, user_content: Seq<char>) -> TurnView {
    TurnView {
        open,
        user_ts,
        user_content,
        assistant_texts: Seq::empty(),
        assistant_ts: ""@,
        tool_uses: Seq::empty(),
        tool_results: Seq::empty(),
        usage: Usage { input: 0, output: 0, cache_read: 0, cache_creation: 0 },
        model: None,
        seen: Seq::empty(),
    }
}

fn new_turn(open: bool, user_ts: String, user_content: String) -> (r: TurnState)
    ensures
        r@ == fresh_turn(open, user_ts@, user_content@),
{
    let r = TurnState {
        open,
        user_ts,
        user_content,
        assistant_texts: Vec::new(),
        assistant_ts: "".to_owned(),
        tool_uses: Vec::new(),
        tool_results: Vec::new(),
        usage: Usage { input: 0, output: 0, cache_read: 0, cache_creation: 0 },
        model: None,
        seen: Vec::new(),
    };
    proof {
        assert(r@ =~= fresh_turn(open, user_ts@, user_content@));
    }
    r
}

/// The results, each cut where it is too long.
pub open spec fn cut_results(results: Seq<(Seq<char>, Seq<char>)>) -> Seq<(Seq<char>, Seq<char>)> {
    Seq::new(
        results.len(),
        |i: int| (results[i].0, truncated(results[i].1, MAX_TOOL_RESULT_LEN as nat)),
    )
}

/// A turn with what a message of the model says that it used. All the lines of one
/// message say the same, so that only the first counts. The input stands for the
/// whole turn; the output of the messages adds up.
pub open spec fn with_usage(t: TurnView, m: AssistantView) -> TurnView {
    if m.id.len() == 0 || t.seen.contains(m.id) {
        t
    } else {
        TurnView {
            usage: match m.usage {
                Some(u) => Usage { output: plus(t.usage.output, u.output), ..u },
                None => t.usage,
            },
            model: if t.model is None {
                m.model
            } else {
                t.model
            },
            seen: t.seen.push(m.id),
            ..t
        }
    }
}

/// A turn with parts of a message of the model. Text counts only in the message that
/// ends the turn.
pub open spec fn with_blocks(t: TurnView, blocks: Seq<BlockView>, end_turn: bool, ts: Seq<char>) -> TurnView
    decreases blocks.len(),
{
    if blocks.len() == 0 {
        t
    } else {
        let before = with_blocks(t, blocks.drop_last(), end_turn, ts);
        match blocks.last() {
            BlockView::Text(s) => if end_turn {
                TurnView {
                    assistant_texts: before.assistant_texts.push(s),
                    assistant_ts: ts,
                    ..before
                }
            } else {
                before
            },
            BlockView::Call(name, id, arguments) => TurnView {
                tool_uses: before.tool_uses.push(ToolUseView { name, id, arguments, result: None }),
                ..before
            },
        }
    }
}

/// What the first result of a call is, among the results of a turn.
pub open spec fn result_for(results: Seq<(Seq<char>, Seq<char>)>, id: Seq<char>) -> Option<Seq<char>>
    decreases results.len(),
{
    if results.len() == 0 {
        None
    } else if results[0].0 == id {
        Some(results[0].1)
    } else {
        result_for(results.drop_first(), id)
    }
}

/// The calls of a turn, each with its result.
pub open spec fn answered(uses: Seq<ToolUseView>, results: Seq<(Seq<char>, Seq<char>)>) -> Seq<
    ToolUseView,
> {
    Seq::new(
        uses.len(),
        |i: int| ToolUseView { result: result_for(results, uses[i].id), ..uses[i] },
    )
}

/// A text, or `unknown`.
pub open spec fn or_unknown(s: Option<Seq<char>>) -> Seq<char> {
    match s {
        Some(t) => t,
        None => "unknown"@,
    }
}

/// The tokens that a turn used.
pub open spec fn turn_total(t: TurnView) -> i64 {
    total_of(t.usage.input, t.usage.output, t.usage.cache_read, t.usage.cache_creation)
}

/// The turn that was gathered.
pub open spec fn turn_built(
    t: TurnView,
    session_id: Option<Seq<char>>,
    project: Option<Seq<char>>,
) -> ParsedTurnView {
    ParsedTurnView {
        session_id: or_unknown(session_id),
        model: or_unknown(t.model),
        user_timestamp: t.user_ts,
        user_content: t.user_content,
        assistant_text: join_of(t.assistant_texts, "\n\n"@),
        assistant_timestamp: t.assistant_ts,
        tool_uses_json: tool_uses_json_of(answered(t.tool_uses, t.tool_results), true),
        input: t.usage.input,
        output: t.usage.output,
        cache_read: t.usage.cache_read,
        cache_creation: t.usage.cache_creation,
        total: turn_total(t),
        project_name: project,
    }
}

/// What was gathered of a session.
#[verifier::ext_equal]
pub struct SessionView {
    pub session_id: Option<Seq<char>>,
    pub turn: TurnView,
    pub done: Seq<ParsedTurnView>,
    pub project: Option<Seq<char>>,
}

/// The turns of a session once the turn under way is over. One that used nothing and
/// got no answer does not count.
pub open spec fn turns_closed(s: SessionView) -> Seq<ParsedTurnView> {
    if s.turn.open && (turn_total(s.turn) > 0 || s.turn.assistant_texts.len() > 0) {
        s.done.push(turn_built(s.turn, s.session_id, s.project))
    } else {
        s.done
    }
}

/// Whether a text in the user's name starts a turn: the user typed it, and it does not
/// carry an earlier session on.
pub open spec fn starts_turn(text: Seq<char>, source: Seq<char>) -> bool {
    !has_prefix(text, "This session is being continued"@) && source == "typed"@
}

/// What was gathered of a session, with one more line.
pub open spec fn session_with(s: SessionView, line: ClaudeLineView) -> SessionView {
    let named = SessionView {
        session_id: if s.session_id is None {
            line.session_id
        } else {
            s.session_id
        },
        ..s
    };
    match line.event {
        ClaudeEventView::UserText(ts, text, source) => if starts_turn(text, source) {
            SessionView {
                turn: fresh_turn(true, ts, text),
                done: turns_closed(named),
                ..named
            }
        } else {
            named
        },
        ClaudeEventView::Results(results) => SessionView {
            turn: TurnView {
                tool_results: named.turn.tool_results + cut_results(results),
                ..named.turn
            },
            ..named
        },
        ClaudeEventView::Assistant(m) => SessionView {
            turn: with_blocks(with_usage(named.turn, m), m.blocks, m.end_turn, m.ts),
            ..named
        },
        ClaudeEventView::Nothing => named,
    }
}

/// What was gathered of a session before its first line.
pub open spec fn session_start(project: Option<Seq<char>>) -> SessionView {
    SessionView {
        session_id: None,
        turn: fresh_turn(false, ""@, ""@),
        done: Seq::empty(),
        project,
    }
}

/// What was gathered of a session after some lines.
pub open spec fn session_after(lines: Seq<ClaudeLineView>, project: Option<Seq<char>>) -> SessionView
    decreases lines.len(),
{
    if lines.len() == 0 {
        session_start(project)
    } else {
        session_with(session_after(lines.drop_last(), project), lines.last())
    }
}

/// The turns that the lines of a session make.
pub open spec fn turns_of_lines(lines: Seq<ClaudeLineView>, project: Option<Seq<char>>) -> Seq<
    ParsedTurnView,
> {
    turns_closed(session_after(lines, project))
}

/// What is gathered of a session.
pub struct ClaudeSession {
    pub session_id: Option<String>,
    pub turn: TurnState,
    pub done: Vec<ParsedTurn>,
    pub project: Option<String>,
}

impl View for ClaudeSession {
    type V = SessionView;

    open spec fn view(&self) -> SessionView {
        SessionView {
            session_id: opt_view(self.session_id),
            turn: self.turn@,
            done: views(self.done@),
            project: opt_view(self.project),
        }
    }
}

fn find_result(results: &Vec<ToolResult>, id: &str) -> (r: Option<String>)
    ensures
        opt_view(r) == result_for(views(results@), id@),
{
    let ghost all = views(results@);
    let mut i: usize = 0;
    proof {
        assert(all.skip(0) =~= all);
    }
    while i < results.len()
        invariant
            i <= results@.len(),
            all == views(results@),
            result_for(all.skip(i as int), id@) == result_for(all, id@),
        decreases results.len() - i,
    {
        proof {
            assert(all.skip(i as int)[0] == results@[i as int]@);
            assert(all.skip(i as int).drop_first() =~= all.skip(i + 1));
        }
        if str_eq(results[i].tool_use_id.as_str(), id) {
            return Some(results[i].content.clone());
        }
        i += 1;
    }
    None
}

fn answer_uses(uses: &Vec<ToolUse>, results: &Vec<ToolResult>) -> (r: Vec<ToolUse>)
    ensures
        views(r@) == answered(views(uses@), views(results@)),
{
    let ghost want = answered(views(uses@), views(results@));
    let mut out: Vec<ToolUse> = Vec::new();
    let mut i: usize = 0;
    while i < uses.len()
        invariant
            i <= uses@.len(),
            out@.len() == i,
            want == answered(views(uses@), views(results@)),
            forall|k: int| 0 <= k < i ==> (#[trigger] out@[k])@ == want[k],
        decreases uses.len() - i,
    {
        proof {
            assert(views(uses@)[i as int] == uses@[i as int]@);
        }
        out.push(
            ToolUse {
                name: uses[i].name.clone(),
                id: uses[i].id.clone(),
                arguments: uses[i].arguments.clone(),
                result: find_result(results, uses[i].id.as_str()),
            },
        );
        i += 1;
    }
    proof {
        assert(views(out@) =~= want);
    }
    out
}

fn build_turn(t: &TurnState, session_id: &Option<String>, project: &Option<String>) -> (r: ParsedTurn)
    ensures
        r@ == turn_built(t@, opt_view(*session_id), opt_view(*project)),
{
    let uses = answer_uses(&t.tool_uses, &t.tool_results);
    ParsedTurn {
        session_id: match session_id {
            Some(s) => s.clone(),
            None => "unknown".to_owned(),
        },
        model: match &t.model {
            Some(s) => s.clone(),
            None => "unknown".to_owned(),
        },
        user_timestamp: t.user_ts.clone(),
        user_content: t.user_content.clone(),
        assistant_text: join_texts(t.assistant_texts.as_slice(), "\n\n"),
        assistant_timestamp: t.assistant_ts.clone(),
        tool_uses_json: tool_uses_json(&uses, true),
        input_tokens: t.usage.input,
        output_tokens: t.usage.output,
        cache_read_tokens: t.usage.cache_read,
        cache_creation_tokens: t.usage.cache_creation,
        total_tokens: total_tokens(
            t.usage.input,
            t.usage.output,
            t.usage.cache_read,
            t.usage.cache_creation,
        ),
        project_name: clone_option(project),
    }
}

fn add_usage(
    t: TurnState,
    id: String,
    usage: Option<Usage>,
    model: Option<String>,
    Ghost(m): Ghost<AssistantView>,
) -> (r: TurnState)
    requires
        m.id == id@,
        m.usage == usage,
        m.model == opt_view(model),
    ensures
        r@ == with_usage(t@, m),
{
    broadcast use lemma_texts_push;

    if id.as_str().is_empty() || list_contains(t.seen.as_slice(), id.as_str()) {
        return t;
    }
    let ghost before = t@;
    let ghost idv = id;
    let mut t = t;
    if let Some(u) = usage {
        t.usage =
        Usage {
            input: u.input,
            output: t.usage.output.wrapping_add(u.output),
            cache_read: u.cache_read,
            cache_creation: u.cache_creation,
        };
    }
    if t.model.is_none() {
        t.model = model;
    }
    let ghost seen = t.seen@;
    t.seen.push(id);
    proof {
        lemma_texts_push(seen, idv);
        assert(t@ =~= with_usage(before, m));
    }
    t
}

fn add_blocks(t: TurnState, blocks: Vec<Block>, end_turn: bool, ts: &str) -> (r: TurnState)
    ensures
        r@ == with_blocks(t@, views(blocks@), end_turn, ts@),
{
    let ghost all = views(blocks@);
    let ghost n = blocks@.len();
    let ghost start = t@;
    let mut stack = blocks;
    let mut back: Vec<Block> = Vec::new();
    while stack.len() > 0
        invariant
            stack@.len() + back@.len() == n,
            n == blocks@.len(),
            stack@ == blocks@.take(stack@.len() as int),
            forall|k: int| 0 <= k < back@.len() ==> #[trigger] back@[k] == blocks@[n - 1 - k],
        decreases stack.len(),
    {
        match stack.pop() {
            Some(b) => {
                back.push(b);
            },
            None => {},
        }
    }
    let mut t = t;
    proof {
        assert(all.take(0) =~= Seq::empty());
    }
    while back.len() > 0
        invariant
            back@.len() <= n,
            n == blocks@.len(),
            all == views(blocks@),
            forall|k: int| 0 <= k < back@.len() ==> #[trigger] back@[k] == blocks@[n - 1 - k],
            t@ == with_blocks(start, all.take(n - back@.len()), end_turn, ts@),
        decreases back.len(),
    {
        let ghost i = n - back@.len();
        let ghost before = t@;
        proof {
            assert(all.take(i + 1).drop_last() =~= all.take(i));
            assert(all.take(i + 1).last() == blocks@[i]@);
            assert(back@[back@.len() - 1] == blocks@[i]);
        }
        match back.pop() {
            Some(Block::Text(s)) => {
                if end_turn {
                    let ghost said = t.assistant_texts@;
                    let ghost sv = s;
                    t.assistant_texts.push(s);
                    t.assistant_ts = ts.to_owned();
                    proof {
                        lemma_texts_push(said, sv);
                        assert(t@ =~= TurnView {
                            assistant_texts: before.assistant_texts.push(sv@),
                            assistant_ts: ts@,
                            ..before
                        });
                    }
                }
            },
            Some(Block::Call { name, id, arguments }) => {
                let call = ToolUse { name, id, arguments, result: None };
                let ghost calls = t.tool_uses@;
                t.tool_uses.push(call);
                proof {
                    lemma_views_push(calls, call);
                    assert(t@ =~= TurnView {
                        tool_uses: before.tool_uses.push(call@),
                        ..before
                    });
                }
            },
            None => {},
        }
    }
    proof {
        assert(all.take(all.len() as int) =~= all);
    }
    t
}

fn add_results(t: TurnState, results: &Vec<ToolResult>) -> (r: TurnState)
    ensures
        r@ == (TurnView { tool_results: t@.tool_results + cut_results(views(results@)), ..t@ }),
{
    let ghost all = views(results@);
    let ghost before = t@;
    let mut t = t;
    let mut i: usize = 0;
    proof {
        assert(before.tool_results + cut_results(all).take(0) =~= before.tool_results);
        assert(t@ =~= TurnView {
            tool_results: before.tool_results + cut_results(all).take(0),
            ..before
        });
    }
    while i < results.len()
        invariant
            i <= results@.len(),
            all == views(results@),
            t@ == (TurnView {
                tool_results: before.tool_results + cut_results(all).take(i as int),
                ..before
            }),
        decreases results.len() - i,
    {
        let ghost held = t.tool_results@;
        let ghost was = t@;
        let kept = ToolResult {
            tool_use_id: results[i].tool_use_id.clone(),
            content: truncate_str(results[i].content.as_str(), MAX_TOOL_RESULT_LEN),
        };
        t.tool_results.push(kept);
        proof {
            assert(all[i as int] == results@[i as int]@);
            lemma_views_push(held, kept);
            assert(kept@ == cut_results(all)[i as int]);
            assert((before.tool_results + cut_results(all).take(i as int)).push(kept@)
                =~= before.tool_results + cut_results(all).take(i + 1));
            assert(t@ =~= TurnView {
                tool_results: before.tool_results + cut_results(all).take(i + 1),
                ..before
            });
        }
        i += 1;
    }
    proof {
        assert(cut_results(all).take(all.len() as int) =~= cut_results(all));
    }
    t
}

impl ClaudeSession {
    /// A session of which no line was read.
    pub fn new(project: Option<String>) -> (r: Self)
        ensures
            r@ == session_start(opt_view(project)),
    {
        let r = ClaudeSession {
            session_id: None,
            turn: new_turn(false, "".to_owned(), "".to_owned()),
            done: Vec::new(),
            project,
        };
        proof {
            assert(views(r.done@) =~= Seq::empty());
        }
        r
    }

    /// Reads one more line.
    pub fn record(self, line: ClaudeLine) -> (r: Self)
        ensures
            r@ == session_with(self@, line@),
    {
        let ghost was = self@;
        let ClaudeSession { session_id, turn, done, project } = self;
        let session_id = if session_id.is_none() {
            line.session_id
        } else {
            session_id
        };
        match line.event {
            ClaudeEvent::UserText { ts, text, source } => {
                let carried = starts_with(text.as_str(), "This session is being continued");
                if !carried && str_eq(source.as_str(), "typed") {
                    let ended = ClaudeSession { session_id, turn, done, project };
                    let ghost named = ended@;
                    let ClaudeSession { session_id, turn, done, project } = ended.close();
                    ClaudeSession {
                        session_id,
                        turn: new_turn(true, ts, text),
                        done,
                        project,
                    }
                } else {
                    ClaudeSession { session_id, turn, done, project }
                }
            },
            ClaudeEvent::Results(results) => {
                let turn = add_results(turn, &results);
                ClaudeSession { session_id, turn, done, project }
            },
            ClaudeEvent::Assistant { ts, id, usage, model, end_turn, blocks } => {
                let ghost m = AssistantView {
                    ts: ts@,
                    id: id@,
                    usage,
                    model: opt_view(model),
                    end_turn,
                    blocks: views(blocks@),
                };
                let turn = add_usage(turn, id, usage, model, Ghost(m));
                let turn = add_blocks(turn, blocks, end_turn, ts.as_str());
                ClaudeSession { session_id, turn, done, project }
            },
            ClaudeEvent::Nothing => ClaudeSession { session_id, turn, done, project },
        }
    }

    /// Counts the turn under way as over.
    fn close(self) -> (r: Self)
        ensures
            r@ == (SessionView { done: turns_closed(self@), ..self@ }),
    {
        let ClaudeSession { session_id, turn, done, project } = self;
        let mut done = done;
        let total = total_tokens(
            turn.usage.input,
            turn.usage.output,
            turn.usage.cache_read,
            turn.usage.cache_creation,
        );
        if turn.open && (total > 0 || turn.assistant_texts.len() > 0) {
            let built = build_turn(&turn, &session_id, &project);
            let ghost before = done@;
            done.push(built);
            proof {
                lemma_views_push(before, built);
            }
        }
        ClaudeSession { session_id, turn, done, project }
    }

    /// The turns of the session.
    pub fn finish(self) -> (r: Vec<ParsedTurn>)
        ensures
            views(r@) == turns_closed(self@),
    {
        let ended = self.close();
        ended.done
    }
}

/// The lines of a session among lines of text: blank lines and those that are none are
/// passed over.
pub open spec fn claude_lines_of(lines: Seq<Seq<char>>) -> Seq<ClaudeLineView>
    decreases lines.len(),
{
    if lines.len() == 0 {
        Seq::empty()
    } else {
        let before = claude_lines_of(lines.drop_last());
        if trimmed(lines.last()).len() == 0 {
            before
        } else {
            match claude_line_of(lines.last()) {
                Some(line) => before.push(line),
                None => before,
            }
        }
    }
}

/// The turns that the text of a session's file makes.
pub open spec fn turns_of_content(content: Seq<char>, path: Seq<char>) -> Seq<ParsedTurnView> {
    turns_of_lines(claude_lines_of(lines_of(content)), project_of(path))
}

/// The turns that the text of a session's file makes.
pub fn parse_turns_from_content(content: &str, path: &str) -> (r: Vec<ParsedTurn>)
    ensures
        views(r@) == turns_of_content(content@, path@),
{
    let all = lines(content);
    let ghost ls = texts(all@);
    let project = extract_project_name(path);
    let ghost p = opt_view(project);
    let mut session = ClaudeSession::new(project);
    let mut i: usize = 0;
    proof {
        assert(ls.take(0) =~= Seq::empty());
        assert(claude_lines_of(ls.take(0)) =~= Seq::empty());
    }
    while i < all.len()
        invariant
            i <= all@.len(),
            ls == texts(all@),
            session@ == session_after(claude_lines_of(ls.take(i as int)), p),
        decreases all.len() - i,
    {
        let ghost before = claude_lines_of(ls.take(i as int));
        proof {
            assert(ls.take(i + 1).drop_last() =~= ls.take(i as int));
            assert(ls.take(i + 1).last() == all@[i as int]@);
        }
        if !trim(all[i].as_str()).as_str().is_empty() {
            if let Some(line) = claude_line(all[i].as_str()) {
                proof {
                    assert(before.push(line@).drop_last() =~= before);
                    assert(before.push(line@).last() == line@);
                }
                session = session.record(line);
            }
        }
        i += 1;
    }
    proof {
        assert(ls.take(ls.len() as int) =~= ls);
    }
    session.finish()
}

// ------------------------------------------------------------------------------ laws

/// A message whose use was counted in a turn does not count again.
pub proof fn law_message_counted_once(t: TurnView, m: AssistantView)
    ensures
        with_usage(with_usage(t, m), m) == with_usage(t, m),
{
    let once = with_usage(t, m);
    if m.id.len() > 0 && !t.seen.contains(m.id) {
        assert(once.seen.last() == m.id);
        assert(once.seen.contains(m.id));
    }
}

/// What was gathered of a session, with some more lines.
pub open spec fn session_from(s: SessionView, lines: Seq<ClaudeLineView>) -> SessionView
    decreases lines.len(),
{
    if lines.len() == 0 {
        s
    } else {
        session_with(session_from(s, lines.drop_last()), lines.last())
    }
}

/// Whether a line is of a message of the model with a certain name.
pub open spec fn is_of_message(line: ClaudeLineView, id: Seq<char>) -> bool {
    line.event matches ClaudeEventView::Assistant(m) && m.id == id
}

/// What the last of some lines says that a message used, where it is the first line of
/// that message.
pub open spec fn newly_told(lines: Seq<ClaudeLineView>) -> Option<Usage> {
    match lines.last().event {
        ClaudeEventView::Assistant(m) => if m.id.len() > 0 && !exists|k: int|
            0 <= k < lines.len() - 1 && is_of_message(#[trigger] lines[k], m.id) {
            m.usage
        } else {
            None
        },
        _ => None,
    }
}

/// The output of the messages that some lines tell of, each message once.
pub open spec fn output_told(lines: Seq<ClaudeLineView>) -> int
    decreases lines.len(),
{
    if lines.len() == 0 {
        0
    } else {
        output_told(lines.drop_last()) + match newly_told(lines) {
            Some(u) => u.output as int,
            None => 0,
        }
    }
}

/// What the message that some lines tell of last used.
pub open spec fn last_told(lines: Seq<ClaudeLineView>) -> Option<Usage>
    decreases lines.len(),
{
    if lines.len() == 0 {
        None
    } else {
        match newly_told(lines) {
            Some(u) => Some(u),
            None => last_told(lines.drop_last()),
        }
    }
}

/// Whether the user starts no turn in some lines.
pub open spec fn within_turn(lines: Seq<ClaudeLineView>) -> bool {
    forall|k: int|
        0 <= k < lines.len() ==> !((#[trigger] lines[k]).event matches ClaudeEventView::UserText(
            ts,
            text,
            source,
        ) && starts_turn(text, source))
}

proof fn lemma_blocks_keep_usage(t: TurnView, blocks: Seq<BlockView>, end_turn: bool, ts: Seq<char>)
    ensures
        with_blocks(t, blocks, end_turn, ts).usage == t.usage,
        with_blocks(t, blocks, end_turn, ts).seen == t.seen,
    decreases blocks.len(),
{
    if blocks.len() > 0 {
        lemma_blocks_keep_usage(t, blocks.drop_last(), end_turn, ts);
    }
}

proof fn lemma_turn_usage(s: SessionView, lines: Seq<ClaudeLineView>)
    requires
        s.turn == fresh_turn(true, s.turn.user_ts, s.turn.user_content),
        within_turn(lines),
    ensures
        ({
            let turn = session_from(s, lines).turn;
            &&& stands_for(turn.usage.output, output_told(lines))
            &&& match last_told(lines) {
                Some(u) => turn.usage.input == u.input && turn.usage.cache_read == u.cache_read
                    && turn.usage.cache_creation == u.cache_creation,
                None => turn.usage == s.turn.usage,
            }
            &&& forall|id: Seq<char>|
                id.len() > 0 ==> (#[trigger] turn.seen.contains(id) <==> exists|k: int|
                    0 <= k < lines.len() && is_of_message(#[trigger] lines[k], id))
        }),
    decreases lines.len(),
{
    if lines.len() > 0 {
        let rest = lines.drop_last();
        let before = session_from(s, rest).turn;
        let after = session_from(s, lines).turn;
        let line = lines.last();
        let n = lines.len() - 1;
        assert(within_turn(rest)) by {
            assert forall|k: int| 0 <= k < rest.len() implies !((
            #[trigger] rest[k]).event matches ClaudeEventView::UserText(ts, text, source)
                && starts_turn(text, source)) by {
                assert(rest[k] == lines[k]);
            }
        }
        assert(lines[n] == line);
        lemma_turn_usage(s, rest);
        assert(forall|k: int| 0 <= k < n ==> #[trigger] rest[k] == lines[k]);
        if let ClaudeEventView::Assistant(m) = line.event {
            lemma_blocks_keep_usage(with_usage(before, m), m.blocks, m.end_turn, m.ts);
            if m.id.len() > 0 {
                assert(before.seen.contains(m.id) <==> exists|k: int|
                    0 <= k < n && is_of_message(#[trigger] lines[k], m.id)) by {
                    if before.seen.contains(m.id) {
                        let k = choose|k: int|
                            0 <= k < rest.len() && is_of_message(#[trigger] rest[k], m.id);
                        assert(is_of_message(lines[k], m.id));
                    }
                    if exists|k: int| 0 <= k < n && is_of_message(#[trigger] lines[k], m.id) {
                        let k = choose|k: int| 0 <= k < n && is_of_message(#[trigger] lines[k], m.id);
                        assert(is_of_message(rest[k], m.id));
                    }
                }
            }
            if let Some(u) = newly_told(lines) {
                lemma_plus_stands(
                    before.usage.output,
                    output_told(rest),
                    u.output,
                    u.output as int,
                );
            }
        }
        assert forall|id: Seq<char>| id.len() > 0 implies (#[trigger] after.seen.contains(id)
            <==> exists|k: int| 0 <= k < lines.len() && is_of_message(#[trigger] lines[k], id)) by {
            if after.seen.contains(id) {
                if before.seen.contains(id) {
                    let k = choose|k: int|
                        0 <= k < rest.len() && is_of_message(#[trigger] rest[k], id);
                    assert(is_of_message(lines[k], id));
                } else {
                    assert(is_of_message(lines[n], id));
                }
            }
            if exists|k: int| 0 <= k < lines.len() && is_of_message(#[trigger] lines[k], id) {
                let k = choose|k: int|
                    0 <= k < lines.len() && is_of_message(#[trigger] lines[k], id);
                if k < n {
                    assert(is_of_message(rest[k], id));
                    assert(before.seen.contains(id));
                    let at = before.seen.index_of(id);
                    assert(after.seen[at] == id);
                } else if !before.seen.contains(id) {
                    assert(after.seen.last() == id);
                }
            }
        }
    }
}

/// The output of a turn is the sum of the output of its messages, where a count can hold
/// it: each message counts once, however many lines it has. The input and the cache are
/// those of the message that came last.
pub proof fn law_turn_output_adds_up(s: SessionView, lines: Seq<ClaudeLineView>)
    requires
        s.turn == fresh_turn(true, s.turn.user_ts, s.turn.user_content),
        within_turn(lines),
        i64::MIN <= output_told(lines) <= i64::MAX,
    ensures
        session_from(s, lines).turn.usage.output == output_told(lines),
        match last_told(lines) {
            Some(u) => {
                &&& session_from(s, lines).turn.usage.input == u.input
                &&& session_from(s, lines).turn.usage.cache_read == u.cache_read
                &&& session_from(s, lines).turn.usage.cache_creation == u.cache_creation
            },
            None => session_from(s, lines).turn.usage == s.turn.usage,
        },
{
    lemma_turn_usage(s, lines);
    lemma_stands_exactly(session_from(s, lines).turn.usage.output, output_told(lines));
}

/// Only what the user types ends a turn: without it no turn is added.
pub proof fn law_only_typing_ends_a_turn(s: SessionView, line: ClaudeLineView)
    requires
        !(line.event matches ClaudeEventView::UserText(ts, text, source) && starts_turn(
            text,
            source,
        )),
    ensures
        session_with(s, line).done == s.done,
        session_with(s, line).turn.open == s.turn.open,
{
    if let ClaudeEventView::Assistant(m) = line.event {
        lemma_blocks_keep_open(with_usage(s.turn, m), m.blocks, m.end_turn, m.ts);
    }
}

proof fn lemma_blocks_keep_open(t: TurnView, blocks: Seq<BlockView>, end_turn: bool, ts: Seq<char>)
    ensures
        with_blocks(t, blocks, end_turn, ts).open == t.open,
    decreases blocks.len(),
{
    if blocks.len() > 0 {
        lemma_blocks_keep_open(t, blocks.drop_last(), end_turn, ts);
    }
}

/// Text counts as an answer only where the message ends the turn.
pub proof fn law_only_the_last_message_answers(
    t: TurnView,
    blocks: Seq<BlockView>,
    ts: Seq<char>,
)
    ensures
        with_blocks(t, blocks, false, ts).assistant_texts == t.assistant_texts,
        with_blocks(t, blocks, false, ts).assistant_ts == t.assistant_ts,
    decreases blocks.len(),
{
    if blocks.len() > 0 {
        law_only_the_last_message_answers(t, blocks.drop_last(), ts);
    }
}

/// A session has no more turns than lines.
pub proof fn law_turns_are_few(lines: Seq<ClaudeLineView>, project: Option<Seq<char>>)
    ensures
        turns_of_lines(lines, project).len() <= lines.len(),
{
    lemma_done_are_few(lines, project);
}

proof fn lemma_done_are_few(lines: Seq<ClaudeLineView>, project: Option<Seq<char>>)
    ensures
        ({
            let s = session_after(lines, project);
            s.done.len() + if s.turn.open {
                1int
            } else {
                0int
            } <= lines.len()
        }),
    decreases lines.len(),
{
    if lines.len() > 0 {
        let before = session_after(lines.drop_last(), project);
        let line = lines.last();
        lemma_done_are_few(lines.drop_last(), project);
        if let ClaudeEventView::Assistant(m) = line.event {
            lemma_blocks_keep_open(with_usage(before.turn, m), m.blocks, m.end_turn, m.ts);
        }
    }
}

// ----------------------------------------------------------------------------- paths

/// The place of a component of a name, from a place on; the number of components where
/// there is none.
pub open spec fn component_at(parts: Seq<Seq<char>>, name: Seq<char>, i: int) -> int
    decreases parts.len() - i,
{
    if i < 0 || i >= parts.len() {
        parts.len() as int
    } else if parts[i] == name {
        i
    } else {
        component_at(parts, name, i + 1)
    }
}

fn find_component(parts: &Vec<String>, name: &str, from: usize) -> (r: usize)
    requires
        from <= parts@.len(),
    ensures
        r == component_at(texts(parts@), name@, from as int),
        from <= r <= parts@.len(),
{
    let ghost ts = texts(parts@);
    let mut i: usize = from;
    while i < parts.len()
        invariant
            from <= i <= parts@.len(),
            ts == texts(parts@),
            component_at(ts, name@, i as int) == component_at(ts, name@, from as int),
        decreases parts.len() - i,
    {
        proof {
            assert(ts[i as int] == parts@[i as int]@);
        }
        if str_eq(parts[i].as_str(), name) {
            return i;
        }
        i += 1;
    }
    i
}

/// The project that a directory below `projects` stands for. Its name is a path with
/// dashes; a home directory in front is left out.
pub open spec fn project_named(raw: Seq<char>) -> Seq<char> {
    let home = "-Users-"@;
    if has_prefix(raw, home) && split_of(raw.skip(home.len() as int), '-').len() >= 2 {
        join_of(split_of(raw.skip(home.len() as int), '-').drop_first(), "/"@)
    } else {
        raw
    }
}

/// The project of a session's file: named by the directory below `projects`.
pub open spec fn project_of(path: Seq<char>) -> Option<Seq<char>> {
    let parts = components_of(path);
    let i = component_at(parts, "projects"@, 0);
    if i + 1 < parts.len() {
        Some(project_named(parts[i + 1]))
    } else {
        None
    }
}

/// The project of a session's file.
pub fn extract_project_name(path: &str) -> (r: Option<String>)
    ensures
        opt_view(r) == project_of(path@),
{
    let parts = components(path);
    let i = find_component(&parts, "projects", 0);
    if i >= parts.len() || parts.len() - i < 2 {
        return None;
    }
    proof {
        assert(texts(parts@)[i + 1] == parts@[i + 1]@);
    }
    let raw: &str = parts[i + 1].as_str();
    if let Some(rest) = strip_prefix(raw, "-Users-") {
        let names = split(rest.as_str(), '-');
        if names.len() >= 2 {
            let tail = slice_from_one(&names);
            return Some(join_texts(tail.as_slice(), "/"));
        }
    }
    Some(raw.to_owned())
}

fn slice_from_one(v: &Vec<String>) -> (r: Vec<String>)
    requires
        v@.len() > 0,
    ensures
        texts(r@) == texts(v@).drop_first(),
{
    let mut out: Vec<String> = Vec::new();
    let mut i: usize = 1;
    while i < v.len()
        invariant
            1 <= i <= v@.len(),
            out@.len() == i - 1,
            forall|k: int| 0 <= k < i - 1 ==> (#[trigger] out@[k])@ == v@[k + 1]@,
        decreases v.len() - i,
    {
        out.push(v[i].clone());
        i += 1;
    }
    proof {
        assert(texts(out@) =~= texts(v@).drop_first());
    }
    out
}

/// The session of a file: for one below `subagents` the directory before that, else
/// the file's name without its extension.
pub open spec fn session_id_of(path: Seq<char>) -> Option<Seq<char>> {
    let parts = components_of(path);
    let i = component_at(parts, "subagents"@, 1);
    if i < parts.len() {
        Some(parts[i - 1])
    } else {
        match file_name_of(path) {
            Some(name) => Some(stem_of(name)),
            None => None,
        }
    }
}

/// The session of a file.
pub fn extract_session_id(path: &str) -> (r: Option<String>)
    ensures
        opt_view(r) == session_id_of(path@),
{
    let parts = components(path);
    if parts.len() > 1 {
        let i = find_component(&parts, "subagents", 1);
        if i < parts.len() {
            proof {
                assert(texts(parts@)[i - 1] == parts@[i - 1]@);
            }
            return Some(parts[i - 1].clone());
        }
    }
    match file_name(path) {
        Some(name) => Some(stem(name.as_str())),
        None => None,
    }
}

/// The directories to look for sessions in, in order: two in the home directory, and
/// those that are configured, with commas between them.
pub open spec fn project_dirs_of(
    home: Seq<char>,
    agent: Seq<char>,
    configured: Option<Seq<char>>,
) -> Seq<Seq<char>> {
    let own = seq![
        joined(joined(home, "."@ + agent), "projects"@),
        joined(joined(joined(home, ".config"@), agent), "projects"@),
    ];
    match configured {
        Some(list) => own + dirs_in(split_of(list, ',')),
        None => own,
    }
}

/// The directories that a list of names gives; blank names are passed over.
pub open spec fn dirs_in(names: Seq<Seq<char>>) -> Seq<Seq<char>>
    decreases names.len(),
{
    if names.len() == 0 {
        Seq::empty()
    } else {
        let before = dirs_in(names.drop_last());
        let name = trimmed(names.last());
        if name.len() == 0 {
            before
        } else {
            before.push(joined(name, "projects"@))
        }
    }
}

/// The directories to look for sessions in, in order.
pub fn claude_project_dirs(home: &str, names: &AgentNames, configured: &Option<String>) -> (r: Vec<
    String,
>)
    ensures
        texts(r@) == project_dirs_of(home@, names@.name, opt_view(*configured)),
{
    broadcast use lemma_texts_push;

    let mut out: Vec<String> = Vec::new();
    let agent = names.name.as_str();
    out.push(join(join(home, concat(".", agent).as_str()).as_str(), "projects"));
    out.push(join(join(join(home, ".config").as_str(), agent).as_str(), "projects"));
    let ghost own = texts(out@);
    proof {
        assert(own =~= project_dirs_of(home@, agent@, None));
    }
    if let Some(list) = configured {
        let names = split(list.as_str(), ',');
        let ghost all = texts(names@);
        let mut i: usize = 0;
        proof {
            assert(all.take(0) =~= Seq::empty());
            assert(own + dirs_in(all.take(0)) =~= own);
        }
        while i < names.len()
            invariant
                i <= names@.len(),
                all == texts(names@),
                texts(out@) =~= own + dirs_in(all.take(i as int)),
            decreases names.len() - i,
        {
            proof {
                assert(all.take(i + 1).drop_last() =~= all.take(i as int));
                assert(all.take(i + 1).last() == names@[i as int]@);
            }
            let name = trim(names[i].as_str());
            if !name.as_str().is_empty() {
                let dir = join(name.as_str(), "projects");
                let ghost dv = dir@;
                out.push(dir);
                proof {
                    assert((own + dirs_in(all.take(i as int))).push(dv) =~= own + dirs_in(
                        all.take(i as int),
                    ).push(dv));
                }
            }
            i += 1;
        }
        proof {
            assert(all.take(all.len() as int) =~= all);
        }
    }
    out
}

/// The place of the file that was changed last; of several the one that stands last.
pub open spec fn latest_of(times: Seq<i64>) -> Option<int>
    decreases times.len(),
{
    if times.len() == 0 {
        None
    } else {
        match latest_of(times.drop_last()) {
            None => Some(times.len() - 1),
            Some(i) => if times.last() >= times[i] {
                Some(times.len() - 1)
            } else {
                Some(i)
            },
        }
    }
}

/// The place of the file that was changed last; of several the one that stands last.
pub fn latest_file(times: &[i64]) -> (r: Option<usize>)
    ensures
        match r {
            Some(i) => latest_of(times@) == Some(i as int) && i < times@.len(),
            None => latest_of(times@) is None,
        },
{
    if times.len() == 0 {
        return None;
    }
    let mut best: usize = 0;
    let mut i: usize = 1;
    proof {
        assert(times@.take(1).drop_last() =~= Seq::empty());
        assert(latest_of(Seq::<i64>::empty()) is None);
    }
    while i < times.len()
        invariant
            1 <= i <= times@.len(),
            best < i,
            latest_of(times@.take(i as int)) == Some(best as int),
        decreases times.len() - i,
    {
        proof {
            assert(times@.take(i + 1).drop_last() =~= times@.take(i as int));
        }
        if times[i] >= times[best] {
            best = i;
        }
        i += 1;
    }
    proof {
        assert(times@.take(times@.len() as int) =~= times@);
    }
    Some(best)
}

/// No file was changed later than the one that is taken.
pub proof fn law_latest_is_latest(times: Seq<i64>, i: int)
    requires
        0 <= i < times.len(),
    ensures
        latest_of(times) is Some,
        0 <= latest_of(times)->0 < times.len(),
        times[i] <= times[latest_of(times)->0],
    decreases times.len(),
{
    if times.len() > 1 {
        let before = times.drop_last();
        law_latest_is_latest(before, 0);
        if i < times.len() - 1 {
            law_latest_is_latest(before, i);
        }
    } else {
        assert(latest_of(times.drop_last()) is None);
    }
}

// ------------------------------------------------------------------------ what is used

/// What the turns of a session's file used: numbered from 1, each under the session
/// that the path names.
pub open spec fn usage_of_turns(turns: Seq<ParsedTurnView>, path: Seq<char>) -> Seq<UsageView> {
    let session = match session_id_of(path) {
        Some(id) => id,
        None => if turns.len() > 0 {
            turns[0].session_id
        } else {
            "unknown"@
        },
    };
    Seq::new(
        turns.len(),
        |i: int|
            UsageView {
                session_id: session,
                turn_index: (i + 1) as i64,
                model: turns[i].model,
                input: turns[i].input,
                output: turns[i].output,
                cache_read: turns[i].cache_read,
                cache_creation: turns[i].cache_creation,
                total: turns[i].total,
                repo_url: None,
                project_name: turns[i].project_name,
                user_prompts: text_unless_empty(turns[i].user_content),
                assistant_responses: text_unless_empty(turns[i].assistant_text),
                tool_uses: turns[i].tool_uses_json,
            },
    )
}

/// What the turns of a session's file used.
pub fn session_usage(turns: &Vec<ParsedTurn>, path: &str) -> (r: Vec<TokenUsageData>)
    ensures
        views(r@) == usage_of_turns(views(turns@), path@),
        r@.len() == turns@.len(),
        forall|i: int|
            0 <= i < turns@.len() && i < i64::MAX ==> (#[trigger] r@[i]).turn_index == i + 1,
        forall|i: int|
            0 <= i < turns@.len() ==> (#[trigger] r@[i]).input_tokens == turns@[i].input_tokens
                && r@[i].output_tokens == turns@[i].output_tokens && r@[i].cache_read_tokens
                == turns@[i].cache_read_tokens && r@[i].cache_creation_tokens
                == turns@[i].cache_creation_tokens && r@[i].total_tokens == turns@[i].total_tokens
                && r@[i].model@ == turns@[i].model@ && opt_view(r@[i].tool_uses) == opt_view(
                turns@[i].tool_uses_json,
            ) && r@[i].repo_url is None,
        forall|i: int|
            0 <= i < turns@.len() ==> opt_view((#[trigger] r@[i]).user_prompts) == (if turns@[i].user_content@.len()
                == 0 {
                None
            } else {
                Some(turns@[i].user_content@)
            }) && opt_view(r@[i].assistant_responses) == (if turns@[i].assistant_text@.len() == 0 {
                None
            } else {
                Some(turns@[i].assistant_text@)
            }),
        forall|i: int|
            0 <= i < turns@.len() ==> opt_view((#[trigger] r@[i]).project_name) == opt_view(
                turns@[i].project_name,
            ),
        forall|i: int|
            0 <= i < turns@.len() ==> (#[trigger] r@[i]).session_id@ == match session_id_of(path@) {
                Some(id) => id,
                None => turns@[0].session_id@,
            },
{
    let ghost ts = views(turns@);
    let session = match extract_session_id(path) {
        Some(id) => id,
        None => if turns.len() > 0 {
            proof {
                assert(ts[0] == turns@[0]@);
            }
            turns[0].session_id.clone()
        } else {
            "unknown".to_owned()
        },
    };
    let ghost want = usage_of_turns(ts, path@);
    let mut out: Vec<TokenUsageData> = Vec::new();
    let mut i: usize = 0;
    while i < turns.len()
        invariant
            i <= turns@.len(),
            ts == views(turns@),
            want == usage_of_turns(ts, path@),
            turns@.len() > 0 ==> forall|k: int| 0 <= k < ts.len() ==> (#[trigger] want[k]).session_id
                == session@,
            out@.len() == i,
            forall|k: int| 0 <= k < i ==> (#[trigger] out@[k])@ == want[k],
        decreases turns.len() - i,
    {
        let t = &turns[i];
        proof {
            assert(ts[i as int] == t@);
            assert(want[i as int].session_id == session@);
        }
        out.push(
            TokenUsageData {
                session_id: session.clone(),
                turn_index: (i + 1) as i64,
                model: t.model.clone(),
                input_tokens: t.input_tokens,
                output_tokens: t.output_tokens,
                cache_read_tokens: t.cache_read_tokens,
                cache_creation_tokens: t.cache_creation_tokens,
                total_tokens: t.total_tokens,
                repo_url: None,
                project_name: clone_option(&t.project_name),
                user_prompts: some_text(t.user_content.clone()),
                assistant_responses: some_text(t.assistant_text.clone()),
                tool_uses: clone_option(&t.tool_uses_json),
            },
        );
        i += 1;
    }
    proof {
        assert(views(out@) =~= want);
        assert forall|i: int| 0 <= i < turns@.len() implies (#[trigger] out@[i])@ == want[i] && ts[i]
            == turns@[i]@ by {}
    }
    out
}

/// What the session in a file used, from the file's text.
pub fn usage_from_content(content: &str, path: &str) -> (r: Vec<TokenUsageData>)
    ensures
        views(r@) == usage_of_turns(turns_of_content(content@, path@), path@),
{
    let turns = parse_turns_from_content(content, path);
    session_usage(&turns, path)
}

/// The turns of a session are numbered from 1 in order, so that the numbers strictly
/// increase, and once they are reported up to one of them just those behind it are left
/// to report.
pub proof fn law_turns_are_numbered(turns: Seq<ParsedTurnView>, path: Seq<char>, k: int)
    requires
        turns.len() <= i64::MAX,
        0 <= k <= turns.len(),
    ensures
        usage_of_turns(turns, path).len() == turns.len(),
        forall|i: int| 0 <= i < turns.len() ==> (#[trigger] usage_of_turns(turns, path)[i]).turn_index == i + 1,
        forall|i: int, j: int|
            0 <= i < j < turns.len() ==> (#[trigger] usage_of_turns(turns, path)[i]).turn_index < (
            #[trigger] usage_of_turns(turns, path)[j]).turn_index,
        unreported(usage_of_turns(turns, path), k) == usage_of_turns(turns, path).skip(k),
{
    law_turns_behind_the_last_are_left(usage_of_turns(turns, path), k);
}

} // verus!
