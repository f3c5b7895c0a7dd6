//! What the sessions of OpenCode used, turn by turn.
//!
//! A session is a list of messages, each with parts. A turn starts at a message of the
//! user; every message of the model names the user's message that it answers, or else
//! answers the last one before it.

use crate::commands::report_token_usage::{
    MAX_TOOL_RESULT_LEN, TokenUsageData, ToolUse, ToolUseView, UsageView, lemma_plus_stands,
    lemma_stands_exactly, plus, some_text, stands_for, text_unless_empty, tool_uses_json,
    tool_uses_json_of, total_of, total_tokens, truncate_str, truncated,
};
use crate::json::{JsonKind, json_compact, json_compact_of, json_text, json_text_of};
use crate::json_members::{
    Fields, alone, can_be_record, count_or_missing, field_count, field_in, field_text, fields_of,
    is_count_or_missing, is_null_or_missing, is_optional, is_record, is_value_or_missing,
    null_or_missing, once_in, optional, put_alone, read_integer, read_text, value_or_missing,
};
use crate::model::{lemma_views_push, opt_view, views};
use crate::text::{
    clone_option, concat, join, join_of, lemma_texts_push, list_contains, str_eq, texts, trim,
    trimmed,
};
use crate::text_map::TextMap;
use vstd::prelude::*;
use vstd::string::*;

verus! {

// ------------------------------------------------------------------------- messages

/// What a message of the model says that it used.
#[derive(Clone, Copy, PartialEq, Eq, Structural, Debug)]
pub struct MessageTokens {
    pub input: i64,
    pub output: i64,
    pub reasoning: i64,
    pub cache_read: i64,
    pub cache_write: i64,
}

/// A message of a session.
pub struct MessageData {
    pub role: Option<String>,
    pub parent_id: Option<String>,
    pub model_id: Option<String>,
    pub tokens: Option<MessageTokens>,
}

/// The texts and numbers of a message.
pub struct MessageDataView {
    pub role: Option<Seq<char>>,
    pub parent_id: Option<Seq<char>>,
    pub model_id: Option<Seq<char>>,
    pub tokens: Option<MessageTokens>,
}

impl View for MessageData {
    type V = MessageDataView;

    open spec fn view(&self) -> MessageDataView {
        MessageDataView {
            role: opt_view(self.role),
            parent_id: opt_view(self.parent_id),
            model_id: opt_view(self.model_id),
            tokens: self.tokens,
        }
    }
}

/// A part of a message: text, the call of a tool with its arguments as JSON, or
/// another.
pub struct PartData {
    pub part_type: Option<String>,
    pub text: Option<String>,
    pub call_id: Option<String>,
    pub tool: Option<String>,
    pub arguments: String,
    pub output: Option<String>,
}

/// The texts of a part of a message.
pub struct PartView {
    pub part_type: Option<Seq<char>>,
    pub text: Option<Seq<char>>,
    pub call_id: Option<Seq<char>>,
    pub tool: Option<Seq<char>>,
    pub arguments: Seq<char>,
    pub output: Option<Seq<char>>,
}

impl View for PartData {
    type V = PartView;

    open spec fn view(&self) -> PartView {
        PartView {
            part_type: opt_view(self.part_type),
            text: opt_view(self.text),
            call_id: opt_view(self.call_id),
            tool: opt_view(self.tool),
            arguments: self.arguments@,
            output: opt_view(self.output),
        }
    }
}

// --------------------------------------------------------------- messages from JSON

/// Whether a text holds the counts of a cache.
pub open spec fn is_cache(text: Seq<char>) -> bool {
    let f = fields_of(text);
    &&& is_record(text, 0, 2)
    &&& once_in(f, "read"@) && once_in(f, "write"@)
    &&& count_or_missing(field_in(f, "read"@, 0))
    &&& count_or_missing(field_in(f, "write"@, 1))
}

fn can_be_cache(text: &str) -> (r: bool)
    ensures
        r == is_cache(text@),
{
    let f = Fields::new(text);
    can_be_record(text, 0, 2) && f.once("read") && f.once("write") && is_count_or_missing(
        &f.get("read", 0),
    ) && is_count_or_missing(&f.get("write", 1))
}

/// The counts of a cache: what was read and what was written.
pub open spec fn cache_of(field: Option<Seq<char>>) -> (i64, i64) {
    if null_or_missing(field) {
        (0, 0)
    } else {
        let f = fields_of(field->0);
        (field_count(field_in(f, "read"@, 0)), field_count(field_in(f, "write"@, 1)))
    }
}

fn read_cache(field: &Option<String>) -> (r: (i64, i64))
    ensures
        r == cache_of(opt_view(*field)),
{
    if let Some(text) = field {
        if !is_null_or_missing(field) {
            let f = Fields::new(text.as_str());
            return (read_integer(&f.get("read", 0)), read_integer(&f.get("write", 1)));
        }
    }
    (0, 0)
}

/// Whether a text holds the counts of a message.
pub open spec fn is_tokens(text: Seq<char>) -> bool {
    let f = fields_of(text);
    let cache = field_in(f, "cache"@, 3);
    &&& is_record(text, 4, 4)
    &&& once_in(f, "input"@) && once_in(f, "output"@) && once_in(f, "reasoning"@) && once_in(
        f,
        "cache"@,
    )
    &&& count_or_missing(field_in(f, "input"@, 0))
    &&& count_or_missing(field_in(f, "output"@, 1))
    &&& count_or_missing(field_in(f, "reasoning"@, 2))
    &&& null_or_missing(cache) || is_cache(cache->0)
}

fn can_be_tokens(text: &str) -> (r: bool)
    ensures
        r == is_tokens(text@),
{
    let f = Fields::new(text);
    if !(can_be_record(text, 4, 4) && f.once("input") && f.once("output") && f.once("reasoning")
        && f.once("cache") && is_count_or_missing(&f.get("input", 0)) && is_count_or_missing(
        &f.get("output", 1),
    ) && is_count_or_missing(&f.get("reasoning", 2))) {
        return false;
    }
    let cache = f.get("cache", 3);
    if is_null_or_missing(&cache) {
        return true;
    }
    match &cache {
        Some(t) => can_be_cache(t.as_str()),
        None => true,
    }
}

/// The counts that a text holds.
pub open spec fn tokens_of(text: Seq<char>) -> MessageTokens {
    let f = fields_of(text);
    let cache = cache_of(field_in(f, "cache"@, 3));
    MessageTokens {
        input: field_count(field_in(f, "input"@, 0)),
        output: field_count(field_in(f, "output"@, 1)),
        reasoning: field_count(field_in(f, "reasoning"@, 2)),
        cache_read: cache.0,
        cache_write: cache.1,
    }
}

fn read_tokens(text: &str) -> (r: MessageTokens)
    ensures
        r == tokens_of(text@),
{
    let f = Fields::new(text);
    let (cache_read, cache_write): (i64, i64) = read_cache(&f.get("cache", 3));
    MessageTokens {
        input: read_integer(&f.get("input", 0)),
        output: read_integer(&f.get("output", 1)),
        reasoning: read_integer(&f.get("reasoning", 2)),
        cache_read,
        cache_write,
    }
}

/// Whether a text is a message: a record that names no field twice, with fields of the
/// right kinds.
pub open spec fn is_message(text: Seq<char>) -> bool {
    let f = fields_of(text);
    let tokens = field_in(f, "tokens"@, 3);
    &&& is_record(text, 4, 4)
    &&& once_in(f, "role"@) && once_in(f, "parentID"@) && once_in(f, "modelID"@) && once_in(
        f,
        "tokens"@,
    )
    &&& optional(field_in(f, "role"@, 0), JsonKind::Text)
    &&& optional(field_in(f, "parentID"@, 1), JsonKind::Text)
    &&& optional(field_in(f, "modelID"@, 2), JsonKind::Text)
    &&& null_or_missing(tokens) || is_tokens(tokens->0)
}

fn can_be_message(text: &str, f: &Fields) -> (r: bool)
    requires
        f@ == fields_of(text@),
    ensures
        r == is_message(text@),
{
    if !(can_be_record(text, 4, 4) && f.once("role") && f.once("parentID") && f.once("modelID")
        && f.once("tokens") && is_optional(&f.get("role", 0), JsonKind::Text) && is_optional(
        &f.get("parentID", 1),
        JsonKind::Text,
    ) && is_optional(&f.get("modelID", 2), JsonKind::Text)) {
        return false;
    }
    let tokens = f.get("tokens", 3);
    if is_null_or_missing(&tokens) {
        return true;
    }
    match &tokens {
        Some(t) => can_be_tokens(t.as_str()),
        None => true,
    }
}

/// The message that a text is, where it is one.
pub open spec fn message_of(text: Seq<char>) -> Option<MessageDataView> {
    let f = fields_of(text);
    let tokens = field_in(f, "tokens"@, 3);
    if is_message(text) {
        Some(
            MessageDataView {
                role: field_text(field_in(f, "role"@, 0)),
                parent_id: field_text(field_in(f, "parentID"@, 1)),
                model_id: field_text(field_in(f, "modelID"@, 2)),
                tokens: if null_or_missing(tokens) {
                    None
                } else {
                    Some(tokens_of(tokens->0))
                },
            },
        )
    } else {
        None
    }
}

/// The message that a text is, where it is one.
pub fn message_from_json(text: &str) -> (r: Option<MessageData>)
    ensures
        opt_view(r) == message_of(text@),
{
    let f = Fields::new(text);
    if !can_be_message(text, &f) {
        return None;
    }
    let counts = f.get("tokens", 3);
    let tokens = if is_null_or_missing(&counts) {
        None
    } else {
        match &counts {
            Some(t) => Some(read_tokens(t.as_str())),
            None => None,
        }
    };
    Some(
        MessageData {
            role: read_text(&f.get("role", 0)),
            parent_id: read_text(&f.get("parentID", 1)),
            model_id: read_text(&f.get("modelID", 2)),
            tokens,
        },
    )
}

/// Whether a text is a part of a message: a record that names no field twice, with fields
/// of the right kinds.
pub open spec fn is_part(text: Seq<char>) -> bool {
    let f = fields_of(text);
    &&& is_record(text, 5, 5)
    &&& once_in(f, "type"@) && once_in(f, "text"@) && once_in(f, "callID"@) && once_in(f, "tool"@)
        && once_in(f, "state"@)
    &&& optional(field_in(f, "type"@, 0), JsonKind::Text)
    &&& optional(field_in(f, "text"@, 1), JsonKind::Text)
    &&& optional(field_in(f, "callID"@, 2), JsonKind::Text)
    &&& optional(field_in(f, "tool"@, 3), JsonKind::Text)
    &&& value_or_missing(field_in(f, "state"@, 4))
}

fn can_be_part(text: &str, f: &Fields) -> (r: bool)
    requires
        f@ == fields_of(text@),
    ensures
        r == is_part(text@),
{
    can_be_record(text, 5, 5) && f.once("type") && f.once("text") && f.once("callID") && f.once(
        "tool",
    ) && f.once("state") && is_optional(&f.get("type", 0), JsonKind::Text) && is_optional(
        &f.get("text", 1),
        JsonKind::Text,
    ) && is_optional(&f.get("callID", 2), JsonKind::Text) && is_optional(
        &f.get("tool", 3),
        JsonKind::Text,
    ) && is_value_or_missing(&f.get("state", 4))
}

/// The arguments of a tool's call, as JSON, in its state.
pub open spec fn state_input(state: Option<Seq<char>>) -> Seq<char> {
    match state {
        Some(text) => match json_compact_of(alone(text), "/0/input"@) {
            Some(s) => s,
            None => "null"@,
        },
        None => "null"@,
    }
}

/// What a tool's call gave, in its state.
pub open spec fn state_output(state: Option<Seq<char>>) -> Option<Seq<char>> {
    match state {
        Some(text) => json_text_of(alone(text), "/0/output"@),
        None => None,
    }
}

fn read_state(state: &Option<String>) -> (r: (String, Option<String>))
    ensures
        r.0@ == state_input(opt_view(*state)),
        opt_view(r.1) == state_output(opt_view(*state)),
{
    match state {
        Some(text) => {
            let whole = put_alone(text.as_str());
            let input = match json_compact(whole.as_str(), "/0/input") {
                Some(s) => s,
                None => "null".to_owned(),
            };
            (input, json_text(whole.as_str(), "/0/output"))
        },
        None => ("null".to_owned(), None),
    }
}

/// The part of a message that a text is, where it is one.
pub open spec fn part_of(text: Seq<char>) -> Option<PartView> {
    let f = fields_of(text);
    if is_part(text) {
        Some(
            PartView {
                part_type: field_text(field_in(f, "type"@, 0)),
                text: field_text(field_in(f, "text"@, 1)),
                call_id: field_text(field_in(f, "callID"@, 2)),
                tool: field_text(field_in(f, "tool"@, 3)),
                arguments: state_input(field_in(f, "state"@, 4)),
                output: state_output(field_in(f, "state"@, 4)),
            },
        )
    } else {
        None
    }
}

/// The part of a message that a text is, where it is one.
pub fn part_from_json(text: &str) -> (r: Option<PartData>)
    ensures
        opt_view(r) == part_of(text@),
{
    let f = Fields::new(text);
    if !can_be_part(text, &f) {
        return None;
    }
    let (arguments, output) = read_state(&f.get("state", 4));
    Some(
        PartData {
            part_type: read_text(&f.get("type", 0)),
            text: read_text(&f.get("text", 1)),
            call_id: read_text(&f.get("callID", 2)),
            tool: read_text(&f.get("tool", 3)),
            arguments,
            output,
        },
    )
}

// ------------------------------------------------------------------------------- parts

/// The texts that are not empty, among parts of a message.
pub open spec fn part_texts(parts: Seq<PartView>) -> Seq<Seq<char>>
    decreases parts.len(),
{
    if parts.len() == 0 {
        Seq::empty()
    } else {
        let before = part_texts(parts.drop_last());
        let p = parts.last();
        if p.part_type == Some("text"@) && p.text is Some && p.text->0.len() > 0 {
            before.push(p.text->0)
        } else {
            before
        }
    }
}

/// The text of a message: its text parts, line by line.
pub open spec fn text_of_parts(parts: Seq<PartView>) -> Seq<char> {
    join_of(part_texts(parts), "\n"@)
}

fn is_type(part: &PartData, name: &str) -> (r: bool)
    ensures
        r == (part@.part_type == Some(name@)),
{
    match &part.part_type {
        Some(t) => str_eq(t.as_str(), name),
        None => false,
    }
}

/// The text of a message: its text parts, line by line.
pub fn collect_text(parts: &Vec<PartData>) -> (r: String)
    ensures
        r@ == text_of_parts(views(parts@)),
{
    broadcast use lemma_texts_push;

    let ghost all = views(parts@);
    let mut found: Vec<String> = Vec::new();
    let mut i: usize = 0;
    proof {
        assert(all.take(0) =~= Seq::empty());
        assert(texts(found@) =~= Seq::empty());
    }
    while i < parts.len()
        invariant
            i <= parts@.len(),
            all == views(parts@),
            texts(found@) == part_texts(all.take(i as int)),
        decreases parts.len() - i,
    {
        proof {
            assert(all.take(i + 1).drop_last() =~= all.take(i as int));
            assert(all.take(i + 1).last() == parts@[i as int]@);
        }
        if is_type(&parts[i], "text") {
            if let Some(t) = &parts[i].text {
                if !t.as_str().is_empty() {
                    found.push(t.clone());
                }
            }
        }
        i += 1;
    }
    proof {
        assert(all.take(all.len() as int) =~= all);
    }
    join(found.as_slice(), "\n")
}

/// A text, or the empty one.
pub open spec fn or_empty(s: Option<Seq<char>>) -> Seq<char> {
    match s {
        Some(t) => t,
        None => ""@,
    }
}

/// The call of a tool that a part is.
pub open spec fn call_of(p: PartView) -> ToolUseView {
    ToolUseView {
        name: or_empty(p.tool),
        id: or_empty(p.call_id),
        arguments: p.arguments,
        result: match p.output {
            Some(s) => Some(truncated(s, MAX_TOOL_RESULT_LEN as nat)),
            None => None,
        },
    }
}

/// The calls of tools among parts of a message.
pub open spec fn calls_of(parts: Seq<PartView>) -> Seq<ToolUseView>
    decreases parts.len(),
{
    if parts.len() == 0 {
        Seq::empty()
    } else {
        let before = calls_of(parts.drop_last());
        if parts.last().part_type == Some("tool"@) {
            before.push(call_of(parts.last()))
        } else {
            before
        }
    }
}

fn or_empty_text(s: &Option<String>) -> (r: String)
    ensures
        r@ == or_empty(opt_view(*s)),
{
    match s {
        Some(t) => t.clone(),
        None => "".to_owned(),
    }
}

/// Adds the calls of tools among parts of a message.
pub fn collect_tool_uses(parts: &Vec<PartData>, out: &mut Vec<ToolUse>)
    ensures
        views(final(out)@) == views(old(out)@) + calls_of(views(parts@)),
{
    let ghost all = views(parts@);
    let ghost start = views(out@);
    let mut i: usize = 0;
    proof {
        assert(all.take(0) =~= Seq::empty());
        assert(start + calls_of(all.take(0)) =~= start);
    }
    while i < parts.len()
        invariant
            i <= parts@.len(),
            all == views(parts@),
            views(out@) == start + calls_of(all.take(i as int)),
        decreases parts.len() - i,
    {
        proof {
            assert(all.take(i + 1).drop_last() =~= all.take(i as int));
            assert(all.take(i + 1).last() == parts@[i as int]@);
        }
        if is_type(&parts[i], "tool") {
            let call = ToolUse {
                name: or_empty_text(&parts[i].tool),
                id: or_empty_text(&parts[i].call_id),
                arguments: parts[i].arguments.clone(),
                result: match &parts[i].output {
                    Some(s) => Some(truncate_str(s.as_str(), MAX_TOOL_RESULT_LEN)),
                    None => None,
                },
            };
            let ghost before = out@;
            out.push(call);
            proof {
                lemma_views_push(before, call);
                assert(call@ == call_of(parts@[i as int]@));
                assert((start + calls_of(all.take(i as int))).push(call@) =~= start + calls_of(
                    all.take(i as int),
                ).push(call@));
            }
        }
        i += 1;
    }
    proof {
        assert(all.take(all.len() as int) =~= all);
    }
}

// ------------------------------------------------------------------------------- turns

/// A message of a session with its parts.
pub struct MessageEntry {
    pub id: String,
    pub data: MessageData,
    pub parts: Vec<PartData>,
}

/// The texts of a message with its parts.
pub struct EntryView {
    pub id: Seq<char>,
    pub data: MessageDataView,
    pub parts: Seq<PartView>,
}

impl View for MessageEntry {
    type V = EntryView;

    open spec fn view(&self) -> EntryView {
        EntryView { id: self.id@, data: self.data@, parts: views(self.parts@) }
    }
}

/// What is gathered of a turn.
pub struct TurnAccumulator {
    pub user_content: String,
    /// Whether the model answered.
    pub answered: bool,
    /// The text of the last answer that has any.
    pub reply: String,
    pub calls: Vec<ToolUse>,
    pub input_tokens: i64,
    pub output_tokens: i64,
    pub cache_read: i64,
    pub cache_creation: i64,
    pub model: Option<String>,
}

/// The texts and numbers of what is gathered of a turn.
#[verifier::ext_equal]
pub struct AccView {
    pub user_content: Seq<char>,
    pub answered: bool,
    pub reply: Seq<char>,
    pub calls: Seq<ToolUseView>,
    pub input: i64,
    pub output: i64,
    pub cache_read: i64,
    pub cache_creation: i64,
    pub model: Option<Seq<char>>,
}

impl View for TurnAccumulator {
    type V = AccView;

    open spec fn view(&self) -> AccView {
        AccView {
            user_content: self.user_content@,
            answered: self.answered,
            reply: self.reply@,
            calls: views(self.calls@),
            input: self.input_tokens,
            output: self.output_tokens,
            cache_read: self.cache_read,
            cache_creation: self.cache_creation,
            model: opt_view(self.model),
        }
    }
}

/// A turn that was not answered yet.
pub open spec fn asked(user_content: Seq<char>, model: Option<Seq<char>>) -> AccView {
    AccView {
        user_content,
        answered: false,
        reply: ""@,
        calls: Seq::empty(),
        input: 0,
        output: 0,
        cache_read: 0,
        cache_creation: 0,
        model,
    }
}

fn new_accumulator(user_content: String, model: Option<String>) -> (r: TurnAccumulator)
    ensures
        r@ == asked(user_content@, opt_view(model)),
{
    let r = TurnAccumulator {
        user_content,
        answered: false,
        reply: "".to_owned(),
        calls: Vec::new(),
        input_tokens: 0,
        output_tokens: 0,
        cache_read: 0,
        cache_creation: 0,
        model,
    };
    proof {
        assert(r@ =~= asked(user_content@, opt_view(model)));
    }
    r
}

/// The turns that the user's messages start.
pub open spec fn turns_asked(messages: Seq<EntryView>) -> Seq<AccView>
    decreases messages.len(),
{
    if messages.len() == 0 {
        Seq::empty()
    } else {
        let before = turns_asked(messages.drop_last());
        let m = messages.last();
        if m.data.role == Some("user"@) {
            before.push(asked(text_of_parts(m.parts), m.data.model_id))
        } else {
            before
        }
    }
}

/// The turn that each of the user's messages starts.
pub open spec fn turn_by_message(messages: Seq<EntryView>) -> Map<Seq<char>, nat>
    decreases messages.len(),
{
    if messages.len() == 0 {
        Map::empty()
    } else {
        let before = turn_by_message(messages.drop_last());
        let m = messages.last();
        if m.data.role == Some("user"@) {
            before.insert(m.id, turns_asked(messages.drop_last()).len())
        } else {
            before
        }
    }
}

/// A turn with one more answer. What the model spent on reasoning counts as output.
pub open spec fn acc_with(acc: AccView, m: EntryView) -> AccView {
    let text = text_of_parts(m.parts);
    let counted = match m.data.tokens {
        Some(t) => AccView {
            input: plus(acc.input, t.input),
            output: plus(acc.output, plus(t.output, t.reasoning)),
            cache_read: plus(acc.cache_read, t.cache_read),
            cache_creation: plus(acc.cache_creation, t.cache_write),
            ..acc
        },
        None => acc,
    };
    AccView {
        answered: true,
        reply: if text.len() > 0 {
            text
        } else {
            acc.reply
        },
        calls: acc.calls + calls_of(m.parts),
        model: if m.data.model_id is Some && m.data.model_id->0.len() > 0 {
            m.data.model_id
        } else {
            acc.model
        },
        ..counted
    }
}

/// The turn that a message of the model answers: the one of the message that it names,
/// else the turn under way.
pub open spec fn answered_turn(
    m: EntryView,
    users: Map<Seq<char>, nat>,
    current: Option<nat>,
) -> Option<nat> {
    if m.data.parent_id is Some && users.dom().contains(m.data.parent_id->0) {
        Some(users[m.data.parent_id->0])
    } else {
        current
    }
}

/// The turn under way after some messages.
pub open spec fn turn_under_way(messages: Seq<EntryView>, users: Map<Seq<char>, nat>) -> Option<nat>
    decreases messages.len(),
{
    if messages.len() == 0 {
        None
    } else if messages.last().data.role == Some("user"@) {
        if users.dom().contains(messages.last().id) {
            Some(users[messages.last().id])
        } else {
            None
        }
    } else {
        turn_under_way(messages.drop_last(), users)
    }
}

/// The turns of a session with the answers among some messages.
pub open spec fn turns_answered(
    messages: Seq<EntryView>,
    users: Map<Seq<char>, nat>,
    turns: Seq<AccView>,
) -> Seq<AccView>
    decreases messages.len(),
{
    if messages.len() == 0 {
        turns
    } else {
        let before = turns_answered(messages.drop_last(), users, turns);
        let m = messages.last();
        if m.data.role == Some("assistant"@) {
            match answered_turn(m, users, turn_under_way(messages.drop_last(), users)) {
                Some(t) => if t < before.len() {
                    before.update(t as int, acc_with(before[t as int], m))
                } else {
                    before
                },
                None => before,
            }
        } else {
            before
        }
    }
}

/// The turns of a session, numbered from 1 by the user's messages. One that was never
/// answered and used nothing is left out; the others keep their numbers.
pub open spec fn usage_of_accs(
    accs: Seq<AccView>,
    session: Seq<char>,
    session_model: Option<Seq<char>>,
    repo_url: Option<Seq<char>>,
) -> Seq<UsageView>
    decreases accs.len(),
{
    if accs.len() == 0 {
        Seq::empty()
    } else {
        let before = usage_of_accs(accs.drop_last(), session, session_model, repo_url);
        let acc = accs.last();
        let total = total_of(acc.input, acc.output, acc.cache_read, acc.cache_creation);
        if !acc.answered && total == 0 {
            before
        } else {
            before.push(
                UsageView {
                    session_id: session,
                    turn_index: accs.len() as i64,
                    model: if acc.model is Some {
                        acc.model->0
                    } else if session_model is Some {
                        session_model->0
                    } else {
                        "unknown"@
                    },
                    input: acc.input,
                    output: acc.output,
                    cache_read: acc.cache_read,
                    cache_creation: acc.cache_creation,
                    total,
                    repo_url,
                    project_name: None,
                    user_prompts: text_unless_empty(acc.user_content),
                    assistant_responses: text_unless_empty(acc.reply),
                    tool_uses: tool_uses_json_of(acc.calls, true),
                },
            )
        }
    }
}

/// What the messages of a session used.
pub open spec fn usage_of_messages(
    messages: Seq<EntryView>,
    session: Seq<char>,
    session_model: Option<Seq<char>>,
    repo_url: Option<Seq<char>>,
) -> Seq<UsageView> {
    usage_of_accs(
        turns_answered(messages, turn_by_message(messages), turns_asked(messages)),
        session,
        session_model,
        repo_url,
    )
}

fn has_role(m: &MessageEntry, name: &str) -> (r: bool)
    ensures
        r == (m@.data.role == Some(name@)),
{
    match &m.data.role {
        Some(t) => str_eq(t.as_str(), name),
        None => false,
    }
}

/// The turns that the messages of a session name all exist.
proof fn lemma_turns_in_range(messages: Seq<EntryView>)
    ensures
        forall|id: Seq<char>|
            turn_by_message(messages).dom().contains(id) ==> (#[trigger] turn_by_message(
                messages,
            )[id]) < turns_asked(messages).len(),
    decreases messages.len(),
{
    if messages.len() > 0 {
        lemma_turns_in_range(messages.drop_last());
        let before = turn_by_message(messages.drop_last());
        assert forall|id: Seq<char>|
            turn_by_message(messages).dom().contains(id) implies (#[trigger] turn_by_message(
            messages,
        )[id]) < turns_asked(messages).len() by {
            if before.dom().contains(id) {
                assert(before[id] < turns_asked(messages.drop_last()).len());
            }
        }
    }
}

proof fn lemma_turns_answered_len(
    messages: Seq<EntryView>,
    users: Map<Seq<char>, nat>,
    turns: Seq<AccView>,
)
    ensures
        turns_answered(messages, users, turns).len() == turns.len(),
    decreases messages.len(),
{
    if messages.len() > 0 {
        lemma_turns_answered_len(messages.drop_last(), users, turns);
    }
}

fn ask_turns(messages: &Vec<MessageEntry>) -> (r: (Vec<TurnAccumulator>, TextMap<usize>))
    ensures
        views(r.0@) == turns_asked(views(messages@)),
        counts_of(r.1@) == turn_by_message(views(messages@)),
{
    let ghost all = views(messages@);
    let mut turns: Vec<TurnAccumulator> = Vec::new();
    let mut users: TextMap<usize> = TextMap::new();
    let mut i: usize = 0;
    proof {
        assert(all.take(0) =~= Seq::empty());
        assert(views(turns@) =~= Seq::empty());
        assert(counts_of(users@) =~= Map::empty());
    }
    while i < messages.len()
        invariant
            i <= messages@.len(),
            all == views(messages@),
            views(turns@) == turns_asked(all.take(i as int)),
            counts_of(users@) == turn_by_message(all.take(i as int)),
        decreases messages.len() - i,
    {
        let m = &messages[i];
        proof {
            assert(all.take(i + 1).drop_last() =~= all.take(i as int));
            assert(all.take(i + 1).last() == m@);
        }
        if has_role(m, "user") {
            let n: usize = turns.len();
            let ghost map0 = users@;
            users.insert(m.id.clone(), n);
            let acc = new_accumulator(collect_text(&m.parts), clone_option(&m.data.model_id));
            let ghost before = turns@;
            turns.push(acc);
            proof {
                lemma_views_push(before, acc);
                assert(counts_of(map0.insert(m.id@, n)) =~= counts_of(map0).insert(
                    m.id@,
                    n as nat,
                ));
            }
        }
        i += 1;
    }
    proof {
        assert(all.take(all.len() as int) =~= all);
    }
    (turns, users)
}

/// The numbers of a map of places.
pub open spec fn counts_of(m: Map<Seq<char>, usize>) -> Map<Seq<char>, nat> {
    m.map_values(|n: usize| n as nat)
}

fn add_answer(acc: TurnAccumulator, m: &MessageEntry) -> (r: TurnAccumulator)
    ensures
        r@ == acc_with(acc@, m@),
{
    let ghost was = acc@;
    let mut acc = acc;
    acc.answered = true;
    let text = collect_text(&m.parts);
    if !text.as_str().is_empty() {
        acc.reply = text;
    }
    let mut calls = acc.calls;
    collect_tool_uses(&m.parts, &mut calls);
    acc.calls = calls;
    if let Some(t) = m.data.tokens {
        acc.input_tokens = acc.input_tokens.wrapping_add(t.input);
        acc.output_tokens = acc.output_tokens.wrapping_add(t.output.wrapping_add(t.reasoning));
        acc.cache_read = acc.cache_read.wrapping_add(t.cache_read);
        acc.cache_creation = acc.cache_creation.wrapping_add(t.cache_write);
    }
    if let Some(model) = &m.data.model_id {
        if !model.as_str().is_empty() {
            acc.model = Some(model.clone());
        }
    }
    proof {
        assert(acc@ =~= acc_with(was, m@));
    }
    acc
}

fn answer_turn(turns: &mut Vec<TurnAccumulator>, i: usize, m: &MessageEntry)
    requires
        i < old(turns)@.len(),
    ensures
        final(turns)@.len() == old(turns)@.len(),
        views(final(turns)@) == views(old(turns)@).update(
            i as int,
            acc_with(views(old(turns)@)[i as int], m@),
        ),
{
    let ghost was = turns@;
    let mut acc = new_accumulator("".to_owned(), None);
    std::mem::swap(&mut turns[i], &mut acc);
    let acc = add_answer(acc, m);
    turns.set(i, acc);
    proof {
        assert(views(turns@) =~= views(was).update(i as int, acc_with(views(was)[i as int], m@)));
    }
}

fn answer_turns(
    messages: &Vec<MessageEntry>,
    users: &TextMap<usize>,
    turns: &mut Vec<TurnAccumulator>,
)
    requires
        forall|id: Seq<char>|
            users@.dom().contains(id) ==> (#[trigger] users@[id]) < old(turns)@.len(),
    ensures
        views(final(turns)@) == turns_answered(
            views(messages@),
            counts_of(users@),
            views(old(turns)@),
        ),
{
    let ghost all = views(messages@);
    let ghost start = views(turns@);
    let ghost places = counts_of(users@);
    let mut current: Option<usize> = None;
    let mut i: usize = 0;
    proof {
        assert(all.take(0) =~= Seq::empty());
        assert forall|id: Seq<char>| places.dom().contains(id) implies (#[trigger] places[id])
            < start.len() by {
            assert(users@[id] < turns@.len());
        }
    }
    while i < messages.len()
        invariant
            i <= messages@.len(),
            all == views(messages@),
            places == counts_of(users@),
            turns@.len() == start.len(),
            forall|id: Seq<char>| users@.dom().contains(id) ==> (#[trigger] users@[id])
                < start.len(),
            views(turns@) == turns_answered(all.take(i as int), places, start),
            match current {
                Some(t) => turn_under_way(all.take(i as int), places) == Some(t as nat) && t
                    < start.len(),
                None => turn_under_way(all.take(i as int), places) is None,
            },
        decreases messages.len() - i,
    {
        let m = &messages[i];
        proof {
            assert(all.take(i + 1).drop_last() =~= all.take(i as int));
            assert(all.take(i + 1).last() == m@);
        }
        if has_role(m, "user") {
            current =
            match users.get(m.id.as_str()) {
                Some(t) => Some(*t),
                None => None,
            };
            proof {
                reveal_strlit("user");
                reveal_strlit("assistant");
                assert("user"@.len() == 4);
                assert("assistant"@.len() == 9);
            }
        } else if has_role(m, "assistant") {
            let named: Option<usize> = match &m.data.parent_id {
                Some(id) => match users.get(id.as_str()) {
                    Some(t) => Some(*t),
                    None => None,
                },
                None => None,
            };
            let target: Option<usize> = if named.is_some() {
                named
            } else {
                current
            };
            if let Some(t) = target {
                answer_turn(turns, t, m);
            }
        }
        i += 1;
    }
    proof {
        assert(all.take(all.len() as int) =~= all);
    }
}

fn acc_usage(
    acc: &TurnAccumulator,
    number: usize,
    session: &str,
    session_model: &Option<String>,
    repo_url: &Option<String>,
    total: i64,
) -> (r: TokenUsageData)
    ensures
        r@ == (UsageView {
            session_id: session@,
            turn_index: number as i64,
            model: if acc@.model is Some {
                acc@.model->0
            } else if session_model is Some {
                opt_view(*session_model)->0
            } else {
                "unknown"@
            },
            input: acc@.input,
            output: acc@.output,
            cache_read: acc@.cache_read,
            cache_creation: acc@.cache_creation,
            total,
            repo_url: opt_view(*repo_url),
            project_name: None,
            user_prompts: text_unless_empty(acc@.user_content),
            assistant_responses: text_unless_empty(acc@.reply),
            tool_uses: tool_uses_json_of(acc@.calls, true),
        }),
{
    let model = match &acc.model {
        Some(s) => s.clone(),
        None => match session_model {
            Some(s) => s.clone(),
            None => "unknown".to_owned(),
        },
    };
    TokenUsageData {
        session_id: session.to_owned(),
        turn_index: number as i64,
        model,
        input_tokens: acc.input_tokens,
        output_tokens: acc.output_tokens,
        cache_read_tokens: acc.cache_read,
        cache_creation_tokens: acc.cache_creation,
        total_tokens: total,
        repo_url: clone_option(repo_url),
        project_name: None,
        user_prompts: some_text(acc.user_content.clone()),
        assistant_responses: some_text(acc.reply.clone()),
        tool_uses: tool_uses_json(&acc.calls, true),
    }
}

/// What the messages of a session used, turn by turn.
pub fn turns_from_messages(
    messages: &Vec<MessageEntry>,
    session: &str,
    session_model: &Option<String>,
    repo_url: &Option<String>,
) -> (r: Vec<TokenUsageData>)
    ensures
        views(r@) == usage_of_messages(
            views(messages@),
            session@,
            opt_view(*session_model),
            opt_view(*repo_url),
        ),
{
    let ghost ms = views(messages@);
    let (mut turns, users) = ask_turns(messages);
    proof {
        lemma_turns_in_range(ms);
        assert forall|id: Seq<char>| users@.dom().contains(id) implies (#[trigger] users@[id])
            < turns@.len() by {
            assert(counts_of(users@)[id] == users@[id]);
            assert(turn_by_message(ms).dom().contains(id));
        }
    }
    answer_turns(messages, &users, &mut turns);
    let ghost accs = views(turns@);
    let ghost sm = opt_view(*session_model);
    let ghost url = opt_view(*repo_url);
    let mut out: Vec<TokenUsageData> = Vec::new();
    let mut i: usize = 0;
    proof {
        assert(accs.take(0) =~= Seq::empty());
        assert(views(out@) =~= Seq::empty());
    }
    while i < turns.len()
        invariant
            i <= turns@.len(),
            accs == views(turns@),
            sm == opt_view(*session_model),
            url == opt_view(*repo_url),
            views(out@) == usage_of_accs(accs.take(i as int), session@, sm, url),
        decreases turns.len() - i,
    {
        let acc = &turns[i];
        proof {
            assert(accs.take(i + 1).drop_last() =~= accs.take(i as int));
            assert(accs.take(i + 1).last() == acc@);
        }
        let total = total_tokens(
            acc.input_tokens,
            acc.output_tokens,
            acc.cache_read,
            acc.cache_creation,
        );
        if acc.answered || total != 0 {
            let item = acc_usage(acc, i + 1, session, session_model, repo_url, total);
            let ghost before = out@;
            out.push(item);
            proof {
                lemma_views_push(before, item);
            }
        }
        i += 1;
    }
    proof {
        assert(accs.take(accs.len() as int) =~= accs);
    }
    out
}

// --------------------------------------------------------------------------------- laws

/// The messages that answer a turn, in order.
pub open spec fn answers_to(
    messages: Seq<EntryView>,
    users: Map<Seq<char>, nat>,
    turn: nat,
) -> Seq<EntryView>
    decreases messages.len(),
{
    if messages.len() == 0 {
        Seq::empty()
    } else {
        let before = answers_to(messages.drop_last(), users, turn);
        let m = messages.last();
        if m.data.role == Some("assistant"@) && answered_turn(
            m,
            users,
            turn_under_way(messages.drop_last(), users),
        ) == Some(turn) {
            before.push(m)
        } else {
            before
        }
    }
}

/// What some messages say that they used, as one kind of count adds up.
pub open spec fn used_by(messages: Seq<EntryView>, count: spec_fn(MessageTokens) -> int) -> int
    decreases messages.len(),
{
    if messages.len() == 0 {
        0
    } else {
        used_by(messages.drop_last(), count) + match messages.last().data.tokens {
            Some(t) => count(t),
            None => 0,
        }
    }
}

/// The tokens that went into the model.
pub open spec fn input_count() -> spec_fn(MessageTokens) -> int {
    |t: MessageTokens| t.input as int
}

/// The tokens that came out of the model, those of its reasoning with them.
pub open spec fn output_count() -> spec_fn(MessageTokens) -> int {
    |t: MessageTokens| t.output + t.reasoning
}

/// The tokens that were read from the cache.
pub open spec fn read_count() -> spec_fn(MessageTokens) -> int {
    |t: MessageTokens| t.cache_read as int
}

/// The tokens that were written to the cache.
pub open spec fn write_count() -> spec_fn(MessageTokens) -> int {
    |t: MessageTokens| t.cache_write as int
}

/// What is gathered of a turn stands for what its answers used.
proof fn lemma_turn_stands(
    messages: Seq<EntryView>,
    users: Map<Seq<char>, nat>,
    turns: Seq<AccView>,
    turn: nat,
)
    requires
        turn < turns.len(),
        turns[turn as int].input == 0,
        turns[turn as int].output == 0,
        turns[turn as int].cache_read == 0,
        turns[turn as int].cache_creation == 0,
        !turns[turn as int].answered,
    ensures
        ({
            let acc = turns_answered(messages, users, turns)[turn as int];
            let answers = answers_to(messages, users, turn);
            &&& stands_for(acc.input, used_by(answers, input_count()))
            &&& stands_for(acc.output, used_by(answers, output_count()))
            &&& stands_for(acc.cache_read, used_by(answers, read_count()))
            &&& stands_for(acc.cache_creation, used_by(answers, write_count()))
            &&& acc.answered == (answers.len() > 0)
            &&& acc.user_content == turns[turn as int].user_content
        }),
    decreases messages.len(),
{
    if messages.len() > 0 {
        let rest = messages.drop_last();
        let m = messages.last();
        let before = turns_answered(rest, users, turns)[turn as int];
        let earlier = answers_to(rest, users, turn);
        lemma_turn_stands(rest, users, turns, turn);
        lemma_turns_answered_len(rest, users, turns);
        if m.data.role == Some("assistant"@) && answered_turn(m, users, turn_under_way(rest, users))
            == Some(turn) {
            let answers = earlier.push(m);
            assert(answers.drop_last() =~= earlier);
            if let Some(t) = m.data.tokens {
                lemma_plus_stands(
                    before.input,
                    used_by(earlier, input_count()),
                    t.input,
                    t.input as int,
                );
                lemma_plus_stands(t.output, t.output as int, t.reasoning, t.reasoning as int);
                lemma_plus_stands(
                    before.output,
                    used_by(earlier, output_count()),
                    plus(t.output, t.reasoning),
                    t.output + t.reasoning,
                );
                lemma_plus_stands(
                    before.cache_read,
                    used_by(earlier, read_count()),
                    t.cache_read,
                    t.cache_read as int,
                );
                lemma_plus_stands(
                    before.cache_creation,
                    used_by(earlier, write_count()),
                    t.cache_write,
                    t.cache_write as int,
                );
            }
        }
    }
}

/// No turn was answered, and none has used anything, before the answers are read.
proof fn lemma_turns_start_empty(messages: Seq<EntryView>, turn: int)
    requires
        0 <= turn < turns_asked(messages).len(),
    ensures
        turns_asked(messages)[turn] == asked(
            turns_asked(messages)[turn].user_content,
            turns_asked(messages)[turn].model,
        ),
    decreases messages.len(),
{
    if messages.len() > 0 && turn < turns_asked(messages.drop_last()).len() {
        lemma_turns_start_empty(messages.drop_last(), turn);
    }
}

/// What a turn used is the sum over the messages that answer it, where a count can hold
/// the sum. No other message counts in it.
pub proof fn law_turn_is_sum_of_its_answers(messages: Seq<EntryView>, turn: nat)
    requires
        turn < turns_asked(messages).len(),
        ({
            let answers = answers_to(messages, turn_by_message(messages), turn);
            &&& i64::MIN <= used_by(answers, input_count()) <= i64::MAX
            &&& i64::MIN <= used_by(answers, output_count()) <= i64::MAX
            &&& i64::MIN <= used_by(answers, read_count()) <= i64::MAX
            &&& i64::MIN <= used_by(answers, write_count()) <= i64::MAX
        }),
    ensures
        ({
            let users = turn_by_message(messages);
            let acc = turns_answered(messages, users, turns_asked(messages))[turn as int];
            let answers = answers_to(messages, users, turn);
            &&& acc.input == used_by(answers, input_count())
            &&& acc.output == used_by(answers, output_count())
            &&& acc.cache_read == used_by(answers, read_count())
            &&& acc.cache_creation == used_by(answers, write_count())
            &&& acc.answered == (answers.len() > 0)
            &&& acc.user_content == turns_asked(messages)[turn as int].user_content
        }),
{
    let users = turn_by_message(messages);
    let turns = turns_asked(messages);
    let acc = turns_answered(messages, users, turns)[turn as int];
    let answers = answers_to(messages, users, turn);
    lemma_turns_start_empty(messages, turn as int);
    lemma_turn_stands(messages, users, turns, turn);
    lemma_stands_exactly(acc.input, used_by(answers, input_count()));
    lemma_stands_exactly(acc.output, used_by(answers, output_count()));
    lemma_stands_exactly(acc.cache_read, used_by(answers, read_count()));
    lemma_stands_exactly(acc.cache_creation, used_by(answers, write_count()));
}

/// A message of the model that names a message of the user answers the turn that this
/// one started, wherever the two stand.
pub proof fn law_named_message_is_answered(messages: Seq<EntryView>, i: int, j: int)
    requires
        0 <= i < messages.len(),
        0 <= j < messages.len(),
        messages[i].data.role == Some("user"@),
        messages[j].data.role == Some("assistant"@),
        messages[j].data.parent_id == Some(messages[i].id),
        forall|k: int|
            0 <= k < messages.len() && k != i && (#[trigger] messages[k]).data.role == Some("user"@)
                ==> messages[k].id != messages[i].id,
    ensures
        ({
            let users = turn_by_message(messages);
            let turn = turns_asked(messages.take(i)).len();
            &&& turn < turns_asked(messages).len()
            &&& turns_asked(messages)[turn as int].user_content == text_of_parts(messages[i].parts)
            &&& answers_to(messages, users, turn).contains(messages[j])
        }),
{
    let users = turn_by_message(messages);
    let turn = turns_asked(messages.take(i)).len();
    lemma_turn_of_message(messages, i, messages.len() as int);
    assert(messages.take(messages.len() as int) =~= messages);
    lemma_answer_is_listed(messages, users, turn, j, messages.len() as int);
}

proof fn lemma_turn_of_message(messages: Seq<EntryView>, i: int, n: int)
    requires
        0 <= i < n <= messages.len(),
        messages[i].data.role == Some("user"@),
        forall|k: int|
            0 <= k < messages.len() && k != i && (#[trigger] messages[k]).data.role == Some("user"@)
                ==> messages[k].id != messages[i].id,
    ensures
        ({
            let turn = turns_asked(messages.take(i)).len();
            let seen = messages.take(n);
            &&& turn < turns_asked(seen).len()
            &&& turns_asked(seen)[turn as int].user_content == text_of_parts(messages[i].parts)
            &&& turn_by_message(seen).dom().contains(messages[i].id)
            &&& turn_by_message(seen)[messages[i].id] == turn
        }),
    decreases n,
{
    assert(messages.take(n).drop_last() =~= messages.take(n - 1));
    assert(messages.take(n).last() == messages[n - 1]);
    if n - 1 > i {
        lemma_turn_of_message(messages, i, n - 1);
    }
}

proof fn lemma_answer_is_listed(
    messages: Seq<EntryView>,
    users: Map<Seq<char>, nat>,
    turn: nat,
    j: int,
    n: int,
)
    requires
        0 <= j < n <= messages.len(),
        messages[j].data.role == Some("assistant"@),
        messages[j].data.parent_id is Some,
        users.dom().contains(messages[j].data.parent_id->0),
        users[messages[j].data.parent_id->0] == turn,
    ensures
        answers_to(messages.take(n), users, turn).contains(messages[j]),
    decreases n,
{
    let rest = messages.take(n - 1);
    let before = answers_to(rest, users, turn);
    let now = answers_to(messages.take(n), users, turn);
    assert(messages.take(n).drop_last() =~= rest);
    assert(messages.take(n).last() == messages[n - 1]);
    if n - 1 > j {
        lemma_answer_is_listed(messages, users, turn, j, n - 1);
        let k = before.index_of(messages[j]);
        assert(now[k] == messages[j]);
    } else {
        assert(now.last() == messages[j]);
    }
}

/// Only text is shown: a part of another type, the model's reasoning among them, adds
/// nothing to what a message says.
pub proof fn law_only_text_parts_are_shown(parts: Seq<PartView>, i: int)
    requires
        0 <= i < parts.len(),
        parts[i].part_type != Some("text"@),
    ensures
        text_of_parts(parts.remove(i)) == text_of_parts(parts),
{
    lemma_part_removed(parts, i);
}

proof fn lemma_part_removed(parts: Seq<PartView>, i: int)
    requires
        0 <= i < parts.len(),
        parts[i].part_type != Some("text"@),
    ensures
        part_texts(parts.remove(i)) == part_texts(parts),
    decreases parts.len(),
{
    if i == parts.len() - 1 {
        assert(parts.remove(i) =~= parts.drop_last());
    } else {
        let rest = parts.drop_last();
        lemma_part_removed(rest, i);
        assert(parts.remove(i).drop_last() =~= rest.remove(i));
        assert(parts.remove(i).last() == parts.last());
    }
}

/// A turn that was not answered and used nothing is not reported.
pub proof fn law_unanswered_turns_are_not_reported(
    accs: Seq<AccView>,
    session: Seq<char>,
    session_model: Option<Seq<char>>,
    repo_url: Option<Seq<char>>,
    k: int,
)
    requires
        accs.len() <= i64::MAX,
        0 <= k < usage_of_accs(accs, session, session_model, repo_url).len(),
    ensures
        ({
            let u = usage_of_accs(accs, session, session_model, repo_url)[k];
            &&& 1 <= u.turn_index <= accs.len()
            &&& accs[u.turn_index - 1].answered || u.total != 0
        }),
    decreases accs.len(),
{
    if accs.len() > 0 {
        let before = usage_of_accs(accs.drop_last(), session, session_model, repo_url);
        if k < before.len() {
            law_unanswered_turns_are_not_reported(
                accs.drop_last(),
                session,
                session_model,
                repo_url,
                k,
            );
        }
    }
}

/// The numbers of the turns do not depend on which of them are left out: a turn that is
/// reported has the number of the user's message that started it.
pub proof fn law_numbers_are_stable(
    accs: Seq<AccView>,
    session: Seq<char>,
    session_model: Option<Seq<char>>,
    repo_url: Option<Seq<char>>,
    i: int,
)
    requires
        accs.len() <= i64::MAX,
        0 <= i < accs.len(),
        accs[i].answered,
    ensures
        exists|k: int|
            0 <= k < usage_of_accs(accs, session, session_model, repo_url).len() && (
            #[trigger] usage_of_accs(accs, session, session_model, repo_url)[k]).turn_index == i
                + 1 && usage_of_accs(accs, session, session_model, repo_url)[k].input
                == accs[i].input,
    decreases accs.len(),
{
    let all = usage_of_accs(accs, session, session_model, repo_url);
    let before = usage_of_accs(accs.drop_last(), session, session_model, repo_url);
    if i == accs.len() - 1 {
        let k = all.len() - 1;
        assert(all[k].turn_index == i + 1);
    } else {
        law_numbers_are_stable(accs.drop_last(), session, session_model, repo_url, i);
        let k = choose|k: int|
            0 <= k < before.len() && (#[trigger] before[k]).turn_index == i + 1 && before[k].input
                == accs.drop_last()[i].input;
        assert(all[k] == before[k]);
    }
}

// --------------------------------------------------------------------------------- rows

/// A row with a message: its name and its text.
pub struct Row {
    pub id: String,
    pub data: String,
}

impl View for Row {
    type V = (Seq<char>, Seq<char>);

    open spec fn view(&self) -> (Seq<char>, Seq<char>) {
        (self.id@, self.data@)
    }
}

/// The parts of a message, among rows with parts. Rows that hold none are passed over.
pub open spec fn parts_for(rows: Seq<(Seq<char>, Seq<char>)>, id: Seq<char>) -> Seq<PartView>
    decreases rows.len(),
{
    if rows.len() == 0 {
        Seq::empty()
    } else {
        let before = parts_for(rows.drop_last(), id);
        if rows.last().0 == id {
            match part_of(rows.last().1) {
                Some(p) => before.push(p),
                None => before,
            }
        } else {
            before
        }
    }
}

/// The names of the messages among rows with messages.
pub open spec fn names_of(entries: Seq<EntryView>) -> Seq<Seq<char>> {
    Seq::new(entries.len(), |i: int| entries[i].id)
}

/// The messages of a session with their parts, in order. Rows that hold none are passed
/// over; of two messages with one name the first has the parts.
pub open spec fn entries_of(
    messages: Seq<(Seq<char>, Seq<char>)>,
    parts: Seq<(Seq<char>, Seq<char>)>,
) -> Seq<EntryView>
    decreases messages.len(),
{
    if messages.len() == 0 {
        Seq::empty()
    } else {
        let before = entries_of(messages.drop_last(), parts);
        let (id, text) = messages.last();
        match message_of(text) {
            Some(data) => before.push(
                EntryView {
                    id,
                    data,
                    parts: if names_of(before).contains(id) {
                        Seq::empty()
                    } else {
                        parts_for(parts, id)
                    },
                },
            ),
            None => before,
        }
    }
}

fn parts_in(rows: &Vec<Row>, id: &str) -> (r: Vec<PartData>)
    ensures
        views(r@) == parts_for(views(rows@), id@),
{
    let ghost all = views(rows@);
    let mut out: Vec<PartData> = Vec::new();
    let mut i: usize = 0;
    proof {
        assert(all.take(0) =~= Seq::empty());
        assert(views(out@) =~= Seq::empty());
    }
    while i < rows.len()
        invariant
            i <= rows@.len(),
            all == views(rows@),
            views(out@) == parts_for(all.take(i as int), id@),
        decreases rows.len() - i,
    {
        proof {
            assert(all.take(i + 1).drop_last() =~= all.take(i as int));
            assert(all.take(i + 1).last() == rows@[i as int]@);
        }
        if str_eq(rows[i].id.as_str(), id) {
            if let Some(p) = part_from_json(rows[i].data.as_str()) {
                let ghost before = out@;
                let ghost pv = p;
                out.push(p);
                proof {
                    lemma_views_push(before, pv);
                }
            }
        }
        i += 1;
    }
    proof {
        assert(all.take(all.len() as int) =~= all);
    }
    out
}

/// The messages of a session with their parts, in order.
pub fn entries_from_rows(messages: &Vec<Row>, parts: &Vec<Row>) -> (r: Vec<MessageEntry>)
    ensures
        views(r@) == entries_of(views(messages@), views(parts@)),
{
    broadcast use lemma_texts_push;

    let ghost all = views(messages@);
    let ghost ps = views(parts@);
    let mut out: Vec<MessageEntry> = Vec::new();
    let mut names: Vec<String> = Vec::new();
    let mut i: usize = 0;
    proof {
        assert(all.take(0) =~= Seq::empty());
        assert(views(out@) =~= Seq::empty());
        assert(texts(names@) =~= names_of(views(out@)));
    }
    while i < messages.len()
        invariant
            i <= messages@.len(),
            all == views(messages@),
            ps == views(parts@),
            views(out@) == entries_of(all.take(i as int), ps),
            texts(names@) == names_of(views(out@)),
        decreases messages.len() - i,
    {
        let row = &messages[i];
        proof {
            assert(all.take(i + 1).drop_last() =~= all.take(i as int));
            assert(all.take(i + 1).last() == row@);
        }
        if let Some(data) = message_from_json(row.data.as_str()) {
            let found = if list_contains(names.as_slice(), row.id.as_str()) {
                let v: Vec<PartData> = Vec::new();
                proof {
                    assert(views(v@) =~= Seq::empty());
                }
                v
            } else {
                parts_in(parts, row.id.as_str())
            };
            let entry = MessageEntry { id: row.id.clone(), data, parts: found };
            let ghost before = out@;
            let ghost names0 = names@;
            let name = row.id.clone();
            out.push(entry);
            names.push(name);
            proof {
                lemma_views_push(before, entry);
                lemma_texts_push(names0, name);
                assert(texts(names@) =~= names_of(views(out@)));
            }
        }
        i += 1;
    }
    proof {
        assert(all.take(all.len() as int) =~= all);
    }
    out
}

/// A session: its model, as it is written.
pub struct SessionRow {
    pub directory: Option<String>,
    pub model: Option<String>,
}

/// The name of a model, as a session has it: the `id` of a JSON object, or the text
/// itself.
pub open spec fn model_column_of(raw: Seq<char>) -> Option<Seq<char>> {
    let t = trimmed(raw);
    if t.len() == 0 {
        None
    } else {
        match json_text_of(t, "/id"@) {
            Some(id) => if id.len() > 0 {
                Some(id)
            } else {
                Some(t)
            },
            None => Some(t),
        }
    }
}

/// The name of a model, as a session has it.
pub fn parse_model_column(raw: &str) -> (r: Option<String>)
    ensures
        opt_view(r) == model_column_of(raw@),
{
    let t = trim(raw);
    if t.as_str().is_empty() {
        return None;
    }
    if let Some(id) = json_text(t.as_str(), "/id") {
        if !id.as_str().is_empty() {
            return Some(id);
        }
    }
    Some(t)
}

/// What a session used, from the rows that a database holds of it. A session that is
/// not there used nothing.
pub fn turns_from_rows(
    session: &Option<SessionRow>,
    session_id: &str,
    messages: &Vec<Row>,
    parts: &Vec<Row>,
    repo_url: &Option<String>,
) -> (r: Vec<TokenUsageData>)
    ensures
        views(r@) == match session {
            Some(row) => usage_of_messages(
                entries_of(views(messages@), views(parts@)),
                session_id@,
                match row.model {
                    Some(m) => model_column_of(m@),
                    None => None,
                },
                opt_view(*repo_url),
            ),
            None => Seq::empty(),
        },
{
    match session {
        Some(row) => {
            let entries = entries_from_rows(messages, parts);
            let model = match &row.model {
                Some(m) => parse_model_column(m.as_str()),
                None => None,
            };
            turns_from_messages(&entries, session_id, &model, repo_url)
        },
        None => {
            let v: Vec<TokenUsageData> = Vec::new();
            proof {
                assert(views(v@) =~= Seq::empty());
            }
            v
        },
    }
}

/// The session that an argument names, where it is not blank.
pub fn named_session(arg: &Option<String>) -> (r: Option<String>)
    ensures
        opt_view(r) == match arg {
            Some(id) => if trimmed(id@).len() > 0 {
                Some(id@)
            } else {
                None
            },
            None => None,
        },
{
    match arg {
        Some(id) => if !trim(id.as_str()).as_str().is_empty() {
            Some(id.clone())
        } else {
            None
        },
        None => None,
    }
}

/// Whether a session's directory can be asked for its remote.
pub fn has_directory(session: &SessionRow) -> (r: bool)
    ensures
        r == match session.directory {
            Some(d) => trimmed(d@).len() > 0,
            None => false,
        },
{
    match &session.directory {
        Some(d) => !trim(d.as_str()).as_str().is_empty(),
        None => false,
    }
}

/// The key under which the turns of a session that were reported are kept.
pub fn state_key(session_id: &str) -> (r: String)
    ensures
        r@ == "opencode:"@ + session_id@,
{
    concat("opencode:", session_id)
}

} // verus!
