//! The replay of prompts: what is asked for, and how what was found is shown.

use crate::json::{
    JsonKind, json_compact, json_compact_of, json_items_of, json_keys, json_keys_of, json_kind,
    json_kind_of, json_text, json_text_of,
};
use crate::json_members::{
    Fields, FieldsView, alone, can_be_record, count_or_missing, field_count, field_in, field_text,
    fields_of, is_count_or_missing, is_optional, is_record, once_in, optional, put_alone,
    read_integer, read_text,
};
use crate::model::{lemma_views_push, opt_view, views};
use crate::text::{
    chars_of, concat, concat3, decimal, decimal_of, ends_with, has_prefix, has_suffix, is_digit,
    join, join_of, lemma_texts_push, lines, lines_of, parse_usize, signed_decimal,
    signed_decimal_of, split, split_of, split_once, split_once_of, starts_with, str_eq, string_of,
    strip_prefix, texts, trim, trimmed, unsigned_of, without_plus,
};
use vstd::prelude::*;
use vstd::string::*;

verus! {

// ------------------------------------------------------------------ arguments

/// What the arguments ask for.
pub struct ReplayArgs {
    pub keyword: String,
    pub top_k: usize,
    pub sort_by: String,
    pub json: bool,
    pub markdown: bool,
}

/// The model of what the arguments ask for.
pub struct ReplayArgsView {
    pub keyword: Seq<char>,
    pub top_k: nat,
    pub sort_by: Seq<char>,
    pub json: bool,
    pub markdown: bool,
}

impl View for ReplayArgs {
    type V = ReplayArgsView;

    open spec fn view(&self) -> ReplayArgsView {
        ReplayArgsView {
            keyword: self.keyword@,
            top_k: self.top_k as nat,
            sort_by: self.sort_by@,
            json: self.json,
            markdown: self.markdown,
        }
    }
}

/// A result by its model.
pub open spec fn replay_view(r: Result<ReplayArgs, String>) -> Result<ReplayArgsView, Seq<char>> {
    match r {
        Ok(a) => Ok(a@),
        Err(e) => Err(e@),
    }
}

/// What the options ask for, read from one of them on, with whether plain text was asked
/// for before it. JSON and plain text exclude each other.
pub open spec fn replay_options(
    args: Seq<Seq<char>>,
    i: int,
    a: ReplayArgsView,
    plain: bool,
) -> Result<ReplayArgsView, Seq<char>>
    decreases args.len() - i + 1,
{
    if i < 0 || i >= args.len() {
        Ok(a)
    } else if args[i] == "--top-k"@ {
        if i + 1 >= args.len() {
            Err("--top-k requires a value"@)
        } else {
            match unsigned_of(args[i + 1], usize::MAX as nat) {
                None => Err("--top-k must be a positive integer"@),
                Some(n) => if n == 0 {
                    Err("--top-k must be greater than 0"@)
                } else {
                    replay_options(args, i + 2, ReplayArgsView { top_k: n, ..a }, plain)
                },
            }
        }
    } else if args[i] == "--sort-by"@ {
        if i + 1 >= args.len() {
            Err("--sort-by requires a value (score or time)"@)
        } else if args[i + 1] != "score"@ && args[i + 1] != "time"@ {
            Err("--sort-by must be 'score' or 'time', got: "@ + args[i + 1])
        } else {
            replay_options(args, i + 2, ReplayArgsView { sort_by: args[i + 1], ..a }, plain)
        }
    } else if args[i] == "--json"@ {
        if plain {
            Err("--json and --plain are mutually exclusive"@)
        } else {
            replay_options(args, i + 1, ReplayArgsView { json: true, ..a }, plain)
        }
    } else if args[i] == "--markdown"@ {
        replay_options(args, i + 1, ReplayArgsView { markdown: true, ..a }, plain)
    } else if args[i] == "--plain"@ {
        if a.json {
            Err("--json and --plain are mutually exclusive"@)
        } else {
            replay_options(args, i + 1, ReplayArgsView { markdown: false, ..a }, true)
        }
    } else if has_prefix(args[i], "-"@) {
        Err("Unknown option: "@ + args[i])
    } else {
        replay_options(args, i + 1, a, plain)
    }
}

/// What is asked for without options.
pub open spec fn start_of_options(keyword: Seq<char>) -> ReplayArgsView {
    ReplayArgsView { keyword, top_k: 3, sort_by: "score"@, json: false, markdown: true }
}

/// What the arguments ask for: the subcommand, what is looked for, and the
/// options.
pub open spec fn replay_args_of(args: Seq<Seq<char>>) -> Result<ReplayArgsView, Seq<char>> {
    if args.len() == 0 {
        Err("Missing subcommand. Usage: prompt replay <keyword> [options]"@)
    } else if args[0] != "replay"@ {
        Err("Unknown subcommand: "@ + args[0] + ". Expected: replay"@)
    } else if args.len() < 2 {
        Err("Missing keyword argument. Usage: prompt replay <keyword> [options]"@)
    } else {
        replay_options(args, 2, start_of_options(args[1]), false)
    }
}

/// What the arguments ask for.
pub fn parse_args(args: &[String]) -> (r: Result<ReplayArgs, String>)
    ensures
        replay_view(r) == replay_args_of(texts(args@)),
{
    let ghost all = texts(args@);
    if args.len() == 0 {
        return Err("Missing subcommand. Usage: prompt replay <keyword> [options]".to_owned());
    }
    assert(all[0] == args@[0]@);
    if !str_eq(args[0].as_str(), "replay") {
        return Err(concat3("Unknown subcommand: ", args[0].as_str(), ". Expected: replay"));
    }
    if args.len() < 2 {
        return Err(
            "Missing keyword argument. Usage: prompt replay <keyword> [options]".to_owned(),
        );
    }
    assert(all[1] == args@[1]@);
    let mut a = ReplayArgs {
        keyword: args[1].clone(),
        top_k: 3,
        sort_by: "score".to_owned(),
        json: false,
        markdown: true,
    };
    let mut plain = false;
    let mut i: usize = 2;
    while i < args.len()
        invariant
            i <= args@.len(),
            all == texts(args@),
            replay_args_of(all) == replay_options(all, i as int, a@, plain),
        decreases args.len() - i,
    {
        let arg = args[i].as_str();
        assert(all[i as int] == arg@);
        if str_eq(arg, "--top-k") {
            if args.len() - i < 2 {
                return Err("--top-k requires a value".to_owned());
            }
            i += 1;
            assert(all[i as int] == args@[i as int]@);
            match parse_usize(args[i].as_str()) {
                None => {
                    return Err("--top-k must be a positive integer".to_owned());
                },
                Some(n) => {
                    if n == 0 {
                        return Err("--top-k must be greater than 0".to_owned());
                    }
                    a.top_k = n;
                },
            }
        } else if str_eq(arg, "--sort-by") {
            if args.len() - i < 2 {
                return Err("--sort-by requires a value (score or time)".to_owned());
            }
            i += 1;
            assert(all[i as int] == args@[i as int]@);
            let value = args[i].as_str();
            if !str_eq(value, "score") && !str_eq(value, "time") {
                return Err(concat("--sort-by must be 'score' or 'time', got: ", value));
            }
            a.sort_by = value.to_owned();
        } else if str_eq(arg, "--json") {
            if plain {
                return Err("--json and --plain are mutually exclusive".to_owned());
            }
            a.json = true;
        } else if str_eq(arg, "--markdown") {
            a.markdown = true;
        } else if str_eq(arg, "--plain") {
            if a.json {
                return Err("--json and --plain are mutually exclusive".to_owned());
            }
            a.markdown = false;
            plain = true;
        } else if starts_with(arg, "-") {
            return Err(concat("Unknown option: ", arg));
        }
        i += 1;
    }
    Ok(a)
}

/// How what was found is shown.
#[derive(Clone, Copy, PartialEq, Eq, Structural, Debug)]
pub enum ReplayOutput {
    Json,
    Markdown,
    Plain,
}

/// How what was found is shown.
pub fn replay_output(a: &ReplayArgs) -> (r: ReplayOutput)
    ensures
        r == (if a.json {
            ReplayOutput::Json
        } else if a.markdown {
            ReplayOutput::Markdown
        } else {
            ReplayOutput::Plain
        }),
{
    if a.json {
        ReplayOutput::Json
    } else if a.markdown {
        ReplayOutput::Markdown
    } else {
        ReplayOutput::Plain
    }
}

/// Where prompts are asked for.
pub fn replay_url(tracker_url: &str) -> (r: String)
    ensures
        r@ == tracker_url@ + "/ai-code-boost/open/report/prompt/replay"@,
{
    concat(tracker_url, "/ai-code-boost/open/report/prompt/replay")
}

/// What is complained of where the answer has another status than success.
pub fn status_failure(status_code: u16, body: &Option<String>) -> (r: Option<(String, String)>)
    ensures
        match r {
            None => status_code == 200,
            Some((first, second)) => {
                &&& status_code != 200
                &&& first@ == "Error: API returned status "@ + decimal_of(status_code as nat)
                &&& second@ == "       Response: "@ + (match *body {
                    Some(text) => text@,
                    None => "Unable to read response body"@,
                })
            },
        },
{
    if status_code == 200 {
        return None;
    }
    let text = match body {
        Some(text) => text.as_str(),
        None => "Unable to read response body",
    };
    Some(
        (
            concat("Error: API returned status ", decimal(status_code as u64).as_str()),
            concat("       Response: ", text),
        ),
    )
}

/// What is complained of where the answer says that something went wrong.
pub fn code_failure(code: i32, message: &str) -> (r: Option<(String, String)>)
    ensures
        match r {
            None => code == 200,
            Some((first, second)) => {
                &&& code != 200
                &&& first@ == "Error: API returned error code "@ + signed_decimal_of(code as int)
                &&& second@ == "       Message: "@ + message@
            },
        },
{
    if code == 200 {
        return None;
    }
    Some(
        (
            concat("Error: API returned error code ", signed_decimal(code as i64).as_str()),
            concat("       Message: ", message),
        ),
    )
}

// ------------------------------------------------------------------ a prompt's parts

/// A call of a tool: its number, the tool's name, and its arguments as texts.
pub struct ToolCall {
    pub order: i32,
    pub name: String,
    pub arguments: Vec<(String, String)>,
}

/// The model of a call of a tool.
#[verifier::ext_equal]
pub struct ToolCallView {
    pub order: i32,
    pub name: Seq<char>,
    pub arguments: Seq<(Seq<char>, Seq<char>)>,
}

/// The texts of pairs of strings.
pub open spec fn pair_texts(v: Seq<(String, String)>) -> Seq<(Seq<char>, Seq<char>)> {
    Seq::new(v.len(), |i: int| (v[i].0@, v[i].1@))
}

impl View for ToolCall {
    type V = ToolCallView;

    open spec fn view(&self) -> ToolCallView {
        ToolCallView {
            order: self.order,
            name: self.name@,
            arguments: pair_texts(self.arguments@),
        }
    }
}

/// A prompt in its parts: what the user asked, the tools that were called, and
/// what was answered.
pub struct PromptSections {
    pub user_query: String,
    pub tool_calls: Vec<ToolCall>,
    pub assistant_responses: String,
}

/// The model of a prompt in its parts.
pub struct PromptSectionsView {
    pub user_query: Seq<char>,
    pub tool_calls: Seq<ToolCallView>,
    pub assistant_responses: Seq<char>,
}

impl View for PromptSections {
    type V = PromptSectionsView;

    open spec fn view(&self) -> PromptSectionsView {
        PromptSectionsView {
            user_query: self.user_query@,
            tool_calls: views(self.tool_calls@),
            assistant_responses: self.assistant_responses@,
        }
    }
}

/// A key as it stands in a JSON pointer.
pub open spec fn pointer_key_of(key: Seq<char>) -> Seq<char>
    decreases key.len(),
{
    if key.len() == 0 {
        Seq::empty()
    } else {
        let before = pointer_key_of(key.drop_last());
        if key.last() == '~' {
            before + "~0"@
        } else if key.last() == '/' {
            before + "~1"@
        } else {
            before.push(key.last())
        }
    }
}

fn pointer_key(key: &str) -> (r: String)
    ensures
        r@ == pointer_key_of(key@),
{
    let v = chars_of(key);
    let mut r = String::new();
    let mut i: usize = 0;
    assert(v@.take(0) =~= Seq::empty());
    while i < v.len()
        invariant
            i <= v@.len(),
            r@ == pointer_key_of(v@.take(i as int)),
        decreases v.len() - i,
    {
        proof {
            assert(v@.take(i + 1).drop_last() =~= v@.take(i as int));
            assert(v@.take(i + 1).last() == v@[i as int]);
        }
        if v[i] == '~' {
            r.append("~0");
        } else if v[i] == '/' {
            r.append("~1");
        } else {
            r.push(v[i]);
        }
        i += 1;
    }
    assert(v@.take(v@.len() as int) =~= v@);
    r
}

/// The text of the value under a key: a string as it is, another value as
/// JSON.
pub open spec fn argument_of(json: Seq<char>, pointer: Seq<char>, key: Seq<char>) -> Seq<char> {
    let at = pointer + "/"@ + pointer_key_of(key);
    match json_text_of(json, at) {
        Some(text) => text,
        None => match json_compact_of(json, at) {
            Some(text) => text,
            None => Seq::empty(),
        },
    }
}

/// The texts of the values under some keys.
pub open spec fn arguments_of(json: Seq<char>, pointer: Seq<char>, keys: Seq<Seq<char>>) -> Seq<
    (Seq<char>, Seq<char>),
> {
    Seq::new(keys.len(), |i: int| (keys[i], argument_of(json, pointer, keys[i])))
}

/// Whether a text is the call of a tool: a record that names no field twice, with a number
/// and a name, and arguments of any kind; identifier and result may be missing.
pub open spec fn is_tool_call(text: Seq<char>) -> bool {
    let f = fields_of(text);
    let arguments = field_in(f, "arguments"@, 2);
    &&& is_record(text, 5, 5)
    &&& once_in(f, "order"@) && once_in(f, "name"@) && once_in(f, "arguments"@) && once_in(f, "id"@)
        && once_in(f, "result"@)
    &&& field_in(f, "order"@, 0) is Some && i32::MIN <= field_count(field_in(f, "order"@, 0))
        <= i32::MAX && count_or_missing(field_in(f, "order"@, 0))
    &&& field_text(field_in(f, "name"@, 1)) is Some
    &&& arguments is Some && json_kind_of(deep(arguments->0), "/0/0"@) is Some
    &&& optional(field_in(f, "id"@, 3), JsonKind::Text)
    &&& optional(field_in(f, "result"@, 4), JsonKind::Text)
}

/// A field of a record in a list, as deep in arrays as it stands in the list.
pub open spec fn deep(field: Seq<char>) -> Seq<char> {
    alone(alone(field))
}

/// The call of a tool that a text describes.
pub open spec fn tool_call_of(text: Seq<char>) -> Option<ToolCallView> {
    let f = fields_of(text);
    if is_tool_call(text) {
        let arguments = deep(field_in(f, "arguments"@, 2)->0);
        Some(
            ToolCallView {
                order: field_count(field_in(f, "order"@, 0)) as i32,
                name: field_text(field_in(f, "name"@, 1))->0,
                arguments: match json_keys_of(arguments, "/0/0"@) {
                    Some(keys) => arguments_of(arguments, "/0/0"@, keys),
                    None => Seq::empty(),
                },
            },
        )
    } else {
        None
    }
}

/// The first calls of tools that a list holds, if all of them can be read.
pub open spec fn tool_calls_upto(list: FieldsView, n: nat) -> Option<Seq<ToolCallView>>
    decreases n,
{
    if n == 0 {
        Some(Seq::empty())
    } else {
        match (tool_calls_upto(list, (n - 1) as nat), field_in(list, ""@, (n - 1) as nat)) {
            (Some(before), Some(item)) => match tool_call_of(item) {
                Some(call) => Some(before.push(call)),
                None => None,
            },
            _ => None,
        }
    }
}

/// The calls of tools that a JSON text lists; none where the text is no list
/// or one of them cannot be read.
pub open spec fn tool_calls_of(json: Seq<char>) -> Seq<ToolCallView> {
    match json_items_of(json) {
        Some(n) => match tool_calls_upto(fields_of(json), n) {
            Some(calls) => calls,
            None => Seq::empty(),
        },
        None => Seq::empty(),
    }
}

fn argument(json: &str, pointer: &str, key: &str) -> (r: String)
    ensures
        r@ == argument_of(json@, pointer@, key@),
{
    let at = concat3(pointer, "/", pointer_key(key).as_str());
    if let Some(text) = json_text(json, at.as_str()) {
        return text;
    }
    match json_compact(json, at.as_str()) {
        Some(text) => text,
        None => {
            let r = String::new();
            assert(r@ =~= Seq::empty());
            r
        },
    }
}

fn read_arguments(json: &str, pointer: &str) -> (r: Vec<(String, String)>)
    ensures
        pair_texts(r@) == (match json_keys_of(json@, pointer@) {
            Some(keys) => arguments_of(json@, pointer@, keys),
            None => Seq::empty(),
        }),
{
    let mut out: Vec<(String, String)> = Vec::new();
    let keys = match json_keys(json, pointer) {
        Some(keys) => keys,
        None => {
            assert(pair_texts(out@) =~= Seq::empty());
            return out;
        },
    };
    let ghost all = texts(keys@);
    let mut i: usize = 0;
    while i < keys.len()
        invariant
            i <= keys@.len(),
            all == texts(keys@),
            out@.len() == i,
            forall|j: int|
                0 <= j < i ==> #[trigger] pair_texts(out@)[j] == (
                    all[j],
                    argument_of(json@, pointer@, all[j]),
                ),
        decreases keys.len() - i,
    {
        let value = argument(json, pointer, keys[i].as_str());
        let key = keys[i].clone();
        let ghost before = pair_texts(out@);
        let ghost k = key@;
        let ghost v = value@;
        out.push((key, value));
        proof {
            assert(all[i as int] == k);
            assert(pair_texts(out@) =~= before.push((k, v)));
        }
        i += 1;
    }
    assert(pair_texts(out@) =~= arguments_of(json@, pointer@, all));
    out
}

fn read_tool_call(text: &str) -> (r: Option<ToolCall>)
    ensures
        opt_view(r) == tool_call_of(text@),
{
    let f = Fields::new(text);
    if !(can_be_record(text, 5, 5) && f.once("order") && f.once("name") && f.once("arguments")
        && f.once("id") && f.once("result") && is_optional(&f.get("id", 3), JsonKind::Text)
        && is_optional(&f.get("result", 4), JsonKind::Text)) {
        return None;
    }
    let number = f.get("order", 0);
    let order: i64 = read_integer(&number);
    if number.is_none() || !is_count_or_missing(&number) || order < -2147483648 || order
        > 2147483647 {
        return None;
    }
    let name = read_text(&f.get("name", 1))?;
    let given = f.get("arguments", 2)?;
    let arguments = put_alone(put_alone(given.as_str()).as_str());
    let _kind = json_kind(arguments.as_str(), "/0/0")?;
    Some(
        ToolCall {
            order: order as i32,
            name,
            arguments: read_arguments(arguments.as_str(), "/0/0"),
        },
    )
}

proof fn lemma_tool_calls_stay_unread(list: FieldsView, i: nat, n: nat)
    requires
        i <= n,
        tool_calls_upto(list, i) is None,
    ensures
        tool_calls_upto(list, n) is None,
    decreases n,
{
    if i < n {
        lemma_tool_calls_stay_unread(list, i, (n - 1) as nat);
    }
}

/// The calls of tools that a JSON text lists; none where the text is no list
/// or one of them cannot be read.
pub fn read_tool_calls(json: &str) -> (r: Vec<ToolCall>)
    ensures
        views(r@) == tool_calls_of(json@),
{
    let none: Vec<ToolCall> = Vec::new();
    assert(views(none@) =~= Seq::empty());
    let list = Fields::new(json);
    let n: usize = match list.items() {
        Some(n) => n,
        None => {
            return none;
        },
    };
    let mut out: Vec<ToolCall> = Vec::new();
    assert(views(out@) =~= Seq::empty());
    let mut i: usize = 0;
    while i < n
        invariant
            i <= n,
            list@ == fields_of(json@),
            json_items_of(json@) == Some(n as nat),
            views(none@) == Seq::<ToolCallView>::empty(),
            tool_calls_upto(list@, i as nat) == Some(views(out@)),
        decreases n - i,
    {
        let call = match list.get("", i) {
            Some(item) => read_tool_call(item.as_str()),
            None => None,
        };
        match call {
            Some(call) => {
                let ghost before = out@;
                let ghost added = call;
                out.push(call);
                proof {
                    lemma_views_push(before, added);
                }
            },
            None => {
                proof {
                    lemma_tool_calls_stay_unread(list@, (i + 1) as nat, n as nat);
                }
                return none;
            },
        }
        i += 1;
    }
    out
}

/// A prompt in its parts. What was asked stands before the mark for tools, and
/// what was answered behind the mark for answers.
pub open spec fn sections_of(text: Seq<char>) -> PromptSectionsView {
    match split_once_of(text, "\n\ntool_use: "@) {
        None => PromptSectionsView {
            user_query: trimmed(text),
            tool_calls: Seq::empty(),
            assistant_responses: Seq::empty(),
        },
        Some((query, rest)) => match split_once_of(rest, "\n\nassistant_responses: "@) {
            None => PromptSectionsView {
                user_query: trimmed(query),
                tool_calls: tool_calls_of(rest),
                assistant_responses: Seq::empty(),
            },
            Some((tools, answers)) => PromptSectionsView {
                user_query: trimmed(query),
                tool_calls: tool_calls_of(tools),
                assistant_responses: trimmed(answers),
            },
        },
    }
}

/// A prompt in its parts.
pub fn parse_prompt_text(text: &str) -> (r: PromptSections)
    ensures
        r@ == sections_of(text@),
{
    let empty = String::new();
    assert(empty@ =~= Seq::empty());
    match split_once(text, "\n\ntool_use: ") {
        None => {
            let calls: Vec<ToolCall> = Vec::new();
            assert(views(calls@) =~= Seq::empty());
            PromptSections {
                user_query: trim(text),
                tool_calls: calls,
                assistant_responses: empty,
            }
        },
        Some((query, rest)) => match split_once(rest.as_str(), "\n\nassistant_responses: ") {
            None => PromptSections {
                user_query: trim(query.as_str()),
                tool_calls: read_tool_calls(rest.as_str()),
                assistant_responses: empty,
            },
            Some((tools, answers)) => PromptSections {
                user_query: trim(query.as_str()),
                tool_calls: read_tool_calls(tools.as_str()),
                assistant_responses: trim(answers.as_str()),
            },
        },
    }
}

/// The arguments of a call, each under its name in a block of code.
pub open spec fn arguments_text(arguments: Seq<(Seq<char>, Seq<char>)>) -> Seq<char>
    decreases arguments.len(),
{
    if arguments.len() == 0 {
        Seq::empty()
    } else {
        let (key, value) = arguments.last();
        arguments_text(arguments.drop_last()) + "\n"@ + key + ":\n"@ + "````\n"@ + value
            + "\n````"@
    }
}

/// A call of a tool in Markdown.
pub open spec fn tool_call_text(call: ToolCallView) -> Seq<char> {
    "\n### "@ + signed_decimal_of(call.order as int) + " "@ + call.name + "\n"@ + arguments_text(
        call.arguments,
    )
}

/// A call of a tool in Markdown.
pub fn format_tool_call(call: &ToolCall) -> (r: String)
    ensures
        r@ == tool_call_text(call@),
{
    let mut md = concat("\n### ", signed_decimal(call.order as i64).as_str());
    md.append(" ");
    md.append(call.name.as_str());
    md.append("\n");
    let ghost start = md@;
    let ghost all = pair_texts(call.arguments@);
    let mut i: usize = 0;
    assert(all.take(0) =~= Seq::empty());
    assert(start + arguments_text(all.take(0)) =~= start);
    while i < call.arguments.len()
        invariant
            i <= call.arguments@.len(),
            all == pair_texts(call.arguments@),
            md@ == start + arguments_text(all.take(i as int)),
        decreases call.arguments.len() - i,
    {
        let pair = &call.arguments[i];
        let ghost before = arguments_text(all.take(i as int));
        proof {
            assert(all.take(i + 1).drop_last() =~= all.take(i as int));
            assert(all.take(i + 1).last() == (pair.0@, pair.1@));
        }
        md.append("\n");
        md.append(pair.0.as_str());
        md.append(":\n");
        md.append("````\n");
        md.append(pair.1.as_str());
        md.append("\n````");
        proof {
            assert(md@ =~= start + (before + "\n"@ + pair.0@ + ":\n"@ + "````\n"@ + pair.1@
                + "\n````"@));
        }
        i += 1;
    }
    assert(all.take(all.len() as int) =~= all);
    md
}

/// Some calls of tools in Markdown.
pub open spec fn tool_calls_text(calls: Seq<ToolCallView>) -> Seq<char>
    decreases calls.len(),
{
    if calls.len() == 0 {
        Seq::empty()
    } else {
        tool_calls_text(calls.drop_last()) + tool_call_text(calls.last())
    }
}

/// A prompt in Markdown. Parts that are empty are left out, but for what was
/// asked.
pub open spec fn sections_text(s: PromptSectionsView) -> Seq<char> {
    let query = "## 用户输入\n\n"@ + s.user_query;
    let tools = if s.tool_calls.len() > 0 {
        query + "\n\n## 相关工具使用\n"@ + tool_calls_text(s.tool_calls)
    } else {
        query
    };
    if s.assistant_responses.len() > 0 {
        tools + "\n\n## 最终回复\n\n"@ + s.assistant_responses
    } else {
        tools
    }
}

/// A prompt in Markdown.
pub fn format_prompt_sections(s: &PromptSections) -> (r: String)
    ensures
        r@ == sections_text(s@),
{
    let mut md = concat("## 用户输入\n\n", s.user_query.as_str());
    if s.tool_calls.len() > 0 {
        md.append("\n\n## 相关工具使用\n");
        let ghost start = md@;
        let ghost all = views(s.tool_calls@);
        let mut i: usize = 0;
        assert(all.take(0) =~= Seq::empty());
        assert(start + tool_calls_text(all.take(0)) =~= start);
        while i < s.tool_calls.len()
            invariant
                i <= s.tool_calls@.len(),
                all == views(s.tool_calls@),
                md@ == start + tool_calls_text(all.take(i as int)),
            decreases s.tool_calls.len() - i,
        {
            let ghost before = tool_calls_text(all.take(i as int));
            proof {
                assert(all.take(i + 1).drop_last() =~= all.take(i as int));
                assert(all.take(i + 1).last() == s.tool_calls@[i as int]@);
            }
            let text = format_tool_call(&s.tool_calls[i]);
            md.append(text.as_str());
            assert(md@ =~= start + (before + text@));
            i += 1;
        }
        assert(all.take(all.len() as int) =~= all);
    }
    if !s.assistant_responses.as_str().is_empty() {
        md.append("\n\n## 最终回复\n\n");
        md.append(s.assistant_responses.as_str());
    }
    md
}

// ------------------------------------------------------------------ the terminal

pub const CYAN: &'static str = "\x1b[36m";

pub const GREEN: &'static str = "\x1b[32m";

pub const BOLD: &'static str = "\x1b[1m";

pub const DIM: &'static str = "\x1b[2m";

pub const RESET: &'static str = "\x1b[0m";

/// The background of code.
pub const CODE_BG: &'static str = "\x1b[48;5;236m";

/// The foreground of code.
pub const CODE_FG: &'static str = "\x1b[38;5;252m";

pub const CODE_RESET: &'static str = "\x1b[0m";

/// A character again and again.
pub open spec fn repeated(c: char, n: nat) -> Seq<char> {
    Seq::new(n, |i: int| c)
}

fn push_repeated(s: &mut String, c: char, n: usize)
    ensures
        final(s)@ == old(s)@ + repeated(c, n as nat),
{
    let ghost start = s@;
    let mut i: usize = 0;
    assert(start + repeated(c, 0) =~= start);
    while i < n
        invariant
            i <= n,
            s@ == start + repeated(c, i as nat),
        decreases n - i,
    {
        s.push(c);
        i += 1;
        assert(s@ =~= start + repeated(c, i as nat));
    }
}

/// A line with spaces up to a width.
pub open spec fn padded(line: Seq<char>, width: nat) -> Seq<char> {
    if line.len() >= width {
        line
    } else {
        line + repeated(' ', (width - line.len()) as nat)
    }
}

/// A line with spaces up to the terminal's width.
pub fn pad_line_to_terminal_width(line: &str, width: usize) -> (r: String)
    ensures
        r@ == padded(line@, width as nat),
{
    let n: usize = chars_of(line).len();
    let mut r = line.to_owned();
    if n < width {
        push_repeated(&mut r, ' ', width - n);
    }
    r
}

/// The place at or after another at which a character stands, once or twice.
pub open spec fn closing(s: Seq<char>, c: char, twice: bool, i: int) -> Option<int>
    decreases s.len() - i,
{
    if i < 0 || i >= s.len() {
        None
    } else if s[i] == c && (!twice || (i + 1 < s.len() && s[i + 1] == c)) {
        Some(i)
    } else {
        closing(s, c, twice, i + 1)
    }
}

fn find_closing(v: &Vec<char>, c: char, twice: bool, from: usize) -> (r: Option<usize>)
    requires
        from <= v@.len(),
    ensures
        match r {
            Some(k) => closing(v@, c, twice, from as int) == Some(k as int) && from <= k < v@.len()
                && (twice ==> k + 1 < v@.len()),
            None => closing(v@, c, twice, from as int) is None,
        },
{
    let mut i: usize = from;
    while i < v.len()
        invariant
            from <= i <= v@.len(),
            closing(v@, c, twice, from as int) == closing(v@, c, twice, i as int),
        decreases v.len() - i,
    {
        if v[i] == c && (!twice || (v.len() - i > 1 && v[i + 1] == c)) {
            return Some(i);
        }
        i += 1;
    }
    None
}

/// A line, from a place on, with what stands between pairs of stars in bold and
/// what stands between backquotes as code. What is not closed stays as it is,
/// with all that follows.
pub open spec fn inline_from(s: Seq<char>, i: int) -> Seq<char>
    decreases s.len() - i,
{
    if i < 0 || i >= s.len() {
        Seq::empty()
    } else if s[i] == '*' && i + 1 < s.len() && s[i + 1] == '*' {
        match closing(s, '*', true, i + 2) {
            Some(k) => if i + 2 <= k && k + 2 <= s.len() {
                BOLD@ + s.subrange(i + 2, k) + RESET@ + inline_from(s, k + 2)
            } else {
                Seq::empty()
            },
            None => s.skip(i),
        }
    } else if s[i] == '`' {
        match closing(s, '`', false, i + 1) {
            Some(k) => if i + 1 <= k < s.len() {
                GREEN@ + s.subrange(i + 1, k) + RESET@ + inline_from(s, k + 1)
            } else {
                Seq::empty()
            },
            None => s.skip(i),
        }
    } else {
        seq![s[i]] + inline_from(s, i + 1)
    }
}

/// A line with its inline Markdown shown.
pub fn render_inline(text: &str) -> (r: String)
    ensures
        r@ == inline_from(text@, 0),
{
    let v = chars_of(text);
    let mut r = String::new();
    let mut i: usize = 0;
    assert(r@ + inline_from(v@, 0) =~= inline_from(v@, 0));
    while i < v.len()
        invariant
            i <= v@.len(),
            v@ == text@,
            inline_from(text@, 0) == r@ + inline_from(v@, i as int),
        decreases v.len() - i,
    {
        let ghost before = r@;
        if v[i] == '*' && v.len() - i > 1 && v[i + 1] == '*' {
            match find_closing(&v, '*', true, i + 2) {
                Some(k) => {
                    let bold = string_of(&v, i + 2, k);
                    r.append(BOLD);
                    r.append(bold.as_str());
                    r.append(RESET);
                    proof {
                        assert(before + (BOLD@ + bold@ + RESET@ + inline_from(v@, k + 2)) =~= r@
                            + inline_from(v@, k + 2));
                    }
                    i = k + 2;
                },
                None => {
                    let rest = string_of(&v, i, v.len());
                    r.append(rest.as_str());
                    assert(rest@ =~= v@.skip(i as int));
                    return r;
                },
            }
        } else if v[i] == '`' {
            match find_closing(&v, '`', false, i + 1) {
                Some(k) => {
                    let code = string_of(&v, i + 1, k);
                    r.append(GREEN);
                    r.append(code.as_str());
                    r.append(RESET);
                    proof {
                        assert(before + (GREEN@ + code@ + RESET@ + inline_from(v@, k + 1)) =~= r@
                            + inline_from(v@, k + 1));
                    }
                    i = k + 1;
                },
                None => {
                    let rest = string_of(&v, i, v.len());
                    r.append(rest.as_str());
                    assert(rest@ =~= v@.skip(i as int));
                    return r;
                },
            }
        } else {
            r.push(v[i]);
            proof {
                assert(before + (seq![v@[i as int]] + inline_from(v@, i + 1)) =~= r@ + inline_from(
                    v@,
                    i + 1,
                ));
            }
            i += 1;
        }
    }
    assert(r@ + inline_from(v@, i as int) =~= r@);
    r
}

/// Whether a line is a row of a table.
pub open spec fn is_table_row(line: Seq<char>) -> bool {
    has_prefix(trimmed(line), "|"@) && has_suffix(trimmed(line), "|"@)
}

/// What stands between the bars at the ends of a row.
pub open spec fn row_inner(row: Seq<char>) -> Seq<char> {
    if row.len() < 2 {
        Seq::empty()
    } else {
        row.subrange(1, row.len() - 1)
    }
}

/// The cells of a row, each trimmed.
pub open spec fn cells_of(row: Seq<char>) -> Seq<Seq<char>> {
    let parts = split_of(row_inner(row), '|');
    Seq::new(parts.len(), |i: int| trimmed(parts[i]))
}

/// Whether a cell belongs to the line under a table's head.
pub open spec fn is_rule_cell(cell: Seq<char>) -> bool {
    forall|i: int| 0 <= i < cell.len() ==> #[trigger] cell[i] == '-' || cell[i] == ':'
}

/// The length of the longest of some texts.
pub open spec fn longest(cells: Seq<Seq<char>>) -> nat
    decreases cells.len(),
{
    if cells.len() == 0 {
        0
    } else {
        let before = longest(cells.drop_last());
        if cells.last().len() > before {
            cells.last().len()
        } else {
            before
        }
    }
}

/// Some texts with their inline Markdown shown.
pub open spec fn inline_cells(cells: Seq<Seq<char>>) -> Seq<Seq<char>> {
    Seq::new(cells.len(), |i: int| inline_from(cells[i], 0))
}

/// A row of a table as it is shown: a line of the table's width under the
/// head, else the cells side by side.
pub open spec fn table_row_text(row: Seq<char>) -> Seq<char> {
    let cells = cells_of(row);
    if forall|i: int| 0 <= i < cells.len() ==> is_rule_cell(#[trigger] cells[i]) {
        DIM@ + "  │"@ + repeated('─', cells.len() * (longest(cells) + 3)) + RESET@ + "\n"@
    } else {
        DIM@ + "  │ "@ + join_of(inline_cells(cells), DIM@ + " │ "@ + RESET@ + DIM@) + RESET@
            + RESET@ + "\n"@
    }
}

fn all_rule_chars(cell: &str) -> (r: bool)
    ensures
        r == is_rule_cell(cell@),
{
    let v = chars_of(cell);
    let mut i: usize = 0;
    while i < v.len()
        invariant
            i <= v@.len(),
            v@ == cell@,
            forall|j: int| 0 <= j < i ==> #[trigger] cell@[j] == '-' || cell@[j] == ':',
        decreases v.len() - i,
    {
        if v[i] != '-' && v[i] != ':' {
            assert(cell@[i as int] == v@[i as int]);
            return false;
        }
        i += 1;
    }
    true
}

fn row_cells(row: &str) -> (r: Vec<String>)
    ensures
        texts(r@) == cells_of(row@),
{
    let v = chars_of(row);
    let inner = if v.len() < 2 {
        let r = String::new();
        assert(r@ =~= Seq::empty());
        r
    } else {
        string_of(&v, 1, v.len() - 1)
    };
    assert(inner@ == row_inner(row@));
    let parts = split(inner.as_str(), '|');
    let ghost all = texts(parts@);
    let mut out: Vec<String> = Vec::new();
    let mut i: usize = 0;
    while i < parts.len()
        invariant
            i <= parts@.len(),
            all == texts(parts@),
            out@.len() == i,
            forall|j: int| 0 <= j < i ==> #[trigger] texts(out@)[j] == trimmed(all[j]),
        decreases parts.len() - i,
    {
        assert(all[i as int] == parts@[i as int]@);
        let cell = trim(parts[i].as_str());
        let ghost before = out@;
        let ghost added = cell;
        out.push(cell);
        proof {
            lemma_texts_push(before, added);
        }
        i += 1;
    }
    assert(texts(out@) =~= cells_of(row@));
    out
}

fn are_rule_cells(cells: &Vec<String>) -> (r: bool)
    ensures
        r == (forall|i: int|
            0 <= i < texts(cells@).len() ==> is_rule_cell(#[trigger] texts(cells@)[i])),
{
    let mut i: usize = 0;
    while i < cells.len()
        invariant
            i <= cells@.len(),
            forall|j: int| 0 <= j < i ==> is_rule_cell(#[trigger] texts(cells@)[j]),
        decreases cells.len() - i,
    {
        assert(texts(cells@)[i as int] == cells@[i as int]@);
        if !all_rule_chars(cells[i].as_str()) {
            return false;
        }
        i += 1;
    }
    true
}

fn longest_cell(cells: &Vec<String>) -> (r: usize)
    ensures
        r == longest(texts(cells@)),
{
    let ghost all = texts(cells@);
    let mut best: usize = 0;
    let mut i: usize = 0;
    assert(all.take(0) =~= Seq::empty());
    while i < cells.len()
        invariant
            i <= cells@.len(),
            all == texts(cells@),
            best == longest(all.take(i as int)),
        decreases cells.len() - i,
    {
        proof {
            assert(all.take(i + 1).drop_last() =~= all.take(i as int));
            assert(all.take(i + 1).last() == cells@[i as int]@);
        }
        let n: usize = chars_of(cells[i].as_str()).len();
        if n > best {
            best = n;
        }
        i += 1;
    }
    assert(all.take(all.len() as int) =~= all);
    best
}

fn render_cells(cells: &Vec<String>) -> (r: Vec<String>)
    ensures
        texts(r@) == inline_cells(texts(cells@)),
{
    let ghost all = texts(cells@);
    let mut out: Vec<String> = Vec::new();
    let mut i: usize = 0;
    while i < cells.len()
        invariant
            i <= cells@.len(),
            all == texts(cells@),
            out@.len() == i,
            forall|j: int| 0 <= j < i ==> #[trigger] texts(out@)[j] == inline_from(all[j], 0),
        decreases cells.len() - i,
    {
        assert(all[i as int] == cells@[i as int]@);
        let cell = render_inline(cells[i].as_str());
        let ghost before = out@;
        let ghost added = cell;
        out.push(cell);
        proof {
            lemma_texts_push(before, added);
        }
        i += 1;
    }
    assert(texts(out@) =~= inline_cells(all));
    out
}

fn render_table_row(row: &str) -> (r: String)
    ensures
        r@ == table_row_text(row@),
{
    let cells = row_cells(row);
    if are_rule_cells(&cells) {
        let width: usize = longest_cell(&cells);
        let n: usize = cells.len();
        let mut r = concat(DIM, "  │");
        let ghost start = r@;
        let mut i: usize = 0;
        assert(start + repeated('─', 0) =~= start);
        while i < n
            invariant
                i <= n,
                r@ == start + repeated('─', (i * (width + 3)) as nat),
            decreases n - i,
        {
            push_repeated(&mut r, '─', width);
            push_repeated(&mut r, '─', 3);
            proof {
                assert((i + 1) * (width + 3) == i * (width + 3) + width + 3) by (nonlinear_arith);
                assert(i * (width + 3) >= 0) by (nonlinear_arith);
                assert(r@ =~= start + repeated('─', ((i + 1) * (width + 3)) as nat));
            }
            i += 1;
        }
        r.append(RESET);
        r.append("\n");
        return r;
    }
    let rendered = render_cells(&cells);
    let mut between = concat(DIM, " │ ");
    between.append(RESET);
    between.append(DIM);
    let joined = join(rendered.as_slice(), between.as_str());
    let mut r = concat(DIM, "  │ ");
    r.append(joined.as_str());
    r.append(RESET);
    r.append(RESET);
    r.append("\n");
    r
}

/// A line outside a block of code as it is shown.
pub open spec fn line_text(line: Seq<char>) -> Seq<char> {
    if trimmed(line) == "---"@ {
        DIM@ + "─────────────────────────────────────────────────"@ + RESET@ + RESET@ + "\n"@
    } else if is_table_row(line) {
        table_row_text(trimmed(line))
    } else if has_prefix(line, "#### "@) {
        BOLD@ + inline_from(line.skip("#### "@.len() as int), 0) + RESET@ + "\n"@
    } else if has_prefix(line, "### "@) {
        BOLD@ + CYAN@ + inline_from(line.skip("### "@.len() as int), 0) + RESET@ + "\n"@
    } else if has_prefix(line, "## "@) {
        BOLD@ + CYAN@ + inline_from(line.skip("## "@.len() as int), 0) + RESET@ + "\n"@
    } else if has_prefix(line, "# "@) {
        BOLD@ + CYAN@ + inline_from(line.skip("# "@.len() as int), 0) + RESET@ + "\n"@
    } else if has_prefix(line, "- "@) {
        "  "@ + CYAN@ + "•"@ + RESET@ + " "@ + inline_from(line.skip("- "@.len() as int), 0)
            + "\n"@
    } else {
        inline_from(line, 0) + "\n"@
    }
}

fn header_text(rest: &str, colored: bool) -> (r: String)
    ensures
        r@ == (if colored {
            BOLD@ + CYAN@
        } else {
            BOLD@
        }) + inline_from(rest@, 0) + RESET@ + "\n"@,
{
    let mut r = BOLD.to_owned();
    if colored {
        r.append(CYAN);
    }
    r.append(render_inline(rest).as_str());
    r.append(RESET);
    r.append("\n");
    r
}

/// A line outside a block of code as it is shown.
pub fn render_line(line: &str) -> (r: String)
    ensures
        r@ == line_text(line@),
{
    let bare = trim(line);
    if str_eq(bare.as_str(), "---") {
        let mut r = concat(DIM, "─────────────────────────────────────────────────");
        r.append(RESET);
        r.append(RESET);
        r.append("\n");
        return r;
    }
    if starts_with(bare.as_str(), "|") && ends_with(bare.as_str(), "|") {
        return render_table_row(bare.as_str());
    }
    if let Some(rest) = strip_prefix(line, "#### ") {
        return header_text(rest.as_str(), false);
    }
    if let Some(rest) = strip_prefix(line, "### ") {
        return header_text(rest.as_str(), true);
    }
    if let Some(rest) = strip_prefix(line, "## ") {
        return header_text(rest.as_str(), true);
    }
    if let Some(rest) = strip_prefix(line, "# ") {
        return header_text(rest.as_str(), true);
    }
    if let Some(rest) = strip_prefix(line, "- ") {
        let mut r = concat("  ", CYAN);
        r.append("•");
        r.append(RESET);
        r.append(" ");
        r.append(render_inline(rest.as_str()).as_str());
        r.append("\n");
        return r;
    }
    let mut r = render_inline(line);
    r.append("\n");
    r
}

/// Whether a line opens or closes a block of code.
pub open spec fn is_fence(line: Seq<char>) -> bool {
    has_prefix(trimmed(line), "```"@)
}

/// Whether the line behind the given ones stands in a block of code.
pub open spec fn in_block(lines: Seq<Seq<char>>) -> bool
    decreases lines.len(),
{
    if lines.len() == 0 {
        false
    } else if is_fence(lines.last()) {
        !in_block(lines.drop_last())
    } else {
        in_block(lines.drop_last())
    }
}

/// Some lines as they are shown.
pub open spec fn shown_lines(lines: Seq<Seq<char>>, width: nat) -> Seq<char>
    decreases lines.len(),
{
    if lines.len() == 0 {
        Seq::empty()
    } else {
        let line = lines.last();
        let inside = in_block(lines.drop_last());
        shown_lines(lines.drop_last(), width) + if is_fence(line) {
            if inside {
                CODE_RESET@ + "\n"@
            } else {
                "\n"@
            }
        } else if inside {
            CODE_BG@ + CODE_FG@ + padded(line, width) + CODE_RESET@ + "\n"@
        } else {
            line_text(line)
        }
    }
}

/// Markdown as it is shown on a terminal of a given width. A block of code that
/// is still open at the end is closed.
pub open spec fn markdown_text(text: Seq<char>, width: nat) -> Seq<char> {
    let all = lines_of(text);
    if in_block(all) {
        shown_lines(all, width) + CODE_RESET@ + "\n"@
    } else {
        shown_lines(all, width)
    }
}

/// Markdown as it is shown on a terminal of a given width.
pub fn render_markdown(text: &str, width: usize) -> (r: String)
    ensures
        r@ == markdown_text(text@, width as nat),
{
    let all = lines(text);
    let ghost seen = texts(all@);
    let mut out = String::new();
    let mut inside = false;
    let mut i: usize = 0;
    proof {
        assert(seen.take(0) =~= Seq::empty());
        assert(out@ =~= Seq::empty());
    }
    while i < all.len()
        invariant
            i <= all@.len(),
            seen == texts(all@),
            inside == in_block(seen.take(i as int)),
            out@ == shown_lines(seen.take(i as int), width as nat),
        decreases all.len() - i,
    {
        let line = all[i].as_str();
        let ghost before = out@;
        proof {
            assert(seen.take(i + 1).drop_last() =~= seen.take(i as int));
            assert(seen.take(i + 1).last() == line@);
        }
        let bare = trim(line);
        if starts_with(bare.as_str(), "```") {
            if inside {
                out.append(CODE_RESET);
                out.append("\n");
                assert(out@ =~= before + (CODE_RESET@ + "\n"@));
            } else {
                out.append("\n");
            }
            inside = !inside;
        } else if inside {
            let wide = pad_line_to_terminal_width(line, width);
            out.append(CODE_BG);
            out.append(CODE_FG);
            out.append(wide.as_str());
            out.append(CODE_RESET);
            out.append("\n");
            assert(out@ =~= before + (CODE_BG@ + CODE_FG@ + wide@ + CODE_RESET@ + "\n"@));
        } else {
            let shown = render_line(line);
            out.append(shown.as_str());
        }
        i += 1;
    }
    assert(seen.take(seen.len() as int) =~= seen);
    if inside {
        out.append(CODE_RESET);
        out.append("\n");
    }
    out
}

/// A prompt as it is shown on a terminal of a given width.
pub fn render_prompt(prompt_text: &str, width: usize) -> (r: String)
    ensures
        r@ == markdown_text(sections_text(sections_of(prompt_text@)), width as nat),
{
    let sections = parse_prompt_text(prompt_text);
    let markdown = format_prompt_sections(&sections);
    render_markdown(markdown.as_str(), width)
}

// ------------------------------------------------------------------ laws

/// A line that was padded is as wide as the terminal, or as long as before.
pub proof fn law_padding_fills_the_line(line: Seq<char>, width: nat)
    ensures
        line.len() <= width ==> padded(line, width).len() == width,
        line.len() >= width ==> padded(line, width) == line,
        has_prefix(padded(line, width), line),
{
    assert(padded(line, width).take(line.len() as int) =~= line);
}

/// Text without stars and backquotes is shown as it is.
pub proof fn law_plain_text_stays(s: Seq<char>, i: int)
    requires
        0 <= i <= s.len(),
        forall|k: int| i <= k < s.len() ==> #[trigger] s[k] != '*' && s[k] != '`',
    ensures
        inline_from(s, i) == s.skip(i),
    decreases s.len() - i,
{
    if i < s.len() {
        law_plain_text_stays(s, i + 1);
        assert(seq![s[i]] + s.skip(i + 1) =~= s.skip(i));
    } else {
        assert(s.skip(i) =~= Seq::empty());
    }
}

/// The number of prompts that is asked for is never zero, and their order is
/// one of the two that there are.
pub proof fn law_replay_options_make_sense(args: Seq<Seq<char>>)
    ensures
        replay_args_of(args) matches Ok(a) ==> a.top_k > 0 && (a.sort_by == "score"@ || a.sort_by
            == "time"@) && a.keyword == args[1],
{
    if args.len() >= 2 {
        lemma_replay_options(args, 2, start_of_options(args[1]), false);
    }
}

/// JSON and plain text exclude each other: where both are asked for, in either order,
/// the arguments are refused.
pub proof fn law_json_and_plain_exclude_each_other(args: Seq<Seq<char>>, i: int, j: int)
    requires
        2 <= i < args.len(),
        2 <= j < args.len(),
        args[i] == "--json"@,
        args[j] == "--plain"@,
    ensures
        replay_args_of(args) is Err,
{
    lemma_replay_options(args, 2, start_of_options(args[1]), false);
    assert(asks_for(args, 2, "--json"@));
    assert(asks_for(args, 2, "--plain"@));
}

/// Whether an option stands among the arguments from one of them on.
pub open spec fn asks_for(args: Seq<Seq<char>>, i: int, option: Seq<char>) -> bool {
    exists|k: int| i <= k < args.len() && #[trigger] args[k] == option
}

proof fn lemma_replay_options(args: Seq<Seq<char>>, i: int, a: ReplayArgsView, plain: bool)
    requires
        0 <= i,
        a.top_k > 0,
        a.sort_by == "score"@ || a.sort_by == "time"@,
        !(a.json && plain),
    ensures
        replay_options(args, i, a, plain) matches Ok(b) ==> {
            &&& b.top_k > 0
            &&& b.sort_by == "score"@ || b.sort_by == "time"@
            &&& b.keyword == a.keyword
            &&& !((a.json || asks_for(args, i, "--json"@)) && (plain || asks_for(
                args,
                i,
                "--plain"@,
            )))
        },
    decreases args.len() - i + 1,
{
    reveal_strlit("--json");
    reveal_strlit("--plain");
    reveal_strlit("--top-k");
    reveal_strlit("--sort-by");
    reveal_strlit("score");
    reveal_strlit("time");
    let json = "--json"@;
    let text = "--plain"@;
    assert(json.len() == 6 && text.len() == 7 && "--top-k"@.len() == 7 && "--sort-by"@.len() == 9);
    assert("score"@.len() == 5 && "time"@.len() == 4);
    assert(json[0] == '-' && text[0] == '-' && text[2] == 'p' && "--top-k"@[2] == 't');
    if 0 <= i < args.len() {
        if args[i] == "--top-k"@ {
            if i + 1 < args.len() {
                if let Some(n) = unsigned_of(args[i + 1], usize::MAX as nat) {
                    assert(!is_digit(json[0]) && !is_digit(text[0]));
                    assert(without_plus(json) == json && without_plus(text) == text);
                    if n > 0 {
                        lemma_replay_options(args, i + 2, ReplayArgsView { top_k: n, ..a }, plain);
                        lemma_asks_behind(args, i, i + 2, json);
                        lemma_asks_behind(args, i, i + 2, text);
                    }
                }
            }
        } else if args[i] == "--sort-by"@ {
            if i + 1 < args.len() {
                if args[i + 1] == "score"@ || args[i + 1] == "time"@ {
                    lemma_replay_options(
                        args,
                        i + 2,
                        ReplayArgsView { sort_by: args[i + 1], ..a },
                        plain,
                    );
                    assert("--sort-by"@ != json && "--sort-by"@ != text);
                    lemma_asks_behind(args, i, i + 2, json);
                    lemma_asks_behind(args, i, i + 2, text);
                }
            }
        } else {
            assert(json != text);
            if args[i] != json {
                lemma_asks_behind(args, i, i + 1, json);
            }
            if args[i] != text {
                lemma_asks_behind(args, i, i + 1, text);
            }
            if args[i] == json {
                if !plain {
                    lemma_replay_options(args, i + 1, ReplayArgsView { json: true, ..a }, plain);
                }
            } else if args[i] == "--markdown"@ {
                reveal_strlit("--markdown");
                assert("--markdown"@.len() == 10);
                lemma_replay_options(args, i + 1, ReplayArgsView { markdown: true, ..a }, plain);
            } else if args[i] == text {
                if !a.json {
                    let next = ReplayArgsView { markdown: false, ..a };
                    lemma_replay_options(args, i + 1, next, true);
                }
            } else {
                lemma_replay_options(args, i + 1, a, plain);
            }
        }
    }
}

proof fn lemma_asks_behind(args: Seq<Seq<char>>, i: int, j: int, option: Seq<char>)
    requires
        0 <= i <= j,
        forall|k: int| i <= k < j && k < args.len() ==> #[trigger] args[k] != option,
    ensures
        asks_for(args, i, option) ==> asks_for(args, j, option),
{
    if asks_for(args, i, option) {
        let k = choose|k: int| i <= k < args.len() && #[trigger] args[k] == option;
        assert(k >= j);
    }
}

} // verus!
