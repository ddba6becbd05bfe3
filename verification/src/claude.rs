//! The conversation with the assistant: messages, the token budget, the tools the
//! assistant is offered, and the reading of the streamed reply.
use vstd::prelude::*;
use vstd::string::*;
use vstd::utf8::encode_utf8;

use crate::json::{json_quoted, json_string_literal};
use crate::text::{join, utf8_len, starts_with, str_eq, str_starts_with};

verus! {

broadcast use vstd::string::group_string_axioms;

// ---------------------------------------------------------------------------
// Messages
// ---------------------------------------------------------------------------

/// The content of a message: a plain text, or any other JSON value held as
/// its compact JSON text (as `serde_json` writes it).
#[derive(Debug)]
pub enum MessageContent {
    Text(String),
    Json(String),
}

/// One turn of the conversation as it is sent to the Messages API.
#[derive(Debug)]
pub struct ClaudeMessage {
    pub role: String,
    pub content: MessageContent,
}

/// The JSON text of a content (`Value::to_string` of the content).
pub open spec fn content_json(c: MessageContent) -> Seq<char> {
    match c {
        MessageContent::Text(s) => json_quoted(s@),
        MessageContent::Json(t) => t@,
    }
}

/// The estimated tokens of one message: a quarter of the bytes of its JSON
/// content, rounded down.
pub open spec fn message_tokens(m: ClaudeMessage) -> nat {
    utf8_len(content_json(m.content)) / 4
}

/// The estimated tokens of a list of messages.
pub open spec fn tokens_of(ms: Seq<ClaudeMessage>) -> nat
    decreases ms.len(),
{
    if ms.len() == 0 {
        0
    } else {
        tokens_of(ms.drop_last()) + message_tokens(ms.last())
    }
}

/// A message that may open a conversation: a `user` turn whose content is a
/// text that does not start with `[` (so not a list of tool results).
pub open spec fn is_plain_user(m: ClaudeMessage) -> bool {
    &&& m.role@ == "user"@
    &&& m.content matches MessageContent::Text(s) && !starts_with(s@, "["@)
}

/// The least index `>= i` from which the messages fit in `max` (the
/// length, where nothing is left, when no message does).
pub open spec fn budget_start(ms: Seq<ClaudeMessage>, max: nat, i: int) -> int
    decreases ms.len() - i,
{
    if i >= ms.len() || tokens_of(ms.skip(i)) <= max {
        i
    } else {
        budget_start(ms, max, i + 1)
    }
}

/// The least index `>= i` holding a plain user message, or the length.
pub open spec fn first_plain_user(ms: Seq<ClaudeMessage>, i: int) -> int
    decreases ms.len() - i,
{
    if i >= ms.len() {
        ms.len() as int
    } else if is_plain_user(ms[i]) {
        i
    } else {
        first_plain_user(ms, i + 1)
    }
}

/// Where the trimmed conversation starts.
pub open spec fn trim_start(ms: Seq<ClaudeMessage>, max: nat) -> int {
    first_plain_user(ms, budget_start(ms, max, 0))
}

pub proof fn lemma_tokens_append(a: Seq<ClaudeMessage>, b: Seq<ClaudeMessage>)
    ensures
        tokens_of(a + b) == tokens_of(a) + tokens_of(b),
    decreases b.len(),
{
    if b.len() == 0 {
        assert(a + b =~= a);
    } else {
        lemma_tokens_append(a, b.drop_last());
        assert((a + b).drop_last() =~= a + b.drop_last());
    }
}

pub proof fn lemma_tokens_skip(ms: Seq<ClaudeMessage>, i: int)
    requires
        0 <= i < ms.len(),
    ensures
        tokens_of(ms.skip(i)) == message_tokens(ms[i]) + tokens_of(ms.skip(i + 1)),
        tokens_of(ms.skip(i)) <= tokens_of(ms),
{
    let one = seq![ms[i]];
    lemma_tokens_append(one, ms.skip(i + 1));
    assert(one + ms.skip(i + 1) =~= ms.skip(i));
    assert(one.drop_last() =~= Seq::<ClaudeMessage>::empty());
    assert(tokens_of(Seq::<ClaudeMessage>::empty()) == 0);
    assert(tokens_of(one) == message_tokens(ms[i]));
    lemma_tokens_append(ms.take(i), ms.skip(i));
    assert(ms.take(i) + ms.skip(i) =~= ms);
}

proof fn lemma_tokens_skip_mono(ms: Seq<ClaudeMessage>, i: int, j: int)
    requires
        0 <= i <= j <= ms.len(),
    ensures
        tokens_of(ms.skip(j)) <= tokens_of(ms.skip(i)),
    decreases j - i,
{
    if i < j {
        lemma_tokens_skip(ms, i);
        lemma_tokens_skip_mono(ms, i + 1, j);
    }
}

proof fn lemma_budget_start(ms: Seq<ClaudeMessage>, max: nat, i: int)
    requires
        0 <= i <= ms.len(),
        forall|j: int| 0 <= j < i ==> tokens_of(#[trigger] ms.skip(j)) > max,
    ensures
        i <= budget_start(ms, max, i) <= ms.len(),
        forall|j: int| 0 <= j < budget_start(ms, max, i) ==> tokens_of(#[trigger] ms.skip(j)) > max,
        tokens_of(ms.skip(budget_start(ms, max, i))) <= max,
    decreases ms.len() - i,
{
    if i >= ms.len() {
        assert(ms.skip(i) =~= Seq::<ClaudeMessage>::empty());
    } else if tokens_of(ms.skip(i)) > max {
        lemma_budget_start(ms, max, i + 1);
    }
}

proof fn lemma_first_plain_user(ms: Seq<ClaudeMessage>, i: int)
    requires
        0 <= i <= ms.len(),
    ensures
        i <= first_plain_user(ms, i) <= ms.len(),
        first_plain_user(ms, i) < ms.len() ==> is_plain_user(ms[first_plain_user(ms, i)]),
        forall|j: int| i <= j < first_plain_user(ms, i) ==> !is_plain_user(#[trigger] ms[j]),
    decreases ms.len() - i,
{
    if i < ms.len() && !is_plain_user(ms[i]) {
        lemma_first_plain_user(ms, i + 1);
    }
}

/// Trimming twice is trimming once: what trimming keeps already fits and
/// starts with a plain user message.
pub proof fn lemma_trim_idempotent(ms: Seq<ClaudeMessage>, max: nat)
    ensures
        ({
            let r = ms.skip(trim_start(ms, max));
            r.skip(trim_start(r, max)) == r
        }),
{
    assert(ms.skip(0) =~= ms);
    lemma_budget_start(ms, max, 0);
    let b = budget_start(ms, max, 0);
    lemma_first_plain_user(ms, b);
    let t = trim_start(ms, max);
    lemma_tokens_skip_mono(ms, b, t);
    let r = ms.skip(t);
    assert(r.skip(0) =~= r);
    assert(budget_start(r, max, 0) == 0);
    if r.len() > 0 {
        assert(r[0] == ms[t]);
    }
    assert(trim_start(r, max) == 0);
}

/// A larger budget keeps at least as much: the trimmed conversation for
/// the larger budget starts no later.
pub proof fn lemma_trim_budget_monotone(ms: Seq<ClaudeMessage>, small: nat, large: nat)
    requires
        small <= large,
    ensures
        trim_start(ms, large) <= trim_start(ms, small),
{
    lemma_budget_start(ms, small, 0);
    lemma_budget_start(ms, large, 0);
    let b1 = budget_start(ms, small, 0);
    let b2 = budget_start(ms, large, 0);
    if b2 > b1 {
        assert(tokens_of(ms.skip(b1)) > large);
    }
    lemma_first_plain_user(ms, b1);
    lemma_first_plain_user(ms, b2);
    let f1 = first_plain_user(ms, b1);
    let f2 = first_plain_user(ms, b2);
    if f1 < f2 {
        assert(!is_plain_user(ms[f1]));
    }
}

impl ClaudeMessage {
    /// The JSON text of the content (`Value::to_string`).
    pub fn content_json_text(&self) -> (r: String)
        ensures
            r@ == content_json(self.content),
    {
        match &self.content {
            MessageContent::Text(s) => json_string_literal(s.as_str()),
            MessageContent::Json(t) => t.clone(),
        }
    }

    /// The estimated tokens of this message.
    pub fn tokens(&self) -> (r: usize)
        ensures
            r == message_tokens(*self),
    {
        let t = self.content_json_text();
        t.as_str().len() / 4
    }

    /// Whether this message may open a conversation.
    pub fn is_plain_user(&self) -> (r: bool)
        ensures
            r == is_plain_user(*self),
    {
        if !str_eq(self.role.as_str(), "user") {
            return false;
        }
        match &self.content {
            MessageContent::Text(s) => !str_starts_with(s.as_str(), "["),
            MessageContent::Json(_) => false,
        }
    }
}

/// Estimate the token count of the messages (one token per four bytes of
/// each message's JSON content).
pub fn estimate_tokens(messages: &[ClaudeMessage]) -> (r: usize)
    requires
        tokens_of(messages@) <= usize::MAX,
    ensures
        r == tokens_of(messages@),
{
    let mut total: usize = 0;
    for i in 0..messages.len()
        invariant
            tokens_of(messages@) <= usize::MAX,
            total == tokens_of(messages@.take(i as int)),
    {
        proof {
            let t = messages@.take(i + 1);
            assert(t.drop_last() =~= messages@.take(i as int));
            lemma_tokens_append(messages@.take(i + 1), messages@.skip(i + 1));
            assert(messages@.take(i + 1) + messages@.skip(i + 1) =~= messages@);
        }
        total = total + messages[i].tokens();
    }
    proof {
        assert(messages@.take(messages@.len() as int) =~= messages@);
    }
    total
}

/// Trim the oldest messages to stay within `max_tokens`, and make the
/// result start with a plain user message.
///
/// The suffix kept starts at the first plain user message at or after the
/// earliest message from which the rest fits in the budget (nothing is
/// kept when not even the last message fits).
pub fn trim_messages(messages: Vec<ClaudeMessage>, max_tokens: usize) -> (r: Vec<ClaudeMessage>)
    requires
        tokens_of(messages@) <= usize::MAX,
    ensures
        r@ == messages@.skip(trim_start(messages@, max_tokens as nat)),
        r@.len() > 0 ==> is_plain_user(r@[0]),
        tokens_of(r@) <= max_tokens,
        forall|j: int|
            0 <= j < messages@.len() - r@.len() && is_plain_user(#[trigger] messages@[j])
                ==> tokens_of(messages@.skip(j)) > max_tokens,
{
    let mut messages = messages;
    let ghost ms = messages@;
    let n = messages.len();
    let mut remaining = estimate_tokens(messages.as_slice());
    let mut start: usize = 0;
    proof {
        assert(ms.skip(0) =~= ms);
    }
    while start < n && remaining > max_tokens
        invariant
            ms == messages@,
            n == ms.len(),
            start <= n,
            remaining == tokens_of(ms.skip(start as int)),
            budget_start(ms, max_tokens as nat, 0) == budget_start(
                ms,
                max_tokens as nat,
                start as int,
            ),
        decreases n - start,
    {
        proof {
            lemma_tokens_skip(ms, start as int);
        }
        remaining = remaining - messages[start].tokens();
        start = start + 1;
    }
    let ghost b = start as int;
    proof {
        assert(budget_start(ms, max_tokens as nat, b) == b);
    }
    while start < n && !messages[start].is_plain_user()
        invariant
            ms == messages@,
            n == ms.len(),
            b <= start <= n,
            first_plain_user(ms, b) == first_plain_user(ms, start as int),
        decreases n - start,
    {
        start = start + 1;
    }
    proof {
        assert(first_plain_user(ms, start as int) == start);
    }
    let r = messages.split_off(start);
    proof {
        assert(r@ =~= ms.skip(start as int));
        lemma_budget_start(ms, max_tokens as nat, 0);
        lemma_first_plain_user(ms, b);
        if start < n {
            assert(r@[0] == ms[start as int]);
        }
        lemma_tokens_skip_mono(ms, b, start as int);
        assert forall|j: int|
            0 <= j < ms.len() - r@.len() && is_plain_user(#[trigger] ms[j]) implies tokens_of(
            ms.skip(j),
        ) > max_tokens by {
            if j >= b {
                assert(!is_plain_user(ms[j]));
            } else {
                assert(tokens_of(ms.skip(j)) > max_tokens);
            }
        }
    }
    r
}

// ---------------------------------------------------------------------------
// Tool calls, results and stream events
// ---------------------------------------------------------------------------

/// A tool call that the assistant asked for; `input` is its JSON input.
#[derive(Debug)]
pub struct PendingToolCall {
    pub id: String,
    pub name: String,
    pub input: String,
}

/// A tool call with its texts as character sequences.
pub struct ToolCallView {
    pub id: Seq<char>,
    pub name: Seq<char>,
    pub input: Seq<char>,
}

impl View for PendingToolCall {
    type V = ToolCallView;

    open spec fn view(&self) -> ToolCallView {
        ToolCallView { id: self.id@, name: self.name@, input: self.input@ }
    }
}

/// What one streamed reply of the assistant amounts to.
#[derive(Debug)]
pub struct ChatResult {
    /// All the text the assistant wrote.
    pub text: String,
    /// The tool calls it asked for, in order.
    pub tool_uses: Vec<PendingToolCall>,
    /// The content blocks of the reply as a compact JSON array.
    pub full_content: String,
}

/// A piece of streamed text for the chat view of a task.
#[derive(Debug)]
pub struct StreamChunk {
    pub task_id: String,
    pub text: String,
}

/// The end of a reply that asked for no tool.
#[derive(Debug)]
pub struct StreamDone {
    pub task_id: String,
    pub full_text: String,
}

/// A failure of the conversation of a task.
#[derive(Debug)]
pub struct StreamError {
    pub task_id: String,
    pub error: String,
}

// ---------------------------------------------------------------------------
// Tools offered to the assistant
// ---------------------------------------------------------------------------

/// One input field of a tool.
#[derive(Debug)]
pub struct ToolParam {
    pub name: String,
    /// The JSON schema type: `"string"` or `"boolean"`.
    pub kind: String,
    pub description: String,
    pub required: bool,
}

/// A tool the assistant may ask for, with the fields of its input.
#[derive(Debug)]
pub struct ToolDefinition {
    pub name: String,
    pub description: String,
    pub params: Vec<ToolParam>,
}

/// The parameter `name` of type `kind`, described by `description`.
pub open spec fn param_is(
    p: ToolParam,
    name: Seq<char>,
    kind: Seq<char>,
    description: Seq<char>,
    required: bool,
) -> bool {
    p.name@ == name && p.kind@ == kind && p.description@ == description && p.required == required
}

fn param(name: &str, kind: &str, description: &str, required: bool) -> (r: ToolParam)
    ensures
        r.name@ == name@,
        r.kind@ == kind@,
        r.description@ == description@,
        r.required == required,
{
    ToolParam {
        name: String::from_str(name),
        kind: String::from_str(kind),
        description: String::from_str(description),
        required,
    }
}

/// The tools offered to the assistant: `execute_command`, `apply_diff` and
/// `read_file`, with their input fields.
pub fn tool_definitions() -> (r: Vec<ToolDefinition>)
    ensures
        r@.len() == 3,
        r@[0].name@ == "execute_command"@,
        r@[0].description@
            == "Run a shell command in the task's worktree. Use for running tests, builds, git operations, or any terminal command."@,
        r@[0].params@.len() == 2,
        param_is(r@[0].params@[0], "command"@, "string"@, "The shell command to execute"@, true),
        param_is(r@[0].params@[1], "rationale"@, "string"@, "Why this command is needed"@, true),
        r@[1].name@ == "apply_diff"@,
        r@[1].description@
            == "Apply a search-and-replace edit to a file in the worktree. Replaces exact search_block with replace_block in the specified file."@,
        r@[1].params@.len() == 4,
        param_is(
            r@[1].params@[0],
            "file_path"@,
            "string"@,
            "Relative path to the file within the worktree"@,
            true,
        ),
        param_is(
            r@[1].params@[1],
            "search_block"@,
            "string"@,
            "Exact existing content to replace (must match exactly)"@,
            true,
        ),
        param_is(r@[1].params@[2], "replace_block"@, "string"@, "Replacement content"@, true),
        param_is(r@[1].params@[3], "rationale"@, "string"@, "Why this change is needed"@, true),
        r@[2].name@ == "read_file"@,
        r@[2].description@ == "Read a file from the task's worktree. Returns file contents."@,
        r@[2].params@.len() == 3,
        param_is(
            r@[2].params@[0],
            "file_path"@,
            "string"@,
            "Relative path to the file within the worktree"@,
            true,
        ),
        param_is(
            r@[2].params@[1],
            "full"@,
            "boolean"@,
            "If true, return full file. Default false truncates at 200 lines."@,
            false,
        ),
        param_is(r@[2].params@[2], "rationale"@, "string"@, "Why this file is needed"@, true),
{
    let mut exec_params = Vec::new();
    exec_params.push(param("command", "string", "The shell command to execute", true));
    exec_params.push(param("rationale", "string", "Why this command is needed", true));
    let mut diff_params = Vec::new();
    diff_params.push(
        param("file_path", "string", "Relative path to the file within the worktree", true),
    );
    diff_params.push(
        param(
            "search_block",
            "string",
            "Exact existing content to replace (must match exactly)",
            true,
        ),
    );
    diff_params.push(param("replace_block", "string", "Replacement content", true));
    diff_params.push(param("rationale", "string", "Why this change is needed", true));
    let mut read_params = Vec::new();
    read_params.push(
        param("file_path", "string", "Relative path to the file within the worktree", true),
    );
    read_params.push(
        param(
            "full",
            "boolean",
            "If true, return full file. Default false truncates at 200 lines.",
            false,
        ),
    );
    read_params.push(param("rationale", "string", "Why this file is needed", true));
    let mut r = Vec::new();
    r.push(
        ToolDefinition {
            name: String::from_str("execute_command"),
            description: String::from_str(
                "Run a shell command in the task's worktree. Use for running tests, builds, git operations, or any terminal command.",
            ),
            params: exec_params,
        },
    );
    r.push(
        ToolDefinition {
            name: String::from_str("apply_diff"),
            description: String::from_str(
                "Apply a search-and-replace edit to a file in the worktree. Replaces exact search_block with replace_block in the specified file.",
            ),
            params: diff_params,
        },
    );
    r.push(
        ToolDefinition {
            name: String::from_str("read_file"),
            description: String::from_str(
                "Read a file from the task's worktree. Returns file contents.",
            ),
            params: read_params,
        },
    );
    r
}

/// The JSON schema entry of one input field: `"name":{"type":..,"description":..}`.
pub open spec fn param_json(p: ToolParam) -> Seq<char> {
    json_quoted(p.name@) + ":{\"type\":"@ + json_quoted(p.kind@) + ",\"description\":"@
        + json_quoted(p.description@) + "}"@
}

/// The quoted names of the required fields, in order.
pub open spec fn required_json(ps: Seq<ToolParam>) -> Seq<Seq<char>>
    decreases ps.len(),
{
    if ps.len() == 0 {
        seq![]
    } else if ps.last().required {
        required_json(ps.drop_last()).push(json_quoted(ps.last().name@))
    } else {
        required_json(ps.drop_last())
    }
}

/// The JSON object that offers a tool to the Messages API: its name, its
/// description and its input schema, an object with the fields as
/// properties and the list of the required ones.
pub open spec fn tool_json(t: ToolDefinition) -> Seq<char> {
    "{\"name\":"@ + json_quoted(t.name@) + ",\"description\":"@ + json_quoted(t.description@)
        + ",\"input_schema\":{\"type\":\"object\",\"properties\":{"@ + join(
        t.params@.map_values(|p: ToolParam| param_json(p)),
        ","@,
    ) + "},\"required\":["@ + join(required_json(t.params@), ","@) + "]}}"@
}

impl ToolDefinition {
    /// The JSON text that offers this tool to the Messages API.
    pub fn to_json(&self) -> (r: String)
        ensures
            r@ == tool_json(*self),
    {
        let ghost ps = self.params@;
        let ghost items = ps.map_values(|p: ToolParam| param_json(p));
        let mut props = String::new();
        let mut req = String::new();
        let mut n_req: usize = 0;
        for i in 0..self.params.len()
            invariant
                ps == self.params@,
                items == ps.map_values(|p: ToolParam| param_json(p)),
                props@ == join(items.take(i as int), ","@),
                req@ == join(required_json(ps.take(i as int)), ","@),
                n_req == required_json(ps.take(i as int)).len(),
                n_req <= i,
        {
            let p = &self.params[i];
            let mut piece = json_string_literal(p.name.as_str());
            piece.append(":{\"type\":");
            piece.append(json_string_literal(p.kind.as_str()).as_str());
            piece.append(",\"description\":");
            piece.append(json_string_literal(p.description.as_str()).as_str());
            piece.append("}");
            if i > 0 {
                props.append(",");
            }
            props.append(piece.as_str());
            proof {
                assert(ps.take(i + 1).drop_last() =~= ps.take(i as int));
                assert(items.take(i + 1).drop_last() =~= items.take(i as int));
                if i == 0 {
                    assert(join(items.take(0), ","@) =~= Seq::<char>::empty());
                    assert(Seq::<char>::empty() + piece@ =~= piece@);
                }
            }
            if p.required {
                let q = json_string_literal(p.name.as_str());
                let ghost rq = required_json(ps.take(i as int));
                if n_req > 0 {
                    req.append(",");
                } else {
                    proof {
                        assert(Seq::<char>::empty() + q@ =~= q@);
                    }
                }
                req.append(q.as_str());
                n_req = n_req + 1;
                proof {
                    assert(rq.push(q@).drop_last() =~= rq);
                }
            }
        }
        proof {
            assert(ps.take(ps.len() as int) =~= ps);
            assert(items.take(items.len() as int) =~= items);
        }
        let mut r = String::from_str("{\"name\":");
        r.append(json_string_literal(self.name.as_str()).as_str());
        r.append(",\"description\":");
        r.append(json_string_literal(self.description.as_str()).as_str());
        r.append(",\"input_schema\":{\"type\":\"object\",\"properties\":{");
        r.append(props.as_str());
        r.append("},\"required\":[");
        r.append(req.as_str());
        r.append("]}}");
        r
    }
}

// ---------------------------------------------------------------------------
// The request
// ---------------------------------------------------------------------------

/// The most tokens the assistant may write in one reply.
pub const MAX_TOKENS: u32 = 8192;

/// The budget of estimated tokens for the conversation sent.
pub const CONTEXT_BUDGET: usize = 150000;

/// The instructions given to the assistant.
pub fn system_prompt() -> (r: String)
    ensures
        r@ == "You are an expert software engineering assistant helping with coding tasks. You have access to tools for reading files, applying code changes, and running commands. Always explain your reasoning before taking actions."@,
{
    String::from_str(
        "You are an expert software engineering assistant helping with coding tasks. You have access to tools for reading files, applying code changes, and running commands. Always explain your reasoning before taking actions.",
    )
}

/// The estimated tokens of the messages, or `None` when the count does not
/// fit in a `usize`.
pub fn estimate_tokens_checked(messages: &[ClaudeMessage]) -> (r: Option<usize>)
    ensures
        r matches Some(t) ==> t == tokens_of(messages@),
        r is None <==> tokens_of(messages@) > usize::MAX,
{
    let mut total: usize = 0;
    for i in 0..messages.len()
        invariant
            total == tokens_of(messages@.take(i as int)),
    {
        proof {
            let t = messages@.take(i + 1);
            assert(t.drop_last() =~= messages@.take(i as int));
        }
        let t = messages[i].tokens();
        if total > usize::MAX - t {
            proof {
                lemma_tokens_append(messages@.take(i + 1), messages@.skip(i + 1));
                assert(messages@.take(i + 1) + messages@.skip(i + 1) =~= messages@);
            }
            return None;
        }
        total = total + t;
    }
    proof {
        assert(messages@.take(messages@.len() as int) =~= messages@);
    }
    Some(total)
}

/// The conversation sent for a request: the history trimmed to the budget;
/// `None` when its token estimate does not fit in a `usize`.
pub fn request_messages(messages: Vec<ClaudeMessage>) -> (r: Option<Vec<ClaudeMessage>>)
    ensures
        r is Some <==> tokens_of(messages@) <= usize::MAX,
        r matches Some(v) ==> v@ == messages@.skip(trim_start(messages@, CONTEXT_BUDGET as nat)),
{
    match estimate_tokens_checked(messages.as_slice()) {
        None => None,
        Some(_) => Some(trim_messages(messages, CONTEXT_BUDGET)),
    }
}

/// The decimal digits of `n`.
pub open spec fn decimal(n: nat) -> Seq<char>
    decreases n,
{
    if n < 10 {
        seq![((48 + n) as u8) as char]
    } else {
        decimal(n / 10).push(((48 + n % 10) as u8) as char)
    }
}

/// The decimal digits of `n`.
pub fn decimal_text(n: u16) -> (r: String)
    ensures
        r@ == decimal(n as nat),
    decreases n,
{
    let d = ((n % 10) as u8 + 48) as char;
    if n < 10 {
        let mut r = String::new();
        crate::text::push_char(&mut r, d);
        r
    } else {
        let mut r = decimal_text(n / 10);
        crate::text::push_char(&mut r, d);
        r
    }
}

/// The error reported when the Messages API answers with an error status.
pub fn api_error_message(status: u16) -> (r: String)
    ensures
        r@ == "Anthropic API returned an error (HTTP "@ + decimal(status as nat)
            + "). Check the server log for details."@,
{
    let mut r = String::from_str("Anthropic API returned an error (HTTP ");
    r.append(decimal_text(status).as_str());
    r.append("). Check the server log for details.");
    r
}

} // verus!
