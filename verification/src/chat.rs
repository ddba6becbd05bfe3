//! The chat of a task: what is stored of it, the `@file` context, and the
//! approval of the tool calls that the assistant asks for.
use vstd::prelude::*;
use vstd::string::*;

use crate::claude::{
    ChatResult,
    ClaudeMessage,
    MessageContent,
    PendingToolCall,
    StreamDone,
    ToolCallView,
};
use crate::json::{json_bool_at, json_bool_lookup, json_str_at, json_str_lookup, BlockView, ContentBlock};
use crate::keyed::KeyedVec;
use crate::text::{
    chars_of,
    concat,
    is_white_space,
    is_white_space_exec,
    join,
    starts_with,
    str_eq,
    str_starts_with,
    string_of_range,
};
use crate::json::{json_compact, json_reserialized};

verus! {

broadcast use vstd::string::group_string_axioms;

// ---------------------------------------------------------------------------
// Payloads and events
// ---------------------------------------------------------------------------

/// A message typed by the user in the chat of a task.
#[derive(Debug)]
pub struct SendChatPayload {
    pub task_id: String,
    pub content: String,
}

/// A tool call as the chat view shows it for approval.
#[derive(Debug)]
pub struct ToolCallInfo {
    pub id: String,
    pub name: String,
    pub input: String,
}

/// The user approves one pending tool call.
#[derive(Debug)]
pub struct ApproveToolCallPayload {
    pub task_id: String,
    pub tool_use_id: String,
}

/// The user rejects one pending tool call, with a reason.
#[derive(Debug)]
pub struct RejectToolCallPayload {
    pub task_id: String,
    pub tool_use_id: String,
    pub reason: String,
}

/// The tool calls as the chat view shows them, in the same order.
pub fn pending_to_event_list(calls: &[PendingToolCall]) -> (r: Vec<ToolCallInfo>)
    ensures
        r@.len() == calls@.len(),
        forall|i: int|
            0 <= i < calls@.len() ==> (#[trigger] r@[i]).id@ == calls@[i].id@ && r@[i].name@
                == calls@[i].name@ && r@[i].input@ == calls@[i].input@,
{
    let mut r: Vec<ToolCallInfo> = Vec::new();
    for i in 0..calls.len()
        invariant
            r@.len() == i,
            forall|j: int|
                0 <= j < i ==> (#[trigger] r@[j]).id@ == calls@[j].id@ && r@[j].name@
                    == calls@[j].name@ && r@[j].input@ == calls@[j].input@,
    {
        let c = &calls[i];
        r.push(ToolCallInfo { id: c.id.clone(), name: c.name.clone(), input: c.input.clone() });
    }
    r
}

// ---------------------------------------------------------------------------
// Stored messages
// ---------------------------------------------------------------------------

/// The message for a stored row: a content that starts with `[` is read as
/// JSON when it parses, any other content is a plain text.
pub open spec fn message_of_row(role: Seq<char>, content: Seq<char>) -> (Seq<char>, MessageContentView) {
    (
        role,
        if starts_with(content, "["@) && json_reserialized(content) is Some {
            MessageContentView::Json(json_reserialized(content)->0)
        } else {
            MessageContentView::Text(content)
        },
    )
}

/// A message content with its text as a character sequence.
pub enum MessageContentView {
    Text(Seq<char>),
    Json(Seq<char>),
}

pub open spec fn content_view(c: MessageContent) -> MessageContentView {
    match c {
        MessageContent::Text(s) => MessageContentView::Text(s@),
        MessageContent::Json(t) => MessageContentView::Json(t@),
    }
}

/// The message for a stored row (role and content text).
pub fn message_from_row(role: String, content: String) -> (r: ClaudeMessage)
    ensures
        (r.role@, content_view(r.content)) == message_of_row(role@, content@),
{
    if str_starts_with(content.as_str(), "[") {
        match json_compact(content.as_str()) {
            Some(t) => ClaudeMessage { role, content: MessageContent::Json(t) },
            None => ClaudeMessage { role, content: MessageContent::Text(content) },
        }
    } else {
        ClaudeMessage { role, content: MessageContent::Text(content) }
    }
}

/// The text stored for a content: the text itself, or the JSON text.
pub fn content_db_text(content: &MessageContent) -> (r: String)
    ensures
        r@ == (match content_view(*content) {
            MessageContentView::Text(s) => s,
            MessageContentView::Json(t) => t,
        }),
{
    match content {
        MessageContent::Text(s) => s.clone(),
        MessageContent::Json(t) => t.clone(),
    }
}

/// The conversation with one more user turn holding `text`.
pub fn with_user_turn(history: Vec<ClaudeMessage>, text: String) -> (r: Vec<ClaudeMessage>)
    ensures
        r@.len() == history@.len() + 1,
        r@.take(history@.len() as int) == history@,
        r@.last().role@ == "user"@,
        content_view(r@.last().content) == MessageContentView::Text(text@),
{
    let mut r = history;
    r.push(ClaudeMessage { role: String::from_str("user"), content: MessageContent::Text(text) });
    proof {
        assert(r@.take(r@.len() - 1) =~= r@.drop_last());
    }
    r
}

/// The worktree of a task, or the error the chat reports when it has none.
pub fn worktree_path_or_error(task_id: &str, worktree_path: Option<String>) -> (r: Result<
    String,
    String,
>)
    ensures
        worktree_path matches Some(p) ==> (r matches Ok(q) && q@ == p@),
        worktree_path is None ==> (r matches Err(e) && e@ == "Task "@ + task_id@
            + " has no worktree_path set"@),
{
    match worktree_path {
        Some(p) => Ok(p),
        None => Err(concat(concat("Task ", task_id).as_str(), " has no worktree_path set")),
    }
}

// ---------------------------------------------------------------------------
// @file context
// ---------------------------------------------------------------------------

/// The index of the first white-space character at or after `from`.
pub open spec fn next_white(s: Seq<char>, from: int) -> Option<int>
    decreases s.len() - from,
{
    if from < 0 || from >= s.len() {
        None
    } else if is_white_space(s[from]) {
        Some(from)
    } else {
        next_white(s, from + 1)
    }
}

/// The pieces of `s` between white-space characters (`str::split` on
/// `char::is_whitespace`): empty pieces included.
pub open spec fn split_white(s: Seq<char>) -> Seq<Seq<char>>
    decreases s.len(),
{
    match next_white(s, 0) {
        None => seq![s],
        Some(i) => {
            proof {
                lemma_next_white(s, 0);
            }
            seq![s.take(i)] + split_white(s.skip(i + 1))
        },
    }
}

pub proof fn lemma_next_white(s: Seq<char>, from: int)
    requires
        0 <= from,
    ensures
        next_white(s, from) matches Some(i) ==> from <= i < s.len() && is_white_space(s[i]) && (
        forall|j: int| from <= j < i ==> !is_white_space(s[j])),
        next_white(s, from) is None ==> forall|j: int| from <= j < s.len() ==> !is_white_space(s[j]),
    decreases s.len() - from,
{
    if 0 <= from < s.len() && !is_white_space(s[from]) {
        lemma_next_white(s, from + 1);
    }
}

proof fn lemma_next_white_skip(s: Seq<char>, p: int, k: int)
    requires
        0 <= p <= s.len(),
        0 <= k,
    ensures
        next_white(s.skip(p), k) == (match next_white(s, p + k) {
            Some(i) => Some(i - p),
            None => None::<int>,
        }),
    decreases s.len() - p - k,
{
    if p + k < s.len() && !is_white_space(s[p + k]) {
        lemma_next_white_skip(s, p, k + 1);
    }
}

/// The path named by a word `@path`, if the word is one.
pub open spec fn mention(w: Seq<char>) -> Option<Seq<char>> {
    if w.len() > 1 && w[0] == '@' {
        Some(w.skip(1))
    } else {
        None
    }
}

/// The paths named by the words, in order.
pub open spec fn mentions_in(ws: Seq<Seq<char>>) -> Seq<Seq<char>>
    decreases ws.len(),
{
    if ws.len() == 0 {
        seq![]
    } else {
        match mention(ws.last()) {
            Some(p) => mentions_in(ws.drop_last()).push(p),
            None => mentions_in(ws.drop_last()),
        }
    }
}

/// `s` with each element kept only where it first occurs.
pub open spec fn first_occurrences(s: Seq<Seq<char>>) -> Seq<Seq<char>>
    decreases s.len(),
{
    if s.len() == 0 {
        seq![]
    } else if s.drop_last().contains(s.last()) {
        first_occurrences(s.drop_last())
    } else {
        first_occurrences(s.drop_last()).push(s.last())
    }
}

/// The files that a chat message names with `@path` words, each once.
pub open spec fn file_mentions_of(content: Seq<char>) -> Seq<Seq<char>> {
    first_occurrences(mentions_in(split_white(content)))
}

/// Keeping first occurrences keeps every element, and each only once.
pub proof fn lemma_first_occurrences(s: Seq<Seq<char>>)
    ensures
        forall|x: Seq<char>| first_occurrences(s).contains(x) <==> s.contains(x),
        forall|i: int, j: int|
            0 <= i < j < first_occurrences(s).len() ==> first_occurrences(s)[i]
                != first_occurrences(s)[j],
    decreases s.len(),
{
    if s.len() > 0 {
        let t = s.drop_last();
        lemma_first_occurrences(t);
        assert(s =~= t.push(s.last()));
        let u = first_occurrences(t);
        assert forall|x: Seq<char>| s.contains(x) <==> (t.contains(x) || x == s.last()) by {
            if s.contains(x) {
                let k = choose|k: int| 0 <= k < s.len() && s[k] == x;
                if k < t.len() {
                    assert(t[k] == x);
                }
            }
            if t.contains(x) {
                let k = choose|k: int| 0 <= k < t.len() && t[k] == x;
                assert(s[k] == x);
            }
            if x == s.last() {
                assert(s[s.len() - 1] == x);
            }
        }
        if !t.contains(s.last()) {
            let v = u.push(s.last());
            assert forall|x: Seq<char>| v.contains(x) <==> (u.contains(x) || x == s.last()) by {
                if v.contains(x) {
                    let k = choose|k: int| 0 <= k < v.len() && v[k] == x;
                    if k < u.len() {
                        assert(u[k] == x);
                    }
                }
                if u.contains(x) {
                    let k = choose|k: int| 0 <= k < u.len() && u[k] == x;
                    assert(v[k] == x);
                }
                if x == s.last() {
                    assert(v[v.len() - 1] == x);
                }
            }
            assert forall|i: int, j: int| 0 <= i < j < v.len() implies v[i] != v[j] by {
                if j == v.len() - 1 {
                    assert(v[i] == u[i]);
                    assert(u.contains(u[i]));
                }
            }
        }
    }
}

/// The pieces of `v[from..]` between white-space characters.
fn split_white_from(v: &[char], from: usize) -> (r: Vec<String>)
    requires
        from <= v@.len(),
    ensures
        r@.map_values(|w: String| w@) == split_white(v@.skip(from as int)),
{
    let mut out: Vec<String> = Vec::new();
    let mut pos = from;
    loop
        invariant
            from <= pos <= v@.len(),
            out@.map_values(|w: String| w@) + split_white(v@.skip(pos as int)) == split_white(
                v@.skip(from as int),
            ),
        decreases v@.len() - pos,
    {
        let ghost rest = v@.skip(pos as int);
        let ghost out0 = out@.map_values(|w: String| w@);
        let mut i = pos;
        while i < v.len() && !is_white_space_exec(v[i])
            invariant
                pos <= i <= v@.len(),
                forall|j: int| pos <= j < i ==> !is_white_space(v@[j]),
            decreases v@.len() - i,
        {
            i += 1;
        }
        proof {
            lemma_next_white_skip(v@, pos as int, 0);
            lemma_next_white(v@, pos as int);
        }
        let word = string_of_range(v, pos, i);
        out.push(word);
        proof {
            assert(out@.map_values(|w: String| w@) =~= out0.push(word@));
        }
        if i == v.len() {
            proof {
                if next_white(v@, pos as int) is Some {
                    let k = next_white(v@, pos as int)->0;
                    assert(!is_white_space(v@[k]));
                }
                assert(next_white(rest, 0) is None);
                assert(rest =~= v@.subrange(pos as int, i as int));
                assert(split_white(rest) == seq![rest]);
                assert(out0 + seq![rest] =~= out0.push(word@));
            }
            return out;
        }
        proof {
            assert(next_white(v@, pos as int) == Some(i as int)) by {
                let o = next_white(v@, pos as int);
                if o is Some {
                    let k = o->0;
                    if k < i {
                        assert(!is_white_space(v@[k]));
                    }
                    if k > i {
                        assert(!is_white_space(v@[i as int]));
                    }
                }
            }
            assert(rest.take(i - pos) =~= word@);
            assert(rest.skip(i - pos + 1) =~= v@.skip(i + 1));
            assert(split_white(rest) == seq![word@] + split_white(v@.skip(i + 1)));
            assert(out0 + (seq![word@] + split_white(v@.skip(i + 1))) =~= out0.push(word@)
                + split_white(v@.skip(i + 1)));
        }
        pos = i + 1;
    }
}

/// Whether `p` is among the strings `v`.
fn has_string(v: &Vec<String>, p: &str) -> (r: bool)
    ensures
        r == v@.map_values(|q: String| q@).contains(p@),
{
    let ghost vs = v@.map_values(|q: String| q@);
    for i in 0..v.len()
        invariant
            vs == v@.map_values(|q: String| q@),
            forall|j: int| 0 <= j < i ==> vs[j] != p@,
    {
        if str_eq(v[i].as_str(), p) {
            proof {
                assert(vs[i as int] == p@);
            }
            return true;
        }
    }
    proof {
        if vs.contains(p@) {
            let k = choose|k: int| 0 <= k < vs.len() && vs[k] == p@;
            assert(vs[k] != p@);
        }
    }
    false
}

/// The files a chat message names with `@path` words: split at white space,
/// the words that start with `@` and have more after it, without the `@`,
/// each path once, in the order of its first mention.
pub fn file_mentions(content: &str) -> (r: Vec<String>)
    ensures
        r@.map_values(|p: String| p@) == file_mentions_of(content@),
{
    let v = chars_of(content);
    let words = split_white_from(v.as_slice(), 0);
    proof {
        assert(v@.skip(0) =~= v@);
    }
    let ghost ws = words@.map_values(|w: String| w@);
    let mut out: Vec<String> = Vec::new();
    for i in 0..words.len()
        invariant
            ws == words@.map_values(|w: String| w@),
            ws == split_white(content@),
            out@.map_values(|p: String| p@) == first_occurrences(mentions_in(ws.take(i as int))),
    {
        let wv = chars_of(words[i].as_str());
        proof {
            assert(ws.take(i + 1).drop_last() =~= ws.take(i as int));
            assert(ws.take(i + 1).last() == wv@);
        }
        if wv.len() > 1 && wv[0] == '@' {
            let p = string_of_range(wv.as_slice(), 1, wv.len());
            let ghost m = mentions_in(ws.take(i as int));
            proof {
                assert(p@ =~= wv@.skip(1));
                assert(mentions_in(ws.take(i + 1)) == m.push(p@));
                lemma_first_occurrences(m);
                let mp = m.push(p@);
                assert(mp.drop_last() =~= m);
            }
            let seen = has_string(&out, p.as_str());
            if !seen {
                let ghost o0 = out@.map_values(|q: String| q@);
                out.push(p);
                proof {
                    assert(out@.map_values(|q: String| q@) =~= o0.push(p@));
                }
            }
        } else {
            proof {
                assert(mentions_in(ws.take(i + 1)) == mentions_in(ws.take(i as int)));
            }
        }
    }
    proof {
        assert(ws.take(ws.len() as int) =~= ws);
    }
    out
}

/// The block that shows a file to the assistant.
pub open spec fn file_block(path: Seq<char>, content: Seq<char>) -> Seq<char> {
    "<file path=\""@ + path + "\">\n"@ + content + "\n</file>"@
}

/// The file blocks of the files that could be read, in order.
pub open spec fn file_blocks(files: Seq<(Seq<char>, Option<Seq<char>>)>) -> Seq<Seq<char>>
    decreases files.len(),
{
    if files.len() == 0 {
        seq![]
    } else {
        match files.last().1 {
            Some(c) => file_blocks(files.drop_last()).push(file_block(files.last().0, c)),
            None => file_blocks(files.drop_last()),
        }
    }
}

/// The message sent to the assistant for `content`, given the files it
/// names with what could be read of each: the blocks of the files read,
/// then a blank line and the message; the message alone if none was read.
pub open spec fn with_file_context_of(
    content: Seq<char>,
    files: Seq<(Seq<char>, Option<Seq<char>>)>,
) -> Seq<char> {
    let blocks = file_blocks(files);
    if blocks.len() == 0 {
        content
    } else {
        join(blocks, "\n\n"@) + "\n\n"@ + content
    }
}

pub open spec fn file_views(files: Seq<(String, Option<String>)>) -> Seq<
    (Seq<char>, Option<Seq<char>>),
> {
    files.map_values(
        |f: (String, Option<String>)|
            (
                f.0@,
                match f.1 {
                    Some(c) => Some(c@),
                    None => None::<Seq<char>>,
                },
            ),
    )
}

/// The message the user typed is always sent whole, at the end.
pub proof fn lemma_context_ends_with_message(
    content: Seq<char>,
    files: Seq<(Seq<char>, Option<Seq<char>>)>,
)
    ensures
        crate::paths::ends_with(with_file_context_of(content, files), content),
{
    let r = with_file_context_of(content, files);
    assert(r.skip(r.len() - content.len()) =~= content);
}

/// What is stored of a message reads back as the same message: a text that
/// does not start with `[` stays that text, and a JSON content whose text
/// `serde_json` writes back unchanged stays that JSON content.
pub proof fn lemma_stored_message_reads_back(role: Seq<char>, c: MessageContentView)
    requires
        c matches MessageContentView::Text(s) ==> !starts_with(s, "["@),
        c matches MessageContentView::Json(t) ==> starts_with(t, "["@) && json_reserialized(t)
            == Some(t),
    ensures
        message_of_row(
            role,
            match c {
                MessageContentView::Text(s) => s,
                MessageContentView::Json(t) => t,
            },
        ) == (role, c),
{
}

/// The message sent to the assistant: the files that could be read, shown
/// before the message.
pub fn with_file_context(content: &str, files: &[(String, Option<String>)]) -> (r: String)
    ensures
        r@ == with_file_context_of(content@, file_views(files@)),
        crate::paths::ends_with(r@, content@),
{
    proof {
        lemma_context_ends_with_message(content@, file_views(files@));
    }
    let ghost fv = file_views(files@);
    let mut body = String::new();
    let mut count: usize = 0;
    for i in 0..files.len()
        invariant
            fv == file_views(files@),
            count == file_blocks(fv.take(i as int)).len(),
            body@ == join(file_blocks(fv.take(i as int)), "\n\n"@),
            count <= i,
    {
        proof {
            assert(fv.take(i + 1).drop_last() =~= fv.take(i as int));
        }
        match &files[i].1 {
            Some(c) => {
                let mut block = String::from_str("<file path=\"");
                block.append(files[i].0.as_str());
                block.append("\">\n");
                block.append(c.as_str());
                block.append("\n</file>");
                let ghost bs = file_blocks(fv.take(i as int));
                if count > 0 {
                    body.append("\n\n");
                } else {
                    proof {
                        assert(Seq::<char>::empty() + block@ =~= block@);
                    }
                }
                body.append(block.as_str());
                count += 1;
                proof {
                    let nb = bs.push(block@);
                    assert(nb.drop_last() =~= bs);
                    assert(file_blocks(fv.take(i + 1)) == nb);
                }
            },
            None => {},
        }
    }
    proof {
        assert(fv.take(files@.len() as int) =~= fv);
    }
    if count == 0 {
        return String::from_str(content);
    }
    body.append("\n\n");
    body.append(content);
    body
}

// ---------------------------------------------------------------------------
// Tool calls awaiting approval
// ---------------------------------------------------------------------------

/// The index of the first call with the id `id`.
pub open spec fn first_with_id(calls: Seq<ToolCallView>, id: Seq<char>, from: int) -> Option<int>
    decreases calls.len() - from,
{
    if from < 0 || from >= calls.len() {
        None
    } else if calls[from].id == id {
        Some(from)
    } else {
        first_with_id(calls, id, from + 1)
    }
}

proof fn lemma_first_with_id(calls: Seq<ToolCallView>, id: Seq<char>, from: int)
    requires
        0 <= from,
    ensures
        first_with_id(calls, id, from) matches Some(i) ==> from <= i < calls.len() && calls[i].id
            == id,
    decreases calls.len() - from,
{
    if from < calls.len() && calls[from].id != id {
        lemma_first_with_id(calls, id, from + 1);
    }
}

/// Taking the call `id` of task `tid` out of the pending calls `p`: the
/// call, whether it was the last of its batch, and the pending calls after;
/// or the error message.
pub open spec fn take_call_spec(
    p: Map<Seq<char>, Seq<ToolCallView>>,
    tid: Seq<char>,
    id: Seq<char>,
) -> Result<(ToolCallView, bool, Map<Seq<char>, Seq<ToolCallView>>), Seq<char>> {
    if !p.contains_key(tid) {
        Err("No pending tool calls for task "@ + tid)
    } else {
        match first_with_id(p[tid], id, 0) {
            None => Err("Tool use id "@ + id + " not found"@),
            Some(i) => {
                let rest = p[tid].remove(i);
                if rest.len() == 0 {
                    Ok((p[tid][i], true, p.remove(tid)))
                } else {
                    Ok((p[tid][i], false, p.insert(tid, rest)))
                }
            },
        }
    }
}

/// Recording the result block `b` of a call of task `tid`: the results
/// buffered after, and the results released for the combined message (all
/// of the batch when the call was its last, none otherwise).
pub open spec fn record_spec(
    rs: Map<Seq<char>, Seq<BlockView>>,
    tid: Seq<char>,
    b: BlockView,
    is_last: bool,
) -> (Map<Seq<char>, Seq<BlockView>>, Seq<BlockView>) {
    let v = (if rs.contains_key(tid) {
        rs[tid]
    } else {
        Seq::<BlockView>::empty()
    }).push(b);
    if is_last {
        (rs.remove(tid), v)
    } else {
        (rs.insert(tid, v), Seq::<BlockView>::empty())
    }
}

/// The tool calls of each task that await the user's decision, and the
/// results of the decided calls of the current batch.
pub struct ToolBatches {
    pending: KeyedVec<Vec<PendingToolCall>>,
    results: KeyedVec<Vec<ContentBlock>>,
}

impl ToolBatches {
    /// The calls awaiting a decision, per task.
    pub closed spec fn pending_view(&self) -> Map<Seq<char>, Seq<ToolCallView>> {
        self.pending.map().map_values(
            |v: Vec<PendingToolCall>| v@.map_values(|c: PendingToolCall| c@),
        )
    }

    /// The results of the decided calls of the current batch, per task.
    pub closed spec fn results_view(&self) -> Map<Seq<char>, Seq<BlockView>> {
        self.results.map().map_values(|v: Vec<ContentBlock>| v@.map_values(|b: ContentBlock| b@))
    }

    /// No batch is open.
    pub fn new() -> (r: Self)
        ensures
            r.pending_view() == Map::<Seq<char>, Seq<ToolCallView>>::empty(),
            r.results_view() == Map::<Seq<char>, Seq<BlockView>>::empty(),
    {
        let r = ToolBatches { pending: KeyedVec::new(), results: KeyedVec::new() };
        proof {
            assert(r.pending_view() =~= Map::<Seq<char>, Seq<ToolCallView>>::empty());
            assert(r.results_view() =~= Map::<Seq<char>, Seq<BlockView>>::empty());
        }
        r
    }

    /// Open a batch of calls for a task: they all await a decision, and no
    /// result is buffered yet.
    pub fn begin_batch(&mut self, task_id: String, calls: Vec<PendingToolCall>)
        ensures
            final(self).pending_view() == old(self).pending_view().insert(
                task_id@,
                calls@.map_values(|c: PendingToolCall| c@),
            ),
            final(self).results_view() == old(self).results_view().insert(
                task_id@,
                Seq::<BlockView>::empty(),
            ),
    {
        let ghost old_p = self.pending_view();
        let ghost old_r = self.results_view();
        let ghost cv = calls@.map_values(|c: PendingToolCall| c@);
        let key2 = task_id.clone();
        let empty: Vec<ContentBlock> = Vec::new();
        proof {
            assert(empty@.map_values(|b: ContentBlock| b@) =~= Seq::<BlockView>::empty());
        }
        self.results.insert(key2, empty);
        self.pending.insert(task_id, calls);
        proof {
            assert(self.pending_view() =~= old_p.insert(task_id@, cv));
            assert(self.results_view() =~= old_r.insert(task_id@, Seq::<BlockView>::empty()));
        }
    }

    /// Take the call `tool_use_id` of the task out of its batch.
    pub fn take_call(&mut self, task_id: &str, tool_use_id: &str) -> (r: Result<
        (PendingToolCall, bool),
        String,
    >)
        ensures
            final(self).results_view() == old(self).results_view(),
            match (r, take_call_spec(old(self).pending_view(), task_id@, tool_use_id@)) {
                (Ok((c, last)), Ok((cv, lastv, p))) => c@ == cv && last == lastv
                    && final(self).pending_view() == p,
                (Err(e), Err(ev)) => e@ == ev && final(self).pending_view() == old(
                    self,
                ).pending_view(),
                _ => false,
            },
    {
        let ghost old_p = self.pending_view();
        let ghost tid = task_id@;
        let removed = self.pending.remove(task_id);
        match removed {
            None => {
                proof {
                    assert(self.pending_view() =~= old_p);
                }
                Err(concat("No pending tool calls for task ", task_id))
            },
            Some(mut calls) => {
                let ghost cv = calls@.map_values(|c: PendingToolCall| c@);
                proof {
                    assert(old_p[tid] == cv);
                }
                let mut i: usize = 0;
                while i < calls.len() && !str_eq(calls[i].id.as_str(), tool_use_id)
                    invariant
                        i <= calls@.len(),
                        cv == calls@.map_values(|c: PendingToolCall| c@),
                        first_with_id(cv, tool_use_id@, 0) == first_with_id(
                            cv,
                            tool_use_id@,
                            i as int,
                        ),
                    decreases calls.len() - i,
                {
                    i += 1;
                }
                if i == calls.len() {
                    self.pending.insert(String::from_str(task_id), calls);
                    proof {
                        assert(first_with_id(cv, tool_use_id@, i as int) is None);
                        assert(self.pending_view() =~= old_p);
                    }
                    return Err(
                        concat(concat("Tool use id ", tool_use_id).as_str(), " not found"),
                    );
                }
                proof {
                    assert(first_with_id(cv, tool_use_id@, i as int) == Some(i as int));
                }
                let call = calls.remove(i);
                let ghost rest = calls@.map_values(|c: PendingToolCall| c@);
                proof {
                    assert(rest =~= cv.remove(i as int));
                }
                if calls.len() == 0 {
                    proof {
                        assert(self.pending_view() =~= old_p.remove(tid));
                    }
                    Ok((call, true))
                } else {
                    self.pending.insert(String::from_str(task_id), calls);
                    proof {
                        assert(self.pending_view() =~= old_p.remove(tid).insert(tid, rest));
                        assert(old_p.remove(tid).insert(tid, rest) =~= old_p.insert(tid, rest));
                    }
                    Ok((call, false))
                }
            },
        }
    }

    /// Buffer the result of a decided call; when it was the last of its
    /// batch, release all the results of the batch, in the order decided.
    pub fn record_result(&mut self, task_id: &str, block: ContentBlock, is_last: bool) -> (r: Vec<
        ContentBlock,
    >)
        ensures
            final(self).pending_view() == old(self).pending_view(),
            (final(self).results_view(), r@.map_values(|b: ContentBlock| b@)) == record_spec(
                old(self).results_view(),
                task_id@,
                block@,
                is_last,
            ),
    {
        let ghost old_r = self.results_view();
        let ghost old_p = self.pending_view();
        let ghost tid = task_id@;
        let ghost bv = block@;
        let mut v = match self.results.remove(task_id) {
            Some(v) => v,
            None => Vec::new(),
        };
        let ghost v0 = v@.map_values(|b: ContentBlock| b@);
        proof {
            if old_r.contains_key(tid) {
                assert(v0 == old_r[tid]);
            } else {
                assert(v0 =~= Seq::<BlockView>::empty());
            }
        }
        v.push(block);
        proof {
            assert(v@.map_values(|b: ContentBlock| b@) =~= v0.push(bv));
        }
        if is_last {
            proof {
                assert(self.results_view() =~= old_r.remove(tid));
                assert(self.pending_view() =~= old_p);
            }
            v
        } else {
            let ghost vv = v@.map_values(|b: ContentBlock| b@);
            self.results.insert(String::from_str(task_id), v);
            proof {
                assert(self.results_view() =~= old_r.remove(tid).insert(tid, vv));
                assert(old_r.remove(tid).insert(tid, vv) =~= old_r.insert(tid, vv));
            }
            let none: Vec<ContentBlock> = Vec::new();
            proof {
                assert(none@.map_values(|b: ContentBlock| b@) =~= Seq::<BlockView>::empty());
            }
            none
        }
    }
}

/// One decision on a call of task `t`: take the call `id` and record its
/// result block `b`; the pending calls and results after, and the results
/// released. `None` when the call cannot be taken.
pub open spec fn decide(
    p: Map<Seq<char>, Seq<ToolCallView>>,
    r: Map<Seq<char>, Seq<BlockView>>,
    t: Seq<char>,
    id: Seq<char>,
    b: BlockView,
) -> Option<(Map<Seq<char>, Seq<ToolCallView>>, Map<Seq<char>, Seq<BlockView>>, Seq<BlockView>)> {
    match take_call_spec(p, t, id) {
        Err(_) => None,
        Ok((_, last, p2)) => {
            let (r2, released) = record_spec(r, t, b, last);
            Some((p2, r2, released))
        },
    }
}

/// A sequence of decisions on calls of task `t`, each a call id and the
/// result block recorded for it; the releases, one per decision.
pub open spec fn decide_all(
    p: Map<Seq<char>, Seq<ToolCallView>>,
    r: Map<Seq<char>, Seq<BlockView>>,
    t: Seq<char>,
    steps: Seq<(Seq<char>, BlockView)>,
) -> Option<(Map<Seq<char>, Seq<ToolCallView>>, Map<Seq<char>, Seq<BlockView>>, Seq<Seq<BlockView>>)>
    decreases steps.len(),
{
    if steps.len() == 0 {
        Some((p, r, seq![]))
    } else {
        match decide_all(p, r, t, steps.drop_last()) {
            None => None,
            Some((p1, r1, rels)) => match decide(p1, r1, t, steps.last().0, steps.last().1) {
                None => None,
                Some((p2, r2, rel)) => Some((p2, r2, rels.push(rel))),
            },
        }
    }
}

pub open spec fn blocks_of(steps: Seq<(Seq<char>, BlockView)>) -> Seq<BlockView> {
    steps.map_values(|s: (Seq<char>, BlockView)| s.1)
}

proof fn lemma_decide_all(
    p: Map<Seq<char>, Seq<ToolCallView>>,
    r: Map<Seq<char>, Seq<BlockView>>,
    t: Seq<char>,
    steps: Seq<(Seq<char>, BlockView)>,
)
    requires
        p.contains_key(t),
        r.contains_key(t),
        r[t] == Seq::<BlockView>::empty(),
        steps.len() <= p[t].len(),
    ensures
        decide_all(p, r, t, steps) matches Some((p2, r2, rels)) ==> {
            &&& rels.len() == steps.len()
            &&& steps.len() < p[t].len() ==> {
                &&& p2.contains_key(t)
                &&& p2[t].len() == p[t].len() - steps.len()
                &&& p2.remove(t) == p.remove(t)
                &&& r2 == r.insert(t, blocks_of(steps))
                &&& forall|i: int| 0 <= i < rels.len() ==> #[trigger] rels[i] == Seq::<BlockView>::empty()
            }
            &&& steps.len() == p[t].len() && steps.len() > 0 ==> {
                &&& p2 == p.remove(t)
                &&& r2 == r.remove(t)
                &&& forall|i: int| 0 <= i < rels.len() - 1 ==> #[trigger] rels[i] == Seq::<BlockView>::empty()
                &&& rels[rels.len() - 1] == blocks_of(steps)
            }
        },
    decreases steps.len(),
{
    if steps.len() == 0 {
        assert(blocks_of(steps) =~= Seq::<BlockView>::empty());
        assert(r.insert(t, blocks_of(steps)) =~= r);
    } else {
        let prev = steps.drop_last();
        lemma_decide_all(p, r, t, prev);
        if let Some((p1, r1, rels)) = decide_all(p, r, t, prev) {
            let (id, b) = steps.last();
            assert(blocks_of(prev).push(b) =~= blocks_of(steps));
            if let Some((p2, r2, rel)) = decide(p1, r1, t, id, b) {
                let i = first_with_id(p1[t], id, 0)->0;
                lemma_first_with_id(p1[t], id, 0);
                let rest = p1[t].remove(i);
                if rest.len() == 0 {
                    assert(p2 =~= p.remove(t)) by {
                        assert(p1.remove(t) =~= p.remove(t));
                    }
                    assert(r2 =~= r.remove(t));
                } else {
                    assert(p2.remove(t) =~= p.remove(t)) by {
                        assert(p1.remove(t) =~= p.remove(t));
                    }
                    assert(r2 =~= r.insert(t, blocks_of(steps)));
                    assert(rel =~= Seq::<BlockView>::empty());
                }
                let nrels = rels.push(rel);
                assert forall|j: int| 0 <= j < rels.len() implies #[trigger] nrels[j] == rels[j] by {}
            }
        }
    }
}

/// The ids of the calls are distinct.
pub open spec fn ids_distinct(calls: Seq<ToolCallView>) -> bool {
    forall|i: int, j: int| 0 <= i < j < calls.len() ==> calls[i].id != calls[j].id
}

proof fn lemma_no_id_from(calls: Seq<ToolCallView>, id: Seq<char>, from: int)
    requires
        0 <= from,
        forall|k: int| from <= k < calls.len() ==> calls[k].id != id,
    ensures
        first_with_id(calls, id, from) is None,
    decreases calls.len() - from,
{
    if from < calls.len() {
        lemma_no_id_from(calls, id, from + 1);
    }
}

/// No tool runs without the user's decision, and none runs twice: a call
/// is handed out only when it awaits a decision in its task's batch, and
/// once handed out (the ids of a batch being distinct) asking for it again
/// is refused.
pub proof fn lemma_call_taken_once(
    p: Map<Seq<char>, Seq<ToolCallView>>,
    t: Seq<char>,
    id: Seq<char>,
)
    requires
        p.contains_key(t) ==> ids_distinct(p[t]),
    ensures
        take_call_spec(p, t, id) matches Ok((c, last, p2)) ==> {
            &&& p.contains_key(t)
            &&& p[t].contains(c)
            &&& c.id == id
            &&& take_call_spec(p2, t, id) is Err
        },
{
    if p.contains_key(t) {
        lemma_first_with_id(p[t], id, 0);
        if let Some(i) = first_with_id(p[t], id, 0) {
            let rest = p[t].remove(i);
            assert(p[t][i] == p[t][i]);
            assert(p[t].contains(p[t][i]));
            if rest.len() > 0 {
                let p2 = p.insert(t, rest);
                assert forall|k: int| 0 <= k < rest.len() implies rest[k].id != id by {
                    if k < i {
                        assert(rest[k] == p[t][k]);
                    } else {
                        assert(rest[k] == p[t][k + 1]);
                    }
                }
                lemma_no_id_from(rest, id, 0);
                assert(p2[t] == rest);
            }
        }
    }
}

/// A batch of tool calls resolves once: when every call of the batch has
/// been decided (approved or rejected), in whatever order, the decision of
/// the last one releases all the results of the batch, in the order they
/// were decided, and no earlier decision releases any; the batch then no
/// longer awaits anything.
pub proof fn lemma_batch_resolves_once(
    p: Map<Seq<char>, Seq<ToolCallView>>,
    r: Map<Seq<char>, Seq<BlockView>>,
    t: Seq<char>,
    steps: Seq<(Seq<char>, BlockView)>,
)
    requires
        p.contains_key(t),
        r.contains_key(t),
        r[t] == Seq::<BlockView>::empty(),
        steps.len() == p[t].len(),
        steps.len() > 0,
        decide_all(p, r, t, steps) is Some,
    ensures
        ({
            let (p2, r2, rels) = decide_all(p, r, t, steps)->0;
            &&& rels.len() == steps.len()
            &&& forall|i: int| 0 <= i < rels.len() - 1 ==> #[trigger] rels[i] == Seq::<BlockView>::empty()
            &&& rels[rels.len() - 1] == blocks_of(steps)
            &&& !p2.contains_key(t)
            &&& !r2.contains_key(t)
        }),
{
    lemma_decide_all(p, r, t, steps);
}

// ---------------------------------------------------------------------------
// Running an approved call, and what follows a reply
// ---------------------------------------------------------------------------

/// What an approved call asks to be done in the task's worktree.
#[derive(Debug)]
pub enum ToolAction {
    ExecuteCommand { command: String },
    ApplyDiff { file_path: String, search_block: String, replace_block: String },
    ReadFile { file_path: String, full: bool },
}

/// A tool action with its texts as character sequences.
pub enum ActionView {
    ExecuteCommand(Seq<char>),
    ApplyDiff(Seq<char>, Seq<char>, Seq<char>),
    ReadFile(Seq<char>, bool),
}

impl View for ToolAction {
    type V = ActionView;

    open spec fn view(&self) -> ActionView {
        match self {
            ToolAction::ExecuteCommand { command } => ActionView::ExecuteCommand(command@),
            ToolAction::ApplyDiff { file_path, search_block, replace_block } => ActionView::ApplyDiff(
                file_path@,
                search_block@,
                replace_block@,
            ),
            ToolAction::ReadFile { file_path, full } => ActionView::ReadFile(file_path@, *full),
        }
    }
}

/// The action of the call `name` with the JSON input `input`, or why it
/// cannot run.
pub open spec fn plan_spec(name: Seq<char>, input: Seq<char>) -> Result<ActionView, Seq<char>> {
    if name == "execute_command"@ {
        match json_str_lookup(input, "/command"@) {
            Some(c) => Ok(ActionView::ExecuteCommand(c)),
            None => Err("execute_command: missing 'command' field"@),
        }
    } else if name == "apply_diff"@ {
        match json_str_lookup(input, "/file_path"@) {
            None => Err("apply_diff: missing 'file_path' field"@),
            Some(f) => match json_str_lookup(input, "/search_block"@) {
                None => Err("apply_diff: missing 'search_block' field"@),
                Some(o) => match json_str_lookup(input, "/replace_block"@) {
                    None => Err("apply_diff: missing 'replace_block' field"@),
                    Some(n) => Ok(ActionView::ApplyDiff(f, o, n)),
                },
            },
        }
    } else if name == "read_file"@ {
        match json_str_lookup(input, "/file_path"@) {
            None => Err("read_file: missing 'file_path' field"@),
            Some(f) => Ok(
                ActionView::ReadFile(
                    f,
                    match json_bool_lookup(input, "/full"@) {
                        Some(b) => b,
                        None => false,
                    },
                ),
            ),
        }
    } else {
        Err("Unknown tool: "@ + name)
    }
}

proof fn lemma_tool_names_differ()
    ensures
        "read_file"@ != "execute_command"@,
        "read_file"@ != "apply_diff"@,
        "apply_diff"@ != "execute_command"@,
{
    reveal_strlit("read_file");
    reveal_strlit("execute_command");
    reveal_strlit("apply_diff");
    assert("read_file"@[0] != "execute_command"@[0]);
    assert("read_file"@[0] != "apply_diff"@[0]);
    assert("apply_diff"@[0] != "execute_command"@[0]);
}

/// A read is whole only when asked: an approved `read_file` call reads the
/// path its input gives, and reads the whole file exactly when the input
/// holds the boolean `true` at `full`; a missing, false or non-boolean
/// `full` reads the first 200 lines.
pub proof fn lemma_read_file_full_only_when_asked(input: Seq<char>, f: Seq<char>)
    requires
        json_str_lookup(input, "/file_path"@) == Some(f),
    ensures
        plan_spec("read_file"@, input) == Ok::<ActionView, Seq<char>>(
            ActionView::ReadFile(f, json_bool_lookup(input, "/full"@) == Some(true)),
        ),
{
    lemma_tool_names_differ();
}

/// An approved command runs exactly the text its input gives at `command`,
/// and an edit replaces exactly the blocks its input gives; a call whose
/// input lacks such a field is refused, never run with something else.
pub proof fn lemma_plan_uses_the_input(input: Seq<char>)
    ensures
        plan_spec("execute_command"@, input) is Ok <==> json_str_lookup(input, "/command"@) is Some,
        json_str_lookup(input, "/command"@) matches Some(c) ==> plan_spec(
            "execute_command"@,
            input,
        ) == Ok::<ActionView, Seq<char>>(ActionView::ExecuteCommand(c)),
        plan_spec("apply_diff"@, input) matches Ok(a) ==> a == ActionView::ApplyDiff(
            json_str_lookup(input, "/file_path"@)->Some_0,
            json_str_lookup(input, "/search_block"@)->Some_0,
            json_str_lookup(input, "/replace_block"@)->Some_0,
        ),
        plan_spec("apply_diff"@, input) is Ok <==> (json_str_lookup(input, "/file_path"@) is Some
            && json_str_lookup(input, "/search_block"@) is Some && json_str_lookup(
            input,
            "/replace_block"@,
        ) is Some),
        plan_spec("read_file"@, input) is Ok <==> json_str_lookup(input, "/file_path"@) is Some,
{
    lemma_tool_names_differ();
}

/// The action an approved call asks for, read from its JSON input.
pub fn plan_tool_action(call: &PendingToolCall) -> (r: Result<ToolAction, String>)
    ensures
        match (r, plan_spec(call.name@, call.input@)) {
            (Ok(a), Ok(av)) => a@ == av,
            (Err(e), Err(ev)) => e@ == ev,
            _ => false,
        },
{
    let input = call.input.as_str();
    if str_eq(call.name.as_str(), "execute_command") {
        match json_str_at(input, "/command") {
            Some(c) => Ok(ToolAction::ExecuteCommand { command: c }),
            None => Err(String::from_str("execute_command: missing 'command' field")),
        }
    } else if str_eq(call.name.as_str(), "apply_diff") {
        let f = match json_str_at(input, "/file_path") {
            Some(f) => f,
            None => {
                return Err(String::from_str("apply_diff: missing 'file_path' field"));
            },
        };
        let o = match json_str_at(input, "/search_block") {
            Some(o) => o,
            None => {
                return Err(String::from_str("apply_diff: missing 'search_block' field"));
            },
        };
        let n = match json_str_at(input, "/replace_block") {
            Some(n) => n,
            None => {
                return Err(String::from_str("apply_diff: missing 'replace_block' field"));
            },
        };
        Ok(ToolAction::ApplyDiff { file_path: f, search_block: o, replace_block: n })
    } else if str_eq(call.name.as_str(), "read_file") {
        let f = match json_str_at(input, "/file_path") {
            Some(f) => f,
            None => {
                return Err(String::from_str("read_file: missing 'file_path' field"));
            },
        };
        let full = match json_bool_at(input, "/full") {
            Some(b) => b,
            None => false,
        };
        Ok(ToolAction::ReadFile { file_path: f, full })
    } else {
        Err(concat("Unknown tool: ", call.name.as_str()))
    }
}

/// The result of a call that ran, for the assistant.
pub fn tool_result_block(tool_use_id: String, result_text: String) -> (r: ContentBlock)
    ensures
        r@ == BlockView::ToolResult(tool_use_id@, result_text@, false),
{
    ContentBlock::ToolResult { tool_use_id, content: result_text, is_error: false }
}

/// The result of an approved call for the assistant: what the call
/// produced, or why it failed, marked as an error.
pub fn approved_result_block(tool_use_id: String, outcome: Result<String, String>) -> (r:
    ContentBlock)
    ensures
        r@ == (match outcome {
            Ok(t) => BlockView::ToolResult(tool_use_id@, t@, false),
            Err(e) => BlockView::ToolResult(tool_use_id@, e@, true),
        }),
{
    match outcome {
        Ok(t) => tool_result_block(tool_use_id, t),
        Err(e) => ContentBlock::ToolResult { tool_use_id, content: e, is_error: true },
    }
}

/// The result of a call the user rejected, for the assistant.
pub fn rejection_block(tool_use_id: String, reason: &str) -> (r: ContentBlock)
    ensures
        r@ == BlockView::ToolResult(
            tool_use_id@,
            "User rejected this tool call. Reason: "@ + reason@,
            true,
        ),
{
    ContentBlock::ToolResult {
        tool_use_id,
        content: concat("User rejected this tool call. Reason: ", reason),
        is_error: true,
    }
}

/// What the chat view is told once a reply has been read.
#[derive(Debug)]
pub enum ChatOutcome {
    /// The reply asked for no tool: the conversation turn is complete.
    Complete(StreamDone),
    /// The reply asked for tools: these calls await the user's decision.
    ToolCallsPending { task_id: String, tool_calls: Vec<ToolCallInfo> },
}

/// Decide what follows a reply: with no tool call the turn is complete;
/// otherwise the calls open a batch awaiting the user's decisions.
pub fn chat_outcome(result: ChatResult, task_id: String, batches: &mut ToolBatches) -> (r:
    ChatOutcome)
    ensures
        result.tool_uses@.len() == 0 ==> final(batches).pending_view() == old(
            batches,
        ).pending_view() && final(batches).results_view() == old(batches).results_view() && (
        r matches ChatOutcome::Complete(d) && d.task_id@ == task_id@ && d.full_text@
            == result.text@),
        result.tool_uses@.len() > 0 ==> final(batches).pending_view() == old(
            batches,
        ).pending_view().insert(task_id@, result.tool_uses@.map_values(|c: PendingToolCall| c@))
            && final(batches).results_view() == old(batches).results_view().insert(
            task_id@,
            Seq::<BlockView>::empty(),
        ) && (r matches ChatOutcome::ToolCallsPending { task_id: t, tool_calls } && t@
            == task_id@ && tool_calls@.len() == result.tool_uses@.len() && forall|i: int|
            0 <= i < tool_calls@.len() ==> (#[trigger] tool_calls@[i]).id@
                == result.tool_uses@[i].id@ && tool_calls@[i].name@ == result.tool_uses@[i].name@
                && tool_calls@[i].input@ == result.tool_uses@[i].input@),
{
    if result.tool_uses.len() == 0 {
        ChatOutcome::Complete(StreamDone { task_id, full_text: result.text })
    } else {
        let events = pending_to_event_list(result.tool_uses.as_slice());
        batches.begin_batch(task_id.clone(), result.tool_uses);
        ChatOutcome::ToolCallsPending { task_id, tool_calls: events }
    }
}

/// The API key, or the error a chat message gets without one.
pub fn require_api_key(key: Option<String>) -> (r: Result<String, String>)
    ensures
        key matches Some(k) ==> (r matches Ok(v) && v@ == k@),
        key is None ==> (r matches Err(e) && e@
            == "Anthropic API key not set. Please add it in Settings."@),
{
    match key {
        Some(k) => Ok(k),
        None => Err(String::from_str("Anthropic API key not set. Please add it in Settings.")),
    }
}

/// The API key, or the error the continuation after a batch gets without one.
pub fn require_api_key_for_batch(key: Option<String>) -> (r: Result<String, String>)
    ensures
        key matches Some(k) ==> (r matches Ok(v) && v@ == k@),
        key is None ==> (r matches Err(e) && e@ == "Anthropic API key not set."@),
{
    match key {
        Some(k) => Ok(k),
        None => Err(String::from_str("Anthropic API key not set.")),
    }
}

} // verus!
