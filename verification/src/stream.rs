//! Reading the server-sent events of a streamed reply of the Messages API.
//!
//! The bytes arrive in chunks. They are cut into lines; a line
//! `data: {...}` carries one JSON event. Text deltas are passed on as they
//! come, and the content blocks of the reply are assembled: text blocks and
//! tool calls, with the JSON input of each call.
use vstd::prelude::*;
use vstd::string::*;

use crate::claude::{ChatResult, PendingToolCall, StreamChunk, ToolCallView};
use crate::json::{
    blocks_json,
    blocks_to_json,
    json_compact,
    json_reserialized,
    json_str_at,
    json_str_lookup,
    BlockView,
    ContentBlock,
};
use crate::text::{
    chars_eq,
    chars_of,
    concat,
    find_char,
    index_of_char,
    lemma_index_of_char_props,
    lemma_index_of_char_skip,
    lossy_utf8,
    starts_with,
    starts_with_chars,
    string_of_range,
    trim,
    trim_bounds,
    utf8_lossy,
};

verus! {

broadcast use vstd::string::group_string_axioms;

// ---------------------------------------------------------------------------
// The model
// ---------------------------------------------------------------------------

/// The content block being received.
pub struct BlockAccView {
    pub block_type: Seq<char>,
    pub id: Seq<char>,
    pub name: Seq<char>,
    pub partial_json: Seq<char>,
    pub text: Seq<char>,
}

/// What has been read of the reply so far, apart from the unread bytes.
pub struct StreamAcc {
    pub full_text: Seq<char>,
    pub current: Option<BlockAccView>,
    pub tool_uses: Seq<ToolCallView>,
    pub blocks: Seq<BlockView>,
}

/// The tool calls among the blocks, in order.
pub open spec fn calls_of(bs: Seq<BlockView>) -> Seq<ToolCallView>
    decreases bs.len(),
{
    if bs.len() == 0 {
        seq![]
    } else {
        match bs.last() {
            BlockView::ToolUse(id, name, input) => calls_of(bs.drop_last()).push(
                ToolCallView { id, name, input },
            ),
            _ => calls_of(bs.drop_last()),
        }
    }
}

/// The tool calls of the reply are exactly the tool-use blocks of its content.
pub open spec fn consistent(acc: StreamAcc) -> bool {
    acc.tool_uses == calls_of(acc.blocks)
}

pub open spec fn or_empty(o: Option<Seq<char>>) -> Seq<char> {
    match o {
        Some(s) => s,
        None => Seq::<char>::empty(),
    }
}

/// The effect of one event (the JSON text `d`): the new state and the text
/// to pass on, if any.
pub open spec fn handle_event(acc: StreamAcc, d: Seq<char>) -> (StreamAcc, Option<Seq<char>>) {
    let ty = or_empty(json_str_lookup(d, "/type"@));
    if ty == "content_block_start"@ {
        (
            StreamAcc {
                current: Some(
                    BlockAccView {
                        block_type: or_empty(json_str_lookup(d, "/content_block/type"@)),
                        id: or_empty(json_str_lookup(d, "/content_block/id"@)),
                        name: or_empty(json_str_lookup(d, "/content_block/name"@)),
                        partial_json: Seq::<char>::empty(),
                        text: Seq::<char>::empty(),
                    },
                ),
                ..acc
            },
            None,
        )
    } else if ty == "content_block_delta"@ {
        let dt = or_empty(json_str_lookup(d, "/delta/type"@));
        if dt == "text_delta"@ {
            match json_str_lookup(d, "/delta/text"@) {
                Some(t) => (
                    StreamAcc {
                        full_text: acc.full_text + t,
                        current: match acc.current {
                            Some(b) => Some(BlockAccView { text: b.text + t, ..b }),
                            None => None,
                        },
                        ..acc
                    },
                    Some(t),
                ),
                None => (acc, None),
            }
        } else if dt == "input_json_delta"@ {
            match json_str_lookup(d, "/delta/partial_json"@) {
                Some(p) => (
                    StreamAcc {
                        current: match acc.current {
                            Some(b) => Some(BlockAccView { partial_json: b.partial_json + p, ..b }),
                            None => None,
                        },
                        ..acc
                    },
                    None,
                ),
                None => (acc, None),
            }
        } else {
            (acc, None)
        }
    } else if ty == "content_block_stop"@ {
        match acc.current {
            None => (acc, None),
            Some(b) => {
                if b.block_type == "tool_use"@ {
                    let input = match json_reserialized(b.partial_json) {
                        Some(t) => t,
                        None => "{}"@,
                    };
                    (
                        StreamAcc {
                            current: None,
                            tool_uses: acc.tool_uses.push(
                                ToolCallView { id: b.id, name: b.name, input },
                            ),
                            blocks: acc.blocks.push(BlockView::ToolUse(b.id, b.name, input)),
                            ..acc
                        },
                        None,
                    )
                } else if b.block_type == "text"@ {
                    (
                        StreamAcc {
                            current: None,
                            blocks: acc.blocks.push(BlockView::Text(b.text)),
                            ..acc
                        },
                        None,
                    )
                } else {
                    (StreamAcc { current: None, ..acc }, None)
                }
            },
        }
    } else {
        (acc, None)
    }
}

/// A reply's tool calls are all kept: the event that ends a tool-use block
/// appends exactly one call, with the block's id and name and its input in
/// compact form (`{}` when it does not parse), and one matching tool-use
/// block, to what was read, whatever was read before. Nothing read before
/// changes, the block is closed, and no text is passed on.
pub proof fn lemma_tool_use_stop_appends(acc: StreamAcc, d: Seq<char>)
    requires
        json_str_lookup(d, "/type"@) == Some("content_block_stop"@),
        acc.current matches Some(b) && b.block_type == "tool_use"@,
    ensures
        ({
            let b = acc.current->Some_0;
            let input = match json_reserialized(b.partial_json) {
                Some(t) => t,
                None => "{}"@,
            };
            let (a, e) = handle_event(acc, d);
            &&& a.tool_uses == acc.tool_uses.push(ToolCallView { id: b.id, name: b.name, input })
            &&& a.tool_uses.len() == acc.tool_uses.len() + 1
            &&& a.blocks == acc.blocks.push(BlockView::ToolUse(b.id, b.name, input))
            &&& a.current is None
            &&& a.full_text == acc.full_text
            &&& e is None
        }),
{
    reveal_strlit("content_block_stop");
    reveal_strlit("content_block_start");
    reveal_strlit("content_block_delta");
    assert("content_block_stop"@ != "content_block_start"@ && "content_block_stop"@
        != "content_block_delta"@) by {
        assert("content_block_stop"@[16] != "content_block_start"@[16]);
        assert("content_block_stop"@[14] != "content_block_delta"@[14]);
    }
}

/// Reading an event never loses or changes what was read: the calls and
/// blocks read before stay, in order, at the front, and at most one of
/// each is added.
pub proof fn lemma_event_keeps_what_was_read(acc: StreamAcc, d: Seq<char>)
    ensures
        ({
            let a = handle_event(acc, d).0;
            &&& a.tool_uses.take(acc.tool_uses.len() as int) == acc.tool_uses
            &&& acc.tool_uses.len() <= a.tool_uses.len() <= acc.tool_uses.len() + 1
            &&& a.blocks.take(acc.blocks.len() as int) == acc.blocks
            &&& acc.blocks.len() <= a.blocks.len() <= acc.blocks.len() + 1
            &&& starts_with(a.full_text, acc.full_text)
        }),
{
    let a = handle_event(acc, d).0;
    assert(a.tool_uses.take(acc.tool_uses.len() as int) =~= acc.tool_uses);
    assert(a.blocks.take(acc.blocks.len() as int) =~= acc.blocks);
    assert(a.full_text.take(acc.full_text.len() as int) =~= acc.full_text);
}

/// The effect of one line: the new state, the texts to pass on, and whether
/// the line was the `[DONE]` marker.
pub open spec fn handle_line(acc: StreamAcc, line: Seq<char>) -> (StreamAcc, Seq<Seq<char>>, bool) {
    let t = trim(line);
    if starts_with(t, "data: "@) {
        let d = t.skip("data: "@.len() as int);
        if d == "[DONE]"@ {
            (acc, seq![], true)
        } else {
            let (a, e) = handle_event(acc, d);
            (
                a,
                match e {
                    Some(x) => seq![x],
                    None => seq![],
                },
                false,
            )
        }
    } else {
        (acc, seq![], false)
    }
}

/// Reading the complete lines of `buf` in order, up to the `[DONE]` marker:
/// the bytes left unread, the new state and the texts to pass on.
pub open spec fn process_buffer(buf: Seq<char>, acc: StreamAcc) -> (
    Seq<char>,
    StreamAcc,
    Seq<Seq<char>>,
)
    decreases buf.len(),
{
    match index_of_char(buf, '\n', 0) {
        None => (buf, acc, seq![]),
        Some(p) => {
            proof {
                lemma_index_of_char_props(buf, '\n', 0);
            }
            let (a, e, done) = handle_line(acc, buf.take(p));
            if done {
                (buf.skip(p + 1), a, e)
            } else {
                let (b2, a2, e2) = process_buffer(buf.skip(p + 1), a);
                (b2, a2, e + e2)
            }
        },
    }
}

pub proof fn lemma_handle_event_consistent(acc: StreamAcc, d: Seq<char>)
    requires
        consistent(acc),
    ensures
        consistent(handle_event(acc, d).0),
{
    let r = handle_event(acc, d).0;
    if r.blocks.len() > acc.blocks.len() {
        assert(r.blocks.drop_last() =~= acc.blocks);
    } else {
        assert(r.blocks =~= acc.blocks);
    }
}

/// Every reading step keeps the tool calls equal to the tool-use blocks.
pub proof fn lemma_process_consistent(buf: Seq<char>, acc: StreamAcc)
    requires
        consistent(acc),
    ensures
        consistent(process_buffer(buf, acc).1),
    decreases buf.len(),
{
    match index_of_char(buf, '\n', 0) {
        None => {},
        Some(p) => {
            lemma_index_of_char_props(buf, '\n', 0);
            let t = trim(buf.take(p));
            if starts_with(t, "data: "@) {
                lemma_handle_event_consistent(acc, t.skip("data: "@.len() as int));
            }
            let (a, e, done) = handle_line(acc, buf.take(p));
            if !done {
                lemma_process_consistent(buf.skip(p + 1), a);
            }
        },
    }
}

/// The text gathered is the text before plus every text passed on.
pub open spec fn concat_all(ts: Seq<Seq<char>>) -> Seq<char>
    decreases ts.len(),
{
    if ts.len() == 0 {
        seq![]
    } else {
        concat_all(ts.drop_last()) + ts.last()
    }
}

proof fn lemma_concat_all_append(a: Seq<Seq<char>>, b: Seq<Seq<char>>)
    ensures
        concat_all(a + b) == concat_all(a) + concat_all(b),
    decreases b.len(),
{
    if b.len() == 0 {
        assert(a + b =~= a);
        assert(concat_all(a) + Seq::<char>::empty() =~= concat_all(a));
    } else {
        lemma_concat_all_append(a, b.drop_last());
        assert((a + b).drop_last() =~= a + b.drop_last());
    }
}

/// The whole text of the reply is the text gathered before followed by all
/// the text passed on while reading.
pub proof fn lemma_process_full_text(buf: Seq<char>, acc: StreamAcc)
    ensures
        process_buffer(buf, acc).1.full_text == acc.full_text + concat_all(
            process_buffer(buf, acc).2,
        ),
    decreases buf.len(),
{
    match index_of_char(buf, '\n', 0) {
        None => {
            assert(acc.full_text + Seq::<char>::empty() =~= acc.full_text);
        },
        Some(p) => {
            lemma_index_of_char_props(buf, '\n', 0);
            let (a, e, done) = handle_line(acc, buf.take(p));
            assert(a.full_text == acc.full_text + concat_all(e)) by {
                if e.len() == 1 {
                    assert(e.drop_last() =~= Seq::<Seq<char>>::empty());
                    assert(concat_all(Seq::<Seq<char>>::empty()) =~= Seq::<char>::empty());
                    assert(Seq::<char>::empty() + e[0] =~= e[0]);
                    assert(concat_all(e) =~= e[0]);
                } else {
                    assert(e.len() == 0);
                    assert(acc.full_text + Seq::<char>::empty() =~= acc.full_text);
                }
            }
            if !done {
                lemma_process_full_text(buf.skip(p + 1), a);
                let (b2, a2, e2) = process_buffer(buf.skip(p + 1), a);
                lemma_concat_all_append(e, e2);
                assert(a2.full_text =~= acc.full_text + concat_all(e + e2));
            }
        },
    }
}

/// A line that is the `[DONE]` marker.
pub open spec fn is_done_line(line: Seq<char>) -> bool {
    let t = trim(line);
    starts_with(t, "data: "@) && t.skip("data: "@.len() as int) == "[DONE]"@
}

/// None of the complete lines of `buf` is the `[DONE]` marker.
pub open spec fn no_done_line(buf: Seq<char>) -> bool
    decreases buf.len(),
{
    match index_of_char(buf, '\n', 0) {
        None => true,
        Some(p) => {
            proof {
                lemma_index_of_char_props(buf, '\n', 0);
            }
            !is_done_line(buf.take(p)) && no_done_line(buf.skip(p + 1))
        },
    }
}

proof fn lemma_index_of_char_append(a: Seq<char>, b: Seq<char>, c: char, k: int)
    requires
        0 <= k,
        index_of_char(a, c, k) is Some,
    ensures
        index_of_char(a + b, c, k) == index_of_char(a, c, k),
    decreases a.len() - k,
{
    if k < a.len() && a[k] != c {
        lemma_index_of_char_append(a, b, c, k + 1);
    }
}

/// The text of a reply may arrive in pieces cut anywhere: reading the first
/// piece and then the second reads the same as reading both at once, as
/// long as the first holds no `[DONE]` marker.
pub proof fn lemma_chunking(b: Seq<char>, t: Seq<char>, acc: StreamAcc)
    requires
        no_done_line(b),
    ensures
        ({
            let (r1, a1, e1) = process_buffer(b, acc);
            let (r2, a2, e2) = process_buffer(r1 + t, a1);
            process_buffer(b + t, acc) == (r2, a2, e1 + e2)
        }),
    decreases b.len(),
{
    match index_of_char(b, '\n', 0) {
        None => {
            let (r2, a2, e2) = process_buffer(b + t, acc);
            assert(Seq::<Seq<char>>::empty() + e2 =~= e2);
        },
        Some(p) => {
            lemma_index_of_char_props(b, '\n', 0);
            lemma_index_of_char_append(b, t, '\n', 0);
            assert((b + t).take(p) =~= b.take(p));
            assert((b + t).skip(p + 1) =~= b.skip(p + 1) + t);
            let (a, e, done) = handle_line(acc, b.take(p));
            assert(!done);
            lemma_chunking(b.skip(p + 1), t, a);
            let (r1, a1, e1) = process_buffer(b.skip(p + 1), a);
            let (r2, a2, e2) = process_buffer(r1 + t, a1);
            assert(e + (e1 + e2) =~= (e + e1) + e2);
        },
    }
}

// ---------------------------------------------------------------------------
// The reader
// ---------------------------------------------------------------------------

/// The content block being received.
pub struct BlockAccumulator {
    pub block_type: String,
    pub id: String,
    pub name: String,
    pub partial_json: String,
    pub text: String,
}

impl View for BlockAccumulator {
    type V = BlockAccView;

    open spec fn view(&self) -> BlockAccView {
        BlockAccView {
            block_type: self.block_type@,
            id: self.id@,
            name: self.name@,
            partial_json: self.partial_json@,
            text: self.text@,
        }
    }
}

/// The reader of one streamed reply for one task.
pub struct StreamParser {
    task_id: String,
    buffer: Vec<char>,
    full_text: String,
    current: Option<BlockAccumulator>,
    tool_uses: Vec<PendingToolCall>,
    blocks: Vec<ContentBlock>,
}

pub open spec fn opt_acc_view(o: Option<BlockAccumulator>) -> Option<BlockAccView> {
    match o {
        Some(b) => Some(b@),
        None => None,
    }
}

impl StreamParser {
    /// The task the reply belongs to.
    pub closed spec fn task(&self) -> Seq<char> {
        self.task_id@
    }

    /// The bytes received and not yet read as a line.
    pub closed spec fn pending_text(&self) -> Seq<char> {
        self.buffer@
    }

    /// What has been read of the reply.
    pub closed spec fn acc(&self) -> StreamAcc {
        StreamAcc {
            full_text: self.full_text@,
            current: opt_acc_view(self.current),
            tool_uses: self.tool_uses@.map_values(|c: PendingToolCall| c@),
            blocks: self.blocks@.map_values(|b: ContentBlock| b@),
        }
    }

    /// A reader for a reply that has not started.
    pub fn new(task_id: String) -> (r: StreamParser)
        ensures
            r.task() == task_id@,
            r.pending_text() == Seq::<char>::empty(),
            r.acc() == (StreamAcc {
                full_text: Seq::<char>::empty(),
                current: None,
                tool_uses: Seq::<ToolCallView>::empty(),
                blocks: Seq::<BlockView>::empty(),
            }),
            consistent(r.acc()),
    {
        let r = StreamParser {
            task_id,
            buffer: Vec::new(),
            full_text: String::new(),
            current: None,
            tool_uses: Vec::new(),
            blocks: Vec::new(),
        };
        proof {
            assert(r.acc().tool_uses =~= Seq::<ToolCallView>::empty());
            assert(r.acc().blocks =~= Seq::<BlockView>::empty());
        }
        r
    }

    /// Apply one event.
    fn handle_event(&mut self, d: &str) -> (r: Option<String>)
        ensures
            final(self).task() == old(self).task(),
            final(self).pending_text() == old(self).pending_text(),
            (final(self).acc(), (match r {
                Some(t) => Some(t@),
                None => None::<Seq<char>>,
            })) == handle_event(old(self).acc(), d@),
    {
        let ghost a0 = self.acc();
        let ty = match json_str_at(d, "/type") {
            Some(t) => t,
            None => String::new(),
        };
        if str_eq_lit(&ty, "content_block_start") {
            let bt = match json_str_at(d, "/content_block/type") {
                Some(t) => t,
                None => String::new(),
            };
            let id = match json_str_at(d, "/content_block/id") {
                Some(t) => t,
                None => String::new(),
            };
            let name = match json_str_at(d, "/content_block/name") {
                Some(t) => t,
                None => String::new(),
            };
            self.current = Some(
                BlockAccumulator {
                    block_type: bt,
                    id,
                    name,
                    partial_json: String::new(),
                    text: String::new(),
                },
            );
            return None;
        } else if str_eq_lit(&ty, "content_block_delta") {
            let dt = match json_str_at(d, "/delta/type") {
                Some(t) => t,
                None => String::new(),
            };
            if str_eq_lit(&dt, "text_delta") {
                match json_str_at(d, "/delta/text") {
                    Some(t) => {
                        self.full_text.append(t.as_str());
                        match &mut self.current {
                            Some(b) => {
                                b.text.append(t.as_str());
                            },
                            None => {},
                        }
                        return Some(t);
                    },
                    None => {
                        return None;
                    },
                }
            } else if str_eq_lit(&dt, "input_json_delta") {
                match json_str_at(d, "/delta/partial_json") {
                    Some(p) => {
                        match &mut self.current {
                            Some(b) => {
                                b.partial_json.append(p.as_str());
                            },
                            None => {},
                        }
                        return None;
                    },
                    None => {
                        return None;
                    },
                }
            } else {
                return None;
            }
        } else if str_eq_lit(&ty, "content_block_stop") {
            let cur = self.current.take();
            match cur {
                None => {
                    return None;
                },
                Some(b) => {
                    if str_eq_lit(&b.block_type, "tool_use") {
                        let input = match json_compact(b.partial_json.as_str()) {
                            Some(t) => t,
                            None => String::from_str("{}"),
                        };
                        let call = PendingToolCall {
                            id: b.id.clone(),
                            name: b.name.clone(),
                            input: input.clone(),
                        };
                        self.tool_uses.push(call);
                        self.blocks.push(ContentBlock::ToolUse { id: b.id, name: b.name, input });
                        proof {
                            assert(self.acc().tool_uses =~= a0.tool_uses.push(
                                self.tool_uses@.last()@,
                            ));
                            assert(self.acc().blocks =~= a0.blocks.push(self.blocks@.last()@));
                        }
                    } else if str_eq_lit(&b.block_type, "text") {
                        self.blocks.push(ContentBlock::Text { text: b.text });
                        proof {
                            assert(self.acc().blocks =~= a0.blocks.push(self.blocks@.last()@));
                        }
                    }
                    return None;
                },
            }
        } else {
            return None;
        }
    }

    /// Read the complete lines received so far, up to a `[DONE]` marker, and
    /// return the pieces of text to pass on, in order.
    fn process_lines(&mut self) -> (r: Vec<StreamChunk>)
        ensures
            final(self).task() == old(self).task(),
            (final(self).pending_text(), final(self).acc(), r@.map_values(
                |c: StreamChunk| c.text@,
            )) == process_buffer(old(self).pending_text(), old(self).acc()),
            forall|i: int| 0 <= i < r@.len() ==> (#[trigger] r@[i]).task_id@ == old(self).task(),
    {
        let ghost target = process_buffer(self.buffer@, self.acc());
        let ghost buf0 = self.buffer@;
        let prefix = chars_of("data: ");
        let done_marker = chars_of("[DONE]");
        let mut out: Vec<StreamChunk> = Vec::new();
        let mut pos: usize = 0;
        proof {
            assert(buf0.skip(0) =~= buf0);
            assert(out@.map_values(|c: StreamChunk| c.text@) + target.2 =~= target.2);
        }
        loop
            invariant_except_break
                ({
                    let rest = process_buffer(buf0.skip(pos as int), self.acc());
                    &&& rest.0 == target.0
                    &&& rest.1 == target.1
                    &&& out@.map_values(|c: StreamChunk| c.text@) + rest.2 == target.2
                }),
            invariant
                self.buffer@ == buf0,
                self.task() == old(self).task(),
                prefix@ == "data: "@,
                done_marker@ == "[DONE]"@,
                pos <= buf0.len(),
                forall|i: int| 0 <= i < out@.len() ==> (#[trigger] out@[i]).task_id@ == old(
                    self,
                ).task(),
            ensures
                self.buffer@ == buf0,
                pos <= buf0.len(),
                target.0 == buf0.skip(pos as int),
                target.1 == self.acc(),
                out@.map_values(|c: StreamChunk| c.text@) == target.2,
            decreases buf0.len() - pos,
        {
            let ghost rest = buf0.skip(pos as int);
            let ghost out0 = out@.map_values(|c: StreamChunk| c.text@);
            match find_char(self.buffer.as_slice(), '\n', pos) {
                None => {
                    proof {
                        lemma_index_of_char_skip(buf0, '\n', pos as int, 0);
                        assert(out0 + Seq::<Seq<char>>::empty() =~= out0);
                    }
                    break;
                },
                Some(nl) => {
                    proof {
                        lemma_index_of_char_props(buf0, '\n', pos as int);
                        lemma_index_of_char_skip(buf0, '\n', pos as int, 0);
                        assert(buf0.len() == self.buffer.len());
                        assert(index_of_char(buf0, '\n', pos as int) == Some(nl as int));
                        assert(pos <= nl < buf0.len());
                        assert(rest.take(nl - pos) =~= buf0.subrange(pos as int, nl as int));
                        assert(rest.skip(nl - pos + 1) =~= buf0.skip(nl + 1));
                    }
                    let (a, b) = trim_bounds(self.buffer.as_slice(), pos, nl);
                    let line = slice_range(self.buffer.as_slice(), a, b);
                    let ghost acc0 = self.acc();
                    let ghost pos0 = pos as int;
                    let ghost tl = rest.take(nl - pos0);
                    proof {
                        assert(trim(tl) == line@);
                    }
                    pos = nl + 1;
                    if starts_with_chars(line.as_slice(), prefix.as_slice()) {
                        let data = string_of_range(line.as_slice(), prefix.len(), line.len());
                        proof {
                            assert(data@ =~= line@.skip("data: "@.len() as int));
                        }
                        let dv = chars_of(data.as_str());
                        if chars_eq(dv.as_slice(), done_marker.as_slice()) {
                            proof {
                                assert(out0 + Seq::<Seq<char>>::empty() =~= out0);
                                assert(handle_line(acc0, tl) == (acc0, Seq::<Seq<char>>::empty(), true));
                            }
                            break;
                        }
                        let emitted = self.handle_event(data.as_str());
                        match emitted {
                            Some(t) => {
                                out.push(StreamChunk { task_id: self.task_id.clone(), text: t });
                                proof {
                                    assert(out@.map_values(|c: StreamChunk| c.text@) =~= out0.push(
                                        out@.last().text@,
                                    ));
                                }
                            },
                            None => {
                                proof {
                                    assert(out@.map_values(|c: StreamChunk| c.text@) =~= out0);
                                }
                            },
                        }
                        proof {
                            let r2 = process_buffer(buf0.skip(pos as int), self.acc());
                            let hl = handle_line(acc0, tl);
                            let d = line@.skip("data: "@.len() as int);
                            assert(d == data@);
                            assert(d != "[DONE]"@);
                            assert(hl.0 == self.acc());
                            assert(!hl.2);
                            let em = hl.1;
                            assert(process_buffer(rest, acc0) == (r2.0, r2.1, em + r2.2));
                            assert(target.2 == out0 + (em + r2.2));
                            assert(out0 + (em + r2.2) =~= (out0 + em) + r2.2);
                            if em.len() == 1 {
                                assert(out@.map_values(|c: StreamChunk| c.text@) =~= out0 + em);
                            } else {
                                assert(out0 + em =~= out0);
                            }
                        }
                    } else {
                        proof {
                            let r2 = process_buffer(buf0.skip(pos as int), self.acc());
                            let hl = handle_line(acc0, tl);
                            assert(hl == (acc0, Seq::<Seq<char>>::empty(), false));
                            assert(process_buffer(rest, acc0) == (r2.0, r2.1, hl.1 + r2.2));
                            assert(Seq::<Seq<char>>::empty() + r2.2 =~= r2.2);
                        }
                    }
                },
            }
        }
        let tail = self.buffer.split_off(pos);
        self.buffer = tail;
        proof {
            assert(self.buffer@ =~= buf0.skip(pos as int));
        }
        out
    }

    /// Take in one chunk of the response body and read every line it
    /// completes; return the pieces of text to pass on, in order.
    pub fn feed(&mut self, chunk: &[u8]) -> (r: Vec<StreamChunk>)
        ensures
            final(self).task() == old(self).task(),
            (final(self).pending_text(), final(self).acc(), r@.map_values(
                |c: StreamChunk| c.text@,
            )) == process_buffer(old(self).pending_text() + lossy_utf8(chunk@), old(self).acc()),
            forall|i: int| 0 <= i < r@.len() ==> (#[trigger] r@[i]).task_id@ == old(self).task(),
            consistent(old(self).acc()) ==> consistent(final(self).acc()),
    {
        let text = utf8_lossy(chunk);
        let cs = chars_of(text.as_str());
        let mut i: usize = 0;
        let ghost b0 = self.buffer@;
        while i < cs.len()
            invariant
                self.task() == old(self).task(),
                self.acc() == old(self).acc(),
                b0 == old(self).pending_text(),
                i <= cs@.len(),
                self.buffer@ == b0 + cs@.take(i as int),
            decreases cs.len() - i,
        {
            self.buffer.push(cs[i]);
            proof {
                assert(b0 + cs@.take(i + 1) =~= (b0 + cs@.take(i as int)).push(cs@[i as int]));
            }
            i += 1;
        }
        proof {
            assert(cs@.take(cs@.len() as int) =~= cs@);
            if consistent(self.acc()) {
                lemma_process_consistent(self.buffer@, self.acc());
            }
        }
        self.process_lines()
    }

    /// The reply as read: its text, its tool calls and its content blocks.
    pub fn finish(self) -> (r: ChatResult)
        ensures
            r.text@ == self.acc().full_text,
            r.tool_uses@.map_values(|c: PendingToolCall| c@) == self.acc().tool_uses,
            r.full_content@ == blocks_json(self.acc().blocks),
    {
        let full_content = blocks_to_json(self.blocks.as_slice());
        ChatResult { text: self.full_text, tool_uses: self.tool_uses, full_content }
    }
}

/// The characters `v[from..to]`.
fn slice_range(v: &[char], from: usize, to: usize) -> (r: Vec<char>)
    requires
        from <= to <= v@.len(),
    ensures
        r@ == v@.subrange(from as int, to as int),
{
    let mut r: Vec<char> = Vec::new();
    let mut i = from;
    while i < to
        invariant
            from <= i <= to <= v@.len(),
            r@ == v@.subrange(from as int, i as int),
        decreases to - i,
    {
        r.push(v[i]);
        proof {
            assert(r@ =~= v@.subrange(from as int, i + 1));
        }
        i += 1;
    }
    r
}

/// Whether the string `s` is the literal `lit`.
fn str_eq_lit(s: &String, lit: &str) -> (r: bool)
    ensures
        r == (s@ == lit@),
{
    let a = chars_of(s.as_str());
    let b = chars_of(lit);
    chars_eq(a.as_slice(), b.as_slice())
}

} // verus!
