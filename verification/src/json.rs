//! JSON text: the calls into `serde_json` that the library makes, and the
//! framing of the content blocks that the library writes itself.
use vstd::prelude::*;

use vstd::string::*;

use crate::text::{concat, join};

verus! {

/// The hexadecimal digit of `n` (below 16), lower case.
pub open spec fn hex_digit(n: int) -> char {
    seq!['0', '1', '2', '3', '4', '5', '6', '7', '8', '9', 'a', 'b', 'c', 'd', 'e', 'f'][n]
}

/// How `serde_json` writes one character inside a string literal: `"` and
/// `\` escaped with a backslash, backspace, tab, line feed, form feed and
/// carriage return as `\b \t \n \f \r`, any other control character
/// below U+0020 as `\u00xx`, and every other character as itself.
pub open spec fn json_escape(c: char) -> Seq<char> {
    if c == '"' {
        seq!['\\', '"']
    } else if c == '\\' {
        seq!['\\', '\\']
    } else if c == '\u{8}' {
        seq!['\\', 'b']
    } else if c == '\t' {
        seq!['\\', 't']
    } else if c == '\n' {
        seq!['\\', 'n']
    } else if c == '\u{c}' {
        seq!['\\', 'f']
    } else if c == '\r' {
        seq!['\\', 'r']
    } else if (c as u32) < 0x20 {
        seq!['\\', 'u', '0', '0', hex_digit((c as u32) as int / 16), hex_digit((c as u32) as int % 16)]
    } else {
        seq![c]
    }
}

/// The characters of `s`, each written as in a JSON string literal.
pub open spec fn json_escaped(s: Seq<char>) -> Seq<char>
    decreases s.len(),
{
    if s.len() == 0 {
        seq![]
    } else {
        json_escaped(s.drop_last()) + json_escape(s.last())
    }
}

/// The JSON string literal that `serde_json` writes for the text `s`
/// (quotes and escapes included).
pub open spec fn json_quoted(s: Seq<char>) -> Seq<char> {
    seq!['"'] + json_escaped(s) + seq!['"']
}

/// The string found in the JSON document `text` at the JSON pointer
/// `pointer`, if `text` parses and a string is there.
pub uninterp spec fn json_str_lookup(text: Seq<char>, pointer: Seq<char>) -> Option<Seq<char>>;

/// The boolean found in the JSON document `text` at the JSON pointer
/// `pointer`, if `text` parses and a boolean is there.
pub uninterp spec fn json_bool_lookup(text: Seq<char>, pointer: Seq<char>) -> Option<bool>;

/// The compact text that `serde_json` writes for the JSON document `text`,
/// if `text` parses as JSON.
pub uninterp spec fn json_reserialized(text: Seq<char>) -> Option<Seq<char>>;

/// `serde_json::to_string` on a string slice. Claimed: the result is the
/// JSON string literal of `s` as `json_quoted` writes it out (the escape
/// table of `serde_json`'s serializer); serialising a `str` into memory
/// cannot fail, so no error is left unhandled.
#[verifier::external_body]
pub(crate) fn json_string_literal(s: &str) -> (r: String)
    ensures
        r@ == json_quoted(s@),
{
    serde_json::to_string(s).unwrap_or_default()
}

/// `serde_json::from_str::<Value>`, then `Value::pointer` and
/// `Value::as_str`. Claimed: the result is the named lookup of the pointer
/// in the document, `None` when the text does not parse.
#[verifier::external_body]
pub(crate) fn json_str_at(text: &str, pointer: &str) -> (r: Option<String>)
    ensures
        r matches Some(v) ==> json_str_lookup(text@, pointer@) == Some(v@),
        r is None ==> json_str_lookup(text@, pointer@) is None,
{
    let value: serde_json::Value = serde_json::from_str(text).ok()?;
    value.pointer(pointer).and_then(|v| v.as_str()).map(|v| v.to_string())
}

/// `serde_json::from_str::<Value>`, then `Value::pointer` and
/// `Value::as_bool`. Claimed: the result is the named lookup.
#[verifier::external_body]
pub(crate) fn json_bool_at(text: &str, pointer: &str) -> (r: Option<bool>)
    ensures
        r == json_bool_lookup(text@, pointer@),
{
    let value: serde_json::Value = serde_json::from_str(text).ok()?;
    value.pointer(pointer).and_then(|v| v.as_bool())
}

/// `serde_json::from_str::<Value>` followed by `Value::to_string`. Claimed:
/// the result is the named compact text of the document, `None` when the
/// text does not parse.
#[verifier::external_body]
pub(crate) fn json_compact(text: &str) -> (r: Option<String>)
    ensures
        r matches Some(v) ==> json_reserialized(text@) == Some(v@),
        r is None ==> json_reserialized(text@) is None,
{
    let value: serde_json::Value = serde_json::from_str(text).ok()?;
    Some(value.to_string())
}

/// One content block of a message, as the Messages API exchanges them.
#[derive(Debug)]
pub enum ContentBlock {
    /// `{"type":"text","text":..}`
    Text { text: String },
    /// `{"type":"tool_use","id":..,"name":..,"input":..}`; `input` is JSON text.
    ToolUse { id: String, name: String, input: String },
    /// `{"type":"tool_result","tool_use_id":..,"content":..}`, with
    /// `"is_error":true` when `is_error` holds.
    ToolResult { tool_use_id: String, content: String, is_error: bool },
}

/// A content block with its texts as character sequences.
pub enum BlockView {
    Text(Seq<char>),
    /// id, name, input
    ToolUse(Seq<char>, Seq<char>, Seq<char>),
    /// tool_use_id, content, is_error
    ToolResult(Seq<char>, Seq<char>, bool),
}

impl View for ContentBlock {
    type V = BlockView;

    open spec fn view(&self) -> BlockView {
        match self {
            ContentBlock::Text { text } => BlockView::Text(text@),
            ContentBlock::ToolUse { id, name, input } => BlockView::ToolUse(id@, name@, input@),
            ContentBlock::ToolResult { tool_use_id, content, is_error } => BlockView::ToolResult(
                tool_use_id@,
                content@,
                *is_error,
            ),
        }
    }
}

/// The compact JSON object of a block, keys in sorted order as `serde_json`
/// writes an object.
pub open spec fn block_json(b: BlockView) -> Seq<char> {
    match b {
        BlockView::Text(text) => "{\"text\":"@ + json_quoted(text) + ",\"type\":\"text\"}"@,
        BlockView::ToolUse(id, name, input) => "{\"id\":"@ + json_quoted(id) + ",\"input\":"@
            + input + ",\"name\":"@ + json_quoted(name) + ",\"type\":\"tool_use\"}"@,
        BlockView::ToolResult(tool_use_id, content, is_error) => "{\"content\":"@ + json_quoted(
            content,
        ) + (if is_error {
            ",\"is_error\":true"@
        } else {
            Seq::<char>::empty()
        }) + ",\"tool_use_id\":"@ + json_quoted(tool_use_id) + ",\"type\":\"tool_result\"}"@,
    }
}

/// The compact JSON array of the blocks, in order.
pub open spec fn blocks_json(bs: Seq<BlockView>) -> Seq<char> {
    "["@ + join(bs.map_values(|b: BlockView| block_json(b)), ","@) + "]"@
}

impl ContentBlock {
    /// The compact JSON text of this block.
    pub fn to_json(&self) -> (r: String)
        ensures
            r@ == block_json(self@),
    {
        match self {
            ContentBlock::Text { text } => {
                let mut r = String::from_str("{\"text\":");
                r.append(json_string_literal(text.as_str()).as_str());
                r.append(",\"type\":\"text\"}");
                r
            },
            ContentBlock::ToolUse { id, name, input } => {
                let mut r = String::from_str("{\"id\":");
                r.append(json_string_literal(id.as_str()).as_str());
                r.append(",\"input\":");
                r.append(input.as_str());
                r.append(",\"name\":");
                r.append(json_string_literal(name.as_str()).as_str());
                r.append(",\"type\":\"tool_use\"}");
                r
            },
            ContentBlock::ToolResult { tool_use_id, content, is_error } => {
                let mut r = String::from_str("{\"content\":");
                r.append(json_string_literal(content.as_str()).as_str());
                if *is_error {
                    r.append(",\"is_error\":true");
                }
                r.append(",\"tool_use_id\":");
                r.append(json_string_literal(tool_use_id.as_str()).as_str());
                r.append(",\"type\":\"tool_result\"}");
                proof {
                    if !*is_error {
                        assert(Seq::<char>::empty() + ",\"tool_use_id\":"@ =~= ",\"tool_use_id\":"@);
                    }
                }
                r
            },
        }
    }
}

/// The compact JSON array of the blocks, in order.
pub fn blocks_to_json(bs: &[ContentBlock]) -> (r: String)
    ensures
        r@ == blocks_json(bs@.map_values(|b: ContentBlock| b@)),
{
    let ghost items = bs@.map_values(|b: ContentBlock| block_json(b@));
    assert(items =~= bs@.map_values(|b: ContentBlock| b@).map_values(|b: BlockView| block_json(b)));
    let mut body = String::new();
    for i in 0..bs.len()
        invariant
            items == bs@.map_values(|b: ContentBlock| block_json(b@)),
            body@ == join(items.take(i as int), ","@),
    {
        let piece = bs[i].to_json();
        if i > 0 {
            body.append(",");
        }
        body.append(piece.as_str());
        proof {
            let t = items.take(i + 1);
            assert(t.drop_last() =~= items.take(i as int));
            if i == 0 {
                assert(join(items.take(0), ","@) =~= Seq::<char>::empty());
                assert(Seq::<char>::empty() + piece@ =~= piece@);
            }
        }
    }
    proof {
        assert(items.take(bs@.len() as int) =~= items);
    }
    let r = concat(concat("[", body.as_str()).as_str(), "]");
    r
}

} // verus!
