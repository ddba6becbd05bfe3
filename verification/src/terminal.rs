//! Terminals of a task: where they start, what their output events carry.
use vstd::prelude::*;
use vstd::string::*;

use crate::text::concat;

verus! {

broadcast use vstd::string::group_string_axioms;

/// The character of the standard base64 alphabet for the six bits `n`.
pub open spec fn base64_digit(n: int) -> char {
    seq!['A', 'B', 'C', 'D', 'E', 'F', 'G', 'H', 'I', 'J', 'K', 'L', 'M', 'N', 'O', 'P', 'Q', 'R', 'S', 'T', 'U', 'V', 'W', 'X', 'Y', 'Z', 'a', 'b', 'c', 'd', 'e', 'f', 'g', 'h', 'i', 'j', 'k', 'l', 'm', 'n', 'o', 'p', 'q', 'r', 's', 't', 'u', 'v', 'w', 'x', 'y', 'z', '0', '1', '2', '3', '4', '5', '6', '7', '8', '9', '+', '/'][n]
}

/// The standard base64 text (RFC 4648 alphabet, with `=` padding) of some
/// bytes: each three bytes become four characters, and a final one or two
/// bytes become two or three characters padded to four.
pub open spec fn base64_standard(bytes: Seq<u8>) -> Seq<char>
    decreases bytes.len(),
{
    if bytes.len() == 0 {
        seq![]
    } else if bytes.len() == 1 {
        let b0 = bytes[0] as int;
        seq![base64_digit(b0 / 4), base64_digit((b0 % 4) * 16), '=', '=']
    } else if bytes.len() == 2 {
        let b0 = bytes[0] as int;
        let b1 = bytes[1] as int;
        seq![
            base64_digit(b0 / 4),
            base64_digit((b0 % 4) * 16 + b1 / 16),
            base64_digit((b1 % 16) * 4),
            '=',
        ]
    } else {
        let b0 = bytes[0] as int;
        let b1 = bytes[1] as int;
        let b2 = bytes[2] as int;
        seq![
            base64_digit(b0 / 4),
            base64_digit((b0 % 4) * 16 + b1 / 16),
            base64_digit((b1 % 16) * 4 + b2 / 64),
            base64_digit(b2 % 64),
        ] + base64_standard(bytes.skip(3))
    }
}

/// `base64::engine::general_purpose::STANDARD.encode`. Claimed: the result
/// is the standard encoding of the bytes as `base64_standard` writes it out.
#[verifier::external_body]
fn base64_encode(bytes: &[u8]) -> (r: String)
    ensures
        r@ == base64_standard(bytes@),
{
    base64::Engine::encode(&base64::engine::general_purpose::STANDARD, bytes)
}

/// Output of a terminal, base64-encoded.
#[derive(Debug)]
pub struct StdoutPayload {
    pub terminal_id: String,
    pub data: String,
}

/// The end of a terminal's shell, with its exit code when known.
#[derive(Debug)]
pub struct ExitPayload {
    pub terminal_id: String,
    pub code: Option<u32>,
}

/// The output event for bytes read from a terminal.
pub fn stdout_payload(terminal_id: String, bytes: &[u8]) -> (r: StdoutPayload)
    ensures
        r.terminal_id@ == terminal_id@,
        r.data@ == base64_standard(bytes@),
{
    StdoutPayload { terminal_id, data: base64_encode(bytes) }
}

/// The exit code reported for a shell: 0 when it succeeded, 1 otherwise.
pub fn exit_code(success: bool) -> (r: u32)
    ensures
        r == (if success {
            0u32
        } else {
            1u32
        }),
{
    if success {
        0
    } else {
        1
    }
}

/// The shell a terminal runs: the one named by `COMSPEC` (Windows) or
/// `SHELL`, else `cmd.exe` or `/bin/bash`.
pub fn terminal_shell(from_env: Option<String>, windows: bool) -> (r: String)
    ensures
        from_env matches Some(s) ==> r@ == s@,
        from_env is None && windows ==> r@ == "cmd.exe"@,
        from_env is None && !windows ==> r@ == "/bin/bash"@,
{
    match from_env {
        Some(s) => s,
        None => if windows {
            String::from_str("cmd.exe")
        } else {
            String::from_str("/bin/bash")
        },
    }
}

/// The directory a terminal of a task starts in: its worktree, when it is
/// set and is a directory.
pub fn terminal_cwd(worktree_path: Option<String>, is_dir: bool) -> (r: Result<String, String>)
    ensures
        (worktree_path is Some && is_dir) ==> (r is Ok && r->Ok_0@ == worktree_path->Some_0@),
        !(worktree_path is Some && is_dir) ==> (r is Err && r->Err_0@
            == "Worktree path not set or does not exist"@),
{
    match worktree_path {
        Some(p) => if is_dir {
            Ok(p)
        } else {
            Err(String::from_str("Worktree path not set or does not exist"))
        },
        None => Err(String::from_str("Worktree path not set or does not exist")),
    }
}

/// The error for a terminal that is not open.
pub fn no_terminal_error(terminal_id: &str) -> (r: String)
    ensures
        r@ == "No terminal: "@ + terminal_id@,
{
    concat("No terminal: ", terminal_id)
}

} // verus!
