//! The work done in a task's worktree for an approved tool call: keeping
//! paths inside the worktree, editing a file, and cutting long outputs.
use vstd::prelude::*;
use vstd::string::*;

use crate::text::{
    chars_of,
    concat,
    contains_seq,
    find_from,
    find_seq,
    join,
    lemma_find_contains,
    lines_from,
    lines_of,
    lossy_utf8,
    string_of_range,
    utf8_lossy,
};

verus! {

broadcast use vstd::string::group_string_axioms;

// ---------------------------------------------------------------------------
// Paths inside the worktree
// ---------------------------------------------------------------------------

/// Whether `base` is a prefix of `path` by whole path components
/// (`Path::new(path).starts_with(base)`) on the platform the library is
/// built for.
pub uninterp spec fn component_prefix(path: Seq<char>, base: Seq<char>) -> bool;

/// `Path::starts_with`. Claimed: the result is the named component
/// prefix test, and a path starts with itself.
#[verifier::external_body]
fn path_starts_with(path: &str, base: &str) -> (r: bool)
    ensures
        r == component_prefix(path@, base@),
        path@ == base@ ==> r,
{
    std::path::Path::new(path).starts_with(base)
}

/// The outcome for a file path of a tool call, given the resolved (canonical)
/// path of the file inside the worktree, the resolved worktree root, and
/// whether the first lies under the second: the resolved path, or why the
/// file cannot be used.
pub open spec fn safe_join_spec(
    file_path: Seq<char>,
    canonical: Result<Seq<char>, Seq<char>>,
    canonical_root: Result<Seq<char>, Seq<char>>,
    inside: bool,
) -> Result<Seq<char>, Seq<char>> {
    match canonical {
        Err(e) => Err("Cannot resolve path '"@ + file_path + "': "@ + e),
        Ok(c) => match canonical_root {
            Err(e) => Err("Cannot resolve worktree root: "@ + e),
            Ok(_) => if inside {
                Ok(c)
            } else {
                Err("file_path '"@ + file_path + "' escapes the worktree boundary"@)
            },
        },
    }
}

pub open spec fn result_view(r: Result<String, String>) -> Result<Seq<char>, Seq<char>> {
    match r {
        Ok(s) => Ok(s@),
        Err(e) => Err(e@),
    }
}

/// The outcome for a file path, given whether the resolved path lies under
/// the resolved root.
pub fn decide_safe_join(
    file_path: &str,
    canonical: Result<String, String>,
    canonical_root: Result<String, String>,
    inside: bool,
) -> (r: Result<String, String>)
    ensures
        result_view(r) == safe_join_spec(
            file_path@,
            result_view(canonical),
            result_view(canonical_root),
            inside,
        ),
{
    match canonical {
        Err(e) => Err(
            concat(concat(concat("Cannot resolve path '", file_path).as_str(), "': ").as_str(), e.as_str()),
        ),
        Ok(c) => match canonical_root {
            Err(e) => Err(concat("Cannot resolve worktree root: ", e.as_str())),
            Ok(_) => if inside {
                Ok(c)
            } else {
                Err(
                    concat(
                        concat("file_path '", file_path).as_str(),
                        "' escapes the worktree boundary",
                    ),
                )
            },
        },
    }
}

/// Whether the resolved path lies under the resolved root (both resolved).
pub open spec fn resolved_inside(
    canonical: Result<Seq<char>, Seq<char>>,
    canonical_root: Result<Seq<char>, Seq<char>>,
) -> bool {
    match (canonical, canonical_root) {
        (Ok(c), Ok(root)) => component_prefix(c, root),
        _ => false,
    }
}

/// Keep `file_path` inside the worktree: given the resolutions of the
/// joined path and of the worktree root (or their errors), return the
/// resolved path exactly when it lies under the root by whole path
/// components.
pub fn safe_join(
    file_path: &str,
    canonical: Result<String, String>,
    canonical_root: Result<String, String>,
) -> (r: Result<String, String>)
    ensures
        result_view(r) == safe_join_spec(
            file_path@,
            result_view(canonical),
            result_view(canonical_root),
            resolved_inside(result_view(canonical), result_view(canonical_root)),
        ),
        r is Ok <==> resolved_inside(result_view(canonical), result_view(canonical_root)),
        (canonical is Ok && canonical_root is Ok && canonical->Ok_0@ == canonical_root->Ok_0@)
            ==> (r is Ok && r->Ok_0@ == canonical->Ok_0@),
{
    let inside = match (&canonical, &canonical_root) {
        (Ok(c), Ok(root)) => path_starts_with(c.as_str(), root.as_str()),
        _ => false,
    };
    decide_safe_join(file_path, canonical, canonical_root, inside)
}

// ---------------------------------------------------------------------------
// Editing a file
// ---------------------------------------------------------------------------

/// The text `contents` with the first occurrence of `old` replaced by `new`
/// (`str::replacen(old, new, 1)`), or `None` when `old` does not occur.
pub open spec fn replace_first(contents: Seq<char>, old: Seq<char>, new: Seq<char>) -> Option<
    Seq<char>,
> {
    match find_from(contents, old, 0) {
        Some(i) => Some(contents.take(i) + new + contents.skip(i + old.len())),
        None => None,
    }
}

/// Replace the first occurrence of `old_content` in the text of a file;
/// fails when it does not occur.
pub fn apply_edit(contents: &str, file_path: &str, old_content: &str, new_content: &str) -> (r:
    Result<String, String>)
    ensures
        contains_seq(contents@, old_content@) <==> r is Ok,
        r matches Ok(t) ==> Some(t@) == replace_first(contents@, old_content@, new_content@),
        r matches Err(e) ==> e@ == "old_content not found in '"@ + file_path@ + "'"@,
{
    let c = chars_of(contents);
    let o = chars_of(old_content);
    proof {
        lemma_find_contains(c@, o@);
    }
    match find_seq(c.as_slice(), o.as_slice(), 0) {
        None => Err(concat(concat("old_content not found in '", file_path).as_str(), "'")),
        Some(i) => {
            proof {
                crate::text::lemma_find_from_props(c@, o@, 0);
                assert(find_from(c@, o@, 0) is Some);
                let j = find_from(c@, o@, 0)->0;
                assert(j + o@.len() <= c@.len());
                assert(c@.len() == c.len());
                assert(find_from(c@, o@, 0) == Some(i as int));
                assert(i + o@.len() <= c@.len());
            }
            let mut r = string_of_range(c.as_slice(), 0, i);
            r.append(new_content);
            let tail = string_of_range(c.as_slice(), i + o.len(), c.len());
            r.append(tail.as_str());
            proof {
                assert(c@.subrange(0, i as int) =~= c@.take(i as int));
                assert(c@.subrange(i + o@.len(), c@.len() as int) =~= c@.skip(i + o@.len()));
            }
            Ok(r)
        },
    }
}

/// The report of an edit that was applied.
pub fn edit_applied_message(file_path: &str) -> (r: String)
    ensures
        r@ == "Applied edit to '"@ + file_path@ + "'"@,
{
    concat(concat("Applied edit to '", file_path).as_str(), "'")
}

/// The report of a file that could not be read.
pub fn read_failed_message(file_path: &str, error: &str) -> (r: String)
    ensures
        r@ == "Failed to read '"@ + file_path@ + "': "@ + error@,
{
    concat(concat(concat("Failed to read '", file_path).as_str(), "': ").as_str(), error)
}

/// The report of a file that could not be written.
pub fn write_failed_message(file_path: &str, error: &str) -> (r: String)
    ensures
        r@ == "Failed to write '"@ + file_path@ + "': "@ + error@,
{
    concat(concat(concat("Failed to write '", file_path).as_str(), "': ").as_str(), error)
}

// ---------------------------------------------------------------------------
// Reading a file
// ---------------------------------------------------------------------------

/// The most lines of a file shown unless the whole file is asked for.
pub const MAX_FILE_LINES: usize = 200;

/// What the assistant is shown of a file: all of it when `full` is asked
/// or it has at most 200 lines; else its first 200 lines and a note.
pub open spec fn file_text_shown(contents: Seq<char>, full: bool) -> Seq<char> {
    let ls = lines_of(contents);
    if full || ls.len() <= 200 {
        contents
    } else {
        join(ls.take(200), "\n"@) + "\n[...truncated at 200 lines. Use full=true to see all]"@
    }
}

/// What the assistant is shown of a file.
pub fn shown_file_text(contents: String, full: bool) -> (r: String)
    ensures
        r@ == file_text_shown(contents@, full),
{
    if full {
        return contents;
    }
    let v = chars_of(contents.as_str());
    let ls = lines_from(v.as_slice(), 0);
    proof {
        assert(v@.skip(0) =~= v@);
    }
    if ls.len() <= MAX_FILE_LINES {
        return contents;
    }
    let ghost lv = ls@.map_values(|l: String| l@);
    let mut out = String::new();
    for i in 0..MAX_FILE_LINES
        invariant
            lv == ls@.map_values(|l: String| l@),
            lv == lines_of(contents@),
            lv.len() > 200,
            MAX_FILE_LINES == 200,
            out@ == join(lv.take(i as int), "\n"@),
    {
        if i > 0 {
            out.append("\n");
        }
        out.append(ls[i].as_str());
        proof {
            assert(lv.take(i + 1).drop_last() =~= lv.take(i as int));
            if i == 0 {
                assert(join(lv.take(0), "\n"@) =~= Seq::<char>::empty());
                assert(Seq::<char>::empty() + lv[0] =~= lv[0]);
            }
        }
    }
    out.append("\n[...truncated at 200 lines. Use full=true to see all]");
    out
}

// ---------------------------------------------------------------------------
// Running a command
// ---------------------------------------------------------------------------

/// The most characters of command output kept.
pub const MAX_OUTPUT_CHARS: usize = 10000;

/// The output of a command as the assistant is shown it: all of it up to
/// 10 000 characters; else its first 10 000 characters and a note.
pub open spec fn output_shown(output: Seq<char>) -> Seq<char> {
    if output.len() <= 10000 {
        output
    } else {
        output.take(10000) + "\n[...truncated]"@
    }
}

/// The output cut to 10 000 characters, with a note when it was longer.
pub fn truncate_output(output: String) -> (r: String)
    ensures
        r@ == output_shown(output@),
{
    let v = chars_of(output.as_str());
    if v.len() <= MAX_OUTPUT_CHARS {
        return output;
    }
    let mut r = string_of_range(v.as_slice(), 0, MAX_OUTPUT_CHARS);
    r.append("\n[...truncated]");
    proof {
        assert(v@.subrange(0, 10000) =~= v@.take(10000));
    }
    r
}

/// The output of a command: its standard output then its standard error,
/// each decoded with invalid UTF-8 replaced.
pub open spec fn combined_output(stdout: Seq<u8>, stderr: Seq<u8>) -> Seq<char> {
    lossy_utf8(stdout) + lossy_utf8(stderr)
}

/// The output of a command as the assistant is shown it.
pub fn command_output(stdout: &[u8], stderr: &[u8]) -> (r: String)
    ensures
        r@ == output_shown(combined_output(stdout@, stderr@)),
{
    let mut s = utf8_lossy(stdout);
    let e = utf8_lossy(stderr);
    s.append(e.as_str());
    truncate_output(s)
}

/// The program and arguments that run `command` in a shell: `cmd /C` on
/// Windows, `sh -c` elsewhere.
pub fn shell_invocation(command: &str, windows: bool) -> (r: (String, Vec<String>))
    ensures
        windows ==> r.0@ == "cmd"@ && r.1@.len() == 2 && r.1@[0]@ == "/C"@ && r.1@[1]@
            == command@,
        !windows ==> r.0@ == "sh"@ && r.1@.len() == 2 && r.1@[0]@ == "-c"@ && r.1@[1]@
            == command@,
{
    let mut args = Vec::new();
    if windows {
        args.push(String::from_str("/C"));
        args.push(String::from_str(command));
        (String::from_str("cmd"), args)
    } else {
        args.push(String::from_str("-c"));
        args.push(String::from_str(command));
        (String::from_str("sh"), args)
    }
}

} // verus!
