//! The files of a task's worktree, for the `@file` completion and viewer.
use vstd::prelude::*;
use vstd::string::*;

use crate::text::{chars_of, concat, contains_seq, lines_from, lines_of, lossy_utf8, str_contains, utf8_lossy};

verus! {

broadcast use vstd::string::group_string_axioms;

/// The lower-case text of `s` by Unicode's rules (`str::to_lowercase`).
pub uninterp spec fn lowercase(s: Seq<char>) -> Seq<char>;

/// `str::to_lowercase`. Claimed: the result is the named lower-case text.
#[verifier::external_body]
fn to_lowercase(s: &str) -> (r: String)
    ensures
        r@ == lowercase(s@),
{
    s.to_lowercase()
}

/// The most files offered at once.
pub const MAX_LISTED_FILES: usize = 20;

/// The worktree of a task for browsing its files: it must be set and be a
/// directory.
pub fn active_worktree(task_id: &str, worktree_path: Option<String>, is_dir: bool) -> (r: Result<
    String,
    String,
>)
    ensures
        (worktree_path is Some && is_dir) ==> (r is Ok && r->Ok_0@ == worktree_path->Some_0@),
        !(worktree_path is Some && is_dir) ==> (r is Err && r->Err_0@ == "Task "@ + task_id@
            + " has no active worktree"@),
{
    match worktree_path {
        Some(p) => if is_dir {
            Ok(p)
        } else {
            Err(concat(concat("Task ", task_id).as_str(), " has no active worktree"))
        },
        None => Err(concat(concat("Task ", task_id).as_str(), " has no active worktree")),
    }
}

/// A listed file is offered for the lower-cased query `q`: it is a
/// non-empty line, and its lower-cased name contains `q` (any name, for
/// an empty query).
pub open spec fn offered(file: Seq<char>, q: Seq<char>) -> bool {
    file.len() > 0 && (q.len() == 0 || contains_seq(lowercase(file), q))
}

/// The offered files among `ls`, in order.
pub open spec fn selected(ls: Seq<Seq<char>>, q: Seq<char>) -> Seq<Seq<char>>
    decreases ls.len(),
{
    if ls.len() == 0 {
        seq![]
    } else if offered(ls.last(), q) {
        selected(ls.drop_last(), q).push(ls.last())
    } else {
        selected(ls.drop_last(), q)
    }
}

/// The first `n` elements of `s` (all of them if fewer).
pub open spec fn first_n(s: Seq<Seq<char>>, n: nat) -> Seq<Seq<char>> {
    if s.len() <= n {
        s
    } else {
        s.take(n as int)
    }
}

/// The files offered for a query, given the output of `git ls-files`: the
/// first 20 listed files whose lower-cased name contains the lower-cased
/// query.
pub open spec fn files_offered(ls_files_output: Seq<u8>, query: Seq<char>) -> Seq<Seq<char>> {
    first_n(selected(lines_of(lossy_utf8(ls_files_output)), lowercase(query)), 20)
}

/// The files offered for a query, given the output of `git ls-files`.
pub fn matching_files(ls_files_output: &[u8], query: &str) -> (r: Vec<String>)
    ensures
        r@.map_values(|f: String| f@) == files_offered(ls_files_output@, query@),
{
    let text = utf8_lossy(ls_files_output);
    let v = chars_of(text.as_str());
    let ls = lines_from(v.as_slice(), 0);
    proof {
        assert(v@.skip(0) =~= v@);
    }
    let ghost lv = ls@.map_values(|l: String| l@);
    let q = to_lowercase(query);
    let q_empty = q.as_str().is_empty();
    let mut out: Vec<String> = Vec::new();
    for i in 0..ls.len()
        invariant
            lv == ls@.map_values(|l: String| l@),
            lv == lines_of(lossy_utf8(ls_files_output@)),
            q@ == lowercase(query@),
            q_empty == (q@.len() == 0),
            MAX_LISTED_FILES == 20,
            out@.map_values(|f: String| f@) == first_n(selected(lv.take(i as int), q@), 20),
    {
        let ghost sel = selected(lv.take(i as int), q@);
        proof {
            assert(lv.take(i + 1).drop_last() =~= lv.take(i as int));
            assert(lv.take(i + 1).last() == ls@[i as int]@);
        }
        let line = &ls[i];
        let keep = !line.as_str().is_empty() && (q_empty || str_contains(
            to_lowercase(line.as_str()).as_str(),
            q.as_str(),
        ));
        if keep {
            let ghost ns = sel.push(line@);
            proof {
                assert(offered(line@, q@));
                assert(selected(lv.take(i + 1), q@) == ns);
            }
            if out.len() < MAX_LISTED_FILES {
                proof {
                    if sel.len() > 20 {
                        assert(first_n(sel, 20).len() == 20);
                    }
                    assert(first_n(sel, 20) == sel);
                }
                let ghost out0 = out@.map_values(|f: String| f@);
                out.push(line.clone());
                proof {
                    assert(out@.map_values(|f: String| f@) =~= out0.push(line@));
                    assert(out@.map_values(|f: String| f@) =~= ns);
                }
            } else {
                proof {
                    assert(ns.take(20) =~= sel.take(20));
                }
            }
        }
    }
    proof {
        assert(lv.take(lv.len() as int) =~= lv);
    }
    out
}

} // verus!
