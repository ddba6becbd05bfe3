//! The git repositories the board works on.
use vstd::prelude::*;
use vstd::string::*;

use crate::ids::new_id;
use crate::paths::{path_file_name, path_file_name_of};
use crate::text::{concat, contains_seq, str_contains};

verus! {

broadcast use vstd::string::group_string_axioms;

/// A repository on the board.
#[derive(Debug)]
pub struct Repo {
    pub id: String,
    pub name: String,
    pub root_path: String,
}

/// Accept a directory that exists and holds a `.git` entry.
pub fn check_repo_dir(path: &str, is_dir: bool, has_git: bool) -> (r: Result<(), String>)
    ensures
        r is Ok <==> is_dir && has_git,
        !is_dir ==> (r matches Err(e) && e@ == "Path does not exist or is not a directory: "@
            + path@),
        is_dir && !has_git ==> (r matches Err(e) && e@
            == "Selected directory is not a git repository"@),
{
    if !is_dir {
        Err(concat("Path does not exist or is not a directory: ", path))
    } else if !has_git {
        Err(String::from_str("Selected directory is not a git repository"))
    } else {
        Ok(())
    }
}

/// The name shown for a repository: the last component of its path, or
/// `unknown`.
pub fn repo_name(path: &str) -> (r: String)
    ensures
        r@ == (match path_file_name_of(path@) {
            Some(n) => n,
            None => "unknown"@,
        }),
{
    match path_file_name(path) {
        Some(n) => n,
        None => String::from_str("unknown"),
    }
}

/// The record of a repository added at `path`, with a fresh id; `None`
/// when no id could be had.
pub fn new_repo(path: String) -> (r: Option<Repo>)
    ensures
        r matches Some(repo) ==> {
            &&& repo.root_path@ == path@
            &&& repo.name@ == (match path_file_name_of(path@) {
                Some(n) => n,
                None => "unknown"@,
            })
            &&& repo.id@.len() == 36
        },
{
    let name = repo_name(path.as_str());
    match new_id() {
        Some(id) => Some(Repo { id, name, root_path: path }),
        None => None,
    }
}

/// The error of a failed insert: a repository already added is reported as such.
pub fn insert_repo_error(db_error: String) -> (r: String)
    ensures
        contains_seq(db_error@, "UNIQUE constraint failed"@) ==> r@
            == "This repository is already added"@,
        !contains_seq(db_error@, "UNIQUE constraint failed"@) ==> r@ == db_error@,
{
    if str_contains(db_error.as_str(), "UNIQUE constraint failed") {
        String::from_str("This repository is already added")
    } else {
        db_error
    }
}

} // verus!
