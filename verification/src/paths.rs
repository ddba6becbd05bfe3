//! File-system paths as text, through `std::path`.
use vstd::prelude::*;
use vstd::string::*;

use crate::text::{contains_seq, starts_with};

verus! {

broadcast use vstd::string::group_string_axioms;

/// `s` ends with `suffix`.
pub open spec fn ends_with(s: Seq<char>, suffix: Seq<char>) -> bool {
    suffix.len() <= s.len() && s.skip(s.len() - suffix.len()) == suffix
}

/// A relative path with no root and no drive prefix on any platform: it
/// does not start with a separator and has no `:` in second place.
pub open spec fn is_plain_relative(p: Seq<char>) -> bool {
    &&& !(p.len() > 0 && (p[0] == '/' || p[0] == '\\'))
    &&& !(p.len() > 1 && p[1] == ':')
}

/// A Windows verbatim path (`\\?\...`), which `Path::join` normalises.
pub open spec fn is_verbatim(p: Seq<char>) -> bool {
    starts_with(p, seq!['\\', '\\', '?', '\\'])
}

/// The text of `Path::new(base).join(rel)` on the platform the library is
/// built for.
pub uninterp spec fn path_joined(base: Seq<char>, rel: Seq<char>) -> Seq<char>;

/// The text of `Path::new(p).parent()` on the platform the library is
/// built for.
pub uninterp spec fn path_parent_of(p: Seq<char>) -> Option<Seq<char>>;

/// The text of `Path::new(p).file_name()` on the platform the library is
/// built for.
pub uninterp spec fn path_file_name_of(p: Seq<char>) -> Option<Seq<char>>;

/// `Path::join` followed by `to_string_lossy`. Claimed: the result is the
/// named join; when the result is not a verbatim path it ends with `rel`
/// (a joined path either is `rel` or has it appended), and when besides
/// `rel` is plain relative it is `base`, maybe a separator, then `rel`.
/// Which separator, when none is put, and how a verbatim path is
/// normalised depend on the platform and are left unsaid.
#[verifier::external_body]
pub(crate) fn path_join(base: &str, rel: &str) -> (r: String)
    ensures
        r@ == path_joined(base@, rel@),
        !is_verbatim(r@) ==> ends_with(r@, rel@),
        is_plain_relative(rel@) && !is_verbatim(r@) ==> (r@ == base@ + rel@ || r@ == base@
            + seq!['/'] + rel@ || r@ == base@ + seq!['\\'] + rel@),
{
    std::path::Path::new(base).join(rel).to_string_lossy().into_owned()
}

/// `Path::parent` followed by `to_string_lossy`. Claimed: the result is the
/// named parent, and a parent is a beginning of the path's text (it is a
/// slice of it). Where the last component ends is platform syntax, left
/// unsaid.
#[verifier::external_body]
pub(crate) fn path_parent(p: &str) -> (r: Option<String>)
    ensures
        r matches Some(q) ==> path_parent_of(p@) == Some(q@) && starts_with(p@, q@),
        r is None ==> path_parent_of(p@) is None,
{
    std::path::Path::new(p).parent().map(|q| q.to_string_lossy().into_owned())
}

/// `Path::file_name` followed by `to_str`. Claimed: the result is the named
/// file name, and a file name is a non-empty piece of the path's text (a
/// component of it).
#[verifier::external_body]
pub(crate) fn path_file_name(p: &str) -> (r: Option<String>)
    ensures
        r matches Some(n) ==> path_file_name_of(p@) == Some(n@) && n@.len() > 0 && contains_seq(
            p@,
            n@,
        ),
        r is None ==> path_file_name_of(p@) is None,
{
    std::path::Path::new(p).file_name().and_then(|n| n.to_str()).map(|n| n.to_string())
}

/// The file of the application's database in its data directory.
pub fn db_path(app_data_dir: &str) -> (r: String)
    ensures
        r@ == path_joined(app_data_dir@, "korlap.db"@),
        !is_verbatim(r@) ==> ends_with(r@, "korlap.db"@),
        !is_verbatim(r@) ==> (r@ == app_data_dir@ + "korlap.db"@ || r@ == app_data_dir@ + seq![
            '/',
        ] + "korlap.db"@ || r@ == app_data_dir@ + seq!['\\'] + "korlap.db"@),
{
    let name = "korlap.db";
    proof {
        reveal_strlit("korlap.db");
    }
    path_join(app_data_dir, name)
}

} // verus!
