//! What the library relies on from `std::path`.

use crate::text::option_view;
use vstd::prelude::*;

verus! {

/// A bare file name: no directory separator of any platform, no drive
/// colon, and not the parent-directory name.
pub open spec fn is_plain_name(path: Seq<char>) -> bool {
    &&& path != seq!['.', '.']
    &&& forall|i: int|
        0 <= i < path.len() ==> path[i] != '/' && path[i] != '\\' && path[i] != ':'
}

/// Index of the final `.` of `name`, or -1.
pub open spec fn last_dot(name: Seq<char>) -> int
    decreases name.len(),
{
    if name.len() == 0 {
        -1
    } else if name.last() == '.' {
        name.len() - 1
    } else {
        last_dot(name.drop_last())
    }
}

/// The extension of a bare file name: what follows its final `.`, unless
/// there is none or it is the leading character.
pub open spec fn plain_extension(name: Seq<char>) -> Option<Seq<char>> {
    let dot = last_dot(name);
    if dot <= 0 {
        None
    } else {
        Some(name.skip(dot + 1))
    }
}

/// `piece` stands in `path` at offset `at`.
pub open spec fn occurs_at(path: Seq<char>, at: int, piece: Seq<char>) -> bool {
    0 <= at && at + piece.len() <= path.len() && path.subrange(at, at + piece.len()) == piece
}

/// What `Path::extension` documents of its result.
pub open spec fn extension_agrees(path: Seq<char>, ext: Option<Seq<char>>) -> bool {
    &&& ext matches Some(e) ==> !e.contains('.') && exists|dot: int|
        0 <= dot < path.len() && path[dot] == '.' && #[trigger] occurs_at(path, dot + 1, e)
    &&& is_plain_name(path) ==> ext == plain_extension(path)
}

/// What `Path::file_name` documents of its result.
pub open spec fn file_name_agrees(path: Seq<char>, name: Option<Seq<char>>) -> bool {
    &&& name matches Some(n) ==> n.len() > 0 && exists|at: int| #[trigger] occurs_at(path, at, n)
    &&& is_plain_name(path) && path.len() > 0 && path != seq!['.'] ==> name == Some(path)
}

/// The extension of `path` as `std::path::Path::extension` gives it under
/// the path syntax of the platform the library is built for.
pub uninterp spec fn extension_of(path: Seq<char>) -> Option<Seq<char>>;

/// The final component of `path` as `std::path::Path::file_name` gives it
/// under the path syntax of the platform the library is built for.
pub uninterp spec fn file_name_of(path: Seq<char>) -> Option<Seq<char>>;

/// Calls `std::path::Path::extension`. An extension is free of dots and
/// stands in the path right after a dot; for a bare file name it is the
/// part after the final dot, and there is none when the name has no dot or
/// only a leading one. For paths with directories, whose syntax varies by
/// platform, the result is only named.
#[verifier::external_body]
pub(crate) fn path_extension(path: &str) -> (r: Option<String>)
    ensures
        option_view(r) == extension_of(path@),
        extension_agrees(path@, option_view(r)),
{
    std::path::Path::new(path).extension().and_then(|e| e.to_str()).map(|e| e.to_owned())
}

/// Calls `std::path::Path::file_name`. A file name is not empty and
/// stands in the path; a bare file name other than `.` is its own file
/// name. For other paths the result is only named: which characters part
/// the components varies by platform, and within one by the kind of path.
#[verifier::external_body]
pub(crate) fn path_file_name(path: &str) -> (r: Option<String>)
    ensures
        option_view(r) == file_name_of(path@),
        file_name_agrees(path@, option_view(r)),
{
    std::path::Path::new(path).file_name().and_then(|n| n.to_str()).map(|n| n.to_owned())
}

} // verus!
