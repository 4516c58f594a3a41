//! File-system paths. `std::path` is opaque to the verifier: a path is carried
//! through, joined and resolved, and only its bytes have a name.

use vstd::prelude::*;

verus! {

#[verifier::external_type_specification]
#[verifier::external_body]
pub struct ExPath(std::path::Path);

#[verifier::external_type_specification]
#[verifier::external_body]
pub struct ExPathBuf(std::path::PathBuf);

#[verifier::external_type_specification]
#[verifier::external_body]
pub struct ExIoError(std::io::Error);

/// The bytes that an owned path is made of.
pub uninterp spec fn path_bytes(path: std::path::PathBuf) -> Seq<u8>;

/// The bytes that a borrowed path is made of.
pub uninterp spec fn borrowed_bytes(path: &std::path::Path) -> Seq<u8>;

/// What `Path::join` makes of a base path and a relative name.
pub uninterp spec fn joined_bytes(base: Seq<u8>, name: Seq<char>) -> Seq<u8>;

/// What `Path::parent` makes of a path: the path without its last
/// component, or `None` where the path ends in a root or is empty.
pub uninterp spec fn parent_bytes(path: Seq<u8>) -> Option<Seq<u8>>;

/// `resolved` is a canonical form of `path`: what `Path::canonicalize` made
/// of it on some file system. This is a relation, not a result: the same path
/// may resolve otherwise at another time or not at all.
pub uninterp spec fn resolves(path: Seq<u8>, resolved: Seq<u8>) -> bool;

/// Nothing was at `path` when `Path::exists` asked some file system. This is
/// a relation, not a result: a file may be there at another time.
pub uninterp spec fn seen_absent(path: Seq<u8>) -> bool;

/// Calls `Path::join`: the result is made of the base path's bytes and the
/// name, and of nothing else.
#[verifier::external_body]
pub(crate) fn join_path(base: &std::path::PathBuf, name: &str) -> (joined: std::path::PathBuf)
    ensures
        path_bytes(joined) == joined_bytes(path_bytes(*base), name@),
{
    base.join(name)
}

/// `Path::exists` asks the file system whether anything is at the path. Of
/// the answer only this is known: where it is no, nothing was seen there.
pub assume_specification[ std::path::Path::exists ](path: &std::path::Path) -> (present: bool)
    ensures
        !present ==> seen_absent(borrowed_bytes(path)),
;

/// `Path::canonicalize` asks the file system whether and to what the path
/// resolves. Of a success only this is known: the result is a canonical form
/// of the path.
pub assume_specification[ std::path::Path::canonicalize ](path: &std::path::Path) -> (resolved: std::io::Result<
    std::path::PathBuf,
>)
    ensures
        resolved is Ok ==> resolves(borrowed_bytes(path), path_bytes(resolved->Ok_0)),
;

/// `Path::parent` hands out the path without its last component, if it has
/// one. It reads the path alone.
pub assume_specification<'a>[ std::path::Path::parent ](path: &'a std::path::Path) -> (parent: Option<
    &'a std::path::Path,
>)
    ensures
        match parent {
            Some(directory) => parent_bytes(borrowed_bytes(path)) == Some(borrowed_bytes(directory)),
            None => parent_bytes(borrowed_bytes(path)) is None,
        },
;

/// `PathBuf::as_path` lends the path out as it is.
pub assume_specification<'a>[ std::path::PathBuf::as_path ](path: &'a std::path::PathBuf) -> (lent: &'a std::path::Path)
    ensures
        borrowed_bytes(lent) == path_bytes(*path),
;

} // verus!
