//! Where the storage file lies.

use crate::failure::{Failure, SpecFailure};
use vstd::prelude::*;

verus! {

/// The storage file's place below the platform's data directory.
pub const DATA_FILE: &'static str = "retrvid/ids.toml";

/// The text of the path that `std::path::Path::join` makes of a directory
/// and a path relative to it, on the platform that the library is built for.
pub uninterp spec fn path_joined(dir: Seq<char>, relative: Seq<char>) -> Seq<char>;

/// Calls `std::path::Path::join` on the two as paths and hands out the
/// result as text; joined from two texts, it is one. Trusted: joining
/// depends on the two alone, so the result is the one that `path_joined`
/// names.
#[verifier::external_body]
fn join_path(dir: &str, relative: &str) -> (path: String)
    ensures
        path@ == path_joined(dir@, relative@),
{
    std::path::Path::new(dir).join(relative).to_string_lossy().into_owned()
}

/// The text of the directory that `std::path::Path::parent` finds above a
/// path, on the platform that the library is built for; `None` where the
/// path has none above it.
pub uninterp spec fn path_parent(path: Seq<char>) -> Option<Seq<char>>;

/// Calls `std::path::Path::parent` on the text as a path and hands out the
/// result as text. Trusted: the parent depends on the path alone, so the
/// result is the one that `path_parent` names.
#[verifier::external_body]
fn parent_of(path: &str) -> (parent: Option<String>)
    ensures
        parent.deep_view() == path_parent(path@),
{
    std::path::Path::new(path).parent().map(|parent| parent.to_string_lossy().into_owned())
}

/// Calls `dirs_next::data_dir` and hands out the directory as text, or
/// `Some(None)` where its path is not Unicode and so is no text. Nothing is
/// claimed of the result: it depends on the platform and on the environment
/// of the process.
#[verifier::external_body]
fn platform_data_dir() -> (dir: Option<Option<String>>) {
    dirs_next::data_dir().map(|dir| dir.into_os_string().into_string().ok())
}

/// A resolved path or the failure to resolve one, as contracts speak of it.
pub open spec fn path_view(path: Result<String, Failure>) -> Result<Seq<char>, SpecFailure> {
    match path {
        Ok(found) => Ok(found@),
        Err(failure) => Err(failure@),
    }
}

/// The path of the storage file that follows from the override and from the
/// platform's data directory.
pub open spec fn resolved_path(
    override_value: Option<Seq<char>>,
    data_dir: Option<Seq<char>>,
) -> Result<Seq<char>, SpecFailure> {
    match (override_value, data_dir) {
        (Some(path), _) => Ok(path),
        (None, Some(dir)) => Ok(path_joined(dir, DATA_FILE@)),
        (None, None) => Err(SpecFailure::NoDataDir),
    }
}

/// Resolves the path of the storage file from the override and the
/// platform's data directory, as far as either is there. An override is
/// taken verbatim as the path of the file itself; without one the file is
/// `DATA_FILE` below the data directory; with neither there is no path.
pub fn resolve_path(override_value: Option<String>, data_dir: Option<String>) -> (path: Result<
    String,
    Failure,
>)
    ensures
        path_view(path) == resolved_path(override_value.deep_view(), data_dir.deep_view()),
{
    match override_value {
        Some(path) => Ok(path),
        None => match data_dir {
            Some(dir) => Ok(join_path(dir.as_str(), DATA_FILE)),
            None => Err(Failure::NoDataDir),
        },
    }
}

/// Resolves the path of the storage file. With an override the platform is
/// not asked; without one the path is what `resolve_path` makes of the data
/// directory that the platform names. A data directory that is no text is
/// said to be so, and nothing is made of it.
pub fn data_path(override_value: Option<String>) -> (path: Result<String, Failure>)
    ensures
        match override_value {
            Some(given) => path_view(path) == Ok::<Seq<char>, SpecFailure>(given@),
            None => {
                ||| exists|data_dir: Option<Seq<char>>|
                    path_view(path) == resolved_path(None, data_dir)
                ||| path_view(path) == Err::<Seq<char>, SpecFailure>(SpecFailure::DataDirNotText)
            },
        },
{
    match override_value {
        Some(path) => Ok(path),
        None => match platform_data_dir() {
            Some(Some(dir)) => resolve_path(None, Some(dir)),
            Some(None) => Err(Failure::DataDirNotText),
            None => resolve_path(None, None),
        },
    }
}

/// The directory in which a storage file that is not there yet is created:
/// the one above its path. A path with nothing above it is no place for the
/// file.
pub fn creation_dir(path: &str) -> (dir: Result<String, Failure>)
    ensures
        match path_parent(path@) {
            Some(parent) => path_view(dir) == Ok::<Seq<char>, SpecFailure>(parent),
            None => path_view(dir) == Err::<Seq<char>, SpecFailure>(SpecFailure::InvalidDataPath),
        },
{
    match parent_of(path) {
        Some(parent) => Ok(parent),
        None => Err(Failure::InvalidDataPath),
    }
}

} // verus!
