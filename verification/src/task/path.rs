//! What adding, deleting and renaming a path come to, given what is found
//! at the path.
use vstd::prelude::*;
use crate::error::AppError;
use crate::path::{ends_with_slash, has_trailing_slash, parent_of, path_parent};

verus! {

/// What is found at a path.
#[derive(Clone, Copy, Debug, PartialEq, Eq, Structural)]
pub enum PathState {
    /// Nothing.
    Missing,
    File,
    Directory,
    /// Something that is neither a file nor a directory.
    Other,
}

/// What has to be done on the file system.
#[derive(Clone, Debug, PartialEq, Eq)]
pub enum PathOperation {
    /// Create the directory and every directory above it that is missing.
    CreateDirectory(String),
    /// Create the directory `parent` with all that is missing above it,
    /// then the empty file `path`.
    CreateFile { parent: String, path: String },
    /// Nothing at all.
    Nothing,
    /// Remove the directory with all that is in it.
    RemoveDirectory(String),
    RemoveFile(String),
    /// Move what is at the first path to the second.
    Rename(String, String),
}

/// A file system operation as plain values.
pub enum PathOperationView {
    CreateDirectory(Seq<char>),
    CreateFile { parent: Seq<char>, path: Seq<char> },
    Nothing,
    RemoveDirectory(Seq<char>),
    RemoveFile(Seq<char>),
    Rename(Seq<char>, Seq<char>),
}

impl DeepView for PathOperation {
    type V = PathOperationView;

    open spec fn deep_view(&self) -> PathOperationView {
        match self {
            PathOperation::CreateDirectory(path) => PathOperationView::CreateDirectory(path@),
            PathOperation::CreateFile { parent, path } => PathOperationView::CreateFile {
                parent: parent@,
                path: path@,
            },
            PathOperation::Nothing => PathOperationView::Nothing,
            PathOperation::RemoveDirectory(path) => PathOperationView::RemoveDirectory(path@),
            PathOperation::RemoveFile(path) => PathOperationView::RemoveFile(path@),
            PathOperation::Rename(old, new) => PathOperationView::Rename(old@, new@),
        }
    }
}

/// What adding `path` comes to when `parent` is what lies above it:
/// nothing may be there yet; a path that ends in a slash becomes a
/// directory, any other a file below its parent, which it must have.
pub open spec fn add_plan(path: Seq<char>, state: PathState, parent: Option<Seq<char>>) -> Option<
    PathOperationView,
> {
    if state != PathState::Missing {
        None
    } else if ends_with_slash(path) {
        Some(PathOperationView::CreateDirectory(path))
    } else {
        match parent {
            Some(parent) => Some(PathOperationView::CreateFile { parent, path }),
            None => None,
        }
    }
}

/// What deleting `path` comes to: something must be there; a file and a
/// directory are removed, anything else is left alone.
pub open spec fn delete_plan(path: Seq<char>, state: PathState) -> Option<PathOperationView> {
    match state {
        PathState::Missing => None,
        PathState::File => Some(PathOperationView::RemoveFile(path)),
        PathState::Directory => Some(PathOperationView::RemoveDirectory(path)),
        PathState::Other => Some(PathOperationView::Nothing),
    }
}

/// What renaming `old` to `new` comes to: something must be at `old`.
pub open spec fn rename_plan(old: Seq<char>, new: Seq<char>, state: PathState) -> Option<
    PathOperationView,
> {
    if state == PathState::Missing {
        None
    } else {
        Some(PathOperationView::Rename(old, new))
    }
}

/// Whether `result` is the operation `plan`, or, where there is none, the
/// error for a path in the wrong state.
pub open spec fn follows(
    result: Result<PathOperation, AppError>,
    plan: Option<PathOperationView>,
) -> bool {
    match plan {
        Some(operation) => result is Ok && result->Ok_0.deep_view() == operation,
        None => result is Err && result->Err_0 is InvalidTargetPath,
    }
}

/// Plans the adding of `path`, at which `state` was found, when `parent`
/// is what lies above it.
pub fn plan_add_below(path: String, state: PathState, parent: Option<String>) -> (result: Result<
    PathOperation,
    AppError,
>)
    ensures
        follows(result, add_plan(path@, state, parent.deep_view())),
{
    if state != PathState::Missing {
        return Err(AppError::InvalidTargetPath);
    }
    if has_trailing_slash(path.as_str()) {
        return Ok(PathOperation::CreateDirectory(path));
    }
    match parent {
        Some(parent) => Ok(PathOperation::CreateFile { parent, path }),
        None => Err(AppError::InvalidTargetPath),
    }
}

/// Plans the adding of `path`, at which `state` was found.
pub fn plan_add(path: String, state: PathState) -> (result: Result<PathOperation, AppError>)
    ensures
        follows(result, add_plan(path@, state, path_parent(path@))),
{
    let parent = parent_of(path.as_str());
    plan_add_below(path, state, parent)
}

/// Plans the deleting of `path`, at which `state` was found.
pub fn plan_delete(path: String, state: PathState) -> (result: Result<PathOperation, AppError>)
    ensures
        follows(result, delete_plan(path@, state)),
{
    match state {
        PathState::Missing => Err(AppError::InvalidTargetPath),
        PathState::File => Ok(PathOperation::RemoveFile(path)),
        PathState::Directory => Ok(PathOperation::RemoveDirectory(path)),
        PathState::Other => Ok(PathOperation::Nothing),
    }
}

/// Plans the renaming of `old`, at which `state` was found, to `new`.
pub fn plan_rename(old: String, new: String, state: PathState) -> (result: Result<
    PathOperation,
    AppError,
>)
    ensures
        follows(result, rename_plan(old@, new@, state)),
{
    match state {
        PathState::Missing => Err(AppError::InvalidTargetPath),
        _ => Ok(PathOperation::Rename(old, new)),
    }
}

/// Whether a directory can be read: something must be at its path.
pub fn plan_enumeration(state: PathState) -> (result: Result<(), AppError>)
    ensures
        state != PathState::Missing ==> result is Ok,
        state == PathState::Missing ==> result is Err && result->Err_0 is InvalidTargetPath,
{
    match state {
        PathState::Missing => Err(AppError::InvalidTargetPath),
        _ => Ok(()),
    }
}

} // verus!
