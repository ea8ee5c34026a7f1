//! The documents of a project folder and the rules for reading, writing and
//! renaming it. A folder is a project exactly when it holds the metadata
//! document; the caller performs the file operations these rules name.
use vstd::prelude::*;

verus! {

/// The JSON documents a project folder holds.
#[derive(Clone, Copy, Debug, PartialEq, Eq, Structural)]
pub enum DocumentKind {
    /// Required: its presence makes a folder a project.
    Metadata,
    MapData,
    /// Optional: a missing settings document reads as empty text.
    Settings,
}

pub open spec fn spec_file_name(kind: DocumentKind) -> Seq<char> {
    match kind {
        DocumentKind::Metadata => "project.json"@,
        DocumentKind::MapData => "map.json"@,
        DocumentKind::Settings => "settings.json"@,
    }
}

/// Name of the file that holds a document, directly under the project folder.
pub fn file_name(kind: DocumentKind) -> (r: &'static str)
    ensures
        r@ == spec_file_name(kind),
{
    match kind {
        DocumentKind::Metadata => "project.json",
        DocumentKind::MapData => "map.json",
        DocumentKind::Settings => "settings.json",
    }
}

/// Name of the asset folder created beside the metadata document.
pub fn assets_dir_name() -> (r: &'static str)
    ensures
        r@ == "assets"@,
{
    "assets"
}

/// Name of the recent-projects list file in the application data folder.
pub fn recent_list_file_name() -> (r: &'static str)
    ensures
        r@ == "recent_projects.json"@,
{
    "recent_projects.json"
}

#[derive(Debug)]
pub enum StoreError {
    /// A required document is missing.
    NotFound(DocumentKind),
    /// The rename destination is taken; holds the new name.
    AlreadyExists(String),
    /// The folder to rename has no parent.
    NoParent,
    /// The file system failed.
    Io(String),
}

/// One file-system step of writing a document, relative to the project folder.
#[derive(Clone, Copy, Debug, PartialEq, Eq, Structural)]
pub enum WriteStep {
    /// Create the project folder, with its parents, unless it exists.
    CreateRoot,
    /// Create the asset folder unless it exists.
    CreateAssets,
    /// Write the document's file, replacing what it held.
    WriteFile(DocumentKind),
}

/// Writing the metadata also lays out the asset folder; other documents only
/// need the project folder.
pub open spec fn spec_write_steps(kind: DocumentKind) -> Seq<WriteStep> {
    match kind {
        DocumentKind::Metadata => seq![
            WriteStep::CreateRoot,
            WriteStep::CreateAssets,
            WriteStep::WriteFile(kind),
        ],
        _ => seq![WriteStep::CreateRoot, WriteStep::WriteFile(kind)],
    }
}

/// The steps that write a document, in order.
pub fn write_steps(kind: DocumentKind) -> (r: Vec<WriteStep>)
    ensures
        r@ == spec_write_steps(kind),
{
    match kind {
        DocumentKind::Metadata => vec![
            WriteStep::CreateRoot,
            WriteStep::CreateAssets,
            WriteStep::WriteFile(kind),
        ],
        _ => vec![WriteStep::CreateRoot, WriteStep::WriteFile(kind)],
    }
}

/// How a document is read, given whether its file exists.
#[derive(Clone, Copy, Debug, PartialEq, Eq, Structural)]
pub enum ReadStep {
    /// Read the file's text.
    ReadFile,
    /// Hand back empty text without touching the disk.
    Empty,
}

/// Reading a document: its file when it exists; else `NotFound`, except for
/// settings, which read as empty text.
pub fn read_step(kind: DocumentKind, exists: bool) -> (r: Result<ReadStep, StoreError>)
    ensures
        exists ==> r matches Ok(ReadStep::ReadFile),
        !exists && kind == DocumentKind::Settings ==> r matches Ok(ReadStep::Empty),
        !exists && kind != DocumentKind::Settings ==> (r matches Err(StoreError::NotFound(k))
            && k == kind),
{
    if exists {
        Ok(ReadStep::ReadFile)
    } else if kind == DocumentKind::Settings {
        Ok(ReadStep::Empty)
    } else {
        Err(StoreError::NotFound(kind))
    }
}

/// Opening a folder as a project succeeds exactly when its metadata exists.
pub fn open_check(metadata_exists: bool) -> (r: Result<(), StoreError>)
    ensures
        metadata_exists <==> r is Ok,
        !metadata_exists ==> r matches Err(StoreError::NotFound(DocumentKind::Metadata)),
{
    if metadata_exists {
        Ok(())
    } else {
        Err(StoreError::NotFound(DocumentKind::Metadata))
    }
}

/// Whether a project folder may be renamed to `new_name` beside itself:
/// `NoParent` for a folder without parent, then `AlreadyExists` when the
/// destination is taken.
pub fn rename_check(has_parent: bool, target_exists: bool, new_name: &String) -> (r: Result<
    (),
    StoreError,
>)
    ensures
        !has_parent ==> r matches Err(StoreError::NoParent),
        has_parent && target_exists ==> (r matches Err(StoreError::AlreadyExists(n))
            && n@ == new_name@),
        has_parent && !target_exists ==> r is Ok,
{
    if !has_parent {
        Err(StoreError::NoParent)
    } else if target_exists {
        Err(StoreError::AlreadyExists(new_name.clone()))
    } else {
        Ok(())
    }
}

} // verus!
