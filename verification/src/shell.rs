//! Decisions of the editor shell: the names of the tasks it reports, and
//! how it answers file-system notifications in the project folder.

use crate::text::{owned, push_str};
use vstd::prelude::*;

verus! {

/// The name of the task that creates a file or folder.
pub fn creating_task_name(is_folder: bool, file_name: &str) -> (r: String)
    ensures
        r@ == "Creating "@ + (if is_folder {
            "folder"@
        } else {
            "file"@
        }) + " "@ + file_name@,
{
    let mut s = owned("Creating ");
    if is_folder {
        push_str(&mut s, "folder");
    } else {
        push_str(&mut s, "file");
    }
    push_str(&mut s, " ");
    push_str(&mut s, file_name);
    s
}

/// The name of the task that moves a file to the bin.
pub fn deleting_task_name(file_name: &str) -> (r: String)
    ensures
        r@ == "Moving "@ + file_name@ + " to bin"@,
{
    let mut s = owned("Moving ");
    push_str(&mut s, file_name);
    push_str(&mut s, " to bin");
    s
}

/// The name of the task that renames a file.
pub fn renaming_task_name(old_name: &str, new_name: &str) -> (r: String)
    ensures
        r@ == "Renaming "@ + old_name@ + " to "@ + new_name@,
{
    let mut s = owned("Renaming ");
    push_str(&mut s, old_name);
    push_str(&mut s, " to ");
    push_str(&mut s, new_name);
    s
}

/// The name of the task that searches the game's files.
pub fn searching_task_name(query: &str) -> (r: String)
    ensures
        r@ == "Searching game files for "@ + query@,
{
    let mut s = owned("Searching game files for ");
    push_str(&mut s, query);
    s
}

/// The name of the task that loads a project.
pub fn loading_task_name(project_path: &str) -> (r: String)
    ensures
        r@ == "Loading project "@ + project_path@,
{
    let mut s = owned("Loading project ");
    push_str(&mut s, project_path);
    s
}

/// What kind of creation a notification reports.
#[derive(Debug)]
pub enum CreateKind {
    File,
    Folder,
    Any,
    Other,
}

/// Which side of a rename a notification reports.
#[derive(Debug)]
pub enum RenameMode {
    Both,
    From,
    To,
    Any,
    Other,
}

/// What a file-system notification reports.
#[derive(Debug)]
pub enum FsEventKind {
    Create(CreateKind),
    Rename(RenameMode),
    Remove,
    Other,
}

/// How the shell answers a notification. Paths are given by their position
/// in the notification's list of paths.
#[derive(Debug)]
pub enum FsAction {
    /// List the whole project folder again.
    Rescan,
    /// Report a new file or folder.
    Create { path: usize, is_folder: bool },
    /// Report a new entry if it still exists, as a folder when it is one.
    CreateIfPresent { path: usize },
    /// Report a rename.
    Rename { from: usize, to: usize },
    /// Report a removal.
    Delete { path: usize },
    /// Nothing to report.
    Ignore,
}

/// A notification that lacked the paths its kind needs.
#[derive(Debug)]
pub enum WatchError {
    CreateNoPaths,
    CreateFolderNoPath,
    RenameBothNoFirstPath,
    RenameBothNoSecondPath,
    RenameFromNoPath,
    RenameToNoPaths,
    RemoveNoPath,
}

/// How the shell answers a notification of `kind` that carries
/// `path_count` paths (`need_rescan` when the watcher lost track).
pub open spec fn fs_response(need_rescan: bool, kind: FsEventKind, path_count: nat) -> Result<
    FsAction,
    WatchError,
> {
    if need_rescan {
        Ok(FsAction::Rescan)
    } else {
        match kind {
            FsEventKind::Create(CreateKind::File) => if path_count >= 1 {
                Ok(FsAction::Create { path: 0, is_folder: false })
            } else {
                Err(WatchError::CreateNoPaths)
            },
            FsEventKind::Create(CreateKind::Folder) => if path_count >= 1 {
                Ok(FsAction::Create { path: 0, is_folder: true })
            } else {
                Err(WatchError::CreateFolderNoPath)
            },
            FsEventKind::Create(_) => if path_count >= 1 {
                Ok(FsAction::CreateIfPresent { path: 0 })
            } else {
                Err(WatchError::CreateNoPaths)
            },
            FsEventKind::Rename(RenameMode::Both) => if path_count >= 2 {
                Ok(FsAction::Rename { from: 0, to: 1 })
            } else if path_count == 1 {
                Err(WatchError::RenameBothNoSecondPath)
            } else {
                Err(WatchError::RenameBothNoFirstPath)
            },
            FsEventKind::Rename(RenameMode::From) => if path_count >= 1 {
                Ok(FsAction::Delete { path: 0 })
            } else {
                Err(WatchError::RenameFromNoPath)
            },
            FsEventKind::Rename(RenameMode::To) => if path_count >= 1 {
                Ok(FsAction::CreateIfPresent { path: 0 })
            } else {
                Err(WatchError::RenameToNoPaths)
            },
            FsEventKind::Rename(_) => Ok(FsAction::Ignore),
            FsEventKind::Remove => if path_count >= 1 {
                Ok(FsAction::Delete { path: 0 })
            } else {
                Err(WatchError::RemoveNoPath)
            },
            FsEventKind::Other => Ok(FsAction::Ignore),
        }
    }
}

/// How the shell answers a notification of `kind` that carries
/// `path_count` paths.
pub fn fs_event_action(need_rescan: bool, kind: &FsEventKind, path_count: usize) -> (r: Result<
    FsAction,
    WatchError,
>)
    ensures
        r == fs_response(need_rescan, *kind, path_count as nat),
{
    if need_rescan {
        return Ok(FsAction::Rescan);
    }
    match kind {
        FsEventKind::Create(CreateKind::File) => if path_count >= 1 {
            Ok(FsAction::Create { path: 0, is_folder: false })
        } else {
            Err(WatchError::CreateNoPaths)
        },
        FsEventKind::Create(CreateKind::Folder) => if path_count >= 1 {
            Ok(FsAction::Create { path: 0, is_folder: true })
        } else {
            Err(WatchError::CreateFolderNoPath)
        },
        FsEventKind::Create(_) => if path_count >= 1 {
            Ok(FsAction::CreateIfPresent { path: 0 })
        } else {
            Err(WatchError::CreateNoPaths)
        },
        FsEventKind::Rename(RenameMode::Both) => if path_count >= 2 {
            Ok(FsAction::Rename { from: 0, to: 1 })
        } else if path_count == 1 {
            Err(WatchError::RenameBothNoSecondPath)
        } else {
            Err(WatchError::RenameBothNoFirstPath)
        },
        FsEventKind::Rename(RenameMode::From) => if path_count >= 1 {
            Ok(FsAction::Delete { path: 0 })
        } else {
            Err(WatchError::RenameFromNoPath)
        },
        FsEventKind::Rename(RenameMode::To) => if path_count >= 1 {
            Ok(FsAction::CreateIfPresent { path: 0 })
        } else {
            Err(WatchError::RenameToNoPaths)
        },
        FsEventKind::Rename(_) => Ok(FsAction::Ignore),
        FsEventKind::Remove => if path_count >= 1 {
            Ok(FsAction::Delete { path: 0 })
        } else {
            Err(WatchError::RemoveNoPath)
        },
        FsEventKind::Other => Ok(FsAction::Ignore),
    }
}

/// The message reported for a notification that lacked paths.
pub open spec fn watch_message(e: WatchError) -> Seq<char> {
    match e {
        WatchError::CreateNoPaths => "Create event had no paths"@,
        WatchError::CreateFolderNoPath => "Create event had no path"@,
        WatchError::RenameBothNoFirstPath => "Rename-both event had no first path"@,
        WatchError::RenameBothNoSecondPath => "Rename-both event had no second path"@,
        WatchError::RenameFromNoPath => "Rename-from event had no path"@,
        WatchError::RenameToNoPaths => "Rename-to event had no paths"@,
        WatchError::RemoveNoPath => "Remove event had no path"@,
    }
}

impl WatchError {
    /// The message reported for this error.
    pub fn message(&self) -> (r: String)
        ensures
            r@ == watch_message(*self),
    {
        match self {
            WatchError::CreateNoPaths => owned("Create event had no paths"),
            WatchError::CreateFolderNoPath => owned("Create event had no path"),
            WatchError::RenameBothNoFirstPath => owned("Rename-both event had no first path"),
            WatchError::RenameBothNoSecondPath => owned("Rename-both event had no second path"),
            WatchError::RenameFromNoPath => owned("Rename-from event had no path"),
            WatchError::RenameToNoPaths => owned("Rename-to event had no paths"),
            WatchError::RemoveNoPath => owned("Remove event had no path"),
        }
    }
}

/// Every path an answer refers to is one the notification carries.
pub proof fn law_fs_actions_refer_to_given_paths(
    need_rescan: bool,
    kind: FsEventKind,
    path_count: nat,
)
    ensures
        match fs_response(need_rescan, kind, path_count) {
            Ok(FsAction::Create { path, .. }) => path < path_count,
            Ok(FsAction::CreateIfPresent { path }) => path < path_count,
            Ok(FsAction::Rename { from, to }) => from < path_count && to < path_count,
            Ok(FsAction::Delete { path }) => path < path_count,
            _ => true,
        },
{
}

} // verus!
