//! The records the library works on: projects and their folders, what a
//! directory was seen to hold, and what is reported back about pictures.
use vstd::prelude::*;
use vstd::string::*;
use crate::text::same_text;

verus! {

/// A picture found in a directory.
#[derive(Debug, Clone, PartialEq, Eq)]
pub struct ImageInfo {
    pub id: String,
    pub path: String,
    pub name: String,
    pub size: u64,
    pub width: Option<u32>,
    pub height: Option<u32>,
}

/// One file and the place it goes to.
#[derive(Debug, Clone, PartialEq, Eq)]
pub struct FileMove {
    pub source: String,
    pub destination: String,
}

/// A project as the list of projects shows it.
#[derive(Debug, Clone, PartialEq, Eq)]
pub struct ProjectSummary {
    pub id: String,
    pub name: String,
    pub path: String,
    pub created_at: String,
    pub updated_at: Option<String>,
    pub folder_count: u32,
    pub folder_names: Vec<String>,
}

/// A project as the registry of projects records it.
#[derive(Debug, Clone, PartialEq, Eq)]
pub struct ProjectRegistryEntry {
    pub id: String,
    pub name: String,
    pub path: String,
    pub created_at: String,
}

/// A source folder of a project. `output_mode` is `move` or `copy`.
#[derive(Debug, Clone, PartialEq, Eq)]
pub struct Folder {
    pub id: String,
    pub source_path: String,
    pub output_mode: String,
    pub added_at: String,
}

/// A project. `output_directory_mode` is `unified` or `per-folder`.
#[derive(Debug, Clone, PartialEq, Eq)]
pub struct Project {
    pub id: String,
    pub name: String,
    pub created_at: String,
    pub output_directory_mode: String,
    pub folders: Vec<Folder>,
}

/// A picture in a project's output, with the folder it came from.
#[derive(Debug, Clone, PartialEq, Eq)]
pub struct OutputImageInfo {
    pub id: String,
    pub path: String,
    pub name: String,
    pub size: u64,
    pub width: Option<u32>,
    pub height: Option<u32>,
    pub source_folder_id: String,
}

/// Counts of pictures for one folder.
#[derive(Debug, Clone, PartialEq, Eq)]
pub struct FolderStats {
    pub folder_id: String,
    pub folder_name: String,
    pub source_count: u32,
    pub keep_count: u32,
    pub maybe_count: u32,
}

/// Counts of pictures for a project.
#[derive(Debug, Clone, PartialEq, Eq)]
pub struct ProjectStats {
    pub total_keep: u32,
    pub total_maybe: u32,
    pub folder_stats: Vec<FolderStats>,
}

/// One entry of a directory as it was read: its name, its full path, and
/// whether it is a regular file.
#[derive(Debug, Clone, PartialEq, Eq)]
pub struct DirEntry {
    pub name: String,
    pub path: String,
    pub is_file: bool,
}

/// What the keep and maybe directories of one folder were seen to hold.
#[derive(Debug, Clone, PartialEq, Eq)]
pub struct FolderOutput {
    pub keep: Vec<DirEntry>,
    pub maybe: Vec<DirEntry>,
}

/// Whether an output directory mode is the unified one. Every other value
/// stands for a directory tree per folder.
pub open spec fn is_unified(mode: Seq<char>) -> bool {
    mode == "unified"@
}

/// Whether a transfer mode asks for a move. Every other value asks for a
/// copy.
pub open spec fn is_move(mode: Seq<char>) -> bool {
    mode == "move"@
}

/// Whether an output directory mode is the unified one.
pub fn unified_mode(mode: &str) -> (unified: bool)
    ensures
        unified == is_unified(mode@),
{
    same_text(mode, "unified")
}

/// Whether a transfer mode asks for a move.
pub fn move_mode(mode: &str) -> (moving: bool)
    ensures
        moving == is_move(mode@),
{
    same_text(mode, "move")
}

/// The layout a project has when none was recorded for it.
pub fn default_output_directory_mode() -> (mode: String)
    ensures
        mode@ == "per-folder"@,
        !is_unified(mode@),
{
    proof {
        reveal_strlit("per-folder");
        reveal_strlit("unified");
        assert("per-folder"@.len() != "unified"@.len());
    }
    String::from_str("per-folder")
}

/// The ids of a list of folders, in order.
pub open spec fn folder_ids(folders: Seq<Folder>) -> Seq<Seq<char>> {
    Seq::new(folders.len(), |i: int| folders[i].id@)
}

/// The position of the first folder with the given id.
pub open spec fn folder_position(folders: Seq<Folder>, id: Seq<char>) -> Option<int> {
    folder_ids(folders).index_of_first(id)
}

impl Project {
    /// The position of the first folder with the given id.
    pub fn find_folder(&self, id: &str) -> (found: Option<usize>)
        ensures
            match found {
                Some(i) => folder_position(self.folders@, id@) == Some(i as int) && i
                    < self.folders.len() && self.folders[i as int].id@ == id@,
                None => folder_position(self.folders@, id@) is None,
            },
    {
        let ghost ids = folder_ids(self.folders@);
        let mut i: usize = 0;
        while i < self.folders.len()
            invariant
                i <= self.folders.len(),
                ids == folder_ids(self.folders@),
                forall|k: int| 0 <= k < i ==> ids[k] != id@,
            decreases self.folders.len() - i,
        {
            if same_text(self.folders[i].id.as_str(), id) {
                proof {
                    assert(ids[i as int] == id@);
                    assert(ids.contains(id@));
                    ids.index_of_first_ensures(id@);
                    let first = ids.index_of_first(id@);
                    assert(first is Some);
                    let index = first->0;
                    assert(ids[index] == id@);
                    if index > i {
                        assert(ids[i as int] != id@);
                    }
                    assert(index == i);
                }
                return Some(i);
            }
            i += 1;
        }
        proof {
            ids.index_of_first_ensures(id@);
            if ids.contains(id@) {
                let k = ids.index_of(id@);
                assert(ids[k] == id@);
            }
        }
        None
    }
}

/// A copy of a folder record.
pub fn copy_folder(folder: &Folder) -> (copy: Folder)
    ensures
        copy == *folder,
{
    Folder {
        id: folder.id.clone(),
        source_path: folder.source_path.clone(),
        output_mode: folder.output_mode.clone(),
        added_at: folder.added_at.clone(),
    }
}


/// A directory entry over plain text.
pub struct EntryView {
    pub name: Seq<char>,
    pub path: Seq<char>,
    pub is_file: bool,
}

impl View for DirEntry {
    type V = EntryView;

    open spec fn view(&self) -> EntryView {
        EntryView { name: self.name@, path: self.path@, is_file: self.is_file }
    }
}

/// The entries of a listing over plain text.
pub open spec fn entry_views(entries: Seq<DirEntry>) -> Seq<EntryView> {
    Seq::new(entries.len(), |i: int| entries[i]@)
}

/// The names of the source folders of a project, in order.
pub open spec fn folder_names(folders: Seq<Folder>) -> Seq<Seq<char>> {
    Seq::new(folders.len(), |i: int| crate::paths::folder_name_of(folders[i].source_path@))
}

} // verus!
