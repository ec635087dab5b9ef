//! Projects and their folders: creating a project, adding and removing
//! folders, changing the layout, and the summary shown in the list of
//! projects.
use vstd::prelude::*;
use vstd::string::*;
use crate::model::{
    copy_folder, folder_names, Folder, Project, ProjectRegistryEntry, ProjectSummary,
};
use crate::paths::{get_folder_name, joined, path_join, sanitize_name, sanitized};
use crate::text::{push_text, same_text, texts};

verus! {

/// Why a command on a project is refused.
#[derive(Debug, Clone, Copy, PartialEq, Eq)]
pub enum ProjectError {
    /// Nothing is left of the name once it is made safe.
    InvalidName,
    /// The project has a folder with this source path already.
    DuplicateFolder,
    /// The project has no folder with the given id.
    FolderNotFound,
    /// The project's directory holds no configuration.
    ConfigNotFound,
    /// The directory that was to be listed does not exist.
    MissingDirectory,
}

impl ProjectError {
    /// The error in words.
    pub fn message(&self) -> (text: String)
        ensures
            text@ == match *self {
                ProjectError::InvalidName => "Invalid project name"@,
                ProjectError::DuplicateFolder => "Folder already added to project"@,
                ProjectError::FolderNotFound => "Folder not found"@,
                ProjectError::ConfigNotFound => "Project config not found"@,
                ProjectError::MissingDirectory => "Folder does not exist"@,
            },
    {
        match self {
            ProjectError::InvalidName => String::from_str("Invalid project name"),
            ProjectError::DuplicateFolder => String::from_str("Folder already added to project"),
            ProjectError::FolderNotFound => String::from_str("Folder not found"),
            ProjectError::ConfigNotFound => String::from_str("Project config not found"),
            ProjectError::MissingDirectory => String::from_str("Folder does not exist"),
        }
    }
}

/// Trusted: a fresh random identifier, from `Uuid::new_v4` of the uuid
/// crate, in its usual text form. Nothing is stated of the result: every
/// call gives another.
#[verifier::external_body]
fn fresh_id() -> String {
    uuid::Uuid::new_v4().to_string()
}

/// Trusted: the present time from `Utc::now` of the chrono crate, written
/// by `DateTime::to_rfc3339`. Nothing is stated of the result.
#[verifier::external_body]
fn timestamp_now() -> String {
    chrono::Utc::now().to_rfc3339()
}

/// A project that was just made: the project, its directory, and its
/// entry for the registry.
#[derive(Debug, Clone, PartialEq, Eq)]
pub struct NewProject {
    pub project: Project,
    pub path: String,
    pub entry: ProjectRegistryEntry,
}

/// Whether `made` is the new project of the given name, id and time of
/// creation under `output_path`: empty, in the per-folder layout, in the
/// directory of its name, and with a registry entry that says the same.
pub open spec fn is_new_project(
    made: NewProject,
    name: Seq<char>,
    output_path: Seq<char>,
    id: Seq<char>,
    created_at: Seq<char>,
) -> bool {
    &&& made.project.id@ == id
    &&& made.project.name@ == name
    &&& made.project.created_at@ == created_at
    &&& made.project.output_directory_mode@ == "per-folder"@
    &&& made.project.folders@.len() == 0
    &&& made.path@ == joined(output_path, name)
    &&& made.entry.id@ == id
    &&& made.entry.name@ == name
    &&& made.entry.path@ == made.path@
    &&& made.entry.created_at@ == created_at
}

/// The new project for a name that is safe already, with the id and the
/// time of creation handed in.
pub fn new_project(name: String, output_path: &str, id: String, created_at: String) -> (made:
    NewProject)
    ensures
        is_new_project(made, name@, output_path@, id@, created_at@),
{
    let path = path_join(output_path, name.as_str());
    let project = Project {
        id: id.clone(),
        name: name.clone(),
        created_at: created_at.clone(),
        output_directory_mode: crate::model::default_output_directory_mode(),
        folders: Vec::new(),
    };
    let entry = ProjectRegistryEntry { id, name, path: path.clone(), created_at };
    NewProject { project, path, entry }
}

/// Makes a project called `name` under `output_path`. The name is made
/// safe first; where nothing is left of it the project is refused. The
/// project gets a fresh id and the present time.
pub fn create_project(name: &str, output_path: &str) -> (made: Result<NewProject, ProjectError>)
    ensures
        match made {
            Ok(new) => sanitized(name@).len() > 0 && is_new_project(
                new,
                sanitized(name@),
                output_path@,
                new.project.id@,
                new.project.created_at@,
            ),
            Err(e) => sanitized(name@).len() == 0 && e == ProjectError::InvalidName,
        },
{
    let clean = sanitize_name(name);
    if clean.as_str().unicode_len() == 0 {
        return Err(ProjectError::InvalidName);
    }
    let id = fresh_id();
    let created_at = timestamp_now();
    Ok(new_project(clean, output_path, id, created_at))
}

/// The source paths of a list of folders, in order.
pub open spec fn source_paths(folders: Seq<Folder>) -> Seq<Seq<char>> {
    Seq::new(folders.len(), |i: int| folders[i].source_path@)
}

/// Whether no two folders of a list have the same source path.
pub open spec fn sources_unique(folders: Seq<Folder>) -> bool {
    forall|a: int, b: int|
        0 <= a < b < folders.len() ==> (#[trigger] folders[a]).source_path@ != (
        #[trigger] folders[b]).source_path@
}

/// Whether a project has a folder with the given source path.
pub fn has_source(project: &Project, source_path: &str) -> (found: bool)
    ensures
        found == source_paths(project.folders@).contains(source_path@),
{
    let ghost paths = source_paths(project.folders@);
    let mut i: usize = 0;
    while i < project.folders.len()
        invariant
            i <= project.folders.len(),
            paths == source_paths(project.folders@),
            forall|k: int| 0 <= k < i ==> paths[k] != source_path@,
        decreases project.folders.len() - i,
    {
        if same_text(project.folders[i].source_path.as_str(), source_path) {
            assert(paths[i as int] == source_path@);
            return true;
        }
        i += 1;
    }
    false
}

/// Adds a folder with the given id and time to a project, unless the
/// project has its source path already.
pub fn add_folder_with(
    project: &mut Project,
    source_path: String,
    output_mode: String,
    id: String,
    added_at: String,
) -> (added: Result<Folder, ProjectError>)
    ensures
        final(project).id == old(project).id,
        final(project).name == old(project).name,
        final(project).created_at == old(project).created_at,
        final(project).output_directory_mode == old(project).output_directory_mode,
        match added {
            Ok(folder) => {
                &&& !source_paths(old(project).folders@).contains(source_path@)
                &&& folder == (Folder { id, source_path, output_mode, added_at })
                &&& final(project).folders@ == old(project).folders@.push(folder)
                &&& sources_unique(old(project).folders@) ==> sources_unique(
                    final(project).folders@,
                )
            },
            Err(e) => {
                &&& source_paths(old(project).folders@).contains(source_path@)
                &&& e == ProjectError::DuplicateFolder
                &&& final(project).folders@ == old(project).folders@
            },
        },
{
    if has_source(project, source_path.as_str()) {
        return Err(ProjectError::DuplicateFolder);
    }
    let folder = Folder { id, source_path, output_mode, added_at };
    let copy = copy_folder(&folder);
    project.folders.push(copy);
    proof {
        let before = old(project).folders@;
        let after = project.folders@;
        if sources_unique(before) {
            assert forall|a: int, b: int| 0 <= a < b < after.len() implies (
            #[trigger] after[a]).source_path@ != (#[trigger] after[b]).source_path@ by {
                if b < before.len() {
                    assert(after[a] == before[a] && after[b] == before[b]);
                } else {
                    assert(after[a] == before[a]);
                    assert(source_paths(before)[a] == before[a].source_path@);
                }
            }
        }
    }
    Ok(folder)
}

/// Adds a source folder to a project, with a fresh id and the present
/// time. A source path that the project has already is refused, and the
/// project stays as it is.
pub fn add_folder(project: &mut Project, source_path: String, output_mode: String) -> (added:
    Result<Folder, ProjectError>)
    ensures
        final(project).id == old(project).id,
        final(project).name == old(project).name,
        final(project).created_at == old(project).created_at,
        final(project).output_directory_mode == old(project).output_directory_mode,
        match added {
            Ok(folder) => {
                &&& !source_paths(old(project).folders@).contains(source_path@)
                &&& folder.source_path == source_path
                &&& folder.output_mode == output_mode
                &&& final(project).folders@ == old(project).folders@.push(folder)
                &&& sources_unique(old(project).folders@) ==> sources_unique(
                    final(project).folders@,
                )
            },
            Err(e) => {
                &&& source_paths(old(project).folders@).contains(source_path@)
                &&& e == ProjectError::DuplicateFolder
                &&& final(project).folders@ == old(project).folders@
            },
        },
{
    let id = fresh_id();
    let added_at = timestamp_now();
    add_folder_with(project, source_path, output_mode, id, added_at)
}

/// The folders of a list whose id is not `folder_id`, in order.
pub open spec fn folders_without(folders: Seq<Folder>, folder_id: Seq<char>) -> Seq<Folder> {
    folders.filter(|f: Folder| f.id@ != folder_id)
}

/// Removes every folder with the given id from a project.
pub fn remove_folder(project: &mut Project, folder_id: &str)
    ensures
        final(project).id == old(project).id,
        final(project).name == old(project).name,
        final(project).created_at == old(project).created_at,
        final(project).output_directory_mode == old(project).output_directory_mode,
        final(project).folders@ == folders_without(old(project).folders@, folder_id@),
{
    let ghost all = project.folders@;
    let mut kept: Vec<Folder> = Vec::new();
    let mut i: usize = 0;
    proof {
        reveal(Seq::filter);
        assert(all.take(0) =~= Seq::<Folder>::empty());
    }
    while i < project.folders.len()
        invariant
            i <= project.folders.len(),
            all == project.folders@,
            *project == *old(project),
            kept@ == folders_without(all.take(i as int), folder_id@),
        decreases project.folders.len() - i,
    {
        proof {
            reveal(Seq::filter);
            assert(all.take(i as int + 1).drop_last() =~= all.take(i as int));
            assert(all.take(i as int + 1).last() == all[i as int]);
        }
        if !same_text(project.folders[i].id.as_str(), folder_id) {
            kept.push(copy_folder(&project.folders[i]));
        }
        i += 1;
    }
    proof {
        assert(all.take(all.len() as int) =~= all);
    }
    project.folders = kept;
}

/// Sets the layout that a project records for its output.
pub fn set_output_mode(project: &mut Project, mode: String)
    ensures
        final(project).output_directory_mode == mode,
        final(project).id == old(project).id,
        final(project).name == old(project).name,
        final(project).created_at == old(project).created_at,
        final(project).folders == old(project).folders,
{
    project.output_directory_mode = mode;
}

/// The entries of a registry whose id is not `project_id`, in order.
pub open spec fn entries_without(entries: Seq<ProjectRegistryEntry>, project_id: Seq<char>) -> Seq<
    ProjectRegistryEntry,
> {
    entries.filter(|e: ProjectRegistryEntry| e.id@ != project_id)
}

/// A copy of a registry entry.
pub fn copy_entry(entry: &ProjectRegistryEntry) -> (copy: ProjectRegistryEntry)
    ensures
        copy == *entry,
{
    ProjectRegistryEntry {
        id: entry.id.clone(),
        name: entry.name.clone(),
        path: entry.path.clone(),
        created_at: entry.created_at.clone(),
    }
}

/// The registry without the project of the given id. The project's files
/// are not touched.
pub fn remove_project(entries: &Vec<ProjectRegistryEntry>, project_id: &str) -> (left: Vec<
    ProjectRegistryEntry,
>)
    ensures
        left@ == entries_without(entries@, project_id@),
{
    let ghost all = entries@;
    let mut left: Vec<ProjectRegistryEntry> = Vec::new();
    let mut i: usize = 0;
    proof {
        reveal(Seq::filter);
        assert(all.take(0) =~= Seq::<ProjectRegistryEntry>::empty());
    }
    while i < entries.len()
        invariant
            i <= entries.len(),
            all == entries@,
            left@ == entries_without(all.take(i as int), project_id@),
        decreases entries.len() - i,
    {
        proof {
            reveal(Seq::filter);
            assert(all.take(i as int + 1).drop_last() =~= all.take(i as int));
            assert(all.take(i as int + 1).last() == all[i as int]);
        }
        if !same_text(entries[i].id.as_str(), project_id) {
            left.push(copy_entry(&entries[i]));
        }
        i += 1;
    }
    proof {
        assert(all.take(all.len() as int) =~= all);
    }
    left
}

/// How many folder names a summary shows at most.
pub const SUMMARY_NAMES: usize = 3;

/// The names that a summary shows: those of the first three folders.
pub open spec fn summary_names(folders: Seq<Folder>) -> Seq<Seq<char>> {
    if folders.len() <= SUMMARY_NAMES {
        folder_names(folders)
    } else {
        folder_names(folders).take(SUMMARY_NAMES as int)
    }
}

/// The summary of a project for the list of projects: what the registry
/// says of it, when its configuration was last changed, and from the
/// configuration, where it could be read, the number of folders and the
/// names of the first three.
pub fn summarize_project(
    entry: &ProjectRegistryEntry,
    updated_at: Option<String>,
    project: Option<&Project>,
) -> (summary: ProjectSummary)
    ensures
        summary.id == entry.id,
        summary.name == entry.name,
        summary.path == entry.path,
        summary.created_at == entry.created_at,
        summary.updated_at == updated_at,
        match project {
            Some(p) => summary.folder_count == p.folders@.len() as u32 && texts(
                summary.folder_names@,
            ) == summary_names(p.folders@),
            None => summary.folder_count == 0 && summary.folder_names@.len() == 0,
        },
{
    let mut folder_count: u32 = 0;
    let mut names: Vec<String> = Vec::new();
    match project {
        Some(p) => {
            folder_count = #[verifier::truncate]
            (p.folders.len() as u32);
            let mut i: usize = 0;
            proof {
                assert(texts(names@) =~= folder_names(p.folders@).take(0));
            }
            while i < p.folders.len() && i < SUMMARY_NAMES
                invariant
                    i <= p.folders.len(),
                    i <= SUMMARY_NAMES,
                    texts(names@) == folder_names(p.folders@).take(i as int),
                decreases p.folders.len() - i,
            {
                let name = get_folder_name(p.folders[i].source_path.as_str());
                push_text(&mut names, name);
                proof {
                    assert(texts(names@) =~= folder_names(p.folders@).take(i as int + 1));
                }
                i += 1;
            }
            proof {
                if p.folders@.len() <= SUMMARY_NAMES {
                    assert(folder_names(p.folders@).take(i as int) =~= folder_names(p.folders@));
                }
            }
        },
        None => {},
    }
    ProjectSummary {
        id: entry.id.clone(),
        name: entry.name.clone(),
        path: entry.path.clone(),
        created_at: entry.created_at.clone(),
        updated_at,
        folder_count,
        folder_names: names,
    }
}

/// The file that holds a project's configuration.
pub fn project_config_path(project_dir: &str) -> (path: String)
    ensures
        path@ == joined(project_dir@, "toss-project.json"@),
{
    path_join(project_dir, "toss-project.json")
}

/// The file that holds a project's record of origins.
pub fn metadata_path(project_dir: &str) -> (path: String)
    ensures
        path@ == joined(project_dir@, crate::migrate::metadata_file()),
{
    path_join(project_dir, "toss-metadata.json")
}

/// The file that holds the registry of projects.
pub fn registry_path(app_data_dir: &str) -> (path: String)
    ensures
        path@ == joined(app_data_dir@, "projects.json"@),
{
    path_join(app_data_dir, "projects.json")
}

} // verus!
