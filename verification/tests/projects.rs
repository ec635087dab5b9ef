use toss::model::{
    copy_folder, move_mode, unified_mode, Folder, Project, ProjectRegistryEntry,
};
use toss::project::{
    add_folder, add_folder_with, copy_entry, create_project, has_source, metadata_path,
    new_project, project_config_path, registry_path, remove_folder, remove_project,
    set_output_mode, summarize_project, ProjectError,
};

fn folder(id: &str, source: &str) -> Folder {
    Folder {
        id: id.to_string(),
        source_path: source.to_string(),
        output_mode: "move".to_string(),
        added_at: "2024-01-01T00:00:00+00:00".to_string(),
    }
}

fn project(folders: Vec<Folder>) -> Project {
    Project {
        id: "trip-2024".to_string(),
        name: "Trip".to_string(),
        created_at: "2024-01-01T00:00:00+00:00".to_string(),
        output_directory_mode: "per-folder".to_string(),
        folders,
    }
}

fn entry(id: &str) -> ProjectRegistryEntry {
    ProjectRegistryEntry {
        id: id.to_string(),
        name: format!("name-{}", id),
        path: format!("/projects/{}", id),
        created_at: "2024-01-01T00:00:00+00:00".to_string(),
    }
}

#[test]
fn created_project_is_empty_and_per_folder() {
    let made = create_project("  My/Trip  ", "/out").unwrap();
    assert_eq!(made.project.name, "MyTrip");
    assert_eq!(made.project.output_directory_mode, "per-folder");
    assert!(made.project.folders.is_empty());
    assert_eq!(made.path, "/out/MyTrip");
    assert_eq!(made.entry.id, made.project.id);
    assert_eq!(made.entry.name, "MyTrip");
    assert_eq!(made.entry.path, "/out/MyTrip");
    assert_eq!(made.entry.created_at, made.project.created_at);
    assert!(!made.project.id.is_empty());
    assert!(!made.project.created_at.is_empty());
}

#[test]
fn created_projects_get_different_ids() {
    let a = create_project("a", "/out").unwrap();
    let b = create_project("a", "/out").unwrap();
    assert_ne!(a.project.id, b.project.id);
    assert_eq!(a.project.id.len(), 36);
}

#[test]
fn project_without_a_name_is_refused() {
    assert_eq!(create_project("", "/out"), Err(ProjectError::InvalidName));
    assert_eq!(create_project("   ", "/out"), Err(ProjectError::InvalidName));
    assert_eq!(create_project("/\\:*?\"<>|", "/out"), Err(ProjectError::InvalidName));
    assert_eq!(ProjectError::InvalidName.message(), "Invalid project name");
}

#[test]
fn new_project_uses_what_it_is_given() {
    let made = new_project(
        "Trip".to_string(),
        "/out",
        "id-1".to_string(),
        "2024-05-05T10:00:00+00:00".to_string(),
    );
    assert_eq!(made.project.id, "id-1");
    assert_eq!(made.project.created_at, "2024-05-05T10:00:00+00:00");
    assert_eq!(made.path, "/out/Trip");
    assert_eq!(made.entry.path, "/out/Trip");
}

#[test]
fn added_folder_goes_to_the_end() {
    let mut p = project(vec![folder("f1", "/a")]);
    let added = add_folder(&mut p, "/b".to_string(), "copy".to_string()).unwrap();
    assert_eq!(added.source_path, "/b");
    assert_eq!(added.output_mode, "copy");
    assert_eq!(p.folders.len(), 2);
    assert_eq!(p.folders[1], added);
    assert_eq!(p.folders[0], folder("f1", "/a"));
    assert_eq!(p.name, "Trip");
}

#[test]
fn duplicate_source_path_is_refused() {
    let mut p = project(vec![folder("f1", "/a")]);
    assert_eq!(
        add_folder(&mut p, "/a".to_string(), "copy".to_string()),
        Err(ProjectError::DuplicateFolder)
    );
    assert_eq!(p, project(vec![folder("f1", "/a")]));
    assert_eq!(ProjectError::DuplicateFolder.message(), "Folder already added to project");
    assert!(has_source(&p, "/a"));
    assert!(!has_source(&p, "/a/"));
}

#[test]
fn add_folder_with_uses_what_it_is_given() {
    let mut p = project(vec![]);
    let added = add_folder_with(
        &mut p,
        "/a".to_string(),
        "move".to_string(),
        "f7".to_string(),
        "2024-01-01T00:00:00+00:00".to_string(),
    )
    .unwrap();
    assert_eq!(added, folder("f7", "/a"));
    assert_eq!(p.folders, vec![folder("f7", "/a")]);
}

#[test]
fn removed_folder_is_gone_and_the_rest_keeps_its_order() {
    let mut p = project(vec![folder("f1", "/a"), folder("f2", "/b"), folder("f3", "/c")]);
    remove_folder(&mut p, "f2");
    assert_eq!(p.folders, vec![folder("f1", "/a"), folder("f3", "/c")]);
    remove_folder(&mut p, "nope");
    assert_eq!(p.folders, vec![folder("f1", "/a"), folder("f3", "/c")]);
    assert_eq!(p.id, "trip-2024");
}

#[test]
fn removed_project_leaves_the_registry() {
    let entries = vec![entry("a"), entry("b"), entry("c")];
    assert_eq!(remove_project(&entries, "b"), vec![entry("a"), entry("c")]);
    assert_eq!(remove_project(&entries, "zz"), entries);
    assert_eq!(remove_project(&vec![], "a"), vec![]);
    assert_eq!(copy_entry(&entry("a")), entry("a"));
}

#[test]
fn output_mode_is_set_as_given() {
    let mut p = project(vec![folder("f1", "/a")]);
    set_output_mode(&mut p, "unified".to_string());
    assert_eq!(p.output_directory_mode, "unified");
    assert_eq!(p.folders, vec![folder("f1", "/a")]);
    assert!(unified_mode(&p.output_directory_mode));
    assert!(!unified_mode("per-folder"));
    assert!(move_mode("move"));
    assert!(!move_mode("copy"));
}

#[test]
fn summary_shows_count_and_first_three_names() {
    let p = project(vec![
        folder("f1", "/x/one"),
        folder("f2", "/x/two"),
        folder("f3", "/x/three"),
        folder("f4", "/x/four"),
    ]);
    let s = summarize_project(&entry("a"), Some("2024-02-02T00:00:00+00:00".to_string()), Some(&p));
    assert_eq!(s.id, "a");
    assert_eq!(s.name, "name-a");
    assert_eq!(s.path, "/projects/a");
    assert_eq!(s.created_at, "2024-01-01T00:00:00+00:00");
    assert_eq!(s.updated_at, Some("2024-02-02T00:00:00+00:00".to_string()));
    assert_eq!(s.folder_count, 4);
    assert_eq!(s.folder_names, vec!["one".to_string(), "two".to_string(), "three".to_string()]);
}

#[test]
fn summary_of_small_or_unreadable_project() {
    let p = project(vec![folder("f1", "/x/one")]);
    let s = summarize_project(&entry("a"), None, Some(&p));
    assert_eq!(s.folder_count, 1);
    assert_eq!(s.folder_names, vec!["one".to_string()]);
    assert_eq!(s.updated_at, None);
    let s = summarize_project(&entry("a"), None, None);
    assert_eq!(s.folder_count, 0);
    assert!(s.folder_names.is_empty());
}

#[test]
fn files_of_a_project() {
    assert_eq!(project_config_path("/proj"), "/proj/toss-project.json");
    assert_eq!(metadata_path("/proj"), "/proj/toss-metadata.json");
    assert_eq!(registry_path("/data"), "/data/projects.json");
}

#[test]
fn error_messages() {
    assert_eq!(ProjectError::FolderNotFound.message(), "Folder not found");
    assert_eq!(ProjectError::ConfigNotFound.message(), "Project config not found");
    assert_eq!(ProjectError::MissingDirectory.message(), "Folder does not exist");
}

#[test]
fn find_folder_gives_first_position() {
    let p = project(vec![folder("f1", "/a"), folder("f2", "/b"), folder("f2", "/c")]);
    assert_eq!(p.find_folder("f2"), Some(1));
    assert_eq!(p.find_folder("f1"), Some(0));
    assert_eq!(p.find_folder("f3"), None);
    assert_eq!(copy_folder(&p.folders[0]), p.folders[0]);
}
