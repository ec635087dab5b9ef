use toss::metadata::{Origin, OutputMetadata};
use toss::migrate::{
    find_home, folder_directories, migration_target, picture_entry, plan_scatter, plan_unify,
    project_folder_names, unified_directories, MigrationTarget,
};
use toss::model::{DirEntry, FileMove, Folder, FolderOutput, Project};
use toss::plan::{FileOp, Plan};

fn folder(id: &str, source: &str) -> Folder {
    Folder {
        id: id.to_string(),
        source_path: source.to_string(),
        output_mode: "move".to_string(),
        added_at: "2024-01-01T00:00:00+00:00".to_string(),
    }
}

fn project(mode: &str, folders: Vec<Folder>) -> Project {
    Project {
        id: "trip-2024".to_string(),
        name: "Trip".to_string(),
        created_at: "2024-01-01T00:00:00+00:00".to_string(),
        output_directory_mode: mode.to_string(),
        folders,
    }
}

fn file(dir: &str, name: &str) -> DirEntry {
    DirEntry { name: name.to_string(), path: format!("{}/{}", dir, name), is_file: true }
}

fn subdir(dir: &str, name: &str) -> DirEntry {
    DirEntry { name: name.to_string(), path: format!("{}/{}", dir, name), is_file: false }
}

fn listing(dir: &str, names: &[&str]) -> Vec<DirEntry> {
    names.iter().map(|n| file(dir, n)).collect()
}

fn strings(list: &[&str]) -> Vec<String> {
    list.iter().map(|s| s.to_string()).collect()
}

fn ops(plan: &Plan) -> Vec<FileOp> {
    plan.steps.iter().map(|s| s.op.clone()).collect()
}

fn moves(plan: &Plan) -> Vec<(String, String)> {
    plan.steps
        .iter()
        .filter_map(|s| match &s.op {
            FileOp::Move(m) => Some((m.source.clone(), m.destination.clone())),
            _ => None,
        })
        .collect()
}

fn moved(source: &str, destination: &str) -> FileOp {
    FileOp::Move(FileMove { source: source.to_string(), destination: destination.to_string() })
}

fn origin(name: &str, folder_id: &str) -> Origin {
    Origin { name: name.to_string(), folder_id: folder_id.to_string() }
}

#[test]
fn target_is_unified_only_for_that_word() {
    assert_eq!(migration_target("unified"), MigrationTarget::Unified);
    assert_eq!(migration_target("per-folder"), MigrationTarget::PerFolder);
    assert_eq!(migration_target("Unified"), MigrationTarget::PerFolder);
    assert_eq!(migration_target(""), MigrationTarget::PerFolder);
}

#[test]
fn unify_moves_pictures_and_records_origins() {
    let p = project("per-folder", vec![folder("f1", "/src/one"), folder("f2", "/src/two")]);
    let outputs = vec![
        FolderOutput {
            keep: listing("/proj/one/keep", &["a.jpg", "notes.txt"]),
            maybe: listing("/proj/one/maybe", &["b.png"]),
        },
        FolderOutput { keep: listing("/proj/two/keep", &["c.gif"]), maybe: vec![] },
    ];
    let plan = plan_unify(&p, "/proj", &outputs, &strings(&[]), &strings(&[]));
    assert_eq!(
        ops(&plan),
        vec![
            FileOp::CreateDir("/proj/keep".to_string()),
            FileOp::CreateDir("/proj/maybe".to_string()),
            moved("/proj/one/keep/a.jpg", "/proj/keep/a.jpg"),
            moved("/proj/one/maybe/b.png", "/proj/maybe/b.png"),
            FileOp::RemoveDir("/proj/one/keep".to_string()),
            FileOp::RemoveDir("/proj/one/maybe".to_string()),
            FileOp::RemoveDir("/proj/one".to_string()),
            moved("/proj/two/keep/c.gif", "/proj/keep/c.gif"),
            FileOp::RemoveDir("/proj/two/keep".to_string()),
            FileOp::RemoveDir("/proj/two/maybe".to_string()),
            FileOp::RemoveDir("/proj/two".to_string()),
            FileOp::StoreMetadata,
        ]
    );
    assert_eq!(
        plan.origins,
        vec![origin("a.jpg", "f1"), origin("b.png", "f1"), origin("c.gif", "f2")]
    );
    assert!(plan.conflicts.is_empty());
    let required: Vec<bool> = plan.steps.iter().map(|s| s.required).collect();
    assert_eq!(required.iter().filter(|r| **r).count(), 1);
    assert!(plan.steps.last().unwrap().required);
}

#[test]
fn unify_renames_colliding_names_and_reports_them() {
    let p = project("per-folder", vec![folder("f1", "/src/one"), folder("f2", "/src/two")]);
    let outputs = vec![
        FolderOutput { keep: listing("/proj/one/keep", &["img.jpg"]), maybe: vec![] },
        FolderOutput {
            keep: listing("/proj/two/keep", &["img.jpg"]),
            maybe: listing("/proj/two/maybe", &["img.jpg"]),
        },
    ];
    let plan = plan_unify(&p, "/proj", &outputs, &strings(&[]), &strings(&[]));
    assert_eq!(
        moves(&plan),
        vec![
            ("/proj/one/keep/img.jpg".to_string(), "/proj/keep/img.jpg".to_string()),
            ("/proj/two/keep/img.jpg".to_string(), "/proj/keep/img_1.jpg".to_string()),
            ("/proj/two/maybe/img.jpg".to_string(), "/proj/maybe/img.jpg".to_string()),
        ]
    );
    assert_eq!(plan.conflicts, vec!["img.jpg \u{2192} img_1.jpg".to_string()]);
    assert_eq!(
        plan.origins,
        vec![origin("img.jpg", "f1"), origin("img_1.jpg", "f2"), origin("img.jpg", "f2")]
    );
}

#[test]
fn unify_avoids_names_already_in_the_unified_directory() {
    let p = project("per-folder", vec![folder("f1", "/src/one")]);
    let outputs =
        vec![FolderOutput { keep: listing("/proj/one/keep", &["img.jpg"]), maybe: vec![] }];
    let plan = plan_unify(&p, "/proj", &outputs, &strings(&["img.jpg", "img_1.jpg"]), &strings(&[]));
    assert_eq!(
        moves(&plan),
        vec![("/proj/one/keep/img.jpg".to_string(), "/proj/keep/img_2.jpg".to_string())]
    );
    assert_eq!(plan.conflicts, vec!["img.jpg \u{2192} img_2.jpg".to_string()]);
}

#[test]
fn unify_leaves_non_pictures_and_directories() {
    let p = project("per-folder", vec![folder("f1", "/src/one")]);
    let outputs = vec![FolderOutput {
        keep: vec![
            file("/proj/one/keep", "readme.md"),
            subdir("/proj/one/keep", "nested.jpg"),
            file("/proj/one/keep", "ok.JPEG"),
        ],
        maybe: vec![],
    }];
    let plan = plan_unify(&p, "/proj", &outputs, &strings(&[]), &strings(&[]));
    assert_eq!(
        moves(&plan),
        vec![("/proj/one/keep/ok.JPEG".to_string(), "/proj/keep/ok.JPEG".to_string())]
    );
}

#[test]
fn folders_sharing_a_name_are_gathered_once() {
    let p = project("per-folder", vec![folder("f1", "/a/Trip"), folder("f2", "/b/Trip")]);
    let shared = FolderOutput { keep: listing("/proj/Trip/keep", &["x.jpg"]), maybe: vec![] };
    let plan =
        plan_unify(&p, "/proj", &vec![shared.clone(), shared], &strings(&[]), &strings(&[]));
    assert_eq!(
        moves(&plan),
        vec![("/proj/Trip/keep/x.jpg".to_string(), "/proj/keep/x.jpg".to_string())]
    );
    assert_eq!(plan.origins, vec![origin("x.jpg", "f1")]);
    assert!(plan.conflicts.is_empty());
}

#[test]
fn unify_with_missing_listings_gathers_nothing_for_them() {
    let p = project("per-folder", vec![folder("f1", "/src/one"), folder("f2", "/src/two")]);
    let outputs =
        vec![FolderOutput { keep: listing("/proj/one/keep", &["a.jpg"]), maybe: vec![] }];
    let plan = plan_unify(&p, "/proj", &outputs, &strings(&[]), &strings(&[]));
    assert_eq!(moves(&plan).len(), 1);
    assert_eq!(plan.steps.len(), 2 + 1 + 3 + 3 + 1);
}

#[test]
fn unify_again_over_unified_tree_moves_nothing() {
    let p = project("unified", vec![folder("f1", "/src/one"), folder("f2", "/src/two")]);
    let outputs = vec![
        FolderOutput { keep: vec![], maybe: vec![] },
        FolderOutput { keep: vec![file("/proj/two/keep", "notes.txt")], maybe: vec![] },
    ];
    let plan = plan_unify(&p, "/proj", &outputs, &strings(&["a.jpg"]), &strings(&["b.jpg"]));
    assert!(moves(&plan).is_empty());
    assert!(plan.origins.is_empty());
    assert!(plan.conflicts.is_empty());
}

#[test]
fn scatter_sends_pictures_home() {
    let p = project("unified", vec![folder("f1", "/src/one"), folder("f2", "/src/two")]);
    let record = OutputMetadata::new()
        .with_origins(&vec![origin("a.jpg", "f1"), origin("b.png", "f2"), origin("c.gif", "f1")]);
    let plan = plan_scatter(
        &p,
        "/proj",
        &record,
        &listing("/proj/keep", &["a.jpg", "b.png"]),
        &listing("/proj/maybe", &["c.gif"]),
    );
    assert_eq!(
        ops(&plan),
        vec![
            FileOp::CreateDir("/proj/one/keep".to_string()),
            moved("/proj/keep/a.jpg", "/proj/one/keep/a.jpg"),
            FileOp::CreateDir("/proj/two/keep".to_string()),
            moved("/proj/keep/b.png", "/proj/two/keep/b.png"),
            FileOp::CreateDir("/proj/one/maybe".to_string()),
            moved("/proj/maybe/c.gif", "/proj/one/maybe/c.gif"),
            FileOp::RemoveDir("/proj/keep".to_string()),
            FileOp::RemoveDir("/proj/maybe".to_string()),
            FileOp::RemoveFile("/proj/toss-metadata.json".to_string()),
        ]
    );
    assert!(plan.steps.iter().all(|s| !s.required));
    assert!(plan.origins.is_empty());
    assert!(plan.conflicts.is_empty());
}

#[test]
fn scatter_leaves_pictures_without_a_home() {
    let p = project("unified", vec![folder("f1", "/src/one")]);
    let record =
        OutputMetadata::new().with_origins(&vec![origin("a.jpg", "f1"), origin("gone.jpg", "f9")]);
    let plan = plan_scatter(
        &p,
        "/proj",
        &record,
        &vec![
            file("/proj/keep", "a.jpg"),
            file("/proj/keep", "gone.jpg"),
            file("/proj/keep", "unknown.jpg"),
            file("/proj/keep", "notes.txt"),
            subdir("/proj/keep", "a.jpg"),
        ],
        &vec![],
    );
    assert_eq!(
        moves(&plan),
        vec![("/proj/keep/a.jpg".to_string(), "/proj/one/keep/a.jpg".to_string())]
    );
}

#[test]
fn scatter_again_over_per_folder_tree_moves_nothing() {
    let p = project("per-folder", vec![folder("f1", "/src/one")]);
    let record = OutputMetadata::new().with_origins(&vec![origin("a.jpg", "f1")]);
    let plan = plan_scatter(&p, "/proj", &record, &vec![], &vec![file("/proj/maybe", "x.txt")]);
    assert!(moves(&plan).is_empty());
    assert_eq!(plan.steps.len(), 3);
}

#[test]
fn there_and_back_restores_every_picture() {
    let p = project("per-folder", vec![folder("f1", "/src/one"), folder("f2", "/src/two")]);
    let outputs = vec![
        FolderOutput {
            keep: listing("/proj/one/keep", &["a.jpg", "b.jpg"]),
            maybe: listing("/proj/one/maybe", &["c.jpg"]),
        },
        FolderOutput {
            keep: listing("/proj/two/keep", &["d.jpg"]),
            maybe: listing("/proj/two/maybe", &["e.jpg"]),
        },
    ];
    let there = plan_unify(&p, "/proj", &outputs, &strings(&[]), &strings(&[]));
    assert!(there.conflicts.is_empty());
    let record = OutputMetadata::new().with_origins(&there.origins);
    let keep_now = listing("/proj/keep", &["d.jpg", "b.jpg", "a.jpg"]);
    let maybe_now = listing("/proj/maybe", &["e.jpg", "c.jpg"]);
    let back = plan_scatter(&p, "/proj", &record, &keep_now, &maybe_now);
    let mut forward = moves(&there);
    let mut reversed: Vec<(String, String)> =
        moves(&back).into_iter().map(|(s, d)| (d, s)).collect();
    forward.sort();
    reversed.sort();
    assert_eq!(forward, reversed);
    assert_eq!(forward.len(), 5);
}

#[test]
fn record_after_unify_matches_the_unified_directories() {
    let p = project("per-folder", vec![folder("f1", "/src/one"), folder("f2", "/src/two")]);
    let outputs = vec![
        FolderOutput {
            keep: listing("/proj/one/keep", &["a.jpg", "b.jpg"]),
            maybe: listing("/proj/one/maybe", &["a.jpg"]),
        },
        FolderOutput { keep: listing("/proj/two/keep", &["a.jpg"]), maybe: vec![] },
    ];
    let plan = plan_unify(&p, "/proj", &outputs, &strings(&[]), &strings(&[]));
    let record = OutputMetadata::new().with_origins(&plan.origins);
    let mut present: Vec<String> = moves(&plan)
        .iter()
        .map(|(_, d)| d.rsplit('/').next().unwrap().to_string())
        .collect();
    present.sort();
    present.dedup();
    assert_eq!(present, strings(&["a.jpg", "a_1.jpg", "b.jpg"]));
    for name in &present {
        assert!(record.get(name).is_some());
    }
    assert_eq!(record.get("c.jpg"), None);
    let mut recorded: Vec<String> = plan.origins.iter().map(|o| o.name.clone()).collect();
    recorded.sort();
    recorded.dedup();
    assert_eq!(recorded, present);
}

#[test]
fn find_home_needs_picture_record_and_folder() {
    let p = project("unified", vec![folder("f1", "/src/one")]);
    let record = OutputMetadata::new().with_origins(&vec![origin("a.jpg", "f1")]);
    assert_eq!(
        find_home(&p, "/proj", &record, &file("/proj/keep", "a.jpg"), "keep"),
        Some("/proj/one/keep".to_string())
    );
    assert_eq!(
        find_home(&p, "/proj", &record, &file("/proj/maybe", "a.jpg"), "maybe"),
        Some("/proj/one/maybe".to_string())
    );
    assert_eq!(find_home(&p, "/proj", &record, &file("/proj/keep", "z.jpg"), "keep"), None);
    assert_eq!(find_home(&p, "/proj", &record, &subdir("/proj/keep", "a.jpg"), "keep"), None);
}

#[test]
fn picture_entries_are_regular_image_files() {
    assert!(picture_entry(&file("/d", "a.png")));
    assert!(!picture_entry(&file("/d", "a.txt")));
    assert!(!picture_entry(&subdir("/d", "a.png")));
}

#[test]
fn directories_of_the_two_layouts() {
    let p = project("per-folder", vec![folder("f1", "/src/one"), folder("f2", "/")]);
    assert_eq!(
        unified_directories("/proj"),
        ("/proj/keep".to_string(), "/proj/maybe".to_string())
    );
    assert_eq!(
        folder_directories(&p, "/proj"),
        vec![
            ("/proj/one/keep".to_string(), "/proj/one/maybe".to_string()),
            ("/proj/unnamed/keep".to_string(), "/proj/unnamed/maybe".to_string()),
        ]
    );
    assert_eq!(project_folder_names(&p), strings(&["one", "unnamed"]));
}

#[test]
fn record_after_unify_gives_each_picture_its_folder() {
    let p = project("per-folder", vec![folder("f1", "/src/one"), folder("f2", "/src/two")]);
    let outputs = vec![
        FolderOutput {
            keep: listing("/proj/one/keep", &["img.jpg", "only1.jpg"]),
            maybe: listing("/proj/one/maybe", &["both.jpg"]),
        },
        FolderOutput {
            keep: listing("/proj/two/keep", &["img.jpg", "both.jpg"]),
            maybe: listing("/proj/two/maybe", &["only2.jpg"]),
        },
    ];
    let plan = plan_unify(&p, "/proj", &outputs, &strings(&[]), &strings(&[]));
    let record = OutputMetadata::new().with_origins(&plan.origins);
    assert_eq!(record.get("img.jpg"), Some("f1".to_string()));
    assert_eq!(record.get("img_1.jpg"), Some("f2".to_string()));
    assert_eq!(record.get("only1.jpg"), Some("f1".to_string()));
    assert_eq!(record.get("only2.jpg"), Some("f2".to_string()));
    assert_eq!(record.get("both.jpg"), Some("f2".to_string()));
}
