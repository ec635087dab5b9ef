use toss::metadata::{Origin, OutputMetadata};
use toss::model::{FileMove, Folder, Project};
use toss::plan::{failure_message, FileOp, Plan, Step};
use toss::triage::{output_directory, place_file, plan_triage, triage_directories, TriageError};

fn folder(id: &str, source: &str) -> Folder {
    Folder {
        id: id.to_string(),
        source_path: source.to_string(),
        output_mode: "move".to_string(),
        added_at: "2024-01-01T00:00:00+00:00".to_string(),
    }
}

fn project(mode: &str, folders: Vec<Folder>) -> Project {
    Project {
        id: "trip-2024".to_string(),
        name: "Trip".to_string(),
        created_at: "2024-01-01T00:00:00+00:00".to_string(),
        output_directory_mode: mode.to_string(),
        folders,
    }
}

fn strings(list: &[&str]) -> Vec<String> {
    list.iter().map(|s| s.to_string()).collect()
}

fn ops(plan: &Plan) -> Vec<FileOp> {
    plan.steps.iter().map(|s| s.op.clone()).collect()
}

fn moved(source: &str, destination: &str) -> FileOp {
    FileOp::Move(FileMove { source: source.to_string(), destination: destination.to_string() })
}

fn copied(source: &str, destination: &str) -> FileOp {
    FileOp::Copy(FileMove { source: source.to_string(), destination: destination.to_string() })
}

fn dir(path: &str) -> FileOp {
    FileOp::CreateDir(path.to_string())
}

fn trash(path: &str) -> FileOp {
    FileOp::Trash(path.to_string())
}

#[test]
fn per_folder_move_lands_under_the_folder_name() {
    let p = project("per-folder", vec![folder("f1", "/photos/vacation")]);
    let plan = plan_triage(
        &p,
        "/proj",
        "f1",
        "move",
        &strings(&["/photos/vacation/a.jpg"]),
        &strings(&[]),
        &strings(&[]),
        &strings(&[]),
        &strings(&[]),
    )
    .unwrap();
    assert_eq!(
        ops(&plan),
        vec![
            dir("/proj/vacation/keep"),
            dir("/proj/vacation/maybe"),
            moved("/photos/vacation/a.jpg", "/proj/vacation/keep/a.jpg"),
        ]
    );
    assert!(plan.origins.is_empty());
    assert!(plan.conflicts.is_empty());
    assert!(plan.steps.iter().all(|s| s.required));
}

#[test]
fn per_folder_triage_never_renames() {
    let p = project("per-folder", vec![folder("f1", "/photos/vacation")]);
    let plan = plan_triage(
        &p,
        "/proj",
        "f1",
        "move",
        &strings(&["/photos/vacation/photo.jpg", "/elsewhere/photo.jpg"]),
        &strings(&["/photos/vacation/photo.jpg"]),
        &strings(&[]),
        &strings(&["photo.jpg", "photo_1.jpg"]),
        &strings(&["photo.jpg"]),
    )
    .unwrap();
    assert_eq!(
        ops(&plan),
        vec![
            dir("/proj/vacation/keep"),
            dir("/proj/vacation/maybe"),
            moved("/photos/vacation/photo.jpg", "/proj/vacation/keep/photo.jpg"),
            moved("/elsewhere/photo.jpg", "/proj/vacation/keep/photo.jpg"),
            moved("/photos/vacation/photo.jpg", "/proj/vacation/maybe/photo.jpg"),
        ]
    );
}

#[test]
fn unified_triage_of_two_folders_counts_names_up() {
    let p = project("unified", vec![folder("f1", "/a/one"), folder("f2", "/b/two")]);
    let first = plan_triage(
        &p,
        "/proj",
        "f1",
        "move",
        &strings(&["/a/one/img.jpg"]),
        &strings(&[]),
        &strings(&[]),
        &strings(&[]),
        &strings(&[]),
    )
    .unwrap();
    assert_eq!(
        ops(&first),
        vec![
            dir("/proj/keep"),
            dir("/proj/maybe"),
            FileOp::LoadMetadata,
            moved("/a/one/img.jpg", "/proj/keep/img.jpg"),
            FileOp::StoreMetadata,
        ]
    );
    let second = plan_triage(
        &p,
        "/proj",
        "f2",
        "move",
        &strings(&["/b/two/img.jpg"]),
        &strings(&[]),
        &strings(&[]),
        &strings(&["img.jpg"]),
        &strings(&[]),
    )
    .unwrap();
    assert_eq!(
        ops(&second),
        vec![
            dir("/proj/keep"),
            dir("/proj/maybe"),
            FileOp::LoadMetadata,
            moved("/b/two/img.jpg", "/proj/keep/img_1.jpg"),
            FileOp::StoreMetadata,
        ]
    );
    let record = OutputMetadata::new().with_origins(&first.origins).with_origins(&second.origins);
    assert_eq!(record.get("img.jpg"), Some("f1".to_string()));
    assert_eq!(record.get("img_1.jpg"), Some("f2".to_string()));
    assert_eq!(record.get("img_2.jpg"), None);
}

#[test]
fn unified_triage_counts_up_within_one_batch() {
    let p = project("unified", vec![folder("f1", "/a/one")]);
    let plan = plan_triage(
        &p,
        "/proj",
        "f1",
        "copy",
        &strings(&["/a/one/x.png", "/a/other/x.png", "/a/third/x.png"]),
        &strings(&["/a/one/x.png"]),
        &strings(&[]),
        &strings(&[]),
        &strings(&["x.png"]),
    )
    .unwrap();
    assert_eq!(
        ops(&plan),
        vec![
            dir("/proj/keep"),
            dir("/proj/maybe"),
            FileOp::LoadMetadata,
            copied("/a/one/x.png", "/proj/keep/x.png"),
            copied("/a/other/x.png", "/proj/keep/x_1.png"),
            copied("/a/third/x.png", "/proj/keep/x_2.png"),
            copied("/a/one/x.png", "/proj/maybe/x_1.png"),
            FileOp::StoreMetadata,
        ]
    );
    assert_eq!(
        plan.origins,
        vec![
            Origin { name: "x.png".to_string(), folder_id: "f1".to_string() },
            Origin { name: "x_1.png".to_string(), folder_id: "f1".to_string() },
            Origin { name: "x_2.png".to_string(), folder_id: "f1".to_string() },
            Origin { name: "x_1.png".to_string(), folder_id: "f1".to_string() },
        ]
    );
}

#[test]
fn discards_go_to_trash_in_copy_mode_too() {
    let p = project("per-folder", vec![folder("f1", "/photos/vacation")]);
    for mode in ["copy", "move"] {
        let plan = plan_triage(
            &p,
            "/proj",
            "f1",
            mode,
            &strings(&[]),
            &strings(&[]),
            &strings(&["/photos/vacation/bad.jpg", "/photos/vacation/worse.jpg"]),
            &strings(&[]),
            &strings(&[]),
        )
        .unwrap();
        assert_eq!(
            ops(&plan),
            vec![
                dir("/proj/vacation/keep"),
                dir("/proj/vacation/maybe"),
                trash("/photos/vacation/bad.jpg"),
                trash("/photos/vacation/worse.jpg"),
            ]
        );
    }
}

#[test]
fn keeps_come_before_maybes_and_discards_last() {
    let p = project("per-folder", vec![folder("f1", "/src/dir")]);
    let plan = plan_triage(
        &p,
        "/proj",
        "f1",
        "copy",
        &strings(&["/src/dir/k.jpg"]),
        &strings(&["/src/dir/m.jpg"]),
        &strings(&["/src/dir/d.jpg"]),
        &strings(&[]),
        &strings(&[]),
    )
    .unwrap();
    assert_eq!(
        ops(&plan),
        vec![
            dir("/proj/dir/keep"),
            dir("/proj/dir/maybe"),
            copied("/src/dir/k.jpg", "/proj/dir/keep/k.jpg"),
            copied("/src/dir/m.jpg", "/proj/dir/maybe/m.jpg"),
            trash("/src/dir/d.jpg"),
        ]
    );
}

#[test]
fn any_mode_but_move_copies() {
    let p = project("per-folder", vec![folder("f1", "/src/dir")]);
    let plan = plan_triage(
        &p,
        "/proj",
        "f1",
        "MOVE",
        &strings(&["/src/dir/k.jpg"]),
        &strings(&[]),
        &strings(&[]),
        &strings(&[]),
        &strings(&[]),
    )
    .unwrap();
    assert_eq!(ops(&plan)[2], copied("/src/dir/k.jpg", "/proj/dir/keep/k.jpg"));
}

#[test]
fn unknown_folder_is_refused() {
    let p = project("per-folder", vec![folder("f1", "/photos/vacation")]);
    let err = plan_triage(
        &p,
        "/proj",
        "nope",
        "move",
        &strings(&["/photos/vacation/a.jpg"]),
        &strings(&[]),
        &strings(&[]),
        &strings(&[]),
        &strings(&[]),
    )
    .unwrap_err();
    assert_eq!(err, TriageError::FolderNotFound("nope".to_string()));
    assert_eq!(err.message(), "Folder nope not found in project");
    assert_eq!(
        triage_directories(&p, "/proj", "nope"),
        Err(TriageError::FolderNotFound("nope".to_string()))
    );
}

#[test]
fn paths_without_a_name_are_passed_over() {
    let p = project("unified", vec![folder("f1", "/photos/vacation")]);
    let plan = plan_triage(
        &p,
        "/proj",
        "f1",
        "move",
        &strings(&["/", "/photos/.."]),
        &strings(&[]),
        &strings(&[]),
        &strings(&[]),
        &strings(&[]),
    )
    .unwrap();
    assert_eq!(ops(&plan), vec![dir("/proj/keep"), dir("/proj/maybe"), FileOp::LoadMetadata]);
    assert!(plan.origins.is_empty());
}

#[test]
fn record_is_stored_only_when_something_was_transferred() {
    let p = project("unified", vec![folder("f1", "/photos/vacation")]);
    let plan = plan_triage(
        &p,
        "/proj",
        "f1",
        "move",
        &strings(&[]),
        &strings(&[]),
        &strings(&["/photos/vacation/d.jpg"]),
        &strings(&[]),
        &strings(&[]),
    )
    .unwrap();
    assert_eq!(
        ops(&plan),
        vec![
            dir("/proj/keep"),
            dir("/proj/maybe"),
            FileOp::LoadMetadata,
            trash("/photos/vacation/d.jpg"),
        ]
    );
}

#[test]
fn duplicate_folder_ids_use_the_first() {
    let p = project("per-folder", vec![folder("f1", "/a/first"), folder("f1", "/b/second")]);
    let dirs = triage_directories(&p, "/proj", "f1").unwrap();
    assert_eq!(dirs, ("/proj/first/keep".to_string(), "/proj/first/maybe".to_string()));
}

#[test]
fn triage_directories_follow_the_layout() {
    let folders = vec![folder("f1", "/photos/vacation")];
    assert_eq!(
        triage_directories(&project("unified", folders.clone()), "/proj", "f1").unwrap(),
        ("/proj/keep".to_string(), "/proj/maybe".to_string())
    );
    assert_eq!(
        triage_directories(&project("per-folder", folders.clone()), "/proj", "f1").unwrap(),
        ("/proj/vacation/keep".to_string(), "/proj/vacation/maybe".to_string())
    );
    assert_eq!(
        triage_directories(&project("anything", folders), "/proj", "f1").unwrap(),
        ("/proj/vacation/keep".to_string(), "/proj/vacation/maybe".to_string())
    );
}

#[test]
fn output_directory_of_unnamed_source() {
    assert_eq!(output_directory("/proj", "/", false, "keep"), "/proj/unnamed/keep");
    assert_eq!(output_directory("/proj", "/", true, "keep"), "/proj/keep");
}

#[test]
fn place_file_resolves_only_in_unified_mode() {
    let taken = strings(&["a.jpg"]);
    assert_eq!(place_file(&taken, "a.jpg", true), "a_1.jpg");
    assert_eq!(place_file(&taken, "a.jpg", false), "a.jpg");
}

#[test]
fn failure_messages_name_the_operation_and_the_file() {
    let p = project("unified", vec![folder("f1", "/src/dir")]);
    let moving = plan_triage(
        &p,
        "/proj",
        "f1",
        "move",
        &strings(&["/src/dir/k.jpg"]),
        &strings(&[]),
        &strings(&["/src/dir/d.jpg"]),
        &strings(&[]),
        &strings(&[]),
    )
    .unwrap();
    let steps: &Vec<Step> = &moving.steps;
    assert_eq!(failure_message(&steps[0], "denied"), "Failed to create keep folder: denied");
    assert_eq!(failure_message(&steps[1], "denied"), "Failed to create maybe folder: denied");
    assert_eq!(failure_message(&steps[2], "bad json"), "bad json");
    assert_eq!(failure_message(&steps[3], "gone"), "Failed to move /src/dir/k.jpg: gone");
    assert_eq!(failure_message(&steps[4], "disk full"), "disk full");
    assert_eq!(failure_message(&steps[5], "gone"), "Failed to trash /src/dir/d.jpg: gone");
    let copying = plan_triage(
        &p,
        "/proj",
        "f1",
        "copy",
        &strings(&["/src/dir/k.jpg"]),
        &strings(&[]),
        &strings(&[]),
        &strings(&[]),
        &strings(&[]),
    )
    .unwrap();
    assert_eq!(failure_message(&copying.steps[3], "gone"), "Failed to copy /src/dir/k.jpg: gone");
}
