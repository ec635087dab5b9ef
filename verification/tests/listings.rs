use toss::listing::{
    class_directories, find_images, list_images, list_output_images, scan_directory_for_images,
    sort_images, ScannedFile,
};
use toss::metadata::{Origin, OutputMetadata};
use toss::model::{DirEntry, Folder, FolderOutput, ImageInfo, Project};
use toss::order::{bytes_le, sorted_order};
use toss::project::ProjectError;
use toss::stats::{count_images_in_dir, folder_stats, project_stats};
use toss::thumbnail::hash_path;

fn folder(id: &str, source: &str) -> Folder {
    Folder {
        id: id.to_string(),
        source_path: source.to_string(),
        output_mode: "move".to_string(),
        added_at: "2024-01-01T00:00:00+00:00".to_string(),
    }
}

fn project(mode: &str, folders: Vec<Folder>) -> Project {
    Project {
        id: "trip-2024".to_string(),
        name: "Trip".to_string(),
        created_at: "2024-01-01T00:00:00+00:00".to_string(),
        output_directory_mode: mode.to_string(),
        folders,
    }
}

fn scanned(dir: &str, name: &str, size: u64) -> ScannedFile {
    ScannedFile {
        name: name.to_string(),
        path: format!("{}/{}", dir, name),
        is_file: true,
        size,
        width: Some(4),
        height: Some(3),
    }
}

fn entry(dir: &str, name: &str, is_file: bool) -> DirEntry {
    DirEntry { name: name.to_string(), path: format!("{}/{}", dir, name), is_file }
}

fn entries(dir: &str, names: &[&str]) -> Vec<DirEntry> {
    names.iter().map(|n| entry(dir, n, true)).collect()
}

fn names(images: &[ImageInfo]) -> Vec<String> {
    images.iter().map(|i| i.name.clone()).collect()
}

#[test]
fn scan_lists_pictures_in_name_order_without_regard_to_case() {
    let files = vec![
        scanned("/d", "b.jpg", 1),
        scanned("/d", "notes.txt", 2),
        scanned("/d", "C.png", 3),
        scanned("/d", "a.gif", 4),
    ];
    let images = scan_directory_for_images(&files);
    assert_eq!(names(&images), vec!["a.gif", "b.jpg", "C.png"]);
    assert_eq!(images[0].id, hash_path("/d/a.gif"));
    assert_eq!(images[0].path, "/d/a.gif");
    assert_eq!(images[0].size, 4);
    assert_eq!(images[0].width, Some(4));
    assert_eq!(images[0].height, Some(3));
}

#[test]
fn scan_keeps_equal_names_in_the_order_of_the_scan() {
    let files = vec![
        scanned("/d", "IMG.jpg", 1),
        scanned("/d", "img.JPG", 2),
        scanned("/d", "Img.jpg", 3),
        scanned("/d", "a.jpg", 4),
    ];
    let images = scan_directory_for_images(&files);
    assert_eq!(names(&images), vec!["a.jpg", "IMG.jpg", "img.JPG", "Img.jpg"]);
}

#[test]
fn scan_passes_over_directories_and_other_files() {
    let mut dir = scanned("/d", "folder.jpg", 0);
    dir.is_file = false;
    let files = vec![dir, scanned("/d", "doc.pdf", 1)];
    assert!(scan_directory_for_images(&files).is_empty());
    assert!(scan_directory_for_images(&vec![]).is_empty());
    assert!(find_images(&files).is_empty());
}

#[test]
fn list_images_of_missing_folder_is_an_error() {
    assert_eq!(list_images(None), Err(ProjectError::MissingDirectory));
    let files = vec![scanned("/d", "b.jpg", 1), scanned("/d", "a.jpg", 1)];
    let listed = list_images(Some(&files)).unwrap();
    assert_eq!(names(&listed), vec!["a.jpg", "b.jpg"]);
}

#[test]
fn sort_images_orders_by_lower_case_bytes() {
    let found = find_images(&vec![
        scanned("/d", "z.png", 1),
        scanned("/d", "ä.png", 1),
        scanned("/d", "B.png", 1),
        scanned("/d", "a10.png", 1),
        scanned("/d", "a2.png", 1),
    ]);
    assert_eq!(names(&sort_images(&found)), vec!["a10.png", "a2.png", "B.png", "z.png", "ä.png"]);
}

#[test]
fn sorted_order_is_stable() {
    let keys: Vec<String> = ["b", "a", "b", "a", "c"].iter().map(|s| s.to_string()).collect();
    assert_eq!(sorted_order(&keys), vec![1, 3, 0, 2, 4]);
    assert_eq!(sorted_order(&vec![]), Vec::<usize>::new());
}

#[test]
fn bytes_le_is_the_order_of_strings() {
    for (a, b) in [("", ""), ("", "a"), ("a", ""), ("a", "b"), ("b", "a"), ("ab", "a"), ("a", "ab"), ("é", "z")] {
        assert_eq!(bytes_le(a, b), a <= b);
    }
}

#[test]
fn unified_output_list_takes_folders_from_the_record() {
    let p = project("unified", vec![folder("f1", "/src/one")]);
    let record = OutputMetadata::new().with_origins(&vec![Origin {
        name: "a.jpg".to_string(),
        folder_id: "f1".to_string(),
    }]);
    let unified = vec![scanned("/proj/keep", "b.jpg", 1), scanned("/proj/keep", "a.jpg", 2)];
    let listed = list_output_images(&p, &record, &unified, &vec![]);
    assert_eq!(listed.len(), 2);
    assert_eq!(listed[0].name, "a.jpg");
    assert_eq!(listed[0].source_folder_id, "f1");
    assert_eq!(listed[0].id, hash_path("/proj/keep/a.jpg"));
    assert_eq!(listed[1].name, "b.jpg");
    assert_eq!(listed[1].source_folder_id, "");
}

#[test]
fn per_folder_output_list_merges_the_folders_by_name() {
    let p = project("per-folder", vec![folder("f1", "/src/one"), folder("f2", "/src/two")]);
    let scans = vec![
        vec![scanned("/proj/one/keep", "c.jpg", 1), scanned("/proj/one/keep", "a.jpg", 1)],
        vec![scanned("/proj/two/keep", "b.jpg", 1), scanned("/proj/two/keep", "A.jpg", 1)],
    ];
    let listed = list_output_images(&p, &OutputMetadata::new(), &vec![], &scans);
    let got: Vec<(String, String)> =
        listed.iter().map(|i| (i.name.clone(), i.source_folder_id.clone())).collect();
    assert_eq!(
        got,
        vec![
            ("a.jpg".to_string(), "f1".to_string()),
            ("A.jpg".to_string(), "f2".to_string()),
            ("b.jpg".to_string(), "f2".to_string()),
            ("c.jpg".to_string(), "f1".to_string()),
        ]
    );
}

#[test]
fn class_directories_follow_the_layout() {
    let folders = vec![folder("f1", "/src/one"), folder("f2", "/src/two")];
    assert_eq!(
        class_directories(&project("unified", folders.clone()), "/proj", "maybe"),
        vec!["/proj/maybe".to_string()]
    );
    assert_eq!(
        class_directories(&project("per-folder", folders), "/proj", "keep"),
        vec!["/proj/one/keep".to_string(), "/proj/two/keep".to_string()]
    );
}

#[test]
fn count_counts_regular_picture_files() {
    let listing = vec![
        entry("/d", "a.jpg", true),
        entry("/d", "b.PNG", true),
        entry("/d", "c.txt", true),
        entry("/d", "d.jpg", false),
    ];
    assert_eq!(count_images_in_dir(&listing), 2);
    assert_eq!(count_images_in_dir(&vec![]), 0);
}

#[test]
fn folder_stats_count_source_keep_and_maybe() {
    let p = project("per-folder", vec![folder("f1", "/src/one")]);
    let stats = folder_stats(
        &p,
        "f1".to_string(),
        &entries("/src/one", &["a.jpg", "b.jpg", "c.jpg"]),
        &entries("/proj/one/keep", &["a.jpg"]),
        &entries("/proj/one/maybe", &["b.jpg", "x.txt"]),
    )
    .unwrap();
    assert_eq!(stats.folder_id, "f1");
    assert_eq!(stats.folder_name, "one");
    assert_eq!((stats.source_count, stats.keep_count, stats.maybe_count), (3, 1, 1));
    assert_eq!(
        folder_stats(&p, "zz".to_string(), &vec![], &vec![], &vec![]),
        Err(ProjectError::FolderNotFound)
    );
}

#[test]
fn per_folder_project_stats_add_the_folders_up() {
    let p = project("per-folder", vec![folder("f1", "/src/one"), folder("f2", "/src/two")]);
    let sources = vec![entries("/src/one", &["a.jpg", "b.jpg"]), entries("/src/two", &["c.jpg"])];
    let outputs = vec![
        FolderOutput {
            keep: entries("/proj/one/keep", &["a.jpg"]),
            maybe: entries("/proj/one/maybe", &["b.jpg"]),
        },
        FolderOutput { keep: entries("/proj/two/keep", &["c.jpg", "d.jpg"]), maybe: vec![] },
    ];
    let stats = project_stats(&p, &sources, &outputs, &entries("/proj/keep", &["zz.jpg"]), &vec![]);
    assert_eq!((stats.total_keep, stats.total_maybe), (3, 1));
    assert_eq!(stats.folder_stats.len(), 2);
    assert_eq!(stats.folder_stats[0].folder_name, "one");
    assert_eq!(stats.folder_stats[0].source_count, 2);
    assert_eq!(stats.folder_stats[0].keep_count, 1);
    assert_eq!(stats.folder_stats[0].maybe_count, 1);
    assert_eq!(stats.folder_stats[1].folder_id, "f2");
    assert_eq!(stats.folder_stats[1].keep_count, 2);
    assert_eq!(stats.folder_stats[1].maybe_count, 0);
}

#[test]
fn unified_project_stats_count_the_unified_directories() {
    let p = project("unified", vec![folder("f1", "/src/one"), folder("f2", "/src/two")]);
    let sources = vec![entries("/src/one", &["a.jpg", "b.jpg"])];
    let outputs = vec![FolderOutput { keep: entries("/proj/one/keep", &["a.jpg"]), maybe: vec![] }];
    let stats = project_stats(
        &p,
        &sources,
        &outputs,
        &entries("/proj/keep", &["x.jpg", "y.jpg"]),
        &entries("/proj/maybe", &["z.jpg"]),
    );
    assert_eq!((stats.total_keep, stats.total_maybe), (2, 1));
    assert_eq!(stats.folder_stats.len(), 2);
    assert_eq!(stats.folder_stats[0].source_count, 2);
    assert_eq!(stats.folder_stats[0].keep_count, 0);
    assert_eq!(stats.folder_stats[0].maybe_count, 0);
    assert_eq!(stats.folder_stats[1].source_count, 0);
}
