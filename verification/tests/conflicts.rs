use toss::conflict::{
    candidate, conflict_parts, contains_text, contains_text_before, resolve_filename_conflict,
    resolve_with_parts, PROBE_CEILING,
};

fn names(list: &[&str]) -> Vec<String> {
    list.iter().map(|s| s.to_string()).collect()
}

#[test]
fn free_name_is_kept() {
    assert_eq!(resolve_filename_conflict(&names(&[]), "img.jpg"), "img.jpg");
    assert_eq!(resolve_filename_conflict(&names(&["other.jpg"]), "img.jpg"), "img.jpg");
}

#[test]
fn taken_name_gets_first_counter() {
    assert_eq!(resolve_filename_conflict(&names(&["img.jpg"]), "img.jpg"), "img_1.jpg");
}

#[test]
fn counters_count_up_past_taken_ones() {
    let taken = names(&["img.jpg", "img_1.jpg", "img_2.jpg"]);
    assert_eq!(resolve_filename_conflict(&taken, "img.jpg"), "img_3.jpg");
}

#[test]
fn first_free_counter_wins_even_with_gaps() {
    let taken = names(&["img.jpg", "img_2.jpg"]);
    assert_eq!(resolve_filename_conflict(&taken, "img.jpg"), "img_1.jpg");
}

#[test]
fn name_without_extension_gets_bare_counter() {
    assert_eq!(resolve_filename_conflict(&names(&["README"]), "README"), "README_1");
}

#[test]
fn counter_goes_before_the_last_extension() {
    assert_eq!(resolve_filename_conflict(&names(&["a.tar.gz"]), "a.tar.gz"), "a.tar_1.gz");
}

#[test]
fn hidden_file_counts_as_stem() {
    assert_eq!(resolve_filename_conflict(&names(&[".profile"]), ".profile"), ".profile_1");
}

#[test]
fn repeated_resolution_yields_distinct_names() {
    let mut taken: Vec<String> = Vec::new();
    let mut seen: Vec<String> = Vec::new();
    for k in 0..50 {
        let name = resolve_filename_conflict(&taken, "photo.png");
        let expected = if k == 0 { "photo.png".to_string() } else { format!("photo_{}.png", k) };
        assert_eq!(name, expected);
        assert!(!seen.contains(&name));
        seen.push(name.clone());
        taken.push(name);
    }
}

#[test]
fn resolution_does_not_depend_on_listing_order() {
    let a = names(&["img.jpg", "img_1.jpg", "x.png"]);
    let b = names(&["x.png", "img_1.jpg", "img.jpg"]);
    assert_eq!(resolve_filename_conflict(&a, "img.jpg"), resolve_filename_conflict(&b, "img.jpg"));
}

#[test]
fn ceiling_hands_out_last_name_unseen() {
    let mut taken = vec!["img.jpg".to_string()];
    for k in 1..=1000 {
        taken.push(format!("img_{}.jpg", k));
    }
    assert_eq!(PROBE_CEILING, 1000);
    assert_eq!(resolve_filename_conflict(&taken, "img.jpg"), "img_1000.jpg");
}

#[test]
fn last_seen_counter_is_999() {
    let mut taken = vec!["img.jpg".to_string()];
    for k in 1..999 {
        taken.push(format!("img_{}.jpg", k));
    }
    assert_eq!(resolve_filename_conflict(&taken, "img.jpg"), "img_999.jpg");
}

#[test]
fn candidate_builds_counted_name() {
    assert_eq!(candidate("img", "jpg", 1), "img_1.jpg");
    assert_eq!(candidate("img", "", 12), "img_12");
}

#[test]
fn parts_come_from_the_final_component() {
    assert_eq!(
        conflict_parts("dir/img.jpg", Some("img.jpg".to_string())),
        ("img".to_string(), "jpg".to_string())
    );
    assert_eq!(conflict_parts("..", None), ("..".to_string(), "".to_string()));
    assert_eq!(conflict_parts("x", Some("x".to_string())), ("x".to_string(), "".to_string()));
}

#[test]
fn resolve_with_parts_uses_given_stem_and_extension() {
    let taken = names(&["a.jpg", "b_1.png"]);
    assert_eq!(resolve_with_parts(&taken, "a.jpg", "b", "png"), "b_2.png");
    assert_eq!(resolve_with_parts(&taken, "c.jpg", "b", "png"), "c.jpg");
}

#[test]
fn contains_text_finds_exact_names_only() {
    let taken = names(&["img.jpg"]);
    assert!(contains_text(&taken, "img.jpg"));
    assert!(!contains_text(&taken, "IMG.JPG"));
    assert!(!contains_text(&taken, "img"));
}

#[test]
fn contains_text_before_looks_at_earlier_names_only() {
    let list = names(&["a", "b", "a", "c"]);
    assert!(!contains_text_before(&list, 0));
    assert!(!contains_text_before(&list, 1));
    assert!(contains_text_before(&list, 2));
    assert!(!contains_text_before(&list, 3));
}
