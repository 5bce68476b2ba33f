use pezmax::contribute::{add_picked_file, can_submit, contains_path, remove_picked_file, submit_label, ContributeFile};

fn picked(path: &str, size: u64) -> ContributeFile {
    ContributeFile { path: path.to_string(), name: path.rsplit('/').next().unwrap().to_string(), format: "pdf".to_string(), size }
}

#[test]
fn picking_skips_paths_already_there() {
    let mut files = Vec::new();
    assert!(add_picked_file(&mut files, picked("/a/x.pdf", 10)));
    assert!(add_picked_file(&mut files, picked("/a/y.pdf", 20)));
    assert!(!add_picked_file(&mut files, picked("/a/x.pdf", 99)));
    assert_eq!(files.len(), 2);
    assert_eq!(files[0].size, 10);
    assert_eq!(files[1].path, "/a/y.pdf");
    assert!(contains_path(&files, "/a/y.pdf"));
    assert!(!contains_path(&files, "/a/z.pdf"));
}

#[test]
fn submit_needs_file_subject_year_and_no_upload() {
    assert!(can_submit(1, "数学", "2024", false));
    assert!(!can_submit(0, "数学", "2024", false));
    assert!(!can_submit(2, "", "2024", false));
    assert!(!can_submit(2, "数学", "", false));
    assert!(!can_submit(2, "数学", "2024", true));
    assert_eq!(submit_label(true, 3), "  上传中…  ");
    assert_eq!(submit_label(false, 3), "  批量提交上传  ");
    assert_eq!(submit_label(false, 1), "  提交上传  ");
    assert_eq!(submit_label(false, 0), "  提交上传  ");
}

#[test]
fn removing_is_blocked_during_upload() {
    let mut files = vec![picked("/a/x.pdf", 1), picked("/a/y.pdf", 2)];
    assert!(!remove_picked_file(&mut files, 0, true));
    assert_eq!(files.len(), 2);
    assert!(!remove_picked_file(&mut files, 5, false));
    assert!(remove_picked_file(&mut files, 0, false));
    assert_eq!(files.len(), 1);
    assert_eq!(files[0].path, "/a/y.pdf");
}
