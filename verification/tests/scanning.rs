use wallpaper_picker::scanner::{
    keeps_file, read_files_with_extension, read_subdirectories, Child, ChildKind, Scan, ScanError,
};

fn child(name: &str, kind: ChildKind) -> Child {
    Child { name: name.to_string(), kind }
}

fn names(items: &[&str]) -> Vec<String> {
    items.iter().map(|s| s.to_string()).collect()
}

fn mixed() -> Scan {
    Scan::Children(vec![
        child("notes.txt", ChildKind::File),
        child("Nature", ChildKind::Directory),
        child("bg.jpg", ChildKind::File),
        child("socket", ChildKind::Other),
        child("Abstract", ChildKind::Directory),
        child("", ChildKind::Unreadable),
        child("PIC.JPG", ChildKind::File),
        child("shots.jpg", ChildKind::Directory),
        child("draft.Jpg", ChildKind::File),
        child(".jpg", ChildKind::File),
        child("jpg", ChildKind::File),
        child("archive.jpg.bak", ChildKind::File),
        child("locked.jpg", ChildKind::Unreadable),
        child("link.jpg", ChildKind::Other),
    ])
}

#[test]
fn subdirectories_are_the_directories_in_their_order() {
    assert_eq!(
        read_subdirectories("/pictures", &mixed()),
        Ok(names(&["Nature", "Abstract", "shots.jpg"]))
    );
}

#[test]
fn subdirectories_of_an_empty_directory_are_none() {
    assert_eq!(read_subdirectories("/pictures", &Scan::Children(vec![])), Ok(vec![]));
}

#[test]
fn subdirectories_of_a_missing_directory_are_not_found() {
    assert_eq!(
        read_subdirectories("/gone", &Scan::Missing),
        Err(ScanError::NotFound("/gone".to_string()))
    );
}

#[test]
fn subdirectories_of_an_unreadable_directory_fail_with_the_reason() {
    assert_eq!(
        read_subdirectories("/secret", &Scan::Failed("Permission denied".to_string())),
        Err(ScanError::Failed("Permission denied".to_string()))
    );
}

#[test]
fn files_are_matched_by_extension_whatever_the_case() {
    assert_eq!(
        read_files_with_extension("/pictures", &mixed(), "jpg"),
        Ok(names(&["bg.jpg", "PIC.JPG", "draft.Jpg"]))
    );
}

#[test]
fn the_wanted_extension_may_be_in_upper_case() {
    assert_eq!(
        read_files_with_extension("/pictures", &mixed(), "JPG"),
        Ok(names(&["bg.jpg", "PIC.JPG", "draft.Jpg"]))
    );
}

#[test]
fn files_of_another_extension_are_found_too() {
    assert_eq!(
        read_files_with_extension("/pictures", &mixed(), "txt"),
        Ok(names(&["notes.txt"]))
    );
    assert_eq!(
        read_files_with_extension("/pictures", &mixed(), "bak"),
        Ok(names(&["archive.jpg.bak"]))
    );
    assert_eq!(read_files_with_extension("/pictures", &mixed(), "png"), Ok(vec![]));
}

#[test]
fn files_of_a_missing_directory_are_not_found() {
    assert_eq!(
        read_files_with_extension("/gone", &Scan::Missing, "jpg"),
        Err(ScanError::NotFound("/gone".to_string()))
    );
}

#[test]
fn files_of_an_unreadable_directory_fail_with_the_reason() {
    assert_eq!(
        read_files_with_extension("/secret", &Scan::Failed("Permission denied".to_string()), "jpg"),
        Err(ScanError::Failed("Permission denied".to_string()))
    );
}

#[test]
fn a_file_is_kept_only_with_the_wanted_extension() {
    let wanted = "jpg".to_string();
    assert!(keeps_file(ChildKind::File, &Some("jpg".to_string()), &wanted));
    assert!(!keeps_file(ChildKind::File, &Some("JPG".to_string()), &wanted));
    assert!(!keeps_file(ChildKind::File, &Some("png".to_string()), &wanted));
    assert!(!keeps_file(ChildKind::File, &None, &wanted));
    assert!(!keeps_file(ChildKind::Directory, &Some("jpg".to_string()), &wanted));
    assert!(!keeps_file(ChildKind::Other, &Some("jpg".to_string()), &wanted));
    assert!(!keeps_file(ChildKind::Unreadable, &Some("jpg".to_string()), &wanted));
}

#[test]
fn a_missing_directory_is_described_with_its_path() {
    assert_eq!(
        ScanError::NotFound("/gone".to_string()).message(),
        "Directory does not exist: /gone"
    );
}

#[test]
fn a_failed_scan_is_described_by_its_reason() {
    assert_eq!(ScanError::Failed("Permission denied".to_string()).message(), "Permission denied");
}

#[test]
fn a_scan_error_is_logged_with_the_head_in_front() {
    assert_eq!(
        ScanError::NotFound("/gone".to_string()).diagnostic(),
        "Error reading subdirectories: Directory does not exist: /gone"
    );
    assert_eq!(
        ScanError::Failed("Permission denied".to_string()).diagnostic(),
        "Error reading subdirectories: Permission denied"
    );
}
