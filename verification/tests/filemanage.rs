use mooncell::errors::TopError;
use mooncell::filemanage::{
    classify_kind, get_file_name_suffix, operation_report, str_eq, FileManage, FileOperation,
    FileType, FileUnit, RawEntry,
};

fn unit(name: &str, kind: FileType, path: &str) -> FileUnit {
    FileUnit {
        name: String::from(name),
        file_type: kind,
        occupy: 0,
        path: String::from(path),
    }
}

#[test]
fn suffix_extraction() {
    assert_eq!(get_file_name_suffix(&String::from("notes.txt")), Some(String::from("txt")));
    assert_eq!(get_file_name_suffix(&String::from("archive.tar.gz")), Some(String::from("gz")));
    assert_eq!(get_file_name_suffix(&String::from(".hidden")), None);
    assert_eq!(get_file_name_suffix(&String::from("plain")), None);
    assert_eq!(get_file_name_suffix(&String::from("trailing.")), None);
}

#[test]
fn kind_table() {
    assert_eq!(classify_kind(false, &String::from("a.txt")), FileType::Document);
    assert_eq!(classify_kind(false, &String::from("a.doc")), FileType::Document);
    assert_eq!(classify_kind(false, &String::from("a.docx")), FileType::Document);
    assert_eq!(classify_kind(false, &String::from("a.mp4")), FileType::Video);
    assert_eq!(classify_kind(false, &String::from("a.mp3")), FileType::Audio);
    assert_eq!(classify_kind(false, &String::from("a.wav")), FileType::Audio);
    assert_eq!(classify_kind(false, &String::from("a.zip")), FileType::Zip);
    assert_eq!(classify_kind(false, &String::from("a.7z")), FileType::Zip);
    assert_eq!(classify_kind(false, &String::from("a.rar")), FileType::Zip);
    assert_eq!(classify_kind(false, &String::from("a.md")), FileType::Markdown);
    assert_eq!(classify_kind(false, &String::from("a.png")), FileType::Image);
    assert_eq!(classify_kind(false, &String::from("a.jpg")), FileType::Image);
    assert_eq!(classify_kind(false, &String::from("a.jpeg")), FileType::Image);
    assert_eq!(classify_kind(false, &String::from("a.rs")), FileType::Code);
    assert_eq!(classify_kind(false, &String::from("a.c")), FileType::Code);
    assert_eq!(classify_kind(false, &String::from("a.py")), FileType::Code);
    assert_eq!(classify_kind(false, &String::from("a.cpp")), FileType::Code);
    assert_eq!(classify_kind(false, &String::from("a.h")), FileType::Code);
    // unknown suffixes and suffix-less names are plain files
    assert_eq!(classify_kind(false, &String::from("a.gz")), FileType::Normal);
    assert_eq!(classify_kind(false, &String::from("plain")), FileType::Normal);
    // case-sensitive: an upper-case suffix is not in the table
    assert_eq!(classify_kind(false, &String::from("a.TXT")), FileType::Normal);
    // the directory bit wins over any suffix
    assert_eq!(classify_kind(true, &String::from("a.txt")), FileType::Folder);
}

#[test]
fn string_equality_helper() {
    assert!(str_eq("abc", "abc"));
    assert!(!str_eq("abc", "abd"));
    assert!(!str_eq("abc", "ab"));
    assert!(str_eq("", ""));
}

#[test]
fn path_identity_not_name_identity() {
    let a = unit("x", FileType::Normal, "/home/a/x");
    let b = unit("x", FileType::Normal, "/home/b/x");
    assert!(!FileUnit::is_equal(&a, &b));
    assert!(FileUnit::is_equal(&a, &a));
}

#[test]
fn staging_same_path_twice_stays_single() {
    let mut fm = FileManage::new();
    fm.select_push(unit("x", FileType::Normal, "/home/x"));
    fm.select_push(unit("x", FileType::Normal, "/home/x"));
    assert_eq!(fm.get_select().len(), 1);
    // a different path is a second entry
    fm.select_push(unit("y", FileType::Normal, "/home/y"));
    assert_eq!(fm.get_select().len(), 2);
}

#[test]
fn entering_missing_folder_keeps_pointer() {
    let mut fm = FileManage::new();
    fm.set_location(vec![String::from("home")]);
    let before = fm.get_path_str();
    let folder = unit("gone", FileType::Folder, "/home/gone");
    let entered = fm.enter_new_folder(&folder, false);
    assert!(!entered);
    assert_eq!(fm.get_path_str(), before);
}

#[test]
fn entering_existing_folder_descends_and_clears_staging() {
    let mut fm = FileManage::new();
    fm.select_push(unit("x", FileType::Normal, "/x"));
    let folder = unit("home", FileType::Folder, "/home");
    assert!(fm.enter_new_folder(&folder, true));
    assert_eq!(fm.get_path_str(), "/home");
    assert_eq!(fm.get_select().len(), 0);
}

#[test]
fn only_folders_can_be_entered() {
    let mut fm = FileManage::new();
    let plain = unit("a.txt", FileType::Document, "/a.txt");
    assert!(!fm.enter_new_folder(&plain, true));
    assert_eq!(fm.get_path_str(), "/");
}

#[test]
fn leaving_at_root_is_idempotent() {
    let mut fm = FileManage::new();
    assert!(!fm.back_upper_layer());
    let once = fm.get_path_str();
    assert!(!fm.back_upper_layer());
    assert_eq!(fm.get_path_str(), once);
    assert_eq!(once, "/");
}

#[test]
fn leaving_steps_to_the_parent() {
    let mut fm = FileManage::new();
    fm.set_location(vec![String::from("home"), String::from("user")]);
    assert!(fm.back_upper_layer());
    assert_eq!(fm.get_path_str(), "/home");
    assert!(fm.back_upper_layer());
    assert_eq!(fm.get_path_str(), "/");
}

#[test]
fn empty_directory_is_success_with_zero_entries() {
    let mut fm = FileManage::new();
    let r = fm.refresh_file_list(Ok(Vec::new()));
    assert!(r.is_none());
    let listing = fm.get_file_list();
    assert!(listing.is_some());
    assert_eq!(listing.unwrap().len(), 0);
}

#[test]
fn missing_directory_is_a_typed_failure() {
    let mut fm = FileManage::new();
    let r = fm.refresh_file_list(Err(TopError::NotFindError));
    assert_eq!(r, Some(TopError::NotFindError));
    assert!(fm.get_file_list().is_none());
}

#[test]
fn refresh_names_classifies_and_paths_entries() {
    let mut fm = FileManage::new();
    fm.set_location(vec![String::from("home")]);
    let entries = vec![
        RawEntry { name: String::from("src"), is_dir: true, size: 0 },
        RawEntry { name: String::from("notes.md"), is_dir: false, size: 42 },
    ];
    assert!(fm.refresh_file_list(Ok(entries)).is_none());
    let listing = fm.get_file_list().unwrap();
    assert_eq!(listing.len(), 2);
    assert_eq!(listing[0].name, "src");
    assert_eq!(listing[0].file_type, FileType::Folder);
    assert_eq!(listing[0].path, "/home/src");
    assert_eq!(listing[1].name, "notes.md");
    assert_eq!(listing[1].file_type, FileType::Markdown);
    assert_eq!(listing[1].occupy, 42);
    assert_eq!(listing[1].path, "/home/notes.md");
}

#[test]
fn commit_freezes_the_selection() {
    let mut fm = FileManage::new();
    fm.select_push(unit("a", FileType::Normal, "/a"));
    fm.select_ready_operation(FileOperation::Copy);
    // new staging after the commit does not alter the frozen set
    fm.select_push(unit("b", FileType::Normal, "/b"));
    let pending = fm.begin_operation().unwrap();
    assert!(matches!(pending.kind, FileOperation::Copy));
    assert_eq!(pending.entries.len(), 1);
    assert_eq!(pending.entries[0].name, "a");
    assert_eq!(pending.target, "/");
}

#[test]
fn begin_without_commit_is_empty_failure() {
    let mut fm = FileManage::new();
    assert_eq!(fm.begin_operation().err(), Some(TopError::EmptyError));
}

#[test]
fn pending_is_cleared_after_begin() {
    let mut fm = FileManage::new();
    fm.select_push(unit("a", FileType::Normal, "/a"));
    fm.select_ready_operation(FileOperation::Move);
    assert!(fm.begin_operation().is_ok());
    assert_eq!(fm.begin_operation().err(), Some(TopError::EmptyError));
}

#[test]
fn one_failure_does_not_hide_the_other_outcome() {
    let mut fm = FileManage::new();
    fm.select_push(unit("a", FileType::Normal, "/a"));
    fm.select_push(unit("b", FileType::Normal, "/b"));
    fm.select_ready_operation(FileOperation::Copy);
    let pending = fm.begin_operation().unwrap();
    assert_eq!(pending.entries.len(), 2);
    let results = vec![
        None,
        Some(TopError::ErrorInformation(String::from("permission denied"))),
    ];
    let report = operation_report(&pending, &results);
    assert_eq!(report.succeeded, vec![String::from("a")]);
    assert_eq!(report.failed.len(), 1);
    assert_eq!(report.failed[0].0, "b");
    assert_eq!(
        report.failed[0].1,
        TopError::ErrorInformation(String::from("permission denied"))
    );
}

#[test]
fn entry_path_at_root() {
    let fm = FileManage::new();
    assert_eq!(fm.entry_path_string(&String::from("file")), "/file");
}
