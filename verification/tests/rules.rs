use zipoxide::create_zip_from_files;
use zipoxide::create_zip_from_folder;
use zipoxide::error::error_for_fault;
use zipoxide::paths::base_name;
use zipoxide::paths::join_path;
use zipoxide::paths::path_has_parent;
use zipoxide::ArchiveError;
use zipoxide::BuildAction;
use zipoxide::CodecFault;
use zipoxide::EntryTable;
use zipoxide::Found;

#[test]
fn join_path_puts_one_separator_between() {
    assert_eq!(join_path("out", "a.txt"), "out/a.txt");
    assert_eq!(join_path("out/", "a.txt"), "out/a.txt");
    assert_eq!(join_path("", "a.txt"), "a.txt");
    assert_eq!(join_path("out", "dir/a.txt"), "out/dir/a.txt");
    assert_eq!(join_path("out", ""), "out/");
    assert_eq!(join_path("out", "/abs/a.txt"), "/abs/a.txt");
    assert_eq!(join_path("/", "a"), "/a");
    assert_eq!(join_path("d\u{e9}p", "\u{4e2d}"), "d\u{e9}p/\u{4e2d}");
}

#[test]
fn path_has_parent_wants_a_character_that_is_no_separator() {
    assert!(path_has_parent("a"));
    assert!(path_has_parent("/a"));
    assert!(path_has_parent("out/dir/"));
    assert!(!path_has_parent(""));
    assert!(!path_has_parent("/"));
    assert!(!path_has_parent("///"));
}

#[test]
fn base_name_is_the_last_component() {
    assert_eq!(base_name("/tmp/x/file.txt"), Some("file.txt".to_string()));
    assert_eq!(base_name("file.txt"), Some("file.txt".to_string()));
    assert_eq!(base_name("/tmp/dir/"), Some("dir".to_string()));
    assert_eq!(base_name("/tmp/dir///"), Some("dir".to_string()));
    assert_eq!(base_name("a/.hidden"), Some(".hidden".to_string()));
    assert_eq!(base_name("a/..."), Some("...".to_string()));
    assert_eq!(base_name(""), None);
    assert_eq!(base_name("/"), None);
    assert_eq!(base_name("a/.."), None);
    assert_eq!(base_name(".."), None);
    assert_eq!(base_name("a/."), None);
}

#[test]
fn existing_output_stops_a_build_before_it_begins() {
    assert!(matches!(
        create_zip_from_folder(true, "folder".to_string()),
        Err(ArchiveError::OutputAlreadyExists)
    ));
    assert!(matches!(
        create_zip_from_files(true, vec!["..".to_string()]),
        Err(ArchiveError::OutputAlreadyExists)
    ));
    assert!(matches!(create_zip_from_files(true, vec![]), Err(ArchiveError::OutputAlreadyExists)));
}

#[test]
fn listed_path_without_base_name_is_refused() {
    assert!(matches!(
        create_zip_from_files(false, vec!["ok.txt".to_string(), "dir/..".to_string()]),
        Err(ArchiveError::InvalidEntryPath)
    ));
    assert!(matches!(
        create_zip_from_files(false, vec!["/".to_string()]),
        Err(ArchiveError::InvalidEntryPath)
    ));
}

#[test]
fn listed_paths_are_visited_last_first_under_their_base_names() {
    let mut plan =
        create_zip_from_files(false, vec!["/d/one.txt".to_string(), "/d/two".to_string()]).unwrap();
    let next = plan.next_path().unwrap();
    assert_eq!(next.source, "/d/two");
    assert_eq!(next.relative, "two");
    let step = plan.advance(Found::Directory(vec!["x".to_string(), "y".to_string()])).unwrap();
    assert!(matches!(step, BuildAction::Nothing));
    let next = plan.next_path().unwrap();
    assert_eq!(next.source, "/d/two/y");
    assert_eq!(next.relative, "two/y");
    match plan.advance(Found::File).unwrap() {
        BuildAction::Store(path) => {
            assert_eq!(path.source, "/d/two/y");
            assert_eq!(path.relative, "two/y");
        }
        _ => panic!("a regular file is stored"),
    }
    assert_eq!(plan.next_path().unwrap().relative, "two/x");
    assert!(matches!(plan.advance(Found::Other).unwrap(), BuildAction::Nothing));
    assert_eq!(plan.next_path().unwrap().relative, "one.txt");
    assert!(matches!(plan.advance(Found::File).unwrap(), BuildAction::Store(_)));
    assert!(plan.next_path().is_none());
    assert!(matches!(plan.advance(Found::File).unwrap(), BuildAction::Finished));
    assert!(matches!(plan.advance(Found::Other).unwrap(), BuildAction::Finished));
}

#[test]
fn folder_build_names_files_relative_to_the_folder() {
    let mut plan = create_zip_from_folder(false, "/root/f".to_string()).unwrap();
    let next = plan.next_path().unwrap();
    assert_eq!(next.source, "/root/f");
    assert_eq!(next.relative, "");
    assert!(matches!(
        plan.advance(Found::Directory(vec!["a.txt".to_string()])).unwrap(),
        BuildAction::Nothing
    ));
    match plan.advance(Found::File).unwrap() {
        BuildAction::Store(path) => {
            assert_eq!(path.source, "/root/f/a.txt");
            assert_eq!(path.relative, "a.txt");
        }
        _ => panic!("a regular file is stored"),
    }
    assert!(plan.next_path().is_none());
}

#[test]
fn folder_build_wants_a_directory_at_its_root() {
    let mut plan = create_zip_from_folder(false, "/root/file".to_string()).unwrap();
    assert!(matches!(plan.advance(Found::File), Err(ArchiveError::Io)));
    let mut plan = create_zip_from_folder(false, "/root/missing".to_string()).unwrap();
    assert!(matches!(plan.advance(Found::Other), Err(ArchiveError::Io)));
}

#[test]
fn entry_table_keeps_the_later_of_two_payloads() {
    let mut table = EntryTable::new();
    assert_eq!(table.len(), 0);
    table.insert("a".to_string(), vec![1]);
    table.insert("b".to_string(), vec![2]);
    table.insert("a".to_string(), vec![3, 4]);
    assert_eq!(table.len(), 2);
    assert_eq!(table.get(&"a".to_string()), Some(&vec![3u8, 4]));
    assert_eq!(table.get(&"b".to_string()), Some(&vec![2u8]));
    assert_eq!(table.get(&"c".to_string()), None);
    assert!(table.contains_key(&"b".to_string()));
    assert!(!table.contains_key(&"".to_string()));
    let entries = table.into_entries();
    assert_eq!(entries.len(), 2);
}

#[test]
fn each_codec_fault_has_its_error() {
    assert_eq!(error_for_fault(CodecFault::Io), ArchiveError::CorruptArchive);
    assert_eq!(error_for_fault(CodecFault::InvalidArchive), ArchiveError::CorruptArchive);
    assert_eq!(error_for_fault(CodecFault::UnsupportedArchive), ArchiveError::UnsupportedArchive);
    assert_eq!(error_for_fault(CodecFault::FileNotFound), ArchiveError::InvalidEntryIndex);
    assert_eq!(error_for_fault(CodecFault::InvalidPassword), ArchiveError::Decryption);
    assert_eq!(error_for_fault(CodecFault::UnsupportedMethod), ArchiveError::UnsupportedArchive);
    assert_eq!(error_for_fault(CodecFault::Other), ArchiveError::CorruptArchive);
}

#[test]
fn name_that_is_no_text_ends_the_build() {
    let mut plan = create_zip_from_files(false, vec!["/d/a".to_string(), "/d/b".to_string()]).unwrap();
    assert!(matches!(plan.advance(Found::Unnameable), Err(ArchiveError::NonUtf8Path)));
    assert_eq!(plan.next_path().unwrap().source, "/d/a");
}
