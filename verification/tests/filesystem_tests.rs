use webterm::filesystem::{Filesystem, FsEntry, FsEntryType, FsError, LsResultType};

#[test]
fn seed_tree_starts_at_home_user() {
    let fs = Filesystem::new();
    assert_eq!(fs.cwd(), "/home/user".to_string());
    assert_eq!(fs.next_node_id(), 4);
}

#[test]
fn cd_into_child_and_back_up() {
    let mut fs = Filesystem::new();
    assert!(fs.cd("projects".to_string()).is_ok());
    assert_eq!(fs.cwd(), "/home/user/projects".to_string());
    assert!(fs.cd("..".to_string()).is_ok());
    assert_eq!(fs.cwd(), "/home/user".to_string());
}

#[test]
fn repeated_dot_dot_reaches_root() {
    let mut fs = Filesystem::new();
    assert!(fs.cd("..".to_string()).is_ok());
    assert_eq!(fs.cwd(), "/home".to_string());
    assert!(fs.cd("..".to_string()).is_ok());
    assert_eq!(fs.cwd(), "/".to_string());
}

#[test]
fn dot_dot_at_root_is_no_such_directory() {
    let mut fs = Filesystem::new();
    assert!(fs.cd("../..".to_string()).is_ok());
    assert_eq!(fs.cwd(), "/".to_string());
    assert_eq!(fs.cd("..".to_string()), Err(FsError::NoSuchDirectory));
    assert_eq!(fs.cwd(), "/".to_string());
}

#[test]
fn dot_stays_put() {
    let mut fs = Filesystem::new();
    assert!(fs.cd(".".to_string()).is_ok());
    assert_eq!(fs.cwd(), "/home/user".to_string());
    assert!(fs.cd("./projects/.".to_string()).is_ok());
    assert_eq!(fs.cwd(), "/home/user/projects".to_string());
}

#[test]
fn cd_nonexistent_leaves_cwd_unchanged() {
    let mut fs = Filesystem::new();
    assert_eq!(fs.cd("nope".to_string()), Err(FsError::NoSuchDirectory));
    assert_eq!(fs.cwd(), "/home/user".to_string());
}

#[test]
fn cd_multi_segment_failure_commits_nothing() {
    let mut fs = Filesystem::new();
    // "projects" alone would resolve, but the failing second segment
    // must leave the working directory exactly where it was
    assert_eq!(
        fs.cd("projects/missing".to_string()),
        Err(FsError::NoSuchDirectory)
    );
    assert_eq!(fs.cwd(), "/home/user".to_string());
}

#[test]
fn cd_into_file_is_not_a_directory() {
    let mut fs = Filesystem::new();
    fs.add_file(2, "notes.txt".to_string(), b"hello".to_vec(), true);
    assert_eq!(fs.cd("notes.txt".to_string()), Err(FsError::NotADirectory));
    assert_eq!(fs.cwd(), "/home/user".to_string());
}

#[test]
fn cd_through_inaccessible_directory_is_forbidden() {
    let mut fs = Filesystem::new();
    fs.add_dir(2, "secret".to_string(), false);
    assert_eq!(fs.cd("secret".to_string()), Err(FsError::ForbiddenAccess));
    assert_eq!(fs.cwd(), "/home/user".to_string());
}

#[test]
fn cd_through_inaccessible_link_is_forbidden() {
    let mut fs = Filesystem::new();
    let target = fs.add_dir(2, "target".to_string(), true);
    fs.add_link(2, "badlink".to_string(), target, false);
    assert_eq!(fs.cd("badlink".to_string()), Err(FsError::ForbiddenAccess));
    assert_eq!(fs.cwd(), "/home/user".to_string());
}

#[test]
fn link_to_inaccessible_directory_is_forbidden() {
    let mut fs = Filesystem::new();
    let secret = fs.add_dir(2, "secret".to_string(), false);
    fs.add_link(2, "peek".to_string(), secret, true);
    assert_eq!(fs.cd("peek".to_string()), Err(FsError::ForbiddenAccess));
    assert_eq!(fs.cwd(), "/home/user".to_string());
}

#[test]
fn dangling_link_is_broken() {
    let mut fs = Filesystem::new();
    fs.add_link(2, "dangle".to_string(), 999, true);
    assert_eq!(fs.cd("dangle".to_string()), Err(FsError::BrokenLink));
    assert_eq!(fs.cwd(), "/home/user".to_string());
}

#[test]
fn link_chain_resolves_to_final_directory() {
    let mut fs = Filesystem::new();
    let target = fs.add_dir(2, "target".to_string(), true);
    let mid = fs.add_link(2, "mid".to_string(), target, true);
    fs.add_link(2, "head".to_string(), mid, true);
    assert!(fs.cd("head".to_string()).is_ok());
    assert_eq!(fs.cwd(), "/home/user/target".to_string());
}

#[test]
fn link_cycle_is_broken() {
    let mut fs = Filesystem::new();
    // the two links point at each other: ids are assigned in order
    let first = fs.next_node_id();
    fs.add_link(2, "cyc1".to_string(), first + 1, true);
    fs.add_link(2, "cyc2".to_string(), first, true);
    assert_eq!(fs.cd("cyc1".to_string()), Err(FsError::BrokenLink));
    assert_eq!(fs.cwd(), "/home/user".to_string());
}

#[test]
fn link_to_file_is_not_a_directory() {
    let mut fs = Filesystem::new();
    let file = fs.add_file(2, "notes.txt".to_string(), b"hi".to_vec(), true);
    fs.add_link(2, "shortcut".to_string(), file, true);
    assert_eq!(fs.cd("shortcut".to_string()), Err(FsError::NotADirectory));
}

#[test]
fn empty_segments_are_skipped() {
    let mut fs = Filesystem::new();
    assert!(fs.cd("projects//".to_string()).is_ok());
    assert_eq!(fs.cwd(), "/home/user/projects".to_string());
    let mut fs2 = Filesystem::new();
    assert!(fs2.cd("".to_string()).is_ok());
    assert_eq!(fs2.cwd(), "/home/user".to_string());
}

#[test]
fn ls_lists_immediate_children_in_declaration_order() {
    let mut fs = Filesystem::new();
    fs.add_file(2, "notes.txt".to_string(), b"hello".to_vec(), true);
    fs.add_link(2, "dangle".to_string(), 999, true);
    let rows = fs.ls().unwrap();
    assert_eq!(rows.len(), 3);
    assert_eq!(rows[0].name(), &"projects".to_string());
    assert_eq!(rows[1].name(), &"notes.txt".to_string());
    assert_eq!(rows[2].name(), &"dangle".to_string());
}

#[test]
fn ls_reports_sizes_for_files_only() {
    let mut fs = Filesystem::new();
    fs.add_file(2, "notes.txt".to_string(), b"hello".to_vec(), true);
    let rows = fs.ls().unwrap();
    assert_eq!(rows[0].size(), None);
    assert_eq!(rows[1].size(), Some(5));
    assert!(matches!(rows[0].ty(), LsResultType::Directory));
    assert!(matches!(rows[1].ty(), LsResultType::File));
}

#[test]
fn ls_permission_strings_encode_type_and_access() {
    let mut fs = Filesystem::new();
    fs.add_file(2, "notes.txt".to_string(), b"x".to_vec(), true);
    fs.add_dir(2, "secret".to_string(), false);
    let rows = fs.ls().unwrap();
    assert_eq!(rows[0].permissions(), "drwx");
    assert_eq!(rows[1].permissions(), ".rwx");
    assert_eq!(rows[2].permissions(), "d---");
}

#[test]
fn ls_link_targets_show_resolved_path_or_placeholder() {
    let mut fs = Filesystem::new();
    let target = fs.add_dir(2, "target".to_string(), true);
    fs.add_link(2, "good".to_string(), target, true);
    fs.add_link(2, "dangle".to_string(), 999, true);
    let rows = fs.ls().unwrap();
    // children: projects, target, good, dangle
    assert_eq!(rows[0].target(), &None);
    assert_eq!(rows[1].target(), &None);
    assert_eq!(rows[2].target(), &Some("/home/user/target".to_string()));
    assert_eq!(rows[3].target(), &Some("?".to_string()));
}

#[test]
fn find_looks_up_by_identity() {
    let fs = Filesystem::new();
    assert_eq!(fs.find(2).unwrap().name, "user".to_string());
    assert!(fs.find(99).is_none());
}

#[test]
fn get_parent_finds_the_unique_parent() {
    let fs = Filesystem::new();
    let user = fs.find(2).unwrap();
    assert_eq!(fs.get_parent(user).unwrap().id, 1);
    let root = fs.find(0).unwrap();
    assert!(fs.get_parent(root).is_none());
}

#[test]
fn follow_link_on_non_link_returns_the_node() {
    let fs = Filesystem::new();
    let user = fs.find(2).unwrap();
    assert_eq!(fs.follow_link(user).unwrap().id, 2);
}

#[test]
fn new_dir_derives_name_from_path() {
    let e = FsEntry::new_dir(7, "/a/b".to_string(), vec![]);
    assert_eq!(e.name, "b".to_string());
    assert_eq!(e.full_path, "/a/b".to_string());
    let plain = FsEntry::new_dir(8, "plain".to_string(), vec![]);
    assert_eq!(plain.name, "plain".to_string());
}

#[test]
fn fs_entry_new_keeps_its_parts() {
    let e = FsEntry::new(
        5,
        "x".to_string(),
        "/x".to_string(),
        false,
        FsEntryType::File(b"abc".to_vec()),
    );
    assert_eq!(e.id, 5);
    assert!(!e.accessible);
    assert!(matches!(e.ty, FsEntryType::File(_)));
}
