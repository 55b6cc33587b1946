use vid_launcher::files::{
    entry_action, extension_of, get_open_command, is_video_file, subdirectory_positions,
    DirEntryInfo, EntryAction, EntryKind,
};

fn entry(name: &str, kind: EntryKind) -> DirEntryInfo {
    DirEntryInfo { name: name.to_string(), kind }
}

#[test]
fn test_get_open_command() {
    let cmd = get_open_command(true);
    assert!(cmd == "open");
}

#[test]
fn file_operations_test_get_open_command() {
    let cmd = get_open_command(false);
    assert!(cmd == "xdg-open");
}

#[test]
fn extension_is_what_follows_the_last_dot() {
    assert_eq!(extension_of("a.mp4"), Some("mp4".to_string()));
    assert_eq!(extension_of("archive.tar.gz"), Some("gz".to_string()));
    assert_eq!(extension_of("..mp4"), Some("mp4".to_string()));
    assert_eq!(extension_of("trailing."), Some("".to_string()));
}

#[test]
fn names_without_an_extension() {
    assert_eq!(extension_of("noext"), None);
    assert_eq!(extension_of(".hidden"), None);
    assert_eq!(extension_of(".."), None);
    assert_eq!(extension_of("."), None);
    assert_eq!(extension_of(""), None);
}

#[test]
fn video_names() {
    assert!(is_video_file("a.mp4"));
    assert!(is_video_file("b.mkv"));
    assert!(is_video_file("c.avi"));
    assert!(is_video_file("d.webm"));
    assert!(is_video_file("episode.1.mkv"));
    assert!(!is_video_file("c.txt"));
    assert!(!is_video_file("e.MP4"));
    assert!(!is_video_file(".mp4"));
    assert!(!is_video_file("mp4"));
    assert!(!is_video_file("a.mp4.part"));
}

#[test]
fn video_walk_keeps_videos_and_descends() {
    // The listing of the folder in the original filtering scenario.
    let listing = vec![
        entry("a.mp4", EntryKind::File),
        entry("b.mkv", EntryKind::File),
        entry("c.txt", EntryKind::File),
        entry("subdir", EntryKind::Directory),
    ];
    let actions: Vec<EntryAction> = listing.iter().map(entry_action).collect();
    assert_eq!(
        actions,
        vec![EntryAction::Keep, EntryAction::Keep, EntryAction::Skip, EntryAction::Descend]
    );
    // Inside `subdir`.
    assert_eq!(entry_action(&entry("d.webm", EntryKind::File)), EntryAction::Keep);
}

#[test]
fn only_regular_files_are_kept() {
    assert_eq!(entry_action(&entry("dangling.mp4", EntryKind::Other)), EntryAction::Skip);
    assert_eq!(entry_action(&entry("folder.mp4", EntryKind::Directory)), EntryAction::Descend);
}

#[test]
fn subdirectories_in_listing_order() {
    let listing = vec![
        entry("x.mp4", EntryKind::File),
        entry("Show A", EntryKind::Directory),
        entry("link", EntryKind::Other),
        entry("Show B", EntryKind::Directory),
    ];
    assert_eq!(subdirectory_positions(&listing), vec![1, 3]);
    assert_eq!(subdirectory_positions(&Vec::new()), Vec::<usize>::new());
}
