use std::path::Path;

use vid_launcher::layout::{TILE_HEIGHT, TILE_WIDTH, WINDOW_WIDTH};
use vid_launcher::thumbnails::{
    basename_from_digest, compute_thumbnail_basename, latest_accessed, thumbnail_filter,
};
use vid_launcher::weights::SystemTimestamp;

fn at(secs: i64) -> Option<SystemTimestamp> {
    if secs >= 0 {
        SystemTimestamp::after_epoch(secs as u64, 0)
    } else {
        SystemTimestamp::before_epoch(secs.unsigned_abs(), 0)
    }
}

#[test]
fn it_computes_thumbnail_basename_correctly() {
    assert_eq!(
        "599f0812d17899dd390d8d159a8ab16a.png",
        &compute_thumbnail_basename(
            Path::new("/home/user/Videos/VideoDir1/Video1.mp4").to_str().unwrap()
        )
    );
}

#[test]
fn basename_of_the_empty_path() {
    assert_eq!(compute_thumbnail_basename(""), "d41d8cd98f00b204e9800998ecf8427e.png");
}

#[test]
fn basename_is_hex_digits_then_png() {
    let name = compute_thumbnail_basename("/home/user/Videos/Show/Épisode 1.mkv");
    assert_eq!(name.len(), 36);
    assert!(name.ends_with(".png"));
    assert!(name[..32].chars().all(|c| c.is_ascii_digit() || ('a'..='f').contains(&c)));
    assert_ne!(name, compute_thumbnail_basename("/home/user/Videos/Show/Episode 1.mkv"));
}

#[test]
fn basename_writes_each_byte_as_two_lower_case_digits() {
    let digest: [u8; 16] = [0, 1, 0x0f, 0x10, 0xab, 0xff, 2, 3, 4, 5, 6, 7, 8, 9, 0xa0, 0x5c];
    assert_eq!(basename_from_digest(&digest), "00010f10abff0203040506070809a05c.png");
}

#[test]
fn filter_for_the_tile_size() {
    assert_eq!(
        thumbnail_filter(TILE_WIDTH, TILE_HEIGHT),
        "thumbnail=n=200,scale=150:100:force_original_aspect_ratio=increase,crop=150:100"
    );
    assert_eq!(
        thumbnail_filter(0, 4294967295),
        "thumbnail=n=200,scale=0:4294967295:force_original_aspect_ratio=increase,crop=0:4294967295"
    );
    assert_eq!(WINDOW_WIDTH, 300);
}

#[test]
fn latest_access_wins_and_last_one_on_ties() {
    assert_eq!(latest_accessed(&vec![]), None);
    assert_eq!(latest_accessed(&vec![None, None]), None);
    assert_eq!(latest_accessed(&vec![at(-5)]), Some(0));
    assert_eq!(latest_accessed(&vec![at(1), at(3), at(3), None, at(2)]), Some(2));
    assert_eq!(latest_accessed(&vec![None, at(7), at(-1)]), Some(1));
}
