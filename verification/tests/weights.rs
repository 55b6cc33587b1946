use std::time::{Duration, SystemTime, UNIX_EPOCH};

use vid_launcher::weights::{
    choose_random_video, seconds_since_system_time, weight_by_last_accessed, weighted_positions, FutureTime, LastAccessible, SystemTimestamp,
};


fn timestamp(time: SystemTime) -> SystemTimestamp {
    match time.duration_since(UNIX_EPOCH) {
        Ok(d) => SystemTimestamp::after_epoch(d.as_secs(), d.subsec_nanos()).unwrap(),
        Err(e) => {
            let d = e.duration();
            SystemTimestamp::before_epoch(d.as_secs(), d.subsec_nanos()).unwrap()
        },
    }
}

struct MockFile {
    last_accessed: Option<SystemTime>,
}

impl LastAccessible for MockFile {
    fn last_accessed(&self) -> Result<SystemTimestamp, String> {
        self.last_accessed.map(timestamp).ok_or("No last accessed time".into())
    }
}

#[test]
fn returns_higher_for_older_time() {
    let now = SystemTime::now();
    let file1 = MockFile { last_accessed: Some(now - Duration::from_secs(5)) };
    let file2 = MockFile { last_accessed: Some(now - Duration::from_mins(10)) };

    assert_eq!(5, weight_by_last_accessed(&file1, &timestamp(now)));
    assert_eq!(600, weight_by_last_accessed(&file2, &timestamp(now)));
}

#[test]
fn returns_zero_if_time_is_not_available() {
    let file = MockFile { last_accessed: None };

    assert_eq!(0, weight_by_last_accessed(&file, &timestamp(SystemTime::now())));
}

#[test]
fn returns_zero_for_an_access_in_the_future() {
    let now = SystemTime::now();
    let file = MockFile { last_accessed: Some(now + Duration::from_secs(30)) };
    assert_eq!(0, weight_by_last_accessed(&file, &timestamp(now)));
}

#[test]
fn seconds_are_rounded_down() {
    let now = SystemTimestamp::after_epoch(100, 0).unwrap();
    let earlier = SystemTimestamp::after_epoch(10, 500_000_000).unwrap();
    assert_eq!(seconds_since_system_time(&now, &earlier), Ok(89));
    assert_eq!(seconds_since_system_time(&now, &now), Ok(0));
    let before_epoch = SystemTimestamp::before_epoch(1, 250_000_000).unwrap();
    assert_eq!(seconds_since_system_time(&now, &before_epoch), Ok(101));
}

#[test]
fn time_in_the_future_is_an_error() {
    let now = SystemTimestamp::after_epoch(100, 0).unwrap();
    let later = SystemTimestamp::after_epoch(102, 500_000_000).unwrap();
    assert_eq!(
        seconds_since_system_time(&now, &later),
        Err(FutureTime { secs: 2, subsec_nanos: 500_000_000 })
    );
}

#[test]
fn whole_clock_range() {
    let first = SystemTimestamp::before_epoch(9_223_372_036_854_775_808, 0).unwrap();
    let last = SystemTimestamp::after_epoch(i64::MAX as u64, 999_999_999).unwrap();
    assert_eq!(seconds_since_system_time(&last, &first), Ok(u64::MAX));
    assert!(SystemTimestamp::before_epoch(9_223_372_036_854_775_808, 1).is_none());
    assert!(SystemTimestamp::after_epoch(i64::MAX as u64 + 1, 0).is_none());
    assert!(SystemTimestamp::after_epoch(0, 1_000_000_000).is_none());
    assert_eq!(first.nanos_since_epoch(), -9_223_372_036_854_775_808_000_000_000);
}

#[test]
fn no_video_to_choose() {
    assert_eq!(choose_random_video(&vec![]), Err("No video files found in folder".to_string()));
}

#[test]
fn a_video_is_chosen_even_when_all_weights_are_zero() {
    for _ in 0..100 {
        assert!(choose_random_video(&vec![0, 0, 0]).unwrap() < 3);
        assert_eq!(choose_random_video(&vec![0]), Ok(0));
        assert!(choose_random_video(&vec![u64::MAX, 1]).unwrap() < 2);
    }
}

#[test]
fn zero_weights_are_never_chosen() {
    for _ in 0..100 {
        assert_eq!(choose_random_video(&vec![0, 5, 0]), Ok(1));
        let chosen = choose_random_video(&vec![3, 0, 7]).unwrap();
        assert!(chosen == 0 || chosen == 2);
    }
    assert_eq!(choose_random_video(&vec![u64::MAX, 0]), Ok(0));
}

#[test]
fn weights_are_handed_on_in_order() {
    assert_eq!(weighted_positions(&vec![7, 0, 3]), vec![(0, 7), (1, 0), (2, 3)]);
    assert_eq!(weighted_positions(&vec![]), Vec::<(usize, u64)>::new());
}
