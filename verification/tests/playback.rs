use app_core::playback::{format_playback_clock, PlaybackStatus};

#[test]
fn playback_clock_labels_minutes_and_hours() {
    assert_eq!(format_playback_clock(0), "0:00");
    assert_eq!(format_playback_clock(65), "1:05");
    assert_eq!(format_playback_clock(600), "10:00");
    assert_eq!(format_playback_clock(3599), "59:59");
    assert_eq!(format_playback_clock(3600), "1:00:00");
    assert_eq!(format_playback_clock(3725), "1:02:05");
    assert_eq!(format_playback_clock(36_000 + 59), "10:00:59");
}

#[test]
fn playback_statuses_are_distinct() {
    assert_ne!(PlaybackStatus::Empty, PlaybackStatus::Paused);
    assert_ne!(PlaybackStatus::Paused, PlaybackStatus::Playing);
}
