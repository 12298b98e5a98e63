use subtitle_watcher::clock::{PlaybackState, SEEK_STEP_MS};

#[test]
fn starts_paused_at_zero() {
    let c = PlaybackState::new();
    assert_eq!(c.playback_time_ms, 0);
    assert_eq!(c.offset_ms, 0);
    assert!(!c.playing);
    assert!(!c.wants_ticks());
    assert_eq!(c.current_time_ms(), 0);
}

#[test]
fn adjust_back_stops_at_zero() {
    let mut c = PlaybackState::new();
    c.seek(2000);
    c.adjust(-5000);
    assert_eq!(c.playback_time_ms, 0);
}

#[test]
fn adjust_moves_by_the_step() {
    let mut c = PlaybackState::new();
    c.adjust(SEEK_STEP_MS);
    assert_eq!(c.playback_time_ms, 5000);
    c.adjust(SEEK_STEP_MS);
    c.adjust(-SEEK_STEP_MS);
    assert_eq!(c.playback_time_ms, 5000);
    c.play(0);
    c.adjust(1);
    assert_eq!(c.playback_time_ms, 5001);
}

#[test]
fn adjust_stops_at_the_top() {
    let mut c = PlaybackState::new();
    c.seek(u128::MAX - 10);
    c.adjust(5000);
    assert_eq!(c.playback_time_ms, u128::MAX);
    c.adjust(i64::MIN);
    assert_eq!(c.playback_time_ms, u128::MAX - (1u128 << 63));
}

#[test]
fn seek_while_playing_changes_nothing() {
    let mut c = PlaybackState::new();
    c.seek(1234);
    c.play(50);
    let before = c;
    c.seek(99);
    assert_eq!(c, before);
    assert_eq!(c.playback_time_ms, 1234);
}

#[test]
fn seek_while_paused_sets_the_time() {
    let mut c = PlaybackState::new();
    c.seek(3_723_004);
    assert_eq!(c.playback_time_ms, 3_723_004);
    assert!(!c.playing);
}

#[test]
fn ticks_add_wall_clock_time_while_playing() {
    let mut c = PlaybackState::new();
    c.play(1000);
    assert!(c.wants_ticks());
    c.tick(1010);
    c.tick(1025);
    assert_eq!(c.playback_time_ms, 25);
    c.pause();
    assert_eq!(c.playback_time_ms, 25);
    c.tick(5000);
    assert_eq!(c.playback_time_ms, 25);
    c.play(6000);
    c.tick(6010);
    assert_eq!(c.playback_time_ms, 35);
}

#[test]
fn tick_with_an_earlier_reading_adds_nothing() {
    let mut c = PlaybackState::new();
    c.play(1000);
    c.tick(900);
    assert_eq!(c.playback_time_ms, 0);
    assert_eq!(c.last_tick_ms, 900);
    c.tick(950);
    assert_eq!(c.playback_time_ms, 50);
}

#[test]
fn play_twice_keeps_the_segment() {
    let mut c = PlaybackState::new();
    c.play(100);
    c.play(500);
    assert_eq!(c.last_tick_ms, 100);
    c.tick(600);
    assert_eq!(c.playback_time_ms, 500);
}

#[test]
fn pause_twice_is_pause() {
    let mut c = PlaybackState::new();
    c.play(1);
    c.pause();
    let once = c;
    c.pause();
    assert_eq!(c, once);
}

#[test]
fn reset_goes_back_to_zero() {
    let mut c = PlaybackState::new();
    c.seek(777);
    c.set_offset(5);
    c.reset();
    assert_eq!(c.playback_time_ms, 0);
    assert_eq!(c.offset_ms, 5);
    assert_eq!(c.current_time_ms(), 5);
}

#[test]
fn offset_is_set_only_while_paused() {
    let mut c = PlaybackState::new();
    c.set_offset(1500);
    c.seek(500);
    assert_eq!(c.current_time_ms(), 2000);
    c.play(0);
    c.set_offset(9);
    assert_eq!(c.offset_ms, 1500);
}

#[test]
fn displayed_time_stops_at_the_top() {
    let mut c = PlaybackState::new();
    c.seek(u128::MAX);
    c.set_offset(1);
    assert_eq!(c.current_time_ms(), u128::MAX);
}
