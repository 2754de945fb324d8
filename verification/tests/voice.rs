//! Voice playback state: triggering, advancing, retriggering.

use drum_machine::voice::Sound;

#[test]
fn voice_plays_through_buffer_once() {
    let mut s = Sound::new(3);
    assert!(!s.playing);
    s.play();
    assert!(s.playing);
    assert_eq!(s.pos, 0);
    assert_eq!(s.tick(), 0);
    assert_eq!(s.tick(), 1);
    assert!(s.playing);
    assert_eq!(s.tick(), 2);
    // the cursor reached the end: the voice stopped with the last sample
    assert!(!s.playing);
    assert_eq!(s.pos, 3);
}

/// Retriggering a voice mid-playback restarts it from sample 0; it does not
/// layer a second playback.
#[test]
fn voice_retrigger_restarts_from_zero() {
    let mut s = Sound::new(10);
    s.play();
    s.tick();
    s.tick();
    s.tick();
    assert_eq!(s.pos, 3);
    s.play();
    assert!(s.playing);
    assert_eq!(s.pos, 0);
    assert_eq!(s.tick(), 0);
}

/// A voice with an empty buffer has nothing to play: triggering it leaves it
/// silent rather than panicking later.
#[test]
fn voice_empty_buffer_never_plays() {
    let mut s = Sound::new(0);
    s.play();
    assert!(!s.playing);
    assert_eq!(s.tick(), 0);
    assert!(!s.playing);
}

#[test]
fn voice_idle_tick_is_inert() {
    let mut s = Sound::new(4);
    assert_eq!(s.tick(), 0);
    assert_eq!(s.pos, 0);
    assert!(!s.playing);
}
