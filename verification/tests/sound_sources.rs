use pine_audio::chimes::ChimesTimer;
use pine_audio::chimes::ChimeTick;
use pine_audio::chimes::CHIME_COUNT;
use pine_audio::footsteps::FootstepSelector;
use pine_audio::music::MusicState;
use pine_audio::repeater::SoundRepeater;

#[test]
fn footsteps_never_repeat_the_previous_sample() {
    let samples: Vec<String> = (1..=8).map(|i| format!("footsteps/step{}.ogg", i)).collect();
    let mut selector = FootstepSelector::new();
    let mut previous = selector.last;
    for _ in 0..100 {
        let event = selector.next_event(&samples, 750);
        assert_ne!(selector.last, previous);
        assert!(selector.last < samples.len());
        assert_eq!(event.sample, samples[selector.last]);
        assert!(event.speed >= 950 && event.speed < 1050);
        assert_eq!(event.volume, 750);
        assert!(event.position.is_none());
        assert!(!event.looping);
        assert!(event.name.is_none());
        previous = selector.last;
    }
}

#[test]
fn repeater_fires_and_rearms_within_its_range() {
    let mut repeater = SoundRepeater::new(900, 1100);
    assert!(repeater.timer_ms >= 900 && repeater.timer_ms < 1100);
    let mut fired = 0;
    for _ in 0..200 {
        if repeater.tick(100) {
            fired += 1;
            assert!(repeater.timer_ms >= 900 && repeater.timer_ms < 1100);
        }
    }
    // 20 seconds of ticks at intervals of 0.9 to 1.1 s
    assert!(fired >= 17 && fired <= 23, "fired {} times", fired);
}

#[test]
fn chimes_strike_immediately_then_decay_to_silence() {
    let mut chimes = ChimesTimer::new(650, (4000, 3000));
    // the first tick strikes regardless of the countdown
    let first = chimes.tick(0);
    match first {
        ChimeTick::Strike { sample_index, volume } => {
            assert!(sample_index < CHIME_COUNT);
            // 0.65 decayed by 0.03, doubled
            assert_eq!(volume, 620 * 2);
        }
        other => panic!("expected an immediate strike, got {:?}", other),
    }
    // strike repeatedly: the amplitude decays by 30 per strike and the
    // pattern ends once it falls to the floor
    let mut strikes: u32 = 1;
    loop {
        match chimes.tick(1000) {
            ChimeTick::Strike { volume, .. } => {
                strikes += 1;
                assert_eq!(volume, (650 - 30 * strikes) * 2);
                assert!(strikes < 60, "chimes never faded");
            }
            ChimeTick::Faded => break,
            ChimeTick::Idle => panic!("a full second always reaches the countdown"),
        }
    }
    // 650 - 30 * k <= 150 first holds at k == 17
    assert_eq!(strikes, 16);
}

#[test]
fn chimes_rotate_through_every_sample_before_repeating() {
    let mut chimes = ChimesTimer::new(u32::MAX / 2, (0, 0));
    let mut seen = vec![false; CHIME_COUNT];
    for _ in 0..CHIME_COUNT {
        match chimes.tick(1000) {
            ChimeTick::Strike { sample_index, .. } => {
                assert!(!seen[sample_index], "sample repeated within one rotation");
                seen[sample_index] = true;
            }
            other => panic!("expected a strike, got {:?}", other),
        }
    }
    assert!(seen.iter().all(|s| *s));
    // the rotation restarts afterwards
    match chimes.tick(1000) {
        ChimeTick::Strike { .. } => {}
        other => panic!("expected a strike in the new rotation, got {:?}", other),
    }
}

#[test]
fn music_starts_exactly_once() {
    let mut music = MusicState::new();
    let event = music.on_music_event().expect("first request starts the theme");
    assert_eq!(event.sample, "aster.ogg");
    assert_eq!(event.volume, 520);
    assert_eq!(event.speed, 800);
    assert!(event.looping);
    assert_eq!(event.name.as_deref(), Some("music"));
    assert!(event.position.is_none());
    assert!(music.on_music_event().is_none());
    assert!(music.on_music_event().is_none());
}
