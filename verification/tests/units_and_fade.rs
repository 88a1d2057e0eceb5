use pine_audio::fade::VolumeFade;
use pine_audio::units::lerp_milli;
use pine_audio::units::linear_to_amp_micro;
use pine_audio::units::saturating_add_ms;
use pine_audio::units::saturating_sub_ms;
use pine_audio::units::scale_duration_ms;
use pine_audio::events::AudioEvent;
use pine_audio::events::VolumeFadeEvent;

#[test]
fn amp_law_squares_linear_volume() {
    // unity gain: 1000 milli -> 1_000_000 micro
    assert_eq!(linear_to_amp_micro(1000), 1_000_000);
    // 0.9 linear -> 0.81 amplitude
    assert_eq!(linear_to_amp_micro(900), 810_000);
    assert_eq!(linear_to_amp_micro(0), 0);
    assert_eq!(linear_to_amp_micro(u32::MAX), (u32::MAX as u64) * (u32::MAX as u64));
}

#[test]
fn lerp_hits_exact_midpoint_and_end() {
    // the ambience fade: 0.0 -> 1.1 over three seconds
    assert_eq!(lerp_milli(0, 1100, 1500, 3000), 550);
    assert_eq!(lerp_milli(0, 1100, 3000, 3000), 1100);
    assert_eq!(lerp_milli(0, 1100, 4000, 3000), 1100);
    // a fade-out
    assert_eq!(lerp_milli(520, 0, 3000, 6000), 260);
    // zero duration resolves to the end volume at once
    assert_eq!(lerp_milli(300, 700, 0, 0), 700);
}

#[test]
fn duration_scaling_follows_speed() {
    // half speed doubles the nominal length
    assert_eq!(scale_duration_ms(1000, 500), 2000);
    // double speed halves it
    assert_eq!(scale_duration_ms(1000, 2000), 500);
    assert_eq!(scale_duration_ms(1000, 1000), 1000);
    // the 0.8 music speed
    assert_eq!(scale_duration_ms(4000, 800), 5000);
}

#[test]
fn saturating_time_arithmetic() {
    assert_eq!(saturating_add_ms(u64::MAX - 1, 5), u64::MAX);
    assert_eq!(saturating_add_ms(3, 4), 7);
    assert_eq!(saturating_sub_ms(3, 4), 0);
    assert_eq!(saturating_sub_ms(250, 100), 150);
}

#[test]
fn fade_reaches_end_exactly_and_stays_there() {
    let event = VolumeFadeEvent {
        name: "pine".to_string(),
        start: 0,
        end: 1100,
        duration_ms: 3000,
    };
    let mut fade = VolumeFade::begin(&event);
    assert_eq!(fade.elapsed_ms, 0);
    fade.tick(1500);
    assert!(!fade.finished());
    assert_eq!(fade.current_volume(), 550);
    fade.tick(1500);
    assert!(fade.finished());
    assert_eq!(fade.current_volume(), 1100);
    // a second tick at the same state is a no-op on the volume
    fade.tick(1000);
    assert!(fade.finished());
    assert_eq!(fade.current_volume(), 1100);
}

#[test]
fn default_fade_event_is_one_second_to_unity() {
    let event = VolumeFadeEvent::default();
    assert_eq!(event.start, 0);
    assert_eq!(event.end, 1000);
    assert_eq!(event.duration_ms, 1000);
    assert_eq!(event.name, "");
}

#[test]
fn default_play_intent_is_neutral() {
    let event = AudioEvent::default();
    assert_eq!(event.sample, "");
    assert!(event.position.is_none());
    assert_eq!(event.speed, 1000);
    assert_eq!(event.volume, 1000);
    assert!(!event.looping);
    assert!(event.name.is_none());
}
