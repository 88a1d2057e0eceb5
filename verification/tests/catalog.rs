use pine_audio::catalog::catalog_key;
use pine_audio::catalog::SampleInfo;
use pine_audio::catalog::SampleMap;

fn info(frames: u64, rate: u32) -> SampleInfo {
    SampleInfo { frames, channels: 2, sample_rate: rate }
}

#[test]
fn lookup_finds_inserted_samples() {
    let mut map = SampleMap::new();
    assert_eq!(map.len(), 0);
    map.insert("click.ogg".to_string(), info(48_000, 48_000));
    map.insert("caw.ogg".to_string(), info(96_000, 48_000));
    assert_eq!(map.len(), 2);
    let click = map.get(&"click.ogg".to_string()).unwrap();
    assert_eq!(click.frames, 48_000);
    assert_eq!(click.duration_ms(), 1000);
    let caw = map.get(&"caw.ogg".to_string()).unwrap();
    assert_eq!(caw.duration_ms(), 2000);
}

#[test]
fn unknown_sample_is_a_recoverable_none() {
    let mut map = SampleMap::new();
    map.insert("click.ogg".to_string(), info(48_000, 48_000));
    assert!(map.get(&"missing.ogg".to_string()).is_none());
    assert!(!map.contains_key(&"missing.ogg".to_string()));
    assert!(map.contains_key(&"click.ogg".to_string()));
}

#[test]
fn colliding_key_takes_the_last_write() {
    let mut map = SampleMap::new();
    map.insert("step.ogg".to_string(), info(10_000, 48_000));
    map.insert("step.ogg".to_string(), info(20_000, 48_000));
    assert_eq!(map.len(), 1);
    assert_eq!(map.get(&"step.ogg".to_string()).unwrap().frames, 20_000);
}

#[test]
fn catalog_keys_use_forward_slashes() {
    let parts = vec!["chimes".to_string(), "chime-d1.ogg".to_string()];
    assert_eq!(catalog_key(&parts), "chimes/chime-d1.ogg");
    let single = vec!["pine_trees.ogg".to_string()];
    assert_eq!(catalog_key(&single), "pine_trees.ogg");
    let empty: Vec<String> = Vec::new();
    assert_eq!(catalog_key(&empty), "");
}

#[test]
fn duration_rounds_down_to_milliseconds() {
    let odd = info(48_071, 48_000);
    assert_eq!(odd.duration_ms(), 1001);
}
