use pine_audio::catalog::SampleInfo;
use pine_audio::catalog::SampleMap;
use pine_audio::events::AudioEvent;
use pine_audio::events::VolumeFadeEvent;
use pine_audio::graph::GraphAction;
use pine_audio::graph::GraphBackend;
use pine_audio::graph::HandleState;
use pine_audio::AudioError;

fn catalog_with(entries: &[(&str, u64)]) -> SampleMap {
    let mut map = SampleMap::new();
    for (name, frames) in entries {
        map.insert(
            name.to_string(),
            SampleInfo { frames: *frames, channels: 2, sample_rate: 48_000 },
        );
    }
    map
}

fn play(sample: &str) -> AudioEvent {
    AudioEvent { sample: sample.to_string(), ..AudioEvent::default() }
}

#[test]
fn unknown_sample_is_surfaced_and_nothing_plays() {
    let catalog = catalog_with(&[("click.ogg", 48_000)]);
    let mut backend = GraphBackend::new();
    let result = backend.trigger(&play("missing.ogg"), &catalog);
    assert_eq!(result.unwrap_err(), AudioError::UnknownSample);
    assert_eq!(backend.handles.len(), 0);
}

#[test]
fn trigger_starts_a_worker_with_the_intent_parameters() {
    let catalog = catalog_with(&[("click.ogg", 48_000)]);
    let mut backend = GraphBackend::new();
    let event = AudioEvent { volume: 900, ..play("click.ogg") };
    let act = backend.trigger(&event, &catalog).unwrap();
    assert_eq!(
        act,
        GraphAction::StartWorker {
            worker: 0,
            spatial: false,
            sample: "click.ogg".to_string(),
            looping: false,
            speed: 1000,
            volume: 900,
            position: None,
        }
    );
    assert_eq!(backend.handles.len(), 1);
    assert_eq!(backend.handles[0].grace_ms, 250);
    assert_eq!(backend.handles[0].nominal_ms, Some(1000));
    assert_eq!(backend.handles[0].volume, 900);
    assert_eq!(backend.handles[0].synced_volume, 900);
}

#[test]
fn pool_exhaustion_fails_the_extra_play_and_keeps_the_rest() {
    // one more simultaneous spatial play than the pool holds
    let catalog = catalog_with(&[("caw.ogg", 480_000)]);
    let mut backend = GraphBackend::new();
    let spatial = AudioEvent { position: Some((15_000, 10_000)), ..play("caw.ogg") };
    for expected_worker in 0..24 {
        let act = backend.trigger(&spatial, &catalog).unwrap();
        match act {
            GraphAction::StartWorker { worker, spatial: true, .. } => {
                assert_eq!(worker, expected_worker);
            }
            other => panic!("expected a spatial worker start, got {:?}", other),
        }
    }
    assert_eq!(backend.handles.len(), 24);
    let overflow = backend.trigger(&spatial, &catalog);
    assert_eq!(overflow.unwrap_err(), AudioError::PoolExhausted);
    // the first 24 remain playable
    assert_eq!(backend.handles.len(), 24);
    // the other pool is untouched: a non-spatial play still succeeds
    let plain = backend.trigger(&play("caw.ogg"), &catalog).unwrap();
    match plain {
        GraphAction::StartWorker { worker: 0, spatial: false, .. } => {}
        other => panic!("expected a volume-pool start, got {:?}", other),
    }
}

#[test]
fn handle_lives_for_the_sample_duration_then_is_reaped() {
    // one second of audio at 48 kHz
    let catalog = catalog_with(&[("click.ogg", 48_000)]);
    let mut backend = GraphBackend::new();
    backend
        .trigger(&AudioEvent { volume: 900, ..play("click.ogg") }, &catalog)
        .unwrap();
    // a fresh handle is pending until its grace period ends
    assert_eq!(backend.handles[0].state(), HandleState::Pending);
    // one tick later the handle exists and is active
    let acts = backend.tick(100);
    assert_eq!(backend.handles.len(), 1);
    assert!(acts.is_empty());
    // well past the grace period but before the duration: still live
    let acts = backend.tick(800);
    assert_eq!(backend.handles.len(), 1);
    assert_eq!(backend.handles[0].state(), HandleState::Active);
    assert!(acts.is_empty());
    // once the nominal duration has elapsed, maintenance reaps it
    let acts = backend.tick(200);
    assert_eq!(backend.handles.len(), 0);
    assert_eq!(acts, vec![GraphAction::ReleaseWorker { worker: 0, spatial: false }]);
    // and the slot serves a new intent again
    let act = backend.trigger(&play("click.ogg"), &catalog).unwrap();
    match act {
        GraphAction::StartWorker { worker: 0, .. } => {}
        other => panic!("expected the freed worker, got {:?}", other),
    }
}

#[test]
fn grace_period_defers_reaping_a_finished_worker() {
    // a ten-millisecond blip: shorter than the 250 ms grace period
    let catalog = catalog_with(&[("blip.ogg", 480)]);
    let mut backend = GraphBackend::new();
    backend.trigger(&play("blip.ogg"), &catalog).unwrap();
    let acts = backend.tick(100);
    // past its duration, but the grace timer still defers polling
    assert_eq!(backend.handles.len(), 1);
    assert_eq!(backend.handles[0].state(), HandleState::Draining);
    assert!(acts.is_empty());
    let acts = backend.tick(200);
    assert_eq!(backend.handles.len(), 0);
    assert_eq!(acts.len(), 1);
}

#[test]
fn looping_handle_is_never_reaped_by_completion() {
    let catalog = catalog_with(&[("pine_trees.ogg", 48_000)]);
    let mut backend = GraphBackend::new();
    backend
        .trigger(&AudioEvent { looping: true, ..play("pine_trees.ogg") }, &catalog)
        .unwrap();
    for _ in 0..100 {
        backend.tick(10_000);
    }
    assert_eq!(backend.handles.len(), 1);
}

#[test]
fn named_fade_attaches_to_the_named_handle_only() {
    let catalog = catalog_with(&[("pine_trees.ogg", 48_000), ("creek.ogg", 48_000)]);
    let mut backend = GraphBackend::new();
    backend
        .trigger(
            &AudioEvent {
                looping: true,
                name: Some("a".to_string()),
                ..play("pine_trees.ogg")
            },
            &catalog,
        )
        .unwrap();
    backend
        .trigger(&AudioEvent { looping: true, ..play("creek.ogg") }, &catalog)
        .unwrap();
    let fade = VolumeFadeEvent {
        name: "a".to_string(),
        start: 0,
        end: 1000,
        duration_ms: 2000,
    };
    backend.fade(&fade).unwrap();
    assert!(backend.handles[0].fade.is_some());
    assert!(backend.handles[1].fade.is_none());
    // a name with no live match is a recoverable error and mutates nothing
    let missing = VolumeFadeEvent { name: "b".to_string(), ..fade };
    assert_eq!(backend.fade(&missing).unwrap_err(), AudioError::NoSuchNamedHandle);
    assert!(backend.handles[0].fade.is_some());
    assert!(backend.handles[1].fade.is_none());
}

#[test]
fn ambience_fade_scenario_reaches_its_end_volume_exactly() {
    // pine_trees.ogg looping at volume zero, named, then faded to 1.1
    let catalog = catalog_with(&[("pine_trees.ogg", 48_000)]);
    let mut backend = GraphBackend::new();
    backend
        .trigger(
            &AudioEvent {
                looping: true,
                volume: 0,
                name: Some("pine".to_string()),
                ..play("pine_trees.ogg")
            },
            &catalog,
        )
        .unwrap();
    backend
        .fade(&VolumeFadeEvent {
            name: "pine".to_string(),
            start: 0,
            end: 1100,
            duration_ms: 3000,
        })
        .unwrap();
    // halfway: volume is about 0.55, pushed as one diff
    let acts = backend.tick(1500);
    assert_eq!(backend.handles[0].volume, 550);
    assert_eq!(acts, vec![GraphAction::PushVolume { worker: 0, spatial: false, volume: 550 }]);
    // completion: exactly 1.1, the tween is gone, the handle remains
    let acts = backend.tick(1500);
    assert_eq!(backend.handles[0].volume, 1100);
    assert!(backend.handles[0].fade.is_none());
    assert_eq!(backend.handles.len(), 1);
    assert_eq!(acts, vec![GraphAction::PushVolume { worker: 0, spatial: false, volume: 1100 }]);
    // a further tick pushes nothing: the volume did not change
    let acts = backend.tick(1500);
    assert!(acts.is_empty());
    assert_eq!(backend.handles[0].volume, 1100);
    assert_eq!(backend.handles.len(), 1);
}

#[test]
fn unchanged_volume_is_never_re_sent() {
    let catalog = catalog_with(&[("pine_trees.ogg", 48_000)]);
    let mut backend = GraphBackend::new();
    backend
        .trigger(&AudioEvent { looping: true, ..play("pine_trees.ogg") }, &catalog)
        .unwrap();
    // no fade: maintenance queues no diffs at all
    for _ in 0..5 {
        let acts = backend.tick(100);
        assert!(acts.is_empty());
    }
    // a constant fade settles after its first push
    backend
        .trigger(
            &AudioEvent {
                looping: true,
                volume: 700,
                name: Some("steady".to_string()),
                ..play("pine_trees.ogg")
            },
            &catalog,
        )
        .unwrap();
    backend
        .fade(&VolumeFadeEvent {
            name: "steady".to_string(),
            start: 700,
            end: 700,
            duration_ms: 1000,
        })
        .unwrap();
    let acts = backend.tick(100);
    // the tween prescribes the volume the handle already has: no diff
    assert!(acts.is_empty());
}

#[test]
fn channel_hookup_pairs_corresponding_channels() {
    let stereo_to_stereo = pine_audio::graph::channel_connections(2, 2);
    assert_eq!(stereo_to_stereo, vec![(0, 0), (1, 1)]);
    let mono_to_stereo = pine_audio::graph::channel_connections(1, 2);
    assert_eq!(mono_to_stereo, vec![(0, 0)]);
    let surround_to_stereo = pine_audio::graph::channel_connections(6, 2);
    assert_eq!(surround_to_stereo, vec![(0, 0), (1, 1)]);
}

