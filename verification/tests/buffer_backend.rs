use pine_audio::buffer::BufferBackend;
use pine_audio::buffer::SinkAction;
use pine_audio::catalog::SampleInfo;
use pine_audio::catalog::SampleMap;
use pine_audio::events::AudioEvent;
use pine_audio::events::VolumeFadeEvent;
use pine_audio::graph::GraphAction;
use pine_audio::graph::GraphBackend;
use pine_audio::units::linear_to_amp_micro;
use pine_audio::AudioError;

fn catalog_with(entries: &[(&str, u64)]) -> SampleMap {
    let mut map = SampleMap::new();
    for (name, frames) in entries {
        map.insert(
            name.to_string(),
            SampleInfo { frames: *frames, channels: 2, sample_rate: 48_000 },
        );
    }
    map
}

fn play(sample: &str) -> AudioEvent {
    AudioEvent { sample: sample.to_string(), ..AudioEvent::default() }
}

#[test]
fn trigger_allocates_a_sink_with_the_converted_amplitude() {
    let catalog = catalog_with(&[("click.ogg", 48_000)]);
    let mut backend = BufferBackend::new();
    let event = AudioEvent { volume: 900, ..play("click.ogg") };
    let act = backend.trigger(&event, &catalog).unwrap();
    assert_eq!(
        act,
        SinkAction::StartSink {
            sink: 0,
            spatial: false,
            sample: "click.ogg".to_string(),
            looping: false,
            speed: 1000,
            amp_micro: 810_000,
            position: None,
        }
    );
    assert_eq!(backend.handles.len(), 1);
    assert_eq!(backend.handles[0].nominal_ms, Some(1000));
    // an unknown sample is surfaced, not silently ignored
    let missing = backend.trigger(&play("missing.ogg"), &catalog);
    assert_eq!(missing.unwrap_err(), AudioError::UnknownSample);
    assert_eq!(backend.handles.len(), 1);
}

#[test]
fn cross_backend_amplitude_parity_is_exact() {
    // for a fixed (volume, position), the amplitude the buffer backend
    // applies equals the graph engine's conversion of the volume the
    // graph backend configures
    let catalog = catalog_with(&[("caw.ogg", 96_000)]);
    let event = AudioEvent {
        volume: 730,
        position: Some((15_000, 10_000)),
        ..play("caw.ogg")
    };
    let mut graph = GraphBackend::new();
    let mut buffer = BufferBackend::new();
    let graph_volume = match graph.trigger(&event, &catalog).unwrap() {
        GraphAction::StartWorker { volume, .. } => volume,
        other => panic!("expected a worker start, got {:?}", other),
    };
    let buffer_amp = match buffer.trigger(&event, &catalog).unwrap() {
        SinkAction::StartSink { amp_micro, .. } => amp_micro,
        other => panic!("expected a sink start, got {:?}", other),
    };
    assert_eq!(buffer_amp, linear_to_amp_micro(graph_volume));
    assert_eq!(buffer_amp, 730 * 730);
}

#[test]
fn sink_is_dropped_once_its_sample_ends() {
    let catalog = catalog_with(&[("click.ogg", 48_000)]);
    let mut backend = BufferBackend::new();
    backend.trigger(&play("click.ogg"), &catalog).unwrap();
    let acts = backend.tick(400);
    assert!(acts.is_empty());
    assert_eq!(backend.handles.len(), 1);
    let acts = backend.tick(700);
    assert_eq!(acts, vec![SinkAction::DropSink { sink: 0 }]);
    assert_eq!(backend.handles.len(), 0);
    // a new intent gets a fresh sink id: the old one is never reused
    let act = backend.trigger(&play("click.ogg"), &catalog).unwrap();
    match act {
        SinkAction::StartSink { sink: 1, .. } => {}
        other => panic!("expected a fresh sink id, got {:?}", other),
    }
}

#[test]
fn looping_sink_is_never_dropped_by_completion() {
    let catalog = catalog_with(&[("pine_trees.ogg", 48_000)]);
    let mut backend = BufferBackend::new();
    backend
        .trigger(&AudioEvent { looping: true, ..play("pine_trees.ogg") }, &catalog)
        .unwrap();
    for _ in 0..100 {
        backend.tick(10_000);
    }
    assert_eq!(backend.handles.len(), 1);
}

#[test]
fn fade_writes_the_lerped_amplitude_every_tick() {
    let catalog = catalog_with(&[("pine_trees.ogg", 48_000)]);
    let mut backend = BufferBackend::new();
    backend
        .trigger(
            &AudioEvent {
                looping: true,
                volume: 0,
                name: Some("pine".to_string()),
                ..play("pine_trees.ogg")
            },
            &catalog,
        )
        .unwrap();
    backend
        .fade(&VolumeFadeEvent {
            name: "pine".to_string(),
            start: 0,
            end: 1100,
            duration_ms: 3000,
        })
        .unwrap();
    // halfway: linear 0.55, applied as the squared amplitude
    let acts = backend.tick(1500);
    assert_eq!(acts, vec![SinkAction::SetSinkVolume { sink: 0, amp_micro: 550 * 550 }]);
    assert_eq!(backend.handles[0].volume, 550);
    // completion: exactly 1.1, tween gone, handle remains
    let acts = backend.tick(1500);
    assert_eq!(acts, vec![SinkAction::SetSinkVolume { sink: 0, amp_micro: 1100 * 1100 }]);
    assert_eq!(backend.handles[0].volume, 1100);
    assert!(backend.handles[0].fade.is_none());
    // with the tween gone nothing more is written
    let acts = backend.tick(1500);
    assert!(acts.is_empty());
    assert_eq!(backend.handles.len(), 1);
}

#[test]
fn named_fade_routing_matches_the_graph_backend() {
    let catalog = catalog_with(&[("a.ogg", 48_000), ("b.ogg", 48_000)]);
    let mut backend = BufferBackend::new();
    backend
        .trigger(
            &AudioEvent { looping: true, name: Some("a".to_string()), ..play("a.ogg") },
            &catalog,
        )
        .unwrap();
    backend
        .trigger(&AudioEvent { looping: true, ..play("b.ogg") }, &catalog)
        .unwrap();
    backend
        .fade(&VolumeFadeEvent {
            name: "a".to_string(),
            start: 0,
            end: 1000,
            duration_ms: 1000,
        })
        .unwrap();
    assert!(backend.handles[0].fade.is_some());
    assert!(backend.handles[1].fade.is_none());
    let missing = backend.fade(&VolumeFadeEvent {
        name: "b".to_string(),
        start: 0,
        end: 1000,
        duration_ms: 1000,
    });
    assert_eq!(missing.unwrap_err(), AudioError::NoSuchNamedHandle);
}
