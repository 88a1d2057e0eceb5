use pine_audio::backend::AudioBackend;
use pine_audio::buffer::BufferBackend;
use pine_audio::catalog::SampleInfo;
use pine_audio::catalog::SampleMap;
use pine_audio::events::AudioEvent;
use pine_audio::events::VolumeFadeEvent;
use pine_audio::graph::GraphBackend;
use pine_audio::AudioError;

/// Both backends realize one capability surface; this exercises it
/// generically, the way the demo's tick loop consumes it.
fn exercise_shared_contract<B: AudioBackend>(backend: &mut B, catalog: &SampleMap) {
    // an unknown sample id is a recoverable error, not silence by accident
    let missing = AudioEvent { sample: "missing.ogg".to_string(), ..AudioEvent::default() };
    assert!(matches!(
        backend.trigger_intent(&missing, catalog),
        Err(AudioError::UnknownSample)
    ));
    // a named looping play succeeds and a fade routes to it by name
    let named = AudioEvent {
        sample: "pine_trees.ogg".to_string(),
        looping: true,
        volume: 0,
        name: Some("pine".to_string()),
        ..AudioEvent::default()
    };
    assert!(backend.trigger_intent(&named, catalog).is_ok());
    let fade = VolumeFadeEvent {
        name: "pine".to_string(),
        start: 0,
        end: 1100,
        duration_ms: 3000,
    };
    assert!(backend.fade_intent(&fade).is_ok());
    // a fade naming no live handle is dropped with an error
    let unrouted = VolumeFadeEvent { name: "creek".to_string(), ..fade };
    assert!(matches!(
        backend.fade_intent(&unrouted),
        Err(AudioError::NoSuchNamedHandle)
    ));
    // maintenance runs without disturbing the looping handle
    backend.maintain(16);
    assert!(backend.fade_intent(&VolumeFadeEvent {
        name: "pine".to_string(),
        start: 0,
        end: 1000,
        duration_ms: 1000,
    })
    .is_ok());
}

#[test]
fn both_backends_realize_the_same_event_contract() {
    let mut catalog = SampleMap::new();
    catalog.insert(
        "pine_trees.ogg".to_string(),
        SampleInfo { frames: 480_000, channels: 2, sample_rate: 48_000 },
    );
    let mut graph = GraphBackend::new();
    exercise_shared_contract(&mut graph, &catalog);
    assert_eq!(graph.handles.len(), 1);
    let mut buffer = BufferBackend::new();
    exercise_shared_contract(&mut buffer, &catalog);
    assert_eq!(buffer.handles.len(), 1);
}
