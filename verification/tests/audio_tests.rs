use gaucho_tracker::audio::{AudioError, SamplePlayer};
use gaucho_tracker::connector::{
    apply_audio_command, route_event, AudioCommand, AudioConnector, EffectConfig,
};
use gaucho_tracker::effects::SampleEffect;
use gaucho_tracker::events::{EventBus, TrackerEvent};
use gaucho_tracker::model::{FxEntry, PatternMeta, Track};
use gaucho_tracker::sequencer::{Sequencer, TriggerEvent};

/// The bytes of a minimal WAV file: a 44-byte header and no data.
fn test_wav_bytes() -> Vec<u8> {
    vec![
        // RIFF header
        b'R', b'I', b'F', b'F', //
        36, 0, 0, 0, // file size - 8
        b'W', b'A', b'V', b'E', //
        b'f', b'm', b't', b' ', //
        16, 0, 0, 0, // fmt chunk length
        1, 0, // PCM
        1, 0, // mono
        0x44, 0xAC, 0, 0, // 44100 Hz
        0x88, 0x58, 0x01, 0, // byte rate
        2, 0, // block align
        16, 0, // bits per sample
        b'd', b'a', b't', b'a', //
        0, 0, 0, 0, // data size
    ]
}

fn test_tracks() -> Vec<Track> {
    vec![
        Track { name: "Kick".to_string(), sample: "kick.wav".to_string(), volume: 1000 },
        Track { name: "Snare".to_string(), sample: "snare.wav".to_string(), volume: 800 },
        Track { name: "HiHat".to_string(), sample: "hihat.wav".to_string(), volume: 700 },
    ]
}

fn test_datas() -> Vec<Option<Vec<u8>>> {
    vec![Some(test_wav_bytes()), Some(test_wav_bytes()), Some(test_wav_bytes())]
}

#[test]
fn test_connector_creation() {
    let connector = AudioConnector::new("./samples".to_string());
    assert!(!connector.is_active());
}

#[test]
fn test_connector_lifecycle() {
    let tracks = test_tracks();
    let datas = test_datas();

    // Test lifecycle: create -> initialize -> process triggers -> deactivate
    let mut connector = AudioConnector::new("samples".to_string());

    // Test initial state
    assert!(!connector.is_active());

    // Test initialization
    let result = connector.initialize(&tracks, &datas);
    assert!(result.is_ok());
    assert!(connector.is_active());

    // Test trigger processing
    let event = TriggerEvent { track_idx: 0, step_idx: 0 };
    let _ = connector.process_trigger(&event);

    // Test volume control
    let _ = connector.set_track_volume(0, 750);

    // Test deactivation
    connector.deactivate();
    assert!(!connector.is_active());

    // Test that trigger processing does nothing when inactive
    let result = connector.process_trigger(&event);
    assert!(result.is_ok());
}

#[test]
fn test_process_trigger_with_invalid_track() {
    let tracks = test_tracks();
    let datas = test_datas();

    let mut connector = AudioConnector::new("samples".to_string());
    let _ = connector.initialize(&tracks, &datas);

    // Test with a track index that doesn't exist
    let event = TriggerEvent { track_idx: 999, step_idx: 0 };
    let result = connector.process_trigger(&event);

    // Should succeed without error (just won't play anything)
    assert!(result.is_ok());
}

#[test]
fn test_connector_sequencer_integration() {
    let tracks = test_tracks();
    let datas = test_datas();

    let mut connector = AudioConnector::new("samples".to_string());
    let _ = connector.initialize(&tracks, &datas);

    // Create a minimal sequencer and a bus for it
    let dummy_pattern = vec![vec![true, false]];
    let _dummy_sequencer = Sequencer::new(120, dummy_pattern).unwrap();
    let mut bus = EventBus::new();

    // Test connecting to the sequencer's bus
    let success = connector.connect_to_sequencer(&mut bus);
    assert!(success);
    assert!(connector.is_active());

    // Clean up
    connector.deactivate();
}

#[test]
fn test_sample_player_creation() {
    let player = SamplePlayer::new("./samples".to_string());
    assert!(!player.is_active());
}

#[test]
fn lib_test_error_handling() {
    let mut player = SamplePlayer::new("samples".to_string());

    // A sample whose file could not be read fails to load.
    let result = player.load_sample("nonexistent", "nonexistent.wav", None);
    assert!(result.is_err());

    match result {
        Err(AudioError::SampleLoadError(_, _)) => {
            // This is the expected error type
        },
        Err(e) => {
            panic!("Expected SampleLoadError, got {:?}", e);
        },
        _ => {
            panic!("Expected an error but got Ok");
        },
    }
}

#[test]
fn tests_test_error_handling() {
    let mut player = SamplePlayer::new("samples".to_string());

    let result = player.load_sample("nonexistent", "nonexistent.wav", None);
    assert!(result.is_err());

    match result {
        Err(AudioError::SampleLoadError(_, _)) => {},
        Err(e) => {
            panic!("Expected SampleLoadError, got {:?}", e);
        },
        _ => {
            panic!("Expected an error but got Ok");
        },
    }
}

#[test]
fn test_find_or_load_sample() {
    let mut player = SamplePlayer::new("samples".to_string());

    // First load should succeed
    let idx1 = player
        .find_or_load_sample(&"Kick".to_string(), "kick.wav", Some(test_wav_bytes()))
        .unwrap();

    // Second load of the same sample should return the same index
    let idx2 = player
        .find_or_load_sample(&"Kick".to_string(), "kick.wav", Some(test_wav_bytes()))
        .unwrap();
    assert_eq!(
        idx1, idx2,
        "Should return the same sample index when loading the same sample twice"
    );
}

#[test]
fn test_initialize_dedupes_samples() {
    // Two tracks named alike share one table entry.
    let tracks = vec![
        Track { name: "Kick".to_string(), sample: "kick.wav".to_string(), volume: 1000 },
        Track { name: "Kick".to_string(), sample: "kick.wav".to_string(), volume: 500 },
    ];
    let datas = vec![Some(test_wav_bytes()), None];
    let mut player = SamplePlayer::new("samples".to_string());
    // The second track's file is unreadable, but its name is already
    // loaded by the first, so initialization succeeds.
    player.initialize_with_tracks(&tracks, &datas).unwrap();
    assert_eq!(player.samples.len(), 1);
    assert!(player.is_active());
}

#[test]
fn test_initialize_missing_file_fails() {
    let tracks = test_tracks();
    let datas = vec![Some(test_wav_bytes()), None, Some(test_wav_bytes())];
    let mut player = SamplePlayer::new("samples".to_string());
    let r = player.initialize_with_tracks(&tracks, &datas);
    assert!(matches!(r, Err(AudioError::SampleLoadError(_, _))));
    assert!(!player.is_active());
}

#[test]
fn test_retrigger_cuts_playing_voice() {
    // Two triggers on one track in close succession: the second replaces
    // the first — the voice queue holds exactly the latest start.
    let tracks = test_tracks();
    let datas = test_datas();
    let mut player = SamplePlayer::new("samples".to_string());
    player.initialize_with_tracks(&tracks, &datas).unwrap();

    let event = TriggerEvent { track_idx: 0, step_idx: 0 };
    player.process_trigger(&event).unwrap();
    player.process_trigger(&event).unwrap();

    let voice = player.voices[0].as_ref().unwrap();
    assert_eq!(voice.queue.len(), 1);
    assert_eq!(voice.queue[0], 0);
}

#[test]
fn test_player_volume_and_stop_all() {
    let tracks = test_tracks();
    let datas = test_datas();
    let mut player = SamplePlayer::new("samples".to_string());

    // Before a voice exists, a volume change fails.
    assert!(player.set_track_volume(0, 500).is_err());

    player.initialize_with_tracks(&tracks, &datas).unwrap();

    // Clamped above and below.
    player.set_track_volume(0, 2000).unwrap();
    assert_eq!(player.voices[0].as_ref().unwrap().volume, 1000);
    player.set_track_volume(0, -5).unwrap();
    assert_eq!(player.voices[0].as_ref().unwrap().volume, 0);

    // Queue something, then stop everything.
    player.process_trigger(&TriggerEvent { track_idx: 1, step_idx: 0 }).unwrap();
    assert_eq!(player.voices[1].as_ref().unwrap().queue.len(), 1);
    player.stop_all();
    assert_eq!(player.voices[1].as_ref().unwrap().queue.len(), 0);
}

#[test]
fn test_inactive_player_drops_triggers() {
    let mut player = SamplePlayer::new("samples".to_string());
    let r = player.process_trigger(&TriggerEvent { track_idx: 0, step_idx: 0 });
    assert!(r.is_ok());
    assert!(player.voices.is_empty());
}

#[test]
fn test_route_event_cases() {
    assert!(matches!(
        route_event(&TrackerEvent::StepTriggered(2, 5)),
        Some(AudioCommand::TriggerSample(2, 5)),
    ));
    assert!(matches!(
        route_event(&TrackerEvent::TrackVolumeChanged(1, 750)),
        Some(AudioCommand::SetTrackVolume(1, 750)),
    ));
    assert!(route_event(&TrackerEvent::PatternChanged).is_none());
    assert!(route_event(&TrackerEvent::BpmChanged(120)).is_none());
    assert!(route_event(&TrackerEvent::PlaybackStateChanged(true)).is_none());
}

#[test]
fn test_apply_audio_command_lifecycle() {
    let mut player = SamplePlayer::new("samples".to_string());
    let keep = apply_audio_command(
        &mut player,
        AudioCommand::Initialize(test_tracks(), test_datas()),
    );
    assert!(keep);
    assert!(player.is_active());

    let keep = apply_audio_command(&mut player, AudioCommand::TriggerSample(0, 0));
    assert!(keep);
    assert_eq!(player.voices[0].as_ref().unwrap().queue.len(), 1);

    let keep = apply_audio_command(&mut player, AudioCommand::SetTrackVolume(0, 1500));
    assert!(keep);
    assert_eq!(player.voices[0].as_ref().unwrap().volume, 1000);

    let keep = apply_audio_command(&mut player, AudioCommand::StopAll);
    assert!(keep);
    assert_eq!(player.voices[0].as_ref().unwrap().queue.len(), 0);

    let keep = apply_audio_command(&mut player, AudioCommand::Deactivate);
    assert!(!keep);
    assert!(!player.is_active());
}

#[test]
fn test_configure_effects_from_metadata() {
    // One reverse entry on track 1, one non-reverse entry, one unparsable
    // key: exactly one Reverse lands on track 1.
    let mut fx: Vec<(String, FxEntry)> = Vec::new();
    fx.push(("1:3".to_string(), FxEntry { retrigger: None, reverse: Some(true) }));
    fx.push(("0:2".to_string(), FxEntry { retrigger: Some(4), reverse: None }));
    fx.push(("nonsense".to_string(), FxEntry { retrigger: None, reverse: Some(true) }));
    let metas = vec![PatternMeta { track_map: Vec::new(), fx }];

    let mut connector = AudioConnector::new("samples".to_string());
    connector.configure_effects(&metas).unwrap();

    let effects = connector.player.processor.get_effects(&1).unwrap();
    assert_eq!(effects.len(), 1);
    assert!(matches!(effects[0], SampleEffect::Reverse));
    assert!(connector.player.processor.get_effects(&0).is_none());
}

#[test]
fn test_effect_configs_from_meta_order() {
    let mut fx: Vec<(String, FxEntry)> = Vec::new();
    fx.push(("2:0".to_string(), FxEntry { retrigger: None, reverse: Some(true) }));
    fx.push(("0:1".to_string(), FxEntry { retrigger: None, reverse: Some(true) }));
    let metas = vec![PatternMeta { track_map: Vec::new(), fx }];
    let configs: Vec<EffectConfig> =
        gaucho_tracker::connector::effect_configs_from_meta(&metas);
    assert_eq!(configs.len(), 2);
    assert_eq!(configs[0].track_idx, 2);
    assert_eq!(configs[1].track_idx, 0);
}
