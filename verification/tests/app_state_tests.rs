use gaucho_tracker::app_state::AppState;
use gaucho_tracker::events::TrackerEvent;
use gaucho_tracker::model::Track;

fn create_test_tracks() -> Vec<Track> {
    vec![
        Track { name: "Kick".to_string(), sample: "kick.wav".to_string(), volume: 1000 },
        Track { name: "Snare".to_string(), sample: "snare.wav".to_string(), volume: 800 },
        Track { name: "HiHat".to_string(), sample: "hihat.wav".to_string(), volume: 500 },
    ]
}

#[test]
fn lib_test_app_state_creation() {
    let app = AppState::new(4, 16);
    assert_eq!(app.num_tracks(), 4);
    assert_eq!(app.num_steps(), 16);
    assert_eq!(app.is_playing, false);
    assert_eq!(app.current_step, 0);
}

#[test]
fn tests_test_app_state_creation() {
    let app = AppState::new(4, 16);
    assert_eq!(app.num_tracks(), 4);
    assert_eq!(app.num_steps(), 16);
    assert_eq!(app.is_playing, false);
    assert_eq!(app.current_step, 0);
}

#[test]
fn lib_test_toggle_step() {
    let mut app = AppState::new(2, 8);
    app.selected_track = 0;
    app.selected_step = 0;

    // Initially false
    assert_eq!(app.steps[0][0], false);

    // Toggle to true
    app.toggle_step();
    assert_eq!(app.steps[0][0], true);

    // Toggle back to false
    app.toggle_step();
    assert_eq!(app.steps[0][0], false);
}

#[test]
fn tests_test_toggle_step() {
    let mut app = AppState::new(2, 8);
    app.selected_track = 0;
    app.selected_step = 0;

    assert_eq!(app.steps[0][0], false);

    app.toggle_step();
    assert_eq!(app.steps[0][0], true);

    app.toggle_step();
    assert_eq!(app.steps[0][0], false);
}

#[test]
fn lib_test_cursor_movement() {
    let mut app = AppState::new(3, 8);
    assert_eq!(app.selected_track, 0);
    assert_eq!(app.selected_step, 0);

    app.move_cursor_right();
    assert_eq!(app.selected_step, 1);

    app.move_cursor_down();
    assert_eq!(app.selected_track, 1);

    app.move_cursor_left();
    assert_eq!(app.selected_step, 0);

    app.move_cursor_up();
    assert_eq!(app.selected_track, 0);
}

#[test]
fn tests_test_cursor_movement() {
    let mut app = AppState::new(3, 8);
    assert_eq!(app.selected_track, 0);
    assert_eq!(app.selected_step, 0);

    app.move_cursor_right();
    assert_eq!(app.selected_step, 1);

    app.move_cursor_down();
    assert_eq!(app.selected_track, 1);

    app.move_cursor_left();
    assert_eq!(app.selected_step, 0);

    app.move_cursor_up();
    assert_eq!(app.selected_track, 0);
}

#[test]
fn test_app_state_with_tracks() {
    let tracks = create_test_tracks();
    let app = AppState::new(3, 16).with_tracks(tracks);

    assert_eq!(app.track_names.len(), 3);
    assert_eq!(app.track_names[0], "Kick");
    assert_eq!(app.track_names[1], "Snare");
    assert_eq!(app.track_names[2], "HiHat");

    assert_eq!(app.get_track_sample(0), Some("kick.wav"));
    assert_eq!(app.get_track_sample(1), Some("snare.wav"));
    assert_eq!(app.get_track_volume(0), Some(1000));
    assert_eq!(app.get_track_volume(1), Some(800));
}

#[test]
fn test_app_state_with_sample_dir() {
    let app = AppState::new(4, 16).with_sample_dir("test_samples".to_string());

    assert_eq!(app.num_tracks(), 4);
    assert_eq!(app.num_steps(), 16);
}

#[test]
fn test_bpm_change() {
    let mut app = AppState::new(4, 16);
    assert_eq!(app.bpm, 120); // default BPM

    let token = app.subscribe_to_events();

    app.set_bpm(140);
    assert_eq!(app.bpm, 140);

    let events: Vec<u32> = app
        .take_events(token)
        .into_iter()
        .filter_map(|e| match e {
            TrackerEvent::BpmChanged(b) => Some(b),
            _ => None,
        })
        .collect();
    assert_eq!(events.len(), 1);
    assert_eq!(events[0], 140);
}

#[test]
fn test_cursor_movement_bounds() {
    let mut app = AppState::new(2, 4);

    app.selected_track = 0;
    app.selected_step = 0;

    // Try to move left (should stay at 0)
    app.move_cursor_left();
    assert_eq!(app.selected_step, 0);

    // Try to move up (should stay at 0)
    app.move_cursor_up();
    assert_eq!(app.selected_track, 0);

    // Move to the bottom-right corner
    app.selected_track = 1;
    app.selected_step = 3;

    // Try to move right (should stay at 3)
    app.move_cursor_right();
    assert_eq!(app.selected_step, 3);

    // Try to move down (should stay at 1)
    app.move_cursor_down();
    assert_eq!(app.selected_track, 1);
}

#[test]
fn test_event_subscription_and_emission() {
    let mut app = AppState::new(2, 4);

    let token = app.subscribe_to_events();

    app.emit_event(TrackerEvent::BpmChanged(130));
    app.emit_event(TrackerEvent::StepTriggered(0, 1));
    app.emit_event(TrackerEvent::PlaybackStateChanged(true));
    app.emit_event(TrackerEvent::PatternChanged);
    app.emit_event(TrackerEvent::TrackVolumeChanged(1, 750));

    let collected = app.take_events(token);
    assert_eq!(collected.len(), 5);
    assert_eq!(collected[0], TrackerEvent::BpmChanged(130));
    assert_eq!(collected[1], TrackerEvent::StepTriggered(0, 1));
    assert_eq!(collected[2], TrackerEvent::PlaybackStateChanged(true));
    assert_eq!(collected[3], TrackerEvent::PatternChanged);
    assert_eq!(collected[4], TrackerEvent::TrackVolumeChanged(1, 750));
}

#[test]
fn test_volume_changes() {
    let tracks = create_test_tracks();
    let mut app = AppState::new(3, 16).with_tracks(tracks);

    let token = app.subscribe_to_events();

    // Test getting volume
    assert_eq!(app.get_track_volume(0), Some(1000));
    assert_eq!(app.get_track_volume(1), Some(800));
    assert_eq!(app.get_track_volume(2), Some(500));

    // Test setting volume
    app.set_track_volume(1, 600).unwrap();
    assert_eq!(app.get_track_volume(1), Some(600));

    // Test clamping of volume values
    app.set_track_volume(2, 1500).unwrap(); // Should be clamped to full scale
    assert_eq!(app.get_track_volume(2), Some(1000));

    app.set_track_volume(0, -200).unwrap(); // Should be clamped to silence
    assert_eq!(app.get_track_volume(0), Some(0));

    // Check that we got the right events
    let collected: Vec<(usize, u32)> = app
        .take_events(token)
        .into_iter()
        .filter_map(|e| match e {
            TrackerEvent::TrackVolumeChanged(t, v) => Some((t, v)),
            _ => None,
        })
        .collect();
    assert_eq!(collected.len(), 3);
    assert_eq!(collected[0], (1, 600));
    assert_eq!(collected[1], (2, 1000));
    assert_eq!(collected[2], (0, 0));

    // Test invalid track index
    assert!(app.set_track_volume(10, 500).is_err());
}

#[test]
fn test_toggle_step_events() {
    let mut app = AppState::new(2, 4);

    let token = app.subscribe_to_events();

    // Manually toggle a step and emit event
    let t = app.selected_track;
    let s = app.selected_step;
    app.steps[t][s] = !app.steps[t][s];
    app.emit_event(TrackerEvent::PatternChanged);

    // Verify event was received
    let collected: Vec<TrackerEvent> = app
        .take_events(token)
        .into_iter()
        .filter(|e| matches!(e, TrackerEvent::PatternChanged))
        .collect();
    assert_eq!(collected.len(), 1);
    assert!(matches!(collected[0], TrackerEvent::PatternChanged));

    // Check that step was actually toggled
    assert_eq!(app.steps[0][0], true);

    // Toggle it back manually
    let t = app.selected_track;
    let s = app.selected_step;
    app.steps[t][s] = !app.steps[t][s];
    assert_eq!(app.steps[0][0], false);
}

#[test]
fn test_get_track_info() {
    let tracks = create_test_tracks();
    let app = AppState::new(3, 16).with_tracks(tracks);

    // Test in-range indices
    assert_eq!(app.get_track_sample(0), Some("kick.wav"));
    assert_eq!(app.get_track_sample(1), Some("snare.wav"));
    assert_eq!(app.get_track_sample(2), Some("hihat.wav"));

    // Test out-of-range indices
    assert_eq!(app.get_track_sample(3), None);
    assert_eq!(app.get_track_sample(100), None);

    // Test volume retrieval
    assert_eq!(app.get_track_volume(0), Some(1000));
    assert_eq!(app.get_track_volume(1), Some(800));
    assert_eq!(app.get_track_volume(2), Some(500));
    assert_eq!(app.get_track_volume(3), None);
}

#[test]
fn test_toggle_round_trip_event_log() {
    // Toggle twice from a fresh state: the grid cell returns to its prior
    // value and the event log holds exactly two pattern-change events.
    let mut app = AppState::new(2, 8);
    let token = app.subscribe_to_events();

    app.toggle_step();
    assert_eq!(app.steps[0][0], true);
    app.toggle_step();
    assert_eq!(app.steps[0][0], false);

    let collected = app.take_events(token);
    assert_eq!(collected.len(), 2);
    assert!(matches!(collected[0], TrackerEvent::PatternChanged));
    assert!(matches!(collected[1], TrackerEvent::PatternChanged));
}

#[test]
fn test_toggle_keeps_grid_shape() {
    let mut app = AppState::new(3, 5);
    app.selected_track = 2;
    app.selected_step = 4;
    for _ in 0..7 {
        app.toggle_step();
        assert_eq!(app.num_tracks(), 3);
        assert_eq!(app.num_steps(), 5);
        for row in &app.steps {
            assert_eq!(row.len(), 5);
        }
    }
    // An odd number of toggles leaves the cell flipped.
    assert_eq!(app.steps[2][4], true);
}

#[test]
fn test_toggle_playback_and_stop_resets_step() {
    let mut app = AppState::new(1, 4);
    app.initialize_sequencer(false).unwrap();

    app.toggle_playback();
    assert!(app.is_playing);
    assert!(app.sequencer.as_ref().unwrap().is_playing());

    app.toggle_playback();
    assert!(!app.is_playing);
    assert_eq!(app.current_step, 0);
    assert_eq!(app.sequencer.as_ref().unwrap().current_step(), 0);
}

#[test]
fn test_test_track_sound_errors() {
    let mut app = AppState::new(2, 4);
    // No audio yet: in-range track fails with the audio error.
    assert!(app.test_track_sound(0).is_err());
    // Out-of-range track fails as well.
    assert!(app.test_track_sound(99).is_err());
}

#[test]
fn test_toggle_step_while_playing_rebuilds_sequencer() {
    // Editing the grid during playback stops the sequencer, rebuilds it
    // over the new grid at the same tempo, and restarts it; the bus sees
    // the edit, the stop and the restart, in that order.
    let mut app = AppState::new(2, 4);
    app.initialize_sequencer(false).unwrap();
    app.set_bpm(200);
    app.toggle_playback();
    assert!(app.is_playing);

    let token = app.subscribe_to_events();
    app.toggle_step();

    assert_eq!(app.steps[0][0], true);
    let seq = app.sequencer.as_ref().unwrap();
    assert_eq!(seq.get_bpm(), 200);
    assert!(seq.is_playing());
    assert_eq!(seq.current_step(), 0);
    assert_eq!(seq.get_pattern()[0][0], true);

    let seen = app.take_events(token);
    assert_eq!(
        seen,
        vec![
            TrackerEvent::PatternChanged,
            TrackerEvent::PlaybackStateChanged(false),
            TrackerEvent::PlaybackStateChanged(true),
        ],
    );
}

#[test]
fn test_process_sequencer_events_reads_playhead() {
    let mut app = AppState::new(1, 4);
    app.initialize_sequencer(false).unwrap();
    app.toggle_playback();

    // Advance the engine as the timing loop would.
    {
        let gaucho_tracker::app_state::AppState { sequencer, event_bus, .. } = &mut app;
        let seq = sequencer.as_mut().unwrap();
        seq.advance_step(event_bus);
        seq.advance_step(event_bus);
    }

    app.process_sequencer_events();
    assert_eq!(app.current_step, 2);
    // The grid is empty, so no triggers were collected.
    assert!(app.trigger_events.is_empty());
}

#[test]
fn test_pump_routes_triggers_and_volumes_to_audio() {
    // The full path inside the engine: edit a cell, play, advance a step,
    // and the trigger lands on the audio model's voice; a volume change
    // travels the same way.
    let tracks = vec![Track {
        name: "Kick".to_string(),
        sample: "kick.wav".to_string(),
        volume: 900,
    }];
    let datas: Vec<Option<Vec<u8>>> = vec![Some(vec![0u8, 1, 2, 3])];

    let mut app = AppState::new(1, 2).with_tracks(tracks);
    app.initialize_audio(&datas).unwrap();
    app.initialize_sequencer(true).unwrap();

    app.toggle_step(); // activate cell (0, 0)
    app.toggle_playback();
    {
        let gaucho_tracker::app_state::AppState { sequencer, event_bus, .. } = &mut app;
        sequencer.as_mut().unwrap().advance_step(event_bus);
    }
    app.pump_audio_events();

    let connector = app.audio.as_ref().unwrap();
    let voice = connector.player.voices[0].as_ref().unwrap();
    assert_eq!(voice.queue, vec![0]);

    app.set_track_volume(0, 250).unwrap();
    app.pump_audio_events();
    let connector = app.audio.as_ref().unwrap();
    assert_eq!(connector.player.voices[0].as_ref().unwrap().volume, 250);
}
