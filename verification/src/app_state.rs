//! The application façade: the canonical pattern grid, the cursor, the
//! transport flag and tempo, the track configurations, the event bus, and
//! handles to the sequencer and the audio connector.
//!
//! All user intents go through these methods; each one says exactly what
//! it changes and what it broadcasts.  The cursor can never leave the
//! grid, a toggle is its own inverse, and volumes are stored clamped —
//! stated here and proved.

use vstd::prelude::*;

use crate::audio::clamp_permille;
use crate::connector::AudioConnector;
use crate::events::{emitted, emitted_all, EventBus, TrackerEvent};
use crate::model::Track;
use crate::sequencer::{grid_view, pattern_valid, Sequencer, TriggerEvent};

verus! {

/// The grid with the cell at `(t, s)` flipped.
pub open spec fn toggle_cell(g: Seq<Seq<bool>>, t: int, s: int) -> Seq<Seq<bool>> {
    g.update(t, g[t].update(s, !g[t][s]))
}

/// Toggling a cell keeps the grid's shape: as many tracks as before, each
/// of its old length.
pub proof fn lemma_toggle_preserves_shape(g: Seq<Seq<bool>>, t: int, s: int)
    requires
        0 <= t < g.len(),
        0 <= s < g[t].len(),
    ensures
        toggle_cell(g, t, s).len() == g.len(),
        forall|i: int| 0 <= i < g.len() ==> #[trigger] toggle_cell(g, t, s)[i].len() == g[i].len(),
{
}

/// Toggling the same cell twice restores the grid: `toggle_cell` is an
/// involution.
pub proof fn lemma_toggle_involution(g: Seq<Seq<bool>>, t: int, s: int)
    requires
        0 <= t < g.len(),
        0 <= s < g[t].len(),
    ensures
        toggle_cell(toggle_cell(g, t, s), t, s) == g,
{
    assert(toggle_cell(toggle_cell(g, t, s), t, s) =~~= g);
}

/// A sequence of cell toggles, applied in order.
pub open spec fn apply_toggles(g: Seq<Seq<bool>>, ops: Seq<(int, int)>) -> Seq<Seq<bool>>
    decreases ops.len(),
{
    if ops.len() == 0 {
        g
    } else {
        apply_toggles(toggle_cell(g, ops[0].0, ops[0].1), ops.skip(1))
    }
}

/// After any sequence of toggles the grid is still as many tracks of the
/// same lengths as before.
pub proof fn lemma_toggles_preserve_shape(g: Seq<Seq<bool>>, ops: Seq<(int, int)>)
    requires
        forall|k: int|
            0 <= k < ops.len() ==> 0 <= (#[trigger] ops[k]).0 < g.len() && 0 <= ops[k].1
                < g[ops[k].0].len(),
    ensures
        apply_toggles(g, ops).len() == g.len(),
        forall|i: int| 0 <= i < g.len() ==> #[trigger] apply_toggles(g, ops)[i].len() == g[i].len(),
    decreases ops.len(),
{
    if ops.len() > 0 {
        let g1 = toggle_cell(g, ops[0].0, ops[0].1);
        lemma_toggle_preserves_shape(g, ops[0].0, ops[0].1);
        assert forall|k: int|
            0 <= k < ops.skip(1).len() implies 0 <= (#[trigger] ops.skip(1)[k]).0 < g1.len() && 0
            <= ops.skip(1)[k].1 < g1[ops.skip(1)[k].0].len() by {
            assert(ops.skip(1)[k] == ops[k + 1]);
        }
        lemma_toggles_preserve_shape(g1, ops.skip(1));
    }
}

/// The state of the application.
pub struct AppState {
    /// Step pattern data for all tracks, indexed `steps[track][step]`.
    pub steps: Vec<Vec<bool>>,
    /// Currently selected track (the cursor's row).
    pub selected_track: usize,
    /// Currently selected step (the cursor's column).
    pub selected_step: usize,
    /// Names of each track, for display.
    pub track_names: Vec<String>,
    /// Whether the sequencer is playing.
    pub is_playing: bool,
    /// The playhead position last read from the sequencer.
    pub current_step: usize,
    /// The sequencer engine, once initialized.
    pub sequencer: Option<Sequencer>,
    /// Triggers last collected from the sequencer.
    pub trigger_events: Vec<TriggerEvent>,
    /// Current tempo in beats per minute.
    pub bpm: u32,
    /// The audio connector, once initialized.
    pub audio: Option<AudioConnector>,
    /// Directory sample files are resolved against.
    pub sample_dir: String,
    /// Track configurations.
    pub tracks: Vec<Track>,
    /// Event bus all components publish on.
    pub event_bus: EventBus,
}

impl AppState {
    /// A well-formed application state: a usable rectangular grid, the
    /// cursor inside it, a positive tempo, and a well-formed sequencer when
    /// one exists.
    pub open spec fn wf(self) -> bool {
        &&& pattern_valid(grid_view(self.steps@))
        &&& (self.selected_track as int) < self.steps@.len()
        &&& (self.selected_step as int) < self.steps@[0]@.len()
        &&& self.bpm >= 1
        &&& (self.sequencer matches Some(s) ==> s.wf())
    }

    /// A fresh state: an all-inactive grid of the given shape, cursor at
    /// the origin, default tempo of 120 beats per minute, stopped, no
    /// sequencer and no audio yet.
    pub fn new(num_tracks: usize, num_steps: usize) -> (app: AppState)
        requires
            num_tracks >= 1,
            num_steps >= 1,
        ensures
            app.wf(),
            app.steps@.len() == num_tracks,
            forall|t: int|
                0 <= t < num_tracks ==> (#[trigger] app.steps@[t])@.len() == num_steps,
            forall|t: int, s: int|
                0 <= t < num_tracks && 0 <= s < num_steps ==> !(#[trigger] app.steps@[t]@[s]),
            app.selected_track == 0,
            app.selected_step == 0,
            app.track_names@ == Seq::<String>::empty(),
            !app.is_playing,
            app.current_step == 0,
            app.sequencer is None,
            app.trigger_events@ == Seq::<TriggerEvent>::empty(),
            app.bpm == 120,
            app.audio is None,
            app.sample_dir@ == "samples"@,
            app.tracks@ == Seq::<Track>::empty(),
            app.event_bus@ == Seq::<Seq<TrackerEvent>>::empty(),
    {
        let mut steps: Vec<Vec<bool>> = Vec::new();
        let mut t: usize = 0;
        while t < num_tracks
            invariant
                t <= num_tracks,
                steps@.len() == t,
                forall|i: int| 0 <= i < t ==> (#[trigger] steps@[i])@.len() == num_steps,
                forall|i: int, s: int|
                    0 <= i < t && 0 <= s < num_steps ==> !(#[trigger] steps@[i]@[s]),
            decreases num_tracks - t,
        {
            let mut row: Vec<bool> = Vec::new();
            let mut s: usize = 0;
            while s < num_steps
                invariant
                    s <= num_steps,
                    row@.len() == s,
                    forall|j: int| 0 <= j < s ==> !(#[trigger] row@[j]),
                decreases num_steps - s,
            {
                row.push(false);
                s = s + 1;
            }
            steps.push(row);
            t = t + 1;
        }
        AppState {
            steps,
            selected_track: 0,
            selected_step: 0,
            track_names: Vec::new(),
            is_playing: false,
            current_step: 0,
            sequencer: None,
            trigger_events: Vec::new(),
            bpm: 120,
            audio: None,
            sample_dir: "samples".to_owned(),
            tracks: Vec::new(),
            event_bus: EventBus::new(),
        }
    }

    /// Bind the directory sample files are loaded from.
    pub fn with_sample_dir(self, sample_dir: String) -> (app: AppState)
        ensures
            app == (AppState { sample_dir, ..self }),
    {
        AppState { sample_dir, ..self }
    }

    /// Bind the track configurations, recording their names for display.
    pub fn with_tracks(self, tracks: Vec<Track>) -> (app: AppState)
        ensures
            app.tracks == tracks,
            app.track_names@.len() == tracks@.len(),
            forall|i: int|
                0 <= i < tracks@.len() ==> (#[trigger] app.track_names@[i])@ == tracks@[i].name@,
            app.steps == self.steps,
            app.selected_track == self.selected_track,
            app.selected_step == self.selected_step,
            app.is_playing == self.is_playing,
            app.current_step == self.current_step,
            app.sequencer == self.sequencer,
            app.trigger_events == self.trigger_events,
            app.bpm == self.bpm,
            app.audio == self.audio,
            app.sample_dir == self.sample_dir,
            app.event_bus == self.event_bus,
    {
        let mut track_names: Vec<String> = Vec::new();
        let n = tracks.len();
        let mut i: usize = 0;
        while i < n
            invariant
                n == tracks@.len(),
                i <= n,
                track_names@.len() == i,
                forall|j: int|
                    0 <= j < i ==> (#[trigger] track_names@[j])@ == tracks@[j].name@,
            decreases n - i,
        {
            track_names.push(tracks[i].name.clone());
            i = i + 1;
        }
        AppState { tracks, track_names, ..self }
    }

    /// Flip the cell under the cursor and announce the edit.  When a
    /// sequencer exists it is rebuilt over the new grid with its tempo
    /// kept, so the snapshot it walks stays current; if playback was
    /// running, the rebuilt sequencer is started again (from the first
    /// step, as a stop-and-restart does).
    pub fn toggle_step(&mut self)
        requires
            old(self).wf(),
        ensures
            final(self).wf(),
            grid_view(final(self).steps@) == toggle_cell(
                grid_view(old(self).steps@),
                old(self).selected_track as int,
                old(self).selected_step as int,
            ),
            final(self).steps@.len() == old(self).steps@.len(),
            forall|t: int|
                0 <= t < old(self).steps@.len() ==> (#[trigger] final(self).steps@[t])@.len()
                    == old(self).steps@[t]@.len(),
            final(self).selected_track == old(self).selected_track,
            final(self).selected_step == old(self).selected_step,
            final(self).is_playing == old(self).is_playing,
            final(self).bpm == old(self).bpm,
            final(self).tracks == old(self).tracks,
            final(self).track_names == old(self).track_names,
            final(self).audio == old(self).audio,
            final(self).sample_dir == old(self).sample_dir,
            old(self).sequencer is None ==> final(self).sequencer is None && emitted(
                old(self).event_bus@,
                final(self).event_bus@,
                TrackerEvent::PatternChanged,
            ),
            old(self).sequencer is Some ==> {
                &&& (final(self).sequencer matches Some(s2) && s2.bpm == old(
                    self,
                ).sequencer->Some_0.bpm && s2.current_step == 0 && s2.is_playing == old(
                    self,
                ).is_playing && grid_view(s2.pattern@) == grid_view(final(self).steps@))
                &&& (old(self).is_playing ==> emitted_all(
                    old(self).event_bus@,
                    final(self).event_bus@,
                    seq![
                        TrackerEvent::PatternChanged,
                        TrackerEvent::PlaybackStateChanged(false),
                        TrackerEvent::PlaybackStateChanged(true),
                    ],
                ))
                &&& (!old(self).is_playing ==> emitted(
                    old(self).event_bus@,
                    final(self).event_bus@,
                    TrackerEvent::PatternChanged,
                ))
            },
    {
        let t = self.selected_track;
        let s = self.selected_step;
        proof {
            let g = grid_view(self.steps@);
            assert(g[t as int].len() == g[0].len());
            assert(g[t as int] == self.steps@[t as int]@);
        }
        let cur = self.steps[t][s];
        let row = &mut self.steps[t];
        row.set(s, !cur);
        proof {
            assert(grid_view(self.steps@) =~~= toggle_cell(
                grid_view(old(self).steps@),
                t as int,
                s as int,
            ));
            assert(pattern_valid(grid_view(self.steps@)));
        }
        let ghost bus0 = self.event_bus@;
        self.event_bus.emit(TrackerEvent::PatternChanged);
        let ghost bus1 = self.event_bus@;
        let seq_bpm: Option<u32> = match &self.sequencer {
            Some(sq) => Some(sq.get_bpm()),
            None => None,
        };
        if let Some(bpm_now) = seq_bpm {
            let was_playing = self.is_playing;
            if was_playing {
                match &mut self.sequencer {
                    Some(sq) => sq.stop(&mut self.event_bus),
                    None => {
                        proof {
                            assert(false);
                        }
                    },
                }
            }
            let ghost bus2 = self.event_bus@;
            let grid = clone_grid(&self.steps);
            proof {
                assert(grid_view(grid@) =~= grid_view(self.steps@));
            }
            match Sequencer::new(bpm_now, grid) {
                Ok(new_seq) => {
                    self.sequencer = Some(new_seq);
                },
                Err(_) => {
                    proof {
                        assert(false);
                    }
                },
            }
            if was_playing {
                match &mut self.sequencer {
                    Some(sq) => sq.start(&mut self.event_bus),
                    None => {
                        proof {
                            assert(false);
                        }
                    },
                }
                proof {
                    crate::events::lemma_emitted_one(bus0, bus1, TrackerEvent::PatternChanged);
                    crate::events::lemma_emitted_all_snoc(
                        bus0,
                        bus1,
                        bus2,
                        seq![TrackerEvent::PatternChanged],
                        TrackerEvent::PlaybackStateChanged(false),
                    );
                    assert(seq![TrackerEvent::PatternChanged].push(
                        TrackerEvent::PlaybackStateChanged(false),
                    ) =~= seq![
                        TrackerEvent::PatternChanged,
                        TrackerEvent::PlaybackStateChanged(false),
                    ]);
                    crate::events::lemma_emitted_all_snoc(
                        bus0,
                        bus2,
                        self.event_bus@,
                        seq![
                            TrackerEvent::PatternChanged,
                            TrackerEvent::PlaybackStateChanged(false),
                        ],
                        TrackerEvent::PlaybackStateChanged(true),
                    );
                    assert(seq![
                        TrackerEvent::PatternChanged,
                        TrackerEvent::PlaybackStateChanged(false),
                    ].push(TrackerEvent::PlaybackStateChanged(true)) =~= seq![
                        TrackerEvent::PatternChanged,
                        TrackerEvent::PlaybackStateChanged(false),
                        TrackerEvent::PlaybackStateChanged(true),
                    ]);
                }
            }
        }
    }

    /// Move the cursor one step left; at the left border nothing moves.
    pub fn move_cursor_left(&mut self)
        requires
            old(self).wf(),
        ensures
            final(self).wf(),
            final(self).selected_step == if old(self).selected_step > 0 {
                (old(self).selected_step - 1) as usize
            } else {
                0usize
            },
            *final(self) == (AppState { selected_step: final(self).selected_step, ..*old(self) }),
    {
        if self.selected_step > 0 {
            self.selected_step = self.selected_step - 1;
        }
    }

    /// Move the cursor one step right; at the right border nothing moves.
    pub fn move_cursor_right(&mut self)
        requires
            old(self).wf(),
        ensures
            final(self).wf(),
            final(self).selected_step == if old(self).selected_step + 1 < old(
                self,
            ).steps@[0]@.len() {
                (old(self).selected_step + 1) as usize
            } else {
                old(self).selected_step
            },
            *final(self) == (AppState { selected_step: final(self).selected_step, ..*old(self) }),
    {
        let limit = self.steps[0].len();
        proof {
            assert(self.selected_step < limit);
        }
        if self.selected_step + 1 < limit {
            self.selected_step = self.selected_step + 1;
        }
    }

    /// Move the cursor one track up; at the top border nothing moves.
    pub fn move_cursor_up(&mut self)
        requires
            old(self).wf(),
        ensures
            final(self).wf(),
            final(self).selected_track == if old(self).selected_track > 0 {
                (old(self).selected_track - 1) as usize
            } else {
                0usize
            },
            *final(self) == (AppState { selected_track: final(self).selected_track, ..*old(self) }),
    {
        if self.selected_track > 0 {
            self.selected_track = self.selected_track - 1;
        }
    }

    /// Move the cursor one track down; at the bottom border nothing moves.
    pub fn move_cursor_down(&mut self)
        requires
            old(self).wf(),
        ensures
            final(self).wf(),
            final(self).selected_track == if old(self).selected_track + 1 < old(
                self,
            ).steps@.len() {
                (old(self).selected_track + 1) as usize
            } else {
                old(self).selected_track
            },
            *final(self) == (AppState { selected_track: final(self).selected_track, ..*old(self) }),
    {
        let limit = self.steps.len();
        proof {
            assert(self.selected_track < limit);
        }
        if self.selected_track + 1 < limit {
            self.selected_track = self.selected_track + 1;
        }
    }
}

impl AppState {
    /// Flip the transport: start the sequencer when stopped, stop it (and
    /// reset the playhead display) when playing.  Without a sequencer only
    /// the flag flips.
    pub fn toggle_playback(&mut self)
        requires
            old(self).wf(),
        ensures
            final(self).wf(),
            final(self).is_playing == !old(self).is_playing,
            final(self).steps == old(self).steps,
            final(self).selected_track == old(self).selected_track,
            final(self).selected_step == old(self).selected_step,
            final(self).bpm == old(self).bpm,
            final(self).tracks == old(self).tracks,
            final(self).audio == old(self).audio,
            final(self).trigger_events == old(self).trigger_events,
            old(self).sequencer is None ==> final(self).sequencer is None && final(self).event_bus == old(self).event_bus && final(self).current_step == old(
                self,
            ).current_step,
            old(self).sequencer is Some && !old(self).is_playing ==> {
                &&& final(self).sequencer == Some(
                    crate::sequencer::started(old(self).sequencer->Some_0),
                )
                &&& emitted(
                    old(self).event_bus@,
                    final(self).event_bus@,
                    TrackerEvent::PlaybackStateChanged(true),
                )
                &&& final(self).current_step == old(self).current_step
            },
            old(self).sequencer is Some && old(self).is_playing ==> {
                &&& final(self).sequencer == Some(
                    crate::sequencer::stopped(old(self).sequencer->Some_0),
                )
                &&& emitted(
                    old(self).event_bus@,
                    final(self).event_bus@,
                    TrackerEvent::PlaybackStateChanged(false),
                )
                &&& final(self).current_step == 0
            },
    {
        self.is_playing = !self.is_playing;
        let playing = self.is_playing;
        match &mut self.sequencer {
            Some(sq) => {
                if playing {
                    sq.start(&mut self.event_bus);
                } else {
                    sq.stop(&mut self.event_bus);
                    self.current_step = 0;
                }
            },
            None => {},
        }
    }

    /// Pull the sequencer's state for display: refresh the playhead
    /// position and collect any triggers it has queued; an empty batch
    /// leaves the last collected triggers in place.
    pub fn process_sequencer_events(&mut self)
        requires
            old(self).wf(),
        ensures
            final(self).wf(),
            old(self).sequencer is None ==> *final(self) == *old(self),
            old(self).sequencer is Some ==> {
                let sq = old(self).sequencer->Some_0;
                &&& final(self).current_step == sq.current_step
                &&& (final(self).sequencer matches Some(sq2) && sq2.pending@
                    == Seq::<TriggerEvent>::empty() && sq2.bpm == sq.bpm && sq2.current_step
                    == sq.current_step && sq2.is_playing == sq.is_playing && sq2.pattern
                    == sq.pattern)
                &&& final(self).trigger_events@ == if sq.pending@.len() > 0 {
                    sq.pending@
                } else {
                    old(self).trigger_events@
                }
                &&& final(self).steps == old(self).steps
                &&& final(self).event_bus == old(self).event_bus
                &&& final(self).is_playing == old(self).is_playing
                &&& final(self).selected_track == old(self).selected_track
                &&& final(self).selected_step == old(self).selected_step
                &&& final(self).bpm == old(self).bpm
                &&& final(self).tracks == old(self).tracks
                &&& final(self).audio == old(self).audio
            },
    {
        match &mut self.sequencer {
            Some(sq) => {
                let step = sq.current_step();
                let events = sq.tick();
                self.current_step = step;
                if events.len() > 0 {
                    self.trigger_events = events;
                }
            },
            None => {},
        }
    }

    /// Set the tempo and announce it; a sequencer that exists takes it
    /// over and announces it again, as the change reaches it separately.
    pub fn set_bpm(&mut self, bpm: u32)
        requires
            old(self).wf(),
            bpm >= 1,
        ensures
            final(self).wf(),
            final(self).bpm == bpm,
            old(self).sequencer is None ==> final(self).sequencer is None && emitted(
                old(self).event_bus@,
                final(self).event_bus@,
                TrackerEvent::BpmChanged(bpm),
            ),
            old(self).sequencer is Some ==> {
                &&& final(self).sequencer == Some(
                    crate::sequencer::with_bpm(old(self).sequencer->Some_0, bpm),
                )
                &&& emitted_all(
                    old(self).event_bus@,
                    final(self).event_bus@,
                    seq![TrackerEvent::BpmChanged(bpm), TrackerEvent::BpmChanged(bpm)],
                )
            },
            final(self).steps == old(self).steps,
            final(self).selected_track == old(self).selected_track,
            final(self).selected_step == old(self).selected_step,
            final(self).is_playing == old(self).is_playing,
            final(self).current_step == old(self).current_step,
            final(self).trigger_events == old(self).trigger_events,
            final(self).tracks == old(self).tracks,
            final(self).audio == old(self).audio,
    {
        self.bpm = bpm;
        let ghost bus0 = self.event_bus@;
        self.event_bus.emit(TrackerEvent::BpmChanged(bpm));
        let ghost bus1 = self.event_bus@;
        match &mut self.sequencer {
            Some(sq) => {
                sq.set_bpm(&mut self.event_bus, bpm);
                proof {
                    crate::events::lemma_emitted_one(bus0, bus1, TrackerEvent::BpmChanged(bpm));
                    crate::events::lemma_emitted_all_snoc(
                        bus0,
                        bus1,
                        self.event_bus@,
                        seq![TrackerEvent::BpmChanged(bpm)],
                        TrackerEvent::BpmChanged(bpm),
                    );
                    assert(seq![TrackerEvent::BpmChanged(bpm)].push(TrackerEvent::BpmChanged(bpm))
                        =~= seq![TrackerEvent::BpmChanged(bpm), TrackerEvent::BpmChanged(bpm)]);
                }
            },
            None => {},
        }
    }

    /// Ask for a test sound on a track: a `StepTriggered` for its first
    /// step goes out on the bus.  Fails for a track outside the grid, or
    /// when audio was never initialized.
    pub fn test_track_sound(&mut self, track_idx: usize) -> (r: Result<(), &'static str>)
        ensures
            r is Ok <==> (track_idx < old(self).steps@.len() && old(self).audio is Some),
            r is Ok ==> emitted(
                old(self).event_bus@,
                final(self).event_bus@,
                TrackerEvent::StepTriggered(track_idx, 0),
            ),
            r is Err ==> *final(self) == *old(self),
            r matches Err(m) ==> m@ == if track_idx >= old(self).steps@.len() {
                "Track index out of bounds"@
            } else {
                "Audio not initialized"@
            },
            final(self).steps == old(self).steps,
            final(self).sequencer == old(self).sequencer,
            final(self).audio == old(self).audio,
    {
        if track_idx >= self.steps.len() {
            return Err("Track index out of bounds");
        }
        if self.audio.is_none() {
            return Err("Audio not initialized");
        }
        self.event_bus.emit(TrackerEvent::StepTriggered(track_idx, 0));
        Ok(())
    }

    /// Build the sequencer over the current grid and tempo, stopped at the
    /// first step.  With `with_audio`, also wire the audio connector into
    /// the event bus; that fails when audio was never initialized, and the
    /// sequencer then still stands, ready for a retry without audio.
    pub fn initialize_sequencer(&mut self, with_audio: bool) -> (r: Result<(), &'static str>)
        requires
            old(self).wf(),
        ensures
            final(self).wf(),
            r is Ok <==> (!with_audio || old(self).audio is Some),
            final(self).sequencer matches Some(sq) && sq.bpm == old(self).bpm && sq.current_step
                == 0 && !sq.is_playing && grid_view(sq.pattern@) == grid_view(old(self).steps@),
            final(self).steps == old(self).steps,
            final(self).bpm == old(self).bpm,
            final(self).tracks == old(self).tracks,
            r is Ok && with_audio ==> (final(self).audio matches Some(c) && c.active
                && c.subscription == Some(old(self).event_bus@.len() as usize)) && final(self).event_bus@ == old(self).event_bus@.push(Seq::<TrackerEvent>::empty()),
            !with_audio ==> final(self).audio == old(self).audio && final(self).event_bus == old(
                self,
            ).event_bus,
    {
        let grid = clone_grid(&self.steps);
        proof {
            assert(grid_view(grid@) =~= grid_view(self.steps@));
        }
        match Sequencer::new(self.bpm, grid) {
            Ok(sq) => {
                self.sequencer = Some(sq);
            },
            Err(_) => {
                proof {
                    assert(false);
                }
            },
        }
        if with_audio {
            match &mut self.audio {
                Some(connector) => {
                    connector.connect_to_sequencer(&mut self.event_bus);
                    Ok(())
                },
                None => Err("Audio not initialized"),
            }
        } else {
            Ok(())
        }
    }

    /// Set the audio system up: a connector over the sample directory,
    /// initialized with the configured tracks and their sample files'
    /// bytes (`None` where a file could not be read).  On failure no
    /// connector is kept.
    pub fn initialize_audio(&mut self, datas: &Vec<Option<Vec<u8>>>) -> (r: Result<
        (),
        crate::audio::AudioError,
    >)
        requires
            datas@.len() == old(self).tracks@.len(),
        ensures
            r is Ok <==> crate::audio::init_succeeds(
                crate::audio::names_of(Seq::<crate::audio::Sample>::empty()),
                old(self).tracks@,
                datas@,
            ),
            r is Ok ==> (final(self).audio matches Some(c) && crate::connector::self_initialized(
                c,
                c,
                old(self).tracks@,
            )),
            r is Err ==> final(self).audio == old(self).audio,
            final(self).steps == old(self).steps,
            final(self).sequencer == old(self).sequencer,
            final(self).event_bus == old(self).event_bus,
            final(self).tracks == old(self).tracks,
            final(self).bpm == old(self).bpm,
    {
        let dir = self.sample_dir.clone();
        let mut connector = AudioConnector::new(dir);
        proof {
            assert(connector.player.sample_names() =~= crate::audio::names_of(
                Seq::<crate::audio::Sample>::empty(),
            ));
        }
        match connector.initialize(&self.tracks, datas) {
            Ok(()) => {
                self.audio = Some(connector);
                Ok(())
            },
            Err(e) => Err(e),
        }
    }

    /// Subscribe the audio connector to the event bus, so the sequencer's
    /// triggers reach it.  Fails when audio or sequencer is missing.
    pub fn connect_audio_to_sequencer(&mut self) -> (r: Result<(), &'static str>)
        ensures
            r is Ok <==> (old(self).audio is Some && old(self).sequencer is Some),
            r is Ok ==> (final(self).audio matches Some(c) && c.active && c.subscription == Some(
                old(self).event_bus@.len() as usize,
            )) && final(self).event_bus@ == old(self).event_bus@.push(
                Seq::<TrackerEvent>::empty(),
            ),
            r is Err ==> *final(self) == *old(self),
            final(self).steps == old(self).steps,
            final(self).sequencer == old(self).sequencer,
    {
        if self.sequencer.is_none() {
            return Err("Audio or sequencer not initialized");
        }
        match &mut self.audio {
            Some(connector) => {
                connector.connect_to_sequencer(&mut self.event_bus);
                Ok(())
            },
            None => Err("Audio or sequencer not initialized"),
        }
    }

    /// Shut the audio system down: deactivate the connector, if any, and
    /// drop it.
    pub fn cleanup_audio(&mut self)
        ensures
            final(self).audio is None,
            final(self).steps == old(self).steps,
            final(self).sequencer == old(self).sequencer,
            final(self).event_bus == old(self).event_bus,
            final(self).tracks == old(self).tracks,
            final(self).bpm == old(self).bpm,
            final(self).is_playing == old(self).is_playing,
    {
        match &mut self.audio {
            Some(connector) => {
                connector.deactivate();
            },
            None => {},
        }
        self.audio = None;
    }

    /// The number of steps per track; zero for an empty grid.
    pub fn num_steps(&self) -> (n: usize)
        ensures
            n == if self.steps@.len() == 0 {
                0int
            } else {
                self.steps@[0]@.len() as int
            },
    {
        if self.steps.len() == 0 {
            0
        } else {
            self.steps[0].len()
        }
    }

    /// The number of tracks.
    pub fn num_tracks(&self) -> (n: usize)
        ensures
            n == self.steps@.len(),
    {
        self.steps.len()
    }

    /// The sample file bound to a track, when the track exists.
    pub fn get_track_sample(&self, track_idx: usize) -> (r: Option<&str>)
        ensures
            r is Some <==> track_idx < self.tracks@.len(),
            r matches Some(s) ==> s@ == self.tracks@[track_idx as int].sample@,
    {
        if track_idx < self.tracks.len() {
            Some(self.tracks[track_idx].sample.as_str())
        } else {
            None
        }
    }

    /// A track's volume in permille, when the track exists.
    pub fn get_track_volume(&self, track_idx: usize) -> (r: Option<u32>)
        ensures
            r is Some <==> track_idx < self.tracks@.len(),
            r matches Some(v) ==> v == self.tracks@[track_idx as int].volume,
    {
        if track_idx < self.tracks.len() {
            Some(self.tracks[track_idx].volume)
        } else {
            None
        }
    }

    /// Store a track's volume, clamped into the unit interval, and
    /// broadcast exactly one `TrackVolumeChanged` with the stored value;
    /// an audio connector that is present takes the new gain as well.
    /// Fails, changing nothing, for a track index outside the
    /// configuration.
    pub fn set_track_volume(&mut self, track_idx: usize, volume: i64) -> (r: Result<
        (),
        &'static str,
    >)
        ensures
            r is Ok <==> track_idx < old(self).tracks@.len(),
            r is Ok ==> {
                &&& final(self).tracks@.len() == old(self).tracks@.len()
                &&& final(self).tracks@[track_idx as int].volume == clamp_permille(volume as int)
                &&& final(self).tracks@[track_idx as int].name == old(
                    self,
                ).tracks@[track_idx as int].name
                &&& final(self).tracks@[track_idx as int].sample == old(
                    self,
                ).tracks@[track_idx as int].sample
                &&& forall|i: int|
                    0 <= i < old(self).tracks@.len() && i != track_idx
                        ==> #[trigger] final(self).tracks@[i] == old(self).tracks@[i]
                &&& emitted(
                    old(self).event_bus@,
                    final(self).event_bus@,
                    TrackerEvent::TrackVolumeChanged(
                        track_idx,
                        clamp_permille(volume as int) as u32,
                    ),
                )
                &&& (old(self).audio is None ==> final(self).audio is None)
                &&& (old(self).audio matches Some(c) ==> final(self).audio matches Some(c2)
                    && crate::connector::volume_forwarded(c, c2, track_idx as int, volume as int))
            },
            r is Err ==> *final(self) == *old(self),
            final(self).steps == old(self).steps,
            final(self).sequencer == old(self).sequencer,
            final(self).selected_track == old(self).selected_track,
            final(self).selected_step == old(self).selected_step,
            final(self).bpm == old(self).bpm,
            final(self).is_playing == old(self).is_playing,
    {
        if track_idx >= self.tracks.len() {
            return Err("Track index out of bounds");
        }
        let clamped: u32 = if volume < 0 {
            0
        } else if volume > 1000 {
            1000
        } else {
            volume as u32
        };
        let track = &mut self.tracks[track_idx];
        track.volume = clamped;
        self.event_bus.emit(TrackerEvent::TrackVolumeChanged(track_idx, clamped));
        match &mut self.audio {
            Some(connector) => {
                let _ = connector.set_track_volume(track_idx, volume);
            },
            None => {},
        }
        Ok(())
    }

    /// The event bus all components publish on.
    pub fn get_event_bus(&self) -> (bus: &EventBus)
        ensures
            *bus == self.event_bus,
    {
        &self.event_bus
    }

    /// Register a subscriber on the bus; drain its queue with
    /// `take_events` under the returned token.
    pub fn subscribe_to_events(&mut self) -> (token: usize)
        ensures
            token == old(self).event_bus@.len(),
            final(self).event_bus@ == old(self).event_bus@.push(Seq::<TrackerEvent>::empty()),
            *final(self) == (AppState { event_bus: final(self).event_bus, ..*old(self) }),
    {
        self.event_bus.subscribe()
    }

    /// Broadcast an event to every subscriber.
    pub fn emit_event(&mut self, event: TrackerEvent)
        ensures
            emitted(old(self).event_bus@, final(self).event_bus@, event),
            *final(self) == (AppState { event_bus: final(self).event_bus, ..*old(self) }),
    {
        self.event_bus.emit(event);
    }


    /// Serve the bus events the audio connector has subscribed to: drain
    /// its queue and apply each event in order — triggers restart samples,
    /// volume changes land on voices, the rest are ignored.  Without a
    /// connected audio system nothing happens.
    pub fn pump_audio_events(&mut self)
        ensures
            final(self).steps == old(self).steps,
            final(self).selected_track == old(self).selected_track,
            final(self).selected_step == old(self).selected_step,
            final(self).track_names == old(self).track_names,
            final(self).is_playing == old(self).is_playing,
            final(self).current_step == old(self).current_step,
            final(self).sequencer == old(self).sequencer,
            final(self).trigger_events == old(self).trigger_events,
            final(self).bpm == old(self).bpm,
            final(self).sample_dir == old(self).sample_dir,
            final(self).tracks == old(self).tracks,
            old(self).audio is None ==> *final(self) == *old(self),
            old(self).audio matches Some(c) ==> match c.subscription {
                Option::<usize>::None => *final(self) == *old(self),
                Option::<usize>::Some(tok) => {
                    if (tok as int) < old(self).event_bus@.len() {
                        &&& final(self).event_bus@ == old(self).event_bus@.update(
                            tok as int,
                            Seq::<TrackerEvent>::empty(),
                        )
                        &&& (final(self).audio matches Some(c2) && crate::connector::pumped(
                            c,
                            c2,
                            old(self).event_bus@[tok as int],
                        ))
                    } else {
                        *final(self) == *old(self)
                    }
                },
            },
    {
        let token: usize = match &self.audio {
            Some(connector) => match connector.subscription {
                Some(tok) => tok,
                None => {
                    return ;
                },
            },
            None => {
                return ;
            },
        };
        if token >= self.event_bus.num_subscribers() {
            return ;
        }
        let events = self.event_bus.take_events(token);
        let ghost all = events@;
        let ghost pre_connector = self.audio->Some_0;
        let n = events.len();
        let mut k: usize = 0;
        while k < n
            invariant
                n == all.len(),
                k <= n,
                events@ == all,
                self.audio matches Some(cur) && crate::connector::pumped(
                    pre_connector,
                    cur,
                    all.subrange(0, k as int),
                ),
                self.steps == old(self).steps,
                self.selected_track == old(self).selected_track,
                self.selected_step == old(self).selected_step,
                self.track_names == old(self).track_names,
                self.is_playing == old(self).is_playing,
                self.current_step == old(self).current_step,
                self.sequencer == old(self).sequencer,
                self.trigger_events == old(self).trigger_events,
                self.bpm == old(self).bpm,
                self.sample_dir == old(self).sample_dir,
                self.tracks == old(self).tracks,
                self.event_bus@ == old(self).event_bus@.update(
                    token as int,
                    Seq::<TrackerEvent>::empty(),
                ),
            decreases n - k,
        {
            let ghost before = self.audio->Some_0;
            let e = events[k];
            match &mut self.audio {
                Some(connector) => {
                    match e {
                        TrackerEvent::StepTriggered(t, st) => {
                            let trigger = TriggerEvent { track_idx: t, step_idx: st };
                            let _ = connector.process_trigger(&trigger);
                        },
                        TrackerEvent::TrackVolumeChanged(t, v) => {
                            let _ = connector.set_track_volume(t, v as i64);
                        },
                        _ => {},
                    }
                },
                None => {
                    proof {
                        assert(false);
                    }
                },
            }
            proof {
                assert(crate::connector::one_event_effect(
                    before,
                    self.audio->Some_0,
                    all[k as int],
                ));
                crate::connector::lemma_pumped_snoc(
                    pre_connector,
                    before,
                    self.audio->Some_0,
                    all.subrange(0, k as int),
                    all[k as int],
                );
                assert(all.subrange(0, k as int).push(all[k as int]) =~= all.subrange(0, k + 1));
            }
            k = k + 1;
        }
        proof {
            assert(all.subrange(0, n as int) =~= all);
        }
    }

    /// Drain the pending events of the subscriber behind `token`, in
    /// emission order.
    pub fn take_events(&mut self, token: usize) -> (events: Vec<TrackerEvent>)
        requires
            token < old(self).event_bus@.len(),
        ensures
            events@ == old(self).event_bus@[token as int],
            final(self).event_bus@ == old(self).event_bus@.update(
                token as int,
                Seq::<TrackerEvent>::empty(),
            ),
            *final(self) == (AppState { event_bus: final(self).event_bus, ..*old(self) }),
    {
        self.event_bus.take_events(token)
    }
}

/// Copy a pattern grid cell by cell.
pub fn clone_grid(g: &Vec<Vec<bool>>) -> (r: Vec<Vec<bool>>)
    ensures
        r@.len() == g@.len(),
        forall|t: int| 0 <= t < g@.len() ==> (#[trigger] r@[t])@ == g@[t]@,
{
    let mut r: Vec<Vec<bool>> = Vec::new();
    let n = g.len();
    let mut t: usize = 0;
    while t < n
        invariant
            n == g@.len(),
            t <= n,
            r@.len() == t,
            forall|i: int| 0 <= i < t ==> (#[trigger] r@[i])@ == g@[i]@,
        decreases n - t,
    {
        let src = &g[t];
        let m = src.len();
        let mut row: Vec<bool> = Vec::new();
        let mut s: usize = 0;
        while s < m
            invariant
                m == src@.len(),
                s <= m,
                row@.len() == s,
                forall|j: int| 0 <= j < s ==> #[trigger] row@[j] == src@[j],
            decreases m - s,
        {
            row.push(src[s]);
            s = s + 1;
        }
        proof {
            assert(row@ =~= src@);
        }
        r.push(row);
        t = t + 1;
    }
    r
}

} // verus!
