//! The sequencer: tempo, playhead and pattern snapshot, advanced one step
//! at a time.
//!
//! The sequencer is a state machine.  A timing loop outside the library
//! measures wall-clock periods of `step_period_ms` milliseconds and calls
//! `advance_step` once per period; user commands arrive through
//! `apply_command` (or the direct methods it forwards to).  Every trigger
//! and state change is broadcast on the caller's event bus.

use vstd::prelude::*;

use crate::events::{emitted, emitted_all, EventBus, TrackerEvent};

verus! {

/// A trigger: the playhead crossed an active cell of the pattern,
/// identified by track and step index.
#[derive(Debug, Clone, Copy, PartialEq, Eq, Structural)]
pub struct TriggerEvent {
    pub track_idx: usize,
    pub step_idx: usize,
}

/// Commands that drive the sequencer state machine.
#[derive(Debug, Clone, Copy)]
pub enum SequencerCommand {
    /// Begin playback.
    Start,
    /// Halt playback and reset the playhead.
    Stop,
    /// Change the tempo, in beats per minute.
    SetBpm(u32),
    /// Shut the driving loop down.
    Quit,
}

/// The grid a vector-of-rows pattern denotes: a sequence of rows of steps.
pub open spec fn grid_view(p: Seq<Vec<bool>>) -> Seq<Seq<bool>> {
    Seq::new(p.len(), |i: int| p[i]@)
}

/// A usable pattern: at least one track, no empty track, all tracks of
/// equal length.
pub open spec fn pattern_valid(g: Seq<Seq<bool>>) -> bool {
    &&& g.len() > 0
    &&& forall|i: int| 0 <= i < g.len() ==> #[trigger] g[i].len() > 0
    &&& forall|i: int| 0 <= i < g.len() ==> #[trigger] g[i].len() == g[0].len()
}

/// The message validation reports for an unusable pattern: the checks run
/// in this order, and the first failed check names the error.
pub open spec fn validation_message(g: Seq<Seq<bool>>) -> Seq<char> {
    if g.len() == 0 {
        "Pattern cannot be empty"@
    } else if exists|i: int| 0 <= i < g.len() && g[i].len() == 0 {
        "Pattern cannot have empty tracks"@
    } else {
        "All tracks must have the same length"@
    }
}

/// The triggers of tracks `0 .. n` at column `step`, in increasing track
/// order: one per track whose cell at `step` is active.
pub open spec fn triggers_upto(g: Seq<Seq<bool>>, step: int, n: int) -> Seq<TriggerEvent>
    decreases n,
{
    if n <= 0 {
        Seq::empty()
    } else {
        let rest = triggers_upto(g, step, n - 1);
        if g[n - 1][step] {
            rest.push(TriggerEvent { track_idx: (n - 1) as usize, step_idx: step as usize })
        } else {
            rest
        }
    }
}

/// All triggers of one step, in increasing track order.
pub open spec fn step_triggers(g: Seq<Seq<bool>>, step: int) -> Seq<TriggerEvent> {
    triggers_upto(g, step, g.len() as int)
}

/// The bus events of tracks `0 .. n` at column `step`, in increasing track
/// order: `StepTriggered` per active cell.
pub open spec fn trigger_events_upto(g: Seq<Seq<bool>>, step: int, n: int) -> Seq<TrackerEvent>
    decreases n,
{
    if n <= 0 {
        Seq::empty()
    } else {
        let rest = trigger_events_upto(g, step, n - 1);
        if g[n - 1][step] {
            rest.push(TrackerEvent::StepTriggered((n - 1) as usize, step as usize))
        } else {
            rest
        }
    }
}

/// All bus events of one step, in increasing track order.
pub open spec fn step_trigger_events(g: Seq<Seq<bool>>, step: int) -> Seq<TrackerEvent> {
    trigger_events_upto(g, step, g.len() as int)
}

/// Milliseconds between two steps at `bpm`, at 16th-note resolution: four
/// steps per beat.
pub fn step_period_ms(bpm: u32) -> (ms: u64)
    requires
        bpm >= 1,
    ensures
        ms == 60000u64 / (bpm as u64) / 4,
{
    (60_000 / bpm / 4) as u64
}

/// The sequencer: tempo, playhead, transport flag, a pattern snapshot, and
/// the queue of triggers not yet drained by `tick`.
pub struct Sequencer {
    pub bpm: u32,
    pub current_step: usize,
    pub is_playing: bool,
    /// Pattern snapshot, indexed `pattern[track][step]`.
    pub pattern: Vec<Vec<bool>>,
    /// Triggers emitted but not yet collected through `tick`.
    pub pending: Vec<TriggerEvent>,
}

/// The sequencer after `start`: playing, all else untouched.
pub open spec fn started(s: Sequencer) -> Sequencer {
    Sequencer { is_playing: true, ..s }
}

/// The sequencer after `stop`: halted, playhead reset to the first step.
pub open spec fn stopped(s: Sequencer) -> Sequencer {
    Sequencer { is_playing: false, current_step: 0, ..s }
}

/// The sequencer after `set_bpm(bpm)`: only the tempo changes.
pub open spec fn with_bpm(s: Sequencer, bpm: u32) -> Sequencer {
    Sequencer { bpm, ..s }
}

impl Sequencer {
    /// A well-formed sequencer: usable pattern, positive tempo, playhead
    /// inside the pattern.
    pub open spec fn wf(self) -> bool {
        &&& pattern_valid(grid_view(self.pattern@))
        &&& self.bpm >= 1
        &&& (self.current_step as int) < self.pattern@[0]@.len()
    }

    /// Check that a pattern is usable: non-empty, no empty track, all
    /// tracks of one length.  Reports the first failed check.
    pub fn validate_pattern(pattern: &Vec<Vec<bool>>) -> (r: Result<(), &'static str>)
        ensures
            r is Ok <==> pattern_valid(grid_view(pattern@)),
            r matches Err(m) ==> m@ == validation_message(grid_view(pattern@)),
    {
        let ghost g = grid_view(pattern@);
        if pattern.len() == 0 {
            return Err("Pattern cannot be empty");
        }
        let n = pattern.len();
        let mut i: usize = 0;
        while i < n
            invariant
                n == pattern@.len(),
                i <= n,
                g == grid_view(pattern@),
                forall|j: int| 0 <= j < i ==> #[trigger] g[j].len() > 0,
            decreases n - i,
        {
            if pattern[i].len() == 0 {
                proof {
                    assert(g[i as int].len() == 0);
                }
                return Err("Pattern cannot have empty tracks");
            }
            i = i + 1;
        }
        let first_len = pattern[0].len();
        let mut i: usize = 1;
        while i < n
            invariant
                n == pattern@.len(),
                n >= 1,
                1 <= i <= n,
                g == grid_view(pattern@),
                first_len == g[0].len(),
                forall|j: int| 0 <= j < n ==> #[trigger] g[j].len() > 0,
                forall|j: int| 0 <= j < i ==> #[trigger] g[j].len() == g[0].len(),
            decreases n - i,
        {
            if pattern[i].len() != first_len {
                proof {
                    assert(g[i as int].len() != g[0].len());
                }
                return Err("All tracks must have the same length");
            }
            i = i + 1;
        }
        Ok(())
    }

    /// Build a sequencer over a validated pattern: playhead at the first
    /// step, stopped, no pending triggers.
    pub fn new(bpm: u32, pattern: Vec<Vec<bool>>) -> (r: Result<Sequencer, &'static str>)
        requires
            bpm >= 1,
        ensures
            r is Ok <==> pattern_valid(grid_view(pattern@)),
            r matches Ok(s) ==> {
                &&& s.bpm == bpm
                &&& s.current_step == 0
                &&& !s.is_playing
                &&& s.pattern == pattern
                &&& s.pending@ == Seq::<TriggerEvent>::empty()
                &&& s.wf()
            },
            r matches Err(m) ==> m@ == validation_message(grid_view(pattern@)),
    {
        match Self::validate_pattern(&pattern) {
            Ok(()) => {
                let s = Sequencer {
                    bpm,
                    current_step: 0,
                    is_playing: false,
                    pattern,
                    pending: Vec::new(),
                };
                proof {
                    let g = grid_view(s.pattern@);
                    assert(g[0] == s.pattern@[0]@);
                    assert(s.pattern@[0]@.len() > 0);
                }
                Ok(s)
            },
            Err(m) => Err(m),
        }
    }

    /// Begin playback and announce it on the bus.
    pub fn start(&mut self, bus: &mut EventBus)
        ensures
            *final(self) == started(*old(self)),
            emitted(old(bus)@, final(bus)@, TrackerEvent::PlaybackStateChanged(true)),
    {
        self.is_playing = true;
        bus.emit(TrackerEvent::PlaybackStateChanged(true));
    }

    /// Halt playback, reset the playhead to the first step, and announce it
    /// on the bus.
    pub fn stop(&mut self, bus: &mut EventBus)
        ensures
            *final(self) == stopped(*old(self)),
            emitted(old(bus)@, final(bus)@, TrackerEvent::PlaybackStateChanged(false)),
    {
        self.is_playing = false;
        self.current_step = 0;
        bus.emit(TrackerEvent::PlaybackStateChanged(false));
    }

    /// Change the tempo and announce it on the bus.  The new tempo takes
    /// effect at the next step boundary of the driving loop.
    pub fn set_bpm(&mut self, bus: &mut EventBus, bpm: u32)
        requires
            bpm >= 1,
        ensures
            *final(self) == with_bpm(*old(self), bpm),
            emitted(old(bus)@, final(bus)@, TrackerEvent::BpmChanged(bpm)),
    {
        self.bpm = bpm;
        bus.emit(TrackerEvent::BpmChanged(bpm));
    }

    /// Whether the sequencer is playing.
    pub fn is_playing(&self) -> (playing: bool)
        ensures
            playing == self.is_playing,
    {
        self.is_playing
    }

    /// The step the playhead stands on.
    pub fn current_step(&self) -> (step: usize)
        ensures
            step == self.current_step,
    {
        self.current_step
    }

    /// The current tempo in beats per minute.
    pub fn get_bpm(&self) -> (bpm: u32)
        ensures
            bpm == self.bpm,
    {
        self.bpm
    }

    /// The pattern snapshot the sequencer walks.
    pub fn get_pattern(&self) -> (pattern: &Vec<Vec<bool>>)
        ensures
            *pattern == self.pattern,
    {
        &self.pattern
    }

    /// Drain the triggers emitted since the last call, in emission order.
    pub fn tick(&mut self) -> (events: Vec<TriggerEvent>)
        ensures
            events@ == old(self).pending@,
            final(self).pending@ == Seq::<TriggerEvent>::empty(),
            final(self).bpm == old(self).bpm,
            final(self).current_step == old(self).current_step,
            final(self).is_playing == old(self).is_playing,
            final(self).pattern == old(self).pattern,
    {
        let mut taken: Vec<TriggerEvent> = Vec::new();
        core::mem::swap(&mut self.pending, &mut taken);
        taken
    }

    /// One step of the timing loop, due once per step period while playing:
    /// emit a `StepTriggered` event for every active cell under the
    /// playhead, in increasing track order, queue the same triggers for
    /// `tick`, and advance the playhead by one step, wrapping at the
    /// pattern's end.  When stopped, nothing happens.
    pub fn advance_step(&mut self, bus: &mut EventBus)
        requires
            old(self).wf(),
        ensures
            final(self).wf(),
            !old(self).is_playing ==> *final(self) == *old(self) && final(bus)@ == old(bus)@,
            old(self).is_playing ==> {
                let g = grid_view(old(self).pattern@);
                let step = old(self).current_step as int;
                &&& final(self).bpm == old(self).bpm
                &&& final(self).is_playing
                &&& final(self).pattern == old(self).pattern
                &&& final(self).current_step as int == (step + 1) % (g[0].len() as int)
                &&& final(self).pending@ == old(self).pending@ + step_triggers(g, step)
                &&& emitted_all(old(bus)@, final(bus)@, step_trigger_events(g, step))
            },
    {
        if !self.is_playing {
            return ;
        }
        let ghost g = grid_view(old(self).pattern@);
        let step = self.current_step;
        let n = self.pattern.len();
        let mut t: usize = 0;
        while t < n
            invariant
                n == self.pattern@.len(),
                t <= n,
                g == grid_view(self.pattern@),
                pattern_valid(g),
                step == old(self).current_step,
                (step as int) < g[0].len(),
                self.bpm == old(self).bpm,
                self.is_playing,
                self.current_step == old(self).current_step,
                self.pattern == old(self).pattern,
                self.pending@ == old(self).pending@ + triggers_upto(g, step as int, t as int),
                emitted_all(old(bus)@, bus@, trigger_events_upto(g, step as int, t as int)),
            decreases n - t,
        {
            let ghost prev_bus = bus@;
            let row = &self.pattern[t];
            if step < row.len() && row[step] {
                let trigger = TriggerEvent { track_idx: t, step_idx: step };
                self.pending.push(trigger);
                bus.emit(TrackerEvent::StepTriggered(t, step));
                proof {
                    crate::events::lemma_emitted_all_snoc(
                        old(bus)@,
                        prev_bus,
                        bus@,
                        trigger_events_upto(g, step as int, t as int),
                        TrackerEvent::StepTriggered(t, step),
                    );
                    assert(g[t as int][step as int]);
                    assert(trigger_events_upto(g, step as int, t + 1) == trigger_events_upto(
                        g,
                        step as int,
                        t as int,
                    ).push(TrackerEvent::StepTriggered(t, step)));
                    assert(triggers_upto(g, step as int, t + 1) == triggers_upto(
                        g,
                        step as int,
                        t as int,
                    ).push(trigger));
                    assert(self.pending@ =~= old(self).pending@ + triggers_upto(
                        g,
                        step as int,
                        t + 1,
                    ));
                }
            } else {
                proof {
                    assert(!g[t as int][step as int]);
                    assert(triggers_upto(g, step as int, t + 1) == triggers_upto(
                        g,
                        step as int,
                        t as int,
                    ));
                    assert(trigger_events_upto(g, step as int, t + 1) == trigger_events_upto(
                        g,
                        step as int,
                        t as int,
                    ));
                }
            }
            t = t + 1;
        }
        proof {
            assert(g[0] == self.pattern@[0]@);
        }
        let row_len = self.pattern[0].len();
        self.current_step = (step + 1) % row_len;
    }

    /// Apply one command of the driving loop: `Start`, `Stop` and `SetBpm`
    /// behave as the methods of the same name; `Quit` changes nothing and
    /// asks the loop to end.  Returns whether the loop should keep running.
    pub fn apply_command(&mut self, bus: &mut EventBus, cmd: SequencerCommand) -> (running:
        bool)
        requires
            cmd matches SequencerCommand::SetBpm(b) ==> b >= 1,
        ensures
            running == !(cmd is Quit),
            cmd is Start ==> *final(self) == started(*old(self)) && emitted(
                old(bus)@,
                final(bus)@,
                TrackerEvent::PlaybackStateChanged(true),
            ),
            cmd is Stop ==> *final(self) == stopped(*old(self)) && emitted(
                old(bus)@,
                final(bus)@,
                TrackerEvent::PlaybackStateChanged(false),
            ),
            cmd matches SequencerCommand::SetBpm(b) ==> *final(self) == with_bpm(
                *old(self),
                b,
            ) && emitted(old(bus)@, final(bus)@, TrackerEvent::BpmChanged(b)),
            cmd is Quit ==> *final(self) == *old(self) && final(bus)@ == old(bus)@,
    {
        match cmd {
            SequencerCommand::Start => {
                self.start(bus);
                true
            },
            SequencerCommand::Stop => {
                self.stop(bus);
                true
            },
            SequencerCommand::SetBpm(b) => {
                self.set_bpm(bus, b);
                true
            },
            SequencerCommand::Quit => false,
        }
    }
}

/// Starting and then stopping the sequencer leaves it halted with the
/// playhead on the first step, whatever it did before.
pub proof fn lemma_start_stop_resets_playhead(s: Sequencer)
    ensures
        stopped(started(s)).current_step == 0,
        !stopped(started(s)).is_playing,
        stopped(started(s)).pattern == s.pattern,
        stopped(started(s)).bpm == s.bpm,
{
}

/// A tempo change is observed exactly: after `set_bpm(bpm)` the sequencer
/// reports `bpm`, and nothing else of its state moved.
pub proof fn lemma_set_bpm_observed(s: Sequencer, bpm: u32)
    ensures
        with_bpm(s, bpm).bpm == bpm,
        with_bpm(s, bpm).current_step == s.current_step,
        with_bpm(s, bpm).is_playing == s.is_playing,
        with_bpm(s, bpm).pattern == s.pattern,
        with_bpm(s, bpm).pending == s.pending,
{
}

} // verus!
