//! The bridge between the sequencer's events and the audio worker: the
//! command language of the worker, the routing of bus events into
//! commands, the effect configuration drawn from pattern metadata, and the
//! connector that fronts the worker.
//!
//! In the running program the connector's owner forwards commands over a
//! bounded queue to a worker thread that owns a `SamplePlayer` and the
//! sound device; `apply_audio_command` is the worker's dispatch, verified
//! here against the player model.

use vstd::prelude::*;

use crate::audio::{
    all_stopped, init_succeeds, trigger_effect, AudioError, SamplePlayer, clamp_permille,
};
use crate::effects::{SampleEffect, SampleProcessor};
use crate::events::{EventBus, TrackerEvent};
use crate::fxkey::{fx_key_track, fx_key_valid, parse_fx_key};
use crate::model::{PatternMeta, Track};
use crate::sequencer::TriggerEvent;

verus! {

/// One effect to install on one track.
#[derive(Debug, Clone, Copy)]
pub struct EffectConfig {
    pub track_idx: usize,
    pub effect: SampleEffect,
}

/// Commands the audio worker serves, in arrival order.
pub enum AudioCommand {
    /// Restart the bound sample of a track: (track index, step index).
    TriggerSample(usize, usize),
    /// Set a track's gain, in permille; clamped into `0..=1000`.
    SetTrackVolume(usize, i64),
    /// Cut every voice.
    StopAll,
    /// Stop serving triggers, cut every voice, and end the worker.
    Deactivate,
    /// Bind tracks to samples; the second part carries each track's sample
    /// file bytes, `None` where the file could not be read.
    Initialize(Vec<Track>, Vec<Option<Vec<u8>>>),
    /// Append effects to track chains, in the given order.
    ConfigureEffects(Vec<EffectConfig>),
}

/// The audio command a bus event asks for: triggers become sample starts,
/// volume changes become gain changes, everything else is ignored.
pub fn route_event(e: &TrackerEvent) -> (r: Option<AudioCommand>)
    ensures
        match *e {
            TrackerEvent::StepTriggered(t, s) => r matches Some(
                AudioCommand::TriggerSample(t2, s2),
            ) && t2 == t && s2 == s,
            TrackerEvent::TrackVolumeChanged(t, v) => r matches Some(
                AudioCommand::SetTrackVolume(t2, v2),
            ) && t2 == t && v2 == v as i64,
            _ => r is None,
        },
{
    match e {
        TrackerEvent::StepTriggered(t, s) => Some(AudioCommand::TriggerSample(*t, *s)),
        TrackerEvent::TrackVolumeChanged(t, v) => Some(
            AudioCommand::SetTrackVolume(*t, *v as i64),
        ),
        _ => None,
    }
}

/// The effect chain of track `t` after the configurations `configs` were
/// added, in order, on top of `base`.
pub open spec fn effects_with(base: SampleProcessor, configs: Seq<EffectConfig>, t: int) -> Seq<
    SampleEffect,
>
    decreases configs.len(),
{
    if configs.len() == 0 {
        base.effects_of(t)
    } else {
        let prior = effects_with(base, configs.drop_last(), t);
        let c = configs.last();
        if c.track_idx == t {
            prior.push(c.effect)
        } else {
            prior
        }
    }
}

/// Append each configuration's effect to its track's chain, in order.
pub fn apply_effect_configs(processor: &mut SampleProcessor, configs: &Vec<EffectConfig>)
    ensures
        forall|t: int|
            #[trigger] final(processor).effects_of(t) == effects_with(*old(processor), configs@, t),
{
    let n = configs.len();
    let mut k: usize = 0;
    while k < n
        invariant
            n == configs@.len(),
            k <= n,
            forall|t: int|
                #[trigger] processor.effects_of(t) == effects_with(
                    *old(processor),
                    configs@.subrange(0, k as int),
                    t,
                ),
        decreases n - k,
    {
        let c = configs[k];
        processor.add_effect(c.track_idx, c.effect);
        proof {
            assert(configs@.subrange(0, k + 1).drop_last() =~= configs@.subrange(0, k as int));
            assert(configs@.subrange(0, k + 1).last() == configs@[k as int]);
        }
        k = k + 1;
    }
    proof {
        assert(configs@.subrange(0, n as int) =~= configs@);
    }
}

/// The reverse-effect configurations one metadata block asks for, in entry
/// order: one per well-formed `"track:step"` key whose entry has
/// `reverse == Some(true)`.  Unparsable keys are skipped; `retrigger` is
/// recognized but installs nothing.
pub open spec fn configs_of_fx(fx: Seq<(String, crate::model::FxEntry)>) -> Seq<EffectConfig>
    decreases fx.len(),
{
    if fx.len() == 0 {
        Seq::empty()
    } else {
        let rest = configs_of_fx(fx.drop_last());
        let (key, entry) = fx.last();
        if fx_key_valid(key@) && entry.reverse == Some(true) && fx_key_track(key@) <= usize::MAX {
            rest.push(
                EffectConfig {
                    track_idx: fx_key_track(key@) as usize,
                    effect: SampleEffect::Reverse,
                },
            )
        } else {
            rest
        }
    }
}

/// The configurations all metadata blocks ask for, block by block.
pub open spec fn configs_of_metas(metas: Seq<PatternMeta>) -> Seq<EffectConfig>
    decreases metas.len(),
{
    if metas.len() == 0 {
        Seq::empty()
    } else {
        configs_of_metas(metas.drop_last()) + configs_of_fx(metas.last().fx@)
    }
}

/// Walk pattern metadata and collect the effects to install: a `Reverse`
/// on track `t` for every entry keyed `"t:s"` with a truthy `reverse`.
pub fn effect_configs_from_meta(metas: &Vec<PatternMeta>) -> (configs: Vec<EffectConfig>)
    ensures
        configs@ == configs_of_metas(metas@),
{
    let mut configs: Vec<EffectConfig> = Vec::new();
    let n = metas.len();
    let mut m: usize = 0;
    while m < n
        invariant
            n == metas@.len(),
            m <= n,
            configs@ == configs_of_metas(metas@.subrange(0, m as int)),
        decreases n - m,
    {
        let meta = &metas[m];
        let fx_n = meta.fx.len();
        let mut f: usize = 0;
        while f < fx_n
            invariant
                n == metas@.len(),
                m < n,
                fx_n == meta.fx@.len(),
                f <= fx_n,
                meta == &metas@[m as int],
                configs@ == configs_of_metas(metas@.subrange(0, m as int)) + configs_of_fx(
                    meta.fx@.subrange(0, f as int),
                ),
            decreases fx_n - f,
        {
            let pair = &meta.fx[f];
            let parsed = parse_fx_key(pair.0.as_str());
            let ghost key_view = pair.0@;
            match parsed {
                Some((track_idx, _step_idx)) => {
                    let is_reverse = match pair.1.reverse {
                        Some(true) => true,
                        _ => false,
                    };
                    if is_reverse {
                        configs.push(
                            EffectConfig { track_idx, effect: SampleEffect::Reverse },
                        );
                    }
                },
                None => {},
            }
            proof {
                let fpre = meta.fx@.subrange(0, f as int);
                let fpost = meta.fx@.subrange(0, f + 1);
                assert(fpost.drop_last() =~= fpre);
                assert(fpost.last() == meta.fx@[f as int]);
                if parsed is Some && meta.fx@[f as int].1.reverse == Some(true) {
                    assert(configs@ == configs_of_metas(metas@.subrange(0, m as int))
                        + configs_of_fx(fpre).push(
                        EffectConfig {
                            track_idx: fx_key_track(key_view) as usize,
                            effect: SampleEffect::Reverse,
                        },
                    ));
                }
            }
            f = f + 1;
        }
        proof {
            let mpre = metas@.subrange(0, m as int);
            let mpost = metas@.subrange(0, m + 1);
            assert(mpost.drop_last() =~= mpre);
            assert(mpost.last() == metas@[m as int]);
            assert(meta.fx@.subrange(0, fx_n as int) =~= meta.fx@);
        }
        m = m + 1;
    }
    proof {
        assert(metas@.subrange(0, n as int) =~= metas@);
    }
    configs
}

/// Serve one command on the worker's player: the dispatch the audio worker
/// runs for every message it receives.  Returns whether the worker should
/// keep serving; only `Deactivate` ends it.
pub fn apply_audio_command(player: &mut SamplePlayer, cmd: AudioCommand) -> (keep_running: bool)
    requires
        cmd matches AudioCommand::Initialize(tracks, datas) ==> datas@.len() == tracks@.len(),
    ensures
        keep_running == !(cmd is Deactivate),
        cmd matches AudioCommand::TriggerSample(t, _) ==> trigger_effect(
            *old(player),
            *final(player),
            t as int,
        ),
        cmd matches AudioCommand::SetTrackVolume(t, v) ==> {
            if t < old(player).voices@.len() && old(player).voices@[t as int] is Some {
                &&& final(player).voices@.len() == old(player).voices@.len()
                &&& (final(player).voices@[t as int] matches Some(v2) && old(
                    player,
                ).voices@[t as int] matches Some(v1) && v2.queue == v1.queue && v2.volume
                    == clamp_permille(v as int))
                &&& forall|u: int|
                    0 <= u < old(player).voices@.len() && u != t
                        ==> #[trigger] final(player).voices@[u] == old(player).voices@[u]
                &&& final(player).samples == old(player).samples
                &&& final(player).track_to_sample == old(player).track_to_sample
                &&& final(player).tracks == old(player).tracks
                &&& final(player).active == old(player).active
                &&& final(player).processor == old(player).processor
            } else {
                *final(player) == *old(player)
            }
        },
        cmd is StopAll ==> all_stopped(*old(player), *final(player)) && final(player).active
            == old(player).active,
        cmd is Deactivate ==> all_stopped(*old(player), *final(player)) && !final(player).active,
        cmd matches AudioCommand::Initialize(tracks, datas) ==> {
            &&& (init_succeeds(old(player).sample_names(), tracks@, datas@) ==> {
                &&& final(player).active
                &&& final(player).track_to_sample@.len() == tracks@.len()
                &&& final(player).voices@.len() == tracks@.len()
                &&& final(player).tracks@.len() == tracks@.len()
                &&& forall|i: int|
                    0 <= i < tracks@.len() ==> {
                        &&& (#[trigger] final(player).track_to_sample@[i]) matches Some(si) && si
                            < final(player).samples@.len()
                            && final(player).samples@[si as int].name@ == tracks@[i].name@
                        &&& final(player).voices@[i] matches Some(v) && v.queue@
                            == Seq::<usize>::empty() && v.volume == tracks@[i].volume
                        &&& final(player).tracks@[i] == Some(tracks@[i])
                    }
            })
            &&& (!init_succeeds(old(player).sample_names(), tracks@, datas@) ==> final(player).active
                == old(player).active)
            &&& final(player).wf()
        },
        cmd matches AudioCommand::ConfigureEffects(configs) ==> {
            &&& forall|t: int|
                #[trigger] final(player).processor.effects_of(t) == effects_with(
                    old(player).processor,
                    configs@,
                    t,
                )
            &&& final(player).samples == old(player).samples
            &&& final(player).track_to_sample == old(player).track_to_sample
            &&& final(player).voices == old(player).voices
            &&& final(player).tracks == old(player).tracks
            &&& final(player).active == old(player).active
        },
{
    match cmd {
        AudioCommand::TriggerSample(track_idx, step_idx) => {
            let trigger = TriggerEvent { track_idx, step_idx };
            let _ = player.process_trigger(&trigger);
            true
        },
        AudioCommand::SetTrackVolume(track_idx, volume) => {
            let _ = player.set_track_volume(track_idx, volume);
            true
        },
        AudioCommand::StopAll => {
            player.stop_all();
            true
        },
        AudioCommand::Deactivate => {
            player.active = false;
            player.stop_all();
            false
        },
        AudioCommand::Initialize(tracks, datas) => {
            let _ = player.initialize_with_tracks(&tracks, &datas);
            true
        },
        AudioCommand::ConfigureEffects(configs) => {
            apply_effect_configs(&mut player.processor, &configs);
            true
        },
    }
}

/// The connector that fronts the audio worker: the switch that admits
/// triggers, the bus subscription, and — in this sequential model — the
/// worker's player itself.
pub struct AudioConnector {
    /// Directory sample files are resolved against.
    pub sample_dir: String,
    /// Admits triggers: when off, triggers are dropped before they reach
    /// the player.
    pub active: bool,
    /// The bus subscription token, once connected to a sequencer's bus.
    pub subscription: Option<usize>,
    /// The audio worker's state.
    pub player: SamplePlayer,
}

impl AudioConnector {
    /// A connector with an idle, inactive player.
    pub fn new(sample_dir: String) -> (c: AudioConnector)
        ensures
            !c.active,
            c.subscription is None,
            c.sample_dir == sample_dir,
            !c.player.active,
            c.player.samples@ == Seq::<crate::audio::Sample>::empty(),
            c.player.voices@ == Seq::<Option<crate::audio::Voice>>::empty(),
            c.player.wf(),
    {
        let player_dir = sample_dir.clone();
        AudioConnector {
            sample_dir,
            active: false,
            subscription: None,
            player: SamplePlayer::new(player_dir),
        }
    }

    /// Bind the tracks and activate the connector.  Fails, and stays
    /// inactive, exactly when a needed sample file was unreadable.
    pub fn initialize(&mut self, tracks: &Vec<Track>, datas: &Vec<Option<Vec<u8>>>) -> (r:
        Result<(), AudioError>)
        requires
            datas@.len() == tracks@.len(),
        ensures
            r is Ok <==> init_succeeds(old(self).player.sample_names(), tracks@, datas@),
            r is Ok ==> self_initialized(*old(self), *final(self), tracks@),
            r is Err ==> final(self).active == old(self).active && final(self).player.active
                == old(self).player.active,
            final(self).subscription == old(self).subscription,
            final(self).sample_dir == old(self).sample_dir,
            final(self).player.wf(),
    {
        let r = self.player.initialize_with_tracks(tracks, datas);
        match r {
            Ok(()) => {
                self.active = true;
                Ok(())
            },
            Err(e) => Err(e),
        }
    }

    /// Install the effects the pattern metadata asks for.
    pub fn configure_effects(&mut self, pattern_metas: &Vec<PatternMeta>) -> (r: Result<
        (),
        AudioError,
    >)
        ensures
            r is Ok,
            forall|t: int|
                #[trigger] final(self).player.processor.effects_of(t) == effects_with(
                    old(self).player.processor,
                    configs_of_metas(pattern_metas@),
                    t,
                ),
            final(self).active == old(self).active,
            final(self).subscription == old(self).subscription,
            final(self).sample_dir == old(self).sample_dir,
            final(self).player.samples == old(self).player.samples,
            final(self).player.track_to_sample == old(self).player.track_to_sample,
            final(self).player.voices == old(self).player.voices,
            final(self).player.tracks == old(self).player.tracks,
            final(self).player.active == old(self).player.active,
    {
        let configs = effect_configs_from_meta(pattern_metas);
        apply_effect_configs(&mut self.player.processor, &configs);
        Ok(())
    }

    /// Serve a trigger: dropped silently while the connector is inactive,
    /// otherwise handed to the player.
    pub fn process_trigger(&mut self, event: &TriggerEvent) -> (r: Result<(), AudioError>)
        ensures
            !old(self).active ==> r is Ok && *final(self) == *old(self),
            old(self).active ==> trigger_effect(
                old(self).player,
                final(self).player,
                event.track_idx as int,
            ) && final(self).active == old(self).active,
            final(self).subscription == old(self).subscription,
            final(self).sample_dir == old(self).sample_dir,
    {
        if !self.active {
            return Ok(());
        }
        self.player.process_trigger(event)
    }

    /// Subscribe to the bus the sequencer publishes on, so that its
    /// triggers and volume changes reach the audio worker, and mark the
    /// connector active.  Always succeeds.
    pub fn connect_to_sequencer(&mut self, bus: &mut EventBus) -> (connected: bool)
        ensures
            connected,
            final(self).active,
            final(self).subscription == Some(old(bus)@.len() as usize),
            final(bus)@ == old(bus)@.push(Seq::<TrackerEvent>::empty()),
            final(self).player == old(self).player,
            final(self).sample_dir == old(self).sample_dir,
    {
        self.active = true;
        let token = bus.subscribe();
        self.subscription = Some(token);
        true
    }

    /// Cut every voice; the active switch stays as it is.
    pub fn stop_all(&mut self)
        ensures
            all_stopped(old(self).player, final(self).player),
            final(self).player.active == old(self).player.active,
            final(self).active == old(self).active,
            final(self).subscription == old(self).subscription,
            final(self).sample_dir == old(self).sample_dir,
    {
        self.player.stop_all();
    }

    /// Turn the connector off, stop the player and cut every voice.
    pub fn deactivate(&mut self)
        ensures
            !final(self).active,
            !final(self).player.active,
            all_stopped(old(self).player, final(self).player),
            final(self).subscription == old(self).subscription,
            final(self).sample_dir == old(self).sample_dir,
    {
        self.active = false;
        self.player.active = false;
        self.player.stop_all();
    }

    /// Whether the connector admits triggers.
    pub fn is_active(&self) -> (active: bool)
        ensures
            active == self.active,
    {
        self.active
    }

    /// Set a track's gain, clamped into the unit interval; fails exactly
    /// when the track has no voice.
    pub fn set_track_volume(&mut self, track_idx: usize, volume: i64) -> (r: Result<
        (),
        AudioError,
    >)
        ensures
            r is Ok <==> (track_idx < old(self).player.voices@.len() && old(
                self,
            ).player.voices@[track_idx as int] is Some),
            r is Ok ==> {
                &&& final(self).player.voices@.len() == old(self).player.voices@.len()
                &&& (final(self).player.voices@[track_idx as int] matches Some(v2) && old(
                    self,
                ).player.voices@[track_idx as int] matches Some(v1) && v2.queue == v1.queue
                    && v2.volume == clamp_permille(volume as int))
                &&& forall|t: int|
                    0 <= t < old(self).player.voices@.len() && t != track_idx
                        ==> #[trigger] final(self).player.voices@[t] == old(self).player.voices@[t]
            },
            r is Err ==> *final(self) == *old(self),
            final(self).active == old(self).active,
            final(self).subscription == old(self).subscription,
            final(self).sample_dir == old(self).sample_dir,
            final(self).player.samples == old(self).player.samples,
            final(self).player.track_to_sample == old(self).player.track_to_sample,
            final(self).player.tracks == old(self).player.tracks,
            final(self).player.active == old(self).player.active,
            final(self).player.processor == old(self).player.processor,
            volume_forwarded(*old(self), *final(self), track_idx as int, volume as int),
    {
        self.player.set_track_volume(track_idx, volume)
    }
}


/// The connector after a volume change was forwarded: when the track has a
/// voice its gain is clamped and set and nothing else moves; otherwise the
/// change is dropped and the connector is unchanged.
pub open spec fn volume_forwarded(
    pre: AudioConnector,
    post: AudioConnector,
    t: int,
    v: int,
) -> bool {
    if 0 <= t < pre.player.voices@.len() && pre.player.voices@[t] is Some {
        &&& post.player.voices@.len() == pre.player.voices@.len()
        &&& (post.player.voices@[t] matches Some(v2) && pre.player.voices@[t] matches Some(v1)
            && v2.queue == v1.queue && v2.volume == clamp_permille(v))
        &&& forall|u: int|
            0 <= u < pre.player.voices@.len() && u != t ==> #[trigger] post.player.voices@[u]
                == pre.player.voices@[u]
        &&& post.active == pre.active
        &&& post.subscription == pre.subscription
        &&& post.sample_dir == pre.sample_dir
        &&& post.player.samples == pre.player.samples
        &&& post.player.track_to_sample == pre.player.track_to_sample
        &&& post.player.tracks == pre.player.tracks
        &&& post.player.sample_dir == pre.player.sample_dir
        &&& post.player.active == pre.player.active
        &&& post.player.processor == pre.player.processor
    } else {
        post == pre
    }
}


/// What one bus event does to the connector: a trigger restarts the bound
/// sample (once the connector is active), a volume change is forwarded,
/// every other event is ignored.
pub open spec fn one_event_effect(
    pre: AudioConnector,
    post: AudioConnector,
    e: TrackerEvent,
) -> bool {
    match e {
        TrackerEvent::StepTriggered(t, _) => {
            if !pre.active {
                post == pre
            } else {
                &&& trigger_effect(pre.player, post.player, t as int)
                &&& post.active == pre.active
                &&& post.subscription == pre.subscription
                &&& post.sample_dir == pre.sample_dir
            }
        },
        TrackerEvent::TrackVolumeChanged(t, v) => volume_forwarded(pre, post, t as int, v as int),
        _ => post == pre,
    }
}

/// The connector after a batch of bus events was served in order: a chain
/// of single-event effects from `pre` to `post`.
pub open spec fn pumped(pre: AudioConnector, post: AudioConnector, es: Seq<TrackerEvent>) -> bool
    decreases es.len(),
{
    if es.len() == 0 {
        post == pre
    } else {
        exists|mid: AudioConnector|
            #[trigger] one_event_effect(pre, mid, es[0]) && pumped(mid, post, es.skip(1))
    }
}

/// Extending a served batch by one event extends the chain.
pub proof fn lemma_pumped_snoc(
    pre: AudioConnector,
    mid: AudioConnector,
    post: AudioConnector,
    es: Seq<TrackerEvent>,
    e: TrackerEvent,
)
    requires
        pumped(pre, mid, es),
        one_event_effect(mid, post, e),
    ensures
        pumped(pre, post, es.push(e)),
    decreases es.len(),
{
    if es.len() == 0 {
        assert(mid == pre);
        assert(es.push(e)[0] == e);
        assert(es.push(e).skip(1) =~= Seq::<TrackerEvent>::empty());
        assert(one_event_effect(pre, post, es.push(e)[0]) && pumped(
            post,
            post,
            es.push(e).skip(1),
        ));
    } else {
        let m1 = choose|m1: AudioConnector|
            #[trigger] one_event_effect(pre, m1, es[0]) && pumped(m1, mid, es.skip(1));
        lemma_pumped_snoc(m1, mid, post, es.skip(1), e);
        assert(es.push(e)[0] == es[0]);
        assert(es.push(e).skip(1) =~= es.skip(1).push(e));
        assert(one_event_effect(pre, m1, es.push(e)[0]) && pumped(m1, post, es.push(e).skip(1)));
    }
}

/// The connector state after a successful initialization over `tracks`:
/// connector active, player active, every track bound to a sample of its name,
/// with an empty voice at the configured volume.
pub open spec fn self_initialized(
    pre: AudioConnector,
    post: AudioConnector,
    tracks: Seq<Track>,
) -> bool {
    &&& post.active
    &&& post.player.active
    &&& post.player.track_to_sample@.len() == tracks.len()
    &&& post.player.voices@.len() == tracks.len()
    &&& post.player.tracks@.len() == tracks.len()
    &&& forall|i: int|
        0 <= i < tracks.len() ==> {
            &&& (#[trigger] post.player.track_to_sample@[i]) matches Some(si) && si
                < post.player.samples@.len() && post.player.samples@[si as int].name@
                == tracks[i].name@
            &&& post.player.voices@[i] matches Some(v) && v.queue@ == Seq::<usize>::empty()
                && v.volume == tracks[i].volume
            &&& post.player.tracks@[i] == Some(tracks[i])
        }
}

} // verus!
