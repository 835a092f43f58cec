//! The sample player model: the state the audio worker owns — loaded
//! samples, per-track sample bindings, per-track voices with their gains,
//! and the effect processor.
//!
//! Sound output itself (device handles, decoding, mixing) happens outside
//! the library; the worker keeps this model as its single source of truth
//! and mirrors every change onto its sinks.  A voice here is the queue of
//! samples a track's sink would play, so the one-shot retrigger policy —
//! a new trigger cuts whatever the track was playing — is a theorem about
//! `play_sample`.

use vstd::prelude::*;

use crate::model::Track;
use crate::sequencer::TriggerEvent;

verus! {

/// Errors of the audio system.
#[derive(Debug)]
pub enum AudioError {
    /// The output device or a voice could not be set up.
    InitializationError(String),
    /// A sample file could not be read: (file name, reason).
    SampleLoadError(String, String),
    /// A trigger or volume change could not be carried out.
    PlaybackError(String),
    /// A track's sample binding points at no loaded sample.
    SampleNotFound(String),
    /// An input/output error, carried as its message.
    IoError(String),
}

/// An audio sample held in memory.
pub struct Sample {
    /// The name the sample is registered under.
    pub name: String,
    /// The raw bytes of the sample file.
    pub data: Vec<u8>,
}

/// A track's playback sink: what it has queued, and its gain.
pub struct Voice {
    /// Indices into the player's sample table, in playback order.  Under
    /// the one-shot policy the queue holds at most one sample.
    pub queue: Vec<usize>,
    /// Gain in permille.
    pub volume: u32,
}

/// A gain clamped into the unit interval, in permille.
pub open spec fn clamp_permille(v: int) -> int {
    if v < 0 {
        0
    } else if v > 1000 {
        1000
    } else {
        v
    }
}

/// The names of a sample table, in load order.
pub open spec fn names_of(samples: Seq<Sample>) -> Seq<Seq<char>> {
    Seq::new(samples.len(), |i: int| samples[i].name@)
}

/// Whether initializing over the sample table `names` succeeds: walking
/// the tracks in order, each track needs its file's bytes unless a sample
/// of its name is already loaded (by an earlier track or a previous load).
pub open spec fn init_succeeds(
    names: Seq<Seq<char>>,
    tracks: Seq<Track>,
    datas: Seq<Option<Vec<u8>>>,
) -> bool
    decreases tracks.len(),
{
    if tracks.len() == 0 {
        true
    } else if names.contains(tracks[0].name@) {
        init_succeeds(names, tracks.skip(1), datas.skip(1))
    } else if datas[0] is Some {
        init_succeeds(names.push(tracks[0].name@), tracks.skip(1), datas.skip(1))
    } else {
        false
    }
}

/// Copy a track configuration.
pub fn clone_track(t: &Track) -> (r: Track)
    ensures
        r == *t,
{
    Track { name: t.name.clone(), sample: t.sample.clone(), volume: t.volume }
}

/// The audio worker's state: sample table, per-track bindings, voices,
/// track configurations, and the effect processor.
pub struct SamplePlayer {
    /// Loaded samples, in load order.
    pub samples: Vec<Sample>,
    /// Per track, the index of its sample in the table.
    pub track_to_sample: Vec<Option<usize>>,
    /// Per track, its voice once one was created.
    pub voices: Vec<Option<Voice>>,
    /// Per track, its configuration.
    pub tracks: Vec<Option<Track>>,
    /// Directory sample files are resolved against.
    pub sample_dir: String,
    /// Whether triggers are served; initialization turns it on,
    /// deactivation off.
    pub active: bool,
    /// Per-track effect chains.
    pub processor: crate::effects::SampleProcessor,
}

impl SamplePlayer {
    /// Every sample binding points into the sample table.
    pub open spec fn wf(self) -> bool {
        forall|t: int|
            0 <= t < self.track_to_sample@.len() ==> match #[trigger] self.track_to_sample@[t] {
                Some(si) => si < self.samples@.len(),
                None => true,
            }
    }

    /// The names loaded so far, in load order.
    pub open spec fn sample_names(self) -> Seq<Seq<char>> {
        names_of(self.samples@)
    }

    /// A fresh player: nothing loaded, nothing bound, inactive.
    pub fn new(sample_dir: String) -> (p: SamplePlayer)
        ensures
            p.samples@ == Seq::<Sample>::empty(),
            p.track_to_sample@ == Seq::<Option<usize>>::empty(),
            p.voices@ == Seq::<Option<Voice>>::empty(),
            p.tracks@ == Seq::<Option<Track>>::empty(),
            p.sample_dir == sample_dir,
            !p.active,
            forall|t: int|
                #[trigger] p.processor.effects_of(t) == Seq::<crate::effects::SampleEffect>::empty(),
            p.wf(),
    {
        SamplePlayer {
            samples: Vec::new(),
            track_to_sample: Vec::new(),
            voices: Vec::new(),
            tracks: Vec::new(),
            sample_dir,
            active: false,
            processor: crate::effects::SampleProcessor::new(),
        }
    }

    /// Register a sample's bytes under a name; `data` is the file's
    /// contents, or `None` when the file could not be read, which is the
    /// one way loading fails.
    pub fn load_sample(&mut self, name: &str, file_path: &str, data: Option<Vec<u8>>) -> (r:
        Result<usize, AudioError>)
        ensures
            r is Ok <==> data is Some,
            r matches Ok(idx) ==> {
                &&& idx == old(self).samples@.len()
                &&& final(self).samples@.len() == old(self).samples@.len() + 1
                &&& final(self).samples@[idx as int].name@ == name@
                &&& final(self).samples@[idx as int].data == data->Some_0
                &&& final(self).samples@.subrange(0, idx as int) == old(self).samples@
                &&& final(self).sample_names() == old(self).sample_names().push(name@)
            },
            r is Err ==> *final(self) == *old(self) && (r matches Err(e) ==> e matches
                AudioError::SampleLoadError(f, _) && f@ == file_path@),
            final(self).track_to_sample == old(self).track_to_sample,
            final(self).voices == old(self).voices,
            final(self).tracks == old(self).tracks,
            final(self).sample_dir == old(self).sample_dir,
            final(self).active == old(self).active,
            final(self).processor == old(self).processor,
    {
        match data {
            Some(bytes) => {
                let idx = self.samples.len();
                self.samples.push(Sample { name: name.to_owned(), data: bytes });
                proof {
                    assert(self.samples@.subrange(0, idx as int) =~= old(self).samples@);
                    assert(self.sample_names() =~= old(self).sample_names().push(name@));
                }
                Ok(idx)
            },
            None => Err(
                AudioError::SampleLoadError(file_path.to_owned(), "Failed to open file".to_owned()),
            ),
        }
    }

    /// The table index of the first sample registered under `name`.
    pub fn find_sample(&self, name: &String) -> (r: Option<usize>)
        ensures
            r is Some <==> self.sample_names().contains(name@),
            r matches Some(i) ==> {
                &&& i < self.samples@.len()
                &&& self.samples@[i as int].name@ == name@
                &&& forall|j: int| 0 <= j < i ==> self.samples@[j].name@ != name@
            },
    {
        let n = self.samples.len();
        let mut i: usize = 0;
        while i < n
            invariant
                n == self.samples@.len(),
                i <= n,
                forall|j: int| 0 <= j < i ==> self.samples@[j].name@ != name@,
            decreases n - i,
        {
            if self.samples[i].name == *name {
                proof {
                    assert(self.sample_names()[i as int] == name@);
                }
                return Some(i);
            }
            i = i + 1;
        }
        proof {
            if self.sample_names().contains(name@) {
                let w = choose|w: int|
                    0 <= w < self.sample_names().len() && self.sample_names()[w] == name@;
                assert(self.samples@[w].name@ == name@);
            }
        }
        None
    }

    /// The index of the sample named `name`, loading it from `data` when no
    /// sample of that name is registered yet.  Loading the same name twice
    /// yields the same index.
    pub fn find_or_load_sample(&mut self, name: &String, file_path: &str, data: Option<Vec<u8>>)
        -> (r: Result<usize, AudioError>)
        ensures
            old(self).sample_names().contains(name@) ==> {
                &&& *final(self) == *old(self)
                &&& r matches Ok(i) && i < old(self).samples@.len()
                &&& old(self).samples@[r->Ok_0 as int].name@ == name@
                &&& forall|j: int| 0 <= j < r->Ok_0 ==> old(self).samples@[j].name@ != name@
            },
            !old(self).sample_names().contains(name@) ==> {
                &&& (r is Ok <==> data is Some)
                &&& r matches Ok(idx) ==> {
                    &&& idx == old(self).samples@.len()
                    &&& final(self).samples@.len() == old(self).samples@.len() + 1
                    &&& final(self).samples@[idx as int].name@ == name@
                    &&& final(self).samples@[idx as int].data == data->Some_0
                    &&& final(self).samples@.subrange(0, idx as int) == old(self).samples@
                    &&& final(self).sample_names() == old(self).sample_names().push(name@)
                }
                &&& r is Err ==> *final(self) == *old(self)
                &&& r matches Err(e) ==> e matches AudioError::SampleLoadError(_, _)
            },
            final(self).track_to_sample == old(self).track_to_sample,
            final(self).voices == old(self).voices,
            final(self).tracks == old(self).tracks,
            final(self).sample_dir == old(self).sample_dir,
            final(self).active == old(self).active,
            final(self).processor == old(self).processor,
    {
        match self.find_sample(name) {
            Some(i) => Ok(i),
            None => self.load_sample(name.as_str(), file_path, data),
        }
    }
}

/// The volume a track's configuration prescribes, when one is installed.
pub open spec fn config_volume(p: SamplePlayer, t: int) -> Option<u32> {
    if 0 <= t < p.tracks@.len() {
        match p.tracks@[t] {
            Some(tr) => Some(tr.volume),
            None => None,
        }
    } else {
        None
    }
}

/// `post` is `pre` after sample `si` was (re)started on `track`: the
/// track's voice exists, holds exactly `si` — whatever it was playing was
/// cut — and carries the configured volume (the prior gain, or full scale
/// for a fresh voice, when the track has no configuration).  No other
/// voice and nothing else of the player moves.
pub open spec fn plays(pre: SamplePlayer, post: SamplePlayer, track: int, si: usize) -> bool {
    let grown = if pre.voices@.len() >= track + 1 {
        pre.voices@.len() as int
    } else {
        track + 1
    };
    let prior_vol: u32 = if 0 <= track < pre.voices@.len() {
        match pre.voices@[track] {
            Some(v) => v.volume,
            None => 1000u32,
        }
    } else {
        1000u32
    };
    &&& post.voices@.len() == grown
    &&& (post.voices@[track] matches Some(v) && v.queue@ == seq![si] && v.volume == (
    match config_volume(pre, track) {
        Some(cv) => cv,
        None => prior_vol,
    }))
    &&& forall|t: int|
        0 <= t < post.voices@.len() && t != track ==> post.voices@[t] == (if t
            < pre.voices@.len() {
            pre.voices@[t]
        } else {
            None
        })
    &&& post.samples == pre.samples
    &&& post.track_to_sample == pre.track_to_sample
    &&& post.tracks == pre.tracks
    &&& post.sample_dir == pre.sample_dir
    &&& post.active == pre.active
    &&& post.processor == pre.processor
}

/// `post` is `pre` with every voice's queue cut and all else kept.
pub open spec fn all_stopped(pre: SamplePlayer, post: SamplePlayer) -> bool {
    &&& post.voices@.len() == pre.voices@.len()
    &&& forall|t: int|
        0 <= t < pre.voices@.len() ==> match pre.voices@[t] {
            Some(v) => (#[trigger] post.voices@[t]) matches Some(v2) && v2.queue@
                == Seq::<usize>::empty() && v2.volume == v.volume,
            None => post.voices@[t] is None,
        }
    &&& post.samples == pre.samples
    &&& post.track_to_sample == pre.track_to_sample
    &&& post.tracks == pre.tracks
    &&& post.sample_dir == pre.sample_dir
    &&& post.processor == pre.processor
}

/// What serving a trigger does to the player: nothing while inactive or
/// for a track without a binding; otherwise the bound sample restarts on
/// the track's voice.
pub open spec fn trigger_effect(pre: SamplePlayer, post: SamplePlayer, track: int) -> bool {
    if !pre.active {
        post == pre
    } else if !(0 <= track < pre.track_to_sample@.len()) || pre.track_to_sample@[track] is None {
        post == pre
    } else {
        let si = pre.track_to_sample@[track]->Some_0;
        if si < pre.samples@.len() {
            plays(pre, post, track, si)
        } else {
            post == pre
        }
    }
}

impl SamplePlayer {
    /// Bind every track to its sample, loading files that are not yet in
    /// the table, and create each track's voice at the configured volume.
    /// `datas[i]` carries the bytes of track `i`'s sample file, or `None`
    /// when the file could not be read; the first track that needs an
    /// unreadable file fails initialization.  On success the player is
    /// active.
    pub fn initialize_with_tracks(&mut self, tracks: &Vec<Track>, datas: &Vec<Option<Vec<u8>>>)
        -> (r: Result<(), AudioError>)
        requires
            datas@.len() == tracks@.len(),
        ensures
            r is Ok <==> init_succeeds(old(self).sample_names(), tracks@, datas@),
            r is Ok ==> {
                &&& final(self).active
                &&& final(self).track_to_sample@.len() == tracks@.len()
                &&& final(self).voices@.len() == tracks@.len()
                &&& final(self).tracks@.len() == tracks@.len()
                &&& forall|i: int|
                    0 <= i < tracks@.len() ==> {
                        &&& (#[trigger] final(self).track_to_sample@[i]) matches Some(si) && si
                            < final(self).samples@.len() && final(self).samples@[si as int].name@
                            == tracks@[i].name@
                        &&& final(self).voices@[i] matches Some(v) && v.queue@
                            == Seq::<usize>::empty() && v.volume == tracks@[i].volume
                        &&& final(self).tracks@[i] == Some(tracks@[i])
                    }
            },
            r is Err ==> final(self).active == old(self).active,
            r matches Err(e) ==> e matches AudioError::SampleLoadError(_, _),
            final(self).samples@.len() >= old(self).samples@.len(),
            final(self).samples@.subrange(0, old(self).samples@.len() as int) == old(
                self,
            ).samples@,
            final(self).sample_dir == old(self).sample_dir,
            final(self).processor == old(self).processor,
            final(self).wf(),
    {
        self.track_to_sample = Vec::new();
        self.voices = Vec::new();
        self.tracks = Vec::new();
        proof {
            assert(tracks@.skip(0) =~= tracks@);
            assert(datas@.skip(0) =~= datas@);
        }
        let n = tracks.len();
        let mut k: usize = 0;
        while k < n
            invariant
                n == tracks@.len(),
                n == datas@.len(),
                k <= n,
                init_succeeds(self.sample_names(), tracks@.skip(k as int), datas@.skip(k as int))
                    == init_succeeds(old(self).sample_names(), tracks@, datas@),
                self.track_to_sample@.len() == k,
                self.voices@.len() == k,
                self.tracks@.len() == k,
                forall|i: int|
                    0 <= i < k ==> {
                        &&& (#[trigger] self.track_to_sample@[i]) matches Some(si) && si
                            < self.samples@.len() && self.samples@[si as int].name@
                            == tracks@[i].name@
                        &&& self.voices@[i] matches Some(v) && v.queue@ == Seq::<usize>::empty()
                            && v.volume == tracks@[i].volume
                        &&& self.tracks@[i] == Some(tracks@[i])
                    },
                self.samples@.len() >= old(self).samples@.len(),
                self.samples@.subrange(0, old(self).samples@.len() as int) == old(self).samples@,
                self.sample_dir == old(self).sample_dir,
                self.processor == old(self).processor,
                self.active == old(self).active,
            decreases n - k,
        {
            let tr = &tracks[k];
            let ghost names_pre = self.sample_names();
            let ghost self_pre = *self;
            let data_k: Option<Vec<u8>> = match &datas[k] {
                Some(d) => {
                    let d2 = d.clone();
                    proof {
                        assert(d2@ =~= d@);
                    }
                    Some(d2)
                },
                None => None,
            };
            proof {
                assert(data_k is Some <==> datas@[k as int] is Some);
                assert(tracks@.skip(k as int)[0] == tracks@[k as int]);
                assert(datas@.skip(k as int)[0] == datas@[k as int]);
                assert(tracks@.skip(k as int).skip(1) =~= tracks@.skip(k as int + 1));
                assert(datas@.skip(k as int).skip(1) =~= datas@.skip(k as int + 1));
            }
            let si_res = self.find_or_load_sample(&tr.name, tr.sample.as_str(), data_k);
            match si_res {
                Ok(si) => {
                    self.track_to_sample.push(Some(si));
                    self.voices.push(Some(Voice { queue: Vec::new(), volume: tr.volume }));
                    self.tracks.push(Some(clone_track(tr)));
                    proof {
                        if names_pre.contains(tracks@[k as int].name@) {
                            assert(self.sample_names() == names_pre);
                        } else {
                            assert(self.sample_names() == names_pre.push(
                                tracks@[k as int].name@,
                            ));
                        }
                        assert(self.samples@.subrange(0, old(self).samples@.len() as int) =~= old(
                            self,
                        ).samples@);
                        assert(self.samples@[self.track_to_sample@[k as int]->Some_0 as int].name@
                            == tracks@[k as int].name@);
                    }
                    k = k + 1;
                },
                Err(e) => {
                    proof {
                        assert(!names_pre.contains(tracks@[k as int].name@));
                        assert(datas@[k as int] is None);
                        assert(!init_succeeds(
                            names_pre,
                            tracks@.skip(k as int),
                            datas@.skip(k as int),
                        ));
                    }
                    return Err(e);
                },
            }
        }
        proof {
            assert(tracks@.skip(n as int).len() == 0);
            assert(init_succeeds(
                self.sample_names(),
                tracks@.skip(n as int),
                datas@.skip(n as int),
            ));
        }
        self.active = true;
        Ok(())
    }

    /// Serve a trigger from the sequencer: while active, restart the
    /// track's bound sample on its voice; inactive players and unbound
    /// tracks ignore the trigger.  The one error is a binding that points
    /// outside the sample table.
    pub fn process_trigger(&mut self, event: &TriggerEvent) -> (r: Result<(), AudioError>)
        ensures
            trigger_effect(*old(self), *final(self), event.track_idx as int),
            r is Err <==> (old(self).active && 0 <= event.track_idx
                < old(self).track_to_sample@.len() && (old(
                self,
            ).track_to_sample@[event.track_idx as int] matches Some(si) && si >= old(
                self,
            ).samples@.len())),
            r matches Err(e) ==> e matches AudioError::SampleNotFound(_),
    {
        if !self.active {
            return Ok(());
        }
        let track_idx = event.track_idx;
        if track_idx >= self.track_to_sample.len() {
            return Ok(());
        }
        let binding = self.track_to_sample[track_idx];
        match binding {
            None => Ok(()),
            Some(sample_idx) => {
                if sample_idx >= self.samples.len() {
                    return Err(
                        AudioError::SampleNotFound("Sample index out of bounds".to_owned()),
                    );
                }
                self.play_sample(track_idx, sample_idx)
            },
        }
    }

    /// Start `sample_idx` on `track_idx`'s voice, creating the voice if the
    /// track has none: the queue is cut and the sample appended, so a
    /// retrigger cancels whatever the track was playing.
    pub fn play_sample(&mut self, track_idx: usize, sample_idx: usize) -> (r: Result<
        (),
        AudioError,
    >)
        requires
            sample_idx < old(self).samples@.len(),
        ensures
            r is Ok,
            plays(*old(self), *final(self), track_idx as int, sample_idx),
    {
        while self.voices.len() <= track_idx
            invariant
                old(self).voices@.len() > track_idx ==> self.voices@.len() == old(
                    self,
                ).voices@.len(),
                old(self).voices@.len() <= track_idx ==> self.voices@.len() <= track_idx + 1,
                old(self).voices@.len() <= self.voices@.len(),
                forall|t: int|
                    0 <= t < self.voices@.len() ==> #[trigger] self.voices@[t] == (if t < old(
                        self,
                    ).voices@.len() {
                        old(self).voices@[t]
                    } else {
                        None
                    }),
                self.samples == old(self).samples,
                self.track_to_sample == old(self).track_to_sample,
                self.tracks == old(self).tracks,
                self.sample_dir == old(self).sample_dir,
                self.active == old(self).active,
                self.processor == old(self).processor,
            decreases track_idx + 1 - self.voices@.len(),
        {
            self.voices.push(None);
        }
        let prior_vol: u32 = match &self.voices[track_idx] {
            Some(v) => v.volume,
            None => 1000,
        };
        let new_vol: u32 = if track_idx < self.tracks.len() {
            match &self.tracks[track_idx] {
                Some(t) => t.volume,
                None => prior_vol,
            }
        } else {
            prior_vol
        };
        let mut queue: Vec<usize> = Vec::new();
        queue.push(sample_idx);
        self.voices.set(track_idx, Some(Voice { queue, volume: new_vol }));
        Ok(())
    }

    /// Cut every voice's queue; gains and bindings stay.
    pub fn stop_all(&mut self)
        ensures
            all_stopped(*old(self), *final(self)),
            final(self).active == old(self).active,
    {
        let n = self.voices.len();
        let mut i: usize = 0;
        while i < n
            invariant
                n == self.voices@.len(),
                i <= n,
                forall|t: int|
                    0 <= t < i ==> match old(self).voices@[t] {
                        Some(v) => (#[trigger] self.voices@[t]) matches Some(v2) && v2.queue@
                            == Seq::<usize>::empty() && v2.volume == v.volume,
                        None => self.voices@[t] is None,
                    },
                forall|t: int| i <= t < n ==> #[trigger] self.voices@[t] == old(self).voices@[t],
                self.samples == old(self).samples,
                self.track_to_sample == old(self).track_to_sample,
                self.tracks == old(self).tracks,
                self.sample_dir == old(self).sample_dir,
                self.active == old(self).active,
                self.processor == old(self).processor,
            decreases n - i,
        {
            let voice = &mut self.voices[i];
            match voice {
                Some(v) => {
                    v.queue.clear();
                },
                None => {},
            }
            i = i + 1;
        }
    }

    /// Set a track's gain, clamped into the unit interval.  Fails exactly
    /// when the track has no voice yet.
    pub fn set_track_volume(&mut self, track_idx: usize, volume: i64) -> (r: Result<
        (),
        AudioError,
    >)
        ensures
            r is Ok <==> (track_idx < old(self).voices@.len() && old(
                self,
            ).voices@[track_idx as int] is Some),
            r is Ok ==> {
                &&& final(self).voices@.len() == old(self).voices@.len()
                &&& (final(self).voices@[track_idx as int] matches Some(v2) && old(
                    self,
                ).voices@[track_idx as int] matches Some(v1) && v2.queue == v1.queue && v2.volume
                    == clamp_permille(volume as int))
                &&& forall|t: int|
                    0 <= t < old(self).voices@.len() && t != track_idx
                        ==> #[trigger] final(self).voices@[t] == old(self).voices@[t]
            },
            r is Err ==> *final(self) == *old(self),
            r matches Err(e) ==> e matches AudioError::PlaybackError(_),
            final(self).samples == old(self).samples,
            final(self).track_to_sample == old(self).track_to_sample,
            final(self).tracks == old(self).tracks,
            final(self).sample_dir == old(self).sample_dir,
            final(self).active == old(self).active,
            final(self).processor == old(self).processor,
    {
        let clamped: u32 = if volume < 0 {
            0
        } else if volume > 1000 {
            1000
        } else {
            volume as u32
        };
        if track_idx >= self.voices.len() {
            return Err(AudioError::PlaybackError("Track not found".to_owned()));
        }
        let has_voice = self.voices[track_idx].is_some();
        if !has_voice {
            return Err(AudioError::PlaybackError("Track not found".to_owned()));
        }
        let voice = &mut self.voices[track_idx];
        match voice {
            Some(v) => {
                v.volume = clamped;
            },
            None => {
                proof {
                    assert(false);
                }
            },
        }
        Ok(())
    }

    /// Whether the player serves triggers.
    pub fn is_active(&self) -> (active: bool)
        ensures
            active == self.active,
    {
        self.active
    }
}

} // verus!
