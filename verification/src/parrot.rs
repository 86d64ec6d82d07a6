//! Bounded native-parrot recording and playback state.
//!
//! The recorder keeps preallocated storage, a recording cursor, a playback
//! cursor and the carrier-transition state, so an audio callback never
//! allocates.  Recording appends up to a caller-supplied limit and marks the
//! recording truncated when input is refused; the carrier's falling edge
//! starts playback of exactly what was recorded.

use vstd::prelude::*;
use crate::RADIO_INVALID_ARGUMENT;

verus! {

/// Observable state of one native-parrot recording.
#[derive(Clone, Copy, Debug, PartialEq, Eq, Structural)]
pub struct Status {
    /// Samples recorded since the last reset.
    pub recorded_samples: u64,
    /// Samples already played back.
    pub playback_offset: u64,
    /// One while playback is in progress.
    pub playing: u32,
    /// One when recording refused input since the last reset.
    pub truncated: u32,
}

impl Default for Status {
    fn default() -> (status: Self)
        ensures
            status == (Status { recorded_samples: 0, playback_offset: 0, playing: 0, truncated: 0 }),
    {
        Status { recorded_samples: 0, playback_offset: 0, playing: 0, truncated: 0 }
    }
}

/// Recorder cursor state over its bound storage.
pub struct State<T> {
    storage: Vec<T>,
    count: u32,
    play: u32,
    playing: bool,
    truncated: bool,
}

/// Abstract recorder state.
pub struct ParrotModel<T> {
    /// Bound storage, empty when unbound.
    pub storage: Seq<T>,
    /// Samples recorded since the last reset, oldest first.
    pub recording: Seq<T>,
    /// Samples already played back.
    pub play: nat,
    /// Playback in progress.
    pub playing: bool,
    /// Recording refused input since the last reset.
    pub truncated: bool,
}

/// Samples that one playback call of up to `frames` samples copies.
pub open spec fn spec_played<T>(model: ParrotModel<T>, frames: nat) -> Seq<T> {
    if !model.playing {
        Seq::empty()
    } else {
        let remaining = model.recording.len() - model.play;
        let count = if frames < remaining { frames as int } else { remaining };
        model.recording.subrange(model.play as int, model.play + count)
    }
}

/// The recorder after one playback call of up to `frames` samples.
pub open spec fn spec_after_play<T>(model: ParrotModel<T>, frames: nat) -> ParrotModel<T> {
    if !model.playing {
        model
    } else {
        let played = model.play + spec_played(model, frames).len();
        ParrotModel { play: played, playing: played < model.recording.len(), ..model }
    }
}

impl<T> View for State<T> {
    type V = ParrotModel<T>;

    closed spec fn view(&self) -> ParrotModel<T> {
        ParrotModel {
            storage: self.storage@,
            recording: self.storage@.take(self.count as int),
            play: self.play as nat,
            playing: self.playing,
            truncated: self.truncated,
        }
    }
}

impl<T: Copy> State<T> {
    /// Cursor invariant: the recording fits the storage and playback never
    /// passes the recording.
    pub closed spec fn wf(&self) -> bool {
        &&& self.storage.len() <= u32::MAX
        &&& self.count <= self.storage.len()
        &&& self.play <= self.count
    }

    /// An unbound, idle recorder.
    pub fn new() -> (state: Self)
        ensures
            state.wf(),
            state@.storage.len() == 0,
            state@.recording.len() == 0,
            state@.play == 0,
            !state@.playing,
            !state@.truncated,
    {
        State { storage: Vec::new(), count: 0, play: 0, playing: false, truncated: false }
    }

    /// Bind an idle recorder to its storage; a recorder holding a recording,
    /// or marked truncated, keeps its storage.
    pub fn bind(&mut self, storage: Vec<T>) -> (result: Result<(), i32>)
        requires
            old(self).wf(),
            storage.len() <= u32::MAX,
        ensures
            final(self).wf(),
            result is Ok <==> (storage.len() != 0 && old(self)@.recording.len() == 0 && !old(self)@.truncated),
            result matches Err(code) ==> code == RADIO_INVALID_ARGUMENT && final(self)@ == old(self)@,
            result is Ok ==> final(self)@ == (ParrotModel {
                storage: storage@,
                recording: Seq::<T>::empty(),
                play: old(self)@.play,
                playing: old(self)@.playing,
                truncated: false,
            }),
    {
        if storage.len() == 0 || self.count != 0 || self.truncated {
            return Err(RADIO_INVALID_ARGUMENT);
        }
        self.storage = storage;
        self.truncated = false;
        assert(self@.recording =~= Seq::<T>::empty());
        Ok(())
    }

    /// Clear recording and playback state without releasing storage.
    pub fn reset(&mut self)
        requires
            old(self).wf(),
        ensures
            final(self).wf(),
            final(self)@ == (ParrotModel {
                storage: old(self)@.storage,
                recording: Seq::<T>::empty(),
                play: 0,
                playing: false,
                truncated: false,
            }),
    {
        self.count = 0;
        self.play = 0;
        self.playing = false;
        self.truncated = false;
        assert(self@.recording =~= Seq::<T>::empty());
    }

    /// Apply the legacy carrier transition rules and report playback start:
    /// a rising edge clears the recorder, a falling edge with a recording
    /// starts playback from its beginning.
    pub fn rx_transition(&mut self, was_keyed: u32, is_keyed: u32) -> (started: bool)
        requires
            old(self).wf(),
        ensures
            final(self).wf(),
            was_keyed == 0 && is_keyed != 0 ==> !started && final(self)@ == (ParrotModel {
                storage: old(self)@.storage,
                recording: Seq::<T>::empty(),
                play: 0,
                playing: false,
                truncated: false,
            }),
            was_keyed != 0 && is_keyed == 0 && old(self)@.recording.len() != 0 ==> started
                && final(self)@ == (ParrotModel { play: 0, playing: true, ..old(self)@ }),
            !(was_keyed == 0 && is_keyed != 0) && !(was_keyed != 0 && is_keyed == 0
                && old(self)@.recording.len() != 0) ==> !started && final(self)@ == old(self)@,
    {
        if was_keyed == 0 && is_keyed != 0 {
            self.reset();
            false
        } else if was_keyed != 0 && is_keyed == 0 && self.count != 0 {
            self.play = 0;
            self.playing = true;
            true
        } else {
            false
        }
    }

    /// Append as much of one span as `limit` permits; report how many
    /// samples were kept.  Refused samples mark the recording truncated.
    pub fn record(&mut self, input: &[T], limit: u32) -> (result: Result<u32, i32>)
        requires
            old(self).wf(),
            input.len() <= u32::MAX,
        ensures
            final(self).wf(),
            result is Err <==> (limit > old(self)@.storage.len() || old(self)@.storage.len() == 0),
            result matches Err(code) ==> code == RADIO_INVALID_ARGUMENT && final(self)@ == old(self)@,
            result matches Ok(recorded) ==> ({
                let available = if limit > old(self)@.recording.len() { limit - old(self)@.recording.len() } else { 0 };
                let kept = if input.len() < available { input.len() as int } else { available };
                &&& recorded == kept
                &&& final(self)@.storage.len() == old(self)@.storage.len()
                &&& final(self)@.recording == old(self)@.recording + input@.take(kept)
                &&& final(self)@.play == old(self)@.play
                &&& final(self)@.playing == old(self)@.playing
                &&& final(self)@.truncated == (old(self)@.truncated || kept != input.len())
            }),
    {
        let capacity = self.storage.len() as u32;
        if limit > capacity || self.storage.len() == 0 {
            return Err(RADIO_INVALID_ARGUMENT);
        }
        let frame_count = input.len() as u32;
        let available: u32 = if limit > self.count { limit - self.count } else { 0 };
        let recorded: u32 = if frame_count < available { frame_count } else { available };
        let ghost before = self@.recording;
        let ghost start = self.count as int;
        let mut index: u32 = 0;
        while index < recorded
            invariant
                self.wf(),
                self.count == start,
                start + recorded <= self.storage.len(),
                recorded <= input.len(),
                index <= recorded,
                self.storage@.take(start) == before,
                forall|k: int| 0 <= k < index ==> #[trigger] self.storage@[start + k] == input@[k],
                self.storage.len() == old(self).storage.len(),
                self.play == old(self).play,
                self.playing == old(self).playing,
                self.truncated == old(self).truncated,
            decreases recorded - index,
        {
            let position = (self.count + index) as usize;
            self.storage.set(position, input[index as usize]);
            proof {
                assert(self.storage@.take(start) =~= before);
            }
            index = index + 1;
        }
        self.count = self.count + recorded;
        if recorded != frame_count {
            self.truncated = true;
        }
        proof {
            let after = self.storage@.take(self.count as int);
            assert forall|i: int| 0 <= i < start implies #[trigger] after[i] == before[i] by {
                assert(self.storage@.take(start)[i] == self.storage@[i]);
            }
            assert forall|i: int| start <= i < start + recorded implies #[trigger] after[i]
                == input@.take(recorded as int)[i - start] by {
                assert(self.storage@[start + (i - start)] == input@[i - start]);
            }
            assert(after =~= before + input@.take(recorded as int));
        }
        Ok(recorded)
    }

    /// Copy the next playback span into the front of `output`; report how
    /// many samples were copied.  Playback ends once the recording is spent.
    pub fn play(&mut self, output: &mut Vec<T>) -> (copied: u32)
        requires
            old(self).wf(),
            old(output).len() <= u32::MAX,
        ensures
            final(self).wf(),
            final(output).len() == old(output).len(),
            !old(self)@.playing ==> copied == 0 && final(self)@ == old(self)@ && final(output)@ == old(output)@,
            old(self)@.playing ==> ({
                let remaining = old(self)@.recording.len() - old(self)@.play;
                let count = if old(output).len() < remaining { old(output).len() as int } else { remaining };
                &&& copied == count
                &&& final(output)@ == old(self)@.recording.subrange(
                    old(self)@.play as int,
                    old(self)@.play + count,
                ) + old(output)@.skip(count)
                &&& final(self)@.play == old(self)@.play + count
                &&& final(self)@.playing == (old(self)@.play + count < old(self)@.recording.len())
                &&& final(self)@.storage == old(self)@.storage
                &&& final(self)@.recording == old(self)@.recording
                &&& final(self)@.truncated == old(self)@.truncated
            }),
            final(self)@ == spec_after_play(old(self)@, old(output).len() as nat),
            final(output)@.take(copied as int) == spec_played(old(self)@, old(output).len() as nat),
    {
        if !self.playing {
            assert(old(output)@.take(0) =~= Seq::<T>::empty());
            return 0;
        }
        let frame_count = output.len() as u32;
        let remaining = self.count - self.play;
        let copied: u32 = if frame_count < remaining { frame_count } else { remaining };
        let ghost start = self.play as int;
        let mut index: u32 = 0;
        while index < copied
            invariant
                self.wf(),
                self.play == start,
                start + copied <= self.count,
                copied <= output.len(),
                output.len() == old(output).len(),
                index <= copied,
                forall|k: int| 0 <= k < index ==> #[trigger] output@[k] == self.storage@[start + k],
                forall|k: int| copied <= k < output.len() ==> #[trigger] output@[k] == old(output)@[k],
                self.storage@ == old(self).storage@,
                self.count == old(self).count,
            decreases copied - index,
        {
            let value = self.storage[(self.play + index) as usize];
            output.set(index as usize, value);
            index = index + 1;
        }
        self.play = self.play + copied;
        if self.play >= self.count {
            self.playing = false;
        }
        assert(output@ =~= old(self)@.recording.subrange(start, start + copied) + old(output)@.skip(copied as int));
        assert(output@.take(copied as int) =~= old(self)@.recording.subrange(start, start + copied));
        copied
    }

    /// The current recording and playback state.
    pub fn status(&self) -> (status: Status)
        requires
            self.wf(),
        ensures
            status == (Status {
                recorded_samples: self@.recording.len() as u64,
                playback_offset: self@.play as u64,
                playing: if self@.playing { 1 } else { 0 },
                truncated: if self@.truncated { 1 } else { 0 },
            }),
    {
        Status {
            recorded_samples: self.count as u64,
            playback_offset: self.play as u64,
            playing: if self.playing { 1 } else { 0 },
            truncated: if self.truncated { 1 } else { 0 },
        }
    }
}

/// Playing back in two calls copies what one call of their combined length
/// copies, and leaves the recorder in the same state.
pub proof fn lemma_play_partition<T>(model: ParrotModel<T>, first: nat, second: nat)
    requires
        model.play <= model.recording.len(),
        model.playing ==> model.play < model.recording.len(),
    ensures
        spec_played(model, first) + spec_played(spec_after_play(model, first), second) == spec_played(model, first + second),
        spec_after_play(spec_after_play(model, first), second) == spec_after_play(model, first + second),
{
    if model.playing {
        let middle = spec_after_play(model, first);
        let a = spec_played(model, first);
        let b = spec_played(middle, second);
        let remaining = model.recording.len() - model.play;
        if first >= remaining {
            assert(!middle.playing);
            assert(b =~= Seq::<T>::empty());
            assert(a + b =~= a);
        } else {
            assert(a + b =~= spec_played(model, first + second));
        }
    }
}

/// A falling carrier edge after a recording starts playback, and playing
/// back at least as many samples as were recorded returns exactly the
/// recording and ends playback.
pub proof fn lemma_playback_reproduces_recording<T>(model: ParrotModel<T>, frames: nat)
    requires
        model.recording.len() > 0,
        frames >= model.recording.len(),
    ensures
        ({
            let started = ParrotModel { play: 0, playing: true, ..model };
            &&& spec_played(started, frames) == model.recording
            &&& !spec_after_play(started, frames).playing
        }),
{
    let started = ParrotModel { play: 0, playing: true, ..model };
    assert(spec_played(started, frames) =~= model.recording);
}

} // verus!
