//! The virtual playback clock: a cursor of elapsed milliseconds that
//! advances with wall-clock time while playing and can be moved by hand.

use vstd::prelude::*;

verus! {

/// The step of the rewind and fast-forward controls, in milliseconds.
pub const SEEK_STEP_MS: i64 = 5_000;

/// `x` brought into the range of an unsigned 128-bit count.
pub open spec fn clamped(x: int) -> u128 {
    if x < 0 {
        0
    } else if x > u128::MAX {
        u128::MAX
    } else {
        x as u128
    }
}

#[derive(Clone, Copy, Debug, PartialEq, Eq, Structural)]
pub struct PlaybackState {
    /// Virtual time elapsed since the last reset.
    pub playback_time_ms: u128,
    /// Shift added to the playback time where it is displayed.
    pub offset_ms: u128,
    pub playing: bool,
    /// The wall-clock reading, in milliseconds, at which the current play
    /// segment began or was last folded into the playback time.
    pub last_tick_ms: u128,
}

impl PlaybackState {
    pub open spec fn initial() -> PlaybackState {
        PlaybackState { playback_time_ms: 0, offset_ms: 0, playing: false, last_tick_ms: 0 }
    }

    /// The displayed time: playback time plus offset, held at the largest
    /// count where the sum would pass it.
    pub open spec fn displayed_ms(self) -> u128 {
        clamped(self.playback_time_ms + self.offset_ms)
    }

    pub open spec fn played(self, now_ms: u128) -> PlaybackState {
        if self.playing {
            self
        } else {
            PlaybackState { playing: true, last_tick_ms: now_ms, ..self }
        }
    }

    pub open spec fn paused(self) -> PlaybackState {
        PlaybackState { playing: false, ..self }
    }

    /// The wall-clock time that passed since the last reading; none where
    /// the clock reads earlier than before.
    pub open spec fn elapsed_ms(self, now_ms: u128) -> nat {
        if now_ms >= self.last_tick_ms {
            (now_ms - self.last_tick_ms) as nat
        } else {
            0
        }
    }

    pub open spec fn ticked(self, now_ms: u128) -> PlaybackState {
        if self.playing {
            PlaybackState {
                playback_time_ms: clamped(self.playback_time_ms + self.elapsed_ms(now_ms)),
                last_tick_ms: now_ms,
                ..self
            }
        } else {
            self
        }
    }

    pub open spec fn sought(self, target_ms: u128) -> PlaybackState {
        if self.playing {
            self
        } else {
            PlaybackState { playback_time_ms: target_ms, ..self }
        }
    }

    pub open spec fn adjusted(self, delta_ms: i64) -> PlaybackState {
        PlaybackState { playback_time_ms: clamped(self.playback_time_ms + delta_ms), ..self }
    }

    pub open spec fn rewound(self) -> PlaybackState {
        PlaybackState { playback_time_ms: 0, ..self }
    }

    pub open spec fn with_offset(self, offset_ms: u128) -> PlaybackState {
        if self.playing {
            self
        } else {
            PlaybackState { offset_ms, ..self }
        }
    }

    /// A paused clock at zero with no offset.
    pub fn new() -> (state: PlaybackState)
        ensures
            state == PlaybackState::initial(),
    {
        PlaybackState { playback_time_ms: 0, offset_ms: 0, playing: false, last_tick_ms: 0 }
    }

    /// Starts a play segment at the wall-clock reading `now_ms`. Does
    /// nothing while already playing.
    pub fn play(&mut self, now_ms: u128)
        ensures
            *final(self) == old(self).played(now_ms),
    {
        if !self.playing {
            self.last_tick_ms = now_ms;
            self.playing = true;
        }
    }

    /// Stops playing. The playback time stays where it is.
    pub fn pause(&mut self)
        ensures
            *final(self) == old(self).paused(),
    {
        self.playing = false;
    }

    /// While playing, adds the wall-clock time since the last reading to
    /// the playback time. Does nothing while paused.
    pub fn tick(&mut self, now_ms: u128)
        ensures
            *final(self) == old(self).ticked(now_ms),
    {
        if self.playing {
            let delta = now_ms.saturating_sub(self.last_tick_ms);
            self.playback_time_ms = self.playback_time_ms.saturating_add(delta);
            self.last_tick_ms = now_ms;
        }
    }

    /// While paused, moves the playback time to `target_ms`. Does nothing
    /// while playing.
    pub fn seek(&mut self, target_ms: u128)
        ensures
            *final(self) == old(self).sought(target_ms),
            old(self).playing ==> *final(self) == *old(self),
            !old(self).playing ==> final(self).playback_time_ms == target_ms,
    {
        if !self.playing {
            self.playback_time_ms = target_ms;
        }
    }

    /// Moves the playback time by `delta_ms`, forwards or backwards, and
    /// stops at zero and at the largest count. Allowed in every state.
    pub fn adjust(&mut self, delta_ms: i64)
        ensures
            *final(self) == old(self).adjusted(delta_ms),
    {
        if delta_ms >= 0 {
            self.playback_time_ms = self.playback_time_ms.saturating_add(delta_ms as u128);
        } else {
            let back: u128 = (-(delta_ms as i128)) as u128;
            self.playback_time_ms = self.playback_time_ms.saturating_sub(back);
        }
    }

    /// Moves the playback time back to zero.
    pub fn reset(&mut self)
        ensures
            *final(self) == old(self).rewound(),
    {
        self.playback_time_ms = 0;
    }

    /// While paused, replaces the offset. Does nothing while playing.
    pub fn set_offset(&mut self, offset_ms: u128)
        ensures
            *final(self) == old(self).with_offset(offset_ms),
    {
        if !self.playing {
            self.offset_ms = offset_ms;
        }
    }

    /// The displayed time in milliseconds.
    pub fn current_time_ms(&self) -> (ms: u128)
        ensures
            ms == self.displayed_ms(),
    {
        self.playback_time_ms.saturating_add(self.offset_ms)
    }

    /// Whether periodic ticks are wanted: only while playing.
    pub fn wants_ticks(&self) -> (wanted: bool)
        ensures
            wanted == self.playing,
    {
        self.playing
    }
}

/// Pressing play twice is the same as pressing it once.
pub proof fn lemma_play_idempotent(state: PlaybackState, first_ms: u128, second_ms: u128)
    ensures
        state.played(first_ms).played(second_ms) == state.played(first_ms),
{
}

/// Without wraparound of the wall clock, two ticks in a row add up to one
/// tick at the later reading.
pub proof fn lemma_ticks_accumulate(state: PlaybackState, first_ms: u128, second_ms: u128)
    requires
        state.last_tick_ms <= first_ms <= second_ms,
    ensures
        state.ticked(first_ms).ticked(second_ms) == state.ticked(second_ms),
{
}

/// Playing, pausing and a new offset leave the playback time alone. So
/// does a seek while playing and a tick while paused: while playing only
/// ticks, steps and resets move it.
pub proof fn lemma_playback_time_kept(
    state: PlaybackState,
    now_ms: u128,
    offset_ms: u128,
    target_ms: u128,
)
    ensures
        state.played(now_ms).playback_time_ms == state.playback_time_ms,
        state.paused().playback_time_ms == state.playback_time_ms,
        state.with_offset(offset_ms).playback_time_ms == state.playback_time_ms,
        state.playing ==> state.sought(target_ms) == state,
        !state.playing ==> state.sought(target_ms).playback_time_ms == target_ms,
        !state.playing ==> state.ticked(now_ms) == state,
{
}

/// A step that would end below zero ends at zero. A step that stays in
/// range moves the playback time by exactly that much. Play state and
/// offset stay as they are.
pub proof fn lemma_adjust_saturates(state: PlaybackState, delta_ms: i64)
    ensures
        state.playback_time_ms + delta_ms <= 0 ==> state.adjusted(delta_ms).playback_time_ms == 0,
        0 <= state.playback_time_ms + delta_ms <= u128::MAX ==> state.adjusted(
            delta_ms,
        ).playback_time_ms == state.playback_time_ms + delta_ms,
        state.adjusted(delta_ms).playing == state.playing,
        state.adjusted(delta_ms).offset_ms == state.offset_ms,
{
}

} // verus!
