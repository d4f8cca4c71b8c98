//! The detector of one channel.
use crate::config::AppParams;
use crate::matcher::{is_play_request, matches_play};
use crate::model::{all_clear, clear_history, match_count, next_cursor, ChannelState, Decision};
use crate::tally::{lemma_clear_history_counts_zero, lemma_small_step};
use vstd::prelude::*;

verus! {

/// What the application remembers of one channel: the flags of its latest
/// messages, where the last one was written, and from when it may play.
#[derive(Debug)]
pub struct ChannelMarbleState {
    login: String,
    history: Vec<bool>,
    cursor: usize,
    /// Wider than a clock reading, so that a reading plus a cooldown always
    /// fits.
    next_eligible_at: u128,
}

impl View for ChannelMarbleState {
    type V = ChannelState;

    closed spec fn view(&self) -> ChannelState {
        ChannelState {
            login: self.login@,
            history: self.history@,
            cursor: self.cursor as nat,
            next_eligible_at: self.next_eligible_at as nat,
        }
    }
}

impl ChannelMarbleState {
    /// The history has a slot and the cursor points into it.
    pub open spec fn wf(&self) -> bool {
        self@.wf()
    }

    /// The state of a channel that has seen no message. The channel may play
    /// from `now` on.
    pub fn new(login: String, history_size: usize, now: u64) -> (state: ChannelMarbleState)
        requires
            history_size >= 1,
        ensures
            state.wf(),
            state@ == ChannelState::fresh(login@, history_size as nat, now as nat),
    {
        let mut history: Vec<bool> = Vec::new();
        let mut i: usize = 0;
        while i < history_size
            invariant
                i <= history_size,
                history@ =~= clear_history(i as nat),
            decreases history_size - i,
        {
            history.push(false);
            i = i + 1;
        }
        ChannelMarbleState { login, history, cursor: 0, next_eligible_at: now as u128 }
    }

    /// Records one message seen at `now` and decides whether the channel
    /// plays. The message is recorded in any case. The channel plays if its
    /// cooldown is over and the threshold is reached; the history is then
    /// cleared and the next cooldown starts at `now`.
    pub fn process_message(&mut self, app_params: &AppParams, message: &str, now: u64) -> (decision:
        Decision)
        requires
            old(self).wf(),
        ensures
            final(self).wf(),
            final(self)@ == old(self)@.observe(app_params@, matches_play(message@), now as nat),
            decision == old(self)@.decision(app_params@, matches_play(message@), now as nat),
            final(self)@.login == old(self)@.login,
            final(self)@.history.len() == old(self)@.history.len(),
            final(self)@.cursor == next_cursor(old(self)@.cursor, old(self)@.history.len()),
            final(self)@.next_eligible_at >= old(self)@.next_eligible_at,
            decision == Decision::Fire ==> {
                &&& now >= old(self)@.next_eligible_at
                &&& match_count(final(self)@.history) == 0
                &&& final(self)@.next_eligible_at == now + app_params@.cooldown
            },
            decision == Decision::NoFire ==> {
                &&& final(self)@.next_eligible_at == old(self)@.next_eligible_at
                &&& final(self)@.history == old(self)@.history.update(
                    final(self)@.cursor as int,
                    matches_play(message@),
                )
            },
    {
        let slots = self.history.len();
        proof {
            lemma_small_step(self.cursor as nat, slots as nat);
        }
        self.cursor = (self.cursor + 1) % slots;
        let matched = is_play_request(message);
        self.history.set(self.cursor, matched);
        if self.is_time_to_play(now) && self.is_treshhold_reached(app_params) {
            self.next_eligible_at = now as u128 + app_params.cooldown() as u128;
            self.clear_buffer();
            proof {
                lemma_clear_history_counts_zero(slots as nat);
            }
            Decision::Fire
        } else {
            Decision::NoFire
        }
    }

    /// The channel's name.
    pub fn login(&self) -> (login: &String)
        ensures
            login@ == self@.login,
    {
        &self.login
    }

    /// Whether the cooldown is over at `now`.
    pub fn is_time_to_play(&self, now: u64) -> (eligible: bool)
        ensures
            eligible == self@.eligible(now as nat),
    {
        self.next_eligible_at <= now as u128
    }

    /// Whether enough of the tracked messages match.
    pub fn is_treshhold_reached(&self, app_params: &AppParams) -> (reached: bool)
        ensures
            reached == self@.threshold_reached(app_params@.threshold),
    {
        self.match_count() >= app_params.threshold()
    }

    /// How many of the tracked messages match.
    pub fn match_count(&self) -> (count: usize)
        ensures
            count == match_count(self@.history),
            count <= self@.history.len(),
    {
        let mut count: usize = 0;
        let mut i: usize = 0;
        while i < self.history.len()
            invariant
                i <= self.history.len(),
                count <= i,
                count == match_count(self.history@.take(i as int)),
            decreases self.history.len() - i,
        {
            assert(self.history@.take(i + 1).drop_last() =~= self.history@.take(i as int));
            if self.history[i] {
                count = count + 1;
            }
            i = i + 1;
        }
        assert(self.history@.take(i as int) =~= self.history@);
        count
    }

    /// The flags of the tracked messages, by slot.
    pub fn history(&self) -> (history: &Vec<bool>)
        ensures
            history@ == self@.history,
    {
        &self.history
    }

    /// The slot that was written last.
    pub fn cursor(&self) -> (cursor: usize)
        ensures
            cursor == self@.cursor,
    {
        self.cursor
    }

    /// The earliest time at which the channel may play.
    pub fn next_eligible_at(&self) -> (time: u128)
        ensures
            time == self@.next_eligible_at,
    {
        self.next_eligible_at
    }

    /// Takes back every flag of the history. The cursor and the time of the
    /// next play stay.
    pub fn clear_buffer(&mut self)
        ensures
            final(self)@ == old(self)@.cleared(),
            all_clear(final(self)@.history),
    {
        let mut i: usize = 0;
        while i < self.history.len()
            invariant
                i <= self.history.len(),
                self.history.len() == old(self).history.len(),
                self.login == old(self).login,
                self.cursor == old(self).cursor,
                self.next_eligible_at == old(self).next_eligible_at,
                forall|j: int| 0 <= j < i ==> !self.history[j],
            decreases self.history.len() - i,
        {
            self.history.set(i, false);
            i = i + 1;
        }
        assert(self.history@ =~= clear_history(old(self).history@.len()));
    }
}

} // verus!
