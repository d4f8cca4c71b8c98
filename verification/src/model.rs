//! The mathematical model of one channel's detector: a ring of flags, a write
//! cursor and the time from which the next play may be decided.
//!
//! Everything here is ghost code. The executable types of the crate state
//! their contracts over these definitions.
use vstd::prelude::*;

verus! {

/// What the detector decides for one observed message.
#[derive(Clone, Copy, Debug, PartialEq, Eq, Structural)]
pub enum Decision {
    /// The play message is to be sent to the channel.
    Fire,
    /// Nothing is to be sent.
    NoFire,
}

/// The settings that the detector reads. Times are counted in ticks of the
/// caller's clock.
pub struct Config {
    /// How many of the latest messages are tracked per channel.
    pub history_size: nat,
    /// How many of the tracked messages have to match for a play.
    pub threshold: nat,
    /// The least time between two plays in one channel.
    pub cooldown: nat,
    /// The time to wait between the decision and the sending.
    pub grace_delay: nat,
    /// The message that is sent.
    pub trigger_text: Seq<char>,
    /// The name the application logs in with.
    pub login: Seq<char>,
    /// The token the application logs in with.
    pub oauth: Seq<char>,
}

impl Config {
    /// The settings are usable: the history has a slot, and the threshold
    /// can be reached.
    pub open spec fn wf(self) -> bool {
        &&& 0 < self.history_size
        &&& self.threshold <= self.history_size
        &&& self.login.len() > 0
        &&& self.oauth.len() > 0
    }
}

/// The state of one channel.
pub struct ChannelState {
    /// The channel's name.
    pub login: Seq<char>,
    /// One flag per tracked message: whether it matched.
    pub history: Seq<bool>,
    /// The slot that was written last.
    pub cursor: nat,
    /// The earliest time at which a play may be decided.
    pub next_eligible_at: nat,
}

/// 1 for `true`, 0 for `false`.
pub open spec fn bit(flag: bool) -> nat {
    if flag {
        1
    } else {
        0
    }
}

/// The number of `true` entries of a history.
pub open spec fn match_count(history: Seq<bool>) -> nat
    decreases history.len(),
{
    if history.len() == 0 {
        0
    } else {
        match_count(history.drop_last()) + bit(history.last())
    }
}

/// No entry of the history is set.
pub open spec fn all_clear(history: Seq<bool>) -> bool {
    forall|i: int| 0 <= i < history.len() ==> !history[i]
}

/// A history of `len` slots, none of them set.
pub open spec fn clear_history(len: nat) -> Seq<bool> {
    Seq::new(len, |i: int| false)
}

/// The slot after `cursor` in a ring of `len` slots.
pub open spec fn next_cursor(cursor: nat, len: nat) -> nat {
    (cursor + 1) % len
}

impl ChannelState {
    /// The history has a slot and the cursor points into it.
    pub open spec fn wf(self) -> bool {
        &&& 0 < self.history.len()
        &&& self.cursor < self.history.len()
    }

    /// The state of a channel that has seen nothing yet: it may play from
    /// `now` on.
    pub open spec fn fresh(login: Seq<char>, history_size: nat, now: nat) -> ChannelState {
        ChannelState { login, history: clear_history(history_size), cursor: 0, next_eligible_at: now }
    }

    /// The cooldown is over at `now`.
    pub open spec fn eligible(self, now: nat) -> bool {
        self.next_eligible_at <= now
    }

    /// Enough of the tracked messages match.
    pub open spec fn threshold_reached(self, threshold: nat) -> bool {
        match_count(self.history) >= threshold
    }

    /// The cursor moves on by one slot, and that slot takes the flag of the
    /// new message.
    pub open spec fn record(self, matched: bool) -> ChannelState {
        let cursor = next_cursor(self.cursor, self.history.len());
        ChannelState {
            login: self.login,
            history: self.history.update(cursor as int, matched),
            cursor,
            next_eligible_at: self.next_eligible_at,
        }
    }

    /// The same state with every flag of the history taken back.
    pub open spec fn cleared(self) -> ChannelState {
        ChannelState {
            login: self.login,
            history: clear_history(self.history.len()),
            cursor: self.cursor,
            next_eligible_at: self.next_eligible_at,
        }
    }

    /// Whether a message observed at `now` makes the channel play: with
    /// that message recorded, the cooldown is over and the threshold is
    /// reached.
    pub open spec fn fires(self, config: Config, matched: bool, now: nat) -> bool {
        let recorded = self.record(matched);
        recorded.eligible(now) && recorded.threshold_reached(config.threshold)
    }

    /// What is decided for a message observed at `now`.
    pub open spec fn decision(self, config: Config, matched: bool, now: nat) -> Decision {
        if self.fires(config, matched, now) {
            Decision::Fire
        } else {
            Decision::NoFire
        }
    }

    /// The state after a message observed at `now`. The message is always
    /// recorded. A play then clears the history and starts the cooldown.
    pub open spec fn observe(self, config: Config, matched: bool, now: nat) -> ChannelState {
        let recorded = self.record(matched);
        if self.fires(config, matched, now) {
            ChannelState {
                login: self.login,
                history: clear_history(self.history.len()),
                cursor: recorded.cursor,
                next_eligible_at: now + config.cooldown,
            }
        } else {
            recorded
        }
    }
}

/// One observed message: whether it matched, and when it was seen.
pub struct Observation {
    pub matched: bool,
    pub now: nat,
}

/// The state after a sequence of observations, the first of them seen first.
pub open spec fn run(start: ChannelState, config: Config, seen: Seq<Observation>) -> ChannelState
    decreases seen.len(),
{
    if seen.len() == 0 {
        start
    } else {
        run(start, config, seen.drop_last()).observe(config, seen.last().matched, seen.last().now)
    }
}

/// Whether the observation at `index` of `seen` made the channel play.
pub open spec fn fired_at(start: ChannelState, config: Config, seen: Seq<Observation>, index: int) -> bool {
    run(start, config, seen.take(index)).fires(config, seen[index].matched, seen[index].now)
}

/// How many observations have been recorded since the history was last
/// cleared: since the latest play, or since the start if there was none.
pub open spec fn seen_since_clear(start: ChannelState, config: Config, seen: Seq<Observation>) -> nat
    decreases seen.len(),
{
    if seen.len() == 0 {
        0
    } else if run(start, config, seen.drop_last()).fires(config, seen.last().matched, seen.last().now) {
        0
    } else {
        seen_since_clear(start, config, seen.drop_last()) + 1
    }
}

/// The flags of a sequence of observations, in the same order.
pub open spec fn flags(seen: Seq<Observation>) -> Seq<bool> {
    Seq::new(seen.len(), |i: int| seen[i].matched)
}

/// The last `count` entries of a sequence, or all of it if it is shorter.
pub open spec fn latest(all: Seq<bool>, count: nat) -> Seq<bool> {
    if count >= all.len() {
        all
    } else {
        all.subrange(all.len() - count, all.len() as int)
    }
}

/// How many writes ago the slot `slot` was written, when `cursor` was
/// written last, in a ring of `len` slots.
pub open spec fn age(cursor: nat, slot: int, len: nat) -> int {
    if slot <= cursor {
        cursor - slot
    } else {
        cursor + len - slot
    }
}

} // verus!
