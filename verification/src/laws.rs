//! What holds of the detector over whole sequences of messages.
use crate::config::{config_error, ConfigError};
use crate::dispatch::route;
use crate::model::{
    age, all_clear, fired_at, flags, latest, match_count, run, seen_since_clear, ChannelState,
    Config, Observation,
};
use crate::tally::{
    lemma_clear_history_counts_zero, lemma_count_bounded, lemma_count_drop_first, lemma_count_push,
    lemma_count_update, lemma_count_zero, lemma_small_step,
};
use vstd::prelude::*;

verus! {

/// The smaller of two numbers.
pub open spec fn least(a: nat, b: nat) -> nat {
    if a <= b {
        a
    } else {
        b
    }
}

/// A state that has observed all of `seen` has observed all but the last,
/// and then the last.
proof fn lemma_run_step(start: ChannelState, config: Config, seen: Seq<Observation>, upto: int)
    requires
        0 <= upto < seen.len(),
    ensures
        run(start, config, seen.take(upto + 1)) == run(start, config, seen.take(upto)).observe(
            config,
            seen[upto].matched,
            seen[upto].now,
        ),
{
    assert(seen.take(upto + 1).drop_last() =~= seen.take(upto));
}

/// Observing keeps a state well formed, and keeps the size of its history
/// and its name.
pub proof fn lemma_run_keeps_shape(start: ChannelState, config: Config, seen: Seq<Observation>)
    requires
        start.wf(),
    ensures
        run(start, config, seen).wf(),
        run(start, config, seen).history.len() == start.history.len(),
        run(start, config, seen).login == start.login,
    decreases seen.len(),
{
    if seen.len() > 0 {
        lemma_run_keeps_shape(start, config, seen.drop_last());
        let before = run(start, config, seen.drop_last());
        lemma_small_step(before.cursor, before.history.len());
    }
}

/// The time of the next play never moves back, however many messages are
/// observed and whenever they are seen.
pub proof fn lemma_next_eligible_never_earlier(
    start: ChannelState,
    config: Config,
    seen: Seq<Observation>,
    earlier: int,
    later: int,
)
    requires
        0 <= earlier <= later <= seen.len(),
    ensures
        run(start, config, seen.take(earlier)).next_eligible_at <= run(
            start,
            config,
            seen.take(later),
        ).next_eligible_at,
    decreases later - earlier,
{
    if earlier < later {
        lemma_next_eligible_never_earlier(start, config, seen, earlier, later - 1);
        lemma_run_step(start, config, seen, later - 1);
    }
}

/// Between two plays of one channel lies at least the cooldown: if the
/// observations at `first` and at `second` both made the channel play,
/// the second was seen no earlier than the first plus the cooldown,
/// whatever was observed in between.
pub proof fn lemma_cooldown_between_plays(
    start: ChannelState,
    config: Config,
    seen: Seq<Observation>,
    first: int,
    second: int,
)
    requires
        0 <= first < second < seen.len(),
        fired_at(start, config, seen, first),
        fired_at(start, config, seen, second),
    ensures
        seen[second].now >= seen[first].now + config.cooldown,
{
    lemma_run_step(start, config, seen, first);
    lemma_next_eligible_never_earlier(start, config, seen, first + 1, second);
}

/// While a play waits to be sent, the channel decides no second one, as
/// long as the wait is no longer than the cooldown: two plays of one channel
/// then lie at least the wait apart. With a shorter cooldown the caller has
/// to hold the channel's messages back until the play is sent.
pub proof fn lemma_no_play_while_waiting(
    start: ChannelState,
    config: Config,
    seen: Seq<Observation>,
    first: int,
    second: int,
)
    requires
        0 <= first < second < seen.len(),
        fired_at(start, config, seen, first),
        fired_at(start, config, seen, second),
        config.grace_delay <= config.cooldown,
    ensures
        seen[second].now >= seen[first].now + config.grace_delay,
{
    lemma_cooldown_between_plays(start, config, seen, first, second);
}

/// A message that does not make the channel play changes one slot of the
/// history and nothing else: the time of the next play stays, and no other
/// slot is touched. This holds of a message that does not match, too, as
/// long as it does not make the channel play.
pub proof fn lemma_quiet_observation(state: ChannelState, config: Config, matched: bool, now: nat)
    requires
        state.wf(),
        !state.fires(config, matched, now),
    ensures
        ({
            let after = state.observe(config, matched, now);
            &&& after.next_eligible_at == state.next_eligible_at
            &&& after.history.len() == state.history.len()
            &&& after.history[after.cursor as int] == matched
            &&& forall|slot: int|
                0 <= slot < state.history.len() && slot != after.cursor ==> after.history[slot]
                    == state.history[slot]
        }),
{
    lemma_small_step(state.cursor, state.history.len());
}

/// Right after a play no tracked message counts as a match.
pub proof fn lemma_play_clears(state: ChannelState, config: Config, matched: bool, now: nat)
    requires
        state.fires(config, matched, now),
    ensures
        match_count(state.observe(config, matched, now).history) == 0,
        all_clear(state.observe(config, matched, now).history),
        state.observe(config, matched, now).next_eligible_at == now + config.cooldown,
{
    lemma_clear_history_counts_zero(state.history.len());
}

/// With a threshold of zero a channel plays on the first message that is
/// seen once its cooldown is over, whether that message matches or not.
pub proof fn lemma_zero_threshold_plays(state: ChannelState, config: Config, matched: bool, now: nat)
    requires
        config.threshold == 0,
        state.eligible(now),
    ensures
        state.fires(config, matched, now),
{
}

/// A threshold of zero is no fault of the settings.
pub proof fn lemma_zero_threshold_accepted(history_size: nat, login: Seq<char>, oauth: Seq<char>)
    ensures
        config_error(history_size, 0, login, oauth) != Some(ConfigError::ThresholdOutOfRange),
        history_size > 0 && login.len() > 0 && oauth.len() > 0 ==> config_error(
            history_size,
            0,
            login,
            oauth,
        ) is None,
{
}

/// A message in one channel leaves every other channel as it was.
pub proof fn lemma_other_channels_untouched(
    states: Map<Seq<char>, ChannelState>,
    config: Config,
    channel: Seq<char>,
    matched: bool,
    now: nat,
    other: Seq<char>,
)
    requires
        other != channel,
    ensures
        route(states, config, channel, matched, now).dom().contains(other) == states.dom().contains(
            other,
        ),
        route(states, config, channel, matched, now)[other] == states[other],
{
}

/// The ring holds the flags of the latest `recorded` entries of `all`, each
/// in the slot of its age, and counts them.
spec fn ring_holds(state: ChannelState, all: Seq<bool>, recorded: nat) -> bool {
    let size = state.history.len();
    &&& state.wf()
    &&& recorded <= all.len()
    &&& forall|slot: int|
        0 <= slot < size ==> state.history[slot] == (age(state.cursor, slot, size) < recorded
            && all[all.len() - 1 - age(state.cursor, slot, size)])
    &&& match_count(state.history) == match_count(latest(all, least(size, recorded)))
}

/// Recording one more flag keeps the ring in step with the flags seen.
proof fn lemma_record_keeps_ring(state: ChannelState, all: Seq<bool>, recorded: nat, matched: bool)
    requires
        ring_holds(state, all, recorded),
    ensures
        ring_holds(state.record(matched), all.push(matched), recorded + 1),
{
    let size = state.history.len();
    let after = state.record(matched);
    let all_after = all.push(matched);
    let written = after.cursor as int;
    lemma_small_step(state.cursor, size);
    assert(age(state.cursor, written, size) == size - 1);
    assert forall|slot: int| 0 <= slot < size implies after.history[slot] == (age(
        after.cursor,
        slot,
        size,
    ) < recorded + 1 && all_after[all_after.len() - 1 - age(after.cursor, slot, size)]) by {
        if slot != written {
            assert(age(after.cursor, slot, size) == age(state.cursor, slot, size) + 1);
        }
    }
    lemma_count_update(state.history, written, matched);
    let window = latest(all, least(size, recorded));
    let window_after = latest(all_after, least(size, recorded + 1));
    if recorded < size {
        assert(!state.history[written]);
        assert(window_after =~= window.push(matched));
        lemma_count_push(window, matched);
    } else {
        assert(state.history[written] == all[all.len() - size]);
        assert(window[0] == all[all.len() - size]);
        assert(window_after =~= window.drop_first().push(matched));
        lemma_count_drop_first(window);
        lemma_count_push(window.drop_first(), matched);
    }
}

/// After any sequence of observations the ring is in step with the flags
/// recorded since it was last cleared.
proof fn lemma_ring(start: ChannelState, config: Config, seen: Seq<Observation>)
    requires
        start.wf(),
        all_clear(start.history),
    ensures
        ring_holds(run(start, config, seen), flags(seen), seen_since_clear(start, config, seen)),
        run(start, config, seen).history.len() == start.history.len(),
    decreases seen.len(),
{
    let size = start.history.len();
    if seen.len() == 0 {
        assert(flags(seen) =~= Seq::<bool>::empty());
        lemma_count_zero(start.history);
    } else {
        let earlier = seen.drop_last();
        lemma_ring(start, config, earlier);
        let before = run(start, config, earlier);
        let matched = seen.last().matched;
        assert(flags(seen) =~= flags(earlier).push(matched));
        lemma_small_step(before.cursor, size);
        if before.fires(config, matched, seen.last().now) {
            lemma_clear_history_counts_zero(size);
            assert(latest(flags(seen), 0).len() == 0);
        } else {
            lemma_record_keeps_ring(
                before,
                flags(earlier),
                seen_since_clear(start, config, earlier),
                matched,
            );
        }
    }
}

/// The count that decides on a message is taken over the latest messages,
/// that message among them: over as many as the history has slots, or over
/// those recorded since it was last cleared if these are fewer.
///
/// `start` is a channel whose history is clear, as it is when the channel is
/// first watched; `seen` is what it has observed before the message.
pub proof fn lemma_deciding_count_is_over_latest(
    start: ChannelState,
    config: Config,
    seen: Seq<Observation>,
    matched: bool,
)
    requires
        start.wf(),
        all_clear(start.history),
    ensures
        match_count(run(start, config, seen).record(matched).history) == match_count(
            latest(
                flags(seen).push(matched),
                least(start.history.len(), seen_since_clear(start, config, seen) + 1),
            ),
        ),
        match_count(run(start, config, seen).record(matched).history) <= start.history.len(),
{
    lemma_ring(start, config, seen);
    lemma_record_keeps_ring(
        run(start, config, seen),
        flags(seen),
        seen_since_clear(start, config, seen),
        matched,
    );
    lemma_count_bounded(run(start, config, seen).record(matched).history);
}

/// The history counts exactly the matches among the latest messages: among
/// as many of them as it has slots, or among those recorded since it was
/// last cleared if these are fewer. It never counts more than it has slots.
///
/// `start` is a channel whose history is clear, as it is when the channel is
/// first watched.
pub proof fn lemma_count_is_over_latest(start: ChannelState, config: Config, seen: Seq<Observation>)
    requires
        start.wf(),
        all_clear(start.history),
    ensures
        match_count(run(start, config, seen).history) == match_count(
            latest(
                flags(seen),
                least(start.history.len(), seen_since_clear(start, config, seen)),
            ),
        ),
        match_count(run(start, config, seen).history) <= start.history.len(),
{
    lemma_ring(start, config, seen);
    lemma_count_bounded(run(start, config, seen).history);
}

/// The ring holds the flags of the latest messages and of no others: the
/// slot written `n` writes ago holds the flag of the message seen `n`
/// messages ago, if that message was recorded since the history was last
/// cleared, and is clear otherwise. A message that is older than the ring
/// has slots is in no slot.
pub proof fn lemma_ring_holds_latest(
    start: ChannelState,
    config: Config,
    seen: Seq<Observation>,
    slot: int,
)
    requires
        start.wf(),
        all_clear(start.history),
        0 <= slot < start.history.len(),
    ensures
        ({
            let end = run(start, config, seen);
            let back = age(end.cursor, slot, start.history.len());
            &&& 0 <= back < start.history.len()
            &&& seen_since_clear(start, config, seen) <= seen.len()
            &&& end.history[slot] == (back < seen_since_clear(start, config, seen) && seen[seen.len()
                - 1 - back].matched)
        }),
{
    lemma_ring(start, config, seen);
}

} // verus!
