//! The channels that are watched, and the routing of chat events to them.
use crate::channel::ChannelMarbleState;
use crate::config::{AppParams, ConfigError};
use crate::matcher::matches_play;
use crate::model::{ChannelState, Config, Decision};
use vstd::prelude::*;

verus! {

/// What the chat server sent.
#[derive(Debug)]
pub enum ChatEvent {
    /// A message that somebody wrote in a channel: the channel's name and
    /// the text.
    Privmsg { channel_login: String, message_text: String },
    /// Anything else. It is ignored.
    Other,
}

/// A message that the application is to send, once `wait` has passed. The
/// channel's state has changed when this is handed out, and stays so if the
/// sending fails.
#[derive(Debug)]
pub struct Play {
    /// The channel to send to.
    pub channel_login: String,
    /// The text to send.
    pub message: String,
    /// How long to wait before sending.
    pub wait: u64,
}

/// The watched channels after a message in `channel`: the state of that
/// channel has observed the message, if the channel is watched, and nothing
/// else has changed.
pub open spec fn route(
    states: Map<Seq<char>, ChannelState>,
    config: Config,
    channel: Seq<char>,
    matched: bool,
    now: nat,
) -> Map<Seq<char>, ChannelState> {
    if states.dom().contains(channel) {
        states.insert(channel, states[channel].observe(config, matched, now))
    } else {
        states
    }
}

/// Whether a message in `channel` makes a watched channel play.
pub open spec fn plays(
    states: Map<Seq<char>, ChannelState>,
    config: Config,
    channel: Seq<char>,
    matched: bool,
    now: nat,
) -> bool {
    states.dom().contains(channel) && states[channel].fires(config, matched, now)
}

/// The names of a list of channels, in the same order.
pub open spec fn names(channels: Seq<String>) -> Seq<Seq<char>> {
    Seq::new(channels.len(), |i: int| channels[i]@)
}

/// The channels of the given names, none of which has seen a message yet.
pub open spec fn fresh_states(listed: Seq<Seq<char>>, history_size: nat, now: nat) -> Map<
    Seq<char>,
    ChannelState,
> {
    Map::new(
        |login: Seq<char>| listed.contains(login),
        |login: Seq<char>| ChannelState::fresh(login, history_size, now),
    )
}

/// The watched channels, each with its state, found by the channel's name.
#[derive(Debug)]
pub struct MarbleStates {
    channels: Vec<ChannelMarbleState>,
}

impl View for MarbleStates {
    type V = Map<Seq<char>, ChannelState>;

    closed spec fn view(&self) -> Map<Seq<char>, ChannelState> {
        Map::new(
            |login: Seq<char>| self.holds(login),
            |login: Seq<char>| self.channels[self.position(login)]@,
        )
    }
}

impl MarbleStates {
    /// Some entry has this name.
    spec fn holds(&self, login: Seq<char>) -> bool {
        exists|i: int| 0 <= i < self.channels.len() && #[trigger] self.channels[i]@.login == login
    }

    /// An entry with this name, if there is one.
    spec fn position(&self, login: Seq<char>) -> int {
        choose|i: int| 0 <= i < self.channels.len() && #[trigger] self.channels[i]@.login == login
    }

    /// What holds of the entries: every entry is well formed, and no two
    /// have the same name.
    pub closed spec fn distinct(&self) -> bool {
        &&& forall|i: int, j: int|
            0 <= i < j < self.channels.len() ==> #[trigger] self.channels[i]@.login
                != #[trigger] self.channels[j]@.login
        &&& forall|i: int| 0 <= i < self.channels.len() ==> (#[trigger] self.channels[i]).wf()
    }

    /// Every channel is found under its own name, and its state is well
    /// formed.
    pub open spec fn wf(&self) -> bool {
        &&& self.distinct()
        &&& forall|login: Seq<char>| #[trigger]
            self@.dom().contains(login) ==> self@[login].wf() && self@[login].login == login
    }

    /// The states of the listed channels, as they are before any message. A
    /// name that is listed twice is watched once. An empty list is refused.
    pub fn new(channels: &Vec<String>, app_params: &AppParams, now: u64) -> (made: Result<
        MarbleStates,
        ConfigError,
    >)
        requires
            app_params.wf(),
        ensures
            match made {
                Ok(states) => {
                    &&& channels@.len() > 0
                    &&& states.wf()
                    &&& states@ == fresh_states(
                        names(channels@),
                        app_params@.history_size,
                        now as nat,
                    )
                },
                Err(error) => channels@.len() == 0 && error == ConfigError::NoChannels,
            },
    {
        if channels.len() == 0 {
            return Err(ConfigError::NoChannels);
        }
        let ghost listed = names(channels@);
        let ghost size = app_params@.history_size;
        let mut states = MarbleStates { channels: Vec::new() };
        let mut i: usize = 0;
        while i < channels.len()
            invariant
                app_params.wf(),
                size == app_params@.history_size,
                listed == names(channels@),
                i <= channels.len(),
                states.distinct(),
                forall|j: int|
                    0 <= j < states.channels.len() ==> #[trigger] states.channels[j]@
                        == ChannelState::fresh(states.channels[j]@.login, size, now as nat),
                forall|j: int|
                    0 <= j < states.channels.len() ==> listed.contains(
                        #[trigger] states.channels[j]@.login,
                    ),
                forall|k: int| 0 <= k < i ==> states.holds(#[trigger] listed[k]),
            decreases channels.len() - i,
        {
            let ghost before = states;
            assert(listed[i as int] == channels[i as int]@);
            if states.find(&channels[i]).is_none() {
                let state = ChannelMarbleState::new(channels[i].clone(), app_params.history_size(), now);
                states.channels.push(state);
                assert forall|k: int| 0 <= k <= i implies states.holds(#[trigger] listed[k]) by {
                    if k < i {
                        let j = before.position(listed[k]);
                        assert(states.channels[j]@.login == listed[k]);
                    } else {
                        assert(states.channels[states.channels.len() - 1]@.login == listed[k]);
                    }
                }
            }
            i = i + 1;
        }
        proof {
            states.lemma_distinct_is_wf();
            let wanted = fresh_states(listed, size, now as nat);
            assert forall|login: Seq<char>| states@.dom().contains(login) <==> wanted.dom().contains(
                login,
            ) by {
                if listed.contains(login) {
                    let k = choose|k: int| 0 <= k < listed.len() && listed[k] == login;
                    assert(states.holds(listed[k]));
                }
            }
            assert forall|login: Seq<char>| states@.dom().contains(login) implies states@[login]
                == wanted[login] by {
                states.lemma_position(states.position(login));
            }
            assert(states@ =~= wanted);
        }
        Ok(states)
    }

    /// The state of the channel with this name, if it is watched.
    pub fn get(&self, login: &String) -> (found: Option<&ChannelMarbleState>)
        requires
            self.wf(),
        ensures
            match found {
                Some(state) => self@.dom().contains(login@) && state@ == self@[login@],
                None => !self@.dom().contains(login@),
            },
    {
        match self.find(login) {
            Some(i) => Some(&self.channels[i]),
            None => None,
        }
    }

    /// The names of the watched channels, each of them once.
    pub fn logins(&self) -> (listed: Vec<String>)
        requires
            self.wf(),
        ensures
            forall|login: Seq<char>| self@.dom().contains(login) <==> names(listed@).contains(login),
            names(listed@).no_duplicates(),
    {
        let mut listed: Vec<String> = Vec::new();
        let mut i: usize = 0;
        while i < self.channels.len()
            invariant
                i <= self.channels.len(),
                listed.len() == i,
                forall|j: int| 0 <= j < i ==> (#[trigger] listed[j])@ == self.channels[j]@.login,
            decreases self.channels.len() - i,
        {
            listed.push(self.channels[i].login().clone());
            i = i + 1;
        }
        proof {
            let found = names(listed@);
            assert forall|login: Seq<char>| self@.dom().contains(login) <==> found.contains(
                login,
            ) by {
                if self.holds(login) {
                    let j = self.position(login);
                    assert(found[j] == login);
                }
                if found.contains(login) {
                    let j = choose|j: int| 0 <= j < found.len() && found[j] == login;
                    assert(self.channels[j]@.login == login);
                }
            }
            assert forall|j: int, k: int|
                0 <= j < found.len() && 0 <= k < found.len() && j != k implies found[j]
                != found[k] by {
                assert(found[j] == self.channels[j]@.login);
                assert(found[k] == self.channels[k]@.login);
            }
        }
        listed
    }

    /// With distinct names, the entry at `i` is the one found under its name.
    proof fn lemma_position(&self, i: int)
        requires
            self.distinct(),
            0 <= i < self.channels.len(),
        ensures
            self.holds(self.channels[i]@.login),
            self.position(self.channels[i]@.login) == i,
            self@.dom().contains(self.channels[i]@.login),
            self@[self.channels[i]@.login] == self.channels[i]@,
    {
    }

    /// With distinct names, every channel is found under its own name.
    proof fn lemma_distinct_is_wf(&self)
        requires
            self.distinct(),
        ensures
            self.wf(),
    {
        assert forall|login: Seq<char>| #[trigger] self@.dom().contains(login) implies self@[login].wf()
            && self@[login].login == login by {
            self.lemma_position(self.position(login));
        }
    }

    /// Replacing the state of one entry, under the same name, replaces the
    /// state found under that name and nothing else.
    proof fn lemma_replaced(&self, before: &MarbleStates, i: int)
        requires
            before.distinct(),
            0 <= i < before.channels.len(),
            self.channels@.len() == before.channels@.len(),
            self.channels[i].wf(),
            self.channels[i]@.login == before.channels[i]@.login,
            forall|j: int|
                0 <= j < before.channels.len() && j != i ==> self.channels[j] == before.channels[j],
        ensures
            self.distinct(),
            self@ == before@.insert(before.channels[i]@.login, self.channels[i]@),
    {
        assert forall|j: int| 0 <= j < self.channels.len() implies #[trigger] self.channels[j]@.login
            == before.channels[j]@.login by {}
        assert(self.distinct());
        let login_i = before.channels[i]@.login;
        let replaced = before@.insert(login_i, self.channels[i]@);
        assert forall|login: Seq<char>| self@.dom().contains(login) <==> replaced.dom().contains(
            login,
        ) by {
            if self.holds(login) {
                let j = self.position(login);
                assert(before.channels[j]@.login == login);
            }
            if before.holds(login) {
                let j = before.position(login);
                assert(self.channels[j]@.login == login);
            }
            before.lemma_position(i);
        }
        assert forall|login: Seq<char>| self@.dom().contains(login) implies self@[login]
            == replaced[login] by {
            let j = self.position(login);
            self.lemma_position(j);
            before.lemma_position(j);
        }
        assert(self@ =~= replaced);
    }

    /// The entry with this name.
    fn find(&self, login: &String) -> (found: Option<usize>)
        requires
            self.distinct(),
        ensures
            match found {
                Some(i) => i < self.channels.len() && self.channels[i as int]@.login == login@
                    && self@.dom().contains(login@) && self@[login@] == self.channels[i as int]@,
                None => !self@.dom().contains(login@),
            },
    {
        let mut i: usize = 0;
        while i < self.channels.len()
            invariant
                self.distinct(),
                i <= self.channels.len(),
                forall|j: int| 0 <= j < i ==> self.channels[j]@.login != login@,
            decreases self.channels.len() - i,
        {
            if *self.channels[i].login() == *login {
                proof {
                    self.lemma_position(i as int);
                }
                return Some(i);
            }
            i = i + 1;
        }
        None
    }
}

/// Hands a chat event to the channel it belongs to. A message in a watched
/// channel is observed by that channel's state; if the channel then plays,
/// the message to send is returned. Events of other kinds and messages in
/// channels that are not watched change nothing.
pub fn process_message(
    app_params: &AppParams,
    marble_states: &mut MarbleStates,
    event: &ChatEvent,
    now: u64,
) -> (reply: Option<Play>)
    requires
        old(marble_states).wf(),
    ensures
        final(marble_states).wf(),
        final(marble_states)@.dom() == old(marble_states)@.dom(),
        match *event {
            ChatEvent::Privmsg { channel_login, message_text } => {
                let matched = matches_play(message_text@);
                &&& final(marble_states)@ == route(
                    old(marble_states)@,
                    app_params@,
                    channel_login@,
                    matched,
                    now as nat,
                )
                &&& reply is Some <==> plays(
                    old(marble_states)@,
                    app_params@,
                    channel_login@,
                    matched,
                    now as nat,
                )
                &&& forall|other: Seq<char>|
                    other != channel_login@ && old(marble_states)@.dom().contains(other)
                        ==> #[trigger] final(marble_states)@[other] == old(marble_states)@[other]
            },
            ChatEvent::Other => final(marble_states)@ == old(marble_states)@ && reply is None,
        },
        match reply {
            Some(play) => {
                &&& event matches ChatEvent::Privmsg { channel_login, .. }
                &&& play.channel_login@ == channel_login@
                &&& play.message@ == app_params@.trigger_text
                &&& play.wait == app_params@.grace_delay
            },
            None => true,
        },
{
    match event {
        ChatEvent::Privmsg { channel_login, message_text } => {
            match marble_states.find(channel_login) {
                Some(i) => {
                    let decision = marble_states.channels[i].process_message(
                        app_params,
                        message_text.as_str(),
                        now,
                    );
                    proof {
                        marble_states.lemma_replaced(old(marble_states), i as int);
                        marble_states.lemma_distinct_is_wf();
                    }
                    match decision {
                        Decision::Fire => Some(
                            Play {
                                channel_login: marble_states.channels[i].login().clone(),
                                message: app_params.trigger_text().clone(),
                                wait: app_params.grace_delay(),
                            },
                        ),
                        Decision::NoFire => None,
                    }
                },
                None => None,
            }
        },
        ChatEvent::Other => None,
    }
}

} // verus!
