//! The settings of the application, checked once at startup.
use crate::model::Config;
use vstd::prelude::*;
use vstd::string::*;

verus! {

/// Why a set of settings is refused.
#[derive(Clone, Copy, Debug, PartialEq, Eq, Structural)]
pub enum ConfigError {
    /// The history would have no slot.
    EmptyHistory,
    /// The threshold is larger than the history.
    ThresholdOutOfRange,
    /// The login name is empty.
    EmptyLogin,
    /// The token is empty.
    EmptyToken,
    /// There is no channel to watch.
    NoChannels,
}

/// The first fault of the given settings, if they have one.
pub open spec fn config_error(
    history_size: nat,
    threshold: nat,
    login: Seq<char>,
    oauth: Seq<char>,
) -> Option<ConfigError> {
    if history_size == 0 {
        Some(ConfigError::EmptyHistory)
    } else if threshold > history_size {
        Some(ConfigError::ThresholdOutOfRange)
    } else if login.len() == 0 {
        Some(ConfigError::EmptyLogin)
    } else if oauth.len() == 0 {
        Some(ConfigError::EmptyToken)
    } else {
        None
    }
}

/// Settings that have passed the check. They do not change afterwards.
#[derive(Debug)]
pub struct AppParams {
    history_size: usize,
    threshold: usize,
    cooldown: u64,
    grace_delay: u64,
    trigger_text: String,
    login: String,
    oauth: String,
}

impl View for AppParams {
    type V = Config;

    closed spec fn view(&self) -> Config {
        Config {
            history_size: self.history_size as nat,
            threshold: self.threshold as nat,
            cooldown: self.cooldown as nat,
            grace_delay: self.grace_delay as nat,
            trigger_text: self.trigger_text@,
            login: self.login@,
            oauth: self.oauth@,
        }
    }
}

impl AppParams {
    /// The settings are usable and fit the machine's integers.
    pub open spec fn wf(&self) -> bool {
        &&& self@.wf()
        &&& self@.history_size <= usize::MAX
        &&& self@.cooldown <= u64::MAX
        &&& self@.grace_delay <= u64::MAX
    }

    /// Checks the settings. A threshold of zero is accepted: the channel
    /// then plays whenever its cooldown is over.
    pub fn new(
        history_size: usize,
        threshold: usize,
        cooldown: u64,
        grace_delay: u64,
        trigger_text: String,
        login: String,
        oauth: String,
    ) -> (checked: Result<AppParams, ConfigError>)
        ensures
            match checked {
                Ok(params) => {
                    &&& config_error(history_size as nat, threshold as nat, login@, oauth@) is None
                    &&& params.wf()
                    &&& params@ == (Config {
                        history_size: history_size as nat,
                        threshold: threshold as nat,
                        cooldown: cooldown as nat,
                        grace_delay: grace_delay as nat,
                        trigger_text: trigger_text@,
                        login: login@,
                        oauth: oauth@,
                    })
                },
                Err(error) => config_error(history_size as nat, threshold as nat, login@, oauth@)
                    == Some(error),
            },
    {
        if history_size == 0 {
            return Err(ConfigError::EmptyHistory);
        }
        if threshold > history_size {
            return Err(ConfigError::ThresholdOutOfRange);
        }
        if login.as_str().is_empty() {
            return Err(ConfigError::EmptyLogin);
        }
        if oauth.as_str().is_empty() {
            return Err(ConfigError::EmptyToken);
        }
        Ok(AppParams { history_size, threshold, cooldown, grace_delay, trigger_text, login, oauth })
    }

    /// How many of the latest messages are tracked per channel.
    pub fn history_size(&self) -> (size: usize)
        ensures
            size == self@.history_size,
    {
        self.history_size
    }

    /// How many of the tracked messages have to match for a play.
    pub fn threshold(&self) -> (threshold: usize)
        ensures
            threshold == self@.threshold,
    {
        self.threshold
    }

    /// The least time between two plays in one channel.
    pub fn cooldown(&self) -> (cooldown: u64)
        ensures
            cooldown == self@.cooldown,
    {
        self.cooldown
    }

    /// The time to wait between the decision and the sending.
    pub fn grace_delay(&self) -> (delay: u64)
        ensures
            delay == self@.grace_delay,
    {
        self.grace_delay
    }

    /// The message that is sent.
    pub fn trigger_text(&self) -> (text: &String)
        ensures
            text@ == self@.trigger_text,
    {
        &self.trigger_text
    }

    /// The name the application logs in with.
    pub fn login(&self) -> (login: &String)
        ensures
            login@ == self@.login,
    {
        &self.login
    }

    /// The token the application logs in with.
    pub fn oauth(&self) -> (oauth: &String)
        ensures
            oauth@ == self@.oauth,
    {
        &self.oauth
    }
}

} // verus!
