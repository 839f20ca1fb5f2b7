//! The configuration of the agent and the state its tasks share.

use crate::item_id::{parse_u64, parse_usize, u64_of, usize_of};
use crate::queue::DEFAULT_COOLDOWN_SECS;
use vstd::prelude::*;

verus! {

/// One of the settings that the configuration is read from.
#[derive(Clone, Copy, Debug, PartialEq, Eq, Structural)]
pub enum Setting {
    /// How many withdrawals a cycle attempts.
    ConsumerBudget,
    /// The seconds between two cycles.
    CycleDelay,
    /// The seconds a worker waits after a reply was published.
    PacingDelay,
    /// The seconds an item cools down.
    Cooldown,
}

/// Why a configuration could not be read.
#[derive(Clone, Copy, Debug, PartialEq, Eq, Structural)]
pub enum ConfigError {
    /// A setting that has no default is not given.
    Missing(Setting),
    /// A setting is given and does not spell a number that fits.
    Invalid(Setting),
}

/// The configuration of the agent.
#[derive(Clone, Copy, Debug, PartialEq, Eq, Structural)]
pub struct Config {
    pub consumer_budget: usize,
    pub cycle_delay_secs: u64,
    pub pacing_delay_secs: u64,
    pub cooldown_secs: u64,
}

/// What the tasks of the agent share: the session token and the
/// configuration.
#[derive(Clone, Debug, PartialEq, Eq)]
pub struct SharedState {
    pub token: String,
    pub config: Config,
}

/// The view of a setting's text, where it is given.
pub open spec fn text_of(value: Option<&str>) -> Option<Seq<char>> {
    match value {
        Some(text) => Some(text@),
        None => None,
    }
}

/// The configuration that the four texts give, or the first reason, in the
/// order budget, cycle delay, pacing delay, cooldown, why they give none.
/// Only the cooldown has a default.
pub open spec fn config_of(
    budget: Option<Seq<char>>,
    cycle_delay: Option<Seq<char>>,
    pacing_delay: Option<Seq<char>>,
    cooldown: Option<Seq<char>>,
) -> Result<Config, ConfigError> {
    if budget is None {
        Err(ConfigError::Missing(Setting::ConsumerBudget))
    } else if usize_of(budget->0) is None {
        Err(ConfigError::Invalid(Setting::ConsumerBudget))
    } else if cycle_delay is None {
        Err(ConfigError::Missing(Setting::CycleDelay))
    } else if u64_of(cycle_delay->0) is None {
        Err(ConfigError::Invalid(Setting::CycleDelay))
    } else if pacing_delay is None {
        Err(ConfigError::Missing(Setting::PacingDelay))
    } else if u64_of(pacing_delay->0) is None {
        Err(ConfigError::Invalid(Setting::PacingDelay))
    } else if cooldown is Some && u64_of(cooldown->0) is None {
        Err(ConfigError::Invalid(Setting::Cooldown))
    } else {
        Ok(
            Config {
                consumer_budget: usize_of(budget->0)->0,
                cycle_delay_secs: u64_of(cycle_delay->0)->0,
                pacing_delay_secs: u64_of(pacing_delay->0)->0,
                cooldown_secs: if cooldown is Some {
                    u64_of(cooldown->0)->0
                } else {
                    DEFAULT_COOLDOWN_SECS
                },
            },
        )
    }
}

impl Setting {
    /// The name of the environment variable that holds the setting.
    pub fn variable(&self) -> (r: &'static str)
        ensures
            r@ == (match self {
                Setting::ConsumerBudget => "REQUEST_PER_LOOP"@,
                Setting::CycleDelay => "LOOP_DELAY"@,
                Setting::PacingDelay => "WAIT_TIME_PER_REQ"@,
                Setting::Cooldown => "COOLDOWN_SECS"@,
            }),
    {
        match self {
            Setting::ConsumerBudget => "REQUEST_PER_LOOP",
            Setting::CycleDelay => "LOOP_DELAY",
            Setting::PacingDelay => "WAIT_TIME_PER_REQ",
            Setting::Cooldown => "COOLDOWN_SECS",
        }
    }
}

impl Config {
    /// Reads the configuration from the texts of its four settings, each
    /// `None` where the setting is not given.
    pub fn from_settings(
        budget: Option<&str>,
        cycle_delay: Option<&str>,
        pacing_delay: Option<&str>,
        cooldown: Option<&str>,
    ) -> (r: Result<Config, ConfigError>)
        ensures
            r == config_of(
                text_of(budget),
                text_of(cycle_delay),
                text_of(pacing_delay),
                text_of(cooldown),
            ),
    {
        let consumer_budget = match budget {
            None => {
                return Err(ConfigError::Missing(Setting::ConsumerBudget));
            },
            Some(text) => match parse_usize(text) {
                None => {
                    return Err(ConfigError::Invalid(Setting::ConsumerBudget));
                },
                Some(n) => n,
            },
        };
        let cycle_delay_secs = match cycle_delay {
            None => {
                return Err(ConfigError::Missing(Setting::CycleDelay));
            },
            Some(text) => match parse_u64(text) {
                None => {
                    return Err(ConfigError::Invalid(Setting::CycleDelay));
                },
                Some(n) => n,
            },
        };
        let pacing_delay_secs = match pacing_delay {
            None => {
                return Err(ConfigError::Missing(Setting::PacingDelay));
            },
            Some(text) => match parse_u64(text) {
                None => {
                    return Err(ConfigError::Invalid(Setting::PacingDelay));
                },
                Some(n) => n,
            },
        };
        let cooldown_secs = match cooldown {
            None => DEFAULT_COOLDOWN_SECS,
            Some(text) => match parse_u64(text) {
                None => {
                    return Err(ConfigError::Invalid(Setting::Cooldown));
                },
                Some(n) => n,
            },
        };
        Ok(Config { consumer_budget, cycle_delay_secs, pacing_delay_secs, cooldown_secs })
    }
}

} // verus!
