//! The settings of the sessions that run in the background for a single task.
use std::time::Duration;
use vstd::prelude::*;

verus! {

/// The duration of a whole number of seconds.
pub uninterp spec fn seconds_long(secs: u64) -> Duration;

/// `Duration::from_secs`: the duration depends on the number alone.
pub assume_specification[ Duration::from_secs ](secs: u64) -> (r: Duration)
    ensures
        r == seconds_long(secs),
;

/// The settings of the agent sessions.
#[derive(Clone, Copy, Debug)]
pub struct SolutionAgentSettings {
    pub ephemeral: EphemeralPoolSettings,
}

/// The settings of the sessions that run for a single task.
#[derive(Clone, Copy, Debug, PartialEq, Eq)]
pub struct EphemeralPoolSettings {
    /// How many of them run at once.
    pub max_concurrent: u32,
    /// For how long a task waits for its turn.
    pub queue_timeout: Duration,
    /// After how long an idle agent is stopped.
    pub idle_ttl: Duration,
}

/// The settings where nothing is set.
pub open spec fn default_pool_settings() -> EphemeralPoolSettings {
    EphemeralPoolSettings {
        max_concurrent: 3,
        queue_timeout: seconds_long(30),
        idle_ttl: seconds_long(60),
    }
}

impl Default for EphemeralPoolSettings {
    fn default() -> (r: Self)
        ensures
            r == default_pool_settings(),
    {
        EphemeralPoolSettings {
            max_concurrent: 3,
            queue_timeout: Duration::from_secs(30),
            idle_ttl: Duration::from_secs(60),
        }
    }
}

impl Default for SolutionAgentSettings {
    fn default() -> (r: Self)
        ensures
            r.ephemeral == default_pool_settings(),
    {
        SolutionAgentSettings { ephemeral: EphemeralPoolSettings::default() }
    }
}

/// What the user may set of the sessions that run for a single task.
#[derive(Clone, Debug)]
pub struct EphemeralPoolContent {
    pub max_concurrent: Option<u32>,
    pub queue_timeout_seconds: Option<u32>,
    pub idle_ttl_seconds: Option<u32>,
}

/// What the user may set of the agent sessions.
#[derive(Clone, Debug)]
pub struct SolutionAgentContent {
    pub ephemeral: Option<EphemeralPoolContent>,
}

/// The settings that the user may write.
#[derive(Clone, Debug)]
pub struct SettingsContent {
    pub solution_agent: Option<SolutionAgentContent>,
}

/// The duration that was set, or else the default.
pub open spec fn duration_or(seconds: Option<u32>, default: Duration) -> Duration {
    match seconds {
        Some(s) => seconds_long(s as u64),
        None => default,
    }
}

/// The settings that the given content stands for.
pub open spec fn pool_settings(content: SettingsContent) -> EphemeralPoolSettings {
    let defaults = default_pool_settings();
    match content.solution_agent {
        Some(SolutionAgentContent { ephemeral: Some(e) }) => EphemeralPoolSettings {
            max_concurrent: match e.max_concurrent {
                Some(n) => n,
                None => defaults.max_concurrent,
            },
            queue_timeout: duration_or(e.queue_timeout_seconds, defaults.queue_timeout),
            idle_ttl: duration_or(e.idle_ttl_seconds, defaults.idle_ttl),
        },
        _ => defaults,
    }
}

/// The duration that was set, or else the default.
fn pick_duration(seconds: Option<u32>, default: Duration) -> (r: Duration)
    ensures
        r == duration_or(seconds, default),
{
    match seconds {
        Some(s) => Duration::from_secs(s as u64),
        None => default,
    }
}

impl SolutionAgentSettings {
    /// The settings that the given content stands for: what is not set has its
    /// default.
    pub fn from_settings(content: &SettingsContent) -> (r: Self)
        ensures
            r.ephemeral == pool_settings(*content),
    {
        let defaults = EphemeralPoolSettings::default();
        let ephemeral = match &content.solution_agent {
            Some(agent) => match &agent.ephemeral {
                Some(e) => EphemeralPoolSettings {
                    max_concurrent: match e.max_concurrent {
                        Some(n) => n,
                        None => defaults.max_concurrent,
                    },
                    queue_timeout: pick_duration(e.queue_timeout_seconds, defaults.queue_timeout),
                    idle_ttl: pick_duration(e.idle_ttl_seconds, defaults.idle_ttl),
                },
                None => defaults,
            },
            None => defaults,
        };
        SolutionAgentSettings { ephemeral }
    }
}

/// For how long a task waits for its turn. Where there are no settings the
/// default holds.
pub fn queue_timeout(settings: Option<&SolutionAgentSettings>) -> (r: Duration)
    ensures
        r == match settings {
            Some(s) => s.ephemeral.queue_timeout,
            None => seconds_long(30),
        },
{
    match settings {
        Some(s) => s.ephemeral.queue_timeout,
        None => Duration::from_secs(30),
    }
}

} // verus!
