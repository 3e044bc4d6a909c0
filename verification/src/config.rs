//! The proxy's settings as they come from the command line.
//!
//! Reading the arguments is the caller's business. It hands over what was
//! given for each option, as text, and gets the settings back, with the
//! defaults filled in and the numbers read.

use crate::number::{parse_decimal, unsigned_of};
use crate::pool::ProxyState;
use crate::text::texts;
use vstd::prelude::*;

verus! {

/// The settings of one run of the proxy.
pub struct CmdOptions {
    /// Address on which the proxy listens.
    pub bind: String,
    /// Upstreams to which the proxy forwards; at least one.
    pub upstream: Vec<String>,
    /// Seconds between two rounds of active health checks.
    pub active_health_check_interval: usize,
    /// Path requested from an upstream during a health check.
    pub active_health_check_path: String,
    /// Requests one client may make per minute; zero means no limit.
    pub max_requests_per_minute: usize,
}

/// Why the command line gives no settings.
#[derive(Clone, Copy, Debug, PartialEq, Eq, Structural)]
pub enum OptionsError {
    /// No upstream was named.
    NoUpstream,
    /// The health-check interval is no number.
    InvalidInterval,
    /// The request limit is no number.
    InvalidLimit,
}

/// The listen address where none is given.
pub open spec fn default_bind() -> Seq<char> {
    "0.0.0.0:1100"@
}

/// The health-check path where none is given.
pub open spec fn default_path() -> Seq<char> {
    "/"@
}

/// The health-check interval where none is given, in seconds.
pub const DEFAULT_HEALTH_CHECK_INTERVAL: usize = 10;

/// The request limit where none is given: no limit.
pub const DEFAULT_MAX_REQUESTS_PER_MINUTE: usize = 0;

/// The number that an optional text gives: the default where there is no
/// text, otherwise what the text reads as a decimal number.
pub open spec fn number_or(given: Option<Seq<char>>, default: nat) -> Option<nat> {
    match given {
        Some(text) => unsigned_of(text, 10),
        None => Some(default),
    }
}

/// The text of an optional string.
pub open spec fn text_of(given: Option<String>) -> Option<Seq<char>> {
    match given {
        Some(s) => Some(s@),
        None => None,
    }
}

fn number_or_default(given: &Option<String>, default: usize) -> (r: Option<usize>)
    ensures
        match r {
            Some(n) => number_or(text_of(*given), default as nat) == Some(n as nat),
            None => number_or(text_of(*given), default as nat) is None,
        },
{
    match given {
        Some(text) => parse_decimal(text.as_str()),
        None => Some(default),
    }
}

/// Builds the settings from what the command line gave for each option.
///
/// At least one upstream is needed. An option that was not given takes its
/// default. The first fault found is reported: a missing upstream before a
/// bad interval, a bad interval before a bad limit.
pub fn construct_cmd_options(
    bind: Option<String>,
    upstream: Vec<String>,
    active_health_check_interval: Option<String>,
    active_health_check_path: Option<String>,
    max_requests_per_minute: Option<String>,
) -> (r: Result<CmdOptions, OptionsError>)
    ensures
        r is Ok <==> {
            &&& upstream@.len() > 0
            &&& number_or(
                text_of(active_health_check_interval),
                DEFAULT_HEALTH_CHECK_INTERVAL as nat,
            ) is Some
            &&& number_or(
                text_of(max_requests_per_minute),
                DEFAULT_MAX_REQUESTS_PER_MINUTE as nat,
            ) is Some
        },
        r matches Ok(options) ==> {
            &&& options.bind@ == match bind {
                Some(b) => b@,
                None => default_bind(),
            }
            &&& options.upstream == upstream
            &&& Some(options.active_health_check_interval as nat) == number_or(
                text_of(active_health_check_interval),
                DEFAULT_HEALTH_CHECK_INTERVAL as nat,
            )
            &&& options.active_health_check_path@ == match active_health_check_path {
                Some(p) => p@,
                None => default_path(),
            }
            &&& Some(options.max_requests_per_minute as nat) == number_or(
                text_of(max_requests_per_minute),
                DEFAULT_MAX_REQUESTS_PER_MINUTE as nat,
            )
        },
        r == Err::<CmdOptions, OptionsError>(OptionsError::NoUpstream) <==> upstream@.len() == 0,
        r == Err::<CmdOptions, OptionsError>(OptionsError::InvalidInterval) <==> {
            &&& upstream@.len() > 0
            &&& number_or(
                text_of(active_health_check_interval),
                DEFAULT_HEALTH_CHECK_INTERVAL as nat,
            ) is None
        },
        r == Err::<CmdOptions, OptionsError>(OptionsError::InvalidLimit) <==> {
            &&& upstream@.len() > 0
            &&& number_or(
                text_of(active_health_check_interval),
                DEFAULT_HEALTH_CHECK_INTERVAL as nat,
            ) is Some
            &&& number_or(
                text_of(max_requests_per_minute),
                DEFAULT_MAX_REQUESTS_PER_MINUTE as nat,
            ) is None
        },
{
    if upstream.len() < 1 {
        return Err(OptionsError::NoUpstream);
    }
    let interval = match number_or_default(
        &active_health_check_interval,
        DEFAULT_HEALTH_CHECK_INTERVAL,
    ) {
        Some(n) => n,
        None => {
            return Err(OptionsError::InvalidInterval);
        },
    };
    let limit = match number_or_default(&max_requests_per_minute, DEFAULT_MAX_REQUESTS_PER_MINUTE) {
        Some(n) => n,
        None => {
            return Err(OptionsError::InvalidLimit);
        },
    };
    let bind = match bind {
        Some(b) => b,
        None => "0.0.0.0:1100".to_owned(),
    };
    let path = match active_health_check_path {
        Some(p) => p,
        None => "/".to_owned(),
    };
    Ok(
        CmdOptions {
            bind,
            upstream,
            active_health_check_interval: interval,
            active_health_check_path: path,
            max_requests_per_minute: limit,
        },
    )
}

impl CmdOptions {
    /// The shared state with which a proxy with these settings starts: every
    /// upstream healthy, none failed, no request counted.
    pub fn into_state(self) -> (state: ProxyState)
        ensures
            state.wf(),
            state.healthy() == texts(self.upstream@),
            state.failed() == Seq::<Seq<char>>::empty(),
            state.counts() == Map::<Seq<char>, nat>::empty(),
            state.limit() == self.max_requests_per_minute,
            state.interval() == self.active_health_check_interval,
            state.path() == self.active_health_check_path@,
            state.partitions(texts(self.upstream@)),
    {
        ProxyState::new(
            self.upstream,
            self.active_health_check_interval,
            self.active_health_check_path,
            self.max_requests_per_minute,
        )
    }
}

} // verus!
