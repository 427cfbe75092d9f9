//! Process lifecycle: the signal that ends a run, and the details the start and
//! stop events record.
use crate::config::ApiConfig;
use crate::details::{is_text, DetailValue, Details};
use vstd::prelude::*;

verus! {

broadcast use vstd::string::group_string_axioms;

/// The unix signal that triggered graceful shutdown.
#[derive(Debug, Clone, Copy, PartialEq, Eq)]
pub enum ShutdownSignal {
    Term,
    Int,
}

/// The conventional name of a signal.
pub open spec fn signal_name(signal: ShutdownSignal) -> Seq<char> {
    match signal {
        ShutdownSignal::Term => "SIGTERM"@,
        ShutdownSignal::Int => "SIGINT"@,
    }
}

impl ShutdownSignal {
    /// The conventional name of the signal.
    pub fn name(self) -> (name: &'static str)
        ensures
            name@ == signal_name(self),
    {
        match self {
            ShutdownSignal::Term => "SIGTERM",
            ShutdownSignal::Int => "SIGINT",
        }
    }
}

/// `server_started` event details: which build came up (`git_sha`), and where
/// it served.
pub fn server_started_details(git_sha: &str, cfg: &ApiConfig) -> (d: Details)
    ensures
        d.fields@.len() == 2,
        d.fields@[0].0@ == "git_sha"@,
        is_text(d.fields@[0].1, git_sha@),
        d.fields@[1].0@ == "bind"@,
        is_text(d.fields@[1].1, cfg.bind@),
{
    Details::new().with("git_sha", DetailValue::Text(git_sha.to_string())).with(
        "bind",
        DetailValue::Text(cfg.bind.clone()),
    )
}

/// `server_stopped` event details: which signal triggered shutdown and how many
/// whole seconds the process ran.
pub fn server_stopped_details(signal: ShutdownSignal, uptime_secs: u64) -> (d: Details)
    ensures
        d.fields@.len() == 2,
        d.fields@[0].0@ == "signal"@,
        is_text(d.fields@[0].1, signal_name(signal)),
        d.fields@[1].0@ == "uptime_secs"@,
        d.fields@[1].1 == DetailValue::Number(uptime_secs as u128),
{
    Details::new().with("signal", DetailValue::Text(signal.name().to_string())).with(
        "uptime_secs",
        DetailValue::Number(uptime_secs as u128),
    )
}

} // verus!
