//! Node reachability as the system event log records it: one event per change,
//! never one per observation.
use crate::details::{is_text, DetailValue, Details};
use vstd::prelude::*;

verus! {

broadcast use vstd::string::group_string_axioms;

/// Last-known node reachability.
#[derive(Debug, Clone, Copy, PartialEq, Eq)]
pub enum Reachability {
    Unknown,
    Reachable,
    Unreachable,
}

/// Observing `observed` when `before` was last known leaves `after` known and
/// reports `changed`: the new state is what was observed, and a change is
/// reported exactly when it differs from the old one.
pub open spec fn transition_step(
    before: Reachability,
    observed: Reachability,
    after: Reachability,
    changed: bool,
) -> bool {
    after == observed && changed == (before != observed)
}

/// The last reachability observed.
pub struct NodeHealth {
    pub last: Reachability,
}

impl NodeHealth {
    /// Nothing observed yet.
    pub fn new() -> (h: Self)
        ensures
            h.last == Reachability::Unknown,
    {
        NodeHealth { last: Reachability::Unknown }
    }

    /// Records `observed` and reports whether it changed the last-known state.
    pub fn transition(&mut self, observed: Reachability) -> (changed: bool)
        ensures
            transition_step(old(self).last, observed, final(self).last, changed),
    {
        let changed = match (self.last, observed) {
            (Reachability::Unknown, Reachability::Unknown) => false,
            (Reachability::Reachable, Reachability::Reachable) => false,
            (Reachability::Unreachable, Reachability::Unreachable) => false,
            _ => true,
        };
        self.last = observed;
        changed
    }
}

/// Whether the node's `subversion` differs from the one the last version change
/// recorded (`previous`), so a new version change is due.
pub fn version_changed(previous: &Option<String>, subversion: &String) -> (changed: bool)
    ensures
        changed == match previous {
            Some(p) => p@ != subversion@,
            None => true,
        },
{
    match previous {
        Some(p) => !(*p == *subversion),
        None => true,
    }
}

/// Whether `v` is the text `s`, or null when `s` is absent.
pub open spec fn is_optional_text(v: DetailValue, s: Option<String>) -> bool {
    match s {
        Some(t) => is_text(v, t@),
        None => v == DetailValue::Null,
    }
}

/// A copy of an optional string as a detail value: its text, or null.
fn optional_text(s: &Option<String>) -> (v: DetailValue)
    ensures
        is_optional_text(v, *s),
{
    match s {
        Some(t) => DetailValue::Text(t.clone()),
        None => DetailValue::Null,
    }
}

/// `node_connected` event details: the node's block and header counts, and its
/// subversion when the node told it.
pub fn node_connected_details(blocks: i64, headers: i64, subversion: &Option<String>) -> (d: Details)
    ensures
        d.fields@.len() == 3,
        d.fields@[0].0@ == "blocks"@,
        d.fields@[0].1 == DetailValue::Signed(blocks),
        d.fields@[1].0@ == "headers"@,
        d.fields@[1].1 == DetailValue::Signed(headers),
        d.fields@[2].0@ == "subversion"@,
        is_optional_text(d.fields@[2].1, *subversion),
{
    Details::new().with("blocks", DetailValue::Signed(blocks)).with(
        "headers",
        DetailValue::Signed(headers),
    ).with("subversion", optional_text(subversion))
}

/// `node_disconnected` event details: why the node could not be reached.
pub fn node_disconnected_details(error: &str) -> (d: Details)
    ensures
        d.fields@.len() == 1,
        d.fields@[0].0@ == "error"@,
        is_text(d.fields@[0].1, error@),
{
    Details::new().with("error", DetailValue::Text(error.to_string()))
}

/// `node_version_changed` event details: the subversion recorded last time, if
/// any, the one seen now, and the node's numeric version.
pub fn node_version_changed_details(from: &Option<String>, to: &String, version: i64) -> (d:
    Details)
    ensures
        d.fields@.len() == 3,
        d.fields@[0].0@ == "from"@,
        is_optional_text(d.fields@[0].1, *from),
        d.fields@[1].0@ == "to"@,
        is_text(d.fields@[1].1, to@),
        d.fields@[2].0@ == "version"@,
        d.fields@[2].1 == DetailValue::Signed(version),
{
    Details::new().with("from", optional_text(from)).with(
        "to",
        DetailValue::Text(to.clone()),
    ).with("version", DetailValue::Signed(version))
}

/// The subversion a `node_version_changed` event recorded as its `to`, when it
/// is text.
pub fn recorded_subversion(d: &Details) -> (s: Option<String>)
    ensures
        match crate::details::first_named(d.fields@, "to"@) {
            Some(i) => match d.fields@[i].1 {
                DetailValue::Text(t) => s matches Some(r) && r@ == t@,
                _ => s is None,
            },
            None => s is None,
        },
{
    match d.get("to") {
        Some(DetailValue::Text(t)) => Some(t.clone()),
        _ => None,
    }
}

/// One event per change, never one per observation: observing the same
/// reachability again reports no change and keeps the state.
pub proof fn repeated_observation_is_silent(
    s0: Reachability,
    observed: Reachability,
    s1: Reachability,
    first: bool,
    s2: Reachability,
    second: bool,
)
    requires
        transition_step(s0, observed, s1, first),
        transition_step(s1, observed, s2, second),
    ensures
        !second,
        s2 == s1,
{
}

} // verus!
