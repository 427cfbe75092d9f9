//! The block gate's clock: a block being applied shuts the block gate so mempool
//! flushes wait, and a holder that outlives `MAX_HOLD_NANOS` stops holding it. The
//! mutual exclusion itself is the runtime's; this is the bookkeeping of when the
//! gate counts as shut. Instants are nanoseconds on a monotonic clock.
use vstd::prelude::*;

verus! {

/// How long one holder may keep the block gate shut, in nanoseconds (300 s).
pub const MAX_HOLD_NANOS: u128 = 300_000_000_000;

/// When the block gate was shut, if it is.
#[derive(Debug, Clone, Copy, PartialEq, Eq)]
pub struct GateClock {
    pub held_since: Option<u128>,
}

/// Whether a block gate shut at `since` still counts as shut at `now`.
pub open spec fn within_hold(since: u128, now: u128) -> bool {
    (if now >= since { now - since } else { 0 }) < MAX_HOLD_NANOS
}

/// Checking a block gate shut since `before` (if at all) at `now` leaves it shut
/// since `after` and reports whether it is `held` and whether its ceiling just
/// `expired`: a holder within `MAX_HOLD_NANOS` keeps it shut, a later one no
/// longer does, and the check that notices reopens it.
pub open spec fn is_held_step(
    before: Option<u128>,
    now: u128,
    after: Option<u128>,
    held: bool,
    expired: bool,
) -> bool {
    match before {
        None => !held && !expired && after is None,
        Some(since) => if within_hold(since, now) {
            held && !expired && after == before
        } else {
            !held && expired && after is None
        },
    }
}

impl GateClock {
    /// An open block gate.
    pub fn new() -> (clock: Self)
        ensures
            clock.held_since is None,
    {
        GateClock { held_since: None }
    }

    /// Shuts the block gate at `now`, replacing any earlier holder.
    pub fn acquire(&mut self, now: u128)
        ensures
            final(self).held_since == Some(now),
    {
        self.held_since = Some(now);
    }

    /// Opens the block gate: its holder is done.
    pub fn release(&mut self)
        ensures
            final(self).held_since is None,
    {
        self.held_since = None;
    }

    /// Whether the block gate is shut at `now`. A holder past `MAX_HOLD_NANOS` no longer
    /// counts: the block gate reopens, and `expired` reports that the ceiling fired.
    pub fn is_held(&mut self, now: u128) -> (res: (bool, bool))
        ensures
            is_held_step(old(self).held_since, now, final(self).held_since, res.0, res.1),
    {
        match self.held_since {
            None => (false, false),
            Some(since) => {
                let elapsed = if now >= since {
                    now - since
                } else {
                    0
                };
                if elapsed < MAX_HOLD_NANOS {
                    (true, false)
                } else {
                    self.held_since = None;
                    (false, true)
                }
            },
        }
    }

    /// Whether a flush may begin at `now`, given that no other flush holds the
    /// lease (`lease_free`): only while the block gate is open.
    pub fn may_begin_flush(&mut self, lease_free: bool, now: u128) -> (res: (bool, bool))
        ensures
            !lease_free ==> res == (false, false) && *final(self) == *old(self),
            lease_free ==> is_held_step(
                old(self).held_since,
                now,
                final(self).held_since,
                !res.0,
                res.1,
            ),
    {
        if !lease_free {
            return (false, false);
        }
        let (held, expired) = self.is_held(now);
        (!held, expired)
    }
}

/// A holder shut the block gate at `since`: checks within the ceiling find it
/// held; the first check past the ceiling finds it expired and reopens it, and
/// later checks find it open and report no second expiry.
pub proof fn the_ceiling_reopens_the_block_gate_once(
    since: u128,
    now: u128,
    after: Option<u128>,
    held: bool,
    expired: bool,
    later: u128,
    after2: Option<u128>,
    held2: bool,
    expired2: bool,
)
    requires
        is_held_step(Some(since), now, after, held, expired),
        is_held_step(after, later, after2, held2, expired2),
    ensures
        now >= since && now - since < MAX_HOLD_NANOS ==> held && !expired,
        now >= since + MAX_HOLD_NANOS ==> !held && expired && !held2 && !expired2,
{
}


/// An operation on the block gate, with the monotonic instant it happens at
/// where it reads the clock.
#[derive(Debug, Clone, Copy, PartialEq, Eq)]
pub enum GateOp {
    /// A block's application shuts the block gate.
    Acquire(u128),
    /// The block's guard is dropped.
    GuardDrop,
    /// A tick tries to begin a flush.
    TryFlush(u128),
    /// The tick's flush lease is dropped.
    LeaseDrop,
}

/// The block gate as plain values: when it was shut, if it is, and whether a
/// flush lease is alive.
pub type GateModel = (Option<u128>, bool);

/// What `op` does to the block gate `m`, and whether it began a flush. A flush begins
/// only when no lease is alive and the block gate is not shut within the ceiling; the
/// check that finds the ceiling passed reopens the block gate.
pub open spec fn gate_step(m: GateModel, op: GateOp) -> (GateModel, bool) {
    match op {
        GateOp::Acquire(t) => ((Some(t), m.1), false),
        GateOp::GuardDrop => ((None, m.1), false),
        GateOp::LeaseDrop => ((m.0, false), false),
        GateOp::TryFlush(now) => if m.1 {
            (m, false)
        } else {
            match m.0 {
                Some(since) => if within_hold(since, now) {
                    (m, false)
                } else {
                    ((None, true), true)
                },
                None => ((None, true), true),
            }
        },
    }
}

/// The block gate after `ops`, starting open with no lease.
pub open spec fn gate_run(ops: Seq<GateOp>) -> GateModel
    decreases ops.len(),
{
    if ops.len() == 0 {
        (None, false)
    } else {
        gate_step(gate_run(ops.drop_last()), ops.last()).0
    }
}

/// The instant `op` reads, if it reads the clock.
pub open spec fn op_time(op: GateOp) -> Option<u128> {
    match op {
        GateOp::Acquire(t) => Some(t),
        GateOp::TryFlush(t) => Some(t),
        _ => None,
    }
}

/// The last instant read in `ops`.
pub open spec fn last_time(ops: Seq<GateOp>) -> Option<u128>
    decreases ops.len(),
{
    if ops.len() == 0 {
        None
    } else {
        match op_time(ops.last()) {
            Some(t) => Some(t),
            None => last_time(ops.drop_last()),
        }
    }
}

/// Whether the instants read in `ops` never go back, as a monotonic clock's.
pub open spec fn times_nondecreasing(ops: Seq<GateOp>) -> bool
    decreases ops.len(),
{
    if ops.len() == 0 {
        true
    } else {
        &&& times_nondecreasing(ops.drop_last())
        &&& op_time(ops.last()) matches Some(t) ==> (last_time(ops.drop_last()) matches Some(p)
            ==> p <= t)
    }
}

/// When the guard of the last `Acquire` of `ops` was taken, if it was not
/// dropped since.
pub open spec fn live_guard(ops: Seq<GateOp>) -> Option<u128>
    decreases ops.len(),
{
    if ops.len() == 0 {
        None
    } else {
        match ops.last() {
            GateOp::Acquire(t) => Some(t),
            GateOp::GuardDrop => None,
            _ => live_guard(ops.drop_last()),
        }
    }
}

/// Whether, after `ops`, a flush may begin at `now`: no lease is alive, and no
/// guard is alive that was taken less than the ceiling before `now`.
pub open spec fn flush_may_begin(ops: Seq<GateOp>, now: u128) -> bool
    decreases ops.len(), 1int,
{
    !lease_alive(ops) && !(live_guard(ops) matches Some(t) && within_hold(t, now))
}

/// Whether a lease taken by a flush that began in `ops` is still alive.
pub open spec fn lease_alive(ops: Seq<GateOp>) -> bool
    decreases ops.len(), 0int,
{
    if ops.len() == 0 {
        false
    } else {
        match ops.last() {
            GateOp::LeaseDrop => false,
            GateOp::TryFlush(now) => lease_alive(ops.drop_last()) || flush_may_begin(
                ops.drop_last(),
                now,
            ),
            _ => lease_alive(ops.drop_last()),
        }
    }
}

/// Whether the live guard of `ops` was taken at least the ceiling before the
/// last instant read.
spec fn guard_outlived(ops: Seq<GateOp>) -> bool {
    live_guard(ops) matches Some(t) && last_time(ops) matches Some(l) && l >= t && l - t
        >= MAX_HOLD_NANOS
}

/// Whether a block gate shut since `held` (if at all) has passed its ceiling at `now`.
pub open spec fn ceiling_passed(held: Option<u128>, now: u128) -> bool {
    held matches Some(s) && !within_hold(s, now)
}

proof fn lemma_gate_run(ops: Seq<GateOp>)
    requires
        times_nondecreasing(ops),
    ensures
        gate_run(ops).1 == lease_alive(ops),
        gate_run(ops).0 == live_guard(ops) || (gate_run(ops).0 is None && guard_outlived(ops)),
    decreases ops.len(),
{
    if ops.len() > 0 {
        let prev = ops.drop_last();
        lemma_gate_run(prev);
        if let GateOp::TryFlush(now) = ops.last() {
            assert(flush_may_begin(prev, now) == gate_step(gate_run(prev), ops.last()).1);
        }
    }
}

/// A tick may begin a flush exactly when no other flush holds the lease and no
/// block's guard, taken less than `MAX_HOLD_NANOS` before, is alive: the block gate is
/// shut from the moment a block's application starts, even while it waits for
/// a tick already in flight, until its guard drops or the ceiling passes, and a
/// fresh block gate is open. This holds after every sequence of operations whose
/// instants come from a monotonic clock.
pub proof fn a_flush_begins_exactly_when_no_lease_and_no_live_guard(ops: Seq<GateOp>, now: u128)
    requires
        times_nondecreasing(ops.push(GateOp::TryFlush(now))),
    ensures
        gate_step(gate_run(ops), GateOp::TryFlush(now)).1 == flush_may_begin(ops, now),
        gate_run(ops).1 == lease_alive(ops),
{
    assert(ops.push(GateOp::TryFlush(now)).drop_last() =~= ops);
    lemma_gate_run(ops);
}

/// The block gate's bookkeeping: its clock and whether a flush lease is alive.
#[derive(Debug, Clone, Copy, PartialEq, Eq)]
pub struct GateState {
    pub clock: GateClock,
    pub lease_held: bool,
}

impl GateState {
    /// The block gate as plain values.
    pub open spec fn model(&self) -> GateModel {
        (self.clock.held_since, self.lease_held)
    }

    /// An open block gate with no lease.
    pub fn new() -> (g: Self)
        ensures
            g.model() == gate_run(Seq::<GateOp>::empty()),
    {
        GateState { clock: GateClock::new(), lease_held: false }
    }

    /// A block's application shuts the block gate at `now`.
    pub fn acquire(&mut self, now: u128)
        ensures
            final(self).model() == gate_step(old(self).model(), GateOp::Acquire(now)).0,
    {
        self.clock.acquire(now);
    }

    /// The block's guard is dropped.
    pub fn guard_dropped(&mut self)
        ensures
            final(self).model() == gate_step(old(self).model(), GateOp::GuardDrop).0,
    {
        self.clock.release();
    }

    /// A tick tries to begin a flush at `now`: whether it began, taking the
    /// lease, and whether this check found the ceiling passed.
    pub fn try_begin_flush(&mut self, now: u128) -> (res: (bool, bool))
        ensures
            (final(self).model(), res.0) == gate_step(old(self).model(), GateOp::TryFlush(now)),
            res.1 == (!old(self).lease_held && ceiling_passed(old(self).clock.held_since, now)),
    {
        let (began, expired) = self.clock.may_begin_flush(!self.lease_held, now);
        if began {
            self.lease_held = true;
        }
        (began, expired)
    }

    /// The tick's flush lease is dropped.
    pub fn lease_dropped(&mut self)
        ensures
            final(self).model() == gate_step(old(self).model(), GateOp::LeaseDrop).0,
    {
        self.lease_held = false;
    }
}

} // verus!
