//! Start and stop bookkeeping around the read loop.
//!
//! Two pieces live here.  The firewall plan: the exact list of address
//! translation rules to install at startup and to remove at shutdown — one
//! destination rule and one source rule per application, in table order.
//! The loop controller: a three-phase state machine the read loop steps once
//! per iteration; after a shutdown request it never issues another read, and
//! it orders the rule removal exactly once, after the workers have drained.

use vstd::prelude::*;
use crate::table::AddressTable;
use crate::table::ResolvedApp;

verus! {

/// Whether a rule is being installed or removed.
#[derive(Debug, Clone, Copy, PartialEq, Eq, Structural)]
pub enum NatAction {
    /// Add the rule at startup.
    Install,
    /// Delete the rule at shutdown.
    Remove,
}

/// Which translation a rule performs.
#[derive(Debug, Clone, Copy, PartialEq, Eq, Structural)]
pub enum NatRuleKind {
    /// Rewrite the destination of locally originated traffic:
    /// traffic to the peer is redirected to the phony address.
    DestinationNat,
    /// Rewrite the source of outgoing traffic: traffic from the phony
    /// address leaves as the origin.
    SourceNat,
}

/// One firewall rule, as plain addresses; the surrounding program renders
/// and executes it.
#[derive(Debug, Clone, Copy, PartialEq, Eq, Structural)]
pub struct NatRule {
    /// Install or remove.
    pub action: NatAction,
    /// Destination or source translation.
    pub kind: NatRuleKind,
    /// The address the rule matches on.
    pub match_addr: u32,
    /// The address the rule rewrites to.
    pub rewrite_addr: u32,
}

/// The destination rule of one application: traffic to the peer goes to the
/// phony address.
pub open spec fn dnat_rule(a: ResolvedApp, action: NatAction) -> NatRule {
    NatRule { action, kind: NatRuleKind::DestinationNat, match_addr: a.dest, rewrite_addr: a.phony }
}

/// The source rule of one application: traffic from the phony address
/// leaves as the origin.
pub open spec fn snat_rule(a: ResolvedApp, action: NatAction) -> NatRule {
    NatRule { action, kind: NatRuleKind::SourceNat, match_addr: a.phony, rewrite_addr: a.origin }
}

/// The complete firewall plan for a table: for every application, in table
/// order, exactly one destination rule and one source rule with the given
/// action — no application is skipped or listed twice.
pub fn nat_rules(table: &AddressTable, action: NatAction) -> (r: Vec<NatRule>)
    ensures
        r@.len() == 2 * table@.len(),
        forall|i: int|
            0 <= i < table@.len() ==> #[trigger] r@[2 * i] == dnat_rule(table@[i], action) && r@[2
                * i + 1] == snat_rule(table@[i], action),
{
    let n = table.len();
    let mut rules: Vec<NatRule> = Vec::new();
    let mut i: usize = 0;
    while i < n
        invariant
            i <= n,
            n == table@.len(),
            rules@.len() == 2 * i,
            forall|k: int|
                0 <= k < i ==> #[trigger] rules@[2 * k] == dnat_rule(table@[k], action) && rules@[2
                    * k + 1] == snat_rule(table@[k], action),
        decreases n - i,
    {
        let app = table.entry(i);
        rules.push(
            NatRule {
                action,
                kind: NatRuleKind::DestinationNat,
                match_addr: app.dest,
                rewrite_addr: app.phony,
            },
        );
        rules.push(
            NatRule {
                action,
                kind: NatRuleKind::SourceNat,
                match_addr: app.phony,
                rewrite_addr: app.origin,
            },
        );
        i = i + 1;
    }
    rules
}

/// Where the read loop stands.
#[derive(Debug, Clone, Copy, PartialEq, Eq, Structural)]
pub enum Phase {
    /// Reading and dispatching.
    Running,
    /// Shutdown observed: no more reads; workers finish what is queued.
    Draining,
    /// Workers drained and rule removal ordered.
    Finished,
}

/// What the loop observed this iteration.
#[derive(Debug, Clone, Copy, PartialEq, Eq, Structural)]
pub enum LoopEvent {
    /// The device can be read.
    ReadReady,
    /// The cancellation flag was found set.
    ShutdownRequested,
    /// Every worker queue has been drained and joined.
    WorkersDrained,
}

/// What the loop must do next.
#[derive(Debug, Clone, Copy, PartialEq, Eq, Structural)]
pub enum LoopAction {
    /// Issue one read and dispatch its packet.
    IssueRead,
    /// Stop issuing reads and begin draining the workers.
    StopReads,
    /// Execute the removal half of the firewall plan.
    RemoveRules,
    /// Nothing.
    Idle,
}

/// The phase after one observation.
pub open spec fn next_phase(p: Phase, ev: LoopEvent) -> Phase {
    match (p, ev) {
        (Phase::Running, LoopEvent::ShutdownRequested) => Phase::Draining,
        (Phase::Draining, LoopEvent::WorkersDrained) => Phase::Finished,
        _ => p,
    }
}

/// The action one observation calls for.
pub open spec fn action_for(p: Phase, ev: LoopEvent) -> LoopAction {
    match (p, ev) {
        (Phase::Running, LoopEvent::ReadReady) => LoopAction::IssueRead,
        (Phase::Running, LoopEvent::ShutdownRequested) => LoopAction::StopReads,
        (Phase::Draining, LoopEvent::WorkersDrained) => LoopAction::RemoveRules,
        _ => LoopAction::Idle,
    }
}

/// Phases only move forward.
pub open spec fn phase_rank(p: Phase) -> int {
    match p {
        Phase::Running => 0,
        Phase::Draining => 1,
        Phase::Finished => 2,
    }
}

/// The loop controller; the read loop steps it once per iteration.
pub struct Controller {
    /// Where the loop stands.
    pub phase: Phase,
}

impl Controller {
    /// A fresh controller, running.
    pub fn new() -> (c: Controller)
        ensures
            c.phase == Phase::Running,
    {
        Controller { phase: Phase::Running }
    }

    /// Advances the controller by one observation and says what to do.
    /// Reads are only ever issued while running; a shutdown request ends
    /// the running phase for good; the rule removal is ordered on the one
    /// transition into the finished phase.
    pub fn step(&mut self, ev: LoopEvent) -> (a: LoopAction)
        ensures
            final(self).phase == next_phase(old(self).phase, ev),
            a == action_for(old(self).phase, ev),
            a == LoopAction::IssueRead ==> old(self).phase == Phase::Running && ev
                == LoopEvent::ReadReady,
            a == LoopAction::RemoveRules ==> old(self).phase == Phase::Draining
                && final(self).phase == Phase::Finished,
            phase_rank(final(self).phase) >= phase_rank(old(self).phase),
    {
        let a = match (self.phase, ev) {
            (Phase::Running, LoopEvent::ReadReady) => LoopAction::IssueRead,
            (Phase::Running, LoopEvent::ShutdownRequested) => LoopAction::StopReads,
            (Phase::Draining, LoopEvent::WorkersDrained) => LoopAction::RemoveRules,
            _ => LoopAction::Idle,
        };
        self.phase = match (self.phase, ev) {
            (Phase::Running, LoopEvent::ShutdownRequested) => Phase::Draining,
            (Phase::Draining, LoopEvent::WorkersDrained) => Phase::Finished,
            (p, _) => p,
        };
        a
    }
}

/// The phase a run of observations ends in, starting from `Running`.
pub open spec fn phase_after(evs: Seq<LoopEvent>) -> Phase
    decreases evs.len(),
{
    if evs.len() == 0 {
        Phase::Running
    } else {
        next_phase(phase_after(evs.drop_last()), evs.last())
    }
}

/// Along any run, the phase never moves backward.
pub proof fn lemma_trace_monotone(evs: Seq<LoopEvent>, m1: int, m2: int)
    requires
        0 <= m1 <= m2 <= evs.len(),
    ensures
        phase_rank(phase_after(evs.take(m1))) <= phase_rank(phase_after(evs.take(m2))),
    decreases m2 - m1,
{
    if m1 < m2 {
        lemma_trace_monotone(evs, m1, m2 - 1);
        assert(evs.take(m2).drop_last() =~= evs.take(m2 - 1));
        assert(evs.take(m2).last() == evs[m2 - 1]);
    }
}

/// Once a run has observed a shutdown request, no later step issues a read.
pub proof fn lemma_no_reads_after_shutdown(evs: Seq<LoopEvent>, k: int, m: int)
    requires
        0 <= k < m < evs.len(),
        evs[k] == LoopEvent::ShutdownRequested,
    ensures
        action_for(phase_after(evs.take(m)), evs[m]) != LoopAction::IssueRead,
{
    assert(evs.take(k + 1).drop_last() =~= evs.take(k));
    assert(evs.take(k + 1).last() == evs[k]);
    assert(phase_rank(phase_after(evs.take(k + 1))) >= 1);
    lemma_trace_monotone(evs, k + 1, m);
}

/// Along any run, the rule removal is ordered at most once.
pub proof fn lemma_remove_rules_once(evs: Seq<LoopEvent>, m1: int, m2: int)
    requires
        0 <= m1 < m2 < evs.len(),
        action_for(phase_after(evs.take(m1)), evs[m1]) == LoopAction::RemoveRules,
    ensures
        action_for(phase_after(evs.take(m2)), evs[m2]) != LoopAction::RemoveRules,
{
    assert(evs.take(m1 + 1).drop_last() =~= evs.take(m1));
    assert(evs.take(m1 + 1).last() == evs[m1]);
    assert(phase_after(evs.take(m1 + 1)) == Phase::Finished);
    lemma_trace_monotone(evs, m1 + 1, m2);
}

} // verus!
