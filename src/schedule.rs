use vstd::prelude::*;
use crate::grouping::{is_grouping, token_groups, views_of, GROUP_SIZE};
use crate::topology::{PerpMarketEntry, Snapshot};

verus! {

/// Where a maintenance loop stands between two of its ticks.
#[derive(Clone, Copy, Debug, PartialEq, Eq)]
pub enum LoopPhase {
    WaitingForTick,
    Submitting,
}

/// What happens to a maintenance loop: its timer fires (with or without work
/// to send), preparing the work fails, or the submitted transaction resolves.
#[derive(Clone, Copy, Debug, PartialEq, Eq)]
pub enum LoopEvent {
    Tick { has_work: bool },
    PrepareFailed,
    SubmitSucceeded,
    SubmitFailed,
}

/// What the loop runner is to do next.
#[derive(Clone, Copy, Debug, PartialEq, Eq)]
pub enum LoopAction {
    Wait,
    Submit,
    LogSuccess,
    LogFailure,
}

pub open spec fn loop_step_spec(phase: LoopPhase, event: LoopEvent) -> (LoopPhase, LoopAction) {
    match (phase, event) {
        (LoopPhase::WaitingForTick, LoopEvent::Tick { has_work: true }) => (LoopPhase::Submitting, LoopAction::Submit),
        (LoopPhase::WaitingForTick, LoopEvent::Tick { has_work: false }) => (LoopPhase::WaitingForTick, LoopAction::Wait),
        (LoopPhase::WaitingForTick, LoopEvent::PrepareFailed) => (LoopPhase::WaitingForTick, LoopAction::LogFailure),
        (LoopPhase::Submitting, LoopEvent::SubmitSucceeded) => (LoopPhase::WaitingForTick, LoopAction::LogSuccess),
        (LoopPhase::Submitting, LoopEvent::SubmitFailed) => (LoopPhase::WaitingForTick, LoopAction::LogFailure),
        (p, _) => (p, LoopAction::Wait),
    }
}

/// One step of a maintenance loop. A tick with work leads to one submission;
/// whatever the submission gives, it is logged and the loop waits for its next
/// tick. There is no retry within a tick and no phase that ends the loop.
/// An event that does not fit the phase is ignored.
pub fn loop_step(phase: LoopPhase, event: LoopEvent) -> (r: (LoopPhase, LoopAction))
    ensures
        r == loop_step_spec(phase, event),
{
    match (phase, event) {
        (LoopPhase::WaitingForTick, LoopEvent::Tick { has_work }) => {
            if has_work {
                (LoopPhase::Submitting, LoopAction::Submit)
            } else {
                (LoopPhase::WaitingForTick, LoopAction::Wait)
            }
        },
        (LoopPhase::WaitingForTick, LoopEvent::PrepareFailed) => (LoopPhase::WaitingForTick, LoopAction::LogFailure),
        (LoopPhase::Submitting, LoopEvent::SubmitSucceeded) => (LoopPhase::WaitingForTick, LoopAction::LogSuccess),
        (LoopPhase::Submitting, LoopEvent::SubmitFailed) => (LoopPhase::WaitingForTick, LoopAction::LogFailure),
        (p, _) => (p, LoopAction::Wait),
    }
}

/// A failed submission or a failed preparation is logged and the loop goes
/// back to waiting, and the next tick with work is submitted again: a
/// business error never ends a maintenance loop.
pub proof fn lemma_failure_keeps_loop_running(has_work: bool)
    ensures
        loop_step_spec(LoopPhase::Submitting, LoopEvent::SubmitFailed) == (LoopPhase::WaitingForTick, LoopAction::LogFailure),
        loop_step_spec(LoopPhase::WaitingForTick, LoopEvent::PrepareFailed) == (LoopPhase::WaitingForTick, LoopAction::LogFailure),
        has_work ==> loop_step_spec(LoopPhase::WaitingForTick, LoopEvent::Tick { has_work }).1 == LoopAction::Submit,
        forall|p: LoopPhase, e: LoopEvent| (#[trigger] loop_step_spec(p, e)).0 == LoopPhase::WaitingForTick
            || loop_step_spec(p, e).0 == LoopPhase::Submitting,
{
}

/// `chain` lists an instrument that `cached` does not.
pub open spec fn has_unlisted(cached: Seq<u16>, chain: Seq<u16>) -> bool {
    exists|i: int| 0 <= i < chain.len() && !cached.contains(#[trigger] chain[i])
}

/// Whether the registry read from the chain lists an instrument that the
/// cached indexes lack.
pub fn new_listing_present(cached: &Vec<u16>, chain: &Vec<u16>) -> (r: bool)
    ensures
        r == has_unlisted(cached@, chain@),
{
    let mut i: usize = 0;
    while i < chain.len()
        invariant
            0 <= i <= chain@.len(),
            forall|j: int| 0 <= j < i ==> cached@.contains(#[trigger] chain@[j]),
        decreases chain@.len() - i,
    {
        let x = chain[i];
        let mut found = false;
        let mut k: usize = 0;
        while k < cached.len()
            invariant
                0 <= k <= cached@.len(),
                found ==> cached@.contains(x),
                !found ==> forall|m: int| 0 <= m < k ==> cached@[m] != x,
            decreases cached@.len() - k,
        {
            if cached[k] == x {
                proof {
                    assert(cached@[k as int] == x);
                }
                found = true;
            }
            k = k + 1;
        }
        if !found {
            proof {
                assert(!cached@.contains(chain@[i as int]));
            }
            return true;
        }
        i = i + 1;
    }
    false
}

/// What the watchdog does after one check.
#[derive(Clone, Copy, Debug, PartialEq, Eq)]
pub enum WatchdogAction {
    Continue,
    Terminate,
}

pub open spec fn watchdog_terminates(snapshot: Snapshot, chain_tokens: Seq<u16>, chain_markets: Seq<u16>) -> bool {
    has_unlisted(snapshot.token_indexes(), chain_tokens) || has_unlisted(snapshot.market_indexes(), chain_markets)
}

/// One watchdog check against the registry read from the chain: the process
/// is to end exactly when a token or a market is listed there that the
/// snapshot lacks.
pub fn check_new_listings(snapshot: &Snapshot, chain_tokens: &Vec<u16>, chain_markets: &Vec<u16>) -> (r: WatchdogAction)
    ensures
        r is Terminate <==> watchdog_terminates(*snapshot, chain_tokens@, chain_markets@),
{
    let tokens = snapshot.token_index_list();
    if new_listing_present(&tokens, chain_tokens) {
        return WatchdogAction::Terminate;
    }
    let markets = snapshot.market_index_list();
    if new_listing_present(&markets, chain_markets) {
        WatchdogAction::Terminate
    } else {
        WatchdogAction::Continue
    }
}

/// A registry that lists nothing beyond the snapshot, however often it is
/// checked, never ends the process; in particular an unchanged one does not.
pub proof fn lemma_watchdog_stable(snapshot: Snapshot, checks: Seq<(Seq<u16>, Seq<u16>)>)
    requires
        forall|i: int| 0 <= i < checks.len() ==> (#[trigger] checks[i]).0.to_set().subset_of(snapshot.token_indexes().to_set())
            && checks[i].1.to_set().subset_of(snapshot.market_indexes().to_set()),
    ensures
        forall|i: int| 0 <= i < checks.len() ==> !watchdog_terminates(snapshot, (#[trigger] checks[i]).0, checks[i].1),
        !watchdog_terminates(snapshot, snapshot.token_indexes(), snapshot.market_indexes()),
{
    assert forall|i: int| 0 <= i < checks.len() implies !watchdog_terminates(snapshot, (#[trigger] checks[i]).0, checks[i].1) by {
        let (t, m) = checks[i];
        assert forall|j: int| 0 <= j < t.len() implies snapshot.token_indexes().contains(#[trigger] t[j]) by {
            assert(t.to_set().contains(t[j]));
        }
        assert forall|j: int| 0 <= j < m.len() implies snapshot.market_indexes().contains(#[trigger] m[j]) by {
            assert(m.to_set().contains(m[j]));
        }
    }
    assert forall|j: int| 0 <= j < snapshot.token_indexes().len() implies snapshot.token_indexes().contains(
        #[trigger] snapshot.token_indexes()[j],
    ) by {}
    assert forall|j: int| 0 <= j < snapshot.market_indexes().len() implies snapshot.market_indexes().contains(
        #[trigger] snapshot.market_indexes()[j],
    ) by {}
}

/// The markets that get a drainer and a funding task: those not flagged
/// deprecated, in the snapshot's order.
pub open spec fn eligible_markets(markets: Seq<PerpMarketEntry>) -> Seq<u16>
    decreases markets.len(),
{
    if markets.len() == 0 {
        Seq::empty()
    } else {
        let rest = eligible_markets(markets.drop_last());
        if markets.last().deprecated {
            rest
        } else {
            rest.push(markets.last().perp_market_index)
        }
    }
}

/// The tasks a keeper runs: one index updater per token group, a drainer and
/// a funding updater per eligible market, and one watchdog.
#[derive(Clone, Debug)]
pub struct TaskPlan {
    pub index_groups: Vec<Vec<u16>>,
    pub markets: Vec<u16>,
}

/// Fans the snapshot out into tasks, once per process.
pub fn plan_tasks(snapshot: &Snapshot) -> (r: TaskPlan)
    ensures
        is_grouping(views_of(r.index_groups@), snapshot.token_indexes(), GROUP_SIZE as nat),
        r.markets@ == eligible_markets(snapshot.perp_markets@),
{
    let index_groups = token_groups(snapshot);
    let mut markets: Vec<u16> = Vec::new();
    let mut i: usize = 0;
    while i < snapshot.perp_markets.len()
        invariant
            0 <= i <= snapshot.perp_markets@.len(),
            markets@ == eligible_markets(snapshot.perp_markets@.subrange(0, i as int)),
        decreases snapshot.perp_markets@.len() - i,
    {
        proof {
            assert(snapshot.perp_markets@.subrange(0, i + 1).drop_last() =~= snapshot.perp_markets@.subrange(0, i as int));
        }
        if !snapshot.perp_markets[i].deprecated {
            markets.push(snapshot.perp_markets[i].perp_market_index);
        }
        i = i + 1;
    }
    proof {
        assert(snapshot.perp_markets@.subrange(0, i as int) =~= snapshot.perp_markets@);
    }
    TaskPlan { index_groups, markets }
}

} // verus!
