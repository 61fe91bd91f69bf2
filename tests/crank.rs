use mango_crank::address::Address;
use mango_crank::drain::{event_kind, insert_account, scan_events, EventKind, QueuedEvent, ScanError, DRAIN_LIMIT};
use mango_crank::grouping::{token_groups, GROUP_SIZE};
use mango_crank::plan::{
    consume_events_instruction, index_update_instructions, plan_consume_events, token_update_instruction,
    update_funding_instruction, AccountRef, DrainTick, Payload, PlanError,
};
use mango_crank::schedule::{
    check_new_listings, loop_step, new_listing_present, plan_tasks, LoopAction, LoopEvent, LoopPhase, WatchdogAction,
};
use mango_crank::topology::{PerpMarketEntry, Snapshot, TokenEntry};

fn addr(n: u8) -> Address {
    let mut bytes = [0u8; 32];
    bytes[0] = n;
    bytes[31] = n.wrapping_mul(7);
    Address::new(bytes)
}

fn token(index: u16) -> TokenEntry {
    let base = (index as u8).wrapping_mul(10);
    TokenEntry {
        token_index: index,
        name: format!("T{}", index),
        group: addr(1),
        mint_info: addr(base.wrapping_add(2)),
        oracle: addr(base.wrapping_add(3)),
        banks: vec![addr(base.wrapping_add(4)), addr(base.wrapping_add(5))],
    }
}

fn market(index: u16, deprecated: bool) -> PerpMarketEntry {
    let base = 200u8.wrapping_add(index as u8 * 8);
    PerpMarketEntry {
        perp_market_index: index,
        name: format!("P{}-PERP", index),
        address: addr(base),
        group: addr(1),
        bids: addr(base + 1),
        asks: addr(base + 2),
        oracle: addr(base + 3),
        event_queue: addr(base + 4),
        deprecated,
    }
}

fn snapshot(n_tokens: u16, markets: Vec<PerpMarketEntry>) -> Snapshot {
    Snapshot { tokens: (0..n_tokens).map(token).collect(), perp_markets: markets }
}

fn fill(maker: u8, taker: u8) -> QueuedEvent {
    QueuedEvent { event_type: 0, maker: addr(maker), taker: addr(taker), owner: addr(0) }
}

fn out(owner: u8) -> QueuedEvent {
    QueuedEvent { event_type: 1, maker: addr(0), taker: addr(0), owner: addr(owner) }
}

fn liquidate() -> QueuedEvent {
    QueuedEvent { event_type: 2, maker: addr(90), taker: addr(91), owner: addr(92) }
}

fn sorted(mut v: Vec<Address>) -> Vec<[u8; 32]> {
    let mut r: Vec<[u8; 32]> = v.drain(..).map(|a| a.bytes).collect();
    r.sort();
    r
}

#[test]
fn nine_tokens_make_two_groups() {
    let s = snapshot(9, vec![]);
    let groups = token_groups(&s);
    assert_eq!(groups, vec![vec![0, 1, 2, 3, 4, 5, 6, 7], vec![8]]);
    let tasks = plan_tasks(&s);
    assert_eq!(tasks.index_groups.len(), 2);
}

#[test]
fn grouping_covers_every_token_once() {
    for n in [0u16, 1, 7, 8, 9, 16, 17, 30] {
        let s = snapshot(n, vec![]);
        let groups = token_groups(&s);
        assert_eq!(groups.len(), (n as usize + GROUP_SIZE - 1) / GROUP_SIZE);
        assert!(groups.iter().all(|g| !g.is_empty() && g.len() <= GROUP_SIZE));
        let flat: Vec<u16> = groups.concat();
        assert_eq!(flat, (0..n).collect::<Vec<u16>>());
    }
}

#[test]
fn three_fills_sharing_a_maker() {
    let queue = vec![fill(50, 61), fill(50, 62), fill(50, 63)];
    let pass = scan_events(&queue).unwrap().unwrap();
    assert_eq!(pass.drained, 3);
    assert_eq!(sorted(pass.accounts.clone()), sorted(vec![addr(50), addr(61), addr(62), addr(63)]));
    let m = market(1, false);
    match plan_consume_events(&m, &queue) {
        DrainTick::Submit { instruction, drained } => {
            assert_eq!(drained, 3);
            assert_eq!(instruction.payload, Payload::PerpConsumeEvents { limit: 10 });
            assert_eq!(instruction.accounts.len(), 3 + 4);
            let named: Vec<Address> = instruction.accounts[3..].iter().map(|a| a.address).collect();
            assert_eq!(sorted(named), sorted(vec![addr(50), addr(61), addr(62), addr(63)]));
            assert!(instruction.accounts[3..].iter().all(|a| a.is_writable && !a.is_signer));
        }
        other => panic!("expected a submission, got {:?}", other),
    }
}

#[test]
fn affected_set_counts_distinct_identities() {
    let queue = vec![fill(1, 2), out(2), fill(2, 1), out(3), liquidate(), out(1)];
    let pass = scan_events(&queue).unwrap().unwrap();
    assert_eq!(pass.drained, 6);
    assert_eq!(sorted(pass.accounts), sorted(vec![addr(1), addr(2), addr(3)]));
}

#[test]
fn inserting_a_present_account_changes_nothing() {
    let mut accounts = vec![addr(4), addr(5)];
    insert_account(&mut accounts, addr(5));
    assert_eq!(accounts, vec![addr(4), addr(5)]);
    insert_account(&mut accounts, addr(6));
    assert_eq!(accounts, vec![addr(4), addr(5), addr(6)]);
}

#[test]
fn empty_queue_is_idle() {
    assert!(matches!(scan_events(&vec![]), Ok(None)));
    assert!(matches!(plan_consume_events(&market(1, false), &vec![]), DrainTick::Idle));
}

#[test]
fn unknown_tag_abandons_the_tick() {
    let mut bad = fill(1, 2);
    bad.event_type = 9;
    let queue = vec![fill(3, 4), bad, out(5)];
    assert_eq!(scan_events(&queue).unwrap_err(), ScanError::UnknownEventType { tag: 9 });
    assert!(matches!(
        plan_consume_events(&market(1, false), &queue),
        DrainTick::Abandon { error: ScanError::UnknownEventType { tag: 9 } }
    ));
    // the next tick works on a fresh fetch only
    let next = vec![out(5)];
    let pass = scan_events(&next).unwrap().unwrap();
    assert_eq!(pass.drained, 1);
    assert_eq!(pass.accounts, vec![addr(5)]);
}

#[test]
fn unknown_tag_past_the_window_is_not_read() {
    let mut queue: Vec<QueuedEvent> = (0..DRAIN_LIMIT).map(|_| liquidate()).collect();
    let mut bad = out(1);
    bad.event_type = 3;
    queue.push(bad);
    let pass = scan_events(&queue).unwrap().unwrap();
    assert_eq!(pass.drained, DRAIN_LIMIT);
    assert!(pass.accounts.is_empty());
}

#[test]
fn scan_stops_at_ten_entries() {
    let queue: Vec<QueuedEvent> = (0..12u8).map(out).collect();
    let pass = scan_events(&queue).unwrap().unwrap();
    assert_eq!(pass.drained, 10);
    assert_eq!(sorted(pass.accounts), sorted((0..10u8).map(addr).collect()));
}

#[test]
fn event_tags() {
    assert_eq!(event_kind(0), Some(EventKind::Fill));
    assert_eq!(event_kind(1), Some(EventKind::Out));
    assert_eq!(event_kind(2), Some(EventKind::Liquidate));
    assert_eq!(event_kind(3), None);
}

#[test]
fn index_update_transaction_layout() {
    let s = snapshot(3, vec![]);
    let sysvar = addr(77);
    let ixs = index_update_instructions(&s, &vec![2, 0], sysvar).unwrap();
    assert_eq!(ixs.len(), 3);
    assert_eq!(ixs[0].payload, Payload::SetComputeUnitPrice { micro_lamports: 1 });
    assert!(ixs[0].accounts.is_empty());
    let t2 = token(2);
    let ro = |a: Address| AccountRef { address: a, is_signer: false, is_writable: false };
    let w = |a: Address| AccountRef { address: a, is_signer: false, is_writable: true };
    assert_eq!(ixs[1].payload, Payload::TokenUpdateIndexAndRate);
    assert_eq!(
        ixs[1].accounts,
        vec![ro(t2.group), ro(t2.mint_info), ro(t2.oracle), ro(sysvar), w(t2.banks[0]), w(t2.banks[1])]
    );
    assert_eq!(ixs[2].accounts, token_update_instruction(&token(0), sysvar).accounts);
}

#[test]
fn index_update_with_unlisted_token_fails() {
    let s = snapshot(3, vec![]);
    assert_eq!(
        index_update_instructions(&s, &vec![1, 5], addr(77)).unwrap_err(),
        PlanError::UnknownToken { token_index: 5 }
    );
}

#[test]
fn funding_instruction_layout() {
    let m = market(1, false);
    let ix = update_funding_instruction(&m);
    assert_eq!(ix.payload, Payload::PerpUpdateFunding);
    let flags: Vec<(Address, bool, bool)> = ix.accounts.iter().map(|a| (a.address, a.is_signer, a.is_writable)).collect();
    assert_eq!(
        flags,
        vec![(m.group, false, false), (m.address, false, true), (m.bids, false, true), (m.asks, false, true), (m.oracle, false, false)]
    );
}

#[test]
fn consume_events_layout() {
    let m = market(2, false);
    let ix = consume_events_instruction(&m, &vec![addr(9)]);
    let flags: Vec<(Address, bool)> = ix.accounts.iter().map(|a| (a.address, a.is_writable)).collect();
    assert_eq!(flags, vec![(m.group, false), (m.address, true), (m.event_queue, true), (addr(9), true)]);
}

#[test]
fn failed_submission_waits_for_next_tick() {
    let (phase, action) = loop_step(LoopPhase::Submitting, LoopEvent::SubmitFailed);
    assert_eq!(phase, LoopPhase::WaitingForTick);
    assert_eq!(action, LoopAction::LogFailure);
    let (phase, action) = loop_step(phase, LoopEvent::Tick { has_work: true });
    assert_eq!((phase, action), (LoopPhase::Submitting, LoopAction::Submit));
    let (phase, action) = loop_step(phase, LoopEvent::SubmitSucceeded);
    assert_eq!((phase, action), (LoopPhase::WaitingForTick, LoopAction::LogSuccess));
}

#[test]
fn funding_tick_failure_is_logged_without_retry() {
    let (phase, action) = loop_step(LoopPhase::WaitingForTick, LoopEvent::Tick { has_work: true });
    assert_eq!(action, LoopAction::Submit);
    let (phase, action) = loop_step(phase, LoopEvent::SubmitFailed);
    assert_eq!(action, LoopAction::LogFailure);
    assert_eq!(phase, LoopPhase::WaitingForTick);
    assert_eq!(loop_step(phase, LoopEvent::SubmitFailed).1, LoopAction::Wait);
    assert_eq!(loop_step(LoopPhase::WaitingForTick, LoopEvent::PrepareFailed), (LoopPhase::WaitingForTick, LoopAction::LogFailure));
    assert_eq!(loop_step(LoopPhase::WaitingForTick, LoopEvent::Tick { has_work: false }), (LoopPhase::WaitingForTick, LoopAction::Wait));
}

#[test]
fn watchdog_on_unchanged_registry_continues() {
    let s = snapshot(4, vec![market(0, false), market(1, true)]);
    for _ in 0..3 {
        assert_eq!(check_new_listings(&s, &vec![0, 1, 2, 3], &vec![0, 1]), WatchdogAction::Continue);
    }
    assert_eq!(check_new_listings(&s, &vec![3, 1], &vec![]), WatchdogAction::Continue);
}

#[test]
fn watchdog_terminates_on_new_listing() {
    let s = snapshot(4, vec![market(0, false)]);
    assert_eq!(check_new_listings(&s, &vec![0, 1, 2, 3, 4], &vec![0]), WatchdogAction::Terminate);
    assert_eq!(check_new_listings(&s, &vec![0, 1, 2, 3], &vec![0, 1]), WatchdogAction::Terminate);
    assert!(new_listing_present(&vec![1, 2], &vec![2, 3]));
    assert!(!new_listing_present(&vec![1, 2], &vec![2, 1, 2]));
}

#[test]
fn deprecated_markets_get_no_tasks() {
    let s = snapshot(2, vec![market(0, true), market(1, false), market(2, false)]);
    let tasks = plan_tasks(&s);
    assert_eq!(tasks.markets, vec![1, 2]);
    assert_eq!(tasks.index_groups, vec![vec![0, 1]]);
    assert_eq!(s.perp_market(2).unwrap().perp_market_index, 2);
    assert!(s.perp_market(5).is_none());
    assert!(s.token(9).is_none());
}

#[test]
fn addresses_compare_by_bytes() {
    assert!(addr(3).same_as(&addr(3)));
    let mut b = addr(3);
    b.bytes[17] = 1;
    assert!(!addr(3).same_as(&b));
}
