use vstd::prelude::*;
use crate::address::Address;

verus! {

/// How many queue entries one drain pass scans at most; it is also the limit
/// handed to the on-chain settlement instruction.
pub const DRAIN_LIMIT: usize = 10;

/// The kinds of entries an event queue holds.
#[derive(Clone, Copy, Debug, PartialEq, Eq)]
pub enum EventKind {
    Fill,
    Out,
    Liquidate,
}

/// The kind that an entry's tag byte stands for, if any.
pub open spec fn kind_of_tag(tag: u8) -> Option<EventKind> {
    if tag == 0 {
        Some(EventKind::Fill)
    } else if tag == 1 {
        Some(EventKind::Out)
    } else if tag == 2 {
        Some(EventKind::Liquidate)
    } else {
        None
    }
}

pub fn event_kind(tag: u8) -> (r: Option<EventKind>)
    ensures
        r == kind_of_tag(tag),
{
    if tag == 0 {
        Some(EventKind::Fill)
    } else if tag == 1 {
        Some(EventKind::Out)
    } else if tag == 2 {
        Some(EventKind::Liquidate)
    } else {
        None
    }
}

/// One entry at the front of an event queue. A fill names a maker and a taker,
/// an out names an owner; the fields that the tag does not use are ignored.
#[derive(Clone, Copy, Debug, PartialEq, Eq)]
pub struct QueuedEvent {
    pub event_type: u8,
    pub maker: Address,
    pub taker: Address,
    pub owner: Address,
}

/// The accounts that one entry affects.
pub open spec fn event_accounts(e: QueuedEvent) -> Set<Address> {
    match kind_of_tag(e.event_type) {
        Some(EventKind::Fill) => set![e.maker, e.taker],
        Some(EventKind::Out) => set![e.owner],
        _ => Set::empty(),
    }
}

/// The accounts that a run of entries affects, each once.
pub open spec fn accounts_of(events: Seq<QueuedEvent>) -> Set<Address>
    decreases events.len(),
{
    if events.len() == 0 {
        Set::empty()
    } else {
        accounts_of(events.drop_last()).union(event_accounts(events.last()))
    }
}

/// The entries that one pass looks at: the first `DRAIN_LIMIT` of the queue.
pub open spec fn scan_window(queue: Seq<QueuedEvent>) -> Seq<QueuedEvent> {
    if queue.len() <= DRAIN_LIMIT {
        queue
    } else {
        queue.subrange(0, DRAIN_LIMIT as int)
    }
}

/// Entry `i` of the window carries an unknown tag and every entry before it a known one.
pub open spec fn first_unknown_at(queue: Seq<QueuedEvent>, i: int) -> bool {
    &&& 0 <= i < scan_window(queue).len()
    &&& kind_of_tag(queue[i].event_type).is_none()
    &&& forall|j: int| 0 <= j < i ==> kind_of_tag(#[trigger] queue[j].event_type).is_some()
}

pub open spec fn window_has_unknown(queue: Seq<QueuedEvent>) -> bool {
    exists|i: int|
        0 <= i < scan_window(queue).len() && kind_of_tag(#[trigger] queue[i].event_type).is_none()
}

/// Why a drain pass gave up on a tick.
#[derive(Clone, Copy, Debug, PartialEq, Eq)]
pub enum ScanError {
    UnknownEventType { tag: u8 },
}

/// What a drain pass found: the affected accounts, each once, and how many
/// entries it stepped over.
#[derive(Clone, Debug)]
pub struct DrainPass {
    pub accounts: Vec<Address>,
    pub drained: usize,
}

/// Adds `a` to a duplicate-free list of accounts; a list that holds it already
/// stays as it is.
pub fn insert_account(accounts: &mut Vec<Address>, a: Address)
    requires
        old(accounts)@.no_duplicates(),
    ensures
        final(accounts)@.no_duplicates(),
        final(accounts)@.to_set() == old(accounts)@.to_set().insert(a),
        old(accounts)@.contains(a) ==> final(accounts)@ == old(accounts)@,
{
    let mut i: usize = 0;
    while i < accounts.len()
        invariant
            0 <= i <= accounts@.len(),
            accounts@ == old(accounts)@,
            accounts@.no_duplicates(),
            forall|j: int| 0 <= j < i ==> accounts@[j] != a,
        decreases accounts@.len() - i,
    {
        if accounts[i].same_as(&a) {
            proof {
                assert(accounts@[i as int] == a);
                assert(accounts@.to_set().insert(a) =~= accounts@.to_set());
            }
            return;
        }
        i = i + 1;
    }
    let ghost before = accounts@;
    accounts.push(a);
    proof {
        assert(!before.contains(a));
        assert forall|x: Address| #[trigger] accounts@.to_set().contains(x)
            <==> before.to_set().insert(a).contains(x) by {
            if x == a {
                assert(accounts@[before.len() as int] == x);
            }
            if before.contains(x) {
                let k = choose|k: int| 0 <= k < before.len() && before[k] == x;
                assert(accounts@[k] == x);
            }
            if accounts@.contains(x) {
                let k = choose|k: int| 0 <= k < accounts@.len() && accounts@[k] == x;
                if k < before.len() {
                    assert(before[k] == x);
                }
            }
        }
        assert(accounts@.to_set() =~= before.to_set().insert(a));
    }
}

/// One drain pass over a fetched queue, front first: at most `DRAIN_LIMIT`
/// entries are stepped over, a fill adds its maker and taker, an out its owner,
/// a liquidation nothing. An unknown tag in that window ends the pass with an
/// error; an empty queue gives `None`.
pub fn scan_events(queue: &Vec<QueuedEvent>) -> (r: Result<Option<DrainPass>, ScanError>)
    ensures
        r is Err <==> window_has_unknown(queue@),
        r matches Err(ScanError::UnknownEventType { tag }) ==> exists|i: int|
            first_unknown_at(queue@, i) && queue@[i].event_type == tag,
        r matches Ok(None) <==> (queue@.len() == 0),
        r matches Ok(Some(p)) ==> {
            &&& p.drained == scan_window(queue@).len()
            &&& p.drained > 0
            &&& p.accounts@.no_duplicates()
            &&& p.accounts@.to_set() == accounts_of(scan_window(queue@))
        },
{
    let mut accounts: Vec<Address> = Vec::new();
    let mut drained: usize = 0;
    while drained < DRAIN_LIMIT && drained < queue.len()
        invariant
            0 <= drained <= DRAIN_LIMIT,
            drained <= queue@.len(),
            accounts@.no_duplicates(),
            accounts@.to_set() == accounts_of(queue@.subrange(0, drained as int)),
            forall|j: int| 0 <= j < drained ==> kind_of_tag(#[trigger] queue@[j].event_type).is_some(),
        decreases DRAIN_LIMIT - drained,
    {
        let e = queue[drained];
        let ghost prefix = queue@.subrange(0, drained as int);
        let ghost before = accounts@.to_set();
        match event_kind(e.event_type) {
            Some(EventKind::Fill) => {
                insert_account(&mut accounts, e.maker);
                insert_account(&mut accounts, e.taker);
            },
            Some(EventKind::Out) => {
                insert_account(&mut accounts, e.owner);
            },
            Some(EventKind::Liquidate) => {},
            None => {
                proof {
                    assert(first_unknown_at(queue@, drained as int));
                    assert(kind_of_tag(queue@[drained as int].event_type).is_none());
                }
                return Err(ScanError::UnknownEventType { tag: e.event_type });
            },
        }
        proof {
            let next = queue@.subrange(0, drained + 1);
            assert(next.drop_last() =~= prefix);
            assert(next.last() == e);
            assert(accounts@.to_set() =~= before.union(event_accounts(e)));
        }
        drained = drained + 1;
    }
    proof {
        assert(queue@.subrange(0, drained as int) =~= scan_window(queue@));
        assert forall|i: int|
            0 <= i < scan_window(queue@).len() implies kind_of_tag(
            #[trigger] queue@[i].event_type,
        ).is_some() by {}
    }
    if drained == 0 {
        return Ok(None);
    }
    Ok(Some(DrainPass { accounts, drained }))
}

/// The accounts of a pass, held once each, are exactly as many as the distinct
/// identities that the scanned entries name; adding one of them again leaves
/// the set as it is.
pub proof fn lemma_affected_count(queue: Seq<QueuedEvent>, accounts: Seq<Address>)
    requires
        accounts.no_duplicates(),
        accounts.to_set() == accounts_of(scan_window(queue)),
    ensures
        accounts_of(scan_window(queue)).finite(),
        accounts.len() == accounts_of(scan_window(queue)).len(),
        forall|a: Address| accounts.contains(a) ==> #[trigger] accounts.to_set().insert(a) == accounts.to_set(),
{
    accounts.unique_seq_to_set();
    assert forall|a: Address| accounts.contains(a) implies #[trigger] accounts.to_set().insert(a) == accounts.to_set() by {
        assert(accounts.to_set().insert(a) =~= accounts.to_set());
    }
}

} // verus!
