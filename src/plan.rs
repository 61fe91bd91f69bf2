use vstd::prelude::*;
use crate::address::Address;
use crate::drain::{scan_events, accounts_of, scan_window, window_has_unknown, QueuedEvent, ScanError, DRAIN_LIMIT};
use crate::topology::{PerpMarketEntry, Snapshot, TokenEntry};

verus! {

/// Priority fee, in micro-lamports per compute unit, put in front of every
/// index-update transaction.
pub const COMPUTE_UNIT_PRICE: u64 = 1;

/// One account that an instruction names.
#[derive(Clone, Copy, Debug, PartialEq, Eq)]
pub struct AccountRef {
    pub address: Address,
    pub is_signer: bool,
    pub is_writable: bool,
}

/// What an instruction asks its program to do.
#[derive(Clone, Copy, Debug, PartialEq, Eq)]
pub enum Payload {
    SetComputeUnitPrice { micro_lamports: u64 },
    TokenUpdateIndexAndRate,
    PerpConsumeEvents { limit: usize },
    PerpUpdateFunding,
}

/// An instruction descriptor: the accounts in the order the program expects
/// them, and the payload.
#[derive(Clone, Debug)]
pub struct InstructionPlan {
    pub accounts: Vec<AccountRef>,
    pub payload: Payload,
}

pub open spec fn read_only(a: Address) -> AccountRef {
    AccountRef { address: a, is_signer: false, is_writable: false }
}

pub open spec fn writable(a: Address) -> AccountRef {
    AccountRef { address: a, is_signer: false, is_writable: true }
}

pub open spec fn all_writable(s: Seq<Address>) -> Seq<AccountRef> {
    s.map_values(|a: Address| writable(a))
}

pub open spec fn token_update_accounts(t: TokenEntry, instructions_sysvar: Address) -> Seq<AccountRef> {
    seq![read_only(t.group), read_only(t.mint_info), read_only(t.oracle), read_only(instructions_sysvar)]
        + all_writable(t.banks@)
}

pub open spec fn consume_events_accounts(m: PerpMarketEntry, affected: Seq<Address>) -> Seq<AccountRef> {
    seq![read_only(m.group), writable(m.address), writable(m.event_queue)] + all_writable(affected)
}

pub open spec fn update_funding_accounts(m: PerpMarketEntry) -> Seq<AccountRef> {
    seq![read_only(m.group), writable(m.address), writable(m.bids), writable(m.asks), read_only(m.oracle)]
}

fn push_writable(out: &mut Vec<AccountRef>, addresses: &Vec<Address>)
    ensures
        final(out)@ == old(out)@ + all_writable(addresses@),
{
    let ghost start = out@;
    let mut i: usize = 0;
    while i < addresses.len()
        invariant
            0 <= i <= addresses@.len(),
            out@ == start + all_writable(addresses@.subrange(0, i as int)),
        decreases addresses@.len() - i,
    {
        out.push(AccountRef { address: addresses[i], is_signer: false, is_writable: true });
        proof {
            assert(all_writable(addresses@.subrange(0, i + 1)) =~= all_writable(
                addresses@.subrange(0, i as int),
            ).push(writable(addresses@[i as int])));
            assert(out@ =~= start + all_writable(addresses@.subrange(0, i + 1)));
        }
        i = i + 1;
    }
    proof {
        assert(addresses@.subrange(0, i as int) =~= addresses@);
    }
}

/// The index-and-rate update of one token: group, registry entry, oracle and
/// instructions sysvar read-only, then every reserve account writable.
pub fn token_update_instruction(token: &TokenEntry, instructions_sysvar: Address) -> (r: InstructionPlan)
    ensures
        r.accounts@ == token_update_accounts(*token, instructions_sysvar),
        r.payload == Payload::TokenUpdateIndexAndRate,
{
    let mut accounts: Vec<AccountRef> = Vec::new();
    accounts.push(AccountRef { address: token.group, is_signer: false, is_writable: false });
    accounts.push(AccountRef { address: token.mint_info, is_signer: false, is_writable: false });
    accounts.push(AccountRef { address: token.oracle, is_signer: false, is_writable: false });
    accounts.push(AccountRef { address: instructions_sysvar, is_signer: false, is_writable: false });
    proof {
        assert(accounts@ =~= seq![read_only(token.group), read_only(token.mint_info), read_only(token.oracle), read_only(instructions_sysvar)]);
    }
    push_writable(&mut accounts, &token.banks);
    InstructionPlan { accounts, payload: Payload::TokenUpdateIndexAndRate }
}

/// A token index of a group that the snapshot does not list.
#[derive(Clone, Copy, Debug, PartialEq, Eq)]
pub enum PlanError {
    UnknownToken { token_index: u16 },
}

/// Instruction `k` updates the token that the snapshot lists under `index`.
pub open spec fn updates_token(snapshot: Snapshot, p: InstructionPlan, index: u16, instructions_sysvar: Address) -> bool {
    &&& p.payload == Payload::TokenUpdateIndexAndRate
    &&& exists|k: int|
        0 <= k < snapshot.tokens@.len() && (#[trigger] snapshot.tokens@[k]).token_index == index
            && p.accounts@ == token_update_accounts(snapshot.tokens@[k], instructions_sysvar)
}

/// The transaction of one group's tick: a priority fee first, then one update
/// per token of the group, in the group's order. A token that the snapshot
/// does not list fails the whole tick.
pub fn index_update_instructions(snapshot: &Snapshot, group: &Vec<u16>, instructions_sysvar: Address) -> (r: Result<Vec<InstructionPlan>, PlanError>)
    ensures
        r is Ok <==> forall|i: int| 0 <= i < group@.len() ==> snapshot.token_indexes().contains(#[trigger] group@[i]),
        r matches Err(PlanError::UnknownToken { token_index }) ==> group@.contains(token_index)
            && !snapshot.token_indexes().contains(token_index),
        r matches Ok(v) ==> {
            &&& v@.len() == group@.len() + 1
            &&& v@[0].accounts@.len() == 0
            &&& v@[0].payload == (Payload::SetComputeUnitPrice { micro_lamports: COMPUTE_UNIT_PRICE })
            &&& forall|i: int| 0 <= i < group@.len() ==> updates_token(*snapshot, #[trigger] v@[i + 1], group@[i], instructions_sysvar)
        },
{
    let mut v: Vec<InstructionPlan> = Vec::new();
    v.push(InstructionPlan { accounts: Vec::new(), payload: Payload::SetComputeUnitPrice { micro_lamports: COMPUTE_UNIT_PRICE } });
    let mut i: usize = 0;
    while i < group.len()
        invariant
            0 <= i <= group@.len(),
            v@.len() == i + 1,
            v@[0].accounts@.len() == 0,
            v@[0].payload == (Payload::SetComputeUnitPrice { micro_lamports: COMPUTE_UNIT_PRICE }),
            forall|j: int| 0 <= j < i ==> snapshot.token_indexes().contains(#[trigger] group@[j]),
            forall|j: int| 0 <= j < i ==> updates_token(*snapshot, #[trigger] v@[j + 1], group@[j], instructions_sysvar),
        decreases group@.len() - i,
    {
        let index = group[i];
        match snapshot.token(index) {
            Some(token) => {
                let ix = token_update_instruction(token, instructions_sysvar);
                proof {
                    let k = choose|k: int| 0 <= k < snapshot.tokens@.len() && snapshot.tokens@[k] == *token;
                    assert(snapshot.tokens@[k].token_index == index);
                }
                let ghost before = v@;
                v.push(ix);
                proof {
                    assert forall|j: int| 0 <= j < i + 1 implies updates_token(*snapshot, #[trigger] v@[j + 1], group@[j], instructions_sysvar) by {
                        if j < i {
                            assert(v@[j + 1] == before[j + 1]);
                        }
                    }
                }
            },
            None => {
                return Err(PlanError::UnknownToken { token_index: index });
            },
        }
        i = i + 1;
    }
    Ok(v)
}

/// The settlement of one market's queue: group read-only, market and queue
/// writable, then every affected account writable; the program drains up to
/// `DRAIN_LIMIT` entries.
pub fn consume_events_instruction(market: &PerpMarketEntry, affected: &Vec<Address>) -> (r: InstructionPlan)
    ensures
        r.accounts@ == consume_events_accounts(*market, affected@),
        r.payload == (Payload::PerpConsumeEvents { limit: DRAIN_LIMIT }),
{
    let mut accounts: Vec<AccountRef> = Vec::new();
    accounts.push(AccountRef { address: market.group, is_signer: false, is_writable: false });
    accounts.push(AccountRef { address: market.address, is_signer: false, is_writable: true });
    accounts.push(AccountRef { address: market.event_queue, is_signer: false, is_writable: true });
    proof {
        assert(accounts@ =~= seq![read_only(market.group), writable(market.address), writable(market.event_queue)]);
    }
    push_writable(&mut accounts, affected);
    InstructionPlan { accounts, payload: Payload::PerpConsumeEvents { limit: DRAIN_LIMIT } }
}

/// The funding refresh of one market: group read-only, market and both order
/// books writable, oracle read-only.
pub fn update_funding_instruction(market: &PerpMarketEntry) -> (r: InstructionPlan)
    ensures
        r.accounts@ == update_funding_accounts(*market),
        r.payload == Payload::PerpUpdateFunding,
{
    let mut accounts: Vec<AccountRef> = Vec::new();
    accounts.push(AccountRef { address: market.group, is_signer: false, is_writable: false });
    accounts.push(AccountRef { address: market.address, is_signer: false, is_writable: true });
    accounts.push(AccountRef { address: market.bids, is_signer: false, is_writable: true });
    accounts.push(AccountRef { address: market.asks, is_signer: false, is_writable: true });
    accounts.push(AccountRef { address: market.oracle, is_signer: false, is_writable: false });
    proof {
        assert(accounts@ =~= update_funding_accounts(*market));
    }
    InstructionPlan { accounts, payload: Payload::PerpUpdateFunding }
}

/// What a drainer does with one fetched queue.
#[derive(Clone, Debug)]
pub enum DrainTick {
    /// The queue is empty: nothing is sent this tick.
    Idle,
    /// The scan met an unknown tag: nothing is sent this tick.
    Abandon { error: ScanError },
    /// Send this one instruction; `drained` entries were scanned.
    Submit { instruction: InstructionPlan, drained: usize },
}

/// One drainer tick on a freshly fetched queue. Nothing of an earlier tick is
/// read: the outcome depends on the market and the queue alone.
pub fn plan_consume_events(market: &PerpMarketEntry, queue: &Vec<QueuedEvent>) -> (r: DrainTick)
    ensures
        r is Idle <==> queue@.len() == 0,
        r is Abandon <==> queue@.len() > 0 && window_has_unknown(queue@),
        r matches DrainTick::Submit { instruction, drained } ==> {
            &&& drained == scan_window(queue@).len()
            &&& instruction.payload == (Payload::PerpConsumeEvents { limit: DRAIN_LIMIT })
            &&& exists|affected: Seq<Address>|
                affected.no_duplicates() && affected.to_set() == accounts_of(scan_window(queue@))
                    && instruction.accounts@ == consume_events_accounts(*market, affected)
        },
{
    match scan_events(queue) {
        Err(error) => DrainTick::Abandon { error },
        Ok(None) => DrainTick::Idle,
        Ok(Some(pass)) => {
            let instruction = consume_events_instruction(market, &pass.accounts);
            proof {
                assert(pass.accounts@.no_duplicates());
            }
            DrainTick::Submit { instruction, drained: pass.drained }
        },
    }
}

} // verus!
