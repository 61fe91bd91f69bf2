use vstd::prelude::*;
use crate::address::Address;

verus! {

/// What the keeper knows of one token: its registry entry, price oracle and
/// reserve accounts.
#[derive(Clone, Debug)]
pub struct TokenEntry {
    pub token_index: u16,
    pub name: String,
    pub group: Address,
    pub mint_info: Address,
    pub oracle: Address,
    pub banks: Vec<Address>,
}

/// What the keeper knows of one perpetual market.
#[derive(Clone, Debug)]
pub struct PerpMarketEntry {
    pub perp_market_index: u16,
    pub name: String,
    pub address: Address,
    pub group: Address,
    pub bids: Address,
    pub asks: Address,
    pub oracle: Address,
    pub event_queue: Address,
    pub deprecated: bool,
}

/// The instruments the keeper works on, fixed for the life of the process.
#[derive(Clone, Debug)]
pub struct Snapshot {
    pub tokens: Vec<TokenEntry>,
    pub perp_markets: Vec<PerpMarketEntry>,
}

pub open spec fn token_index_of(t: TokenEntry) -> u16 {
    t.token_index
}

pub open spec fn market_index_of(m: PerpMarketEntry) -> u16 {
    m.perp_market_index
}

impl Snapshot {
    /// The token indexes, in the order the snapshot lists them.
    pub open spec fn token_indexes(self) -> Seq<u16> {
        self.tokens@.map_values(|t: TokenEntry| token_index_of(t))
    }

    pub open spec fn market_indexes(self) -> Seq<u16> {
        self.perp_markets@.map_values(|m: PerpMarketEntry| market_index_of(m))
    }

    /// Each instrument is listed once.
    pub open spec fn wf(self) -> bool {
        self.token_indexes().no_duplicates() && self.market_indexes().no_duplicates()
    }

    /// The entry of token `index`, if the snapshot lists it.
    pub fn token(&self, index: u16) -> (r: Option<&TokenEntry>)
        ensures
            r is Some <==> self.token_indexes().contains(index),
            r matches Some(t) ==> t.token_index == index && self.tokens@.contains(*t),
    {
        let mut i: usize = 0;
        while i < self.tokens.len()
            invariant
                0 <= i <= self.tokens@.len(),
                forall|j: int| 0 <= j < i ==> self.tokens@[j].token_index != index,
            decreases self.tokens@.len() - i,
        {
            if self.tokens[i].token_index == index {
                proof {
                    assert(self.token_indexes()[i as int] == index);
                }
                return Some(&self.tokens[i]);
            }
            i = i + 1;
        }
        proof {
            if self.token_indexes().contains(index) {
                let k = choose|k: int|
                    0 <= k < self.token_indexes().len() && self.token_indexes()[k] == index;
                assert(self.tokens@[k].token_index == index);
            }
        }
        None
    }

    /// The token indexes as a vector.
    pub fn token_index_list(&self) -> (r: Vec<u16>)
        ensures
            r@ == self.token_indexes(),
    {
        let mut r: Vec<u16> = Vec::new();
        let mut i: usize = 0;
        while i < self.tokens.len()
            invariant
                0 <= i <= self.tokens@.len(),
                r@ == self.token_indexes().subrange(0, i as int),
            decreases self.tokens@.len() - i,
        {
            r.push(self.tokens[i].token_index);
            proof {
                assert(r@ =~= self.token_indexes().subrange(0, i + 1));
            }
            i = i + 1;
        }
        proof {
            assert(r@ =~= self.token_indexes());
        }
        r
    }

    pub fn market_index_list(&self) -> (r: Vec<u16>)
        ensures
            r@ == self.market_indexes(),
    {
        let mut r: Vec<u16> = Vec::new();
        let mut i: usize = 0;
        while i < self.perp_markets.len()
            invariant
                0 <= i <= self.perp_markets@.len(),
                r@ == self.market_indexes().subrange(0, i as int),
            decreases self.perp_markets@.len() - i,
        {
            r.push(self.perp_markets[i].perp_market_index);
            proof {
                assert(r@ =~= self.market_indexes().subrange(0, i + 1));
            }
            i = i + 1;
        }
        proof {
            assert(r@ =~= self.market_indexes());
        }
        r
    }

    /// The entry of perpetual market `index`, if the snapshot lists it.
    pub fn perp_market(&self, index: u16) -> (r: Option<&PerpMarketEntry>)
        ensures
            r is Some <==> self.market_indexes().contains(index),
            r matches Some(m) ==> m.perp_market_index == index && self.perp_markets@.contains(*m),
    {
        let mut i: usize = 0;
        while i < self.perp_markets.len()
            invariant
                0 <= i <= self.perp_markets@.len(),
                forall|j: int| 0 <= j < i ==> self.perp_markets@[j].perp_market_index != index,
            decreases self.perp_markets@.len() - i,
        {
            if self.perp_markets[i].perp_market_index == index {
                proof {
                    assert(self.market_indexes()[i as int] == index);
                }
                return Some(&self.perp_markets[i]);
            }
            i = i + 1;
        }
        proof {
            if self.market_indexes().contains(index) {
                let k = choose|k: int|
                    0 <= k < self.market_indexes().len() && self.market_indexes()[k] == index;
                assert(self.perp_markets@[k].perp_market_index == index);
            }
        }
        None
    }
}

} // verus!
