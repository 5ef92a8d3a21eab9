use vstd::prelude::*;

use crate::address::Address;
use crate::amount::Amount;
use crate::structs::{all_zero, copy_pair, Chain, ChainName, Token};
use crate::utils::{make_same_digits, same_digits};

verus! {

/// What a router answered for one side of a pair: the amount, the call data, the contract to
/// call and the gas cost.
pub struct PairQuote {
    pub amount: Amount,
    pub data: String,
    pub to: Address,
    pub gas: Amount,
}

impl View for PairQuote {
    type V = (int, Seq<char>, Seq<u8>, int);

    open spec fn view(&self) -> (int, Seq<char>, Seq<u8>, int) {
        (self.amount@, self.data@, self.to.bytes@, self.gas@)
    }
}

impl PairQuote {
    /// The quote that stands for a pair before any router answered: zero amounts, no data,
    /// the zero address.
    pub fn empty() -> (q: PairQuote)
        ensures
            q.amount@ == 0,
            q.data@.len() == 0,
            all_zero(q.to.bytes@),
            q.gas@ == 0,
    {
        PairQuote { amount: Amount::zero(), data: String::new(), to: Address::zero(), gas: Amount::zero() }
    }

    /// A copy of the quote.
    pub fn copy(&self) -> (r: PairQuote)
        ensures
            r@ == self@,
    {
        PairQuote { amount: self.amount.copy(), data: self.data.clone(), to: self.to, gas: self.gas.copy() }
    }
}

/// One chain in the shared table: its name, id and URL, and for each of its pairs the last
/// quote recorded.
pub struct ChainEntry {
    pub name: ChainName,
    pub id: u16,
    pub url: String,
    pub pairs: Vec<((Token, Token), PairQuote)>,
}

/// The table that all chains share: where each chain publishes its latest quotes so that the
/// others can look for arbitrage against them.
pub struct ChainTable {
    pub chains: Vec<ChainEntry>,
}

/// The entry that `register_chain` adds for `chain`.
pub open spec fn registered_entry(e: ChainEntry, chain: Chain) -> bool {
    &&& e.name == chain.name
    &&& e.id == chain.id
    &&& e.url == chain.url
    &&& e.pairs@.len() == chain.pairs@.len()
    &&& forall|i: int|
        0 <= i < e.pairs@.len() ==> (#[trigger] e.pairs@[i]).0 == chain.pairs@[i] && e.pairs@[i].1.amount@
            == 0 && e.pairs@[i].1.data@.len() == 0 && all_zero(e.pairs@[i].1.to.bytes@)
            && e.pairs@[i].1.gas@ == 0
}

/// Whether `after` is `before` with quote `q` recorded at pair `index` of every chain named
/// `name` that has such a pair; all else is kept.
pub open spec fn quote_recorded(
    before: Seq<ChainEntry>,
    after: Seq<ChainEntry>,
    name: ChainName,
    index: int,
    q: (int, Seq<char>, Seq<u8>, int),
) -> bool {
    &&& after.len() == before.len()
    &&& forall|k: int|
        0 <= k < before.len() ==> {
            let b = #[trigger] before[k];
            let a = after[k];
            &&& a.name == b.name
            &&& a.id == b.id
            &&& a.url == b.url
            &&& a.pairs@.len() == b.pairs@.len()
            &&& forall|i: int|
                0 <= i < b.pairs@.len() ==> (#[trigger] a.pairs@[i]).0 == b.pairs@[i].0 && if b.name
                    == name && i == index {
                    a.pairs@[i].1@ == q
                } else {
                    a.pairs@[i].1@ == b.pairs@[i].1@
                }
        }
}

impl ChainTable {
    /// An empty table.
    pub fn new() -> (t: ChainTable)
        ensures
            t.chains@.len() == 0,
    {
        ChainTable { chains: Vec::new() }
    }

    /// Adds a chain, with an empty quote for each of its pairs.
    pub fn register_chain(&mut self, chain: &Chain)
        ensures
            final(self).chains@.len() == old(self).chains@.len() + 1,
            forall|k: int| 0 <= k < old(self).chains@.len() ==> final(self).chains@[k] == old(self).chains@[k],
            registered_entry(final(self).chains@[old(self).chains@.len() as int], *chain),
    {
        let mut pairs: Vec<((Token, Token), PairQuote)> = Vec::new();
        let mut i: usize = 0;
        while i < chain.pairs.len()
            invariant
                i <= chain.pairs@.len(),
                pairs@.len() == i,
                forall|j: int|
                    0 <= j < i ==> (#[trigger] pairs@[j]).0 == chain.pairs@[j] && pairs@[j].1.amount@ == 0
                        && pairs@[j].1.data@.len() == 0 && all_zero(pairs@[j].1.to.bytes@)
                        && pairs@[j].1.gas@ == 0,
            decreases chain.pairs@.len() - i,
        {
            pairs.push((copy_pair(&chain.pairs[i]), PairQuote::empty()));
            i = i + 1;
        }
        self.chains.push(ChainEntry { name: chain.name, id: chain.id, url: chain.url.clone(), pairs });
    }

    /// Records `quote` as the latest quote of pair `index` of every chain named `name` that has
    /// such a pair.
    pub fn record_quote(&mut self, name: ChainName, index: usize, quote: &PairQuote)
        ensures
            quote_recorded(old(self).chains@, final(self).chains@, name, index as int, quote@),
    {
        let ghost before = self.chains@;
        let n = self.chains.len();
        let mut k: usize = 0;
        while k < n
            invariant
                k <= n,
                n == before.len(),
                self.chains@.len() == n,
                forall|j: int| k <= j < n ==> self.chains@[j] == before[j],
                forall|j: int|
                    0 <= j < k ==> {
                        let b = #[trigger] before[j];
                        let a = self.chains@[j];
                        &&& a.name == b.name
                        &&& a.id == b.id
                        &&& a.url == b.url
                        &&& a.pairs@.len() == b.pairs@.len()
                        &&& forall|i: int|
                            0 <= i < b.pairs@.len() ==> (#[trigger] a.pairs@[i]).0 == b.pairs@[i].0
                                && if b.name == name && i == index {
                                a.pairs@[i].1@ == quote@
                            } else {
                                a.pairs@[i].1@ == b.pairs@[i].1@
                            }
                    },
            decreases n - k,
        {
            if self.chains[k].name == name && index < self.chains[k].pairs.len() {
                let mut entry = self.chains.remove(k);
                let ghost old_pairs = entry.pairs@;
                let (pair, _previous) = entry.pairs.remove(index);
                entry.pairs.insert(index, (pair, quote.copy()));
                assert forall|i: int| 0 <= i < old_pairs.len() && i != index implies #[trigger] entry.pairs@[i]
                    == old_pairs[i] by {
                    if i < index {
                    } else {
                    }
                }
                self.chains.insert(k, entry);
            }
            k = k + 1;
        }
    }
}

/// A possible arbitrage between the chain that just got a quote (`a`) and another chain (`b`).
pub struct ArbCandidate {
    pub amount_in_chain_a: Amount,
    pub amount_out_chain_b: Amount,
    pub gas_cost_chain_a: Amount,
    pub gas_cost_chain_b: Amount,
    pub pair: (Token, Token),
    pub chain_a_name: ChainName,
    pub chain_b_name: ChainName,
    pub chain_a_id: u16,
    pub chain_b_id: u16,
    pub chain_a_url: String,
    pub chain_b_url: String,
}

/// The positions, in order, of the chains of `cs` that are not named `name` and have a pair
/// at `index`: the chains to look for arbitrage against.
pub open spec fn arb_sources(cs: Seq<ChainEntry>, name: ChainName, index: int) -> Seq<int>
    decreases cs.len(),
{
    if cs.len() == 0 {
        Seq::empty()
    } else {
        let prev = arb_sources(cs.drop_last(), name, index);
        let k = cs.len() - 1;
        if cs[k].name != name && 0 <= index < cs[k].pairs@.len() {
            prev.push(k)
        } else {
            prev
        }
    }
}

/// The information about the chain that asks for candidates.
pub struct ChainSide {
    pub name: ChainName,
    pub id: u16,
    pub url: String,
}

/// Whether `c` is the candidate that chain `side` (which quoted `quote_a` for `pair`, bought
/// with `amount`) has against chain entry `b` at pair `index`.
pub open spec fn candidate_for(
    c: ArbCandidate,
    side: ChainSide,
    pair: (Token, Token),
    amount: int,
    quote_a: (int, Seq<char>, Seq<u8>, int),
    b: ChainEntry,
    index: int,
) -> bool {
    let quote_b = b.pairs@[index].1@;
    &&& c.amount_in_chain_a@ == amount
    &&& c.amount_out_chain_b@ == same_digits(quote_a.0, quote_b.0).1
    &&& c.gas_cost_chain_a@ == quote_a.3
    &&& c.gas_cost_chain_b@ == quote_b.3
    &&& c.pair == (pair.1, b.pairs@[index].0.0)
    &&& c.chain_a_name == side.name
    &&& c.chain_b_name == b.name
    &&& c.chain_a_id == side.id
    &&& c.chain_b_id == b.id
    &&& c.chain_a_url == side.url
    &&& c.chain_b_url == b.url
}

proof fn lemma_arb_sources_bounds(cs: Seq<ChainEntry>, name: ChainName, index: int)
    ensures
        forall|i: int|
            0 <= i < arb_sources(cs, name, index).len() ==> {
                let k = #[trigger] arb_sources(cs, name, index)[i];
                &&& 0 <= k < cs.len()
                &&& cs[k].name != name
                &&& 0 <= index < cs[k].pairs@.len()
            },
    decreases cs.len(),
{
    if cs.len() > 0 {
        lemma_arb_sources_bounds(cs.drop_last(), name, index);
    }
}

/// Law: a candidate goes from the asking chain to the other chain: chain `a` (its name, id and
/// URL) is the asking side, chain `b` is the other chain's entry, the token bought on `a` is the
/// second token of the asking chain's pair, and the token received on `b` is `b`'s own first
/// token of the pair at that index; with different ids the two chains differ.
pub proof fn lemma_candidate_goes_from_side_to_other(
    c: ArbCandidate,
    side: ChainSide,
    pair: (Token, Token),
    amount: int,
    quote_a: (int, Seq<char>, Seq<u8>, int),
    b: ChainEntry,
    index: int,
)
    requires
        candidate_for(c, side, pair, amount, quote_a, b, index),
    ensures
        c.pair.0 == pair.1,
        c.pair.1 == b.pairs@[index].0.0,
        c.chain_a_id == side.id && c.chain_a_url == side.url && c.chain_a_name == side.name,
        c.chain_b_id == b.id && c.chain_b_url == b.url && c.chain_b_name == b.name,
        b.id != side.id ==> c.chain_a_id != c.chain_b_id,
        c.amount_in_chain_a@ == amount,
        c.gas_cost_chain_a@ == quote_a.3,
        c.gas_cost_chain_b@ == b.pairs@[index].1.gas@,
{
}

impl ChainTable {
    /// The arbitrage candidates of chain `side` for its pair `index` against every other chain
    /// that has a quote for that pair: the amount bought on `side` is compared with the other
    /// chain's quote after `make_same_digits` on the two quoted amounts.
    pub fn arb_candidates(
        &self,
        side: &ChainSide,
        index: usize,
        pair: &(Token, Token),
        amount: &Amount,
        quote_a: &PairQuote,
    ) -> (r: Vec<ArbCandidate>)
        ensures
            r@.len() == arb_sources(self.chains@, side.name, index as int).len(),
            forall|i: int|
                0 <= i < r@.len() ==> candidate_for(
                    #[trigger] r@[i],
                    *side,
                    *pair,
                    amount@,
                    quote_a@,
                    self.chains@[arb_sources(self.chains@, side.name, index as int)[i]],
                    index as int,
                ),
            forall|i: int| 0 <= i < r@.len() ==> (#[trigger] r@[i]).chain_b_name != r@[i].chain_a_name,
            forall|i: int|
                0 <= i < r@.len() ==> {
                    let b = self.chains@[arb_sources(self.chains@, side.name, index as int)[i]];
                    &&& (#[trigger] r@[i]).pair.0 == pair.1
                    &&& r@[i].pair.1 == b.pairs@[index as int].0.0
                    &&& r@[i].chain_a_id == side.id
                    &&& r@[i].chain_a_url == side.url
                    &&& r@[i].chain_a_name == side.name
                    &&& r@[i].chain_b_id == b.id
                    &&& r@[i].chain_b_url == b.url
                    &&& r@[i].chain_b_name == b.name
                    &&& b.name != side.name
                    &&& (b.id != side.id ==> r@[i].chain_a_id != r@[i].chain_b_id)
                },
    {
        let ghost cs = self.chains@;
        let mut r: Vec<ArbCandidate> = Vec::new();
        let mut k: usize = 0;
        while k < self.chains.len()
            invariant
                cs == self.chains@,
                k <= cs.len(),
                r@.len() == arb_sources(cs.take(k as int), side.name, index as int).len(),
                forall|i: int|
                    0 <= i < r@.len() ==> candidate_for(
                        #[trigger] r@[i],
                        *side,
                        *pair,
                        amount@,
                        quote_a@,
                        cs[arb_sources(cs.take(k as int), side.name, index as int)[i]],
                        index as int,
                    ),
            decreases cs.len() - k,
        {
            let ghost prev = arb_sources(cs.take(k as int), side.name, index as int);
            assert(cs.take(k + 1).drop_last() =~= cs.take(k as int));
            proof {
                lemma_arb_sources_bounds(cs.take(k as int), side.name, index as int);
            }
            let entry = &self.chains[k];
            if entry.name != side.name && index < entry.pairs.len() {
                let quote_b = &entry.pairs[index].1;
                let (_, amount_out) = make_same_digits(quote_a.amount.copy(), quote_b.amount.copy());
                let c = ArbCandidate {
                    amount_in_chain_a: amount.copy(),
                    amount_out_chain_b: amount_out,
                    gas_cost_chain_a: quote_a.gas.copy(),
                    gas_cost_chain_b: quote_b.gas.copy(),
                    pair: (pair.1.copy(), entry.pairs[index].0.0.copy()),
                    chain_a_name: side.name,
                    chain_b_name: entry.name,
                    chain_a_id: side.id,
                    chain_b_id: entry.id,
                    chain_a_url: side.url.clone(),
                    chain_b_url: entry.url.clone(),
                };
                let ghost r_before = r@;
                r.push(c);
                assert(arb_sources(cs.take(k + 1), side.name, index as int) == prev.push(k as int));
                assert forall|i: int| 0 <= i < r@.len() implies candidate_for(
                    #[trigger] r@[i],
                    *side,
                    *pair,
                    amount@,
                    quote_a@,
                    cs[arb_sources(cs.take(k + 1), side.name, index as int)[i]],
                    index as int,
                ) by {
                    if i < prev.len() {
                        assert(r@[i] == r_before[i]);
                    }
                }
            } else {
                assert(arb_sources(cs.take(k + 1), side.name, index as int) == prev);
            }
            k = k + 1;
        }
        assert(cs.take(cs.len() as int) =~= cs);
        proof {
            lemma_arb_sources_bounds(cs, side.name, index as int);
        }
        r
    }
}

impl ChainTable {
    /// What a chain does when both Paraswap simulations of its pair `index` came back: when the
    /// buy simulation succeeded, it records the sell quote (if that one succeeded too) for the
    /// other chains to see, and returns its arbitrage candidates against the other chains,
    /// computed from the buy quote; when the buy simulation failed, nothing happens.
    pub fn on_pair_quotes(
        &mut self,
        side: &ChainSide,
        index: usize,
        pair: &(Token, Token),
        amount: &Amount,
        buy: &Result<PairQuote, String>,
        sell: &Result<PairQuote, String>,
    ) -> (r: Vec<ArbCandidate>)
        ensures
            buy is Err ==> final(self).chains@ == old(self).chains@ && r@.len() == 0,
            buy is Ok && sell is Err ==> final(self).chains@ == old(self).chains@,
            buy is Ok && sell is Ok ==> quote_recorded(
                old(self).chains@,
                final(self).chains@,
                side.name,
                index as int,
                sell->Ok_0@,
            ),
            buy is Ok ==> r@.len() == arb_sources(final(self).chains@, side.name, index as int).len(),
            buy is Ok ==> forall|i: int|
                0 <= i < r@.len() ==> candidate_for(
                    #[trigger] r@[i],
                    *side,
                    *pair,
                    amount@,
                    buy->Ok_0@,
                    final(self).chains@[arb_sources(final(self).chains@, side.name, index as int)[i]],
                    index as int,
                ),
            buy is Ok ==> forall|i: int|
                0 <= i < r@.len() ==> {
                    let b = final(self).chains@[arb_sources(final(self).chains@, side.name, index as int)[i]];
                    &&& (#[trigger] r@[i]).pair.0 == pair.1
                    &&& r@[i].pair.1 == b.pairs@[index as int].0.0
                    &&& r@[i].chain_a_id == side.id
                    &&& r@[i].chain_b_id == b.id
                    &&& b.name != side.name
                },
    {
        match buy {
            Ok(quote_a) => {
                if let Ok(quote_sell) = sell {
                    self.record_quote(side.name, index, quote_sell);
                }
                self.arb_candidates(side, index, pair, amount, quote_a)
            },
            Err(_) => Vec::new(),
        }
    }
}

/// Law: a quote that one chain records is what every other chain compares against at that
/// pair: after the record, each chain not named `name_a` finds among its candidates one against
/// each chain named `name_a` that has the pair, with that chain's gas cost taken from the quote.
pub proof fn lemma_recorded_quote_is_seen(
    before: Seq<ChainEntry>,
    after: Seq<ChainEntry>,
    name_a: ChainName,
    index: int,
    q: (int, Seq<char>, Seq<u8>, int),
    name_b: ChainName,
    k: int,
)
    requires
        quote_recorded(before, after, name_a, index, q),
        name_b != name_a,
        0 <= k < before.len(),
        before[k].name == name_a,
        0 <= index < before[k].pairs@.len(),
    ensures
        exists|i: int|
            0 <= i < arb_sources(after, name_b, index).len() && #[trigger] arb_sources(after, name_b, index)[i]
                == k,
        after[k].pairs@[index].1@ == q,
{
    lemma_arb_sources_contains(after, name_b, index, k);
}

proof fn lemma_arb_sources_contains(cs: Seq<ChainEntry>, name: ChainName, index: int, k: int)
    requires
        0 <= k < cs.len(),
        cs[k].name != name,
        0 <= index < cs[k].pairs@.len(),
    ensures
        exists|i: int| 0 <= i < arb_sources(cs, name, index).len() && #[trigger] arb_sources(cs, name, index)[i] == k,
    decreases cs.len(),
{
    let last = cs.len() - 1;
    if k == last {
        let i = arb_sources(cs.drop_last(), name, index).len() as int;
        assert(arb_sources(cs, name, index)[i] == k);
    } else {
        lemma_arb_sources_contains(cs.drop_last(), name, index, k);
        let i = choose|i: int|
            0 <= i < arb_sources(cs.drop_last(), name, index).len() && #[trigger] arb_sources(
                cs.drop_last(),
                name,
                index,
            )[i] == k;
        assert(arb_sources(cs, name, index)[i] == k);
    }
}

} // verus!
