use vstd::prelude::*;

use crate::address::Address;

verus! {

/// The name of a blockchain.
#[derive(Clone, Copy, PartialEq, Eq, Structural, Debug)]
pub enum ChainName {
    /// Binance Smart Chain.
    BSC,
    /// Polygon blockchain.
    Polygon,
}

/// A token.
pub struct Token {
    /// The name of the token.
    pub name: String,
    /// The address of the token.
    pub address: Address,
    /// The number of decimals for the token.
    pub decimals: u32,
    /// The amount of the token used for arbitrage.
    pub amount_to_arb: u128,
}

impl Token {
    /// A copy of the token.
    pub fn copy(&self) -> (r: Token)
        ensures
            r == *self,
    {
        Token {
            name: self.name.clone(),
            address: self.address,
            decimals: self.decimals,
            amount_to_arb: self.amount_to_arb,
        }
    }
}

/// A copy of a pair of tokens.
pub fn copy_pair(p: &(Token, Token)) -> (r: (Token, Token))
    ensures
        r == *p,
{
    (p.0.copy(), p.1.copy())
}

/// A blockchain.
pub struct Chain {
    /// The unique identifier of the blockchain.
    pub id: u16,
    /// The name of the blockchain.
    pub name: ChainName,
    /// The URL of the blockchain.
    pub url: String,
    /// The list of tokens on the blockchain.
    pub tokens: Vec<Token>,
    /// The list of pairs on the blockchain.
    pub pairs: Vec<(Token, Token)>,
}

impl Chain {
    /// Adds the pair (second token, first token) (in the chains file: the quote token, then the
    /// base token) to the chain's pairs.
    pub fn add_default_pair(&mut self)
        requires
            old(self).tokens@.len() >= 2,
        ensures
            final(self).pairs@ == old(self).pairs@.push((old(self).tokens@[1], old(self).tokens@[0])),
            final(self).tokens@ == old(self).tokens@,
            final(self).id == old(self).id,
            final(self).name == old(self).name,
            final(self).url == old(self).url,
    {
        let token_base = self.tokens[0].copy();
        let token_quote = self.tokens[1].copy();
        self.pairs.push((token_quote, token_base));
    }
}

/// Represents the result of a Squid Router transaction.
pub struct SquidRouterResult {
    /// The target address for the transaction.
    pub target_address: Address,
    /// The transaction data.
    pub data: String,
    /// The value to be sent with the transaction.
    pub value: String,
    /// The gas limit for the transaction.
    pub gas_limit: String,
    /// The maximum fee per gas for the transaction.
    pub max_fee_per_gas: String,
    /// The maximum priority fee for the transaction.
    pub max_priority_fee: String,
}

/// Whether every byte of `b` is zero.
pub open spec fn all_zero(b: Seq<u8>) -> bool {
    forall|i: int| 0 <= i < b.len() ==> b[i] == 0
}

/// Whether `r` equals `SquidRouterResult::default()`: the zero address and empty strings.
pub open spec fn is_default_result(r: SquidRouterResult) -> bool {
    &&& all_zero(r.target_address.bytes@)
    &&& r.data@ == Seq::<char>::empty()
    &&& r.value@ == Seq::<char>::empty()
    &&& r.gas_limit@ == Seq::<char>::empty()
    &&& r.max_fee_per_gas@ == Seq::<char>::empty()
    &&& r.max_priority_fee@ == Seq::<char>::empty()
}

impl SquidRouterResult {
    /// `SquidRouterResult::default()`.
    pub fn new_default() -> (r: SquidRouterResult)
        ensures
            is_default_result(r),
    {
        SquidRouterResult {
            target_address: Address::zero(),
            data: String::new(),
            value: String::new(),
            gas_limit: String::new(),
            max_fee_per_gas: String::new(),
            max_priority_fee: String::new(),
        }
    }

    /// Whether the result equals `SquidRouterResult::default()`.
    pub fn is_default(&self) -> (b: bool)
        ensures
            b == is_default_result(*self),
    {
        let mut i: usize = 0;
        while i < 20
            invariant
                i <= 20,
                self.target_address.bytes@.len() == 20,
                forall|j: int| 0 <= j < i ==> self.target_address.bytes@[j] == 0,
            decreases 20 - i,
        {
            if self.target_address.bytes[i] != 0 {
                return false;
            }
            i = i + 1;
        }
        let b = self.data.as_str().is_empty() && self.value.as_str().is_empty()
            && self.gas_limit.as_str().is_empty() && self.max_fee_per_gas.as_str().is_empty()
            && self.max_priority_fee.as_str().is_empty();
        proof {
            if b {
                assert(self.data@ =~= Seq::<char>::empty());
                assert(self.value@ =~= Seq::<char>::empty());
                assert(self.gas_limit@ =~= Seq::<char>::empty());
                assert(self.max_fee_per_gas@ =~= Seq::<char>::empty());
                assert(self.max_priority_fee@ =~= Seq::<char>::empty());
            }
        }
        b
    }

    /// A copy of the result.
    pub fn copy(&self) -> (r: SquidRouterResult)
        ensures
            r == *self,
    {
        SquidRouterResult {
            target_address: self.target_address,
            data: self.data.clone(),
            value: self.value.clone(),
            gas_limit: self.gas_limit.clone(),
            max_fee_per_gas: self.max_fee_per_gas.clone(),
            max_priority_fee: self.max_priority_fee.clone(),
        }
    }
}

} // verus!
