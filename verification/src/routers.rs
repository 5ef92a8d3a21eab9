use vstd::prelude::*;

use crate::address::{address_parse_error, address_text_valid, hex_bytes, hex_lower, strip_0x, without_hex_space, Address};
use crate::amount::{bigint_parse_error, bigint_text_valid, bigint_text_value, int_text, Amount};
use crate::decimal::{decimal, decimal_u128};
use crate::chains::PairQuote;
use crate::json::{json_error, lemma_lookup_read, lemma_same_reading_text, lookup, lookup_in, node_read, read_json, JSON_DEPTH, trim_quotes, trim_quotes_str, trimmed_text, JsonNode};
use crate::structs::{all_zero, Chain, SquidRouterResult, Token};
use crate::text::{append_chars, append_str};

verus! {

/// The parameters of one Squid Router simulation: swap `amount` of `token_in` on chain
/// `from_chain` into `token_out` on chain `to_chain`.
pub struct SquidQuery {
    pub from_chain: u16,
    pub to_chain: u16,
    pub token_in: Address,
    pub token_out: Address,
    pub amount: Amount,
    pub from_address: Address,
    pub to_address: Address,
    /// The acceptable slippage percentage (from 0 to 99).
    pub slippage: u8,
}

/// The URL of the Squid Router route request for `q`. (The sender's address goes without
/// `0x`, unlike the other addresses.)
pub open spec fn squid_route_url(q: SquidQuery) -> Seq<char> {
    "https://api.0xsquid.com/v1/route?fromChain="@ + decimal(q.from_chain as nat) + "&toChain="@
        + decimal(q.to_chain as nat) + "&fromToken=0x"@ + hex_lower(q.token_in.bytes@) + "&toToken=0x"@
        + hex_lower(q.token_out.bytes@) + "&fromAmount="@ + int_text(q.amount@) + "&fromAddress="@
        + hex_lower(q.from_address.bytes@) + "&toAddress=0x"@ + hex_lower(q.to_address.bytes@)
        + "&slippage="@ + decimal(q.slippage as nat)
        + "&quoteOnly=false&enableExpress=true&receiveGasOnDestination=false"@
}

/// Builds the URL of the Squid Router route request for `q`.
pub fn squid_route_request(q: &SquidQuery) -> (url: String)
    ensures
        url@ == squid_route_url(*q),
{
    let mut s = String::new();
    append_str(&mut s, "https://api.0xsquid.com/v1/route?fromChain=");
    append_chars(&mut s, &decimal_u128(q.from_chain as u128));
    append_str(&mut s, "&toChain=");
    append_chars(&mut s, &decimal_u128(q.to_chain as u128));
    append_str(&mut s, "&fromToken=0x");
    append_str(&mut s, q.token_in.to_hex().as_str());
    append_str(&mut s, "&toToken=0x");
    append_str(&mut s, q.token_out.to_hex().as_str());
    append_str(&mut s, "&fromAmount=");
    append_str(&mut s, q.amount.to_text().as_str());
    append_str(&mut s, "&fromAddress=");
    append_str(&mut s, q.from_address.to_hex().as_str());
    append_str(&mut s, "&toAddress=0x");
    append_str(&mut s, q.to_address.to_hex().as_str());
    append_str(&mut s, "&slippage=");
    append_chars(&mut s, &decimal_u128(q.slippage as u128));
    append_str(&mut s, "&quoteOnly=false&enableExpress=true&receiveGasOnDestination=false");
    s
}

/// The trimmed text of `route.estimate.toAmountMin` in a Squid Router answer.
pub open spec fn squid_amount_text(json: JsonNode) -> Option<Seq<char>> {
    trimmed_text(lookup_in(lookup_in(lookup(json, "route"@), "estimate"@), "toAmountMin"@))
}

/// The trimmed text of `route.transactionRequest.<key>` in a Squid Router answer.
pub open spec fn squid_tx_field(json: JsonNode, key: Seq<char>) -> Option<Seq<char>> {
    trimmed_text(lookup_in(lookup_in(lookup(json, "route"@), "transactionRequest"@), key))
}

/// The text of an optional field, or nothing.
pub open spec fn text_or_empty(t: Option<Seq<char>>) -> Seq<char> {
    match t {
        Some(x) => x,
        None => Seq::empty(),
    }
}

/// Whether `r` is what `simulate_squid_router` makes of the answer `json`: the amount out and
/// the transaction to send, each field left at its default where the answer lacks it, or the
/// message of the first amount or address that does not parse.
pub open spec fn squid_outcome(json: JsonNode, r: Result<(Amount, SquidRouterResult), String>) -> bool {
    let amount = squid_amount_text(json);
    let target = squid_tx_field(json, "targetAddress"@);
    if amount is Some && !bigint_text_valid(amount->0) {
        r matches Err(m) && m@ == bigint_parse_error(amount->0)
    } else if target is Some && !address_text_valid(target->0) {
        r matches Err(m) && m@ == address_parse_error(target->0)
    } else {
        r matches Ok(p) && {
            let (a, res) = p;
            &&& a@ == (if amount is Some {
                bigint_text_value(amount->0)
            } else {
                0
            })
            &&& if target is Some {
                res.target_address.bytes@ == hex_bytes(without_hex_space(strip_0x(target->0)))
            } else {
                all_zero(res.target_address.bytes@)
            }
            &&& res.data@ == text_or_empty(squid_tx_field(json, "data"@))
            &&& res.value@ == text_or_empty(squid_tx_field(json, "value"@))
            &&& res.gas_limit@ == text_or_empty(squid_tx_field(json, "gasLimit"@))
            &&& res.max_fee_per_gas@ == text_or_empty(squid_tx_field(json, "maxFeePerGas"@))
            &&& res.max_priority_fee@ == text_or_empty(squid_tx_field(json, "maxPriorityFeePerGas"@))
        }
    }
}

fn field_or_empty(n: Option<&JsonNode>) -> (s: String)
    ensures
        s@ == text_or_empty(trimmed_text(
            match n {
                Some(m) => Some(*m),
                None => None,
            },
        )),
{
    match n {
        Some(m) => trim_quotes_str(m.text.as_str()),
        None => String::new(),
    }
}

/// Reads a Squid Router route answer: the minimum amount received and the transaction to send.
pub fn read_squid_answer(json: &JsonNode) -> (r: Result<(Amount, SquidRouterResult), String>)
    ensures
        squid_outcome(*json, r),
{
    let mut amount_out = Amount::zero();
    let mut result = SquidRouterResult::new_default();
    if let Some(route) = json.get("route") {
        if let Some(estimate) = route.get("estimate") {
            if let Some(min) = estimate.get("toAmountMin") {
                let text = trim_quotes_str(min.text.as_str());
                match Amount::parse(text.as_str()) {
                    Ok(a) => {
                        amount_out = a;
                    },
                    Err(m) => {
                        return Err(m);
                    },
                }
            }
        }
        if let Some(tx) = route.get("transactionRequest") {
            if let Some(target) = tx.get("targetAddress") {
                let text = trim_quotes_str(target.text.as_str());
                match Address::parse(text.as_str()) {
                    Ok(a) => {
                        result.target_address = a;
                    },
                    Err(m) => {
                        return Err(m);
                    },
                }
            }
            result.data = field_or_empty(tx.get("data"));
            result.value = field_or_empty(tx.get("value"));
            result.gas_limit = field_or_empty(tx.get("gasLimit"));
            result.max_fee_per_gas = field_or_empty(tx.get("maxFeePerGas"));
            result.max_priority_fee = field_or_empty(tx.get("maxPriorityFeePerGas"));
        }
    }
    Ok((amount_out, result))
}

/// Law: two Squid Router answers whose fields read as the same texts give the same result, so
/// a field written as a JSON string (`"990"`) and as a bare value (`990`) read alike.
pub proof fn lemma_squid_reads_field_texts(a: JsonNode, b: JsonNode, r: Result<(Amount, SquidRouterResult), String>)
    requires
        squid_amount_text(a) == squid_amount_text(b),
        forall|k: Seq<char>| squid_tx_field(a, k) == squid_tx_field(b, k),
    ensures
        squid_outcome(a, r) == squid_outcome(b, r),
{
    assert(squid_tx_field(a, "targetAddress"@) == squid_tx_field(b, "targetAddress"@));
    assert(squid_tx_field(a, "data"@) == squid_tx_field(b, "data"@));
    assert(squid_tx_field(a, "value"@) == squid_tx_field(b, "value"@));
    assert(squid_tx_field(a, "gasLimit"@) == squid_tx_field(b, "gasLimit"@));
    assert(squid_tx_field(a, "maxFeePerGas"@) == squid_tx_field(b, "maxFeePerGas"@));
    assert(squid_tx_field(a, "maxPriorityFeePerGas"@) == squid_tx_field(b, "maxPriorityFeePerGas"@));
}

/// Law: a Squid Router answer whose minimum amount is written as a JSON string (`"990"`) gives
/// the same result as one where it is the bare number (`990`), the other fields being alike.
pub proof fn lemma_quoted_amount_reads_as_bare(
    a: JsonNode,
    b: JsonNode,
    t: Seq<char>,
    r: Result<(Amount, SquidRouterResult), String>,
)
    requires
        t.len() == 0 || (t[0] != '"' && t.last() != '"'),
        lookup_in(lookup_in(lookup(a, "route"@), "estimate"@), "toAmountMin"@) matches Some(n) && n.text@
            == seq!['"'] + t + seq!['"'],
        lookup_in(lookup_in(lookup(b, "route"@), "estimate"@), "toAmountMin"@) matches Some(m) && m.text@ == t,
        forall|k: Seq<char>| squid_tx_field(a, k) == squid_tx_field(b, k),
    ensures
        squid_outcome(a, r) == squid_outcome(b, r),
{
    crate::json::lemma_quoted_reads_as_bare(t);
    lemma_squid_reads_field_texts(a, b, r);
}

/// Law: every reading of one Squid Router answer gives the same result.
pub proof fn lemma_squid_reading_determined(
    body: Seq<char>,
    a: JsonNode,
    b: JsonNode,
    r: Result<(Amount, SquidRouterResult), String>,
)
    requires
        node_read(body, JSON_DEPTH as nat, a),
        node_read(body, JSON_DEPTH as nat, b),
    ensures
        squid_outcome(a, r) == squid_outcome(b, r),
{
    let d = JSON_DEPTH as nat;
    let c1 = lemma_lookup_read(Some(a), Some(b), body, d, "route"@);
    let ra = lookup(a, "route"@);
    let rb = lookup(b, "route"@);
    let c2 = lemma_lookup_read(ra, rb, c1, (d - 1) as nat, "estimate"@);
    let ea = lookup_in(ra, "estimate"@);
    let eb = lookup_in(rb, "estimate"@);
    let c3 = lemma_lookup_read(ea, eb, c2, (d - 2) as nat, "toAmountMin"@);
    lemma_same_reading_text(lookup_in(ea, "toAmountMin"@), lookup_in(eb, "toAmountMin"@), c3, (d - 3) as nat);
    let t1 = lemma_lookup_read(ra, rb, c1, (d - 1) as nat, "transactionRequest"@);
    let ta = lookup_in(ra, "transactionRequest"@);
    let tb = lookup_in(rb, "transactionRequest"@);
    assert forall|k: Seq<char>| squid_tx_field(a, k) == squid_tx_field(b, k) by {
        let t2 = lemma_lookup_read(ta, tb, t1, (d - 2) as nat, k);
        lemma_same_reading_text(lookup_in(ta, k), lookup_in(tb, k), t2, (d - 3) as nat);
    }
    lemma_squid_reads_field_texts(a, b, r);
}

/// Law: what a Squid Router simulation makes of a JSON body is what `read_squid_answer` makes
/// of any reading of that body.
pub proof fn lemma_squid_body_outcome_any_reading(
    body: Seq<char>,
    n: JsonNode,
    r: Result<(Amount, SquidRouterResult), String>,
)
    requires
        json_error(body, JSON_DEPTH as nat) is None,
        squid_body_outcome(body, r),
        node_read(body, JSON_DEPTH as nat, n),
    ensures
        squid_outcome(n, r),
{
    let w = choose|w: JsonNode| #[trigger] node_read(body, JSON_DEPTH as nat, w) && squid_outcome(w, r);
    lemma_squid_reading_determined(body, w, n, r);
}

/// What a router simulation is handed: `Start` first, then the answer to the request it asked
/// for (the body, or the message of the error that kept it from coming).
pub enum RouterEvent {
    Start,
    Answer(Result<String, String>),
}

/// What a Squid Router simulation asks for next.
pub enum SquidAction {
    /// GET this URL and hand the answer back.
    Get(String),
    /// The simulation is over with this result.
    Done(Result<(Amount, SquidRouterResult), String>),
}

/// Whether `r` is what a Squid Router simulation makes of the answer `body`: the message of the
/// JSON error when it is not JSON, what `read_squid_answer` reads from it otherwise.
pub open spec fn squid_body_outcome(body: Seq<char>, r: Result<(Amount, SquidRouterResult), String>) -> bool {
    match json_error(body, JSON_DEPTH as nat) {
        Some(m) => r matches Err(e) && e@ == m,
        None => exists|json: JsonNode| #[trigger] node_read(body, JSON_DEPTH as nat, json) && squid_outcome(json, r),
    }
}

/// Simulates the Squid Router route `q` without executing it: asks for the route with one GET,
/// then reads the answer (the minimum amount received and the transaction to send). An error
/// of the request, a body that is not JSON, or an amount or address that does not parse ends it
/// with that error's message.
pub fn simulate_squid_router(q: &SquidQuery, event: &RouterEvent) -> (a: SquidAction)
    ensures
        match event {
            RouterEvent::Start => a matches SquidAction::Get(url) && url@ == squid_route_url(*q),
            RouterEvent::Answer(Err(m)) => a matches SquidAction::Done(Err(e)) && e == m,
            RouterEvent::Answer(Ok(body)) => a matches SquidAction::Done(r) && squid_body_outcome(body@, r),
        },
{
    match event {
        RouterEvent::Start => SquidAction::Get(squid_route_request(q)),
        RouterEvent::Answer(Err(m)) => SquidAction::Done(Err(m.clone())),
        RouterEvent::Answer(Ok(body)) => match read_json(body.as_str()) {
            Err(m) => SquidAction::Done(Err(m)),
            Ok(json) => SquidAction::Done(read_squid_answer(&json)),
        },
    }
}

/// The Squid Router simulation that brings the tokens back: from `first`'s destination chain
/// to its source chain, swapping what the first simulation said would be received. The first
/// simulation must have succeeded (the bot panics otherwise).
pub fn call_squid_router(
    first: &SquidQuery,
    first_result: &Result<(Amount, SquidRouterResult), String>,
) -> (q: SquidQuery)
    requires
        first_result is Ok,
    ensures
        q.from_chain == first.to_chain,
        q.to_chain == first.from_chain,
        q.token_in == first.token_out,
        q.token_out == first.token_in,
        q.amount@ == first_result->Ok_0.0@,
        q.from_address == first.to_address,
        q.to_address == first.from_address,
        q.slippage == first.slippage,
{
    let amount = match first_result {
        Ok(p) => p.0.copy(),
        Err(_) => {
            proof {
                assert(false);
            }
            Amount::zero()
        },
    };
    SquidQuery {
        from_chain: first.to_chain,
        to_chain: first.from_chain,
        token_in: first.token_out,
        token_out: first.token_in,
        amount,
        from_address: first.to_address,
        to_address: first.from_address,
        slippage: first.slippage,
    }
}

/// The parameters of one Paraswap simulation.
pub struct ParaswapQuery {
    /// `"BUY"` (a fixed amount out) or `"SELL"` (a fixed amount in), in either case.
    pub side: String,
    pub chain_id: u16,
    pub amount_in: Amount,
    pub token_in: Address,
    pub token_out: Address,
    pub token0_decimals: u32,
    pub token1_decimals: u32,
    pub wallet_address: Address,
    pub receiver_address: Address,
}

/// The URL of the Paraswap price request for `q`.
pub open spec fn paraswap_price_url(q: ParaswapQuery) -> Seq<char> {
    "https://apiv5.paraswap.io/prices?srcToken=0x"@ + hex_lower(q.token_in.bytes@) + "&srcDecimals="@
        + decimal(q.token0_decimals as nat) + "&destToken=0x"@ + hex_lower(q.token_out.bytes@)
        + "&destDecimals="@ + decimal(q.token1_decimals as nat) + "&amount="@ + int_text(q.amount_in@)
        + "&side="@ + q.side@ + "&network="@ + decimal(q.chain_id as nat) + "&maxImpact=10"@
}

/// The URL of the Paraswap transaction request on chain `chain_id`.
pub open spec fn paraswap_tx_url(chain_id: u16) -> Seq<char> {
    "https://apiv5.paraswap.io/transactions/"@ + decimal(chain_id as nat)
        + "?gasPrice=50000000000&ignoreChecks=true&ignoreGasEstimate=true&onlyParams=false"@
}

/// The JSON body of the Paraswap transaction request for `q`: an object whose keys come in
/// order, the token and wallet addresses and the amounts as strings, the decimals as numbers,
/// the partner `paraswap.io`, and the price route as its compact text `price_route`.
pub open spec fn paraswap_tx_body(q: ParaswapQuery, price_route: Seq<char>, src_amount: int, dest_amount: int) -> Seq<char> {
    "{\"destAmount\":\""@ + int_text(dest_amount) + "\",\"destDecimals\":"@ + decimal(q.token1_decimals as nat)
        + ",\"destToken\":\"0x"@ + hex_lower(q.token_out.bytes@)
        + "\",\"partner\":\"paraswap.io\",\"priceRoute\":"@ + price_route + ",\"srcAmount\":\""@
        + int_text(src_amount) + "\",\"srcDecimals\":"@ + decimal(q.token0_decimals as nat)
        + ",\"srcToken\":\"0x"@ + hex_lower(q.token_in.bytes@) + "\",\"txOrigin\":\"0x"@
        + hex_lower(q.receiver_address.bytes@) + "\",\"userAddress\":\"0x"@
        + hex_lower(q.wallet_address.bytes@) + "\"}"@
}

/// Builds the URL of the Paraswap price request for `q`.
pub fn paraswap_price_request(q: &ParaswapQuery) -> (url: String)
    ensures
        url@ == paraswap_price_url(*q),
{
    let mut s = String::new();
    append_str(&mut s, "https://apiv5.paraswap.io/prices?srcToken=0x");
    append_str(&mut s, q.token_in.to_hex().as_str());
    append_str(&mut s, "&srcDecimals=");
    append_chars(&mut s, &decimal_u128(q.token0_decimals as u128));
    append_str(&mut s, "&destToken=0x");
    append_str(&mut s, q.token_out.to_hex().as_str());
    append_str(&mut s, "&destDecimals=");
    append_chars(&mut s, &decimal_u128(q.token1_decimals as u128));
    append_str(&mut s, "&amount=");
    append_str(&mut s, q.amount_in.to_text().as_str());
    append_str(&mut s, "&side=");
    append_str(&mut s, q.side.as_str());
    append_str(&mut s, "&network=");
    append_chars(&mut s, &decimal_u128(q.chain_id as u128));
    append_str(&mut s, "&maxImpact=10");
    s
}

fn paraswap_tx_request_url(chain_id: u16) -> (url: String)
    ensures
        url@ == paraswap_tx_url(chain_id),
{
    let mut s = String::new();
    append_str(&mut s, "https://apiv5.paraswap.io/transactions/");
    append_chars(&mut s, &decimal_u128(chain_id as u128));
    append_str(&mut s, "?gasPrice=50000000000&ignoreChecks=true&ignoreGasEstimate=true&onlyParams=false");
    s
}

fn paraswap_tx_request_body(q: &ParaswapQuery, price_route: &str, src_amount: &Amount, dest_amount: &Amount) -> (body: String)
    ensures
        body@ == paraswap_tx_body(*q, price_route@, src_amount@, dest_amount@),
{
    let mut s = String::new();
    append_str(&mut s, "{\"destAmount\":\"");
    append_str(&mut s, dest_amount.to_text().as_str());
    append_str(&mut s, "\",\"destDecimals\":");
    append_chars(&mut s, &decimal_u128(q.token1_decimals as u128));
    append_str(&mut s, ",\"destToken\":\"0x");
    append_str(&mut s, q.token_out.to_hex().as_str());
    append_str(&mut s, "\",\"partner\":\"paraswap.io\",\"priceRoute\":");
    append_str(&mut s, price_route);
    append_str(&mut s, ",\"srcAmount\":\"");
    append_str(&mut s, src_amount.to_text().as_str());
    append_str(&mut s, "\",\"srcDecimals\":");
    append_chars(&mut s, &decimal_u128(q.token0_decimals as u128));
    append_str(&mut s, ",\"srcToken\":\"0x");
    append_str(&mut s, q.token_in.to_hex().as_str());
    append_str(&mut s, "\",\"txOrigin\":\"0x");
    append_str(&mut s, q.receiver_address.to_hex().as_str());
    append_str(&mut s, "\",\"userAddress\":\"0x");
    append_str(&mut s, q.wallet_address.to_hex().as_str());
    append_str(&mut s, "\"}");
    s
}

/// Whether `side` is `sell` in any case (`eq_ignore_ascii_case("sell")`).
pub open spec fn is_sell(side: Seq<char>) -> bool {
    &&& side.len() == 4
    &&& (side[0] == 's' || side[0] == 'S')
    &&& (side[1] == 'e' || side[1] == 'E')
    &&& (side[2] == 'l' || side[2] == 'L')
    &&& (side[3] == 'l' || side[3] == 'L')
}

/// Whether the side of a Paraswap query sells (in any case).
pub fn side_is_sell(side: &str) -> (r: bool)
    ensures
        r == is_sell(side@),
{
    let v = crate::text::chars_of(side);
    v.len() == 4 && (v[0] == 's' || v[0] == 'S') && (v[1] == 'e' || v[1] == 'E') && (v[2] == 'l'
        || v[2] == 'L') && (v[3] == 'l' || v[3] == 'L')
}

/// What a Paraswap simulation does next.
pub enum ParaswapAction {
    /// GET this URL (the price) and hand the answer back.
    Get(String),
    /// POST `body` (JSON) to `url` (the transaction) and hand the answer back with `amount`,
    /// the quoted amount.
    Post { url: String, body: String, amount: Amount },
    /// The price answer has no price route: the simulation ends with this quote.
    NoPrice(PairQuote),
    /// The transaction answer has no contract: the simulation ends with this quote.
    NoCalldata(PairQuote),
    /// The simulation ends with this quote.
    Found(PairQuote),
    /// The simulation fails with this message.
    Failed(String),
}

/// The quote that a Paraswap simulation ends with when it finds no price or no call data.
pub open spec fn no_quote(amount: int, q: PairQuote) -> bool {
    &&& q.amount@ == amount
    &&& q.data@ == "None"@
    &&& all_zero(q.to.bytes@)
    &&& q.gas@ == 0
}

/// Whether `a` is what a Paraswap simulation for `q` makes of the price answer `price`.
pub open spec fn paraswap_price_outcome(q: ParaswapQuery, price: JsonNode, a: ParaswapAction) -> bool {
    let sell = is_sell(q.side@);
    let mode = if sell { "destAmount"@ } else { "srcAmount"@ };
    match lookup(price, "priceRoute"@) {
        None => a matches ParaswapAction::NoPrice(fq) && no_quote(0, fq),
        Some(route) => match lookup(route, mode) {
            None => a matches ParaswapAction::Failed(m) && m@ == "Failed to get destination amount"@,
            Some(found) => {
                let t = trim_quotes(found.text@);
                if !bigint_text_valid(t) {
                    a matches ParaswapAction::Failed(m) && m@ == bigint_parse_error(t)
                } else {
                    a matches ParaswapAction::Post { url, body, amount } && amount@ == bigint_text_value(t)
                        && url@ == paraswap_tx_url(q.chain_id) && body@ == paraswap_tx_body(
                        q,
                        route.text@,
                        if sell { q.amount_in@ } else { 1 },
                        if sell { 1 } else { q.amount_in@ },
                    )
                }
            },
        },
    }
}

/// Reads the Paraswap price answer for `q`: the quoted amount (the amount received when
/// selling, the amount paid when buying) and the transaction request to make next.
pub fn read_paraswap_price(q: &ParaswapQuery, price: &JsonNode) -> (a: ParaswapAction)
    ensures
        paraswap_price_outcome(*q, *price, a),
{
    match price.get("priceRoute") {
        Some(route) => {
            let sell = side_is_sell(q.side.as_str());
            let (src_amount, dest_amount, mode) = if sell {
                (q.amount_in.copy(), Amount::from_u128(1), "destAmount")
            } else {
                (Amount::from_u128(1), q.amount_in.copy(), "srcAmount")
            };
            let found = match route.get(mode) {
                Some(f) => f,
                None => {
                    return ParaswapAction::Failed(
                        crate::text::string_of(&crate::text::chars_of("Failed to get destination amount")),
                    );
                },
            };
            let text = trim_quotes_str(found.text.as_str());
            match Amount::parse(text.as_str()) {
                Ok(amount) => {
                    let url = paraswap_tx_request_url(q.chain_id);
                    let body = paraswap_tx_request_body(q, route.text.as_str(), &src_amount, &dest_amount);
                    ParaswapAction::Post { url, body, amount }
                },
                Err(m) => ParaswapAction::Failed(m),
            }
        },
        None => ParaswapAction::NoPrice(no_quote_with(Amount::zero())),
    }
}

fn no_quote_with(amount: Amount) -> (q: PairQuote)
    ensures
        no_quote(amount@, q),
{
    let data = crate::text::string_of(&crate::text::chars_of("None"));
    PairQuote { amount, data, to: Address::zero(), gas: Amount::zero() }
}

/// Whether `a` is what a Paraswap simulation makes of the transaction answer `tx` for the
/// quoted `amount`: the call data and contract to call, or the message of what is missing or
/// does not parse.
pub open spec fn paraswap_tx_outcome(amount: int, tx: JsonNode, a: ParaswapAction) -> bool {
    match lookup(tx, "to"@) {
        None => a matches ParaswapAction::NoCalldata(p) && no_quote(amount, p),
        Some(to) => match to.str_value {
            None => a matches ParaswapAction::Failed(m) && m@ == "Failed to get address"@,
            Some(addr) => if !address_text_valid(addr@) {
                a matches ParaswapAction::Failed(m) && m@ == address_parse_error(addr@)
            } else {
                match lookup(tx, "data"@) {
                    None => a matches ParaswapAction::Failed(m) && m@ == "Failed to get data"@,
                    Some(data) => a matches ParaswapAction::Found(p) && p.amount@ == amount && p.data@
                        == trim_quotes(data.text@) && p.to.bytes@ == hex_bytes(
                        without_hex_space(strip_0x(addr@)),
                    ) && p.gas@ == 0,
                }
            },
        },
    }
}

/// Reads the Paraswap transaction answer: the contract to call and the call data.
pub fn paraswap_transaction(amount: Amount, tx: &JsonNode) -> (a: ParaswapAction)
    ensures
        paraswap_tx_outcome(amount@, *tx, a),
{
    match tx.get("to") {
        Some(to) => {
            let addr = match &to.str_value {
                Some(a) => a,
                None => {
                    return ParaswapAction::Failed(crate::text::string_of(&crate::text::chars_of("Failed to get address")));
                },
            };
            let address = match Address::parse(addr.as_str()) {
                Ok(a) => a,
                Err(m) => {
                    return ParaswapAction::Failed(m);
                },
            };
            let data = match tx.get("data") {
                Some(d) => d,
                None => {
                    return ParaswapAction::Failed(crate::text::string_of(&crate::text::chars_of("Failed to get data")));
                },
            };
            let text = trim_quotes_str(data.text.as_str());
            ParaswapAction::Found(PairQuote { amount, data: text, to: address, gas: Amount::zero() })
        },
        None => ParaswapAction::NoCalldata(no_quote_with(amount)),
    }
}

/// What a Paraswap simulation is handed.
pub enum ParaswapEvent {
    /// The simulation starts.
    Start,
    /// The answer to the price request (the body, or the message of the error that kept it
    /// from coming).
    Price(Result<String, String>),
    /// The answer to the transaction request asked for the quoted amount.
    Transaction(Amount, Result<String, String>),
}

/// Whether `a` is what a Paraswap simulation for `q` does on `event`.
pub open spec fn paraswap_step(q: ParaswapQuery, event: ParaswapEvent, a: ParaswapAction) -> bool {
    match event {
        ParaswapEvent::Start => a matches ParaswapAction::Get(url) && url@ == paraswap_price_url(q),
        ParaswapEvent::Price(Err(m)) => a matches ParaswapAction::Failed(e) && e == m,
        ParaswapEvent::Price(Ok(body)) => match json_error(body@, JSON_DEPTH as nat) {
            Some(m) => a matches ParaswapAction::Failed(e) && e@ == m,
            None => exists|json: JsonNode|
                #[trigger] node_read(body@, JSON_DEPTH as nat, json) && paraswap_price_outcome(q, json, a),
        },
        ParaswapEvent::Transaction(_, Err(m)) => a matches ParaswapAction::Failed(e) && e == m,
        ParaswapEvent::Transaction(amount, Ok(body)) => match json_error(body@, JSON_DEPTH as nat) {
            Some(m) => a matches ParaswapAction::Failed(e) && e@ == m,
            None => exists|json: JsonNode|
                #[trigger] node_read(body@, JSON_DEPTH as nat, json) && paraswap_tx_outcome(amount@, json, a),
        },
    }
}

/// Law: every reading of one Paraswap answer gives the same outcome, for the price answer and
/// for the transaction answer alike.
pub proof fn lemma_paraswap_reading_determined(
    body: Seq<char>,
    x: JsonNode,
    y: JsonNode,
    q: ParaswapQuery,
    amount: int,
    a: ParaswapAction,
)
    requires
        node_read(body, JSON_DEPTH as nat, x),
        node_read(body, JSON_DEPTH as nat, y),
    ensures
        paraswap_price_outcome(q, x, a) == paraswap_price_outcome(q, y, a),
        paraswap_tx_outcome(amount, x, a) == paraswap_tx_outcome(amount, y, a),
{
    let d = JSON_DEPTH as nat;
    let rx = lookup(x, "priceRoute"@);
    let ry = lookup(y, "priceRoute"@);
    let c1 = lemma_lookup_read(Some(x), Some(y), body, d, "priceRoute"@);
    lemma_same_reading_text(rx, ry, c1, (d - 1) as nat);
    let mode = if is_sell(q.side@) { "destAmount"@ } else { "srcAmount"@ };
    let c2 = lemma_lookup_read(rx, ry, c1, (d - 1) as nat, mode);
    lemma_same_reading_text(lookup_in(rx, mode), lookup_in(ry, mode), c2, (d - 2) as nat);
    let c3 = lemma_lookup_read(Some(x), Some(y), body, d, "to"@);
    lemma_same_reading_text(lookup(x, "to"@), lookup(y, "to"@), c3, (d - 1) as nat);
    let c4 = lemma_lookup_read(Some(x), Some(y), body, d, "data"@);
    lemma_same_reading_text(lookup(x, "data"@), lookup(y, "data"@), c4, (d - 1) as nat);
}

/// Law: what a Paraswap simulation makes of a JSON answer is what it makes of any reading of
/// that answer.
pub proof fn lemma_paraswap_step_any_reading(q: ParaswapQuery, event: ParaswapEvent, a: ParaswapAction, n: JsonNode)
    requires
        paraswap_step(q, event, a),
        match event {
            ParaswapEvent::Price(Ok(body)) => json_error(body@, JSON_DEPTH as nat) is None && node_read(
                body@,
                JSON_DEPTH as nat,
                n,
            ),
            ParaswapEvent::Transaction(_, Ok(body)) => json_error(body@, JSON_DEPTH as nat) is None
                && node_read(body@, JSON_DEPTH as nat, n),
            _ => false,
        },
    ensures
        match event {
            ParaswapEvent::Price(_) => paraswap_price_outcome(q, n, a),
            ParaswapEvent::Transaction(amount, _) => paraswap_tx_outcome(amount@, n, a),
            ParaswapEvent::Start => true,
        },
{
    match event {
        ParaswapEvent::Price(Ok(body)) => {
            let w = choose|w: JsonNode|
                #[trigger] node_read(body@, JSON_DEPTH as nat, w) && paraswap_price_outcome(q, w, a);
            lemma_paraswap_reading_determined(body@, w, n, q, 0, a);
        },
        ParaswapEvent::Transaction(amount, Ok(body)) => {
            let w = choose|w: JsonNode|
                #[trigger] node_read(body@, JSON_DEPTH as nat, w) && paraswap_tx_outcome(amount@, w, a);
            lemma_paraswap_reading_determined(body@, w, n, q, amount@, a);
        },
        _ => {},
    }
}

/// Simulates the swap `q` on Paraswap without executing it: one GET for the price, then, where
/// there is a price route, one POST for the transaction; the result is the quoted amount (the
/// amount received when selling, paid when buying), the call data and the contract to call.
/// An error of a request, a body that is not JSON, or a missing or unreadable field ends it
/// with that error's message.
pub fn simulate_swap_paraswap(q: &ParaswapQuery, event: ParaswapEvent) -> (a: ParaswapAction)
    ensures
        paraswap_step(*q, event, a),
{
    match event {
        ParaswapEvent::Start => ParaswapAction::Get(paraswap_price_request(q)),
        ParaswapEvent::Price(Err(m)) => ParaswapAction::Failed(m),
        ParaswapEvent::Price(Ok(body)) => match read_json(body.as_str()) {
            Err(m) => ParaswapAction::Failed(m),
            Ok(json) => read_paraswap_price(q, &json),
        },
        ParaswapEvent::Transaction(_, Err(m)) => ParaswapAction::Failed(m),
        ParaswapEvent::Transaction(amount, Ok(body)) => match read_json(body.as_str()) {
            Err(m) => ParaswapAction::Failed(m),
            Ok(json) => paraswap_transaction(amount, &json),
        },
    }
}

/// One side of a pair to simulate on Paraswap: the names of the token given and the token
/// received, and the simulation.
pub struct CustomRoute {
    pub token_in_name: String,
    pub token_out_name: String,
    pub query: ParaswapQuery,
}

/// Whether `r` is the simulation of `side` on chain `chain_id` swapping `from` into `to` for
/// `amount`, sent from and to `wallet`.
pub open spec fn custom_route(r: CustomRoute, side: Seq<char>, chain_id: u16, amount: int, from: Token, to: Token, wallet: Address) -> bool {
    &&& r.token_in_name == from.name
    &&& r.token_out_name == to.name
    &&& r.query.side@ == side
    &&& r.query.chain_id == chain_id
    &&& r.query.amount_in@ == amount
    &&& r.query.token_in == from.address
    &&& r.query.token_out == to.address
    &&& r.query.token0_decimals == from.decimals
    &&& r.query.token1_decimals == to.decimals
    &&& r.query.wallet_address == wallet
    &&& r.query.receiver_address == wallet
}

/// Law: a Paraswap simulation of a route swaps the token given into the token received, with
/// their decimals in that order; when the two tokens differ, no token is priced against itself.
pub proof fn lemma_custom_route_direction(
    r: CustomRoute,
    side: Seq<char>,
    chain_id: u16,
    amount: int,
    from: Token,
    to: Token,
    wallet: Address,
)
    requires
        custom_route(r, side, chain_id, amount, from, to, wallet),
    ensures
        r.query.token_in == from.address,
        r.query.token_out == to.address,
        r.query.token0_decimals == from.decimals,
        r.query.token1_decimals == to.decimals,
        r.token_in_name == from.name && r.token_out_name == to.name,
        from.address != to.address ==> r.query.token_in != r.query.token_out,
        r.query.side@ == side && r.query.amount_in@ == amount && r.query.chain_id == chain_id,
{
}

/// The two Paraswap simulations of a pair on one chain: buying the second token with the first
/// (a fixed amount out) and selling the second token for the first (a fixed amount in), both
/// for `amount`, run in parallel by the caller.
pub fn call_custom_router(chain_id: u16, amount: &Amount, pair: &(Token, Token), wallet: Address) -> (r: (CustomRoute, CustomRoute))
    ensures
        custom_route(r.0, "BUY"@, chain_id, amount@, pair.0, pair.1, wallet),
        custom_route(r.1, "SELL"@, chain_id, amount@, pair.1, pair.0, wallet),
        r.0.query.token_in == pair.0.address && r.0.query.token_out == pair.1.address,
        r.1.query.token_in == pair.1.address && r.1.query.token_out == pair.0.address,
        r.0.query.token0_decimals == pair.0.decimals && r.0.query.token1_decimals == pair.1.decimals,
        r.1.query.token0_decimals == pair.1.decimals && r.1.query.token1_decimals == pair.0.decimals,
        !is_sell(r.0.query.side@) && is_sell(r.1.query.side@),
        pair.0.address != pair.1.address ==> r.0.query.token_in != r.0.query.token_out
            && r.1.query.token_in != r.1.query.token_out,
{
    proof {
        reveal_strlit("BUY");
        reveal_strlit("SELL");
    }
    let buy = CustomRoute {
        token_in_name: pair.0.name.clone(),
        token_out_name: pair.1.name.clone(),
        query: ParaswapQuery {
            side: crate::text::string_of(&crate::text::chars_of("BUY")),
            chain_id,
            amount_in: amount.copy(),
            token_in: pair.0.address,
            token_out: pair.1.address,
            token0_decimals: pair.0.decimals,
            token1_decimals: pair.1.decimals,
            wallet_address: wallet,
            receiver_address: wallet,
        },
    };
    let sell = CustomRoute {
        token_in_name: pair.1.name.clone(),
        token_out_name: pair.0.name.clone(),
        query: ParaswapQuery {
            side: crate::text::string_of(&crate::text::chars_of("SELL")),
            chain_id,
            amount_in: amount.copy(),
            token_in: pair.1.address,
            token_out: pair.0.address,
            token0_decimals: pair.1.decimals,
            token1_decimals: pair.0.decimals,
            wallet_address: wallet,
            receiver_address: wallet,
        },
    };
    (buy, sell)
}

/// The work of one chain at a new block for its pair `index`: the amount to trade (the
/// second token's arbitrage amount) and the two Paraswap simulations.
pub struct PairRoutes {
    pub index: usize,
    pub pair: (Token, Token),
    pub amount: Amount,
    pub buy: CustomRoute,
    pub sell: CustomRoute,
}

/// What a chain simulates at each new block: for every pair, in order, `call_custom_router`
/// with the second token's arbitrage amount.
pub fn block_routes(chain: &Chain, wallet: Address) -> (r: Vec<PairRoutes>)
    ensures
        r@.len() == chain.pairs@.len(),
        forall|i: int|
            0 <= i < r@.len() ==> {
                let p = #[trigger] r@[i];
                let pair = chain.pairs@[i];
                &&& p.index == i
                &&& p.pair == pair
                &&& p.amount@ == pair.1.amount_to_arb as int
                &&& custom_route(p.buy, "BUY"@, chain.id, p.amount@, pair.0, pair.1, wallet)
                &&& custom_route(p.sell, "SELL"@, chain.id, p.amount@, pair.1, pair.0, wallet)
                &&& p.buy.query.token_in == pair.0.address && p.buy.query.token_out == pair.1.address
                &&& p.sell.query.token_in == pair.1.address && p.sell.query.token_out == pair.0.address
            },
{
    let mut r: Vec<PairRoutes> = Vec::new();
    let mut i: usize = 0;
    while i < chain.pairs.len()
        invariant
            i <= chain.pairs@.len(),
            r@.len() == i,
            forall|k: int|
                0 <= k < i ==> {
                    let p = #[trigger] r@[k];
                    let pair = chain.pairs@[k];
                    &&& p.index == k
                    &&& p.pair == pair
                    &&& p.amount@ == pair.1.amount_to_arb as int
                    &&& custom_route(p.buy, "BUY"@, chain.id, p.amount@, pair.0, pair.1, wallet)
                    &&& custom_route(p.sell, "SELL"@, chain.id, p.amount@, pair.1, pair.0, wallet)
                },
        decreases chain.pairs@.len() - i,
    {
        let pair = &chain.pairs[i];
        let amount = Amount::from_u128(pair.1.amount_to_arb);
        let (buy, sell) = call_custom_router(chain.id, &amount, pair, wallet);
        r.push(PairRoutes { index: i, pair: crate::structs::copy_pair(pair), amount, buy, sell });
        i = i + 1;
    }
    r
}

} // verus!
