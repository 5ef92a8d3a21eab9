use vstd::prelude::*;
use vstd::string::StringSliceAdditionalSpecFns;

use crate::address::Address;
use crate::amount::{bigint_text_valid, bigint_text_value, Amount};
use crate::chains::ArbCandidate;
use crate::decimal::{parse_unsigned, parse_unsigned_bounded};
use crate::routers::SquidQuery;
use crate::structs::{is_default_result, SquidRouterResult};
use crate::text::{replace_all, replace_str};

verus! {

/// Allow the arbitrage even when it is not profitable.
pub const SWITCH_ALLOW_ARB: bool = true;

/// Use Squid Router alone (`false` would add Paraswap swaps around it).
pub const SWITCH_ONLY_SQUID_ROUTER: bool = true;

/// Stop the program once one arbitrage has been sent.
pub const SWITCH_ONLY_ONE_ARB: bool = true;

/// The slippage asked of Squid Router, in percent (from 0 to 99).
pub const MAX_SLIPPAGE: u8 = 2;

/// Whether an arbitrage is profitable: chain `b` gives back more than chain `a` takes. The gas
/// costs of both chains are not weighed.
pub fn arb_is_profitable(
    amount_in_chain_a: &Amount,
    amount_out_chain_b: &Amount,
    _gas_cost_chain_a: &Amount,
    _gas_cost_chain_b: &Amount,
) -> (r: bool)
    ensures
        r == (amount_out_chain_b@ > amount_in_chain_a@),
{
    amount_out_chain_b.gt(amount_in_chain_a)
}

/// What Squid Router answered for an attempt: the amount and transaction of the way there, and
/// those of the way back.
pub type SquidAnswer = ((Amount, SquidRouterResult), (Amount, SquidRouterResult));

/// Whether `q` is the Squid Router simulation of an attempt for `c`: the first token of the
/// pair on chain `a` into the second on chain `b`, for the amount bought on `a`, from and to
/// `wallet`.
pub open spec fn squid_query_of(q: SquidQuery, c: ArbCandidate, wallet: Address) -> bool {
    &&& q.from_chain == c.chain_a_id
    &&& q.to_chain == c.chain_b_id
    &&& q.token_in == c.pair.0.address
    &&& q.token_out == c.pair.1.address
    &&& q.amount@ == c.amount_in_chain_a@
    &&& q.from_address == wallet
    &&& q.to_address == wallet
    &&& q.slippage == MAX_SLIPPAGE
}

fn arb_squid_query(c: &ArbCandidate, wallet: Address) -> (q: SquidQuery)
    ensures
        squid_query_of(q, *c, wallet),
{
    SquidQuery {
        from_chain: c.chain_a_id,
        to_chain: c.chain_b_id,
        token_in: c.pair.0.address,
        token_out: c.pair.1.address,
        amount: c.amount_in_chain_a.copy(),
        from_address: wallet,
        to_address: wallet,
        slippage: MAX_SLIPPAGE,
    }
}

/// The arguments of one `send_tx` call.
pub struct TxParams {
    pub to: Address,
    pub data: String,
    pub chain_id: u64,
    pub gas: u64,
    pub max_fee_per_gas: u64,
    pub max_priority_fee: u64,
    pub value: u128,
    pub url: String,
}

/// What an attempt does once Squid Router answered.
pub struct ArbPlan {
    pub gas_cost_chain_a: Amount,
    pub gas_cost_chain_b: Amount,
    pub amount_out_chain_b: Amount,
    /// Whether the expected gas costs and profit are reported.
    pub report: bool,
    /// The transactions to send on chain `a` and chain `b`, if any; a side whose numbers do not
    /// parse is `None`, and sending it fails.
    pub txs: Option<(Option<TxParams>, Option<TxParams>)>,
    /// Whether the program stops once they are sent.
    pub exit: bool,
}

/// Whether the strings of a Squid Router transaction parse as `send_tx` needs them.
pub open spec fn tx_fields_parse(r: SquidRouterResult) -> bool {
    &&& parse_unsigned(r.gas_limit@, u64::MAX as nat) is Some
    &&& parse_unsigned(r.max_fee_per_gas@, u64::MAX as nat) is Some
    &&& parse_unsigned(r.max_priority_fee@, u64::MAX as nat) is Some
    &&& parse_unsigned(r.value@, u128::MAX as nat) is Some
}

/// Whether `t` holds the transaction `r` on chain `chain_id` reached at `url`.
pub open spec fn tx_params_of(t: TxParams, r: SquidRouterResult, chain_id: u16, url: String) -> bool {
    &&& t.to == r.target_address
    &&& t.data == r.data
    &&& t.chain_id == chain_id as u64
    &&& Some(t.gas as nat) == parse_unsigned(r.gas_limit@, u64::MAX as nat)
    &&& Some(t.max_fee_per_gas as nat) == parse_unsigned(r.max_fee_per_gas@, u64::MAX as nat)
    &&& Some(t.max_priority_fee as nat) == parse_unsigned(r.max_priority_fee@, u64::MAX as nat)
    &&& Some(t.value as nat) == parse_unsigned(r.value@, u128::MAX as nat)
    &&& t.url == url
}

/// Whether `t` is the transaction of one side: present exactly when the numbers of `r` parse.
pub open spec fn tx_side_of(t: Option<TxParams>, r: SquidRouterResult, chain_id: u16, url: String) -> bool {
    &&& t is Some <==> tx_fields_parse(r)
    &&& t matches Some(p) ==> tx_params_of(p, r, chain_id, url)
}

fn tx_params(r: &SquidRouterResult, chain_id: u16, url: &String) -> (t: Option<TxParams>)
    ensures
        tx_side_of(t, *r, chain_id, *url),
{
    let gas = match parse_unsigned_bounded(r.gas_limit.as_str(), u64::MAX as u128) {
        Some(v) => v as u64,
        None => {
            return None;
        },
    };
    let max_fee_per_gas = match parse_unsigned_bounded(r.max_fee_per_gas.as_str(), u64::MAX as u128) {
        Some(v) => v as u64,
        None => {
            return None;
        },
    };
    let max_priority_fee = match parse_unsigned_bounded(r.max_priority_fee.as_str(), u64::MAX as u128) {
        Some(v) => v as u64,
        None => {
            return None;
        },
    };
    let value = match parse_unsigned_bounded(r.value.as_str(), u128::MAX) {
        Some(v) => v,
        None => {
            return None;
        },
    };
    Some(TxParams {
        to: r.target_address,
        data: r.data.clone(),
        chain_id: chain_id as u64,
        gas,
        max_fee_per_gas,
        max_priority_fee,
        value,
        url: url.clone(),
    })
}

/// Whether Squid Router found a route for the way there in `res` (when it is asked at all).
pub open spec fn routed(res: Option<SquidAnswer>) -> bool {
    SWITCH_ONLY_SQUID_ROUTER && match res {
        Some(r) => !is_default_result(r.0.1),
        None => false,
    }
}

/// Whether an attempt for `c` can go on with the answer `res`: where there is a route, both gas
/// limits read as numbers (the attempt panics otherwise).
pub open spec fn arb_answer_usable(res: SquidAnswer) -> bool {
    routed(Some(res)) ==> bigint_text_valid(res.0.1.gas_limit@) && bigint_text_valid(res.1.1.gas_limit@)
}

/// Whether `p` is the plan of an attempt for `c` with the Squid Router answer `res` (`None` when
/// Squid Router is not asked): the gas costs and amount out taken from the answer where it has a
/// route, reported when allowed or profitable, and the two transactions of the route sent, after
/// which the program stops.
pub open spec fn plan_of(c: ArbCandidate, res: Option<SquidAnswer>, p: ArbPlan) -> bool {
    let routed = routed(res);
    let r = res->0;
    let gas_a = if routed { bigint_text_value(r.0.1.gas_limit@) } else { c.gas_cost_chain_a@ };
    let gas_b = if routed { bigint_text_value(r.1.1.gas_limit@) } else { c.gas_cost_chain_b@ };
    let out = if routed { r.1.0@ } else { c.amount_out_chain_b@ };
    let report = SWITCH_ALLOW_ARB || out > c.amount_in_chain_a@;
    let send = report && routed && (SWITCH_ALLOW_ARB || out > c.amount_in_chain_a@);
    &&& p.gas_cost_chain_a@ == gas_a
    &&& p.gas_cost_chain_b@ == gas_b
    &&& p.amount_out_chain_b@ == out
    &&& p.report == report
    &&& p.txs is Some == send
    &&& p.txs matches Some(t) ==> tx_side_of(t.0, r.0.1, c.chain_a_id, c.chain_a_url)
        && tx_side_of(t.1, r.1.1, c.chain_b_id, c.chain_b_url)
    &&& p.exit == (SWITCH_ONLY_ONE_ARB && send)
}

fn parse_gas(s: &String) -> (a: Amount)
    requires
        bigint_text_valid(s@),
    ensures
        a@ == bigint_text_value(s@),
{
    match Amount::parse(s.as_str()) {
        Ok(a) => a,
        Err(_) => {
            proof {
                assert(false);
            }
            Amount::zero()
        },
    }
}

fn arb_plan(c: &ArbCandidate, res: Option<&SquidAnswer>) -> (p: ArbPlan)
    requires
        res matches Some(r) ==> arb_answer_usable(*r),
    ensures
        plan_of(
            *c,
            match res {
                Some(r) => Some(*r),
                None => None,
            },
            p,
        ),
{
    let mut gas_cost_chain_a = c.gas_cost_chain_a.copy();
    let mut gas_cost_chain_b = c.gas_cost_chain_b.copy();
    let mut amount_out_chain_b = c.amount_out_chain_b.copy();
    let mut txs = None;
    let mut routed = false;
    if let Some(r) = res {
        if SWITCH_ONLY_SQUID_ROUTER && !r.0.1.is_default() {
            routed = true;
            gas_cost_chain_a = parse_gas(&r.0.1.gas_limit);
            gas_cost_chain_b = parse_gas(&r.1.1.gas_limit);
            amount_out_chain_b = r.1.0.copy();
        }
    }
    let report = SWITCH_ALLOW_ARB || arb_is_profitable(
        &c.amount_in_chain_a,
        &amount_out_chain_b,
        &gas_cost_chain_a,
        &gas_cost_chain_b,
    );
    if let Some(r) = res {
        if report && routed && (SWITCH_ALLOW_ARB || amount_out_chain_b.gt(&c.amount_in_chain_a)) {
            let ta = tx_params(&r.0.1, c.chain_a_id, &c.chain_a_url);
            let tb = tx_params(&r.1.1, c.chain_b_id, &c.chain_b_url);
            txs = Some((ta, tb));
        }
    }
    let exit = SWITCH_ONLY_ONE_ARB && txs.is_some();
    ArbPlan { gas_cost_chain_a, gas_cost_chain_b, amount_out_chain_b, report, txs, exit }
}

/// Whether `res` is an answer the attempt can go on with (`arb_answer_usable`).
pub fn answer_usable(res: &SquidAnswer) -> (r: bool)
    ensures
        r == arb_answer_usable(*res),
{
    if SWITCH_ONLY_SQUID_ROUTER && !res.0.1.is_default() {
        Amount::parse(res.0.1.gas_limit.as_str()).is_ok() && Amount::parse(res.1.1.gas_limit.as_str()).is_ok()
    } else {
        true
    }
}

/// Whether an attempt with these amounts starts when `pending` says whether another one runs.
pub open spec fn arb_starts(pending: bool, amount_in: int, amount_out: int) -> bool {
    amount_in > 0 && amount_out > 0 && !pending
}

/// The flag that keeps a second arbitrage from starting while one is under way.
pub struct ArbGate {
    pub pending: bool,
}

impl ArbGate {
    /// No attempt under way.
    pub fn new() -> (g: ArbGate)
        ensures
            !g.pending,
    {
        ArbGate { pending: false }
    }
}

/// What happens to an arbitrage attempt.
pub enum ArbEvent {
    /// The attempt asks to start.
    Start,
    /// Squid Router answered the simulation that `AskSquid` asked for.
    Answer(SquidAnswer),
    /// The plan that `Act` handed out was carried out.
    Done(ArbPlan),
}

/// What the caller does next for an arbitrage attempt.
pub enum ArbAction {
    /// The attempt does not start; nothing changed.
    Skip,
    /// Simulate this route on Squid Router (there and back) and hand the answer back.
    AskSquid(SquidQuery),
    /// Report the gas costs and profit if the plan says so, send its transactions, and hand the
    /// plan back.
    Act(ArbPlan),
    /// Stop the program.
    Exit,
    /// The attempt is over.
    Finished,
}

/// Whether an attempt is pending after `ev` happened to an attempt for `c`, `pending` saying
/// whether one was before.
pub open spec fn pending_after(pending: bool, c: ArbCandidate, ev: ArbEvent) -> bool {
    match ev {
        ArbEvent::Start => pending || arb_starts(pending, c.amount_in_chain_a@, c.amount_out_chain_b@),
        ArbEvent::Answer(_) => pending,
        ArbEvent::Done(p) => pending && p.exit,
    }
}

/// Whether `a` is what an attempt for `c` does on `ev`, with `wallet` as the sender and
/// receiver of the swaps and `pending` saying whether an attempt was under way.
pub open spec fn arb_step(pending: bool, c: ArbCandidate, wallet: Address, ev: ArbEvent, a: ArbAction) -> bool {
    match ev {
        ArbEvent::Start => if !arb_starts(pending, c.amount_in_chain_a@, c.amount_out_chain_b@) {
            a is Skip
        } else if SWITCH_ONLY_SQUID_ROUTER {
            a matches ArbAction::AskSquid(q) && squid_query_of(q, c, wallet)
        } else {
            a matches ArbAction::Act(p) && plan_of(c, None, p)
        },
        ArbEvent::Answer(res) => a matches ArbAction::Act(p) && plan_of(c, Some(res), p),
        ArbEvent::Done(p) => if p.exit {
            a is Exit
        } else {
            a is Finished
        },
    }
}

/// One step of an arbitrage attempt for candidate `c` between two chains, `gate` telling
/// whether another attempt is under way. An attempt starts only when both amounts are positive
/// and none is pending; it then marks itself pending and asks Squid Router for the route from
/// chain `a` to chain `b` (there and back). With the answer it decides what to report and which
/// transactions to send; once that is done the program stops if transactions were sent, and
/// otherwise the attempt ends and clears the flag. A refused start changes nothing.
pub fn try_execute_arb(gate: &mut ArbGate, c: &ArbCandidate, wallet: Address, event: ArbEvent) -> (a: ArbAction)
    requires
        event matches ArbEvent::Answer(res) ==> arb_answer_usable(res),
    ensures
        arb_step(old(gate).pending, *c, wallet, event, a),
        final(gate).pending == pending_after(old(gate).pending, *c, event),
        event is Start ==> (a is Skip <==> !(c.amount_in_chain_a@ > 0 && c.amount_out_chain_b@ > 0
            && !old(gate).pending)),
        event is Start && a is Skip ==> final(gate).pending == old(gate).pending,
        event is Start && !(a is Skip) ==> final(gate).pending && !old(gate).pending
            && c.amount_in_chain_a@ > 0 && c.amount_out_chain_b@ > 0,
        a matches ArbAction::AskSquid(q) ==> q.from_chain == c.chain_a_id && q.to_chain == c.chain_b_id
            && q.token_in == c.pair.0.address && q.token_out == c.pair.1.address
            && q.amount@ == c.amount_in_chain_a@ && q.from_address == wallet && q.to_address == wallet
            && q.slippage == MAX_SLIPPAGE,
        event is Answer ==> a is Act && final(gate).pending == old(gate).pending,
        event matches ArbEvent::Done(p) ==> (p.exit ==> a is Exit && final(gate).pending == old(gate).pending)
            && (!p.exit ==> a is Finished && !final(gate).pending),
        a matches ArbAction::Act(p) ==> (p.txs matches Some(t) ==> (t.0 matches Some(x) ==> x.chain_id
            == c.chain_a_id as u64 && x.url == c.chain_a_url) && (t.1 matches Some(y) ==> y.chain_id
            == c.chain_b_id as u64 && y.url == c.chain_b_url)),
        a matches ArbAction::Act(p) ==> p.report == (SWITCH_ALLOW_ARB || p.amount_out_chain_b@
            > c.amount_in_chain_a@),
        a matches ArbAction::Act(p) ==> (p.txs is Some ==> p.report) && (p.exit ==> p.txs is Some),
        event matches ArbEvent::Answer(res) ==> (a matches ArbAction::Act(p) && (!is_default_result(res.0.1)
            ==> p.gas_cost_chain_a@ == bigint_text_value(res.0.1.gas_limit@)
            && p.gas_cost_chain_b@ == bigint_text_value(res.1.1.gas_limit@)
            && p.amount_out_chain_b@ == res.1.0@ && p.txs is Some)),
{
    match event {
        ArbEvent::Start => {
            let starts = c.amount_in_chain_a.is_positive() && c.amount_out_chain_b.is_positive() && !gate.pending;
            if !starts {
                return ArbAction::Skip;
            }
            gate.pending = true;
            if SWITCH_ONLY_SQUID_ROUTER {
                ArbAction::AskSquid(arb_squid_query(c, wallet))
            } else {
                ArbAction::Act(arb_plan(c, None))
            }
        },
        ArbEvent::Answer(res) => ArbAction::Act(arb_plan(c, Some(&res))),
        ArbEvent::Done(p) => {
            if p.exit {
                ArbAction::Exit
            } else {
                gate.pending = false;
                ArbAction::Finished
            }
        },
    }
}

/// Law: an attempt starts exactly when both amounts are positive and no other attempt is
/// pending; a start refused for any reason (a chain with no quote yet has an amount of zero)
/// asks nothing and leaves the flag as it was.
pub proof fn lemma_start_needs_positive_amounts(pending: bool, c: ArbCandidate, wallet: Address, a: ArbAction)
    requires
        arb_step(pending, c, wallet, ArbEvent::Start, a),
    ensures
        !(a is Skip) <==> (c.amount_in_chain_a@ > 0 && c.amount_out_chain_b@ > 0 && !pending),
        c.amount_out_chain_b@ <= 0 ==> a is Skip && pending_after(pending, c, ArbEvent::Start) == pending,
        c.amount_in_chain_a@ <= 0 ==> a is Skip && pending_after(pending, c, ArbEvent::Start) == pending,
        pending ==> a is Skip,
        !(a is Skip) ==> pending_after(pending, c, ArbEvent::Start),
{
}

/// Law: every plan is reported when the switch allows every arbitrage, and otherwise exactly
/// when it is profitable; a plan that sends transactions is always reported, has a route, and
/// stops the program; with a route the gas costs and the amount out are those Squid Router
/// answered.
pub proof fn lemma_plan_reports_what_it_sends(c: ArbCandidate, res: Option<SquidAnswer>, p: ArbPlan)
    requires
        plan_of(c, res, p),
    ensures
        SWITCH_ALLOW_ARB ==> p.report,
        p.report == (SWITCH_ALLOW_ARB || p.amount_out_chain_b@ > c.amount_in_chain_a@),
        p.txs is Some ==> p.report && routed(res),
        p.exit ==> p.txs is Some,
        p.txs matches Some(t) ==> (t.0 matches Some(x) ==> x.chain_id == c.chain_a_id as u64 && x.url
            == c.chain_a_url) && (t.1 matches Some(y) ==> y.chain_id == c.chain_b_id as u64 && y.url
            == c.chain_b_url),
        match res {
            Some(r) => !is_default_result(r.0.1) ==> p.txs is Some && p.exit && p.gas_cost_chain_a@
                == bigint_text_value(r.0.1.gas_limit@) && p.gas_cost_chain_b@ == bigint_text_value(
                r.1.1.gas_limit@,
            ) && p.amount_out_chain_b@ == r.1.0@,
            None => p.txs is None && p.amount_out_chain_b@ == c.amount_out_chain_b@,
        },
{
}

/// Law: once an attempt has started, no other attempt starts, whatever its amounts.
pub proof fn lemma_one_arb_at_a_time(pending: bool, c1: ArbCandidate, c2: ArbCandidate)
    requires
        arb_starts(pending, c1.amount_in_chain_a@, c1.amount_out_chain_b@),
    ensures
        pending_after(pending, c1, ArbEvent::Start),
        !arb_starts(pending_after(pending, c1, ArbEvent::Start), c2.amount_in_chain_a@, c2.amount_out_chain_b@),
{
}

/// Law: an attempt under way stays under way through every start and every answer; only the
/// end of an attempt that does not stop the program clears it.
pub proof fn lemma_pending_until_done(c: ArbCandidate, ev: ArbEvent)
    ensures
        pending_after(true, c, ev) == !(ev matches ArbEvent::Done(p) && !p.exit),
{
}

/// Whether `b` is an ASCII hexadecimal digit.
pub open spec fn is_hex_byte(b: u8) -> bool {
    (48 <= b <= 57) || (97 <= b <= 102) || (65 <= b <= 70)
}

/// The number that a hexadecimal digit byte stands for.
pub open spec fn hex_byte_value(b: u8) -> int {
    if 48 <= b <= 57 {
        b - 48
    } else if 97 <= b <= 102 {
        b - 87
    } else {
        b - 55
    }
}

/// Whether `hex::decode` accepts the bytes `bs`: an even number of hexadecimal digits.
pub open spec fn hex_decodable(bs: Seq<u8>) -> bool {
    &&& bs.len() % 2 == 0
    &&& forall|i: int| 0 <= i < bs.len() ==> is_hex_byte(#[trigger] bs[i])
}

/// The bytes that `hex::decode` reads from `bs`: one per pair of digits, the first digit high.
pub open spec fn hex_decoded(bs: Seq<u8>) -> Seq<u8> {
    Seq::new(
        bs.len() / 2,
        |i: int| (hex_byte_value(bs[2 * i]) * 16 + hex_byte_value(bs[2 * i + 1])) as u8,
    )
}

/// Calls `hex::decode` on the bytes of `s`.
/// Trusted: the accepted inputs and the bytes read are those of hex's `FromHex for Vec<u8>`
/// and its `val` as their source writes them; the error itself is dropped.
#[verifier::external_body]
fn hex_decode(s: &str) -> (r: Option<Vec<u8>>)
    ensures
        r is Some <==> hex_decodable(s.spec_bytes()),
        r matches Some(v) ==> v@ == hex_decoded(s.spec_bytes()),
{
    hex::decode(s).ok()
}

/// An EIP-1559 transaction ready to be signed and sent to the node at `url`.
pub struct TxRequest {
    pub to: Address,
    pub data: Vec<u8>,
    pub chain_id: u64,
    pub gas: u64,
    pub value: u128,
    pub max_fee_per_gas: u64,
    pub max_priority_fee_per_gas: u64,
    /// The transaction type (2, EIP-1559).
    pub transaction_type: u64,
    /// The node's HTTP URL.
    pub url: String,
}

/// Whether `send_tx` can build the transaction from the call data `data`: a two-byte prefix
/// (`0x`) followed by hexadecimal digits. (Elsewhere slicing the prefix off or decoding the rest
/// panics.)
pub open spec fn tx_buildable(data: &str) -> bool {
    &&& vstd::utf8::is_char_boundary(data.spec_bytes(), 2)
    &&& hex_decodable(data.spec_bytes().skip(2))
}

/// Whether `send_tx` can build a transaction with the call data `data` (`tx_buildable`).
pub fn send_tx_data_valid(data: &str) -> (r: bool)
    ensures
        r == tx_buildable(data),
{
    if !data.is_char_boundary(2) {
        return false;
    }
    let (_, payload) = data.split_at(2);
    assert(payload.spec_bytes() =~= data.spec_bytes().skip(2));
    hex_decode(payload).is_some()
}

/// Builds the transaction that `send_tx` signs and sends: the call data after its two-byte
/// prefix decoded from hexadecimal, the fees as given, type 2 (EIP-1559), and the node's URL with
/// `wss://` turned into `https://`.
pub fn send_tx(
    to: Address,
    data: &str,
    chain_id: u64,
    gas: u64,
    max_fee_per_gas: u64,
    max_priority_fee: u64,
    value: u128,
    url: &str,
) -> (t: TxRequest)
    requires
        tx_buildable(data),
    ensures
        t.to == to,
        t.data@ == hex_decoded(data.spec_bytes().skip(2)),
        t.chain_id == chain_id,
        t.gas == gas,
        t.value == value,
        t.max_fee_per_gas == max_fee_per_gas,
        t.max_priority_fee_per_gas == max_priority_fee,
        t.transaction_type == 2,
        t.url@ == replace_all(url@, "wss://"@, "https://"@),
{
    let (_, payload) = data.split_at(2);
    assert(payload.spec_bytes() =~= data.spec_bytes().skip(2));
    let bytes = match hex_decode(payload) {
        Some(b) => b,
        None => {
            proof {
                assert(false);
            }
            Vec::new()
        },
    };
    let url = replace_str(url, "wss://", "https://");
    TxRequest {
        to,
        data: bytes,
        chain_id,
        gas,
        value,
        max_fee_per_gas,
        max_priority_fee_per_gas: max_priority_fee,
        transaction_type: 2,
        url,
    }
}

} // verus!
