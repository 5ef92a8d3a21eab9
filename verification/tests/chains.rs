use axelar_arbs::arb::{answer_usable, send_tx_data_valid, ArbAction, ArbEvent, ArbGate, MAX_SLIPPAGE};
use axelar_arbs::chains::{ArbCandidate, ChainSide, ChainTable, PairQuote};
use axelar_arbs::{arb_is_profitable, send_tx, try_execute_arb};
use axelar_arbs::{Address, Amount, Chain, ChainName, SquidRouterResult, Token};

const USDC: &str = "2791bca1f2de4661ed88a30c99a7a9449aa84174";
const WETH: &str = "7ceb23fd6bc0add59e62ac25578270cff1b9f619";

fn token(name: &str, hex: &str, decimals: u32, amount: u128) -> Token {
    Token { name: name.to_string(), address: Address::parse(hex).unwrap(), decimals, amount_to_arb: amount }
}

fn chain(name: ChainName, id: u16) -> Chain {
    let mut c = Chain {
        id,
        name,
        url: format!("wss://node{}.example", id),
        tokens: vec![token("WETH", WETH, 18, 1), token("USDC", USDC, 6, 1000)],
        pairs: Vec::new(),
    };
    c.add_default_pair();
    c
}

fn quote(amount: &str, gas: &str) -> PairQuote {
    PairQuote {
        amount: Amount::parse(amount).unwrap(),
        data: "0x".to_string(),
        to: Address::zero(),
        gas: Amount::parse(gas).unwrap(),
    }
}

fn side(name: ChainName, id: u16) -> ChainSide {
    ChainSide { name, id, url: format!("wss://node{}.example", id) }
}

#[test]
fn block_routes_cover_every_pair() {
    let mut c = chain(ChainName::Polygon, 137);
    c.pairs.push((token("WETH", WETH, 18, 2), token("USDC", USDC, 6, 7)));
    let r = axelar_arbs::routers::block_routes(&c, Address::zero());
    assert_eq!(r.len(), 2);
    assert_eq!(r[0].index, 0);
    assert_eq!(r[0].amount.to_text(), "1");
    assert_eq!(r[0].buy.query.side, "BUY");
    assert_eq!(r[0].buy.token_in_name, "USDC");
    assert_eq!(r[1].index, 1);
    assert_eq!(r[1].amount.to_text(), "7");
    assert_eq!(r[1].sell.query.side, "SELL");
    assert_eq!(r[1].sell.token_in_name, "USDC");
}

#[test]
fn default_pair_is_quote_then_base() {
    let c = chain(ChainName::Polygon, 137);
    assert_eq!(c.pairs.len(), 1);
    assert_eq!(c.pairs[0].0.name, "USDC");
    assert_eq!(c.pairs[0].1.name, "WETH");
}

#[test]
fn register_chain_starts_with_empty_quotes() {
    let mut t = ChainTable::new();
    t.register_chain(&chain(ChainName::Polygon, 137));
    assert_eq!(t.chains.len(), 1);
    assert_eq!(t.chains[0].id, 137);
    assert_eq!(t.chains[0].pairs[0].1.amount.to_text(), "0");
    assert_eq!(t.chains[0].pairs[0].1.data, "");
}

#[test]
fn recorded_quote_is_read_back() {
    let mut t = ChainTable::new();
    t.register_chain(&chain(ChainName::Polygon, 137));
    t.register_chain(&chain(ChainName::BSC, 56));
    t.record_quote(ChainName::BSC, 0, &quote("1850000000", "21000"));
    assert_eq!(t.chains[1].pairs[0].1.amount.to_text(), "1850000000");
    assert_eq!(t.chains[1].pairs[0].1.gas.to_text(), "21000");
    assert_eq!(t.chains[0].pairs[0].1.amount.to_text(), "0");
    t.record_quote(ChainName::BSC, 5, &quote("1", "1"));
    assert_eq!(t.chains[1].pairs[0].1.amount.to_text(), "1850000000");
}

#[test]
fn candidates_are_against_other_chains_only() {
    let mut t = ChainTable::new();
    let polygon = chain(ChainName::Polygon, 137);
    t.register_chain(&polygon);
    t.register_chain(&chain(ChainName::BSC, 56));
    t.record_quote(ChainName::BSC, 0, &quote("1843250000", "21000"));
    let a = side(ChainName::Polygon, 137);
    let c = t.arb_candidates(&a, 0, &polygon.pairs[0], &Amount::from_u128(1), &quote("1000000000000000000", "5"));
    assert_eq!(c.len(), 1);
    assert_eq!(c[0].chain_b_name, ChainName::BSC);
    assert_eq!(c[0].chain_b_id, 56);
    assert_eq!(c[0].amount_in_chain_a.to_text(), "1");
    assert_eq!(c[0].amount_out_chain_b.to_text(), "1843250000");
    assert_eq!(c[0].gas_cost_chain_a.to_text(), "5");
    assert_eq!(c[0].gas_cost_chain_b.to_text(), "21000");
    assert_eq!(c[0].pair.0.name, "WETH");
    assert_eq!(c[0].pair.1.name, "USDC");
    assert!(t.arb_candidates(&a, 3, &polygon.pairs[0], &Amount::from_u128(1), &quote("1", "1")).is_empty());
}

#[test]
fn pair_quotes_record_sell_and_compare_buy() {
    let mut t = ChainTable::new();
    let polygon = chain(ChainName::Polygon, 137);
    t.register_chain(&polygon);
    t.register_chain(&chain(ChainName::BSC, 56));
    let bsc = side(ChainName::BSC, 56);
    let none = t.on_pair_quotes(&bsc, 0, &polygon.pairs[0], &Amount::from_u128(1), &Err("x".to_string()), &Ok(quote("9", "9")));
    assert!(none.is_empty());
    assert_eq!(t.chains[1].pairs[0].1.amount.to_text(), "0");
    let c = t.on_pair_quotes(&bsc, 0, &polygon.pairs[0], &Amount::from_u128(1), &Ok(quote("123", "4")), &Ok(quote("555", "6")));
    assert_eq!(t.chains[1].pairs[0].1.amount.to_text(), "555");
    assert_eq!(c.len(), 1);
    assert_eq!(c[0].chain_b_name, ChainName::Polygon);
    assert_eq!(c[0].amount_out_chain_b.to_text(), "0");
}

fn candidate(amount_in: &str, amount_out: &str) -> ArbCandidate {
    ArbCandidate {
        amount_in_chain_a: Amount::parse(amount_in).unwrap(),
        amount_out_chain_b: Amount::parse(amount_out).unwrap(),
        gas_cost_chain_a: Amount::zero(),
        gas_cost_chain_b: Amount::zero(),
        pair: (token("WETH", WETH, 18, 1), token("USDC", USDC, 6, 1000)),
        chain_a_name: ChainName::Polygon,
        chain_b_name: ChainName::BSC,
        chain_a_id: 137,
        chain_b_id: 56,
        chain_a_url: "wss://a".to_string(),
        chain_b_url: "wss://b".to_string(),
    }
}

#[test]
fn profitable_when_more_comes_out() {
    let one = Amount::from_u128(1);
    let two = Amount::from_u128(2);
    assert!(arb_is_profitable(&one, &two, &one, &one));
    assert!(!arb_is_profitable(&two, &one, &one, &one));
    assert!(!arb_is_profitable(&two, &two, &one, &one));
}

fn start(g: &mut ArbGate, c: &ArbCandidate) -> ArbAction {
    try_execute_arb(g, c, Address::zero(), ArbEvent::Start)
}

#[test]
fn one_arb_at_a_time() {
    let mut g = ArbGate::new();
    assert!(matches!(start(&mut g, &candidate("0", "5")), ArbAction::Skip));
    assert!(matches!(start(&mut g, &candidate("5", "-1")), ArbAction::Skip));
    assert!(!g.pending);
    assert!(matches!(start(&mut g, &candidate("1", "5")), ArbAction::AskSquid(_)));
    assert!(g.pending);
    assert!(matches!(start(&mut g, &candidate("1", "5")), ArbAction::Skip));
    assert!(g.pending);
}

#[test]
fn squid_query_of_an_attempt() {
    let mut g = ArbGate::new();
    let q = match try_execute_arb(&mut g, &candidate("7", "9"), Address::parse(USDC).unwrap(), ArbEvent::Start) {
        ArbAction::AskSquid(q) => q,
        _ => panic!("expected a Squid Router request"),
    };
    assert_eq!(q.from_chain, 137);
    assert_eq!(q.to_chain, 56);
    assert_eq!(q.token_in.to_hex(), WETH);
    assert_eq!(q.token_out.to_hex(), USDC);
    assert_eq!(q.amount.to_text(), "7");
    assert_eq!(q.from_address.to_hex(), USDC);
    assert_eq!(q.to_address.to_hex(), USDC);
    assert_eq!(q.slippage, MAX_SLIPPAGE);
}

fn routed(gas: &str) -> SquidRouterResult {
    SquidRouterResult {
        target_address: Address::parse(USDC).unwrap(),
        data: "0xabcd".to_string(),
        value: "10".to_string(),
        gas_limit: gas.to_string(),
        max_fee_per_gas: "100".to_string(),
        max_priority_fee: "3".to_string(),
    }
}

fn act(g: &mut ArbGate, c: &ArbCandidate, res: ((Amount, SquidRouterResult), (Amount, SquidRouterResult))) -> axelar_arbs::arb::ArbPlan {
    match try_execute_arb(g, c, Address::zero(), ArbEvent::Answer(res)) {
        ArbAction::Act(p) => p,
        _ => panic!("expected a plan"),
    }
}

#[test]
fn attempt_without_route_sends_nothing_and_clears_the_flag() {
    let mut g = ArbGate::new();
    let c = candidate("1", "2");
    assert!(matches!(start(&mut g, &c), ArbAction::AskSquid(_)));
    let res = (
        (Amount::zero(), SquidRouterResult::new_default()),
        (Amount::zero(), SquidRouterResult::new_default()),
    );
    let plan = act(&mut g, &c, res);
    assert!(g.pending);
    assert!(plan.report);
    assert!(plan.txs.is_none());
    assert!(!plan.exit);
    assert_eq!(plan.amount_out_chain_b.to_text(), "2");
    assert!(matches!(try_execute_arb(&mut g, &c, Address::zero(), ArbEvent::Done(plan)), ArbAction::Finished));
    assert!(!g.pending);
    assert!(matches!(start(&mut g, &c), ArbAction::AskSquid(_)));
}

#[test]
fn attempt_with_route_sends_both_legs_and_exits() {
    let mut g = ArbGate::new();
    let c = candidate("1000", "2");
    assert!(matches!(start(&mut g, &c), ArbAction::AskSquid(_)));
    let res = ((Amount::from_u128(998), routed("300000")), (Amount::from_u128(995), routed("250000")));
    assert!(answer_usable(&res));
    let plan = act(&mut g, &c, res);
    assert_eq!(plan.gas_cost_chain_a.to_text(), "300000");
    assert_eq!(plan.gas_cost_chain_b.to_text(), "250000");
    assert_eq!(plan.amount_out_chain_b.to_text(), "995");
    assert_eq!(plan.amount_out_chain_b.sub(&c.amount_in_chain_a).to_text(), "-5");
    assert!(plan.exit);
    let (a, b) = plan.txs.as_ref().unwrap();
    let a = a.as_ref().unwrap();
    let b = b.as_ref().unwrap();
    assert_eq!(a.chain_id, 137);
    assert_eq!(a.gas, 300000);
    assert_eq!(a.max_fee_per_gas, 100);
    assert_eq!(a.max_priority_fee, 3);
    assert_eq!(a.value, 10);
    assert_eq!(a.url, "wss://a");
    assert_eq!(b.chain_id, 56);
    assert_eq!(b.gas, 250000);
    assert_eq!(b.url, "wss://b");
    assert!(matches!(try_execute_arb(&mut g, &c, Address::zero(), ArbEvent::Done(plan)), ArbAction::Exit));
    assert!(g.pending);
}

#[test]
fn answers_that_cannot_be_used() {
    let res = ((Amount::from_u128(1), routed("3e5")), (Amount::from_u128(1), routed("1")));
    assert!(!answer_usable(&res));
    let res = ((Amount::from_u128(1), routed("1")), (Amount::from_u128(1), routed("")));
    assert!(!answer_usable(&res));
    let res = ((Amount::from_u128(1), SquidRouterResult::new_default()), (Amount::from_u128(1), routed("")));
    assert!(answer_usable(&res));
}

#[test]
fn a_side_whose_numbers_do_not_parse_is_left_out() {
    let mut g = ArbGate::new();
    let c = candidate("1", "1");
    let mut bad = routed("1");
    bad.value = "-1".to_string();
    let plan = act(&mut g, &c, ((Amount::from_u128(1), bad), (Amount::from_u128(1), routed("1"))));
    let (a, b) = plan.txs.as_ref().unwrap();
    assert!(a.is_none());
    assert!(b.is_some());
    assert!(plan.exit);
}

#[test]
fn amounts_subtract() {
    let a = Amount::parse("995").unwrap();
    let b = Amount::parse("1000").unwrap();
    assert_eq!(a.sub(&b).to_text(), "-5");
    assert_eq!(b.sub(&a).to_text(), "5");
    assert_eq!(Amount::parse("-3").unwrap().sub(&Amount::parse("-3").unwrap()).to_text(), "0");
}

#[test]
fn send_tx_builds_the_transaction() {
    let to = Address::parse(USDC).unwrap();
    let t = send_tx(to, "0xdeadBEEF", 137, 21000, 50, 2, 7, "wss://polygon.example/wss://x");
    assert_eq!(t.data, vec![0xde, 0xad, 0xbe, 0xef]);
    assert_eq!(t.max_fee_per_gas, 50);
    assert_eq!(t.max_priority_fee_per_gas, 2);
    assert_eq!(t.transaction_type, 2);
    assert_eq!(t.chain_id, 137);
    assert_eq!(t.gas, 21000);
    assert_eq!(t.value, 7);
    assert_eq!(t.url, "https://polygon.example/https://x");
    assert_eq!(t.to.to_hex(), USDC);
    let empty = send_tx(to, "0x", 1, 1, u64::MAX, u64::MAX, 0, "http://n");
    assert!(empty.data.is_empty());
    assert_eq!(empty.max_fee_per_gas, u64::MAX);
    assert_eq!(empty.url, "http://n");
}

#[test]
fn send_tx_data_that_would_panic() {
    assert!(!send_tx_data_valid("0"));
    assert!(!send_tx_data_valid("0xabc"));
    assert!(!send_tx_data_valid("0xzz"));
    assert!(send_tx_data_valid("0x00"));
    assert!(send_tx_data_valid("é00"));
    assert!(!send_tx_data_valid("é0"));
}
