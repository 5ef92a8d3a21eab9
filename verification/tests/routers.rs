use axelar_arbs::json::{read_json, trim_quotes_str, JsonNode};
use axelar_arbs::routers::{
    paraswap_price_request, paraswap_transaction, read_paraswap_price, read_squid_answer, side_is_sell,
    squid_route_request, ParaswapAction, ParaswapEvent, ParaswapQuery, RouterEvent, SquidAction, SquidQuery,
};
use axelar_arbs::{call_custom_router, call_squid_router, simulate_squid_router, simulate_swap_paraswap};
use axelar_arbs::{Address, Amount, SquidRouterResult, Token};

fn parse(s: &str) -> JsonNode {
    read_json(s).unwrap()
}

fn addr(hex: &str) -> Address {
    Address::parse(hex).unwrap()
}

const A1: &str = "1111111111111111111111111111111111111111";
const A2: &str = "2222222222222222222222222222222222222222";
const W: &str = "abcdefabcdefabcdefabcdefabcdefabcdefabcd";

fn squid_query() -> SquidQuery {
    SquidQuery {
        from_chain: 137,
        to_chain: 56,
        token_in: addr(A1),
        token_out: addr(A2),
        amount: Amount::parse("1000").unwrap(),
        from_address: addr(W),
        to_address: addr(W),
        slippage: 2,
    }
}

#[test]
fn trim_quotes_removes_all_outer_quotes() {
    assert_eq!(trim_quotes_str("\"abc\""), "abc");
    assert_eq!(trim_quotes_str("\"\"a\"b\"\""), "a\"b");
    assert_eq!(trim_quotes_str("123"), "123");
    assert_eq!(trim_quotes_str("\"\"\""), "");
    assert_eq!(trim_quotes_str(""), "");
    let once = trim_quotes_str("\"\"x\"");
    assert_eq!(trim_quotes_str(&once), once);
}

#[test]
fn json_get_finds_members() {
    let j = parse(r#"{"a": {"b": "x"}, "c": 5}"#);
    assert_eq!(j.get("c").unwrap().text, "5");
    assert_eq!(j.get("a").unwrap().get("b").unwrap().text, "\"x\"");
    assert_eq!(j.get("a").unwrap().get("b").unwrap().str_value.as_deref(), Some("x"));
    assert!(j.get("d").is_none());
    assert!(j.get("c").unwrap().get("x").is_none());
}

#[test]
fn squid_url_is_exact() {
    let url = squid_route_request(&squid_query());
    assert_eq!(
        url,
        format!(
            "https://api.0xsquid.com/v1/route?fromChain=137&toChain=56&fromToken=0x{}&toToken=0x{}&fromAmount=1000&fromAddress={}&toAddress=0x{}&slippage=2&quoteOnly=false&enableExpress=true&receiveGasOnDestination=false",
            A1, A2, W, W
        )
    );
}

#[test]
fn squid_answer_is_read() {
    let j = parse(&format!(
        r#"{{"route": {{"estimate": {{"toAmountMin": "998"}}, "transactionRequest": {{"targetAddress": "0x{}", "data": "0xdeadbeef", "value": "15", "gasLimit": "300000", "maxFeePerGas": 100, "maxPriorityFeePerGas": "2"}}}}}}"#,
        A2
    ));
    let (amount, res) = read_squid_answer(&j).unwrap();
    assert_eq!(amount.to_text(), "998");
    assert_eq!(res.target_address.to_hex(), A2);
    assert_eq!(res.data, "0xdeadbeef");
    assert_eq!(res.value, "15");
    assert_eq!(res.gas_limit, "300000");
    assert_eq!(res.max_fee_per_gas, "100");
    assert_eq!(res.max_priority_fee, "2");
    assert!(!res.is_default());
}

#[test]
fn squid_answer_without_route_gives_defaults() {
    let (amount, res) = read_squid_answer(&parse(r#"{"error": "no route"}"#)).unwrap();
    assert_eq!(amount.to_text(), "0");
    assert!(res.is_default());
    let (amount, res) = read_squid_answer(&parse(r#"{"route": {"estimate": {"toAmountMin": 7}}}"#)).unwrap();
    assert_eq!(amount.to_text(), "7");
    assert!(res.is_default());
}

#[test]
fn squid_answer_errors() {
    let e = read_squid_answer(&parse(r#"{"route": {"estimate": {"toAmountMin": "1.5"}}}"#));
    assert_eq!(e.err().unwrap(), "invalid digit found in string");
    let e = read_squid_answer(&parse(r#"{"route": {"estimate": {"toAmountMin": ""}}}"#));
    assert_eq!(e.err().unwrap(), "cannot parse integer from empty string");
    let e = read_squid_answer(&parse(r#"{"route": {"transactionRequest": {"targetAddress": "0x12"}}}"#));
    assert!(e.is_err());
}

#[test]
fn return_leg_swaps_the_route() {
    let q = squid_query();
    let first = Ok((Amount::parse("998").unwrap(), SquidRouterResult::new_default()));
    let back = call_squid_router(&q, &first);
    assert_eq!(back.from_chain, 56);
    assert_eq!(back.to_chain, 137);
    assert_eq!(back.token_in.to_hex(), A2);
    assert_eq!(back.token_out.to_hex(), A1);
    assert_eq!(back.amount.to_text(), "998");
    assert_eq!(back.slippage, 2);
}

fn token(name: &str, hex: &str, decimals: u32, amount: u128) -> Token {
    Token { name: name.to_string(), address: addr(hex), decimals, amount_to_arb: amount }
}

#[test]
fn custom_router_builds_buy_and_sell() {
    let pair = (token("USDC", A1, 6, 1000), token("WETH", A2, 18, 1));
    let (buy, sell) = call_custom_router(137, &Amount::from_u128(1), &pair, addr(W));
    assert_eq!(buy.token_in_name, "USDC");
    assert_eq!(buy.token_out_name, "WETH");
    assert_eq!(buy.query.side, "BUY");
    assert_eq!(buy.query.token_in.to_hex(), A1);
    assert_eq!(buy.query.token0_decimals, 6);
    assert_eq!(buy.query.token1_decimals, 18);
    assert_eq!(sell.token_in_name, "WETH");
    assert_eq!(sell.token_out_name, "USDC");
    assert_eq!(sell.query.side, "SELL");
    assert_eq!(sell.query.token_in.to_hex(), A2);
    assert_eq!(sell.query.token0_decimals, 18);
    assert_eq!(sell.query.amount_in.to_text(), "1");
    assert_eq!(sell.query.wallet_address.to_hex(), W);
}

fn para_query(side: &str) -> ParaswapQuery {
    ParaswapQuery {
        side: side.to_string(),
        chain_id: 137,
        amount_in: Amount::parse("5000").unwrap(),
        token_in: addr(A1),
        token_out: addr(A2),
        token0_decimals: 6,
        token1_decimals: 18,
        wallet_address: addr(W),
        receiver_address: addr(W),
    }
}

#[test]
fn paraswap_price_url_is_exact() {
    assert_eq!(
        paraswap_price_request(&para_query("SELL")),
        format!(
            "https://apiv5.paraswap.io/prices?srcToken=0x{}&srcDecimals=6&destToken=0x{}&destDecimals=18&amount=5000&side=SELL&network=137&maxImpact=10",
            A1, A2
        )
    );
}

#[test]
fn paraswap_sell_reads_dest_amount_and_builds_body() {
    let price = parse(r#"{"priceRoute": {"destAmount": "777", "srcAmount": "5000"}}"#);
    match read_paraswap_price(&para_query("SELL"), &price) {
        ParaswapAction::Post { amount, url, body } => {
            assert_eq!(amount.to_text(), "777");
            assert_eq!(
                url,
                "https://apiv5.paraswap.io/transactions/137?gasPrice=50000000000&ignoreChecks=true&ignoreGasEstimate=true&onlyParams=false"
            );
            let mut m = serde_json::Map::new();
            let st = |x: String| serde_json::Value::String(x);
            m.insert("srcToken".to_string(), st(format!("0x{}", A1)));
            m.insert("destToken".to_string(), st(format!("0x{}", A2)));
            m.insert("srcAmount".to_string(), st("5000".to_string()));
            m.insert("destAmount".to_string(), st("1".to_string()));
            m.insert(
                "priceRoute".to_string(),
                serde_json::from_str(r#"{"destAmount": "777", "srcAmount": "5000"}"#).unwrap(),
            );
            m.insert("userAddress".to_string(), st(format!("0x{}", W)));
            m.insert("txOrigin".to_string(), st(format!("0x{}", W)));
            m.insert("partner".to_string(), st("paraswap.io".to_string()));
            m.insert("srcDecimals".to_string(), serde_json::Value::from(6u32));
            m.insert("destDecimals".to_string(), serde_json::Value::from(18u32));
            let expected = serde_json::Value::Object(m);
            assert_eq!(body, expected.to_string());
        }
        _ => panic!("expected a transaction request"),
    }
}

#[test]
fn paraswap_buy_reads_src_amount() {
    let price = parse(r#"{"priceRoute": {"destAmount": "777", "srcAmount": "4321"}}"#);
    match read_paraswap_price(&para_query("BUY"), &price) {
        ParaswapAction::Post { amount, body, .. } => {
            assert_eq!(amount.to_text(), "4321");
            assert!(body.starts_with("{\"destAmount\":\"5000\","));
            assert!(body.contains("\"srcAmount\":\"1\","));
        }
        _ => panic!("expected a transaction request"),
    }
}

#[test]
fn paraswap_price_without_route_or_amount() {
    match read_paraswap_price(&para_query("SELL"), &parse(r#"{"error": "x"}"#)) {
        ParaswapAction::NoPrice(q) => {
            assert_eq!(q.amount.to_text(), "0");
            assert_eq!(q.data, "None");
            assert_eq!(q.to.to_hex(), "0000000000000000000000000000000000000000");
        }
        _ => panic!("expected the end of the simulation"),
    }
    match read_paraswap_price(&para_query("SELL"), &parse(r#"{"priceRoute": {"srcAmount": "1"}}"#)) {
        ParaswapAction::Failed(m) => assert_eq!(m, "Failed to get destination amount"),
        _ => panic!("expected a failure"),
    }
    match read_paraswap_price(&para_query("SELL"), &parse(r#"{"priceRoute": {"destAmount": "x"}}"#)) {
        ParaswapAction::Failed(m) => assert_eq!(m, "invalid digit found in string"),
        _ => panic!("expected a failure"),
    }
}

#[test]
fn paraswap_transaction_answers() {
    let a = || Amount::parse("777").unwrap();
    match paraswap_transaction(a(), &parse(&format!(r#"{{"to": "0x{}", "data": "0xabcd"}}"#, A2))) {
        ParaswapAction::Found(q) => {
            assert_eq!(q.amount.to_text(), "777");
            assert_eq!(q.data, "0xabcd");
            assert_eq!(q.to.to_hex(), A2);
            assert_eq!(q.gas.to_text(), "0");
        }
        _ => panic!("expected a quote"),
    }
    match paraswap_transaction(a(), &parse(r#"{"error": "x"}"#)) {
        ParaswapAction::NoCalldata(q) => {
            assert_eq!(q.data, "None");
            assert_eq!(q.amount.to_text(), "777");
        }
        _ => panic!("expected a quote without call data"),
    }
    let failed = |a: ParaswapAction| match a {
        ParaswapAction::Failed(m) => m,
        _ => panic!("expected a failure"),
    };
    assert_eq!(failed(paraswap_transaction(a(), &parse(r#"{"to": 5}"#))), "Failed to get address");
    assert_eq!(failed(paraswap_transaction(a(), &parse(&format!(r#"{{"to": "0x{}"}}"#, A2)))), "Failed to get data");
    let _ = failed(paraswap_transaction(a(), &parse(r#"{"to": "0x12", "data": "0x"}"#)));
}

#[test]
fn squid_simulation_gets_the_route_then_reads_the_body() {
    let q = squid_query();
    match simulate_squid_router(&q, &RouterEvent::Start) {
        SquidAction::Get(url) => assert_eq!(url, squid_route_request(&q)),
        _ => panic!("expected a request"),
    }
    let body = r#"{"route": {"estimate": {"toAmountMin": "990"}}}"#.to_string();
    match simulate_squid_router(&q, &RouterEvent::Answer(Ok(body))) {
        SquidAction::Done(Ok((amount, res))) => {
            assert_eq!(amount.to_text(), "990");
            assert!(res.is_default());
        }
        _ => panic!("expected a result"),
    }
    match simulate_squid_router(&q, &RouterEvent::Answer(Err("timed out".to_string()))) {
        SquidAction::Done(Err(m)) => assert_eq!(m, "timed out"),
        _ => panic!("expected the request's error"),
    }
    let expected = serde_json::from_str::<serde_json::Value>("not json").err().unwrap().to_string();
    match simulate_squid_router(&q, &RouterEvent::Answer(Ok("not json".to_string()))) {
        SquidAction::Done(Err(m)) => assert_eq!(m, expected),
        _ => panic!("expected the JSON error"),
    }
}

#[test]
fn quoted_and_bare_numbers_read_alike() {
    let quoted = read_squid_answer(&parse(r#"{"route": {"estimate": {"toAmountMin": "990"}}}"#)).unwrap();
    let bare = read_squid_answer(&parse(r#"{"route": {"estimate": {"toAmountMin": 990}}}"#)).unwrap();
    assert_eq!(quoted.0.to_text(), "990");
    assert_eq!(bare.0.to_text(), "990");
}

#[test]
fn read_json_gives_text_members_and_errors() {
    let j = read_json(r#"{"b": [1, 2], "a": "x"}"#).unwrap();
    assert_eq!(j.text, r#"{"a":"x","b":[1,2]}"#);
    assert_eq!(j.members.len(), 2);
    assert_eq!(j.members[0].0, "a");
    assert_eq!(j.members[0].1.str_value.as_deref(), Some("x"));
    assert!(j.members[1].1.members.is_empty());
    assert!(read_json("{").is_err());
    let nested = read_json(r#" { "o" : { "k" : [ "v" , 2 ] , "s" : "t\"q" } } "#).unwrap();
    assert_eq!(nested.text, r#"{"o":{"k":["v",2],"s":"t\"q"}}"#);
    let o = nested.get("o").unwrap();
    assert_eq!(o.text, r#"{"k":["v",2],"s":"t\"q"}"#);
    assert_eq!(o.get("k").unwrap().text, r#"["v",2]"#);
    assert!(o.get("k").unwrap().members.is_empty());
    assert_eq!(o.get("s").unwrap().str_value.as_deref(), Some("t\"q"));
    assert_eq!(read_json("nope").err().unwrap(), serde_json::from_str::<serde_json::Value>("nope").err().unwrap().to_string());
}

#[test]
fn side_is_read_without_regard_to_case() {
    assert!(side_is_sell("SELL"));
    assert!(side_is_sell("sell"));
    assert!(side_is_sell("Sell"));
    assert!(!side_is_sell("BUY"));
    assert!(!side_is_sell("sells"));
}

#[test]
fn paraswap_lowercase_sell_is_a_sell() {
    let q = para_query("sell");
    let mut q = q;
    q.amount_in = Amount::parse("1000").unwrap();
    match simulate_swap_paraswap(&q, ParaswapEvent::Start) {
        ParaswapAction::Get(url) => {
            assert_eq!(url, paraswap_price_request(&q));
            assert!(url.contains("&amount=1000&side=sell&"));
        }
        _ => panic!("expected the price request"),
    }
    let price = r#"{"priceRoute":{"srcAmount":"1000","destAmount":"2500"}}"#.to_string();
    let amount = match simulate_swap_paraswap(&q, ParaswapEvent::Price(Ok(price))) {
        ParaswapAction::Post { url, body, amount } => {
            assert!(url.starts_with("https://apiv5.paraswap.io/transactions/137?"));
            assert!(body.contains("\"srcAmount\":\"1000\""));
            assert!(body.contains("\"destAmount\":\"1\""));
            assert_eq!(amount.to_text(), "2500");
            amount
        }
        _ => panic!("expected the transaction request"),
    };
    let tx = r#"{"to":"0x216b4b4ba9f3e719726886d34a177484278bfcae","data":"0xabcd"}"#.to_string();
    match simulate_swap_paraswap(&q, ParaswapEvent::Transaction(amount, Ok(tx))) {
        ParaswapAction::Found(quote) => {
            assert_eq!(quote.amount.to_text(), "2500");
            assert_eq!(quote.data, "0xabcd");
            assert_eq!(quote.to.to_hex(), "216b4b4ba9f3e719726886d34a177484278bfcae");
        }
        _ => panic!("expected a quote"),
    }
}

#[test]
fn paraswap_simulation_errors() {
    let q = para_query("SELL");
    let failed = |a: ParaswapAction| match a {
        ParaswapAction::Failed(m) => m,
        _ => panic!("expected a failure"),
    };
    assert_eq!(failed(simulate_swap_paraswap(&q, ParaswapEvent::Price(Err("refused".to_string())))), "refused");
    let expected = serde_json::from_str::<serde_json::Value>("<html>").err().unwrap().to_string();
    assert_eq!(failed(simulate_swap_paraswap(&q, ParaswapEvent::Price(Ok("<html>".to_string())))), expected);
    let a = Amount::from_u128(3);
    assert_eq!(failed(simulate_swap_paraswap(&q, ParaswapEvent::Transaction(a, Err("reset".to_string())))), "reset");
    let a = Amount::from_u128(3);
    assert_eq!(failed(simulate_swap_paraswap(&q, ParaswapEvent::Transaction(a, Ok("".to_string())))),
        serde_json::from_str::<serde_json::Value>("").err().unwrap().to_string());
    match simulate_swap_paraswap(&q, ParaswapEvent::Price(Ok(r#"{"error":"x"}"#.to_string()))) {
        ParaswapAction::NoPrice(quote) => assert_eq!(quote.amount.to_text(), "0"),
        _ => panic!("expected no price"),
    }
}
