//! Decision logic of a cross-chain arbitrage bot: amounts, addresses, router requests and
//! answers, the table of quotes shared by the chains, and what an arbitrage attempt does.

pub mod address;
pub mod amount;
pub mod arb;
pub mod chains;
pub mod decimal;
pub mod json;
pub mod routers;
pub mod structs;
pub mod text;
pub mod utils;

pub use address::Address;
pub use amount::Amount;
pub use arb::{arb_is_profitable, send_tx, try_execute_arb};
pub use routers::{call_custom_router, call_squid_router, simulate_squid_router, simulate_swap_paraswap};
pub use structs::{Chain, ChainName, SquidRouterResult, Token};
pub use utils::make_same_digits;
