//! Verified decision core of a trading-strategy research platform:
//! market-structure detection, market-making policy and grid sizing,
//! trend policy, backtest accounting, sweep ranking, and the run
//! orchestrator's pure logic.

pub mod types;
pub mod candle;
pub mod atr;
pub mod pivot;
pub mod structure;
pub mod bos;
pub mod pullback;
pub mod mm_policy;
pub mod exec_sim;
pub mod trend_policy;
pub mod rebalance;
pub mod ema;
pub mod feed;
pub mod grid;
pub mod fills;
pub mod report;
pub mod trend_backtest;
pub mod mm_backtest;
pub mod sweep;
pub mod tick;
pub mod driver;
pub mod textnum;
pub mod orchestrator;
pub mod trusted;
pub mod worker;
pub mod transition;
pub mod trend_transition;

pub use types::Money;
pub use types::Price;
pub use types::Qty;
pub use types::Ratio;
pub use types::Bps;
pub use types::TimestampMs;
pub use types::Equity;
pub use types::SCALE;
