//! The data shapes the application exchanges with external producers and
//! consumers: chart-ready OHLC series, indicator series, signals, and the
//! inputs and outputs of a backtest run.
//!
//! The schema stores these; computing indicators or running a backtest is
//! an external producer's job and no logic for it lives here. Monetary and
//! ratio fields carry `f64` bit patterns, as in the row types.

use vstd::prelude::*;

use crate::timestamp::Timestamp;

verus! {

/// One OHLC(V) observation, keyed by its timestamp.
#[derive(Clone, Copy, Debug, PartialEq)]
pub struct OHLCData {
    pub timestamp: Timestamp,
    pub open: u64,
    pub high: u64,
    pub low: u64,
    pub close: u64,
    pub volume: Option<u64>,
}

/// Moving-average values at one instant; absent during warm-up.
#[derive(Clone, Copy, Debug, PartialEq)]
pub struct MAIndicator {
    pub timestamp: Timestamp,
    pub short: Option<u64>,
    pub medium: Option<u64>,
    pub long: Option<u64>,
}

/// A relative-strength-index value at one instant; absent during warm-up.
#[derive(Clone, Copy, Debug, PartialEq)]
pub struct RSIIndicator {
    pub timestamp: Timestamp,
    pub value: Option<u64>,
}

/// MACD values at one instant; absent during warm-up.
#[derive(Clone, Copy, Debug, PartialEq)]
pub struct MACDIndicator {
    pub timestamp: Timestamp,
    pub macd: Option<u64>,
    pub signal: Option<u64>,
    pub histogram: Option<u64>,
}

/// Bollinger-band values at one instant; absent during warm-up.
#[derive(Clone, Copy, Debug, PartialEq)]
pub struct BollingerBands {
    pub timestamp: Timestamp,
    pub middle: Option<u64>,
    pub upper: Option<u64>,
    pub lower: Option<u64>,
}

/// The indicator series of one instrument, one entry per kind.
#[derive(Clone, Debug, PartialEq)]
pub struct IndicatorData {
    pub ma: Vec<MAIndicator>,
    pub rsi: Vec<RSIIndicator>,
    pub macd: Vec<MACDIndicator>,
    pub bollinger_bands: Vec<BollingerBands>,
}

/// The kind of a trading signal.
#[derive(Clone, Copy, Debug, PartialEq, Eq, Structural)]
pub enum SignalType {
    Buy,
    Sell,
    Hold,
}

impl SignalType {
    /// The wire label of the kind.
    pub open spec fn spec_label(self) -> Seq<char> {
        match self {
            SignalType::Buy => "buy"@,
            SignalType::Sell => "sell"@,
            SignalType::Hold => "hold"@,
        }
    }

    /// The label the kind serialises to and from.
    pub fn label(&self) -> (m: &'static str)
        ensures
            m@ == self.spec_label(),
    {
        match self {
            SignalType::Buy => "buy",
            SignalType::Sell => "sell",
            SignalType::Hold => "hold",
        }
    }
}

/// A buy/sell/hold event for an instrument at an instant, with the rule
/// that produced it and the price at signal time.
#[derive(Clone, Debug, PartialEq)]
pub struct TradingSignal {
    pub timestamp: Timestamp,
    pub signal_type: SignalType,
    pub source: String,
    pub price: u64,
}

/// The inputs of one backtest run. The strategy parameters are an opaque
/// caller-supplied document, carried as text.
#[derive(Clone, Debug, PartialEq)]
pub struct BacktestParams {
    pub symbol: String,
    pub timeframe: String,
    pub start_date: Timestamp,
    pub end_date: Timestamp,
    pub initial_capital: u64,
    pub strategy_params: String,
}

/// The kind of a trade.
#[derive(Clone, Copy, Debug, PartialEq, Eq, Structural)]
pub enum TradeType {
    Buy,
    Sell,
}

impl TradeType {
    /// The wire label of the kind.
    pub open spec fn spec_label(self) -> Seq<char> {
        match self {
            TradeType::Buy => "buy"@,
            TradeType::Sell => "sell"@,
        }
    }

    /// The label the kind serialises to and from.
    pub fn label(&self) -> (m: &'static str)
        ensures
            m@ == self.spec_label(),
    {
        match self {
            TradeType::Buy => "buy",
            TradeType::Sell => "sell",
        }
    }
}

/// One simulated trade of a backtest run.
#[derive(Clone, Debug, PartialEq)]
pub struct TradeRecord {
    pub id: String,
    pub timestamp: Timestamp,
    pub trade_type: TradeType,
    pub price: u64,
    pub quantity: u64,
    pub amount: u64,
    pub fee: u64,
    pub remaining_capital: u64,
    pub position: u64,
}

/// The summary of one backtest run, with its trades.
#[derive(Clone, Debug, PartialEq)]
pub struct BacktestResult {
    pub id: String,
    pub symbol: String,
    pub timeframe: String,
    pub start_date: Timestamp,
    pub end_date: Timestamp,
    pub initial_capital: u64,
    pub final_capital: u64,
    pub total_return: u64,
    pub annual_return: u64,
    pub max_drawdown: u64,
    pub sharpe_ratio: u64,
    pub trade_count: usize,
    pub winning_trades: usize,
    pub losing_trades: usize,
    pub win_rate: u64,
    pub average_win: u64,
    pub average_loss: u64,
    pub profit_factor: u64,
    pub trades: Vec<TradeRecord>,
}

} // verus!
