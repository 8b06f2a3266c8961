//! The decisions of a small spot-trading bot for BTC/USDT.
//!
//! Everything here is a function of its arguments, and says in its contract what it
//! returns: reading the market ([`features`], [`regime`], [`signals`]), sizing a trade
//! ([`risk`], [`sizing`], [`money`]), keeping the books ([`state`]), one run as a state
//! machine ([`start`], [`tick`], [`pipeline`]), what is sent to the exchange ([`execution`],
//! [`binance_auth`], [`binance_orders`], [`http_policy`]), and replaying history
//! ([`replay`], [`backtest`], [`walk`], [`metrics`], [`report`]).
//!
//! Amounts are fixed-point numbers in steps of `10^-12` (see [`fixed`]). Roots and
//! logarithms are handed in.
pub mod account;
pub mod alert;
pub mod app;
pub mod backtest;
pub mod backtest_laws;
pub mod binance_auth;
pub mod binance_orders;
pub mod candles;
pub mod cli;
pub mod clock;
pub mod config;
pub mod control;
pub mod dashboard;
pub mod diagnostics;
pub mod exchange_info;
pub mod execution;
pub mod features;
pub mod fixed;
pub mod history;
pub mod http_policy;
pub mod json;
pub mod log_say;
pub mod metrics;
pub mod metrics_laws;
pub mod money;
pub mod numeral;
pub mod order;
pub mod paths;
pub mod pipeline;
pub mod regime;
pub mod replay;
pub mod report;
pub mod report_json;
pub mod report_laws;
pub mod risk;
pub mod signals;
pub mod sizing;
pub mod slack;
pub mod start;
pub mod state;
pub mod telemetry;
pub mod text;
pub mod text_laws;
pub mod tick;
pub mod tick_laws;
pub mod walk;
pub mod windows;
