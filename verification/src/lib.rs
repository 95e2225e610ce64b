//! Trading-state engine for short-duration binary event contracts.
//!
//! The engine decides and keeps the books; it performs no input or output.
//! Whoever drives it reads the clock, the files, the exchange, the price feed
//! and the reasoning service, and hands their answers in as plain values.
//!
//! - [`position_manager`]: open positions and cached order books per market.
//! - [`engine`] and [`exit`]: the protocols of an entry cycle and of an
//!   early exit, one step at a time.
//! - [`risk`] and [`signal`]: vetoes, sizing, and the synthesis of signals.
//! - [`ledger`], [`stats`], [`cumulative`] and [`ledger_laws`]: the ledger's
//!   text, the figures derived from it, and what holds of both.
//! - [`stream`] and [`coordinator`]: the life of a streaming connection and
//!   what the event loop decides on its notices.
//! - [`kalshi`], [`binance`] and [`brain`]: the wire formats of the exchange,
//!   of the price stream and of the reasoning service.
//! - [`config`] and [`safety`]: the settings and the checks at startup.
//! - [`text`], [`decimal`], [`json`], [`clock`], [`keyed`] and [`types`]:
//!   what the others are built from.

pub mod binance;
pub mod brain;
pub mod clock;
pub mod config;
pub mod coordinator;
pub mod cumulative;
pub mod decimal;
pub mod engine;
pub mod exit;
pub mod json;
pub mod kalshi;
pub mod keyed;
pub mod ledger;
pub mod ledger_laws;
pub mod position_manager;
pub mod risk;
pub mod safety;
pub mod signal;
pub mod stats;
pub mod stream;
pub mod text;
pub mod types;
