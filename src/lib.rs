//! Recipe economics for a market-driven game economy: prices, tax, time,
//! quantities, rankings and per-recipe breakdowns, each with a proved contract.

pub mod types;
pub mod prices;
pub mod config;
pub mod pareto_sort;
pub mod ranking;
pub mod breakdown;
pub mod laws;
pub mod api;
pub mod file_io;
pub mod helpers;
pub mod results_writer;
pub mod requirements;
pub mod collapsible;
pub mod counter;
pub mod item_search;
pub mod recipes;
