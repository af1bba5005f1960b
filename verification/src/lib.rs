use vstd::prelude::*;

pub mod text;
pub mod json;
pub mod error;
pub mod field;
pub mod sort;
pub mod filter;
pub mod util;
pub mod screener;
pub mod typed;
pub mod resolve;
pub mod query;
pub mod screens;
pub mod format;
pub mod render;
pub mod cli;
pub mod logging;
pub mod regen;
