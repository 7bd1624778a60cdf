//! tickrush: the market-cache logic of a reader of saved Betfair Exchange price
//! streams.
//!
//! Stream messages (JSON lines) update a cache of one market: its status, its
//! definition and, for each runner, its ladders of prices available to back and
//! to lay, its traded volume and its starting prices.  After each message the
//! cache yields a market book, a snapshot of the market.
//!
//! Modules:
//! - [`json`]: the JSON values messages are made of, and their accessors;
//! - [`floatbits`]: binary64 values kept as bit patterns;
//! - [`ladder`]: price ladders;
//! - [`runner`]: the cache of one runner and its runner books;
//! - [`definition`]: market definitions;
//! - [`market`]: the market cache and its market books;
//! - [`dict`]: market books as plain dictionaries;
//! - [`parse`]: what a message line contributes;
//! - [`stream`]: replaying messages into market books;
//! - [`laws`]: properties of the cache across updates;
//! - [`effects`]: what each update does to each field.
use vstd::prelude::*;

pub mod floatbits;
pub mod text;
pub mod json;
pub mod ladder;
pub mod runner;
pub mod definition;
pub mod market;
pub mod parse;
pub mod stream;
pub mod dict;
pub mod laws;
pub mod effects;

pub use crate::definition::{MarketDefinition, MarketDefinitionRunner};
pub use crate::json::{JsonNumber, JsonValue};
pub use crate::ladder::PriceSize;
pub use crate::market::{MarketBook, MarketCache};
pub use crate::parse::{ParsedMessage, is_gzipped};
pub use crate::runner::{ExchangePrices, RunnerBook, StartingPrices};
pub use crate::stream::PricesIterator;

verus! {

} // verus!
