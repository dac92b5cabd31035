//! Cross-venue arbitrage detection over two order books, with the rules of the
//! venue connectors and of the coordinator that feeds the books.
//!
//! Every price and quantity is a [`decimal::Decimal`]. A venue's numbers are
//! turned into decimals when they arrive, before they reach a book; a number
//! that no decimal can hold gives no level. Sums, differences and products are
//! `rust_decimal`'s, and a step that does not fit ends a detection without a
//! result.

pub mod coordinator;
pub mod decimal;
pub mod exchanges;
pub mod orderbook;
pub mod parsing_utils;
pub mod text;
