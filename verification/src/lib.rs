//! A terminal ledger-rendering library: width-tracked styled text, a
//! side-by-side panel compositor, currency formatting, balance accumulation,
//! and the calendar / day-detail renderers built on top of them.

pub mod account;
pub mod calendar;
pub mod balance;
pub mod dates;
pub mod digits;
pub mod graph;
pub mod pence_to_pound_utils;
pub mod sidebyside;
pub mod styled;
pub mod transaction;

pub use account::Account;
pub use sidebyside::SideBySide;
pub use styled::ColouredString;
pub use styled::Style;
pub use transaction::Transaction;
