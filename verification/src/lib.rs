//! Token-conservation rule for a fungible token: the amount that a transaction
//! takes in through the cells of one script may not grow on the way out, unless
//! the token's owner takes part in the transaction.
//!
//! - `owner` looks for the owner among the cells that the transaction spends;
//! - `accounting` adds up the amounts of a group of cells;
//! - `validator` puts the two together and decides;
//! - `amount` reads one amount from a cell's data;
//! - `host` asks the host that runs the script for the cells;
//! - `laws` states what holds of every validation.
//!
//! Each stage comes twice: with `_with`, against any function that answers for
//! the cells, and without, against the host.

pub mod accounting;
pub mod amount;
pub mod error;
pub mod host;
pub mod laws;
pub mod owner;
pub mod source;
pub mod validator;
