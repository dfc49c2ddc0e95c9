//! One module per instruction. Each holds, as plain values, what the
//! instruction reads from its accounts, and a `handler` that decides what it
//! moves and records, or why it refuses.

pub mod admin;
pub mod deposit;
pub mod initialize;
pub mod swap;
pub mod withdraw;
