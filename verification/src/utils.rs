//! Arithmetic.

pub mod buy_token;
