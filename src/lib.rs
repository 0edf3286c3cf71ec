//! Unit conversion core: a policy-driven tokenizer, the grammars built on it,
//! a tagged unit database and the session recall rules.
pub mod text;
pub mod token;
pub mod floatlit;
pub mod lexorder;
pub mod units;
pub mod config;
pub mod loader;
pub mod expr;
pub mod convert;
pub mod session;
pub mod interpret;
pub mod options;
pub mod laws;
