//! Governance proxy for Model Context Protocol servers: every governed call is
//! given a content-addressed permit before it runs and a receipt after it
//! returns.
//!
//! This library holds the rules: what is read from a line of JSON-RPC, what is
//! recorded about it, which policy rule decides a call, who is told of an
//! approval. The program around it moves bytes.

pub mod approval;
pub mod books;
pub mod clock;
pub mod control;
pub mod json;
pub mod jsonrpc;
pub mod policy;
pub mod proxy;
pub mod receipts;
pub mod startup;
pub mod table;
pub mod text;
pub mod traffic;
pub mod trail;
