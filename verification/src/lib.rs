//! A peer-to-peer marketplace core: listings, buyer/seller conversations, an
//! append-only message ledger with unread accounting, and offer negotiation,
//! kept in a relational store whose invariants are proved.

pub mod auth;
pub mod db;
mod host;
pub mod models;
pub mod order;
pub mod routes;
pub mod seqs;
pub mod text;
