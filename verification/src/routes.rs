//! What each request decides: who may see or change what, which rows are
//! read and written for it, and what is shown in answer.

pub mod auth;
pub mod listings;
pub mod messages;
