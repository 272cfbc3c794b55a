//! Translation between upstream HTTP responses and what the client gets.
pub mod response;
