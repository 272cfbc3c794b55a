//! The HTTP/1 and HTTP/2 bootstrap listener.
pub mod dispatch;
