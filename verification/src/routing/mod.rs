//! Route matching: host patterns, path-prefix boundaries and the preference
//! order between candidate routes.
pub mod decision;
pub mod host;
pub mod matcher;
pub mod route;
pub mod util;
