//! Runtime configuration: the configuration as read, and its normalization
//! into the policies that the runtime enforces.
pub mod model;
pub mod policies;
pub mod validate;
