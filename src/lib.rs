//! Loading of git configuration files with include resolution, and the small
//! pieces of git plumbing that sit next to it.

pub mod bytes;
pub mod credentials;
pub mod parse;
pub mod glob;
pub mod paths;
pub mod store;
pub mod load;
pub mod laws;
pub mod progress;
pub mod protocol;
pub mod refname;
pub mod transport;
