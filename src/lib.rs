// Routes files that arrive in an inbox directory into the folders of known
// projects: name matching, duplicate suppression, write stabilization,
// destination routing, and the decisions behind moving files and unpacking
// archives. The filesystem work itself is left to the caller.

pub mod text;
pub mod matcher;
pub mod recency;
pub mod stability;
pub mod routing;
pub mod event;
pub mod arrival;
pub mod mover;
pub mod archive;
pub mod session;
