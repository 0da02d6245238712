//! Resolution of tool specifiers into installed tool versions, and the
//! protocol by which those versions are removed and derived state repaired.
//!
//! The library decides; the host acts. Resolution takes what the backends
//! report and yields the final list of versions to remove. A run over that
//! list is a [`Session`]: it names the action that the host is to carry out,
//! takes the host's answer, and names the next.

pub mod command;
pub mod entry;
pub mod listing;
pub mod matcher;
pub mod protocol;
pub mod resolve;
pub mod session;
pub mod sorting;
pub mod specifier;
pub mod text;

pub use command::Uninstall;
pub use entry::ResolvedToolVersion;
pub use listing::ResolutionError;
pub use matcher::Origin;
pub use protocol::{Action, Failure, Phase, RepairStep};
pub use resolve::Lookup;
pub use session::{Event, Session};
pub use specifier::ToolSpecifier;
