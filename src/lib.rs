//! Commit history windows and git-format patch rendering over a version-controlled tree.
pub mod commit;
pub mod cutoff;
pub mod document;
pub mod oid;
pub mod patch;
pub mod text;
pub mod trailers;
pub mod walk;

pub use commit::{Commit, Signature};
pub use document::{render_diff, Algorithm, BlobPair, BlobText, DiffError};
pub use oid::ObjectId;
pub use patch::PathChange;
pub use trailers::{TrailerValues, Trailers};
pub use walk::{window, Cutoffs, TraversalMode, WalkEntry};
