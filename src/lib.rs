//! Reconstructs a game's logical asset tree from a hashed object store and
//! from packaged version archives.

pub mod error;
pub mod hashed;
pub mod jar;
pub mod path;
pub mod util;
pub mod version;

pub use error::ExtractError;
pub use hashed::{
    hashed_output_dir, index_file_path, plan_copies, CopyJob, CopyOutcome, HashedProgress,
    HashedSubcommand, IndexFile, IndexFileLocation, Object,
};
pub use jar::{entry_output_path, Archive, ArchiveAction, ExtractedContents, JarSubcommand};
pub use path::{file_name, join};
pub use util::{hashed_assets_dir, versions_dir, OptionExt};
pub use version::{
    InvalidVersion, Version, VersionAction, VersionEvent, VersionRun, VersionStage,
    VersionSubcommand,
};
