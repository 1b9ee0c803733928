//! Lifecycle management for the output files of a data-producing run.
//!
//! A [`descriptor::FileManager`] describes one output file (or a numbered
//! series of sibling files): where it lives under the project root, its name
//! and extension, and an optional header line.  A
//! [`project::ProjectManager`] carries the project-wide root path, default
//! extension and collision policy, and drives batch initialization of a set
//! of descriptors.  All file creation is expressed against a
//! [`disk::Disk`] value, an in-memory model of the output tree that records
//! the directory and file operations it was asked to perform, so the whole
//! lifecycle (path resolution, collision policies, archiving, series
//! materialization) is verified; a thin unverified runner replays the
//! recorded operations onto the real filesystem.

pub mod builder;
pub mod descriptor;
pub mod disk;
pub mod laws;
pub mod project;
pub mod text;

pub use builder::BuilderMethods;
pub use builder::TargetFromBuilder;
pub use descriptor::DescModel;
pub use descriptor::FileManager;
pub use disk::Disk;
pub use disk::FsAction;
pub use project::OverwriteType;
pub use project::ProjectManager;
pub use project::ProjectModel;
pub use text::usize_to_dec;
