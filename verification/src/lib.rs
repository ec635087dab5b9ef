//! Output management for an image triage tool: where kept and set-aside
//! pictures land, how a project moves between its two layouts, and how
//! thumbnails are keyed.
//!
//! The library decides; it touches no file. A command of the tool gets a
//! script from the library and starts a run of it. The run asks whether a
//! path exists or for a step to be carried out, and decides from each
//! answer what comes next. A plan says what a run comes to on a disk that
//! holds what the directory listings say; what is stated of plans holds of
//! such runs.
pub mod conflict;
pub mod guarantees;
pub mod listing;
pub mod metadata;
pub mod migrate;
pub mod model;
pub mod order;
pub mod paths;
pub mod plan;
pub mod project;
pub mod run;
pub mod script;
pub mod settle;
pub mod stats;
pub mod text;
pub mod thumbnail;
pub mod triage;

pub use conflict::resolve_filename_conflict;
pub use metadata::OutputMetadata;
pub use model::{
    default_output_directory_mode, FileMove, Folder, FolderStats, ImageInfo, OutputImageInfo,
    Project, ProjectStats, ProjectSummary,
};
pub use paths::{get_folder_name, is_image_file, sanitize_name};
