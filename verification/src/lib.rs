pub mod errors;
pub mod fs_path;
pub mod event;
pub mod path_filter;
pub mod journal;
pub mod squirrel;
pub mod server;
pub mod snapshot_viewer;
