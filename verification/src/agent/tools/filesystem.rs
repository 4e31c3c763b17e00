//! File system tools: read, write, edit and list files, all sandboxed by
//! [`AllowedDirectoriesConfig`](super::AllowedDirectoriesConfig).

pub mod edit_file;
pub mod list_dir;
pub mod read_file;
pub mod write_file;
