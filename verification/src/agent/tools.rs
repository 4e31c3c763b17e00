//! Tool system: the errors tools report and the parts of each tool that
//! decide what to do and what to answer.

use vstd::prelude::*;

verus! {

/// The kind of an I/O error (std's `io::ErrorKind`), as far as the tools
/// tell kinds apart.
#[derive(Debug, Clone, Copy, PartialEq, Eq)]
pub enum IoErrorKind {
    NotFound,
    PermissionDenied,
    AlreadyExists,
    InvalidInput,
    InvalidData,
    TimedOut,
    Interrupted,
    UnexpectedEof,
    Unsupported,
    OutOfMemory,
    /// Any other kind.
    Other,
}

/// Errors that can occur during tool execution.
#[derive(Debug, Clone, PartialEq, Eq)]
pub enum ToolError {
    /// Tool was called with invalid arguments
    InvalidArgs(String),
    /// Tool execution itself failed
    Execution(String),
    /// I/O error (file system, network, etc.); carries the error's kind and
    /// message
    Io(IoErrorKind, String),
    /// Requested tool does not exist in the registry
    NotFound(String),
}

impl ToolError {
    /// The text the error is shown as.
    pub open spec fn spec_message(self) -> Seq<char> {
        match self {
            ToolError::InvalidArgs(s) => "Invalid arguments: "@ + s@,
            ToolError::Execution(s) => "Execution failed: "@ + s@,
            ToolError::Io(_, s) => "IO error: "@ + s@,
            ToolError::NotFound(s) => "Tool not found: "@ + s@,
        }
    }

    /// The text the error is shown as.
    pub fn message(&self) -> (res: String)
        ensures
            res@ == self.spec_message(),
    {
        let (prefix, detail) = match self {
            ToolError::InvalidArgs(s) => ("Invalid arguments: ", s),
            ToolError::Execution(s) => ("Execution failed: ", s),
            ToolError::Io(_, s) => ("IO error: ", s),
            ToolError::NotFound(s) => ("Tool not found: ", s),
        };
        let mut res = String::from_str(prefix);
        res.append(detail.as_str());
        res
    }
}

} // verus!

pub mod allowed_dir;
pub mod exec;
pub mod filesystem;
pub mod web_fetch;
pub mod web_search;

pub use allowed_dir::AllowedDirectoriesConfig;
pub use exec::ExecTool;
pub use filesystem::edit_file::EditFileTool;
pub use filesystem::list_dir::ListDirTool;
pub use filesystem::read_file::ReadFileTool;
pub use filesystem::write_file::WriteFileTool;
