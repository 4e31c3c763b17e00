//! Write file tool: the checks on a write request and its answer. Creating
//! directories and writing the file is left to the caller.

use vstd::prelude::*;

use crate::agent::tools::allowed_dir::AllowedDirectoriesConfig;
use crate::agent::tools::ToolError;
use crate::text::{push_decimal, push_str, spec_decimal, string_of};

verus! {

pub struct WriteFileTool {
    pub allowed_dirs_config: AllowedDirectoriesConfig,
}

impl WriteFileTool {
    pub fn new(allowed_dirs_config: AllowedDirectoriesConfig) -> (res: Self)
        ensures
            res.allowed_dirs_config == allowed_dirs_config,
    {
        WriteFileTool { allowed_dirs_config }
    }

    /// Checks the request before anything is written: a path and some
    /// content are required.
    pub fn check_args(path: &str, content: &str) -> (res: Result<(), ToolError>)
        ensures
            path@.len() == 0 ==> (res matches Err(ToolError::InvalidArgs(m)) && m@
                == "path is required"@),
            path@.len() > 0 && content@.len() == 0 ==> (res matches Err(ToolError::InvalidArgs(m))
                && m@ == "content is required"@),
            path@.len() > 0 && content@.len() > 0 ==> res is Ok,
    {
        if path.is_empty() {
            return Err(ToolError::InvalidArgs(String::from_str("path is required")));
        }
        if content.is_empty() {
            return Err(ToolError::InvalidArgs(String::from_str("content is required")));
        }
        Ok(())
    }

    /// The answer to a successful write of `content` to `path` (as
    /// displayed), counting the bytes written.
    pub fn success_message(content: &str, path: &str) -> (res: String)
        ensures
            res@ == "Successfully wrote "@ + spec_decimal(content.len() as nat) + " bytes to "@
                + path@,
    {
        proof {
            reveal_strlit("Successfully wrote ");
            reveal_strlit(" bytes to ");
        }
        let mut out: Vec<char> = Vec::new();
        push_str(&mut out, "Successfully wrote ");
        push_decimal(&mut out, content.len() as u64);
        push_str(&mut out, " bytes to ");
        push_str(&mut out, path);
        string_of(&out)
    }
}

} // verus!
