//! Edit file tool: the text substitution an edit performs on a file's bytes.
//! Reading and writing the file is left to the caller.

use vstd::prelude::*;

use crate::agent::tools::allowed_dir::AllowedDirectoriesConfig;
use crate::agent::tools::ToolError;
use crate::text::{
    chars_of, count_chars, loose_count, loose_count_chars, loose_replace_chars, loose_replace_n,
    push_decimal, push_str, replace_all_chars, replace_chars, spec_count,
    spec_decimal, spec_replace, spec_replace_n, spec_utf8_lossy, string_of, utf8_lossy,
};

verus! {

pub struct EditFileTool {
    pub allowed_dirs_config: AllowedDirectoriesConfig,
}

/// `raw` holds a CR LF pair at `i`.
pub open spec fn crlf_at(raw: Seq<u8>, i: int) -> bool {
    0 <= i && i + 1 < raw.len() && raw[i] == 13 && raw[i + 1] == 10
}

/// `raw` holds a CR LF pair.
pub open spec fn has_crlf(raw: Seq<u8>) -> bool {
    exists|i: int| #[trigger] crlf_at(raw, i)
}

/// `s` with CR LF pairs turned into LF.
pub open spec fn to_lf(s: Seq<char>) -> Seq<char> {
    spec_replace(s, "\r\n"@, "\n"@)
}

/// How many times `old` is found in `content`: its exact occurrences, or,
/// when there are none, its loose matches, where each run of spaces and
/// tabs in `old` stands for any non-empty run of spaces and tabs.
pub open spec fn match_count(content: Seq<char>, old: Seq<char>) -> nat {
    if spec_count(content, old) > 0 {
        spec_count(content, old)
    } else {
        loose_count(content, old)
    }
}

/// `content` with its first `n` matches of `old` replaced by `new`: the
/// exact occurrences when there are any, else the loose matches.
pub open spec fn replace_matches(content: Seq<char>, old: Seq<char>, new: Seq<char>, n: nat) -> Seq<
    char,
> {
    if spec_count(content, old) > 0 {
        spec_replace_n(content, old, new, n)
    } else {
        loose_replace_n(content, old, new, n)
    }
}

/// The new contents after replacing `old` by `new` in a file whose bytes
/// are `raw` (line endings compared as LF, the file's CR LF endings
/// restored; runs of spaces and tabs compared loosely when `old` is not
/// found exactly), or `None` when the edit is refused.
pub open spec fn spec_edit(
    raw: Seq<u8>,
    old: Seq<char>,
    new: Seq<char>,
    replace_all: bool,
) -> Option<Seq<char>> {
    let content = to_lf(spec_utf8_lossy(raw));
    let old_n = to_lf(old);
    let count = match_count(content, old_n);
    if count == 0 {
        None
    } else if count > 1 && !replace_all {
        None
    } else {
        let new_n = to_lf(new);
        let edited = if replace_all {
            replace_matches(content, old_n, new_n, content.len())
        } else {
            replace_matches(content, old_n, new_n, 1)
        };
        Some(if has_crlf(raw) { spec_replace(edited, "\n"@, "\r\n"@) } else { edited })
    }
}

impl EditFileTool {
    pub fn new(allowed_dirs_config: AllowedDirectoriesConfig) -> (res: Self)
        ensures
            res.allowed_dirs_config == allowed_dirs_config,
    {
        EditFileTool { allowed_dirs_config }
    }

    /// Checks the request before the file is touched: a path and the text
    /// to replace are required.
    pub fn check_args(path: &str, old_text: &str) -> (res: Result<(), ToolError>)
        ensures
            path@.len() == 0 ==> (res matches Err(ToolError::InvalidArgs(m)) && m@
                == "path is required"@),
            path@.len() > 0 && old_text@.len() == 0 ==> (res matches Err(ToolError::InvalidArgs(m))
                && m@ == "old_text is required"@),
            path@.len() > 0 && old_text@.len() > 0 ==> res is Ok,
    {
        if path.is_empty() {
            return Err(ToolError::InvalidArgs(String::from_str("path is required")));
        }
        if old_text.is_empty() {
            return Err(ToolError::InvalidArgs(String::from_str("old_text is required")));
        }
        Ok(())
    }

    /// The new contents of the file at `path` (as given) whose bytes are
    /// `raw`, after replacing `old_text` by `new_text` (every occurrence when
    /// `replace_all`, else the single one). Runs of spaces and tabs in
    /// `old_text` match any runs of spaces and tabs when it is not found
    /// exactly.
    pub fn edit(path: &str, raw: &[u8], old_text: &str, new_text: &str, replace_all: bool) -> (res:
        Result<String, ToolError>)
        ensures
            match spec_edit(raw@, old_text@, new_text@, replace_all) {
                Some(c) => res matches Ok(r) && r@ == c,
                None => res is Err,
            },
            match_count(to_lf(spec_utf8_lossy(raw@)), to_lf(old_text@)) == 0 ==> (res matches Err(
                ToolError::Execution(m),
            ) && m@ == "old_text not found in "@ + path@
                + ". Provide more context to make it unique."@),
            ({
                let count = match_count(to_lf(spec_utf8_lossy(raw@)), to_lf(old_text@));
                count > 1 && !replace_all ==> (res matches Err(ToolError::Execution(m)) && m@
                    == "Warning: old_text appears "@ + spec_decimal(count)
                    + " times. Provide more context to make it unique, or set replace_all=true."@)
            }),
    {
        proof {
            reveal_strlit("\r\n");
            reveal_strlit("\n");
            reveal_strlit("old_text not found in ");
            reveal_strlit(". Provide more context to make it unique.");
            reveal_strlit("Warning: old_text appears ");
            reveal_strlit(" times. Provide more context to make it unique, or set replace_all=true.");
        }
        let uses_crlf = contains_crlf(raw);
        let text = utf8_lossy(raw);
        let content = replace_all_chars(&chars_of(text.as_str()), "\r\n", "\n");
        let old_n = replace_all_chars(&chars_of(old_text), "\r\n", "\n");
        let exact = count_chars(&content, &old_n);
        let count = if exact > 0 {
            exact
        } else {
            loose_count_chars(&content, &old_n)
        };
        if count == 0 {
            let mut out: Vec<char> = Vec::new();
            push_str(&mut out, "old_text not found in ");
            push_str(&mut out, path);
            push_str(&mut out, ". Provide more context to make it unique.");
            return Err(ToolError::Execution(string_of(&out)));
        }
        if count > 1 && !replace_all {
            let mut out: Vec<char> = Vec::new();
            push_str(&mut out, "Warning: old_text appears ");
            push_decimal(&mut out, count as u64);
            push_str(
                &mut out,
                " times. Provide more context to make it unique, or set replace_all=true.",
            );
            return Err(ToolError::Execution(string_of(&out)));
        }
        let new_n = replace_all_chars(&chars_of(new_text), "\r\n", "\n");
        let n = if replace_all {
            content.len()
        } else {
            1
        };
        let edited = if exact > 0 {
            replace_chars(&content, &old_n, &new_n, n)
        } else {
            loose_replace_chars(&content, &old_n, &new_n, n)
        };
        let final_content = if uses_crlf {
            replace_all_chars(&edited, "\n", "\r\n")
        } else {
            edited
        };
        Ok(string_of(&final_content))
    }

    /// The answer to a successful edit of the file at `path` (as displayed).
    pub fn success_message(path: &str) -> (res: String)
        ensures
            res@ == "Successfully edited "@ + path@,
    {
        proof {
            reveal_strlit("Successfully edited ");
        }
        let mut out: Vec<char> = Vec::new();
        push_str(&mut out, "Successfully edited ");
        push_str(&mut out, path);
        string_of(&out)
    }
}

/// Whether `raw` holds a CR LF pair.
fn contains_crlf(raw: &[u8]) -> (res: bool)
    ensures
        res == has_crlf(raw@),
{
    let n = raw.len();
    let mut i: usize = 0;
    if n < 2 {
        assert forall|j: int| !#[trigger] crlf_at(raw@, j) by {}
        return false;
    }
    while i < n - 1
        invariant
            n == raw@.len(),
            n >= 2,
            forall|j: int| 0 <= j < i ==> !#[trigger] crlf_at(raw@, j),
        decreases n - i,
    {
        if raw[i] == 13 && raw[i + 1] == 10 {
            assert(crlf_at(raw@, i as int));
            return true;
        }
        i = i + 1;
    }
    assert forall|j: int| !#[trigger] crlf_at(raw@, j) by {
        if crlf_at(raw@, j) {
            assert(j < i);
        }
    }
    false
}

} // verus!
