//! List directory tool: which entries are shown and how a listing reads.
//! Reading the directories is left to the caller.

use vstd::prelude::*;

use crate::agent::tools::allowed_dir::AllowedDirectoriesConfig;
use crate::agent::tools::{IoErrorKind, ToolError};
use crate::text::{join_chars, push_decimal, push_str, spec_decimal, spec_join, str_eq, string_of};

verus! {

/// Tool for listing directory contents.
pub struct ListDirTool {
    /// Configuration for allowed directory access
    pub allowed_dirs_config: AllowedDirectoriesConfig,
}

/// One entry of a directory listing: its name (or, in a recursive listing,
/// its path relative to the listed directory) and whether it is a directory.
#[derive(Debug, Clone, PartialEq, Eq)]
pub struct DirEntryInfo {
    pub name: String,
    pub is_dir: bool,
}

/// Directories that are auto-ignored when listing (build, cache, artifacts).
pub open spec fn spec_ignore_dirs() -> Seq<Seq<char>> {
    seq![
        ".git"@,
        "node_modules"@,
        "__pycache__"@,
        ".venv"@,
        "venv"@,
        "dist"@,
        "build"@,
        ".tox"@,
        ".mypy_cache"@,
        ".pytest_cache"@,
        ".ruff_cache"@,
        ".coverage"@,
    ]
}

pub open spec fn spec_is_ignored(name: Seq<char>) -> bool {
    spec_ignore_dirs().contains(name)
}

/// The number of entries a listing shows by default.
pub open spec fn default_max_entries() -> nat {
    200
}

/// How an entry is shown: with a folder or page mark in a flat listing,
/// with a trailing slash for directories in a recursive one.
pub open spec fn shown_entry(e: DirEntryInfo, recursive: bool) -> Seq<char> {
    if recursive {
        if e.is_dir { e.name@ + "/"@ } else { e.name@ }
    } else {
        if e.is_dir { "📁 "@ + e.name@ } else { "📄 "@ + e.name@ }
    }
}

/// The entries a listing counts: in a flat listing the ignored names are
/// skipped (a recursive walk has skipped them already).
pub open spec fn counted(entries: Seq<DirEntryInfo>, recursive: bool) -> Seq<DirEntryInfo> {
    if recursive {
        entries
    } else {
        entries.filter(|e: DirEntryInfo| !spec_is_ignored(e.name@))
    }
}

/// The text of a listing of `path` with `entries`, showing at most `max`.
pub open spec fn spec_listing(
    path: Seq<char>,
    entries: Seq<DirEntryInfo>,
    recursive: bool,
    max: nat,
) -> Seq<char> {
    let c = counted(entries, recursive);
    let total = c.len();
    let shown = c.take(if total < max { total as int } else { max as int }).map_values(
        |e: DirEntryInfo| shown_entry(e, recursive),
    );
    if total == 0 {
        "Directory "@ + path + " is empty"@
    } else if total > max {
        spec_join(shown, "\n"@) + "\n\n(truncated, showing first "@ + spec_decimal(max)
            + " of "@ + spec_decimal(total) + " entries)"@
    } else {
        spec_join(shown, "\n"@)
    }
}

impl ListDirTool {
    pub fn new(allowed_dirs_config: AllowedDirectoriesConfig) -> (res: Self)
        ensures
            res.allowed_dirs_config == allowed_dirs_config,
    {
        ListDirTool { allowed_dirs_config }
    }

    /// Whether entries named `name` are left out of listings.
    pub fn is_ignored(name: &str) -> (res: bool)
        ensures
            res == spec_is_ignored(name@),
    {
        proof {
            reveal_strlit(".git");
            reveal_strlit("node_modules");
            reveal_strlit("__pycache__");
            reveal_strlit(".venv");
            reveal_strlit("venv");
            reveal_strlit("dist");
            reveal_strlit("build");
            reveal_strlit(".tox");
            reveal_strlit(".mypy_cache");
            reveal_strlit(".pytest_cache");
            reveal_strlit(".ruff_cache");
            reveal_strlit(".coverage");
        }
        if str_eq(name, ".git") {
            assert(spec_ignore_dirs()[0] == name@);
            return true;
        }
        if str_eq(name, "node_modules") {
            assert(spec_ignore_dirs()[1] == name@);
            return true;
        }
        if str_eq(name, "__pycache__") {
            assert(spec_ignore_dirs()[2] == name@);
            return true;
        }
        if str_eq(name, ".venv") {
            assert(spec_ignore_dirs()[3] == name@);
            return true;
        }
        if str_eq(name, "venv") {
            assert(spec_ignore_dirs()[4] == name@);
            return true;
        }
        if str_eq(name, "dist") {
            assert(spec_ignore_dirs()[5] == name@);
            return true;
        }
        if str_eq(name, "build") {
            assert(spec_ignore_dirs()[6] == name@);
            return true;
        }
        if str_eq(name, ".tox") {
            assert(spec_ignore_dirs()[7] == name@);
            return true;
        }
        if str_eq(name, ".mypy_cache") {
            assert(spec_ignore_dirs()[8] == name@);
            return true;
        }
        if str_eq(name, ".pytest_cache") {
            assert(spec_ignore_dirs()[9] == name@);
            return true;
        }
        if str_eq(name, ".ruff_cache") {
            assert(spec_ignore_dirs()[10] == name@);
            return true;
        }
        if str_eq(name, ".coverage") {
            assert(spec_ignore_dirs()[11] == name@);
            return true;
        }
        assert forall|i: int| 0 <= i < spec_ignore_dirs().len() implies spec_ignore_dirs()[i] != name@ by {}
        false
    }
}

/// The number of entries a listing shows: the given one (as an unsigned
/// size), 200 by default.
pub open spec fn listing_max(max_entries: Option<u64>) -> nat {
    match max_entries {
        Some(m) => (#[verifier::truncate] (m as usize)) as nat,
        None => default_max_entries(),
    }
}

impl ListDirTool {
    /// The text of a listing of `path` (as given) with `entries`: the
    /// directory's entries sorted by name, or in a recursive listing the
    /// sorted walk of the tree (ignored directories already skipped).
    pub fn render(path: &str, entries: &Vec<DirEntryInfo>, recursive: bool, max_entries: Option<
        u64,
    >) -> (res: String)
        ensures
            res@ == spec_listing(path@, entries@, recursive, listing_max(max_entries)),
    {
        proof {
            reveal_strlit("/");
            reveal_strlit("📁 ");
            reveal_strlit("📄 ");
            reveal_strlit("Directory ");
            reveal_strlit(" is empty");
            reveal_strlit("\n\n(truncated, showing first ");
            reveal_strlit(" of ");
            reveal_strlit(" entries)");
        }
        let max: usize = match max_entries {
            Some(m) => #[verifier::truncate] (m as usize),
            None => 200,
        };
        let ghost pred = |e: DirEntryInfo| !spec_is_ignored(e.name@);
        let mut items: Vec<Vec<char>> = Vec::new();
        let mut total: usize = 0;
        let mut i: usize = 0;
        while i < entries.len()
            invariant
                i <= entries@.len(),
                max as nat == listing_max(max_entries),
                pred == (|e: DirEntryInfo| !spec_is_ignored(e.name@)),
                total as nat == counted(entries@.take(i as int), recursive).len(),
                total <= i,
                items@.map_values(|v: Vec<char>| v@) == counted(entries@.take(i as int), recursive).take(
                    if total < max { total as int } else { max as int },
                ).map_values(|e: DirEntryInfo| shown_entry(e, recursive)),
            decreases entries@.len() - i,
        {
            let e = &entries[i];
            let ghost before = counted(entries@.take(i as int), recursive);
            assert(entries@.take(i + 1).drop_last() =~= entries@.take(i as int));
            assert(entries@.take(i + 1).last() == entries@[i as int]);
            let keep = recursive || !Self::is_ignored(e.name.as_str());
            proof {
                reveal_with_fuel(Seq::filter, 1);
            }
            if keep {
                assert(counted(entries@.take(i + 1), recursive) =~= before.push(*e));
                if items.len() < max {
                    let mut line: Vec<char> = Vec::new();
                    if recursive {
                        push_str(&mut line, e.name.as_str());
                        if e.is_dir {
                            push_str(&mut line, "/");
                        }
                    } else {
                        if e.is_dir {
                            push_str(&mut line, "📁 ");
                        } else {
                            push_str(&mut line, "📄 ");
                        }
                        push_str(&mut line, e.name.as_str());
                    }
                    let ghost shown_before = items@.map_values(|v: Vec<char>| v@);
                    items.push(line);
                    assert(items@.map_values(|v: Vec<char>| v@) =~= shown_before.push(
                        shown_entry(*e, recursive),
                    ));
                }
                total = total + 1;
                assert(items@.map_values(|v: Vec<char>| v@) =~= before.push(*e).take(
                    if total < max { total as int } else { max as int },
                ).map_values(|f: DirEntryInfo| shown_entry(f, recursive)));
            } else {
                assert(counted(entries@.take(i + 1), recursive) =~= before);
            }
            i = i + 1;
        }
        assert(entries@.take(entries@.len() as int) =~= entries@);
        if total == 0 {
            let mut out: Vec<char> = Vec::new();
            push_str(&mut out, "Directory ");
            push_str(&mut out, path);
            push_str(&mut out, " is empty");
            return string_of(&out);
        }
        let mut out = join_chars(&items, "\n");
        if total > max {
            push_str(&mut out, "\n\n(truncated, showing first ");
            push_decimal(&mut out, max as u64);
            push_str(&mut out, " of ");
            push_decimal(&mut out, total as u64);
            push_str(&mut out, " entries)");
        }
        string_of(&out)
    }

    /// Checks the request before the directory is read: a path is required.
    pub fn check_args(path: &str) -> (res: Result<(), ToolError>)
        ensures
            path@.len() == 0 <==> res is Err,
            res matches Err(e) ==> (e matches ToolError::InvalidArgs(m) && m@ == "path is required"@),
    {
        if path.is_empty() {
            return Err(ToolError::InvalidArgs(String::from_str("path is required")));
        }
        Ok(())
    }

    /// The error for a listed path that is not a directory.
    pub fn not_a_directory(path: &str) -> (res: ToolError)
        ensures
            res matches ToolError::Execution(m) && m@ == "Not a directory: "@ + path@,
    {
        proof {
            reveal_strlit("Not a directory: ");
        }
        let mut out: Vec<char> = Vec::new();
        push_str(&mut out, "Not a directory: ");
        push_str(&mut out, path);
        ToolError::Execution(string_of(&out))
    }
}

/// What looking at the requested directory found.
#[derive(Debug, Clone, PartialEq, Eq)]
pub enum DirListing {
    /// The path is not a directory.
    NotADirectory,
    /// Reading the directory failed; the error's kind and message.
    Unreadable(IoErrorKind, String),
    /// The directory's entries (see `ListDirTool::render`).
    Entries(Vec<DirEntryInfo>),
}

impl ListDirTool {
    /// The answer to a listing of `path` (as given), given what looking at
    /// it found.
    pub fn respond(path: &str, listing: DirListing, recursive: bool, max_entries: Option<u64>) -> (res:
        Result<String, ToolError>)
        ensures
            match listing {
                DirListing::NotADirectory => res matches Err(ToolError::Execution(m)) && m@
                    == "Not a directory: "@ + path@,
                DirListing::Unreadable(k, e) => res == Err::<String, ToolError>(ToolError::Io(k, e)),
                DirListing::Entries(entries) => res matches Ok(t) && t@ == spec_listing(
                    path@,
                    entries@,
                    recursive,
                    listing_max(max_entries),
                ),
            },
    {
        match listing {
            DirListing::NotADirectory => Err(Self::not_a_directory(path)),
            DirListing::Unreadable(k, e) => Err(ToolError::Io(k, e)),
            DirListing::Entries(entries) => Ok(Self::render(path, &entries, recursive, max_entries)),
        }
    }
}

/// A flat listing counts and shows no ignored directory, and counts every
/// entry that is not ignored.
pub proof fn law_flat_listing_skips_ignored(entries: Seq<DirEntryInfo>)
    ensures
        forall|i: int|
            0 <= i < counted(entries, false).len() ==> !spec_is_ignored(
                (#[trigger] counted(entries, false)[i]).name@,
            ),
        forall|i: int|
            0 <= i < entries.len() && !spec_is_ignored(entries[i].name@) ==> #[trigger] counted(
                entries,
                false,
            ).contains(entries[i]),
{
    broadcast use vstd::seq_lib::group_filter_ensures;

    let pred = |e: DirEntryInfo| !spec_is_ignored(e.name@);
    assert(counted(entries, false) == entries.filter(pred));
}

/// One of the names a listing leaves out: the version-control, dependency,
/// virtual-environment, build-output and tool-cache directories.
pub open spec fn is_build_or_cache_name(n: Seq<char>) -> bool {
    n == ".git"@ || n == "node_modules"@ || n == "__pycache__"@ || n == ".venv"@ || n == "venv"@ || n == "dist"@ || n == "build"@ || n == ".tox"@ || n == ".mypy_cache"@ || n == ".pytest_cache"@ || n == ".ruff_cache"@ || n == ".coverage"@
}

/// The ignored names are exactly `.git`, `node_modules`, `__pycache__`,
/// `.venv`, `venv`, `dist`, `build`, `.tox`, `.mypy_cache`, `.pytest_cache`,
/// `.ruff_cache` and `.coverage`.
pub proof fn law_ignored_names(n: Seq<char>)
    ensures
        spec_is_ignored(n) <==> is_build_or_cache_name(n),
{
    reveal_strlit(".git");
    reveal_strlit("node_modules");
    reveal_strlit("__pycache__");
    reveal_strlit(".venv");
    reveal_strlit("venv");
    reveal_strlit("dist");
    reveal_strlit("build");
    reveal_strlit(".tox");
    reveal_strlit(".mypy_cache");
    reveal_strlit(".pytest_cache");
    reveal_strlit(".ruff_cache");
    reveal_strlit(".coverage");
    let d = spec_ignore_dirs();
    if is_build_or_cache_name(n) {
        if n == ".git"@ {
            assert(d[0] == n);
        }
        if n == "node_modules"@ {
            assert(d[1] == n);
        }
        if n == "__pycache__"@ {
            assert(d[2] == n);
        }
        if n == ".venv"@ {
            assert(d[3] == n);
        }
        if n == "venv"@ {
            assert(d[4] == n);
        }
        if n == "dist"@ {
            assert(d[5] == n);
        }
        if n == "build"@ {
            assert(d[6] == n);
        }
        if n == ".tox"@ {
            assert(d[7] == n);
        }
        if n == ".mypy_cache"@ {
            assert(d[8] == n);
        }
        if n == ".pytest_cache"@ {
            assert(d[9] == n);
        }
        if n == ".ruff_cache"@ {
            assert(d[10] == n);
        }
        if n == ".coverage"@ {
            assert(d[11] == n);
        }
    }
    if spec_is_ignored(n) {
        let i = choose|i: int| 0 <= i < d.len() && d[i] == n;
        assert(0 <= i < 12);
    }
}

/// A flat listing shows no entry with one of those names, and every other
/// entry is counted.
pub proof fn law_flat_listing_hides_build_and_cache(entries: Seq<DirEntryInfo>)
    ensures
        forall|i: int|
            0 <= i < counted(entries, false).len() ==> !is_build_or_cache_name(
                (#[trigger] counted(entries, false)[i]).name@,
            ),
        forall|i: int|
            0 <= i < entries.len() && !is_build_or_cache_name(entries[i].name@) ==> #[trigger] counted(
                entries,
                false,
            ).contains(entries[i]),
{
    law_flat_listing_skips_ignored(entries);
    assert forall|i: int| 0 <= i < counted(entries, false).len() implies !is_build_or_cache_name(
        (#[trigger] counted(entries, false)[i]).name@,
    ) by {
        law_ignored_names(counted(entries, false)[i].name@);
    }
    assert forall|i: int|
        0 <= i < entries.len() && !is_build_or_cache_name(entries[i].name@) implies #[trigger] counted(
        entries,
        false,
    ).contains(entries[i]) by {
        law_ignored_names(entries[i].name@);
    }
}

} // verus!
