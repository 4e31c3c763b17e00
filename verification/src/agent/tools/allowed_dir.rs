//! Path sandboxing: which canonical paths lie under the allowed directories.
//!
//! Canonicalizing a path reads the file system and is left to the caller;
//! this module decides on canonical paths, comparing them component by
//! component as `std::path::Path::starts_with` does (Unix paths).

use vstd::prelude::*;

use crate::agent::tools::{IoErrorKind, ToolError};
use crate::text::{chars_eq, chars_of, spec_split, split_chars};

verus! {

/// The directories a tool may touch.
#[derive(Debug, Clone)]
pub struct AllowedDirectoriesConfig {
    pub workspace: Option<String>,
    pub allowed_dir: Option<String>,
    pub extra_allowed_dirs: Option<Vec<String>>,
}

/// Why a path was refused.
#[derive(Debug, Clone, PartialEq, Eq)]
pub enum PathAccessError {
    /// Canonicalizing the path failed; carries the I/O error's kind and
    /// message.
    Io(IoErrorKind, String),
    /// The path is not under any allowed directory.
    PermissionDenied,
}

impl PathAccessError {
    pub open spec fn spec_message(self) -> Seq<char> {
        match self {
            PathAccessError::Io(_, m) => m@,
            PathAccessError::PermissionDenied => "Path is not under any allowed directory"@,
        }
    }

    /// The tool error a refused path is reported as: an I/O error of the
    /// canonicalization's kind, or of kind `PermissionDenied`, with the
    /// message.
    pub fn to_tool_error(&self) -> (res: ToolError)
        ensures
            res == ToolError::Io(
                match self {
                    PathAccessError::Io(k, _) => *k,
                    PathAccessError::PermissionDenied => IoErrorKind::PermissionDenied,
                },
                res->Io_1,
            ),
            res->Io_1@ == self.spec_message(),
    {
        let kind = match self {
            PathAccessError::Io(k, _) => *k,
            PathAccessError::PermissionDenied => IoErrorKind::PermissionDenied,
        };
        ToolError::Io(kind, self.message())
    }

    /// The error's message.
    pub fn message(&self) -> (res: String)
        ensures
            res@ == self.spec_message(),
    {
        match self {
            PathAccessError::Io(_, m) => m.clone(),
            PathAccessError::PermissionDenied => String::from_str(
                "Path is not under any allowed directory",
            ),
        }
    }
}

/// The components kept from the `/`-separated `parts`: empty parts and `.`
/// parts are dropped, except a `.` that comes first (when `first` holds).
pub open spec fn keep_parts(parts: Seq<Seq<char>>, first: bool) -> Seq<Seq<char>>
    decreases parts.len(),
{
    if parts.len() == 0 {
        Seq::empty()
    } else {
        let p = parts[0];
        let rest = keep_parts(parts.drop_first(), false);
        if p.len() > 0 && (p != "."@ || first) {
            seq![p] + rest
        } else {
            rest
        }
    }
}

/// The components of a Unix path (`std::path::Path::components`): the root
/// (written `/`) if the path is absolute, then its non-empty parts.
pub open spec fn path_components(p: Seq<char>) -> Seq<Seq<char>> {
    if p.len() > 0 && p[0] == '/' {
        seq!["/"@] + keep_parts(spec_split(p, '/').drop_first(), false)
    } else {
        keep_parts(spec_split(p, '/'), true)
    }
}

/// `path` lies under `dir` (`std::path::Path::starts_with`): the components
/// of `dir` are a prefix of those of `path`.
pub open spec fn path_starts_with(path: Seq<char>, dir: Seq<char>) -> bool {
    let pc = path_components(path);
    let dc = path_components(dir);
    dc.len() <= pc.len() && pc.subrange(0, dc.len() as int) == dc
}

fn components(p: &str) -> (res: Vec<Vec<char>>)
    ensures
        res@.len() == path_components(p@).len(),
        forall|i: int| 0 <= i < res@.len() ==> #[trigger] res@[i]@ == path_components(p@)[i],
{
    let chars = chars_of(p);
    let parts = split_chars(&chars, '/');
    let ghost pv = spec_split(p@, '/');
    let absolute = chars.len() > 0 && chars[0] == '/';
    let mut res: Vec<Vec<char>> = Vec::new();
    let ghost mut got: Seq<Seq<char>> = Seq::empty();
    let mut i: usize = 0;
    if absolute {
        let mut root: Vec<char> = Vec::new();
        root.push('/');
        proof {
            reveal_strlit("/");
            assert(root@ =~= "/"@);
            got = seq!["/"@];
        }
        res.push(root);
        i = 1;
        assert(pv.len() >= 1);
        assert(pv.skip(1) =~= pv.drop_first());
    } else {
        assert(pv.skip(0) =~= pv);
    }
    while i < parts.len()
        invariant
            i <= parts@.len() == pv.len(),
            absolute ==> i >= 1,
            forall|k: int| 0 <= k < parts@.len() ==> #[trigger] parts@[k]@ == pv[k],
            res@.len() == got.len(),
            forall|k: int| 0 <= k < res@.len() ==> #[trigger] res@[k]@ == got[k],
            got + keep_parts(pv.skip(i as int), !absolute && i == 0) == path_components(p@),
        decreases parts@.len() - i,
    {
        let piece = parts[i].clone();
        let mut dot: Vec<char> = Vec::new();
        dot.push('.');
        proof {
            reveal_strlit(".");
            assert(dot@ =~= "."@);
        }
        let keep = piece.len() > 0 && (!chars_eq(&piece, &dot) || (!absolute && i == 0));
        assert(pv.skip(i as int).drop_first() =~= pv.skip(i + 1));
        if keep {
            proof {
                got = got + seq![piece@];
            }
            res.push(piece);
        }
        i = i + 1;
    }
    assert(pv.skip(i as int).len() == 0);
    assert(got + keep_parts(pv.skip(i as int), false) =~= got);
    res
}

/// Whether `path` lies under `directory`, both already canonicalized; a
/// failed canonicalization (`None`) means no.
pub fn is_under(path: Option<&str>, directory: Option<&str>) -> (res: bool)
    ensures
        res == match (path, directory) {
            (Some(p), Some(d)) => path_starts_with(p@, d@),
            _ => false,
        },
{
    match (path, directory) {
        (Some(p), Some(d)) => {
            let pc = components(p);
            let dc = components(d);
            if dc.len() > pc.len() {
                return false;
            }
            let mut i: usize = 0;
            while i < dc.len()
                invariant
                    path == Some(p),
                    directory == Some(d),
                    i <= dc@.len() <= pc@.len(),
                    pc@.len() == path_components(p@).len(),
                    dc@.len() == path_components(d@).len(),
                    forall|k: int| 0 <= k < pc@.len() ==> #[trigger] pc@[k]@ == path_components(p@)[k],
                    forall|k: int| 0 <= k < dc@.len() ==> #[trigger] dc@[k]@ == path_components(d@)[k],
                    forall|k: int| 0 <= k < i ==> path_components(p@)[k] == path_components(d@)[k],
                decreases dc@.len() - i,
            {
                if !chars_eq(&pc[i], &dc[i]) {
                    assert(path_components(p@).subrange(0, dc@.len() as int)[i as int]
                        != path_components(d@)[i as int]);
                    assert(path_components(p@).subrange(0, dc@.len() as int) != path_components(d@));
                    assert(!path_starts_with(p@, d@));
                    return false;
                }
                i = i + 1;
            }
            assert(path_components(p@).subrange(0, dc@.len() as int) =~= path_components(d@));
            true
        },
        _ => false,
    }
}

/// The allowed directories in the order they are tried: the workspace, the
/// allowed directory, then the extra directories.
pub open spec fn spec_candidate_dirs(c: AllowedDirectoriesConfig) -> Seq<Seq<char>> {
    (match c.workspace {
        Some(w) => seq![w@],
        None => Seq::empty(),
    }) + (match c.allowed_dir {
        Some(a) => seq![a@],
        None => Seq::empty(),
    }) + (match c.extra_allowed_dirs {
        Some(v) => v@.map_values(|d: String| d@),
        None => Seq::empty(),
    })
}

/// `canon_dirs` pairs each of `dirs`, in order, with its canonical form.
pub open spec fn pairs_dirs(canon_dirs: Seq<(String, Option<String>)>, dirs: Seq<Seq<char>>) -> bool {
    &&& canon_dirs.len() == dirs.len()
    &&& forall|i: int| 0 <= i < dirs.len() ==> (#[trigger] canon_dirs[i]).0@ == dirs[i]
}

/// Some allowed directory, whose canonical form is `canon_dirs[i].1`, holds
/// `path`.
pub open spec fn under_some(path: Seq<char>, canon_dirs: Seq<(String, Option<String>)>) -> bool {
    exists|i: int|
        0 <= i < canon_dirs.len() && ((#[trigger] canon_dirs[i]).1 matches Some(d)
            && path_starts_with(path, d@))
}

impl AllowedDirectoriesConfig {
    pub fn new() -> (res: Self)
        ensures
            res.workspace is None,
            res.allowed_dir is None,
            res.extra_allowed_dirs is None,
    {
        AllowedDirectoriesConfig { workspace: None, allowed_dir: None, extra_allowed_dirs: None }
    }

    pub fn with_workspace(self, workspace: &str) -> (res: Self)
        ensures
            res.workspace matches Some(w) && w@ == workspace@,
            res.allowed_dir == self.allowed_dir,
            res.extra_allowed_dirs == self.extra_allowed_dirs,
    {
        AllowedDirectoriesConfig { workspace: Some(workspace.to_string()), ..self }
    }

    pub fn with_allowed_dir(self, allowed_dir: &str) -> (res: Self)
        ensures
            res.allowed_dir matches Some(a) && a@ == allowed_dir@,
            res.workspace == self.workspace,
            res.extra_allowed_dirs == self.extra_allowed_dirs,
    {
        AllowedDirectoriesConfig { allowed_dir: Some(allowed_dir.to_string()), ..self }
    }

    pub fn with_extra_allowed_dirs(self, extra_dirs: Vec<String>) -> (res: Self)
        ensures
            res.extra_allowed_dirs == Some(extra_dirs),
            res.workspace == self.workspace,
            res.allowed_dir == self.allowed_dir,
    {
        AllowedDirectoriesConfig { extra_allowed_dirs: Some(extra_dirs), ..self }
    }

    /// The directories to canonicalize for `canonicalize_under_allowed`, in
    /// the order they are tried.
    pub fn candidate_dirs(&self) -> (res: Vec<String>)
        ensures
            res@.map_values(|d: String| d@) == spec_candidate_dirs(*self),
    {
        let mut res: Vec<String> = Vec::new();
        if let Some(w) = &self.workspace {
            res.push(w.clone());
        }
        if let Some(a) = &self.allowed_dir {
            res.push(a.clone());
        }
        let ghost head = res@.map_values(|d: String| d@);
        if let Some(extra) = &self.extra_allowed_dirs {
            let mut i: usize = 0;
            while i < extra.len()
                invariant
                    i <= extra@.len(),
                    res@.map_values(|d: String| d@) == head + extra@.take(i as int).map_values(
                        |d: String| d@,
                    ),
                decreases extra@.len() - i,
            {
                let ghost before = res@;
                res.push(extra[i].clone());
                assert(res@ == before.push(extra@[i as int]));
                assert(extra@.take(i + 1) =~= extra@.take(i as int).push(extra@[i as int]));
                assert(extra@.take(i + 1).map_values(|d: String| d@) =~= extra@.take(
                    i as int,
                ).map_values(|d: String| d@).push(extra@[i as int]@));
                assert(res@.map_values(|d: String| d@) =~= before.map_values(|d: String| d@).push(
                    extra@[i as int]@,
                ));
                assert(res@.map_values(|d: String| d@) =~= head + extra@.take(i + 1).map_values(
                    |d: String| d@,
                ));
                i = i + 1;
            }
            assert(extra@.take(extra@.len() as int) =~= extra@);
        }
        assert(res@.map_values(|d: String| d@) =~= spec_candidate_dirs(*self));
        res
    }

    /// Checks that `path` lies under an allowed directory. `canonical` is the
    /// canonicalization of `path` (or the kind and message of the I/O error
    /// it failed with); `canon_dirs` pairs each of `candidate_dirs()`, in
    /// order, with its canonical form (`None` where that failed). Pairs that
    /// are not those directories allow nothing. Returns the canonical path
    /// when it is allowed.
    pub fn canonicalize_under_allowed(
        &self,
        canonical: Result<String, (IoErrorKind, String)>,
        canon_dirs: &Vec<(String, Option<String>)>,
    ) -> (res: Result<String, PathAccessError>)
        ensures
            canonical matches Err((k, e)) ==> res == Err::<String, PathAccessError>(
                PathAccessError::Io(k, e),
            ),
            canonical matches Ok(p) ==> {
                &&& res is Ok <==> (pairs_dirs(canon_dirs@, spec_candidate_dirs(*self)) && under_some(
                    p@,
                    canon_dirs@,
                ))
                &&& res matches Ok(r) ==> r == p
                &&& res matches Err(e) ==> e == PathAccessError::PermissionDenied
            },
    {
        let ghost input = canonical;
        let path = match canonical {
            Ok(p) => p,
            Err((k, e)) => return Err(PathAccessError::Io(k, e)),
        };
        let dirs = self.candidate_dirs();
        let ghost expected = spec_candidate_dirs(*self);
        assert(dirs@.len() == expected.len() && forall|k: int|
            0 <= k < dirs@.len() ==> #[trigger] dirs@[k]@ == expected[k]) by {
            assert forall|k: int| 0 <= k < dirs@.len() implies #[trigger] dirs@[k]@ == expected[k] by {
                assert(dirs@.map_values(|d: String| d@)[k] == dirs@[k]@);
            }
        }
        if dirs.len() != canon_dirs.len() {
            return Err(PathAccessError::PermissionDenied);
        }
        let mut j: usize = 0;
        while j < dirs.len()
            invariant
                input == Ok::<String, (IoErrorKind, String)>(path),
                canonical == input,
                expected == spec_candidate_dirs(*self),
                j <= dirs@.len() == canon_dirs@.len() == expected.len(),
                forall|k: int| 0 <= k < dirs@.len() ==> #[trigger] dirs@[k]@ == expected[k],
                forall|k: int| 0 <= k < j ==> (#[trigger] canon_dirs@[k]).0@ == expected[k],
            decreases dirs@.len() - j,
        {
            if !chars_eq(&chars_of(canon_dirs[j].0.as_str()), &chars_of(dirs[j].as_str())) {
                assert(!pairs_dirs(canon_dirs@, expected)) by {
                    assert(canon_dirs@[j as int].0@ != expected[j as int]);
                }
                return Err(PathAccessError::PermissionDenied);
            }
            j = j + 1;
        }
        assert(pairs_dirs(canon_dirs@, expected));
        let mut i: usize = 0;
        while i < canon_dirs.len()
            invariant
                input == Ok::<String, (IoErrorKind, String)>(path),
                canonical == input,
                pairs_dirs(canon_dirs@, expected),
                expected == spec_candidate_dirs(*self),
                i <= canon_dirs@.len(),
                forall|k: int|
                    0 <= k < i ==> !((#[trigger] canon_dirs@[k]).1 matches Some(d) && path_starts_with(
                        path@,
                        d@,
                    )),
            decreases canon_dirs@.len() - i,
        {
            let hit = match &canon_dirs[i].1 {
                Some(d) => is_under(Some(path.as_str()), Some(d.as_str())),
                None => false,
            };
            if hit {
                assert(canon_dirs@[i as int].1 matches Some(d) && path_starts_with(path@, d@));
                return Ok(path);
            }
            i = i + 1;
        }
        Err(PathAccessError::PermissionDenied)
    }
}

/// With no directory configured, no path is allowed: whatever canonical
/// forms are handed in, none pairs with the (empty) configured directories
/// and holds the path.
pub proof fn law_nothing_allowed_by_default(
    config: AllowedDirectoriesConfig,
    path: Seq<char>,
    canon_dirs: Seq<(String, Option<String>)>,
)
    requires
        config.workspace is None,
        config.allowed_dir is None,
        config.extra_allowed_dirs is None,
    ensures
        !(pairs_dirs(canon_dirs, spec_candidate_dirs(config)) && under_some(path, canon_dirs)),
{
    assert(spec_candidate_dirs(config) =~= Seq::<Seq<char>>::empty());
}

/// Every path lies under itself.
pub proof fn law_under_is_reflexive(path: Seq<char>)
    ensures
        path_starts_with(path, path),
{
    assert(path_components(path).subrange(0, path_components(path).len() as int) =~= path_components(
        path,
    ));
}

/// A path under a directory that lies under another directory lies under
/// that other directory too.
pub proof fn law_under_is_transitive(path: Seq<char>, dir: Seq<char>, outer: Seq<char>)
    requires
        path_starts_with(path, dir),
        path_starts_with(dir, outer),
    ensures
        path_starts_with(path, outer),
{
    let pc = path_components(path);
    let dc = path_components(dir);
    let oc = path_components(outer);
    assert(pc.subrange(0, oc.len() as int) =~= dc.subrange(0, oc.len() as int));
}

} // verus!
