//! Workspace resolution: turn an optional client-supplied document path and a
//! fallback root into the absolute target file, its working directory and its
//! base name. The compiler subprocess runs inside the working directory, so
//! the decomposition must be exact.

use vstd::prelude::*;
use vstd::string::StrSliceExecFns;
use vstd::string::StringExecFns;

use crate::textutil::is_blank;
use crate::textutil::is_blank_str;

verus! {

/// Index just after the last `/` of `p`; `0` when `p` holds no separator.
pub open spec fn split_at(p: Seq<char>) -> int
    decreases p.len(),
{
    if p.len() == 0 {
        0
    } else if p.last() == '/' {
        p.len() as int
    } else {
        split_at(p.drop_last())
    }
}

/// The directory part of `p`: everything up to and including the last `/`.
pub open spec fn dir_of(p: Seq<char>) -> Seq<char> {
    p.subrange(0, split_at(p))
}

/// The base-name part of `p`: everything after the last `/`.
pub open spec fn name_of(p: Seq<char>) -> Seq<char> {
    p.subrange(split_at(p), p.len() as int)
}

/// `dir / name`: plain concatenation when `dir` is empty or already ends in a
/// separator, otherwise with a separator inserted.
pub open spec fn join_spec(dir: Seq<char>, name: Seq<char>) -> Seq<char> {
    if dir.len() == 0 || dir.last() == '/' {
        dir + name
    } else {
        dir + seq!['/'] + name
    }
}

/// The split point lies in bounds, sits just after a separator, and no
/// separator follows it.
pub proof fn lemma_split_at(p: Seq<char>)
    ensures
        0 <= split_at(p) <= p.len(),
        split_at(p) > 0 ==> p[split_at(p) - 1] == '/',
        forall|i: int| split_at(p) <= i < p.len() ==> p[i] != '/',
    decreases p.len(),
{
    if p.len() > 0 && p.last() != '/' {
        lemma_split_at(p.drop_last());
        assert forall|i: int| split_at(p) <= i < p.len() implies p[i] != '/' by {
            if i < p.len() - 1 {
                assert(p.drop_last()[i] == p[i]);
            }
        }
        if split_at(p) > 0 {
            assert(p.drop_last()[split_at(p) - 1] == p[split_at(p) - 1]);
        }
    }
}

/// Characterizes `split_at` as the unique cut after the last separator.
proof fn lemma_split_at_char(p: Seq<char>, n: int)
    requires
        0 <= n <= p.len(),
        n == 0 || p[n - 1] == '/',
        forall|i: int| n <= i < p.len() ==> p[i] != '/',
    ensures
        split_at(p) == n,
    decreases p.len(),
{
    if p.len() == 0 {
    } else if p.last() == '/' {
        if n < p.len() {
            assert(p[p.len() - 1] != '/');
        }
    } else {
        assert(n < p.len() || p[p.len() - 1] == '/');
        assert forall|i: int| n <= i < p.drop_last().len() implies p.drop_last()[i] != '/' by {
            assert(p.drop_last()[i] == p[i]);
        }
        if n > 0 {
            assert(p.drop_last()[n - 1] == p[n - 1]);
        }
        lemma_split_at_char(p.drop_last(), n);
    }
}

/// Splitting a path into directory and name loses nothing: the two parts
/// concatenate back to the original path.
pub proof fn lemma_split_round_trip(p: Seq<char>)
    ensures
        dir_of(p) + name_of(p) == p,
{
    lemma_split_at(p);
    assert(dir_of(p) + name_of(p) =~= p);
}

/// The directory part is empty or ends with a separator, so joining it back
/// to the name is plain concatenation.
pub proof fn lemma_dir_of_join(p: Seq<char>)
    ensures
        join_spec(dir_of(p), name_of(p)) == p,
{
    lemma_split_at(p);
    if split_at(p) > 0 {
        assert(dir_of(p).last() == p[split_at(p) - 1]);
    }
    lemma_split_round_trip(p);
}

/// A resolved compile/persist target: the absolute document path, the
/// directory the compiler will run in, and the document's base name.
pub struct WorkspaceTarget {
    pub absolute_path: String,
    pub working_directory: String,
    pub file_name: String,
}

impl WorkspaceTarget {
    /// The absolute path is exactly the working directory joined with the
    /// file name.
    pub open spec fn wf(self) -> bool {
        self.absolute_path@ == join_spec(self.working_directory@, self.file_name@)
    }
}

/// Resolution failure: the fallback root is infrastructure and must exist.
#[derive(Debug)]
pub enum WorkspaceError {
    Configuration { message: String },
}

/// The fixed document name used when the client supplies no path.
pub open spec fn fallback_name() -> Seq<char> {
    "main.tex"@
}

/// Message reported when the fallback root is missing.
pub open spec fn missing_root_message(root: Seq<char>) -> Seq<char> {
    "src-tauri dir does not exist: "@ + root
}

/// Specification-level resolution: `(absolute, directory, name)` on success,
/// the configuration message on failure.
pub open spec fn resolve_spec(
    path: Option<Seq<char>>,
    root: Seq<char>,
    root_exists: bool,
) -> Result<(Seq<char>, Seq<char>, Seq<char>), Seq<char>> {
    match path {
        Some(p) if !is_blank(p) => Ok((p, dir_of(p), name_of(p))),
        _ => {
            if root_exists {
                Ok((join_spec(root, fallback_name()), root, fallback_name()))
            } else {
                Err(missing_root_message(root))
            }
        },
    }
}

/// The view of an optional owned path.
pub open spec fn opt_view(p: Option<String>) -> Option<Seq<char>> {
    match p {
        Some(s) => Some(s@),
        None => None,
    }
}

/// The exec result agrees with [`resolve_spec`] field by field.
pub open spec fn resolve_matches(
    path: Option<Seq<char>>,
    root: Seq<char>,
    root_exists: bool,
    r: Result<WorkspaceTarget, WorkspaceError>,
) -> bool {
    match resolve_spec(path, root, root_exists) {
        Ok((abs, dir, name)) => r matches Ok(t) && t.absolute_path@ == abs
            && t.working_directory@ == dir && t.file_name@ == name,
        Err(m) => r matches Err(WorkspaceError::Configuration { message }) && message@ == m,
    }
}

/// Resolve the authoritative document target from an optional client path
/// and the fallback root directory. A present, non-blank path is taken as
/// is; otherwise the fallback root must exist and hosts the default
/// document.
pub fn resolve(tex_path: Option<String>, fallback_root: &str, root_exists: bool) -> (r: Result<
    WorkspaceTarget,
    WorkspaceError,
>)
    ensures
        resolve_matches(opt_view(tex_path), fallback_root@, root_exists, r),
        r matches Ok(t) ==> t.wf(),
{
    match tex_path {
        Some(p) if !is_blank_str(p.as_str()) => {
            let (dir, name) = split_path(p.as_str());
            proof {
                lemma_dir_of_join(p@);
            }
            Ok(WorkspaceTarget { absolute_path: p, working_directory: dir, file_name: name })
        },
        _ => {
            if root_exists {
                let abs = join_path(fallback_root, "main.tex");
                Ok(
                    WorkspaceTarget {
                        absolute_path: abs,
                        working_directory: String::from_str(fallback_root),
                        file_name: String::from_str("main.tex"),
                    },
                )
            } else {
                let mut message = String::from_str("src-tauri dir does not exist: ");
                message.append(fallback_root);
                Err(WorkspaceError::Configuration { message })
            }
        },
    }
}

/// The crate root that hosts the default document; reports a configuration
/// error when the directory is absent. The caller supplies the directory
/// path and whether it exists on disk.
pub fn src_tauri_dir(dir: &str, exists: bool) -> (r: Result<String, String>)
    ensures
        exists ==> (r matches Ok(d) && d@ == dir@),
        !exists ==> (r matches Err(m) && m@ == missing_root_message(dir@)),
{
    if exists {
        Ok(String::from_str(dir))
    } else {
        let mut message = String::from_str("src-tauri dir does not exist: ");
        message.append(dir);
        Err(message)
    }
}

/// Split a path at its last separator into directory (separator kept) and
/// base name.
pub fn split_path(p: &str) -> (r: (String, String))
    ensures
        r.0@ == dir_of(p@),
        r.1@ == name_of(p@),
{
    let n: usize = p.unicode_len();
    let mut i: usize = n;
    while i > 0 && p.get_char(i - 1) != '/'
        invariant
            0 <= i <= n,
            n == p@.len(),
            forall|k: int| i <= k < n ==> p@[k] != '/',
        decreases i,
    {
        i = i - 1;
    }
    proof {
        lemma_split_at_char(p@, i as int);
    }
    let dir = String::from_str(p.substring_char(0, i));
    let name = String::from_str(p.substring_char(i, n));
    (dir, name)
}

/// Join a directory and a name with a single separator.
pub fn join_path(dir: &str, name: &str) -> (r: String)
    ensures
        r@ == join_spec(dir@, name@),
{
    let n: usize = dir.unicode_len();
    let mut out = String::from_str(dir);
    if n > 0 && dir.get_char(n - 1) != '/' {
        proof {
            reveal_strlit("/");
            assert("/"@ =~= seq!['/']);
        }
        out.append("/");
    }
    out.append(name);
    out
}

/// Index of the last `.` of `n`, or `-1` when none occurs.
pub open spec fn last_dot(n: Seq<char>) -> int
    decreases n.len(),
{
    if n.len() == 0 {
        -1
    } else if n.last() == '.' {
        n.len() - 1
    } else {
        last_dot(n.drop_last())
    }
}

/// Characterizes `last_dot` as the unique final occurrence.
proof fn lemma_last_dot_char(n: Seq<char>, d: int)
    requires
        -1 <= d < n.len(),
        d == -1 || n[d] == '.',
        forall|i: int| d < i < n.len() ==> n[i] != '.',
    ensures
        last_dot(n) == d,
    decreases n.len(),
{
    if n.len() == 0 {
    } else if n.last() == '.' {
        if d < n.len() - 1 {
            assert(n[n.len() - 1] != '.');
        }
    } else {
        assert(d < n.len() - 1 || n[n.len() - 1] == '.');
        assert forall|i: int| d < i < n.drop_last().len() implies n.drop_last()[i] != '.' by {
            assert(n.drop_last()[i] == n[i]);
        }
        if d >= 0 {
            assert(n.drop_last()[d] == n[d]);
        }
        lemma_last_dot_char(n.drop_last(), d);
    }
}

/// `p` with the extension of its final component replaced by `ext`, as
/// `Path::with_extension` derives it: the part after the component's last
/// dot is replaced, except that a missing extension (no dot, or only a
/// leading dot as in a hidden file) has `.ext` appended instead.
pub open spec fn swap_ext_spec(p: Seq<char>, ext: Seq<char>) -> Seq<char> {
    let name = name_of(p);
    let d = last_dot(name);
    if d > 0 {
        dir_of(p) + name.subrange(0, d) + seq!['.'] + ext
    } else {
        p + seq!['.'] + ext
    }
}

/// Replace the extension of the final path component.
pub fn swap_extension(p: &str, ext: &str) -> (r: String)
    ensures
        r@ == swap_ext_spec(p@, ext@),
{
    let n: usize = p.unicode_len();
    let mut k: usize = n;
    while k > 0 && p.get_char(k - 1) != '/'
        invariant
            0 <= k <= n,
            n == p@.len(),
            forall|t: int| k <= t < n ==> p@[t] != '/',
        decreases k,
    {
        k = k - 1;
    }
    proof {
        lemma_split_at_char(p@, k as int);
    }
    let mut j: usize = n;
    while j > k && p.get_char(j - 1) != '.'
        invariant
            k <= j <= n,
            n == p@.len(),
            forall|t: int| j <= t < n ==> p@[t] != '.',
        decreases j,
    {
        j = j - 1;
    }
    let ghost name = name_of(p@);
    proof {
        reveal_strlit(".");
        assert("."@ =~= seq!['.']);
        if j > k {
            assert(name[j - 1 - k as int] == p@[j - 1]);
            assert forall|i: int| j - 1 - k < i < name.len() implies name[i] != '.' by {
                assert(name[i] == p@[k + i]);
            }
            lemma_last_dot_char(name, j - 1 - k as int);
        } else {
            assert forall|i: int| -1 < i < name.len() implies name[i] != '.' by {
                assert(name[i] == p@[k + i]);
            }
            lemma_last_dot_char(name, -1);
        }
    }
    if j > k && j - 1 > k {
        let stem = p.substring_char(0, j - 1);
        let mut out = String::from_str(stem);
        out.append(".");
        out.append(ext);
        proof {
            assert(p@.subrange(0, j - 1) =~= dir_of(p@) + name.subrange(0, j - 1 - k as int));
        }
        out
    } else {
        let mut out = String::from_str(p);
        out.append(".");
        out.append(ext);
        out
    }
}

/// With a present, non-blank path, resolution decomposes the path without
/// loss: the working directory and the file name concatenate back to the
/// path, and the absolute path is the path itself.
pub proof fn lemma_resolve_round_trip(p: Seq<char>, root: Seq<char>, root_exists: bool)
    requires
        !is_blank(p),
    ensures
        resolve_spec(Some(p), root, root_exists) matches Ok(t) && {
            &&& t.0 == p
            &&& t.1 + t.2 == p
        },
{
    lemma_split_round_trip(p);
}

/// With the path absent or blank, resolution is a fixed function of the
/// fallback root alone: whenever the root exists it succeeds, with the
/// default document inside the root.
pub proof fn lemma_resolve_fallback_fixed(path: Option<Seq<char>>, root: Seq<char>)
    requires
        path matches Some(p) ==> is_blank(p),
    ensures
        resolve_spec(path, root, true) == Ok::<_, Seq<char>>(
            (join_spec(root, fallback_name()), root, fallback_name()),
        ),
{
}

} // verus!
