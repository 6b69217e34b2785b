//! Filesystem confinement: every environment-relative path is resolved
//! against the configured allowed roots, and a resolved path is accepted
//! only when it lies at or under the root it was resolved in.
//!
//! The operating system is consulted by the caller (canonicalization,
//! metadata, reads and writes); this module takes what it reported and
//! decides: which path an operation acts on, and which error it fails with.
//! Final-component symlinks are followed by `resolve` and not followed by
//! `resolve_no_follow` (rename and delete act on the link itself).

use vstd::prelude::*;
use vstd::string::*;

use crate::auth::{blake3_hex, spec_blake3};
use crate::hex::hex_lower;
use crate::names::{ascii_lower, ascii_lowercase};
use crate::paths::{
    comps_prefix_exec, components, is_component, join, join_components, lemma_components_are_components,
    lemma_components_child, lemma_components_slash, no_sep, path_under, split_components, views,
};
use crate::text::{chars_of, push_char, push_str, str_eq, string_of};

verus! {

/// Default maximum file size: 16 MiB (the framing limit).
pub const DEFAULT_MAX_FILE_BYTES: usize = 16777216;

/// Errors from filesystem operations.
#[derive(Debug)]
pub enum FsError {
    /// The path is empty, absolute, or otherwise invalid.
    InvalidPath(String),
    /// The resolved path escapes the allowed filesystem boundary.
    FilesystemEscape(String),
    /// The target does not exist.
    NotFound(String),
    /// Permission denied by the OS.
    PermissionDenied(String),
    /// Expected a directory but found a file.
    NotADirectory(String),
    /// Expected a file but found a directory.
    IsADirectory(String),
    /// File exceeds the configured size limit.
    FileTooLarge { path: String, size: u64, limit: u64 },
    /// Well-formed request refused by the current filesystem state.
    Conflict(String),
    /// An I/O error occurred.
    Io(String),
}

/// The kind of an OS error, as far as the decisions here need it.
#[derive(Debug, Clone, Copy)]
pub enum IoKind {
    NotFound,
    PermissionDenied,
    AlreadyExists,
    Other,
}

/// The filesystem error for an OS error of the given kind and text.
pub fn fs_error_from_io(kind: IoKind, text: String) -> (e: FsError)
    ensures
        match kind {
            IoKind::NotFound => e == FsError::NotFound(text),
            IoKind::PermissionDenied => e == FsError::PermissionDenied(text),
            _ => e == FsError::Io(text),
        },
{
    match kind {
        IoKind::NotFound => FsError::NotFound(text),
        IoKind::PermissionDenied => FsError::PermissionDenied(text),
        _ => FsError::Io(text),
    }
}

/// The allowed roots and the file-size limit.
#[derive(Debug, Clone)]
pub struct FilesystemConfig {
    /// Canonical allowed root directories, never empty.
    pub allowed_roots: Vec<String>,
    /// Maximum file size in bytes for reads and writes.
    pub max_file_bytes: usize,
}

/// What canonicalizing a configured root gave: its canonical path, or the
/// error text.
pub type RootCanonicalization = (String, Result<String, String>);

/// The canonical roots of a list of canonicalization outcomes, when all
/// succeeded.
pub open spec fn canonical_roots(roots: Seq<RootCanonicalization>) -> Seq<Seq<char>> {
    Seq::new(roots.len(), |i: int| roots[i].1->Ok_0@)
}

/// Every root canonicalized.
pub open spec fn all_canonical(roots: Seq<RootCanonicalization>) -> bool {
    forall|i: int| 0 <= i < roots.len() ==> (#[trigger] roots[i]).1 is Ok
}

impl FilesystemConfig {
    /// A config from the canonicalization outcome of each root, with the
    /// default 16 MiB file-size limit.
    ///
    /// Fails with `InvalidPath` when no root is given or when a root could
    /// not be canonicalized (the first such root is named).
    pub fn new(roots: &[RootCanonicalization]) -> (r: Result<FilesystemConfig, FsError>)
        ensures
            roots@.len() == 0 || !all_canonical(roots@) <==> r matches Err(FsError::InvalidPath(_)),
            r matches Ok(c) ==> c.max_file_bytes == DEFAULT_MAX_FILE_BYTES && crate::grants::string_views(
                c.allowed_roots@,
            ) == canonical_roots(roots@),
    {
        Self::with_max_file_bytes(roots, DEFAULT_MAX_FILE_BYTES)
    }

    /// A config with an explicit file-size limit (see [`FilesystemConfig::new`]).
    pub fn with_max_file_bytes(roots: &[RootCanonicalization], max_file_bytes: usize) -> (r: Result<
        FilesystemConfig,
        FsError,
    >)
        ensures
            roots@.len() == 0 || !all_canonical(roots@) <==> r matches Err(FsError::InvalidPath(_)),
            r matches Ok(c) ==> c.max_file_bytes == max_file_bytes && crate::grants::string_views(
                c.allowed_roots@,
            ) == canonical_roots(roots@),
    {
        if roots.len() == 0 {
            return Err(FsError::InvalidPath(String::from_str("at least one allowed root must be configured")));
        }
        let mut canonical: Vec<String> = Vec::new();
        let mut i: usize = 0;
        while i < roots.len()
            invariant
                i <= roots@.len(),
                forall|j: int| 0 <= j < i ==> (#[trigger] roots@[j]).1 is Ok,
                crate::grants::string_views(canonical@) == canonical_roots(roots@.subrange(0, i as int)),
            decreases roots@.len() - i,
        {
            match &roots[i].1 {
                Ok(c) => {
                    let ghost before = canonical@;
                    assert(roots@[i as int].1->Ok_0 == *c);
                    canonical.push(c.clone());
                    assert(crate::grants::string_views(canonical@) =~= crate::grants::string_views(before).push(c@));
                    assert(canonical_roots(roots@.subrange(0, i + 1)) =~= canonical_roots(
                        roots@.subrange(0, i as int),
                    ).push(c@));
                    assert(crate::grants::string_views(canonical@) =~= canonical_roots(
                        roots@.subrange(0, i + 1),
                    ));
                },
                Err(e) => {
                    let mut m = String::from_str("failed to canonicalize root '");
                    push_str(&mut m, roots[i].0.as_str());
                    push_str(&mut m, "': ");
                    push_str(&mut m, e.as_str());
                    return Err(FsError::InvalidPath(m));
                },
            }
            i = i + 1;
        }
        assert(roots@.subrange(0, roots@.len() as int) =~= roots@);
        Ok(FilesystemConfig { allowed_roots: canonical, max_file_bytes })
    }
}

/// The lowercase hex BLAKE3-256 digest of `data`.
pub fn hash_bytes(data: &[u8]) -> (h: String)
    ensures
        h@ == hex_lower(spec_blake3(data@)),
        h@.len() == 64,
{
    blake3_hex(data)
}

/// The path is refused before any resolution: empty, holding NUL, absolute
/// (`/`, `\`), or with a drive letter (an ASCII first character followed by
/// `:`, i.e. a second byte `:`).
pub open spec fn bad_shape(p: Seq<char>) -> bool {
    ||| p.len() == 0
    ||| p.contains('\0')
    ||| p[0] == '/'
    ||| p[0] == '\\'
    ||| (p.len() >= 2 && (p[0] as u32) < 128 && p[1] == ':')
}

/// Reject empty paths, NUL bytes, absolute paths and drive-letter paths.
pub fn check_path_shape(path: &str) -> (r: Result<(), FsError>)
    ensures
        r is Ok <==> !bad_shape(path@),
        r is Err ==> r matches Err(FsError::InvalidPath(_)),
{
    let cs = chars_of(path);
    if cs.len() == 0 {
        return Err(FsError::InvalidPath(String::from_str("path must not be empty")));
    }
    let mut i: usize = 0;
    while i < cs.len()
        invariant
            i <= cs@.len(),
            cs@ == path@,
            forall|j: int| 0 <= j < i ==> cs@[j] != '\0',
        decreases cs@.len() - i,
    {
        if cs[i] == '\0' {
            assert(path@[i as int] == '\0');
            assert(path@.contains('\0'));
            return Err(FsError::InvalidPath(String::from_str("path must not contain NUL")));
        }
        i = i + 1;
    }
    assert(!path@.contains('\0'));
    if cs[0] == '/' || cs[0] == '\\' || (cs.len() >= 2 && (cs[0] as u32) < 128 && cs[1] == ':') {
        let mut m = String::from_str("absolute path rejected: ");
        push_str(&mut m, path);
        return Err(FsError::InvalidPath(m));
    }
    Ok(())
}

/// The filesystem backend: its configuration; the operating system is
/// consulted by the caller.
#[derive(Debug, Clone)]
pub struct FilesystemBackend {
    config: FilesystemConfig,
}

impl FilesystemBackend {
    /// The configured roots.
    pub closed spec fn roots(&self) -> Seq<Seq<char>> {
        crate::grants::string_views(self.config.allowed_roots@)
    }

    /// The configured file-size limit.
    pub closed spec fn max_file_bytes(&self) -> nat {
        self.config.max_file_bytes as nat
    }

    /// A backend over the given configuration.
    pub fn new(config: FilesystemConfig) -> (b: FilesystemBackend)
        ensures
            b.roots() == crate::grants::string_views(config.allowed_roots@),
            b.max_file_bytes() == config.max_file_bytes,
    {
        FilesystemBackend { config }
    }

    /// The underlying configuration.
    pub fn config(&self) -> (c: &FilesystemConfig)
        ensures
            crate::grants::string_views(c.allowed_roots@) == self.roots(),
            c.max_file_bytes == self.max_file_bytes(),
    {
        &self.config
    }
}


/// What canonicalizing a path gave.
#[derive(Debug, Clone)]
pub enum Canonical {
    /// The canonical path.
    Found(String),
    /// The path does not exist.
    Missing,
    /// Another OS error (permission, not a directory, ...).
    Failed,
}

/// The content of a canonicalization outcome.
pub enum CanonicalView {
    Found(Seq<char>),
    Missing,
    Failed,
}

impl View for Canonical {
    type V = CanonicalView;

    open spec fn view(&self) -> CanonicalView {
        match self {
            Canonical::Found(p) => CanonicalView::Found(p@),
            Canonical::Missing => CanonicalView::Missing,
            Canonical::Failed => CanonicalView::Failed,
        }
    }
}

/// For one root, in configuration order: what canonicalizing `root/path`
/// gave and, when that path was missing, what canonicalizing its parent gave.
#[derive(Debug, Clone)]
pub struct ResolveProbe {
    pub target: Canonical,
    pub parent: Canonical,
}

/// The views of a list of probes.
pub open spec fn probe_views(v: Seq<ResolveProbe>) -> Seq<(CanonicalView, CanonicalView)> {
    Seq::new(v.len(), |i: int| (v[i].target@, v[i].parent@))
}

/// The views of a list of canonicalization outcomes.
pub open spec fn canonical_views(v: Seq<Canonical>) -> Seq<CanonicalView> {
    Seq::new(v.len(), |i: int| v[i]@)
}

/// The outcome of a resolution.
pub enum Resolved {
    Path(Seq<char>),
    InvalidPath,
    Escape,
    NotFound,
    Io,
}

/// The final component of a path, when it names one (not `..`).
pub open spec fn file_name(path: Seq<char>) -> Option<Seq<char>> {
    let cs = components(path);
    if cs.len() == 0 || cs.last() == seq!['.', '.'] {
        None
    } else {
        Some(cs.last())
    }
}

/// `leaf` joined under the directory `dir`.
pub open spec fn child_path(dir: Seq<char>, leaf: Seq<char>) -> Seq<char> {
    if dir.len() > 0 && dir.last() == '/' {
        dir + leaf
    } else {
        dir + seq!['/'] + leaf
    }
}

/// Resolution from the `i`-th root on: the first root whose probe decides.
pub open spec fn resolve_from(
    roots: Seq<Seq<char>>,
    path: Seq<char>,
    probes: Seq<(CanonicalView, CanonicalView)>,
    i: int,
) -> Resolved
    decreases roots.len() - i,
{
    if i < 0 || i >= roots.len() {
        if 0 < i {
            Resolved::NotFound
        } else {
            Resolved::Escape
        }
    } else {
        match probes[i].0 {
            CanonicalView::Found(c) => if path_under(c, roots[i]) {
                Resolved::Path(c)
            } else {
                Resolved::Escape
            },
            CanonicalView::Failed => Resolved::Io,
            CanonicalView::Missing => match probes[i].1 {
                CanonicalView::Found(cp) => if path_under(cp, roots[i]) {
                    match file_name(path) {
                        Some(l) => Resolved::Path(child_path(cp, l)),
                        None => Resolved::InvalidPath,
                    }
                } else {
                    Resolved::Escape
                },
                CanonicalView::Missing => resolve_from(roots, path, probes, i + 1),
                CanonicalView::Failed => Resolved::Io,
            },
        }
    }
}

/// Resolving a path, following a final symlink: the shape check, then the
/// roots in order. An existing target must canonicalize under its root; a
/// missing one is placed under its canonical parent, which must be under the
/// root; a path whose parent is missing under every root is not found (it
/// does not escape), and with no root at all nothing resolves.
pub open spec fn resolve_spec(roots: Seq<Seq<char>>, path: Seq<char>, probes: Seq<(CanonicalView, CanonicalView)>) -> Resolved {
    if bad_shape(path) {
        Resolved::InvalidPath
    } else {
        resolve_from(roots, path, probes, 0)
    }
}

/// Resolution without following the final component, from the `i`-th root
/// on; `missing` records that a parent was missing under an earlier root.
pub open spec fn resolve_no_follow_from(
    roots: Seq<Seq<char>>,
    leaf: Seq<char>,
    parents: Seq<CanonicalView>,
    i: int,
    missing: bool,
) -> Resolved
    decreases roots.len() - i,
{
    if i < 0 || i >= roots.len() {
        if missing {
            Resolved::NotFound
        } else {
            Resolved::Escape
        }
    } else {
        match parents[i] {
            CanonicalView::Found(cp) => if path_under(cp, roots[i]) {
                Resolved::Path(child_path(cp, leaf))
            } else {
                Resolved::Escape
            },
            CanonicalView::Missing => resolve_no_follow_from(roots, leaf, parents, i + 1, true),
            CanonicalView::Failed => Resolved::Io,
        }
    }
}

/// Resolving a path without following its final component: the shape
/// check, a final component that names something, then the first root under
/// which its parent canonicalizes (inside the root).
pub open spec fn resolve_no_follow_spec(roots: Seq<Seq<char>>, path: Seq<char>, parents: Seq<CanonicalView>) -> Resolved {
    if bad_shape(path) {
        Resolved::InvalidPath
    } else {
        match file_name(path) {
            None => Resolved::InvalidPath,
            Some(l) => resolve_no_follow_from(roots, l, parents, 0, false),
        }
    }
}

/// The error a resolution outcome is reported as.
pub open spec fn resolve_error(o: Resolved, e: FsError) -> bool {
    match o {
        Resolved::Path(_) => false,
        Resolved::InvalidPath => e is InvalidPath,
        Resolved::Escape => e matches FsError::FilesystemEscape(m) && m@ == "path escapes allowed boundary"@,
        Resolved::NotFound => e is NotFound,
        Resolved::Io => e is Io,
    }
}

/// The result matches a resolution outcome.
pub open spec fn resolve_result(o: Resolved, r: Result<String, FsError>) -> bool {
    match o {
        Resolved::Path(p) => r matches Ok(s) && s@ == p,
        _ => r matches Err(e) && resolve_error(o, e),
    }
}

/// Whether `p` lies at or under `root`, component-wise.
pub fn is_under(p: &str, root: &str) -> (r: bool)
    ensures
        r == path_under(p@, root@),
{
    let pc = chars_of(p);
    let rc = chars_of(root);
    let a = split_components(rc.as_slice());
    let b = split_components(pc.as_slice());
    comps_prefix_exec(&a, &b)
}

/// The final component of a path, when it names one.
pub fn file_name_of(path: &str) -> (r: Option<String>)
    ensures
        match file_name(path@) {
            Some(l) => r matches Some(s) && s@ == l,
            None => r is None,
        },
{
    let pc = chars_of(path);
    let cs = split_components(pc.as_slice());
    if cs.len() == 0 {
        return None;
    }
    let last = &cs[cs.len() - 1];
    assert(views(cs@).last() == last@);
    if last.len() == 2 && last[0] == '.' && last[1] == '.' {
        assert(last@ =~= seq!['.', '.']);
        return None;
    }
    assert(last@ != seq!['.', '.']);
    Some(string_of(last.as_slice()))
}

/// `leaf` joined under the directory `dir`.
pub fn join_child(dir: &str, leaf: &str) -> (r: String)
    ensures
        r@ == child_path(dir@, leaf@),
{
    let dc = chars_of(dir);
    let mut out = String::new();
    push_str(&mut out, dir);
    if !(dc.len() > 0 && dc[dc.len() - 1] == '/') {
        push_char(&mut out, '/');
    }
    push_str(&mut out, leaf);
    out
}

fn escape_error() -> (e: FsError)
    ensures
        e matches FsError::FilesystemEscape(m) && m@ == "path escapes allowed boundary"@,
{
    FsError::FilesystemEscape(String::from_str("path escapes allowed boundary"))
}

impl FilesystemBackend {
    /// Resolve an environment-relative path to a canonical path inside the
    /// allowed roots, following a final symlink, from what canonicalizing
    /// reported under each root (`probes`, one per root, in order).
    ///
    /// Remote-facing errors never carry a canonical path.
    pub fn resolve(&self, path: &str, probes: &[ResolveProbe]) -> (r: Result<String, FsError>)
        requires
            probes@.len() == self.roots().len(),
        ensures
            resolve_result(resolve_spec(self.roots(), path@, probe_views(probes@)), r),
    {
        match check_path_shape(path) {
            Ok(()) => {},
            Err(e) => {
                return Err(e);
            },
        }
        let ghost roots = self.roots();
        let ghost pv = probe_views(probes@);
        let mut i: usize = 0;
        while i < probes.len()
            invariant
                roots == self.roots(),
                pv == probe_views(probes@),
                probes@.len() == roots.len(),
                roots.len() == self.config.allowed_roots@.len(),
                i <= probes@.len(),
                !bad_shape(path@),
                resolve_spec(roots, path@, pv) == resolve_from(roots, path@, pv, i as int),
            decreases probes@.len() - i,
        {
            let root = &self.config.allowed_roots[i];
            assert(roots[i as int] == root@);
            let probe = &probes[i];
            assert(pv[i as int] == (probe.target@, probe.parent@));
            match &probe.target {
                Canonical::Found(c) => {
                    if is_under(c.as_str(), root.as_str()) {
                        return Ok(c.clone());
                    }
                    return Err(escape_error());
                },
                Canonical::Failed => {
                    return Err(FsError::Io(String::from_str("failed to resolve path")));
                },
                Canonical::Missing => match &probe.parent {
                    Canonical::Found(cp) => {
                        if !is_under(cp.as_str(), root.as_str()) {
                            return Err(escape_error());
                        }
                        match file_name_of(path) {
                            Some(leaf) => {
                                return Ok(join_child(cp.as_str(), leaf.as_str()));
                            },
                            None => {
                                let mut m = String::from_str("no file name in path: ");
                                push_str(&mut m, path);
                                return Err(FsError::InvalidPath(m));
                            },
                        }
                    },
                    Canonical::Missing => {},
                    Canonical::Failed => {
                        return Err(FsError::Io(String::from_str("failed to resolve parent directory")));
                    },
                },
            }
            i = i + 1;
        }
        if i == 0 {
            return Err(escape_error());
        }
        let mut m = String::from_str("parent directory does not exist: ");
        push_str(&mut m, path);
        Err(FsError::NotFound(m))
    }

    /// Resolve a path without following its final component (rename and
    /// delete act on a link itself), from what canonicalizing its parent
    /// reported under each root (`parents`, one per root, in order). A
    /// parent missing under every root is `NotFound`.
    pub fn resolve_no_follow(&self, path: &str, parents: &[Canonical]) -> (r: Result<String, FsError>)
        requires
            parents@.len() == self.roots().len(),
        ensures
            resolve_result(resolve_no_follow_spec(self.roots(), path@, canonical_views(parents@)), r),
    {
        match check_path_shape(path) {
            Ok(()) => {},
            Err(e) => {
                return Err(e);
            },
        }
        let leaf = match file_name_of(path) {
            Some(l) => l,
            None => {
                let mut m = String::from_str("no file name in path: ");
                push_str(&mut m, path);
                return Err(FsError::InvalidPath(m));
            },
        };
        let ghost roots = self.roots();
        let ghost pv = canonical_views(parents@);
        let mut missing = false;
        let mut i: usize = 0;
        while i < parents.len()
            invariant
                roots == self.roots(),
                pv == canonical_views(parents@),
                parents@.len() == roots.len(),
                roots.len() == self.config.allowed_roots@.len(),
                i <= parents@.len(),
                file_name(path@) == Some(leaf@),
                resolve_no_follow_spec(roots, path@, pv) == resolve_no_follow_from(roots, leaf@, pv, i as int, missing),
            decreases parents@.len() - i,
        {
            let root = &self.config.allowed_roots[i];
            assert(roots[i as int] == root@);
            assert(pv[i as int] == parents@[i as int]@);
            match &parents[i] {
                Canonical::Found(cp) => {
                    if is_under(cp.as_str(), root.as_str()) {
                        return Ok(join_child(cp.as_str(), leaf.as_str()));
                    }
                    return Err(escape_error());
                },
                Canonical::Missing => {
                    missing = true;
                },
                Canonical::Failed => {
                    return Err(FsError::Io(String::from_str("failed to resolve parent directory")));
                },
            }
            i = i + 1;
        }
        if missing {
            let mut m = String::from_str("parent does not exist: ");
            push_str(&mut m, path);
            return Err(FsError::NotFound(m));
        }
        Err(escape_error())
    }
}

proof fn lemma_child_under(dir: Seq<char>, leaf: Seq<char>, root: Seq<char>)
    requires
        path_under(dir, root),
        is_component(leaf),
        no_sep(leaf),
    ensures
        path_under(child_path(dir, leaf), root),
        components(child_path(dir, leaf)) == components(dir).push(leaf),
{
    if dir.len() > 0 && dir.last() == '/' {
        lemma_components_child(dir, leaf);
    } else {
        let d2 = dir + seq!['/'];
        lemma_components_slash(dir);
        lemma_components_child(d2, leaf);
        assert(d2 + leaf =~= dir + seq!['/'] + leaf);
    }
    let cd = components(dir);
    let cr = components(root);
    assert(cd.push(leaf).subrange(0, cr.len() as int) =~= cd.subrange(0, cr.len() as int));
}

proof fn lemma_file_name_component(path: Seq<char>)
    ensures
        file_name(path) matches Some(l) ==> is_component(l) && no_sep(l) && l != seq!['.', '.'],
{
    lemma_components_are_components(path);
    if components(path).len() > 0 {
        assert(is_component(components(path)[components(path).len() - 1]));
    }
}

proof fn lemma_resolve_from_confined(
    roots: Seq<Seq<char>>,
    path: Seq<char>,
    probes: Seq<(CanonicalView, CanonicalView)>,
    i: int,
)
    ensures
        resolve_from(roots, path, probes, i) matches Resolved::Path(p) ==> exists|k: int|
            0 <= k < roots.len() && path_under(p, #[trigger] roots[k]),
    decreases roots.len() - i,
{
    lemma_file_name_component(path);
    if 0 <= i < roots.len() {
        match probes[i].0 {
            CanonicalView::Missing => match probes[i].1 {
                CanonicalView::Found(cp) => {
                    if path_under(cp, roots[i]) {
                        if let Some(l) = file_name(path) {
                            lemma_child_under(cp, l, roots[i]);
                        }
                    }
                },
                CanonicalView::Missing => {
                    lemma_resolve_from_confined(roots, path, probes, i + 1);
                },
                _ => {},
            },
            _ => {},
        }
    }
}

proof fn lemma_resolve_no_follow_from_confined(
    roots: Seq<Seq<char>>,
    leaf: Seq<char>,
    parents: Seq<CanonicalView>,
    i: int,
    missing: bool,
)
    requires
        is_component(leaf),
        no_sep(leaf),
    ensures
        resolve_no_follow_from(roots, leaf, parents, i, missing) matches Resolved::Path(p) ==> exists|k: int|
            0 <= k < roots.len() && path_under(p, #[trigger] roots[k]) && components(p).last() == leaf,
    decreases roots.len() - i,
{
    if 0 <= i < roots.len() {
        match parents[i] {
            CanonicalView::Found(cp) => {
                if path_under(cp, roots[i]) {
                    lemma_child_under(cp, leaf, roots[i]);
                }
            },
            CanonicalView::Missing => {
                lemma_resolve_no_follow_from_confined(roots, leaf, parents, i + 1, true);
            },
            _ => {},
        }
    }
}

/// Trailing `/` characters add no component.
proof fn lemma_trim_keeps_components(s: Seq<char>)
    ensures
        components(trim_trailing_slashes(s)) == components(s),
    decreases s.len(),
{
    if s.len() > 0 && s.last() == '/' {
        lemma_trim_keeps_components(s.drop_last());
        assert(s.drop_last() + seq!['/'] =~= s);
        lemma_components_slash(s.drop_last());
    }
}

/// A listing entry lies directly under the listed directory: for a listed
/// path other than the root (`""` or `.`) and an entry name that is one
/// component, the entry's path has the listed path's components followed by
/// the name, and it is the listed path without trailing `/`, a `/`, and the
/// name.
pub proof fn law_entries_lie_under_the_listed_path(path: Seq<char>, name: Seq<char>)
    requires
        path.len() > 0,
        path != seq!['.'],
        is_component(name),
        no_sep(name),
    ensures
        components(entry_rel_path(path, name)) == components(path).push(name),
        entry_rel_path(path, name).len() == trim_trailing_slashes(path).len() + 1 + name.len(),
        entry_rel_path(path, name).subrange(0, trim_trailing_slashes(path).len() as int) == trim_trailing_slashes(path),
        entry_rel_path(path, name)[trim_trailing_slashes(path).len() as int] == '/',
        entry_rel_path(path, name).subrange(trim_trailing_slashes(path).len() + 1int, entry_rel_path(path, name).len() as int)
            == name,
{
    let d = trim_trailing_slashes(path);
    let s = d + seq!['/'];
    lemma_trim_keeps_components(path);
    lemma_components_slash(d);
    lemma_components_child(s, name);
    assert(s + name =~= d + seq!['/'] + name);
    assert((s + name).subrange(0, d.len() as int) =~= d);
    assert((s + name).subrange(d.len() + 1int, (s + name).len() as int) =~= name);
}

/// Listing the root (`""` or `.`) reports each entry by its bare name.
pub proof fn law_root_entries_are_bare_names(path: Seq<char>, name: Seq<char>)
    requires
        path.len() == 0 || path == seq!['.'],
    ensures
        entry_rel_path(path, name) == name,
{
}

/// Roots before `j` under which the target and its parent are both missing
/// are passed over: resolution from any of them is resolution from `j`.
proof fn lemma_resolve_skips_missing(
    roots: Seq<Seq<char>>,
    path: Seq<char>,
    probes: Seq<(CanonicalView, CanonicalView)>,
    k: int,
    j: int,
)
    requires
        0 <= k <= j < roots.len(),
        forall|i: int| k <= i < j ==> #[trigger] probes[i] == (CanonicalView::Missing, CanonicalView::Missing),
    ensures
        resolve_from(roots, path, probes, k) == resolve_from(roots, path, probes, j),
    decreases j - k,
{
    if k < j {
        assert(probes[k] == (CanonicalView::Missing, CanonicalView::Missing));
        lemma_resolve_skips_missing(roots, path, probes, k + 1, j);
    }
}

/// The same for resolution without following the final component.
proof fn lemma_resolve_no_follow_skips_missing(
    roots: Seq<Seq<char>>,
    leaf: Seq<char>,
    parents: Seq<CanonicalView>,
    k: int,
    j: int,
    missing: bool,
)
    requires
        0 <= k <= j < roots.len(),
        forall|i: int| k <= i < j ==> #[trigger] parents[i] == CanonicalView::Missing,
    ensures
        resolve_no_follow_from(roots, leaf, parents, k, missing) == resolve_no_follow_from(
            roots,
            leaf,
            parents,
            j,
            missing || k < j,
        ),
    decreases j - k,
{
    if k < j {
        assert(parents[k] == CanonicalView::Missing);
        lemma_resolve_no_follow_skips_missing(roots, leaf, parents, k + 1, j, true);
    }
}

/// Roots are tried in order: when under every root before `j` both the
/// target and its parent are missing, root `j` decides as the first root
/// would. A target found inside it resolves to its canonical path; a missing
/// target whose parent is inside it resolves under that parent; and when the
/// path is missing under every root it is not found.
pub proof fn law_roots_are_tried_in_order(
    roots: Seq<Seq<char>>,
    path: Seq<char>,
    probes: Seq<(CanonicalView, CanonicalView)>,
    j: int,
)
    requires
        !bad_shape(path),
        0 <= j < roots.len(),
        forall|i: int| 0 <= i < j ==> #[trigger] probes[i] == (CanonicalView::Missing, CanonicalView::Missing),
    ensures
        probes[j].0 matches CanonicalView::Found(c) ==> (path_under(c, roots[j]) ==> resolve_spec(roots, path, probes)
            == Resolved::Path(c)),
        probes[j].0 matches CanonicalView::Found(c) ==> (!path_under(c, roots[j]) ==> resolve_spec(
            roots,
            path,
            probes,
        ) == Resolved::Escape),
        probes[j].0 is Missing ==> (probes[j].1 matches CanonicalView::Found(cp) ==> (path_under(cp, roots[j]) ==> (
        file_name(path) matches Some(l) ==> resolve_spec(roots, path, probes) == Resolved::Path(child_path(cp, l))))),
        j == roots.len() - 1 && probes[j] == (CanonicalView::Missing, CanonicalView::Missing) ==> resolve_spec(
            roots,
            path,
            probes,
        ) == Resolved::NotFound,
{
    lemma_resolve_skips_missing(roots, path, probes, 0, j);
    if j == roots.len() - 1 && probes[j] == (CanonicalView::Missing, CanonicalView::Missing) {
        assert(resolve_from(roots, path, probes, j) == resolve_from(roots, path, probes, j + 1));
    }
}

/// Roots are tried in order without following the final component too:
/// when the parent is missing under every root before `j`, a parent inside
/// root `j` places the path under it, and a parent missing under every root
/// is not found.
pub proof fn law_roots_are_tried_in_order_no_follow(
    roots: Seq<Seq<char>>,
    path: Seq<char>,
    parents: Seq<CanonicalView>,
    j: int,
)
    requires
        !bad_shape(path),
        file_name(path) is Some,
        0 <= j < roots.len(),
        forall|i: int| 0 <= i < j ==> #[trigger] parents[i] == CanonicalView::Missing,
    ensures
        parents[j] matches CanonicalView::Found(cp) ==> (path_under(cp, roots[j]) ==> resolve_no_follow_spec(
            roots,
            path,
            parents,
        ) == Resolved::Path(child_path(cp, file_name(path)->Some_0))),
        j == roots.len() - 1 && parents[j] == CanonicalView::Missing ==> resolve_no_follow_spec(roots, path, parents)
            == Resolved::NotFound,
{
    let l = file_name(path)->Some_0;
    lemma_resolve_no_follow_skips_missing(roots, l, parents, 0, j, false);
    if j == roots.len() - 1 && parents[j] == CanonicalView::Missing {
        let m = 0 < j;
        assert(resolve_no_follow_from(roots, l, parents, j, m) == resolve_no_follow_from(roots, l, parents, j + 1, true));
        assert(resolve_no_follow_from(roots, l, parents, j + 1, true) == Resolved::NotFound);
    }
}

/// Confinement: whatever the filesystem reported, a path that resolution
/// accepts lies at or under one of the allowed roots — with or without
/// following the final component. Without following, the resolved path ends
/// in the requested final component.
pub proof fn law_resolution_is_confined(
    roots: Seq<Seq<char>>,
    path: Seq<char>,
    probes: Seq<(CanonicalView, CanonicalView)>,
    parents: Seq<CanonicalView>,
)
    ensures
        resolve_spec(roots, path, probes) matches Resolved::Path(p) ==> exists|k: int|
            0 <= k < roots.len() && path_under(p, #[trigger] roots[k]),
        resolve_no_follow_spec(roots, path, parents) matches Resolved::Path(p) ==> exists|k: int|
            0 <= k < roots.len() && path_under(p, #[trigger] roots[k]) && components(p).last() == file_name(
                path,
            )->Some_0,
{
    lemma_resolve_from_confined(roots, path, probes, 0);
    lemma_file_name_component(path);
    if let Some(l) = file_name(path) {
        lemma_resolve_no_follow_from_confined(roots, l, parents, 0, false);
    }
}

/// Absolute paths, drive-letter paths, empty paths and paths holding NUL
/// are refused before any root is consulted.
pub proof fn law_bad_shapes_are_refused(
    roots: Seq<Seq<char>>,
    path: Seq<char>,
    probes: Seq<(CanonicalView, CanonicalView)>,
    parents: Seq<CanonicalView>,
)
    requires
        bad_shape(path),
    ensures
        resolve_spec(roots, path, probes) is InvalidPath,
        resolve_no_follow_spec(roots, path, parents) is InvalidPath,
{
}


/// File or directory metadata as reported to clients.
#[derive(Debug, Clone)]
pub struct FileMetadata {
    pub size: u64,
    /// Modification time, seconds since the Unix epoch, when known.
    pub modified_at: Option<u64>,
    pub is_dir: bool,
    pub is_file: bool,
    /// Lowercase hex BLAKE3-256 of the content; only for regular files.
    pub hash: Option<String>,
}

/// The content hash of `content`.
pub open spec fn content_hash(content: Seq<u8>) -> Seq<char> {
    hex_lower(spec_blake3(content))
}

/// A reported hash is accepted back: the hash that a read or a write
/// reports for some content is its own lowercase form, so a later write that
/// names it as the expected hash passes the conflict check
/// (`verify_expected_hash`) exactly while the file still holds that content.
pub proof fn law_reported_hash_is_accepted(content: Seq<u8>)
    ensures
        ascii_lower(content_hash(content)) == content_hash(content),
{
    let h = content_hash(content);
    let b = spec_blake3(content);
    assert forall|i: int| 0 <= i < h.len() implies #[trigger] crate::names::lower_char(h[i]) == h[i] by {
        if i % 2 == 0 {
            crate::hex::lemma_hex_char_is_lower_hex((b[i / 2] / 16) as nat);
        } else {
            crate::hex::lemma_hex_char_is_lower_hex((b[i / 2] % 16) as nat);
        }
    }
    assert(ascii_lower(h) =~= h);
}

/// Metadata without a content hash (listing entries, directories).
pub fn make_metadata(size: u64, modified_at: Option<u64>, is_dir: bool, is_file: bool) -> (m: FileMetadata)
    ensures
        m.size == size,
        m.modified_at == modified_at,
        m.is_dir == is_dir,
        m.is_file == is_file,
        m.hash is None,
{
    FileMetadata { size, modified_at, is_dir, is_file, hash: None }
}

/// Attach the content hash to a regular file's metadata; directories and
/// other entries never carry one.
pub fn with_content_hash(meta: FileMetadata, content: &[u8]) -> (m: FileMetadata)
    ensures
        m.size == meta.size,
        m.modified_at == meta.modified_at,
        m.is_dir == meta.is_dir,
        m.is_file == meta.is_file,
        meta.is_file ==> (m.hash matches Some(h) && h@ == content_hash(content@)),
        !meta.is_file ==> m.hash == meta.hash,
{
    let mut meta = meta;
    if meta.is_file {
        meta.hash = Some(hash_bytes(content));
    }
    meta
}

/// The path of a listing entry, relative to the environment: the entry's
/// name under the listed path (`.` and the empty path list the root).
pub open spec fn entry_rel_path(path: Seq<char>, name: Seq<char>) -> Seq<char> {
    if path.len() == 0 || path == seq!['.'] {
        name
    } else {
        trim_trailing_slashes(path) + seq!['/'] + name
    }
}

/// `s` without its trailing `/` characters.
pub open spec fn trim_trailing_slashes(s: Seq<char>) -> Seq<char>
    decreases s.len(),
{
    if s.len() > 0 && s.last() == '/' {
        trim_trailing_slashes(s.drop_last())
    } else {
        s
    }
}

/// The environment-relative path of a listing entry.
pub fn entry_path(path: &str, name: &str) -> (r: String)
    ensures
        r@ == entry_rel_path(path@, name@),
{
    let cs = chars_of(path);
    if cs.len() == 0 || (cs.len() == 1 && cs[0] == '.') {
        proof {
            if cs@.len() == 1 {
                assert(cs@ =~= seq!['.']);
            }
        }
        return name.to_string();
    }
    assert(path@ != seq!['.']) by {
        if path@ == seq!['.'] {
            assert(cs@.len() == 1 && cs@[0] == '.');
        }
    }
    let mut n: usize = cs.len();
    assert(cs@.subrange(0, n as int) =~= cs@);
    while n > 0 && cs[n - 1] == '/'
        invariant
            n <= cs@.len(),
            cs@ == path@,
            trim_trailing_slashes(path@) == trim_trailing_slashes(cs@.subrange(0, n as int)),
        decreases n,
    {
        assert(cs@.subrange(0, n as int).drop_last() =~= cs@.subrange(0, n - 1));
        n = n - 1;
    }
    let mut out = string_of(&cs.as_slice()[0..n]);
    proof {
        assert(cs@.subrange(0, n as int) == trim_trailing_slashes(cs@.subrange(0, n as int)));
    }
    push_char(&mut out, '/');
    push_str(&mut out, name);
    out
}

fn too_large(path: &str, size: u64, limit: u64) -> (e: FsError)
    ensures
        e matches FsError::FileTooLarge { path: p, size: s, limit: l } && p@ == path@ && s == size && l == limit,
{
    FsError::FileTooLarge { path: path.to_string(), size, limit }
}

/// What `symlink_metadata` reported for a write target.
#[derive(Debug, Clone)]
pub enum TargetProbe {
    /// A directory.
    Directory,
    /// A file (or a link to one, already followed by resolution) of this size.
    File { size: u64 },
    /// Nothing there.
    Missing,
    /// Another OS error.
    Error { kind: IoKind, text: String },
}

/// The next step of a write once its target was inspected.
#[derive(Debug, Clone, Copy, PartialEq, Eq)]
pub enum WriteStep {
    /// Commit the content (temp file, fsync, atomic rename).
    Commit,
    /// Read the current content and check it against the expected hash,
    /// then commit.
    VerifyHash,
}

impl FilesystemBackend {
    /// The read decision once the target's metadata is known: directories
    /// are refused, and so are files over the size limit (before any byte
    /// is loaded).
    pub fn check_read(&self, path: &str, is_dir: bool, size: u64) -> (r: Result<(), FsError>)
        ensures
            is_dir ==> (r matches Err(FsError::IsADirectory(p)) && p@ == path@),
            !is_dir && size > self.max_file_bytes() ==> (r matches Err(
                FsError::FileTooLarge { path: p, size: s, limit: l },
            ) && p@ == path@ && s == size && l == self.max_file_bytes()),
            !is_dir && size <= self.max_file_bytes() ==> r is Ok,
    {
        if is_dir {
            return Err(FsError::IsADirectory(path.to_string()));
        }
        let limit = self.config.max_file_bytes as u64;
        if size > limit {
            return Err(too_large(path, size, limit));
        }
        Ok(())
    }

    /// Whether metadata of an entry carries a content hash: only regular
    /// files within the size limit (a bigger file still gets its metadata,
    /// without hash).
    pub fn metadata_wants_hash(&self, is_file: bool, size: u64) -> (r: bool)
        ensures
            r == (is_file && size <= self.max_file_bytes()),
    {
        is_file && size <= self.config.max_file_bytes as u64
    }

    /// The first write check, before any I/O: the payload must fit the size
    /// limit.
    pub fn check_write_size(&self, path: &str, content_len: usize) -> (r: Result<(), FsError>)
        ensures
            content_len > self.max_file_bytes() ==> (r matches Err(
                FsError::FileTooLarge { path: p, size: s, limit: l },
            ) && p@ == path@ && s == content_len && l == self.max_file_bytes()),
            content_len <= self.max_file_bytes() ==> r is Ok,
    {
        let limit = self.config.max_file_bytes as u64;
        if content_len as u64 > limit {
            return Err(too_large(path, content_len as u64, limit));
        }
        Ok(())
    }

    /// The write decision once the resolved target was inspected:
    /// directories are refused; an existing file needs `overwrite`, and
    /// with an expected hash it must fit the size limit to be verified; a
    /// missing file cannot match an expected hash.
    pub fn check_write_target(&self, path: &str, target: &TargetProbe, overwrite: bool, expect_hash: bool) -> (r:
        Result<WriteStep, FsError>)
        ensures
            match *target {
                TargetProbe::Directory => r matches Err(FsError::IsADirectory(p)) && p@ == path@,
                TargetProbe::File { size } => if !overwrite {
                    r matches Err(FsError::Conflict(m)) && m@ == "file already exists (pass overwrite to replace): "@
                        + path@
                } else if !expect_hash {
                    r == Ok::<WriteStep, FsError>(WriteStep::Commit)
                } else if size > self.max_file_bytes() {
                    r matches Err(FsError::FileTooLarge { path: p, size: s, limit: l }) && p@ == path@ && s == size
                        && l == self.max_file_bytes()
                } else {
                    r == Ok::<WriteStep, FsError>(WriteStep::VerifyHash)
                },
                TargetProbe::Missing => if expect_hash {
                    r matches Err(FsError::Conflict(m)) && m@ == changed_since_read(path@)
                } else {
                    r == Ok::<WriteStep, FsError>(WriteStep::Commit)
                },
                TargetProbe::Error { kind, text } => r == Err::<WriteStep, FsError>(fs_error_from_io_spec(kind, text)),
            },
    {
        match target {
            TargetProbe::Directory => Err(FsError::IsADirectory(path.to_string())),
            TargetProbe::File { size } => {
                if !overwrite {
                    let mut m = String::from_str("file already exists (pass overwrite to replace): ");
                    push_str(&mut m, path);
                    return Err(FsError::Conflict(m));
                }
                if !expect_hash {
                    return Ok(WriteStep::Commit);
                }
                let limit = self.config.max_file_bytes as u64;
                if *size > limit {
                    return Err(too_large(path, *size, limit));
                }
                Ok(WriteStep::VerifyHash)
            },
            TargetProbe::Missing => {
                if expect_hash {
                    let mut m = String::from_str("file changed since read: ");
                    push_str(&mut m, path);
                    return Err(FsError::Conflict(m));
                }
                Ok(WriteStep::Commit)
            },
            TargetProbe::Error { kind, text } => Err(fs_error_from_io(*kind, text.clone())),
        }
    }
}

/// The conflict a write gets when the file is not what the writer last
/// read: it names the path only, nothing of the content.
pub open spec fn changed_since_read(path: Seq<char>) -> Seq<char> {
    "file changed since read: "@ + path
}

/// The filesystem error for an OS error.
pub open spec fn fs_error_from_io_spec(kind: IoKind, text: String) -> FsError {
    match kind {
        IoKind::NotFound => FsError::NotFound(text),
        IoKind::PermissionDenied => FsError::PermissionDenied(text),
        _ => FsError::Io(text),
    }
}

/// A listing's target must be a directory.
pub fn check_list_target(path: &str, is_dir: bool) -> (r: Result<(), FsError>)
    ensures
        is_dir <==> r is Ok,
        !is_dir ==> (r matches Err(FsError::NotADirectory(p)) && p@ == path@),
{
    if is_dir {
        Ok(())
    } else {
        Err(FsError::NotADirectory(path.to_string()))
    }
}

/// The error of reading a file's current content for its hash: a file that
/// vanished since it was examined is a `Conflict`, as a changed one is.
pub fn hash_read_error(path: &str, kind: IoKind, text: String) -> (e: FsError)
    ensures
        kind is NotFound ==> (e matches FsError::Conflict(m) && m@ == "file changed since read: "@ + path@),
        !(kind is NotFound) ==> e == fs_error_from_io_spec(kind, text),
{
    match kind {
        IoKind::NotFound => {
            let mut m = String::from_str("file changed since read: ");
            push_str(&mut m, path);
            FsError::Conflict(m)
        },
        _ => fs_error_from_io(kind, text),
    }
}

/// Before a write is committed, the target's parent directory must exist;
/// no directory is created implicitly.
pub fn check_write_parent(path: &str, has_parent: bool, parent_exists: bool) -> (r: Result<(), FsError>)
    ensures
        !has_parent ==> (r matches Err(FsError::InvalidPath(m)) && m@ == "no parent directory in path: "@ + path@),
        has_parent && !parent_exists ==> (r matches Err(FsError::NotFound(m)) && m@
            == "parent directory does not exist: "@ + path@),
        has_parent && parent_exists ==> r is Ok,
{
    if !has_parent {
        let mut m = String::from_str("no parent directory in path: ");
        push_str(&mut m, path);
        return Err(FsError::InvalidPath(m));
    }
    if !parent_exists {
        let mut m = String::from_str("parent directory does not exist: ");
        push_str(&mut m, path);
        return Err(FsError::NotFound(m));
    }
    Ok(())
}

/// The error of a no-replace rename: an existing destination is a
/// `Conflict` (never a silent overwrite).
pub fn noreplace_error(kind: IoKind, text: String) -> (e: FsError)
    ensures
        kind is AlreadyExists ==> (e matches FsError::Conflict(m) && m@ == "destination exists"@),
        !(kind is AlreadyExists) ==> e == fs_error_from_io_spec(kind, text),
{
    match kind {
        IoKind::AlreadyExists => FsError::Conflict(String::from_str("destination exists")),
        _ => fs_error_from_io(kind, text),
    }
}

/// Optimistic concurrency: the current content must hash to the expected
/// digest (compared in lowercase, as the daemon emits it). A mismatch is a
/// `Conflict` whose message reveals nothing of the content.
pub fn verify_expected_hash(path: &str, current: &[u8], expected: &str) -> (r: Result<(), FsError>)
    ensures
        r is Ok <==> content_hash(current@) == ascii_lower(expected@),
        r is Err ==> (r matches Err(FsError::Conflict(m)) && m@ == changed_since_read(path@)),
{
    let actual = hash_bytes(current);
    let expected_lower = ascii_lowercase(expected);
    if str_eq(actual.as_str(), expected_lower.as_str()) {
        Ok(())
    } else {
        let mut m = String::from_str("file changed since read: ");
        push_str(&mut m, path);
        Err(FsError::Conflict(m))
    }
}

/// What `symlink_metadata` reported for a path that is acted on itself
/// (not followed).
#[derive(Debug, Clone)]
pub enum LeafProbe {
    Missing,
    Error { kind: IoKind, text: String },
    Symlink,
    File,
    /// A directory, and whether it has no entries.
    Directory { empty: bool },
    /// A socket, fifo, device, ...
    Other,
}

/// How to delete what a path names.
#[derive(Debug, Clone, Copy, PartialEq, Eq)]
pub enum DeleteAction {
    /// Unlink the file or the link itself (a link's target is untouched).
    RemoveFile,
    /// Remove the empty directory.
    RemoveDir,
}

/// The delete decision: files and links are unlinked, empty directories
/// removed; a non-empty directory is a `Conflict` (never a recursive
/// delete); a missing path is `NotFound`; exotic types are refused.
pub fn delete_decision(path: &str, probe: &LeafProbe) -> (r: Result<DeleteAction, FsError>)
    ensures
        match *probe {
            LeafProbe::Missing => r matches Err(FsError::NotFound(_)),
            LeafProbe::Error { kind, text } => r == Err::<DeleteAction, FsError>(fs_error_from_io_spec(kind, text)),
            LeafProbe::Symlink | LeafProbe::File => r == Ok::<DeleteAction, FsError>(DeleteAction::RemoveFile),
            LeafProbe::Directory { empty } => if empty {
                r == Ok::<DeleteAction, FsError>(DeleteAction::RemoveDir)
            } else {
                r matches Err(FsError::Conflict(_))
            },
            LeafProbe::Other => r matches Err(FsError::InvalidPath(_)),
        },
{
    match probe {
        LeafProbe::Missing => {
            let mut m = String::from_str("not found: ");
            push_str(&mut m, path);
            Err(FsError::NotFound(m))
        },
        LeafProbe::Error { kind, text } => Err(fs_error_from_io(*kind, text.clone())),
        LeafProbe::Symlink | LeafProbe::File => Ok(DeleteAction::RemoveFile),
        LeafProbe::Directory { empty } => {
            if *empty {
                Ok(DeleteAction::RemoveDir)
            } else {
                let mut m = String::from_str("directory not empty; recursive delete not supported: ");
                push_str(&mut m, path);
                Err(FsError::Conflict(m))
            }
        },
        LeafProbe::Other => {
            let mut m = String::from_str("unsupported file type: ");
            push_str(&mut m, path);
            Err(FsError::InvalidPath(m))
        },
    }
}

/// The rename decision on the resolved (not followed) ends: the two ends
/// must differ; the source must exist; the destination must not (no silent
/// overwrite).
pub fn rename_decision(src: &str, dst: &str, src_canon: &str, dst_canon: &str, src_probe: &LeafProbe, dst_exists: bool) -> (r:
    Result<(), FsError>)
    ensures
        src_canon@ == dst_canon@ ==> r matches Err(FsError::InvalidPath(_)),
        src_canon@ != dst_canon@ ==> match *src_probe {
            LeafProbe::Missing => r matches Err(FsError::NotFound(_)),
            LeafProbe::Error { kind, text } => r == Err::<(), FsError>(fs_error_from_io_spec(kind, text)),
            _ => if dst_exists {
                r matches Err(FsError::Conflict(_))
            } else {
                r is Ok
            },
        },
{
    if str_eq(src_canon, dst_canon) {
        return Err(FsError::InvalidPath(String::from_str("src and dst resolve to the same path")));
    }
    match src_probe {
        LeafProbe::Missing => {
            let mut m = String::from_str("source not found: ");
            push_str(&mut m, src);
            return Err(FsError::NotFound(m));
        },
        LeafProbe::Error { kind, text } => {
            return Err(fs_error_from_io(*kind, text.clone()));
        },
        _ => {},
    }
    if dst_exists {
        let mut m = String::from_str("destination already exists: ");
        push_str(&mut m, dst);
        return Err(FsError::Conflict(m));
    }
    Ok(())
}


/// `p` relative to `root` (which it lies under): the remaining components
/// joined with `/`, or `.` for the root itself.
pub open spec fn relative_to(p: Seq<char>, root: Seq<char>) -> Seq<char> {
    let rest = components(p).subrange(components(root).len() as int, components(p).len() as int);
    if rest.len() == 0 {
        seq!['.']
    } else {
        join(rest)
    }
}

/// `p` relative to the first root, from the `i`-th on, that it lies under.
pub open spec fn relativize_from(roots: Seq<Seq<char>>, p: Seq<char>, i: int) -> Option<Seq<char>>
    decreases roots.len() - i,
{
    if i < 0 || i >= roots.len() {
        None
    } else if path_under(p, roots[i]) {
        Some(relative_to(p, roots[i]))
    } else {
        relativize_from(roots, p, i + 1)
    }
}

/// The lexical creation path of a directory request: its components
/// (`.` dropped), refused when one is `..` or when none is left.
pub open spec fn creation_components_ok(path: Seq<char>) -> bool {
    &&& !bad_shape(path)
    &&& components(path).len() > 0
    &&& !components(path).contains(seq!['.', '.'])
}

fn relative_of(p: &str, root: &str) -> (r: String)
    requires
        path_under(p@, root@),
    ensures
        r@ == relative_to(p@, root@),
{
    let pc = chars_of(p);
    let rc = chars_of(root);
    let pcs = split_components(pc.as_slice());
    let rcs = split_components(rc.as_slice());
    if pcs.len() == rcs.len() {
        let d = String::from_str(".");
        proof {
            reveal_strlit(".");
        }
        assert(d@ =~= seq!['.']);
        return d;
    }
    let rest = &pcs.as_slice()[rcs.len()..pcs.len()];
    assert(views(rest@) =~= components(p@).subrange(components(root@).len() as int, components(p@).len() as int));
    let joined = join_components(rest);
    string_of(joined.as_slice())
}

impl FilesystemBackend {
    /// The environment-relative form of a canonical path: relative to the
    /// first root it lies under (`.` for the root itself); `None` when it
    /// lies under no root.
    pub fn relativize(&self, canonical: &str) -> (r: Option<String>)
        ensures
            match relativize_from(self.roots(), canonical@, 0) {
                Some(rel) => r matches Some(s) && s@ == rel,
                None => r is None,
            },
    {
        let ghost roots = self.roots();
        let mut i: usize = 0;
        while i < self.config.allowed_roots.len()
            invariant
                roots == self.roots(),
                roots.len() == self.config.allowed_roots@.len(),
                i <= roots.len(),
                relativize_from(roots, canonical@, 0) == relativize_from(roots, canonical@, i as int),
            decreases roots.len() - i,
        {
            let root = &self.config.allowed_roots[i];
            assert(roots[i as int] == root@);
            if is_under(canonical, root.as_str()) {
                return Some(relative_of(canonical, root.as_str()));
            }
            i = i + 1;
        }
        None
    }

    /// The lexical path a directory creation is authorized on: the shape
    /// check, then its components (`.` dropped) joined with `/`; a `..`
    /// component, or no component at all, is `InvalidPath`.
    pub fn creation_rel(&self, path: &str) -> (r: Result<String, FsError>)
        ensures
            creation_components_ok(path@) <==> r is Ok,
            r matches Ok(s) ==> s@ == join(components(path@)),
            r is Err ==> r matches Err(FsError::InvalidPath(_)),
    {
        creation_path(path)
    }
}

/// See [`FilesystemBackend::creation_rel`].
pub fn creation_path(path: &str) -> (r: Result<String, FsError>)
    ensures
        creation_components_ok(path@) <==> r is Ok,
        r matches Ok(s) ==> s@ == join(components(path@)),
        r is Err ==> r matches Err(FsError::InvalidPath(_)),
        !bad_shape(path@) && components(path@).contains(seq!['.', '.']) ==> (r matches Err(FsError::InvalidPath(m))
            && m@ == "invalid component in directory path: "@ + path@),
        !bad_shape(path@) && components(path@).len() == 0 ==> (r matches Err(FsError::InvalidPath(m)) && m@
            == "no directory name in path: "@ + path@),
{
    match check_path_shape(path) {
        Ok(()) => {},
        Err(e) => {
            return Err(e);
        },
    }
    let pc = chars_of(path);
    let cs = split_components(pc.as_slice());
    let mut i: usize = 0;
    while i < cs.len()
        invariant
            i <= cs@.len(),
            views(cs@) == components(path@),
            forall|j: int| 0 <= j < i ==> views(cs@)[j] != seq!['.', '.'],
        decreases cs@.len() - i,
    {
        let c = &cs[i];
        assert(views(cs@)[i as int] == c@);
        if c.len() == 2 && c[0] == '.' && c[1] == '.' {
            assert(c@ =~= seq!['.', '.']);
            assert(components(path@).contains(seq!['.', '.']));
            let mut m = String::from_str("invalid component in directory path: ");
            push_str(&mut m, path);
            return Err(FsError::InvalidPath(m));
        }
        assert(c@ != seq!['.', '.']);
        i = i + 1;
    }
    assert(!components(path@).contains(seq!['.', '.'])) by {
        if components(path@).contains(seq!['.', '.']) {
            let j = choose|j: int| 0 <= j < components(path@).len() && components(path@)[j] == seq!['.', '.'];
            assert(views(cs@)[j] != seq!['.', '.']);
        }
    }
    if cs.len() == 0 {
        let mut m = String::from_str("no directory name in path: ");
        push_str(&mut m, path);
        return Err(FsError::InvalidPath(m));
    }
    let joined = join_components(cs.as_slice());
    Ok(string_of(joined.as_slice()))
}

proof fn lemma_relativize_found(roots: Seq<Seq<char>>, p: Seq<char>, i: int, k: int)
    requires
        0 <= i <= k < roots.len(),
        path_under(p, roots[k]),
    ensures
        relativize_from(roots, p, i) is Some,
    decreases k - i,
{
    if !path_under(p, roots[i]) {
        lemma_relativize_found(roots, p, i + 1, k);
    }
}

/// Every path that resolution accepts (following the final component or
/// not) has an environment-relative form: the grant check always has a
/// relative path to decide on.
pub proof fn law_resolved_paths_relativize(
    roots: Seq<Seq<char>>,
    path: Seq<char>,
    probes: Seq<(CanonicalView, CanonicalView)>,
    parents: Seq<CanonicalView>,
)
    ensures
        resolve_spec(roots, path, probes) matches Resolved::Path(p) ==> relativize_from(roots, p, 0) is Some,
        resolve_no_follow_spec(roots, path, parents) matches Resolved::Path(p) ==> relativize_from(roots, p, 0) is Some,
{
    law_resolution_is_confined(roots, path, probes, parents);
    if let Resolved::Path(p) = resolve_spec(roots, path, probes) {
        let k = choose|k: int| 0 <= k < roots.len() && path_under(p, #[trigger] roots[k]);
        lemma_relativize_found(roots, p, 0, k);
    }
    if let Resolved::Path(p) = resolve_no_follow_spec(roots, path, parents) {
        let k = choose|k: int| 0 <= k < roots.len() && path_under(p, #[trigger] roots[k]) && components(p).last()
            == file_name(path)->Some_0;
        lemma_relativize_found(roots, p, 0, k);
    }
}


/// What the filesystem reported for one prefix of a directory being
/// created, `symlink_metadata` first.
#[derive(Debug)]
pub enum PrefixProbe {
    /// Something exists there: whether it is a link, whether it is a
    /// directory itself, what canonicalizing it gave (the canonical path,
    /// or the OS error), and whether that canonical target is a directory.
    Exists { is_symlink: bool, is_dir: bool, canonical: Result<String, (IoKind, String)>, target_is_dir: bool },
    /// Nothing there.
    Missing,
    /// Another OS error.
    Error { kind: IoKind, text: String },
}

/// The next step of a directory creation at one prefix.
#[derive(Debug, Clone, PartialEq, Eq)]
pub enum MkdirStep {
    /// The prefix exists inside the root: continue from its canonical path.
    Descend(String),
    /// The prefix is missing: create it on the verified parent.
    Create,
}

/// The decision at one prefix of `mkdir -p` under `root`: an existing
/// prefix must canonicalize inside the root; an intermediate one must be a
/// directory; the final one must be a directory (a link to a directory
/// counts; a link to anything else, or a dangling one, is a `Conflict`,
/// never replaced); a missing prefix is created.
pub open spec fn mkdir_step_ok(root: Seq<char>, is_final: bool, probe: PrefixProbe, r: Result<MkdirStep, FsError>) -> bool {
    match probe {
        PrefixProbe::Missing => r == Ok::<MkdirStep, FsError>(MkdirStep::Create),
        PrefixProbe::Error { kind, text } => r == Err::<MkdirStep, FsError>(fs_error_from_io_spec(kind, text)),
        PrefixProbe::Exists { is_symlink, is_dir, canonical, target_is_dir } => match canonical {
            Err((kind, text)) => r == Err::<MkdirStep, FsError>(fs_error_from_io_spec(kind, text)),
            Ok(c) => if !path_under(c@, root) {
                r matches Err(FsError::FilesystemEscape(_))
            } else if is_final && ((is_symlink && !target_is_dir) || (!is_symlink && !is_dir)) {
                r matches Err(FsError::Conflict(_))
            } else if !is_final && !target_is_dir {
                r matches Err(FsError::NotADirectory(_))
            } else {
                r matches Ok(MkdirStep::Descend(d)) && d@ == c@
            },
        },
    }
}

/// Creating a directory again creates nothing: a prefix that already exists
/// inside the root as a directory, or as a link to one, is descended into
/// at every position, intermediate or final, so a repeated creation of a
/// created path, or of any of its prefixes, makes no creation and meets no
/// refusal at any step.
pub proof fn law_mkdir_existing_directories_descend(
    root: Seq<char>,
    is_final: bool,
    is_symlink: bool,
    is_dir: bool,
    canonical: String,
    r: Result<MkdirStep, FsError>,
)
    requires
        path_under(canonical@, root),
        is_symlink || is_dir,
        mkdir_step_ok(
            root,
            is_final,
            PrefixProbe::Exists {
                is_symlink,
                is_dir,
                canonical: Ok::<String, (IoKind, String)>(canonical),
                target_is_dir: true,
            },
            r,
        ),
    ensures
        r matches Ok(MkdirStep::Descend(d)) && d@ == canonical@,
{
}

impl FilesystemBackend {
    /// The root directories are created under: the first allowed root.
    pub closed spec fn primary_root(&self) -> Option<Seq<char>> {
        if self.config.allowed_roots@.len() > 0 {
            Some(self.config.allowed_roots@[0]@)
        } else {
            None
        }
    }

    /// The decision at one prefix of a directory creation (see
    /// [`mkdir_step_ok`]), under the primary root.
    pub fn mkdir_step(&self, path: &str, is_final: bool, probe: &PrefixProbe) -> (r: Result<MkdirStep, FsError>)
        ensures
            match self.primary_root() {
                None => r matches Err(FsError::InvalidPath(_)),
                Some(root) => mkdir_step_ok(root, is_final, *probe, r),
            },
    {
        if self.config.allowed_roots.len() == 0 {
            return Err(FsError::InvalidPath(String::from_str("no allowed roots configured")));
        }
        let root = &self.config.allowed_roots[0];
        match probe {
            PrefixProbe::Missing => Ok(MkdirStep::Create),
            PrefixProbe::Error { kind, text } => Err(fs_error_from_io(*kind, text.clone())),
            PrefixProbe::Exists { is_symlink, is_dir, canonical, target_is_dir } => match canonical {
                Err((kind, text)) => Err(fs_error_from_io(*kind, text.clone())),
                Ok(c) => {
                    if !is_under(c.as_str(), root.as_str()) {
                        return Err(escape_error());
                    }
                    if is_final && ((*is_symlink && !*target_is_dir) || (!*is_symlink && !*is_dir)) {
                        let mut m = String::from_str("path exists and is not a directory: ");
                        push_str(&mut m, path);
                        return Err(FsError::Conflict(m));
                    }
                    if !is_final && !*target_is_dir {
                        let mut m = String::from_str("path component is not a directory: ");
                        push_str(&mut m, path);
                        return Err(FsError::NotADirectory(m));
                    }
                    Ok(MkdirStep::Descend(c.clone()))
                },
            },
        }
    }

    /// What a directory creation walks: the primary root and the path's
    /// components (`.` dropped), each a prefix step to take in order. No
    /// root, a bad shape, a `..` component or no component at all is
    /// `InvalidPath`.
    pub fn creation_plan(&self, path: &str) -> (r: Result<(String, Vec<String>), FsError>)
        ensures
            self.primary_root() is None || !creation_components_ok(path@) <==> r matches Err(
                FsError::InvalidPath(_),
            ),
            r matches Ok((root, comps)) ==> self.primary_root() == Some(root@) && crate::grants::string_views(
                comps@,
            ) == components(path@),
    {
        if self.config.allowed_roots.len() == 0 {
            return Err(FsError::InvalidPath(String::from_str("no allowed roots configured")));
        }
        match creation_path(path) {
            Ok(_) => {},
            Err(e) => {
                return Err(e);
            },
        }
        let pc = chars_of(path);
        let cs = split_components(pc.as_slice());
        let mut out: Vec<String> = Vec::new();
        let mut i: usize = 0;
        while i < cs.len()
            invariant
                i <= cs@.len(),
                views(cs@) == components(path@),
                out@.len() == i,
                forall|k: int| 0 <= k < i ==> #[trigger] out@[k]@ == cs@[k]@,
            decreases cs@.len() - i,
        {
            let piece = string_of(cs[i].as_slice());
            out.push(piece);
            i = i + 1;
        }
        assert(crate::grants::string_views(out@) =~= views(cs@));
        Ok((self.config.allowed_roots[0].clone(), out))
    }

    /// After creating a prefix: its canonical path (or the OS error from
    /// canonicalizing it) must still lie inside the primary root.
    pub fn mkdir_created(&self, canonical: &Result<String, (IoKind, String)>) -> (r: Result<String, FsError>)
        ensures
            match self.primary_root() {
                None => r matches Err(FsError::InvalidPath(_)),
                Some(root) => match canonical {
                    Err((kind, text)) => r == Err::<String, FsError>(fs_error_from_io_spec(*kind, *text)),
                    Ok(c) => if path_under(c@, root) {
                        r matches Ok(s) && s@ == c@
                    } else {
                        r matches Err(FsError::FilesystemEscape(_))
                    },
                },
            },
    {
        if self.config.allowed_roots.len() == 0 {
            return Err(FsError::InvalidPath(String::from_str("no allowed roots configured")));
        }
        match canonical {
            Err((kind, text)) => Err(fs_error_from_io(*kind, text.clone())),
            Ok(c) => {
                if is_under(c.as_str(), self.config.allowed_roots[0].as_str()) {
                    Ok(c.clone())
                } else {
                    Err(escape_error())
                }
            },
        }
    }
}

/// Bound on the temp-name draws of one atomic write.
pub const MAX_TEMP_NAME_ATTEMPTS: u32 = 8;

/// `.are-tmp-`, the prefix of atomic-write temp files.
pub open spec fn temp_prefix() -> Seq<char> {
    seq!['.', 'a', 'r', 'e', '-', 't', 'm', 'p', '-']
}

/// A fresh temp-file name for an atomic write: `.are-tmp-` + 32 lowercase
/// hex digits from the CSPRNG; a CSPRNG failure is `Io`.
pub fn temp_file_name() -> (r: Result<String, FsError>)
    ensures
        r matches Ok(n) ==> crate::ids::is_generated_id(n@, temp_prefix()),
        r is Err ==> (r matches Err(FsError::Io(m)) && "failed to generate temp name: "@.is_prefix_of(m@)),
{
    let prefix = ".are-tmp-";
    proof {
        reveal_strlit(".are-tmp-");
    }
    assert(prefix@ == temp_prefix());
    match crate::ids::random_id(prefix) {
        Ok(n) => Ok(n),
        Err(e) => {
            let mut m = String::from_str("failed to generate temp name: ");
            push_str(&mut m, e.as_str());
            Err(FsError::Io(m))
        },
    }
}

/// Count one more temp-name draw of an atomic write: the new count while
/// the bound allows another draw, the exhaustion error once all
/// `MAX_TEMP_NAME_ATTEMPTS` draws were made.
pub fn next_temp_attempt(attempts: u32) -> (r: Result<u32, FsError>)
    ensures
        attempts < MAX_TEMP_NAME_ATTEMPTS ==> r == Ok::<u32, FsError>((attempts + 1) as u32),
        attempts >= MAX_TEMP_NAME_ATTEMPTS ==> (r matches Err(FsError::Io(m)) && m@
            == "failed to create temporary file: "@ + crate::text::decimal(MAX_TEMP_NAME_ATTEMPTS as nat)
            + " name collisions"@),
{
    if attempts < MAX_TEMP_NAME_ATTEMPTS {
        Ok(attempts + 1)
    } else {
        Err(temp_name_exhausted())
    }
}

/// The error when every temp-name draw collided.
pub fn temp_name_exhausted() -> (e: FsError)
    ensures
        e matches FsError::Io(m) && m@ == "failed to create temporary file: "@ + crate::text::decimal(
            MAX_TEMP_NAME_ATTEMPTS as nat,
        ) + " name collisions"@,
{
    let mut m = String::from_str("failed to create temporary file: ");
    crate::text::push_decimal(&mut m, MAX_TEMP_NAME_ATTEMPTS as u64);
    push_str(&mut m, " name collisions");
    FsError::Io(m)
}

} // verus!
