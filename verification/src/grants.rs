//! Capability grants: per-principal filesystem scopes and process rights,
//! and the normalized, validated grants table keyed by fingerprint.
//!
//! A filesystem grant covers its root and everything under it, component by
//! component (`logs` covers `logs/app.log`, never `logs2/x`; the empty root
//! covers the whole environment). An execute grant names programs compared in
//! normalized form (basename, ASCII lowercase, `.exe` removed).

use vstd::prelude::*;
use vstd::string::*;

use crate::hex::{hex_digit_check, is_hex_digit};
use crate::names::{normalize_program_name, normalized_program};
use crate::paths::{
    comps_prefix, comps_prefix_exec, components, join, join_components, path_under,
    split_components, views,
};
use crate::text::{chars_of, push_str, str_eq, string_of};

verus! {

/// The filesystem scope a request needs.
#[derive(Debug, Clone, Copy, PartialEq, Eq)]
pub enum FsGrantKind {
    Read,
    Write,
    List,
}

/// One capability grant held by a principal.
#[derive(Debug, Clone)]
pub enum Grant {
    /// Read files under `root` (environment-relative, normalized).
    FilesystemRead { root: String },
    /// Write, create, rename and delete under `root`.
    FilesystemWrite { root: String },
    /// List directories under `root`.
    FilesystemList { root: String },
    /// Execute the listed programs (normalized-name match).
    ProcessExecute { programs: Vec<String> },
    /// Query process status.
    ProcessInspect,
    /// Terminate and wait for processes.
    ProcessTerminate,
}

/// The mathematical content of a grant.
pub enum GrantView {
    FsRead(Seq<char>),
    FsWrite(Seq<char>),
    FsList(Seq<char>),
    Exec(Seq<Seq<char>>),
    Inspect,
    Terminate,
}

/// The character views of a list of strings.
pub open spec fn string_views(v: Seq<String>) -> Seq<Seq<char>> {
    Seq::new(v.len(), |i: int| v[i]@)
}

impl View for Grant {
    type V = GrantView;

    open spec fn view(&self) -> GrantView {
        match self {
            Grant::FilesystemRead { root } => GrantView::FsRead(root@),
            Grant::FilesystemWrite { root } => GrantView::FsWrite(root@),
            Grant::FilesystemList { root } => GrantView::FsList(root@),
            Grant::ProcessExecute { programs } => GrantView::Exec(string_views(programs@)),
            Grant::ProcessInspect => GrantView::Inspect,
            Grant::ProcessTerminate => GrantView::Terminate,
        }
    }
}

/// The views of a list of grants.
pub open spec fn grant_views(v: Seq<Grant>) -> Seq<GrantView> {
    Seq::new(v.len(), |i: int| v[i]@)
}

/// A grant covers filesystem access of `kind` to the relative path `rel`.
pub open spec fn grant_covers_fs(g: GrantView, kind: FsGrantKind, rel: Seq<char>) -> bool {
    match (g, kind) {
        (GrantView::FsRead(root), FsGrantKind::Read) => path_under(rel, root),
        (GrantView::FsWrite(root), FsGrantKind::Write) => path_under(rel, root),
        (GrantView::FsList(root), FsGrantKind::List) => path_under(rel, root),
        _ => false,
    }
}

/// Some grant covers filesystem access of `kind` to `rel`.
pub open spec fn spec_allow_fs(gs: Seq<GrantView>, kind: FsGrantKind, rel: Seq<char>) -> bool {
    exists|i: int| 0 <= i < gs.len() && grant_covers_fs(#[trigger] gs[i], kind, rel)
}

/// Some listed program has the same normalized name as `program`.
pub open spec fn programs_allow(programs: Seq<Seq<char>>, program: Seq<char>) -> bool {
    exists|j: int|
        0 <= j < programs.len() && normalized_program(#[trigger] programs[j])
            == normalized_program(program)
}

/// A grant lets the principal execute `program`.
pub open spec fn grant_allows_exec(g: GrantView, program: Seq<char>) -> bool {
    match g {
        GrantView::Exec(programs) => programs_allow(programs, program),
        _ => false,
    }
}

/// Some grant lets the principal execute `program`.
pub open spec fn spec_allow_exec(gs: Seq<GrantView>, program: Seq<char>) -> bool {
    exists|i: int| 0 <= i < gs.len() && grant_allows_exec(#[trigger] gs[i], program)
}

/// Some grant is `process_inspect`.
pub open spec fn spec_allow_inspect(gs: Seq<GrantView>) -> bool {
    exists|i: int| 0 <= i < gs.len() && #[trigger] gs[i] is Inspect
}

/// Some grant is `process_terminate`.
pub open spec fn spec_allow_terminate(gs: Seq<GrantView>) -> bool {
    exists|i: int| 0 <= i < gs.len() && #[trigger] gs[i] is Terminate
}

fn grant_covers_fs_exec(g: &Grant, kind: FsGrantKind, rel: &Vec<Vec<char>>, Ghost(rel_s): Ghost<Seq<char>>) -> (r: bool)
    requires
        views(rel@) == components(rel_s),
    ensures
        r == grant_covers_fs(g@, kind, rel_s),
{
    let root = match (g, kind) {
        (Grant::FilesystemRead { root }, FsGrantKind::Read) => root,
        (Grant::FilesystemWrite { root }, FsGrantKind::Write) => root,
        (Grant::FilesystemList { root }, FsGrantKind::List) => root,
        _ => {
            return false;
        },
    };
    let rc = chars_of(root.as_str());
    let root_comps = split_components(rc.as_slice());
    comps_prefix_exec(&root_comps, rel)
}

/// Whether the grants cover filesystem access of `kind` to the relative
/// path `rel`.
pub fn grants_allow_fs(grants: &[Grant], kind: FsGrantKind, rel: &str) -> (r: bool)
    ensures
        r == spec_allow_fs(grant_views(grants@), kind, rel@),
{
    let rc = chars_of(rel);
    let rel_comps = split_components(rc.as_slice());
    let ghost gv = grant_views(grants@);
    let mut i: usize = 0;
    while i < grants.len()
        invariant
            i <= grants@.len(),
            gv == grant_views(grants@),
            views(rel_comps@) == components(rel@),
            forall|j: int| 0 <= j < i ==> !grant_covers_fs(#[trigger] gv[j], kind, rel@),
        decreases grants@.len() - i,
    {
        if grant_covers_fs_exec(&grants[i], kind, &rel_comps, Ghost(rel@)) {
            assert(grant_covers_fs(gv[i as int], kind, rel@));
            return true;
        }
        i = i + 1;
    }
    false
}

fn programs_match(programs: &Vec<String>, program: &str) -> (r: bool)
    ensures
        r == programs_allow(string_views(programs@), program@),
{
    let target = normalize_program_name(program);
    let mut i: usize = 0;
    while i < programs.len()
        invariant
            i <= programs@.len(),
            target@ == normalized_program(program@),
            forall|j: int|
                0 <= j < i ==> normalized_program(#[trigger] string_views(programs@)[j])
                    != normalized_program(program@),
        decreases programs@.len() - i,
    {
        let n = normalize_program_name(programs[i].as_str());
        if str_eq(n.as_str(), target.as_str()) {
            assert(string_views(programs@)[i as int] == programs@[i as int]@);
            return true;
        }
        assert(string_views(programs@)[i as int] == programs@[i as int]@);
        i = i + 1;
    }
    false
}

/// Whether the grants let the principal execute `program` (normalized
/// basename match; an execute grant with no programs allows nothing).
pub fn grants_allow_exec(grants: &[Grant], program: &str) -> (r: bool)
    ensures
        r == spec_allow_exec(grant_views(grants@), program@),
{
    let ghost gv = grant_views(grants@);
    let mut i: usize = 0;
    while i < grants.len()
        invariant
            i <= grants@.len(),
            gv == grant_views(grants@),
            forall|j: int| 0 <= j < i ==> !grant_allows_exec(#[trigger] gv[j], program@),
        decreases grants@.len() - i,
    {
        match &grants[i] {
            Grant::ProcessExecute { programs } => {
                let m = programs_match(programs, program);
                assert(gv[i as int] == GrantView::Exec(string_views(programs@)));
                if m {
                    assert(gv[i as int] == GrantView::Exec(string_views(programs@)));
                    assert(grant_allows_exec(gv[i as int], program@));
                    return true;
                }
            },
            _ => {},
        }
        i = i + 1;
    }
    false
}

/// Whether the grants include `process_inspect`.
pub fn grants_allow_inspect(grants: &[Grant]) -> (r: bool)
    ensures
        r == spec_allow_inspect(grant_views(grants@)),
{
    let ghost gv = grant_views(grants@);
    let mut i: usize = 0;
    while i < grants.len()
        invariant
            i <= grants@.len(),
            gv == grant_views(grants@),
            forall|j: int| 0 <= j < i ==> !(#[trigger] gv[j] is Inspect),
        decreases grants@.len() - i,
    {
        if let Grant::ProcessInspect = &grants[i] {
            assert(gv[i as int] is Inspect);
            return true;
        }
        i = i + 1;
    }
    false
}

/// Whether the grants include `process_terminate`.
pub fn grants_allow_terminate(grants: &[Grant]) -> (r: bool)
    ensures
        r == spec_allow_terminate(grant_views(grants@)),
{
    let ghost gv = grant_views(grants@);
    let mut i: usize = 0;
    while i < grants.len()
        invariant
            i <= grants@.len(),
            gv == grant_views(grants@),
            forall|j: int| 0 <= j < i ==> !(#[trigger] gv[j] is Terminate),
        decreases grants@.len() - i,
    {
        if let Grant::ProcessTerminate = &grants[i] {
            assert(gv[i as int] is Terminate);
            return true;
        }
        i = i + 1;
    }
    false
}


/// The root contains a `..` component.
pub open spec fn has_dotdot(cs: Seq<Seq<char>>) -> bool {
    exists|i: int| 0 <= i < cs.len() && #[trigger] cs[i] == seq!['.', '.']
}

/// A grant root is acceptable when it does not climb with `..`.
pub open spec fn root_ok(root: Seq<char>) -> bool {
    !has_dotdot(components(root))
}

/// The normalized form of an acceptable grant root: its components joined
/// with `/` (`.`, `""`, `/` all normalize to the whole-environment root `""`).
pub open spec fn normalized_root(root: Seq<char>) -> Seq<char> {
    join(components(root))
}

/// Normalize an environment-relative grant root.
///
/// Empty and `.` components (and leading/trailing/repeated slashes) are
/// dropped; a `..` component is refused.
pub fn normalize_grant_root(root: &str) -> (r: Result<String, String>)
    ensures
        r is Ok <==> root_ok(root@),
        r matches Ok(s) ==> s@ == normalized_root(root@),
{
    let cs = chars_of(root);
    let comps = split_components(cs.as_slice());
    let mut i: usize = 0;
    while i < comps.len()
        invariant
            views(comps@) == components(root@),
            i <= comps@.len(),
            forall|j: int| 0 <= j < i ==> comps@[j]@ != seq!['.', '.'],
        decreases comps@.len() - i,
    {
        let c = &comps[i];
        if c.len() == 2 && c[0] == '.' && c[1] == '.' {
            assert(c@ =~= seq!['.', '.']);
            assert(views(comps@)[i as int] == seq!['.', '.']);
            let mut m = String::new();
            push_str(&mut m, "grant root must not contain '..': ");
            push_str(&mut m, root);
            return Err(m);
        }
        assert(c@.len() == 2 ==> (c@ == seq!['.', '.'] ==> c@[0] == '.' && c@[1] == '.'));
        i = i + 1;
    }
    assert forall|j: int| 0 <= j < components(root@).len() implies #[trigger] components(root@)[j]
        != seq!['.', '.'] by {
        assert(views(comps@)[j] == comps@[j]@);
    }
    let joined = join_components(comps.as_slice());
    Ok(string_of(joined.as_slice()))
}

/// `blake3:` followed by exactly 64 hex digits (either case).
pub open spec fn valid_fingerprint(fp: Seq<char>) -> bool {
    &&& fp.len() == 71
    &&& fp.subrange(0, 7) == crate::auth::fingerprint_prefix()
    &&& forall|i: int| 7 <= i < 71 ==> is_hex_digit(#[trigger] fp[i])
}

fn all_hex_after_prefix(cs: &Vec<char>) -> (r: bool)
    requires
        cs@.len() == 71,
    ensures
        r == (forall|i: int| 7 <= i < 71 ==> is_hex_digit(#[trigger] cs@[i])),
{
    let mut i: usize = 7;
    while i < 71
        invariant
            cs@.len() == 71,
            7 <= i <= 71,
            forall|j: int| 7 <= j < i ==> is_hex_digit(#[trigger] cs@[j]),
        decreases 71 - i,
    {
        if !hex_digit_check(cs[i]) {
            return false;
        }
        i = i + 1;
    }
    true
}

/// Check that a grants-file key looks like a fingerprint.
pub fn validate_fingerprint(fp: &str) -> (r: Result<(), String>)
    ensures
        r is Ok <==> valid_fingerprint(fp@),
        r matches Err(m) ==> m@ == "malformed principal fingerprint \""@ + fp@ + "\": expected \"blake3:<64 hex>\""@,
{
    let cs = chars_of(fp);
    let mut ok: bool = cs.len() == 71 && cs[0] == 'b' && cs[1] == 'l' && cs[2] == 'a' && cs[3] == 'k'
        && cs[4] == 'e' && cs[5] == '3' && cs[6] == ':';
    proof {
        if cs@.len() == 71 {
            if ok {
                assert(fp@.subrange(0, 7) =~= crate::auth::fingerprint_prefix());
            } else {
                assert(fp@.subrange(0, 7) != crate::auth::fingerprint_prefix()) by {
                    if fp@.subrange(0, 7) == crate::auth::fingerprint_prefix() {
                        assert(fp@.subrange(0, 7)[0] == 'b');
                        assert(fp@.subrange(0, 7)[1] == 'l');
                        assert(fp@.subrange(0, 7)[2] == 'a');
                        assert(fp@.subrange(0, 7)[3] == 'k');
                        assert(fp@.subrange(0, 7)[4] == 'e');
                        assert(fp@.subrange(0, 7)[5] == '3');
                        assert(fp@.subrange(0, 7)[6] == ':');
                    }
                }
            }
        }
    }
    if ok {
        ok = all_hex_after_prefix(&cs);
    }
    if ok {
        Ok(())
    } else {
        let mut m = String::new();
        push_str(&mut m, "malformed principal fingerprint \"");
        push_str(&mut m, fp);
        push_str(&mut m, "\": expected \"blake3:<64 hex>\"");
        Err(m)
    }
}

/// Raw per-principal grants as written in a grants file.
#[derive(Debug, Clone, Default)]
pub struct RawPrincipalGrants {
    /// Environment-relative read roots (`""` = whole root).
    pub filesystem_read: Vec<String>,
    /// Environment-relative write roots (delete folds in).
    pub filesystem_write: Vec<String>,
    /// Environment-relative list roots.
    pub filesystem_list: Vec<String>,
    /// Allowed program names (normalized basename match).
    pub process_execute: Vec<String>,
    /// Presence gates `process_status`.
    pub process_inspect: bool,
    /// Presence gates `terminate_process` and `wait_process`.
    pub process_terminate: bool,
}

/// The content of raw per-principal grants.
pub struct RawGrantsView {
    pub read: Seq<Seq<char>>,
    pub write: Seq<Seq<char>>,
    pub list: Seq<Seq<char>>,
    pub execute: Seq<Seq<char>>,
    pub inspect: bool,
    pub terminate: bool,
}

impl View for RawPrincipalGrants {
    type V = RawGrantsView;

    open spec fn view(&self) -> RawGrantsView {
        RawGrantsView {
            read: string_views(self.filesystem_read@),
            write: string_views(self.filesystem_write@),
            list: string_views(self.filesystem_list@),
            execute: string_views(self.process_execute@),
            inspect: self.process_inspect,
            terminate: self.process_terminate,
        }
    }
}

/// Every root in the list is acceptable.
pub open spec fn roots_ok(rs: Seq<Seq<char>>) -> bool {
    forall|i: int| 0 <= i < rs.len() ==> root_ok(#[trigger] rs[i])
}

/// A raw principal entry is acceptable: roots do not climb and no program
/// entry normalizes to the empty name.
pub open spec fn raw_ok(r: RawGrantsView) -> bool {
    &&& roots_ok(r.read)
    &&& roots_ok(r.write)
    &&& roots_ok(r.list)
    &&& forall|j: int| 0 <= j < r.execute.len() ==> normalized_program(#[trigger] r.execute[j]).len() > 0
}

/// One filesystem grant per root, roots normalized.
pub open spec fn fs_grants(rs: Seq<Seq<char>>, kind: FsGrantKind) -> Seq<GrantView> {
    Seq::new(
        rs.len(),
        |i: int|
            match kind {
                FsGrantKind::Read => GrantView::FsRead(normalized_root(rs[i])),
                FsGrantKind::Write => GrantView::FsWrite(normalized_root(rs[i])),
                FsGrantKind::List => GrantView::FsList(normalized_root(rs[i])),
            },
    )
}

/// The normalized grants of an acceptable raw entry: read, write and list
/// roots in order, then one execute grant when programs are listed, then
/// inspect and terminate when set.
pub open spec fn raw_grants(r: RawGrantsView) -> Seq<GrantView> {
    fs_grants(r.read, FsGrantKind::Read) + fs_grants(r.write, FsGrantKind::Write) + fs_grants(
        r.list,
        FsGrantKind::List,
    ) + (if r.execute.len() > 0 {
        seq![GrantView::Exec(r.execute)]
    } else {
        Seq::<GrantView>::empty()
    }) + (if r.inspect {
        seq![GrantView::Inspect]
    } else {
        Seq::<GrantView>::empty()
    }) + (if r.terminate {
        seq![GrantView::Terminate]
    } else {
        Seq::<GrantView>::empty()
    })
}

/// Each raw entry field yields its own grants and nothing else does: the
/// normalized grants hold `Terminate` exactly when the terminate flag is set
/// and `Inspect` exactly when the inspect flag is set, each whatever the
/// other fields say; an execute grant exactly when programs are listed, and
/// then for those programs; and a read, write or list grant for exactly the
/// normalized roots listed under that kind.
pub proof fn law_raw_fields_yield_their_grants(r: RawGrantsView)
    ensures
        raw_grants(r).contains(GrantView::Terminate) <==> r.terminate,
        raw_grants(r).contains(GrantView::Inspect) <==> r.inspect,
        raw_grants(r).contains(GrantView::Exec(r.execute)) <==> r.execute.len() > 0,
        forall|ps: Seq<Seq<char>>| #[trigger] raw_grants(r).contains(GrantView::Exec(ps)) ==> ps == r.execute,
        forall|x: Seq<char>|
            #[trigger] raw_grants(r).contains(GrantView::FsRead(x)) <==> exists|i: int|
                0 <= i < r.read.len() && normalized_root(#[trigger] r.read[i]) == x,
        forall|x: Seq<char>|
            #[trigger] raw_grants(r).contains(GrantView::FsWrite(x)) <==> exists|i: int|
                0 <= i < r.write.len() && normalized_root(#[trigger] r.write[i]) == x,
        forall|x: Seq<char>|
            #[trigger] raw_grants(r).contains(GrantView::FsList(x)) <==> exists|i: int|
                0 <= i < r.list.len() && normalized_root(#[trigger] r.list[i]) == x,
{
    let fr = fs_grants(r.read, FsGrantKind::Read);
    let fw = fs_grants(r.write, FsGrantKind::Write);
    let fl = fs_grants(r.list, FsGrantKind::List);
    let e = if r.execute.len() > 0 {
        seq![GrantView::Exec(r.execute)]
    } else {
        Seq::<GrantView>::empty()
    };
    let ins = if r.inspect {
        seq![GrantView::Inspect]
    } else {
        Seq::<GrantView>::empty()
    };
    let ter = if r.terminate {
        seq![GrantView::Terminate]
    } else {
        Seq::<GrantView>::empty()
    };
    let g = raw_grants(r);
    let a: int = fr.len() as int;
    let b: int = a + fw.len();
    let c: int = b + fl.len();
    let d: int = c + e.len();
    let f: int = d + ins.len();
    assert(g == fr + fw + fl + e + ins + ter);
    assert(g.len() == f + ter.len());
    assert forall|k: int| 0 <= k < g.len() implies #[trigger] g[k] == if k < a {
        fr[k]
    } else if k < b {
        fw[k - a]
    } else if k < c {
        fl[k - b]
    } else if k < d {
        e[k - c]
    } else if k < f {
        ins[k - d]
    } else {
        ter[k - f]
    } by {}
    if r.terminate {
        assert(g[f] == GrantView::Terminate);
    } else {
        assert forall|k: int| 0 <= k < g.len() implies #[trigger] g[k] != GrantView::Terminate by {}
    }
    if r.inspect {
        assert(g[d] == GrantView::Inspect);
    } else {
        assert forall|k: int| 0 <= k < g.len() implies #[trigger] g[k] != GrantView::Inspect by {}
    }
    if r.execute.len() > 0 {
        assert(g[c] == GrantView::Exec(r.execute));
    } else {
        assert forall|k: int| 0 <= k < g.len() implies #[trigger] g[k] != GrantView::Exec(r.execute) by {}
    }
    assert forall|ps: Seq<Seq<char>>| #[trigger] g.contains(GrantView::Exec(ps)) implies ps == r.execute by {
        let k = choose|k: int| 0 <= k < g.len() && g[k] == GrantView::Exec(ps);
        assert(g[k] == GrantView::Exec(ps));
    }
    assert forall|x: Seq<char>| #[trigger] g.contains(GrantView::FsRead(x)) <==> exists|i: int|
        0 <= i < r.read.len() && normalized_root(#[trigger] r.read[i]) == x by {
        if g.contains(GrantView::FsRead(x)) {
            let k = choose|k: int| 0 <= k < g.len() && g[k] == GrantView::FsRead(x);
            assert(g[k] == GrantView::FsRead(x));
            assert(normalized_root(r.read[k]) == x);
        }
        if exists|i: int| 0 <= i < r.read.len() && normalized_root(#[trigger] r.read[i]) == x {
            let i = choose|i: int| 0 <= i < r.read.len() && normalized_root(#[trigger] r.read[i]) == x;
            assert(g[i] == GrantView::FsRead(x));
        }
    }
    assert forall|x: Seq<char>| #[trigger] g.contains(GrantView::FsWrite(x)) <==> exists|i: int|
        0 <= i < r.write.len() && normalized_root(#[trigger] r.write[i]) == x by {
        if g.contains(GrantView::FsWrite(x)) {
            let k = choose|k: int| 0 <= k < g.len() && g[k] == GrantView::FsWrite(x);
            assert(g[k] == GrantView::FsWrite(x));
            assert(normalized_root(r.write[k - a]) == x);
        }
        if exists|i: int| 0 <= i < r.write.len() && normalized_root(#[trigger] r.write[i]) == x {
            let i = choose|i: int| 0 <= i < r.write.len() && normalized_root(#[trigger] r.write[i]) == x;
            assert(g[a + i] == GrantView::FsWrite(x));
        }
    }
    assert forall|x: Seq<char>| #[trigger] g.contains(GrantView::FsList(x)) <==> exists|i: int|
        0 <= i < r.list.len() && normalized_root(#[trigger] r.list[i]) == x by {
        if g.contains(GrantView::FsList(x)) {
            let k = choose|k: int| 0 <= k < g.len() && g[k] == GrantView::FsList(x);
            assert(g[k] == GrantView::FsList(x));
            assert(normalized_root(r.list[k - b]) == x);
        }
        if exists|i: int| 0 <= i < r.list.len() && normalized_root(#[trigger] r.list[i]) == x {
            let i = choose|i: int| 0 <= i < r.list.len() && normalized_root(#[trigger] r.list[i]) == x;
            assert(g[b + i] == GrantView::FsList(x));
        }
    }
}

/// Position of the entry for `k`, or -1.
pub open spec fn find_key<V>(t: Seq<(Seq<char>, V)>, k: Seq<char>) -> int
    decreases t.len(),
{
    if t.len() == 0 {
        -1
    } else if t.last().0 == k {
        t.len() - 1
    } else {
        find_key(t.drop_last(), k)
    }
}

/// Insert or replace the entry for `k`.
pub open spec fn upsert<V>(t: Seq<(Seq<char>, V)>, k: Seq<char>, v: V) -> Seq<(Seq<char>, V)> {
    if find_key(t, k) >= 0 {
        t.update(find_key(t, k), (k, v))
    } else {
        t.push((k, v))
    }
}

/// The table built from raw entries: each fingerprint maps to the grants of
/// its last raw entry.
pub open spec fn spec_table(raws: Seq<(Seq<char>, RawGrantsView)>) -> Seq<(Seq<char>, Seq<GrantView>)>
    decreases raws.len(),
{
    if raws.len() == 0 {
        Seq::empty()
    } else {
        upsert(spec_table(raws.drop_last()), raws.last().0, raw_grants(raws.last().1))
    }
}

/// Every raw entry has a well-formed fingerprint and acceptable grants.
pub open spec fn raws_ok(raws: Seq<(Seq<char>, RawGrantsView)>) -> bool {
    forall|i: int|
        0 <= i < raws.len() ==> valid_fingerprint(#[trigger] raws[i].0) && raw_ok(raws[i].1)
}

/// Keys occur at most once.
pub open spec fn keys_distinct<V>(t: Seq<(Seq<char>, V)>) -> bool {
    forall|i: int, j: int| 0 <= i < j < t.len() ==> #[trigger] t[i].0 != #[trigger] t[j].0
}


/// A copy of a list of strings.
pub fn clone_strings(v: &Vec<String>) -> (out: Vec<String>)
    ensures
        out@ == v@,
{
    let mut out: Vec<String> = Vec::new();
    let mut i: usize = 0;
    while i < v.len()
        invariant
            i <= v@.len(),
            out@ == v@.subrange(0, i as int),
        decreases v@.len() - i,
    {
        out.push(v[i].clone());
        assert(v@.subrange(0, i + 1) == v@.subrange(0, i as int).push(v@[i as int]));
        i = i + 1;
    }
    assert(v@.subrange(0, v@.len() as int) =~= v@);
    out
}

fn fs_grant_list(roots: &Vec<String>, kind: FsGrantKind, fp: &str) -> (r: Result<Vec<Grant>, String>)
    ensures
        r is Ok <==> roots_ok(string_views(roots@)),
        r matches Ok(gs) ==> grant_views(gs@) == fs_grants(string_views(roots@), kind),
{
    let ghost rv = string_views(roots@);
    let mut out: Vec<Grant> = Vec::new();
    let mut i: usize = 0;
    while i < roots.len()
        invariant
            rv == string_views(roots@),
            i <= roots@.len(),
            forall|j: int| 0 <= j < i ==> root_ok(#[trigger] rv[j]),
            grant_views(out@) == fs_grants(rv, kind).subrange(0, i as int),
        decreases roots@.len() - i,
    {
        match normalize_grant_root(roots[i].as_str()) {
            Ok(root) => {
                let g = match kind {
                    FsGrantKind::Read => Grant::FilesystemRead { root },
                    FsGrantKind::Write => Grant::FilesystemWrite { root },
                    FsGrantKind::List => Grant::FilesystemList { root },
                };
                let ghost before = out@;
                out.push(g);
                assert(grant_views(out@) =~= grant_views(before).push(g@));
                assert(fs_grants(rv, kind).subrange(0, i + 1) =~= fs_grants(rv, kind).subrange(
                    0,
                    i as int,
                ).push(fs_grants(rv, kind)[i as int]));
            },
            Err(e) => {
                assert(!root_ok(rv[i as int]));
                let mut m = String::new();
                push_str(&mut m, "principal ");
                push_str(&mut m, fp);
                match kind {
                    FsGrantKind::Read => push_str(&mut m, ": bad filesystem_read root: "),
                    FsGrantKind::Write => push_str(&mut m, ": bad filesystem_write root: "),
                    FsGrantKind::List => push_str(&mut m, ": bad filesystem_list root: "),
                }
                push_str(&mut m, e.as_str());
                return Err(m);
            },
        }
        i = i + 1;
    }
    assert(fs_grants(rv, kind).subrange(0, i as int) =~= fs_grants(rv, kind));
    Ok(out)
}

fn programs_ok(programs: &Vec<String>) -> (r: bool)
    ensures
        r == (forall|j: int|
            0 <= j < programs@.len() ==> normalized_program(#[trigger] string_views(programs@)[j]).len()
                > 0),
{
    let mut i: usize = 0;
    while i < programs.len()
        invariant
            i <= programs@.len(),
            forall|j: int|
                0 <= j < i ==> normalized_program(#[trigger] string_views(programs@)[j]).len() > 0,
        decreases programs@.len() - i,
    {
        let n = normalize_program_name(programs[i].as_str());
        assert(string_views(programs@)[i as int] == programs@[i as int]@);
        if n.as_str().unicode_len() == 0 {
            return false;
        }
        i = i + 1;
    }
    true
}

proof fn lemma_grant_views_add(a: Seq<Grant>, b: Seq<Grant>)
    ensures
        grant_views(a + b) == grant_views(a) + grant_views(b),
{
    assert(grant_views(a + b) =~= grant_views(a) + grant_views(b));
}

/// Validate and normalize one principal's raw grants.
fn principal_grants(fp: &str, raw: &RawPrincipalGrants) -> (r: Result<Vec<Grant>, String>)
    ensures
        r is Ok <==> raw_ok(raw@),
        r matches Ok(gs) ==> grant_views(gs@) == raw_grants(raw@),
{
    let mut out = fs_grant_list(&raw.filesystem_read, FsGrantKind::Read, fp)?;
    let mut w = fs_grant_list(&raw.filesystem_write, FsGrantKind::Write, fp)?;
    let mut l = fs_grant_list(&raw.filesystem_list, FsGrantKind::List, fp)?;
    proof {
        lemma_grant_views_add(out@, w@);
        lemma_grant_views_add(out@ + w@, l@);
    }
    out.append(&mut w);
    out.append(&mut l);
    let ghost fs_part = grant_views(out@);
    if raw.process_execute.len() > 0 {
        assert(raw@.execute == string_views(raw.process_execute@));
        if !programs_ok(&raw.process_execute) {
            let mut m = String::new();
            push_str(&mut m, "principal ");
            push_str(&mut m, fp);
            push_str(&mut m, ": empty process_execute entry");
            return Err(m);
        }
        let programs = clone_strings(&raw.process_execute);
        let ghost before = out@;
        out.push(Grant::ProcessExecute { programs });
        assert(grant_views(out@) =~= grant_views(before).push(out@.last()@));
    }
    let ghost after_exec = grant_views(out@);
    if raw.process_inspect {
        let ghost before = out@;
        out.push(Grant::ProcessInspect);
        assert(grant_views(out@) =~= grant_views(before).push(GrantView::Inspect));
    }
    let ghost after_inspect = grant_views(out@);
    if raw.process_terminate {
        let ghost before = out@;
        out.push(Grant::ProcessTerminate);
        assert(grant_views(out@) =~= grant_views(before).push(GrantView::Terminate));
    }
    proof {
        let rv = raw@;
        let e = if rv.execute.len() > 0 {
            seq![GrantView::Exec(rv.execute)]
        } else {
            Seq::<GrantView>::empty()
        };
        let ins = if rv.inspect {
            seq![GrantView::Inspect]
        } else {
            Seq::<GrantView>::empty()
        };
        let ter = if rv.terminate {
            seq![GrantView::Terminate]
        } else {
            Seq::<GrantView>::empty()
        };
        assert(after_exec =~= fs_part + e);
        assert(after_inspect =~= fs_part + e + ins);
        assert(grant_views(out@) =~= fs_part + e + ins + ter);
    }
    Ok(out)
}

/// The content of a list of raw entries.
pub open spec fn raw_views(s: Seq<(String, RawPrincipalGrants)>) -> Seq<(Seq<char>, RawGrantsView)> {
    Seq::new(s.len(), |i: int| (s[i].0@, s[i].1@))
}

/// Normalized, validated grants table: fingerprint to grants.
pub struct GrantsTable {
    principals: Vec<(String, Vec<Grant>)>,
}

impl GrantsTable {
    /// The table's entries: fingerprint and grants, in insertion order.
    pub closed spec fn entries(&self) -> Seq<(Seq<char>, Seq<GrantView>)> {
        Seq::new(
            self.principals@.len(),
            |i: int| (self.principals@[i].0@, grant_views(self.principals@[i].1@)),
        )
    }

    #[verifier::type_invariant]
    closed spec fn distinct(&self) -> bool {
        keys_distinct(self.entries())
    }
}

impl View for GrantsTable {
    type V = Seq<(Seq<char>, Seq<GrantView>)>;

    open spec fn view(&self) -> Seq<(Seq<char>, Seq<GrantView>)> {
        self.entries()
    }
}

proof fn lemma_find_key_bounds<V>(t: Seq<(Seq<char>, V)>, k: Seq<char>)
    ensures
        -1 <= find_key(t, k) < t.len(),
        find_key(t, k) >= 0 ==> t[find_key(t, k)].0 == k,
        find_key(t, k) < 0 ==> forall|i: int| 0 <= i < t.len() ==> #[trigger] t[i].0 != k,
    decreases t.len(),
{
    if t.len() > 0 {
        lemma_find_key_bounds(t.drop_last(), k);
        if find_key(t, k) < 0 {
            assert forall|i: int| 0 <= i < t.len() implies #[trigger] t[i].0 != k by {
                if i < t.len() - 1 {
                    assert(t.drop_last()[i] == t[i]);
                }
            }
        }
    }
}

proof fn lemma_upsert_distinct<V>(t: Seq<(Seq<char>, V)>, k: Seq<char>, v: V)
    requires
        keys_distinct(t),
    ensures
        keys_distinct(upsert(t, k, v)),
{
    lemma_find_key_bounds(t, k);
    let u = upsert(t, k, v);
    assert forall|i: int, j: int| 0 <= i < j < u.len() implies #[trigger] u[i].0 != #[trigger] u[j].0 by {
        if find_key(t, k) >= 0 {
            let f = find_key(t, k);
            if i != f && j != f {
                assert(u[i] == t[i] && u[j] == t[j]);
            } else if i == f {
                assert(t[f].0 == k);
                assert(t[j].0 != t[f].0);
            } else {
                assert(t[f].0 == k);
                assert(t[i].0 != t[f].0);
            }
        } else {
            if j == t.len() {
                assert(t[i].0 != k);
            }
        }
    }
}

proof fn lemma_spec_table_distinct(raws: Seq<(Seq<char>, RawGrantsView)>)
    ensures
        keys_distinct(spec_table(raws)),
    decreases raws.len(),
{
    if raws.len() > 0 {
        lemma_spec_table_distinct(raws.drop_last());
        lemma_upsert_distinct(spec_table(raws.drop_last()), raws.last().0, raw_grants(raws.last().1));
    }
}

fn find_entry(t: &Vec<(String, Vec<Grant>)>, k: &str) -> (r: Option<usize>)
    ensures
        match r {
            Some(i) => find_key(Seq::new(t@.len(), |j: int| (t@[j].0@, grant_views(t@[j].1@))), k@)
                == i as int,
            None => find_key(Seq::new(t@.len(), |j: int| (t@[j].0@, grant_views(t@[j].1@))), k@) < 0,
        },
{
    let ghost full = Seq::new(t@.len(), |j: int| (t@[j].0@, grant_views(t@[j].1@)));
    let mut i: usize = t.len();
    assert(full.subrange(0, i as int) =~= full);
    while i > 0
        invariant
            i <= t@.len(),
            full == Seq::new(t@.len(), |j: int| (t@[j].0@, grant_views(t@[j].1@))),
            find_key(full, k@) == find_key(full.subrange(0, i as int), k@),
        decreases i,
    {
        let ghost sub = full.subrange(0, i as int);
        if str_eq(t[i - 1].0.as_str(), k) {
            assert(sub.last() == full[i - 1]);
            return Some(i - 1);
        }
        assert(sub.drop_last() =~= full.subrange(0, i - 1));
        i = i - 1;
    }
    None
}

impl GrantsTable {
    /// An empty table (no principals).
    pub fn new() -> (t: GrantsTable)
        ensures
            t@.len() == 0,
    {
        GrantsTable { principals: Vec::new() }
    }

    /// Build a table from raw grants-file entries, validating every entry.
    ///
    /// Fails when a fingerprint key is not `blake3:` + 64 hex, a root climbs
    /// with `..`, or a program entry normalizes to the empty name. On success
    /// every fingerprint maps to the normalized grants of its last entry.
    pub fn from_raw(raws: &Vec<(String, RawPrincipalGrants)>) -> (r: Result<GrantsTable, String>)
        ensures
            r is Ok <==> raws_ok(raw_views(raws@)),
            r matches Ok(t) ==> t@ == spec_table(raw_views(raws@)),
    {
        let ghost rv = raw_views(raws@);
        let mut t: Vec<(String, Vec<Grant>)> = Vec::new();
        let mut i: usize = 0;
        while i < raws.len()
            invariant
                rv == raw_views(raws@),
                i <= raws@.len(),
                forall|j: int| 0 <= j < i ==> valid_fingerprint(#[trigger] rv[j].0),
                forall|j: int| 0 <= j < i ==> raw_ok(#[trigger] rv[j].1),
                Seq::new(t@.len(), |j: int| (t@[j].0@, grant_views(t@[j].1@))) == spec_table(
                    rv.subrange(0, i as int),
                ),
            decreases raws@.len() - i,
        {
            let fp = &raws[i].0;
            let raw = &raws[i].1;
            assert(rv[i as int] == (fp@, raw@));
            if let Err(e) = validate_fingerprint(fp.as_str()) {
                assert(!valid_fingerprint(rv[i as int].0));
                return Err(e);
            }
            let gs = match principal_grants(fp.as_str(), raw) {
                Ok(gs) => gs,
                Err(e) => {
                    assert(valid_fingerprint(rv[i as int].0));
                    assert(!raw_ok(rv[i as int].1));
                    return Err(e);
                },
            };
            assert(valid_fingerprint(rv[i as int].0) && raw_ok(rv[i as int].1));
            let ghost old_view = Seq::new(t@.len(), |j: int| (t@[j].0@, grant_views(t@[j].1@)));
            let ghost sub = rv.subrange(0, i + 1);
            assert(sub.drop_last() =~= rv.subrange(0, i as int));
            assert(sub.last() == rv[i as int]);
            let found = find_entry(&t, fp.as_str());
            proof {
                lemma_find_key_bounds(old_view, fp@);
            }
            match found {
                Some(idx) => {
                    t.set(idx, (fp.clone(), gs));
                    assert(Seq::new(t@.len(), |j: int| (t@[j].0@, grant_views(t@[j].1@))) =~= old_view.update(
                        idx as int,
                        (fp@, raw_grants(raw@)),
                    ));
                },
                None => {
                    t.push((fp.clone(), gs));
                    assert(Seq::new(t@.len(), |j: int| (t@[j].0@, grant_views(t@[j].1@))) =~= old_view.push(
                        (fp@, raw_grants(raw@)),
                    ));
                },
            }
            i = i + 1;
        }
        assert(rv.subrange(0, raws@.len() as int) =~= rv);
        proof {
            lemma_spec_table_distinct(rv);
        }
        Ok(GrantsTable { principals: t })
    }

    /// Grants for a fingerprint, or `None` when the principal is unknown.
    pub fn grants_for(&self, fingerprint: &str) -> (r: Option<&[Grant]>)
        ensures
            find_key(self@, fingerprint@) < 0 ==> r is None,
            find_key(self@, fingerprint@) >= 0 ==> (r matches Some(gs) && grant_views(gs@)
                == self@[find_key(self@, fingerprint@)].1),
    {
        let f = find_entry(&self.principals, fingerprint);
        proof {
            assert(self@ =~= Seq::new(
                self.principals@.len(),
                |j: int| (self.principals@[j].0@, grant_views(self.principals@[j].1@)),
            ));
            lemma_find_key_bounds(self@, fingerprint@);
        }
        match f {
            Some(i) => Some(self.principals[i].1.as_slice()),
            None => None,
        }
    }

    /// Whether the fingerprint has an entry (even an empty-grants one).
    pub fn is_known(&self, fingerprint: &str) -> (r: bool)
        ensures
            r == (find_key(self@, fingerprint@) >= 0),
    {
        let f = find_entry(&self.principals, fingerprint);
        proof {
            assert(self@ =~= Seq::new(
                self.principals@.len(),
                |j: int| (self.principals@[j].0@, grant_views(self.principals@[j].1@)),
            ));
        }
        f.is_some()
    }

    /// Number of principals in the table.
    pub fn len(&self) -> (n: usize)
        ensures
            n == self@.len(),
    {
        self.principals.len()
    }

    /// Whether the table holds no principals.
    pub fn is_empty(&self) -> (r: bool)
        ensures
            r == (self@.len() == 0),
    {
        self.principals.len() == 0
    }
}


/// Normalizing a grant root is stable: an acceptable root normalizes to an
/// acceptable root with the same components, which normalizes to itself.
pub proof fn law_normalized_roots_are_stable(root: Seq<char>)
    requires
        root_ok(root),
    ensures
        components(normalized_root(root)) == components(root),
        root_ok(normalized_root(root)),
        normalized_root(normalized_root(root)) == normalized_root(root),
{
    crate::paths::lemma_components_are_components(root);
    crate::paths::lemma_components_join(components(root));
}

/// A filesystem grant on a root covers exactly the paths at or under it,
/// component-wise: a grant on `logs` covers `logs` and `logs/x` but never
/// `logs2/x`.
pub proof fn law_grant_scope_is_component_wise(root: Seq<char>, rel: Seq<char>, kind: FsGrantKind)
    ensures
        grant_covers_fs(
            match kind {
                FsGrantKind::Read => GrantView::FsRead(root),
                FsGrantKind::Write => GrantView::FsWrite(root),
                FsGrantKind::List => GrantView::FsList(root),
            },
            kind,
            rel,
        ) <==> comps_prefix(components(root), components(rel)),
{
}

} // verus!
