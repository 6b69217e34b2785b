//! Environment variables handed to spawned programs.
//!
//! A variable list is a sequence of `(key, value)` pairs; when a key occurs
//! more than once the later pair wins, exactly as successive map inserts.
//! The lists handed to a child hold each key once.
//! Dynamic-loader keys (`LD_PRELOAD`, `LD_LIBRARY_PATH`, `LD_AUDIT`, and any
//! key starting with `LD_` or `DYLD_`) are stripped; `PATH` is refused
//! outright by request validation.

use vstd::prelude::*;

use vstd::string::*;

use crate::text::{chars_of, push_str, str_eq};

verus! {

/// The character views of a list of variable pairs.
pub open spec fn pair_views(v: Seq<(String, String)>) -> Seq<(Seq<char>, Seq<char>)> {
    Seq::new(v.len(), |i: int| (v[i].0@, v[i].1@))
}

/// The variables a list denotes: later pairs override earlier ones.
pub open spec fn env_map(s: Seq<(Seq<char>, Seq<char>)>) -> Map<Seq<char>, Seq<char>>
    decreases s.len(),
{
    if s.len() == 0 {
        Map::empty()
    } else {
        env_map(s.drop_last()).insert(s.last().0, s.last().1)
    }
}

/// `p` is a prefix of `k`.
pub open spec fn has_prefix(k: Seq<char>, p: Seq<char>) -> bool {
    p.len() <= k.len() && k.subrange(0, p.len() as int) == p
}

/// A key that influences the dynamic loader and is never passed on.
pub open spec fn stripped_key(k: Seq<char>) -> bool {
    ||| k == "LD_PRELOAD"@
    ||| k == "LD_LIBRARY_PATH"@
    ||| k == "LD_AUDIT"@
    ||| has_prefix(k, seq!['L', 'D', '_'])
    ||| has_prefix(k, seq!['D', 'Y', 'L', 'D', '_'])
}

/// The pairs whose keys are not stripped, in order.
pub open spec fn keep_unstripped(s: Seq<(Seq<char>, Seq<char>)>) -> Seq<(Seq<char>, Seq<char>)>
    decreases s.len(),
{
    if s.len() == 0 {
        s
    } else if stripped_key(s.last().0) {
        keep_unstripped(s.drop_last())
    } else {
        keep_unstripped(s.drop_last()).push(s.last())
    }
}

/// The pairs of `t` whose key is not `k`, in order.
pub open spec fn without_key(t: Seq<(Seq<char>, Seq<char>)>, k: Seq<char>) -> Seq<(Seq<char>, Seq<char>)>
    decreases t.len(),
{
    if t.len() == 0 {
        t
    } else if t.last().0 == k {
        without_key(t.drop_last(), k)
    } else {
        without_key(t.drop_last(), k).push(t.last())
    }
}

/// One pair per key: each pair replaces every earlier pair with its key,
/// as successive map inserts do.
pub open spec fn last_wins(s: Seq<(Seq<char>, Seq<char>)>) -> Seq<(Seq<char>, Seq<char>)>
    decreases s.len(),
{
    if s.len() == 0 {
        s
    } else {
        without_key(last_wins(s.drop_last()), s.last().0).push(s.last())
    }
}

/// The variables a child receives from a list: loader keys dropped, and
/// one pair per remaining key, the last one given.
pub open spec fn child_env(s: Seq<(Seq<char>, Seq<char>)>) -> Seq<(Seq<char>, Seq<char>)> {
    last_wins(keep_unstripped(s))
}

/// No key occurs twice.
pub open spec fn keys_distinct(s: Seq<(Seq<char>, Seq<char>)>) -> bool {
    forall|i: int, j: int| 0 <= i < j < s.len() ==> #[trigger] s[i].0 != #[trigger] s[j].0
}

/// `PATH`
pub open spec fn path_key() -> Seq<char> {
    seq!['P', 'A', 'T', 'H']
}

/// Some pair has key `k`.
pub open spec fn has_key(s: Seq<(Seq<char>, Seq<char>)>, k: Seq<char>) -> bool {
    exists|i: int| 0 <= i < s.len() && #[trigger] s[i].0 == k
}

fn prefix_check(k: &Vec<char>, p: &[char]) -> (r: bool)
    ensures
        r == has_prefix(k@, p@),
{
    if p.len() > k.len() {
        return false;
    }
    let mut i: usize = 0;
    while i < p.len()
        invariant
            p@.len() <= k@.len(),
            i <= p@.len(),
            forall|j: int| 0 <= j < i ==> k@[j] == p@[j],
        decreases p@.len() - i,
    {
        if k[i] != p[i] {
            assert(k@.subrange(0, p@.len() as int)[i as int] != p@[i as int]);
            return false;
        }
        i = i + 1;
    }
    assert(k@.subrange(0, p@.len() as int) =~= p@);
    true
}

/// Whether a key is stripped from child environments.
pub fn is_stripped_key(key: &str) -> (r: bool)
    ensures
        r == stripped_key(key@),
{
    let k = chars_of(key);
    let ld = prefix_check(&k, &['L', 'D', '_']);
    let dyld = prefix_check(&k, &['D', 'Y', 'L', 'D', '_']);
    proof {
        assert(seq!['L', 'D', '_'] =~= ['L', 'D', '_']@);
        assert(seq!['D', 'Y', 'L', 'D', '_'] =~= ['D', 'Y', 'L', 'D', '_']@);
        reveal_strlit("LD_PRELOAD");
        reveal_strlit("LD_LIBRARY_PATH");
        reveal_strlit("LD_AUDIT");
        assert("LD_PRELOAD"@.subrange(0, 3) =~= seq!['L', 'D', '_']);
        assert("LD_LIBRARY_PATH"@.subrange(0, 3) =~= seq!['L', 'D', '_']);
        assert("LD_AUDIT"@.subrange(0, 3) =~= seq!['L', 'D', '_']);
    }
    ld || dyld
}

pub(crate) fn clone_pair(p: &(String, String)) -> (q: (String, String))
    ensures
        q.0@ == p.0@,
        q.1@ == p.1@,
{
    (p.0.clone(), p.1.clone())
}

/// The pairs whose key is not `key`, in order.
fn drop_key(v: &Vec<(String, String)>, key: &str) -> (out: Vec<(String, String)>)
    ensures
        pair_views(out@) == without_key(pair_views(v@), key@),
{
    let ghost pv = pair_views(v@);
    let mut out: Vec<(String, String)> = Vec::new();
    let mut j: usize = 0;
    while j < v.len()
        invariant
            pv == pair_views(v@),
            j <= v@.len(),
            pair_views(out@) == without_key(pv.subrange(0, j as int), key@),
        decreases v@.len() - j,
    {
        let ghost sub = pv.subrange(0, j + 1);
        assert(sub.drop_last() =~= pv.subrange(0, j as int));
        assert(sub.last() == (v@[j as int].0@, v@[j as int].1@));
        if !str_eq(v[j].0.as_str(), key) {
            let ghost before = out@;
            out.push(clone_pair(&v[j]));
            assert(pair_views(out@) =~= pair_views(before).push(sub.last()));
        }
        j = j + 1;
    }
    assert(pv.subrange(0, v@.len() as int) =~= pv);
    out
}

/// Filter variables for a child: drop dynamic-loader keys, and keep one
/// pair per remaining key, the last one given (a later pair replaces an
/// earlier one, as a map insert does).
pub fn sanitize_env(env_vars: &[(String, String)]) -> (out: Vec<(String, String)>)
    ensures
        pair_views(out@) == child_env(pair_views(env_vars@)),
        keys_distinct(pair_views(out@)),
        env_map(pair_views(out@)) == env_map(keep_unstripped(pair_views(env_vars@))),
{
    let ghost input = pair_views(env_vars@);
    let mut out: Vec<(String, String)> = Vec::new();
    let mut i: usize = 0;
    while i < env_vars.len()
        invariant
            input == pair_views(env_vars@),
            i <= env_vars@.len(),
            pair_views(out@) == child_env(input.subrange(0, i as int)),
        decreases env_vars@.len() - i,
    {
        let ghost sub = input.subrange(0, i + 1);
        assert(sub.drop_last() =~= input.subrange(0, i as int));
        assert(sub.last() == (env_vars@[i as int].0@, env_vars@[i as int].1@));
        if !is_stripped_key(env_vars[i].0.as_str()) {
            let ghost kept = keep_unstripped(input.subrange(0, i as int));
            assert(keep_unstripped(sub) == kept.push(sub.last()));
            assert(kept.push(sub.last()).drop_last() =~= kept);
            assert(last_wins(kept.push(sub.last())) == without_key(last_wins(kept), sub.last().0).push(
                sub.last(),
            ));
            let mut rest = drop_key(&out, env_vars[i].0.as_str());
            let ghost before = rest@;
            rest.push(clone_pair(&env_vars[i]));
            assert(pair_views(rest@) =~= pair_views(before).push(sub.last()));
            out = rest;
        }
        i = i + 1;
    }
    assert(input.subrange(0, env_vars@.len() as int) =~= input);
    proof {
        lemma_last_wins(keep_unstripped(input));
    }
    out
}

/// Merge session variables under request variables (the request wins on
/// conflicts), then drop dynamic-loader keys.
pub fn merge_session_env(session_env: &[(String, String)], request_env: &[(String, String)]) -> (out:
    Vec<(String, String)>)
    ensures
        pair_views(out@) == child_env(pair_views(session_env@) + pair_views(request_env@)),
        keys_distinct(pair_views(out@)),
{
    let mut all: Vec<(String, String)> = Vec::new();
    let mut i: usize = 0;
    while i < session_env.len()
        invariant
            i <= session_env@.len(),
            pair_views(all@) == pair_views(session_env@).subrange(0, i as int),
        decreases session_env@.len() - i,
    {
        let ghost before = all@;
        all.push(clone_pair(&session_env[i]));
        assert(pair_views(all@) =~= pair_views(before).push(pair_views(session_env@)[i as int]));
        assert(pair_views(session_env@).subrange(0, i + 1) =~= pair_views(session_env@).subrange(
            0,
            i as int,
        ).push(pair_views(session_env@)[i as int]));
        i = i + 1;
    }
    assert(pair_views(session_env@).subrange(0, i as int) =~= pair_views(session_env@));
    assert(pair_views(request_env@).subrange(0, 0) =~= Seq::<(Seq<char>, Seq<char>)>::empty());
    assert(pair_views(session_env@) + Seq::<(Seq<char>, Seq<char>)>::empty() =~= pair_views(session_env@));
    let mut j: usize = 0;
    while j < request_env.len()
        invariant
            i == session_env@.len(),
            j <= request_env@.len(),
            pair_views(all@) == pair_views(session_env@) + pair_views(request_env@).subrange(0, j as int),
        decreases request_env@.len() - j,
    {
        let ghost before = all@;
        all.push(clone_pair(&request_env[j]));
        assert(pair_views(all@) =~= pair_views(before).push(pair_views(request_env@)[j as int]));
        assert(pair_views(all@) =~= pair_views(session_env@) + pair_views(request_env@).subrange(
            0,
            j + 1,
        ));
        j = j + 1;
    }
    assert(pair_views(request_env@).subrange(0, request_env@.len() as int) =~= pair_views(request_env@));
    sanitize_env(all.as_slice())
}

/// Whether some pair has the given key.
pub fn contains_key(env_vars: &[(String, String)], key: &str) -> (r: bool)
    ensures
        r == has_key(pair_views(env_vars@), key@),
{
    let mut i: usize = 0;
    while i < env_vars.len()
        invariant
            i <= env_vars@.len(),
            forall|j: int| 0 <= j < i ==> #[trigger] pair_views(env_vars@)[j].0 != key@,
        decreases env_vars@.len() - i,
    {
        if str_eq(env_vars[i].0.as_str(), key) {
            assert(pair_views(env_vars@)[i as int].0 == key@);
            return true;
        }
        assert(pair_views(env_vars@)[i as int].0 == env_vars@[i as int].0@);
        i = i + 1;
    }
    false
}

/// No variable the list denotes has a stripped key.
pub proof fn lemma_keep_unstripped_clean(s: Seq<(Seq<char>, Seq<char>)>)
    ensures
        forall|k: Seq<char>| #[trigger] env_map(keep_unstripped(s)).dom().contains(k) ==> !stripped_key(k),
    decreases s.len(),
{
    if s.len() > 0 {
        lemma_keep_unstripped_clean(s.drop_last());
        if !stripped_key(s.last().0) {
            let t = keep_unstripped(s.drop_last()).push(s.last());
            assert(t.drop_last() =~= keep_unstripped(s.drop_last()));
            assert(env_map(t) == env_map(t.drop_last()).insert(t.last().0, t.last().1));
        }
    }
}

/// Filtering keeps exactly the unstripped variables, with their values.
pub proof fn lemma_keep_unstripped_map(s: Seq<(Seq<char>, Seq<char>)>, k: Seq<char>)
    requires
        !stripped_key(k),
    ensures
        env_map(keep_unstripped(s)).dom().contains(k) == env_map(s).dom().contains(k),
        env_map(s).dom().contains(k) ==> env_map(keep_unstripped(s))[k] == env_map(s)[k],
    decreases s.len(),
{
    if s.len() > 0 {
        lemma_keep_unstripped_map(s.drop_last(), k);
        if !stripped_key(s.last().0) {
            let t = keep_unstripped(s.drop_last()).push(s.last());
            assert(t.drop_last() =~= keep_unstripped(s.drop_last()));
            assert(env_map(t) == env_map(t.drop_last()).insert(t.last().0, t.last().1));
        } else {
            assert(s.last().0 != k);
        }
    }
}

/// Later lists override earlier ones.
pub proof fn lemma_env_map_concat(a: Seq<(Seq<char>, Seq<char>)>, b: Seq<(Seq<char>, Seq<char>)>, k: Seq<char>)
    ensures
        env_map(a + b).dom().contains(k) == (env_map(a).dom().contains(k) || env_map(b).dom().contains(k)),
        env_map(b).dom().contains(k) ==> env_map(a + b)[k] == env_map(b)[k],
        !env_map(b).dom().contains(k) && env_map(a).dom().contains(k) ==> env_map(a + b)[k] == env_map(a)[k],
    decreases b.len(),
{
    if b.len() == 0 {
        assert(a + b =~= a);
    } else {
        assert((a + b).drop_last() =~= a + b.drop_last());
        assert((a + b).last() == b.last());
        lemma_env_map_concat(a, b.drop_last(), k);
    }
}


/// Dropping a key removes exactly that variable, leaves only keys of the
/// list, and keeps keys distinct.
pub proof fn lemma_without_key(t: Seq<(Seq<char>, Seq<char>)>, k: Seq<char>)
    ensures
        env_map(without_key(t, k)) == env_map(t).remove(k),
        forall|i: int| 0 <= i < without_key(t, k).len() ==> #[trigger] without_key(t, k)[i].0 != k
            && has_key(t, without_key(t, k)[i].0),
        keys_distinct(t) ==> keys_distinct(without_key(t, k)),
    decreases t.len(),
{
    if t.len() == 0 {
        assert(env_map(t).remove(k) =~= env_map(t));
    } else {
        let p = t.drop_last();
        lemma_without_key(p, k);
        let w = without_key(p, k);
        assert forall|key: Seq<char>| has_key(p, key) implies has_key(t, key) by {
            let j = choose|j: int| 0 <= j < p.len() && #[trigger] p[j].0 == key;
            assert(t[j] == p[j]);
        }
        if t.last().0 == k {
            assert(env_map(t) == env_map(p).insert(k, t.last().1));
            assert(env_map(t).remove(k) =~= env_map(p).remove(k));
            assert forall|i: int| 0 <= i < w.len() implies #[trigger] w[i].0 != k && has_key(t, w[i].0) by {
                assert(has_key(p, w[i].0));
            }
            if keys_distinct(t) {
                assert forall|i: int, j: int| 0 <= i < j < p.len() implies #[trigger] p[i].0 != #[trigger] p[j].0 by {
                    assert(t[i] == p[i] && t[j] == p[j]);
                }
            }
        } else {
            let r = w.push(t.last());
            assert(r.drop_last() =~= w);
            assert(env_map(r) == env_map(w).insert(t.last().0, t.last().1));
            assert(env_map(t) == env_map(p).insert(t.last().0, t.last().1));
            assert(env_map(r) =~= env_map(t).remove(k));
            assert(has_key(t, t.last().0)) by {
                assert(t[t.len() - 1].0 == t.last().0);
            }
            assert forall|i: int| 0 <= i < r.len() implies #[trigger] r[i].0 != k && has_key(t, r[i].0) by {
                if i < w.len() {
                    assert(r[i] == w[i]);
                    assert(has_key(p, w[i].0));
                }
            }
            if keys_distinct(t) {
                assert forall|i: int, j: int| 0 <= i < j < p.len() implies #[trigger] p[i].0 != #[trigger] p[j].0 by {
                    assert(t[i] == p[i] && t[j] == p[j]);
                }
                assert(!has_key(p, t.last().0)) by {
                    if has_key(p, t.last().0) {
                        let j = choose|j: int| 0 <= j < p.len() && #[trigger] p[j].0 == t.last().0;
                        assert(t[j] == p[j]);
                        assert(t[j].0 == t[t.len() - 1].0);
                    }
                }
                assert forall|i: int, j: int| 0 <= i < j < r.len() implies #[trigger] r[i].0 != #[trigger] r[j].0 by {
                    assert(r[i] == w[i]);
                    if j < w.len() {
                        assert(r[j] == w[j]);
                    } else {
                        assert(has_key(p, w[i].0));
                    }
                }
            }
        }
    }
}

/// Keeping the last pair per key denotes the same variables, with each key
/// once.
pub proof fn lemma_last_wins(s: Seq<(Seq<char>, Seq<char>)>)
    ensures
        env_map(last_wins(s)) == env_map(s),
        keys_distinct(last_wins(s)),
    decreases s.len(),
{
    if s.len() > 0 {
        let l = last_wins(s.drop_last());
        lemma_last_wins(s.drop_last());
        lemma_without_key(l, s.last().0);
        let w = without_key(l, s.last().0);
        let r = w.push(s.last());
        assert(r.drop_last() =~= w);
        assert(env_map(r) == env_map(w).insert(s.last().0, s.last().1));
        assert(env_map(s) == env_map(s.drop_last()).insert(s.last().0, s.last().1));
        assert(env_map(r) =~= env_map(s));
        assert forall|i: int, j: int| 0 <= i < j < r.len() implies #[trigger] r[i].0 != #[trigger] r[j].0 by {
            assert(r[i] == w[i]);
            if j < w.len() {
                assert(r[j] == w[j]);
            }
        }
    }
}

/// The spawn environment: merging session variables under request
/// variables and stripping loader keys gives, for every key that is not a
/// loader key, the request's value when the request sets it and the
/// session's otherwise; no loader key survives, and each key occurs once.
pub proof fn law_merged_env_request_wins(
    session: Seq<(Seq<char>, Seq<char>)>,
    request: Seq<(Seq<char>, Seq<char>)>,
    k: Seq<char>,
)
    ensures
        keys_distinct(child_env(session + request)),
        stripped_key(k) ==> !env_map(child_env(session + request)).dom().contains(k),
        !stripped_key(k) && env_map(request).dom().contains(k) ==> env_map(child_env(session + request)).dom().contains(k)
            && env_map(child_env(session + request))[k] == env_map(request)[k],
        !stripped_key(k) && !env_map(request).dom().contains(k) ==> (env_map(child_env(
            session + request,
        )).dom().contains(k) == env_map(session).dom().contains(k)) && (env_map(session).dom().contains(k)
            ==> env_map(child_env(session + request))[k] == env_map(session)[k]),
{
    lemma_last_wins(keep_unstripped(session + request));
    lemma_keep_unstripped_clean(session + request);
    lemma_env_map_concat(session, request, k);
    if !stripped_key(k) {
        lemma_keep_unstripped_map(session + request, k);
    }
}

/// An acceptable variable key: non-empty, without `=` or NUL, and not `PATH`.
pub open spec fn valid_env_key(k: Seq<char>) -> bool {
    &&& k.len() > 0
    &&& forall|i: int| 0 <= i < k.len() ==> #[trigger] k[i] != '=' && k[i] != '\0'
    &&& k != path_key()
}

/// An acceptable variable value: without NUL.
pub open spec fn valid_env_value(v: Seq<char>) -> bool {
    forall|i: int| 0 <= i < v.len() ==> #[trigger] v[i] != '\0'
}

/// An acceptable variable pair.
pub open spec fn valid_pair(p: (Seq<char>, Seq<char>)) -> bool {
    valid_env_key(p.0) && valid_env_value(p.1)
}

/// Every pair is acceptable.
pub open spec fn valid_env(s: Seq<(Seq<char>, Seq<char>)>) -> bool {
    forall|i: int| 0 <= i < s.len() ==> valid_pair(#[trigger] s[i])
}

fn no_forbidden_chars(cs: &Vec<char>, forbid_eq: bool) -> (r: bool)
    ensures
        r == (forall|i: int|
            0 <= i < cs@.len() ==> (forbid_eq ==> #[trigger] cs@[i] != '=') && cs@[i] != '\0'),
{
    let mut i: usize = 0;
    while i < cs.len()
        invariant
            i <= cs@.len(),
            forall|j: int| 0 <= j < i ==> (forbid_eq ==> #[trigger] cs@[j] != '=') && cs@[j] != '\0',
        decreases cs@.len() - i,
    {
        if (forbid_eq && cs[i] == '=') || cs[i] == '\0' {
            return false;
        }
        i = i + 1;
    }
    true
}

/// Validate request variables: keys non-empty without `=` or NUL, never
/// `PATH` (programs resolve against the daemon's trusted `PATH`), values
/// without NUL.
pub fn validate_env_vars(env_vars: &[(String, String)]) -> (r: Result<(), String>)
    ensures
        r is Ok <==> valid_env(pair_views(env_vars@)),
{
    let ghost pv = pair_views(env_vars@);
    let mut i: usize = 0;
    while i < env_vars.len()
        invariant
            pv == pair_views(env_vars@),
            i <= env_vars@.len(),
            forall|j: int| 0 <= j < i ==> valid_pair(#[trigger] pv[j]),
        decreases env_vars@.len() - i,
    {
        let k = chars_of(env_vars[i].0.as_str());
        let v = chars_of(env_vars[i].1.as_str());
        assert(pv[i as int] == (k@, v@));
        let is_path = k.len() == 4 && k[0] == 'P' && k[1] == 'A' && k[2] == 'T' && k[3] == 'H';
        proof {
            if k@.len() == 4 {
                if is_path {
                    assert(k@ =~= path_key());
                } else {
                    assert(k@ != path_key()) by {
                        if k@ == path_key() {
                            assert(k@[0] == 'P' && k@[1] == 'A' && k@[2] == 'T' && k@[3] == 'H');
                        }
                    }
                }
            }
        }
        if is_path {
            assert(!valid_pair(pv[i as int]));
            return Err(String::from_str(
                "env var PATH must not be supplied: programs resolve against the daemon's trusted PATH",
            ));
        }
        let key_chars_ok = k.len() > 0 && no_forbidden_chars(&k, true);
        proof {
            if key_chars_ok {
                assert(valid_env_key(k@));
            } else {
                assert(!valid_env_key(k@));
            }
        }
        if !key_chars_ok {
            assert(!valid_pair(pv[i as int]));
            let mut m = String::from_str("invalid env var key: ");
            push_str(&mut m, env_vars[i].0.as_str());
            return Err(m);
        }
        let value_ok = no_forbidden_chars(&v, false);
        proof {
            if value_ok {
                assert(valid_env_value(v@));
            } else {
                assert(!valid_env_value(v@));
            }
        }
        if !value_ok {
            assert(!valid_env_value(pv[i as int].1));
            assert(!valid_pair(pv[i as int]));
            let mut m = String::from_str("invalid value for env var: ");
            push_str(&mut m, env_vars[i].0.as_str());
            return Err(m);
        }
        assert(valid_pair(pv[i as int]));
        i = i + 1;
    }
    Ok(())
}


/// A copy of a variable list.
pub fn clone_vars(v: &[(String, String)]) -> (out: Vec<(String, String)>)
    ensures
        pair_views(out@) == pair_views(v@),
{
    let mut out: Vec<(String, String)> = Vec::new();
    let mut i: usize = 0;
    while i < v.len()
        invariant
            i <= v@.len(),
            pair_views(out@) == pair_views(v@).subrange(0, i as int),
        decreases v@.len() - i,
    {
        let ghost before = out@;
        out.push(clone_pair(&v[i]));
        assert(pair_views(out@) =~= pair_views(before).push(pair_views(v@)[i as int]));
        assert(pair_views(v@).subrange(0, i + 1) =~= pair_views(v@).subrange(0, i as int).push(
            pair_views(v@)[i as int],
        ));
        i = i + 1;
    }
    assert(pair_views(v@).subrange(0, v@.len() as int) =~= pair_views(v@));
    out
}

} // verus!
