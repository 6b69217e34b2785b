//! Lexical path model: a path is the sequence of its `/`-separated
//! components, ignoring empty components (repeated or trailing slashes) and
//! `.` components. Containment ("is under") is component-wise prefix, so
//! `logs` covers `logs/x` but never `logs2/x`.

use vstd::prelude::*;

use crate::text::push_char;

verus! {

/// The `/`-separated pieces of `s`, empty pieces included (always at least one).
pub open spec fn pieces(s: Seq<char>) -> Seq<Seq<char>>
    decreases s.len(),
{
    if s.len() == 0 {
        seq![Seq::<char>::empty()]
    } else {
        let p = pieces(s.drop_last());
        if s.last() == '/' {
            p.push(Seq::<char>::empty())
        } else {
            p.update(p.len() - 1, p.last().push(s.last()))
        }
    }
}

/// A piece that names a real component (not empty, not `.`).
pub open spec fn is_component(c: Seq<char>) -> bool {
    c.len() > 0 && c != seq!['.']
}

/// The pieces that are components, in order.
pub open spec fn keep_components(p: Seq<Seq<char>>) -> Seq<Seq<char>>
    decreases p.len(),
{
    if p.len() == 0 {
        Seq::<Seq<char>>::empty()
    } else if is_component(p.last()) {
        keep_components(p.drop_last()).push(p.last())
    } else {
        keep_components(p.drop_last())
    }
}

/// The components of a path.
pub open spec fn components(s: Seq<char>) -> Seq<Seq<char>> {
    keep_components(pieces(s))
}

/// Components joined with `/` (the empty sequence joins to the empty path).
pub open spec fn join(cs: Seq<Seq<char>>) -> Seq<char>
    decreases cs.len(),
{
    if cs.len() == 0 {
        Seq::<char>::empty()
    } else if cs.len() == 1 {
        cs[0]
    } else {
        join(cs.drop_last()) + seq!['/'] + cs.last()
    }
}

/// `a` is a component-wise prefix of `b`.
pub open spec fn comps_prefix(a: Seq<Seq<char>>, b: Seq<Seq<char>>) -> bool {
    a.len() <= b.len() && b.subrange(0, a.len() as int) == a
}

/// The path `p` lies at or under `root` (component-wise).
pub open spec fn path_under(p: Seq<char>, root: Seq<char>) -> bool {
    comps_prefix(components(root), components(p))
}

/// The character views of a vector of component vectors.
pub open spec fn views(v: Seq<Vec<char>>) -> Seq<Seq<char>> {
    Seq::new(v.len(), |i: int| v[i]@)
}

proof fn lemma_pieces_nonempty(s: Seq<char>)
    ensures
        pieces(s).len() >= 1,
    decreases s.len(),
{
    if s.len() > 0 {
        lemma_pieces_nonempty(s.drop_last());
    }
}

/// Whether a component vector is a real component.
fn is_component_exec(c: &Vec<char>) -> (r: bool)
    ensures
        r == is_component(c@),
{
    if c.len() == 0 {
        false
    } else if c.len() == 1 && c[0] == '.' {
        assert(c@ =~= seq!['.']);
        false
    } else {
        assert(c@.len() > 1 ==> c@ != seq!['.']);
        assert(c@.len() == 1 ==> c@[0] != '.' ==> c@ != seq!['.']);
        true
    }
}

/// Split a path into its components.
pub fn split_components(s: &[char]) -> (out: Vec<Vec<char>>)
    ensures
        views(out@) == components(s@),
{
    let n = s.len();
    let mut out: Vec<Vec<char>> = Vec::new();
    let mut cur: Vec<char> = Vec::new();
    let mut i: usize = 0;
    proof {
        assert(s@.subrange(0, 0) =~= Seq::<char>::empty());
    }
    while i < n
        invariant
            n == s@.len(),
            i <= n,
            pieces(s@.subrange(0, i as int)).len() >= 1,
            cur@ == pieces(s@.subrange(0, i as int)).last(),
            views(out@) == keep_components(pieces(s@.subrange(0, i as int)).drop_last()),
        decreases n - i,
    {
        let c = s[i];
        let ghost pre = s@.subrange(0, i as int);
        let ghost post = s@.subrange(0, i + 1);
        proof {
            assert(post.drop_last() =~= pre);
            assert(post.last() == c);
            lemma_pieces_nonempty(pre);
        }
        let ghost p = pieces(pre);
        if c == '/' {
            let keep = is_component_exec(&cur);
            proof {
                assert(pieces(post) == p.push(Seq::<char>::empty()));
                assert(pieces(post).drop_last() =~= p);
                assert(p =~= p.drop_last().push(p.last()));
            }
            if keep {
                let ghost before = out@;
                out.push(cur);
                proof {
                    assert(views(out@) =~= views(before).push(p.last()));
                }
            }
            cur = Vec::new();
            proof {
                assert(cur@ =~= pieces(post).last());
            }
        } else {
            cur.push(c);
            proof {
                assert(pieces(post) == p.update(p.len() - 1, p.last().push(c)));
                assert(pieces(post).drop_last() =~= p.drop_last());
            }
        }
        i = i + 1;
    }
    proof {
        assert(s@.subrange(0, n as int) =~= s@);
        let p = pieces(s@);
        assert(p =~= p.drop_last().push(p.last()));
    }
    let keep = is_component_exec(&cur);
    if keep {
        let ghost before = out@;
        out.push(cur);
        proof {
            assert(views(out@) =~= views(before).push(pieces(s@).last()));
        }
    }
    out
}

/// Whether component sequence `a` is a prefix of `b`.
pub fn comps_prefix_exec(a: &Vec<Vec<char>>, b: &Vec<Vec<char>>) -> (r: bool)
    ensures
        r == comps_prefix(views(a@), views(b@)),
{
    if a.len() > b.len() {
        return false;
    }
    let mut i: usize = 0;
    while i < a.len()
        invariant
            a@.len() <= b@.len(),
            i <= a@.len(),
            forall|j: int| 0 <= j < i ==> a@[j]@ == b@[j]@,
        decreases a@.len() - i,
    {
        if !chars_equal(&a[i], &b[i]) {
            assert(views(b@).subrange(0, views(a@).len() as int)[i as int] != views(a@)[i as int]);
            return false;
        }
        i = i + 1;
    }
    assert(views(b@).subrange(0, views(a@).len() as int) =~= views(a@));
    true
}

/// Character-wise equality of two character vectors.
pub fn chars_equal(a: &Vec<char>, b: &Vec<char>) -> (r: bool)
    ensures
        r == (a@ == b@),
{
    if a.len() != b.len() {
        return false;
    }
    let mut i: usize = 0;
    while i < a.len()
        invariant
            a@.len() == b@.len(),
            i <= a@.len(),
            forall|j: int| 0 <= j < i ==> a@[j] == b@[j],
        decreases a@.len() - i,
    {
        if a[i] != b[i] {
            return false;
        }
        i = i + 1;
    }
    assert(a@ =~= b@);
    true
}

/// Join components with `/`.
pub fn join_components(cs: &[Vec<char>]) -> (s: Vec<char>)
    ensures
        s@ == join(views(cs@)),
{
    let mut s: Vec<char> = Vec::new();
    let mut i: usize = 0;
    while i < cs.len()
        invariant
            i <= cs@.len(),
            s@ == join(views(cs@).subrange(0, i as int)),
        decreases cs@.len() - i,
    {
        let ghost before = s@;
        if i > 0 {
            s.push('/');
        }
        let mut k: usize = 0;
        let c = &cs[i];
        while k < c.len()
            invariant
                k <= c@.len(),
                c@ == cs@[i as int]@,
                s@ == (if i > 0 { before + seq!['/'] } else { before }) + c@.subrange(0, k as int),
            decreases c@.len() - k,
        {
            s.push(c[k]);
            assert(c@.subrange(0, k + 1) == c@.subrange(0, k as int).push(c@[k as int]));
            k = k + 1;
        }
        proof {
            assert(c@.subrange(0, c@.len() as int) =~= c@);
            let v = views(cs@).subrange(0, i + 1);
            assert(v.drop_last() =~= views(cs@).subrange(0, i as int));
            assert(v.last() == cs@[i as int]@);
            if i == 0 {
                assert(v.len() == 1);
                assert(join(v) == v[0]);
            }
        }
        i = i + 1;
    }
    assert(views(cs@).subrange(0, cs@.len() as int) =~= views(cs@));
    s
}


/// The sequence holds no `/`.
pub open spec fn no_sep(c: Seq<char>) -> bool {
    forall|i: int| 0 <= i < c.len() ==> c[i] != '/'
}

proof fn lemma_pieces_no_sep(s: Seq<char>)
    ensures
        pieces(s).len() >= 1,
        forall|k: int| 0 <= k < pieces(s).len() ==> no_sep(#[trigger] pieces(s)[k]),
    decreases s.len(),
{
    if s.len() > 0 {
        lemma_pieces_no_sep(s.drop_last());
        let p = pieces(s.drop_last());
        if s.last() != '/' {
            let q = p.update(p.len() - 1, p.last().push(s.last()));
            assert forall|k: int| 0 <= k < q.len() implies no_sep(#[trigger] q[k]) by {
                if k == q.len() - 1 {
                    assert(no_sep(p[k]));
                } else {
                    assert(q[k] == p[k]);
                }
            }
        } else {
            let q = p.push(Seq::<char>::empty());
            assert forall|k: int| 0 <= k < q.len() implies no_sep(#[trigger] q[k]) by {
                if k < p.len() {
                    assert(q[k] == p[k]);
                }
            }
        }
    }
}

proof fn lemma_keep_components_props(p: Seq<Seq<char>>)
    requires
        forall|k: int| 0 <= k < p.len() ==> no_sep(#[trigger] p[k]),
    ensures
        forall|k: int|
            0 <= k < keep_components(p).len() ==> is_component(#[trigger] keep_components(p)[k]) && no_sep(
                keep_components(p)[k],
            ),
    decreases p.len(),
{
    if p.len() > 0 {
        let d = p.drop_last();
        assert forall|k: int| 0 <= k < d.len() implies no_sep(#[trigger] d[k]) by {
            assert(d[k] == p[k]);
        }
        lemma_keep_components_props(d);
        assert(no_sep(p[p.len() - 1]));
        let kd = keep_components(d);
        let kp = keep_components(p);
        assert forall|k: int| 0 <= k < kp.len() implies is_component(#[trigger] kp[k]) && no_sep(kp[k]) by {
            if k < kd.len() {
                assert(kp[k] == kd[k]);
            } else {
                assert(kp[k] == p.last());
            }
        }
    }
}

/// Every component of a path is a real component without `/`.
pub proof fn lemma_components_are_components(s: Seq<char>)
    ensures
        forall|k: int|
            0 <= k < components(s).len() ==> is_component(#[trigger] components(s)[k]) && no_sep(components(s)[k]),
{
    lemma_pieces_no_sep(s);
    lemma_keep_components_props(pieces(s));
}

proof fn lemma_pieces_extend(s: Seq<char>, l: Seq<char>)
    requires
        no_sep(l),
    ensures
        pieces(s + l) == pieces(s).update(pieces(s).len() - 1, pieces(s).last() + l),
    decreases l.len(),
{
    lemma_pieces_nonempty(s);
    if l.len() == 0 {
        assert(s + l =~= s);
        assert(pieces(s).last() + l =~= pieces(s).last());
        assert(pieces(s).update(pieces(s).len() - 1, pieces(s).last()) =~= pieces(s));
    } else {
        let l2 = l.drop_last();
        assert(no_sep(l2));
        lemma_pieces_extend(s, l2);
        assert((s + l).drop_last() =~= s + l2);
        assert((s + l).last() == l.last());
        assert(l.last() != '/');
        let p = pieces(s + l2);
        assert(p.last() == pieces(s).last() + l2);
        assert((pieces(s).last() + l2).push(l.last()) =~= pieces(s).last() + l);
        assert(p.update(p.len() - 1, p.last().push(l.last())) =~= pieces(s).update(
            pieces(s).len() - 1,
            pieces(s).last() + l,
        ));
    }
}

/// Appending `/` adds no component.
pub proof fn lemma_components_slash(s: Seq<char>)
    ensures
        components(s + seq!['/']) == components(s),
{
    let t = s + seq!['/'];
    assert(t.drop_last() =~= s);
    assert(pieces(t) == pieces(s).push(Seq::<char>::empty()));
    assert(pieces(t).drop_last() =~= pieces(s));
}

/// After a trailing `/`, appending a real component adds exactly it.
pub proof fn lemma_components_child(s: Seq<char>, l: Seq<char>)
    requires
        s.len() > 0,
        s.last() == '/',
        is_component(l),
        no_sep(l),
    ensures
        components(s + l) == components(s).push(l),
{
    lemma_pieces_extend(s, l);
    assert(s.drop_last().push('/') =~= s);
    let p0 = pieces(s.drop_last());
    assert(pieces(s) == p0.push(Seq::<char>::empty()));
    assert(Seq::<char>::empty() + l =~= l);
    assert(pieces(s + l) =~= p0.push(l));
    assert(pieces(s + l).drop_last() =~= p0);
    assert(pieces(s).drop_last() =~= p0);
}


/// Joining real components and splitting the result gives them back.
pub proof fn lemma_components_join(cs: Seq<Seq<char>>)
    requires
        forall|i: int| 0 <= i < cs.len() ==> is_component(#[trigger] cs[i]) && no_sep(cs[i]),
    ensures
        components(join(cs)) == cs,
    decreases cs.len(),
{
    if cs.len() == 0 {
        let e = Seq::<char>::empty();
        assert(pieces(e) =~= seq![e]);
        assert(seq![e].drop_last() =~= Seq::<Seq<char>>::empty());
        assert(!is_component(e));
        assert(keep_components(seq![e]) == keep_components(Seq::<Seq<char>>::empty()));
        assert(components(e) =~= Seq::<Seq<char>>::empty());
        assert(cs =~= Seq::<Seq<char>>::empty());
    } else if cs.len() == 1 {
        let l = cs[0];
        assert(no_sep(l));
        lemma_pieces_extend(Seq::<char>::empty(), l);
        assert(Seq::<char>::empty() + l =~= l);
        assert(pieces(Seq::<char>::empty()) =~= seq![Seq::<char>::empty()]);
        assert(Seq::<char>::empty() + l =~= l);
        assert(pieces(l) =~= seq![l]);
        assert(seq![l].drop_last() =~= Seq::<Seq<char>>::empty());
        assert(keep_components(Seq::<Seq<char>>::empty()) =~= Seq::<Seq<char>>::empty());
        assert(components(l) =~= seq![l]);
        assert(cs =~= seq![l]);
    } else {
        let d = cs.drop_last();
        assert forall|i: int| 0 <= i < d.len() implies is_component(#[trigger] d[i]) && no_sep(d[i]) by {
            assert(d[i] == cs[i]);
        }
        lemma_components_join(d);
        let j = join(d);
        let l = cs.last();
        assert(is_component(cs[cs.len() - 1]) && no_sep(cs[cs.len() - 1]));
        lemma_components_slash(j);
        lemma_components_child(j + seq!['/'], l);
        assert(join(cs) == j + seq!['/'] + l);
        assert(d.push(l) =~= cs);
    }
}

} // verus!
