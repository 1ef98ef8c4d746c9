use vstd::prelude::*;
use vstd::string::StringExecFns;
use crate::builtins::{get_builtin, spec_get_builtin};
use crate::errors::{Error, ErrView, Source, Stage};
use crate::span::Span;
use crate::text::{str_eq, strs_view};
use crate::value::{
    anon_view, clone_ctx_obj, ContextualObject, ctx_obj_view, CtxObjView, Object, ObjView,
};

verus! {

/// One frame of the scope chain: a name tag, ordered bindings, an optional
/// parent handle and an optional `self` value.
#[derive(Debug)]
pub struct Frame {
    pub name: String,
    pub store: Vec<(String, ContextualObject)>,
    pub parent: Option<usize>,
    pub slf: Option<ContextualObject>,
}

/// Model of a frame.
pub struct FrameView {
    pub name: Seq<char>,
    pub store: Seq<(Seq<char>, CtxObjView)>,
    pub parent: Option<int>,
    pub slf: Option<CtxObjView>,
}

/// The models of a frame's bindings, in binding order.
pub open spec fn store_view(s: Seq<(String, ContextualObject)>) -> Seq<(Seq<char>, CtxObjView)> {
    Seq::new(s.len(), |i: int| (s[i].0@, ctx_obj_view(s[i].1)))
}

/// The model of a frame.
pub open spec fn frame_view(f: Frame) -> FrameView {
    FrameView {
        name: f.name@,
        store: store_view(f.store@),
        parent: match f.parent {
            Some(p) => Some(p as int),
            None => None,
        },
        slf: match f.slf {
            Some(v) => Some(ctx_obj_view(v)),
            None => None,
        },
    }
}

impl View for Frame {
    type V = FrameView;

    open spec fn view(&self) -> FrameView {
        frame_view(*self)
    }
}

/// All scope frames of an evaluation, children after their parents; a frame
/// is named by its index. Holding the whole chain in one arena keeps every
/// frame reachable by a plain handle, with no shared mutable references.
#[derive(Debug)]
pub struct Scope {
    pub frames: Vec<Frame>,
}

impl View for Scope {
    type V = Seq<FrameView>;

    open spec fn view(&self) -> Seq<FrameView> {
        Seq::new(self.frames@.len(), |i: int| frame_view(self.frames@[i]))
    }
}

/// No frame binds one name twice.
pub open spec fn frame_keys_unique(f: FrameView) -> bool {
    forall|j: int, k: int| 0 <= j < k < f.store.len() ==> f.store[j].0 != f.store[k].0
}

/// The frame's parent handle points at an earlier frame, and its bindings
/// are unique.
pub open spec fn frame_ok(s: Seq<FrameView>, i: int) -> bool {
    &&& (s[i].parent matches Some(p) ==> 0 <= p < i)
    &&& frame_keys_unique(s[i])
}

/// Scope well-formedness: every frame points backwards and binds each name
/// at most once.
pub open spec fn scope_wf(s: Seq<FrameView>) -> bool {
    forall|i: int| 0 <= i < s.len() ==> #[trigger] frame_ok(s, i)
}

/// The value bound to a name in a binding list: the first binding wins.
pub open spec fn store_lookup(st: Seq<(Seq<char>, CtxObjView)>, name: Seq<char>) -> Option<
    CtxObjView,
>
    decreases st.len(),
{
    if st.len() == 0 {
        None
    } else if st[0].0 == name {
        Some(st[0].1)
    } else {
        store_lookup(st.subrange(1, st.len() as int), name)
    }
}

/// The binding list after writing `name`: an existing binding is replaced
/// in place, a new one is appended.
pub open spec fn store_put(
    st: Seq<(Seq<char>, CtxObjView)>,
    name: Seq<char>,
    v: CtxObjView,
) -> Seq<(Seq<char>, CtxObjView)>
    decreases st.len(),
{
    if st.len() == 0 {
        seq![(name, v)]
    } else if st[0].0 == name {
        seq![(name, v)] + st.subrange(1, st.len() as int)
    } else {
        seq![st[0]] + store_put(st.subrange(1, st.len() as int), name, v)
    }
}

/// A match at the first position with no earlier match pins the lookup.
pub proof fn lemma_store_lookup_at(st: Seq<(Seq<char>, CtxObjView)>, name: Seq<char>, i: int)
    requires
        0 <= i < st.len(),
        st[i].0 == name,
        forall|j: int| 0 <= j < i ==> st[j].0 != name,
    ensures
        store_lookup(st, name) == Some(st[i].1),
    decreases i,
{
    if i > 0 {
        lemma_store_lookup_at(st.subrange(1, st.len() as int), name, i - 1);
    }
}

/// No matching key means no binding.
pub proof fn lemma_store_lookup_none(st: Seq<(Seq<char>, CtxObjView)>, name: Seq<char>)
    requires
        forall|j: int| 0 <= j < st.len() ==> st[j].0 != name,
    ensures
        store_lookup(st, name) is None,
    decreases st.len(),
{
    if st.len() > 0 {
        lemma_store_lookup_none(st.subrange(1, st.len() as int), name);
    }
}

/// Writing a binding in place is what `store_put` does when the key sits at
/// the first matching position.
pub proof fn lemma_store_put_at(
    st: Seq<(Seq<char>, CtxObjView)>,
    name: Seq<char>,
    v: CtxObjView,
    i: int,
)
    requires
        0 <= i < st.len(),
        st[i].0 == name,
        forall|j: int| 0 <= j < i ==> st[j].0 != name,
    ensures
        store_put(st, name, v) == st.update(i, (name, v)),
    decreases i,
{
    if i == 0 {
        assert(store_put(st, name, v) =~= st.update(0, (name, v)));
    } else {
        lemma_store_put_at(st.subrange(1, st.len() as int), name, v, i - 1);
        assert(store_put(st, name, v) =~= st.update(i, (name, v)));
    }
}

/// Appending is what `store_put` does when the key is absent.
pub proof fn lemma_store_put_none(st: Seq<(Seq<char>, CtxObjView)>, name: Seq<char>, v: CtxObjView)
    requires
        forall|j: int| 0 <= j < st.len() ==> st[j].0 != name,
    ensures
        store_put(st, name, v) == st.push((name, v)),
    decreases st.len(),
{
    if st.len() == 0 {
        assert(store_put(st, name, v) =~= st.push((name, v)));
    } else {
        lemma_store_put_none(st.subrange(1, st.len() as int), name, v);
        assert(store_put(st, name, v) =~= st.push((name, v)));
    }
}

/// Writing a binding keeps the keys unique.
pub proof fn lemma_store_put_unique(st: Seq<(Seq<char>, CtxObjView)>, name: Seq<char>, v: CtxObjView)
    requires
        forall|j: int, k: int| 0 <= j < k < st.len() ==> st[j].0 != st[k].0,
    ensures
        forall|j: int, k: int|
            0 <= j < k < store_put(st, name, v).len() ==> store_put(st, name, v)[j].0 != store_put(
                st,
                name,
                v,
            )[k].0,
        store_put(st, name, v).len() <= st.len() + 1,
        forall|j: int|
            0 <= j < store_put(st, name, v).len() ==> (store_put(st, name, v)[j].0 == name || (
            exists|k: int| 0 <= k < st.len() && st[k].0 == #[trigger] store_put(st, name, v)[j].0)),
    decreases st.len(),
{
    if st.len() > 0 && st[0].0 != name {
        lemma_store_put_unique(st.subrange(1, st.len() as int), name, v);
    }
}

/// Looking a name up after writing it finds the new value; other names are
/// untouched.
pub proof fn lemma_store_put_lookup(
    st: Seq<(Seq<char>, CtxObjView)>,
    name: Seq<char>,
    v: CtxObjView,
    probe: Seq<char>,
)
    ensures
        store_lookup(store_put(st, name, v), name) == Some(v),
        probe != name ==> store_lookup(store_put(st, name, v), probe) == store_lookup(st, probe),
    decreases st.len(),
{
    if st.len() == 0 {
        assert(store_put(st, name, v)[0] == (name, v));
        if probe != name {
            lemma_store_lookup_none(store_put(st, name, v), probe);
            lemma_store_lookup_none(st, probe);
        }
    } else if st[0].0 == name {
        let put = store_put(st, name, v);
        assert(put[0] == (name, v));
        assert(put.subrange(1, put.len() as int) =~= st.subrange(1, st.len() as int));
    } else {
        lemma_store_put_lookup(st.subrange(1, st.len() as int), name, v, probe);
        let put = store_put(st, name, v);
        assert(put[0] == st[0]);
        assert(put.subrange(1, put.len() as int) =~= store_put(
            st.subrange(1, st.len() as int),
            name,
            v,
        ));
    }
}

/// A binding inserted into a key-sorted list, before the first key it does
/// not come after.
pub open spec fn spec_insert_sorted(
    e: (Seq<char>, CtxObjView),
    s: Seq<(Seq<char>, CtxObjView)>,
) -> Seq<(Seq<char>, CtxObjView)>
    decreases s.len(),
{
    if s.len() == 0 {
        seq![e]
    } else if crate::text::spec_str_le(e.0, s[0].0) {
        seq![e] + s
    } else {
        seq![s[0]] + spec_insert_sorted(e, s.subrange(1, s.len() as int))
    }
}

/// A binding list rearranged into ascending key order.
pub open spec fn spec_sort_store(s: Seq<(Seq<char>, CtxObjView)>) -> Seq<(Seq<char>, CtxObjView)>
    decreases s.len(),
{
    if s.len() == 0 {
        s
    } else {
        spec_insert_sorted(s[0], spec_sort_store(s.subrange(1, s.len() as int)))
    }
}

/// Keys ascend, neighbour by neighbour.
pub open spec fn store_keys_sorted(s: Seq<(Seq<char>, CtxObjView)>) -> bool {
    forall|i: int|
        0 <= i && i + 1 < s.len() ==> crate::text::spec_str_le(#[trigger] s[i].0, s[i + 1].0)
}

/// Inserting at the first fitting position is what sorted insertion does.
proof fn lemma_insert_sorted_at(
    e: (Seq<char>, CtxObjView),
    s: Seq<(Seq<char>, CtxObjView)>,
    j: int,
)
    requires
        0 <= j <= s.len(),
        forall|k: int| 0 <= k < j ==> !crate::text::spec_str_le(e.0, #[trigger] s[k].0),
        j < s.len() ==> crate::text::spec_str_le(e.0, s[j].0),
    ensures
        spec_insert_sorted(e, s) == s.subrange(0, j) + seq![e] + s.subrange(j, s.len() as int),
    decreases j,
{
    if j == 0 {
        if s.len() == 0 {
            assert(spec_insert_sorted(e, s) =~= s.subrange(0, 0) + seq![e] + s.subrange(
                0,
                s.len() as int,
            ));
        } else {
            assert(spec_insert_sorted(e, s) =~= s.subrange(0, 0) + seq![e] + s.subrange(
                0,
                s.len() as int,
            ));
        }
    } else {
        let t = s.subrange(1, s.len() as int);
        lemma_insert_sorted_at(e, t, j - 1);
        assert(t.subrange(0, j - 1) =~= s.subrange(1, j));
        assert(t.subrange(j - 1, t.len() as int) =~= s.subrange(j, s.len() as int));
        assert(seq![s[0]] + (s.subrange(1, j) + seq![e] + s.subrange(j, s.len() as int)) =~= s
            .subrange(0, j) + seq![e] + s.subrange(j, s.len() as int));
    }
}

/// Sorted insertion of a fresh key keeps neighbours ascending and keys
/// distinct, grows the list by one, and introduces no key but the new one.
#[verifier::rlimit(100)]
proof fn lemma_insert_sorted_props(e: (Seq<char>, CtxObjView), s: Seq<(Seq<char>, CtxObjView)>)
    requires
        store_keys_sorted(s),
        forall|k: int| 0 <= k < s.len() ==> (#[trigger] s[k].0) != e.0,
        forall|j: int, k: int| 0 <= j < k < s.len() ==> s[j].0 != s[k].0,
    ensures
        store_keys_sorted(spec_insert_sorted(e, s)),
        spec_insert_sorted(e, s).len() == s.len() + 1,
        forall|j: int, k: int|
            0 <= j < k < spec_insert_sorted(e, s).len() ==> spec_insert_sorted(e, s)[j].0
                != spec_insert_sorted(e, s)[k].0,
        forall|j: int|
            0 <= j < spec_insert_sorted(e, s).len() ==> ((#[trigger] spec_insert_sorted(e, s)[j].0)
                == e.0 || exists|k: int| 0 <= k < s.len() && s[k].0 == spec_insert_sorted(
                e,
                s,
            )[j].0),
    decreases s.len(),
{
    if s.len() == 0 || crate::text::spec_str_le(e.0, s[0].0) {
        let r = spec_insert_sorted(e, s);
        assert(r =~= seq![e] + s);
        assert forall|j: int| 0 <= j < r.len() implies ((#[trigger] r[j].0) == e.0 || exists|
            k: int,
        | 0 <= k < s.len() && s[k].0 == r[j].0) by {
            if j > 0 {
                assert(s[j - 1].0 == r[j].0);
            }
        }
    } else {
        crate::text::lemma_str_le_total(e.0, s[0].0);
        let t = s.subrange(1, s.len() as int);
        lemma_insert_sorted_props(e, t);
        let rt = spec_insert_sorted(e, t);
        let r = spec_insert_sorted(e, s);
        assert(r =~= seq![s[0]] + rt);
        assert(rt.len() > 0);
        // The old head pairs with the head of the inserted tail.
        if t.len() == 0 || crate::text::spec_str_le(e.0, t[0].0) {
            assert(rt =~= seq![e] + t);
            assert(crate::text::spec_str_le(s[0].0, rt[0].0));
        } else {
            assert(rt[0] == t[0]);
            assert(crate::text::spec_str_le(s[0].0, rt[0].0));
        }
        assert forall|i: int| 0 <= i && i + 1 < r.len() implies crate::text::spec_str_le(
            #[trigger] r[i].0,
            r[i + 1].0,
        ) by {
            if i > 0 {
                assert(r[i] == rt[i - 1] && r[i + 1] == rt[i]);
            }
        }
        assert forall|j: int| 0 <= j < r.len() implies ((#[trigger] r[j].0) == e.0 || exists|
            k: int,
        | 0 <= k < s.len() && s[k].0 == r[j].0) by {
            if j == 0 {
                assert(s[0].0 == r[0].0);
            } else {
                assert(r[j].0 == rt[j - 1].0);
                if rt[j - 1].0 != e.0 {
                    let k = choose|k: int| 0 <= k < t.len() && t[k].0 == rt[j - 1].0;
                    assert(s[k + 1].0 == r[j].0);
                }
            }
        }
        assert forall|j: int, k: int| 0 <= j < k < r.len() implies r[j].0 != r[k].0 by {
            if j == 0 {
                assert(r[k].0 == rt[k - 1].0);
                if rt[k - 1].0 != e.0 {
                    let m = choose|m: int| 0 <= m < t.len() && t[m].0 == rt[k - 1].0;
                    assert(s[m + 1].0 == rt[k - 1].0);
                }
            }
        }
    }
}

/// Sorting a distinct-keyed binding list yields ascending, distinct keys
/// drawn from the list's own keys, without changing its length.
#[verifier::rlimit(100)]
pub proof fn lemma_sort_store_props(s: Seq<(Seq<char>, CtxObjView)>)
    requires
        forall|j: int, k: int| 0 <= j < k < s.len() ==> s[j].0 != s[k].0,
    ensures
        store_keys_sorted(spec_sort_store(s)),
        spec_sort_store(s).len() == s.len(),
        forall|j: int, k: int|
            0 <= j < k < spec_sort_store(s).len() ==> spec_sort_store(s)[j].0 != spec_sort_store(
                s,
            )[k].0,
        forall|j: int|
            0 <= j < spec_sort_store(s).len() ==> exists|k: int|
                0 <= k < s.len() && s[k].0 == (#[trigger] spec_sort_store(s)[j].0),
    decreases s.len(),
{
    if s.len() > 0 {
        let t = s.subrange(1, s.len() as int);
        lemma_sort_store_props(t);
        let st = spec_sort_store(t);
        // The head's key is fresh in the sorted tail.
        assert forall|k: int| 0 <= k < st.len() implies (#[trigger] st[k].0) != s[0].0 by {
            let m = choose|m: int| 0 <= m < t.len() && t[m].0 == st[k].0;
            assert(s[m + 1].0 == t[m].0);
        }
        lemma_insert_sorted_props(s[0], st);
        let r = spec_sort_store(s);
        assert(r == spec_insert_sorted(s[0], st));
        assert forall|j: int| 0 <= j < r.len() implies exists|k: int|
            0 <= k < s.len() && s[k].0 == (#[trigger] r[j].0) by {
            if r[j].0 == s[0].0 {
            } else {
                let m = choose|m: int| 0 <= m < st.len() && st[m].0 == r[j].0;
                let m2 = choose|m2: int| 0 <= m2 < t.len() && t[m2].0 == st[m].0;
                assert(s[m2 + 1].0 == r[j].0);
            }
        }
    }
}

fn insert_sorted_binding(store: &mut Vec<(String, ContextualObject)>, e: (String, ContextualObject))
    ensures
        store_view(final(store)@) == spec_insert_sorted(
            (e.0@, ctx_obj_view(e.1)),
            store_view(old(store)@),
        ),
{
    let ghost ev = (e.0@, ctx_obj_view(e.1));
    let mut j: usize = 0;
    loop
        invariant
            ev == (e.0@, ctx_obj_view(e.1)),
            0 <= j <= store@.len(),
            *store == *old(store),
            forall|k: int|
                0 <= k < j ==> !crate::text::spec_str_le(ev.0, (#[trigger] store_view(store@)[k]).0),
        ensures
            0 <= j <= store@.len(),
            *store == *old(store),
            forall|k: int|
                0 <= k < j ==> !crate::text::spec_str_le(ev.0, (#[trigger] store_view(store@)[k]).0),
            j < store@.len() ==> crate::text::spec_str_le(ev.0, store_view(store@)[j as int].0),
        decreases store@.len() - j,
    {
        if j == store.len() {
            break;
        }
        let key_here = store[j].0.as_str();
        let le_here = crate::text::str_le(e.0.as_str(), key_here);
        proof {
            assert(ev.0 == e.0@);
            assert(key_here@ == store@[j as int].0@);
            assert(store_view(store@)[j as int].0 == store@[j as int].0@);
            assert(le_here == crate::text::spec_str_le(ev.0, store_view(store@)[j as int].0));
        }
        if le_here {
            break;
        }
        j += 1;
    }
    proof {
        lemma_insert_sorted_at(ev, store_view(store@), j as int);
    }
    store.insert(j, e);
    proof {
        let pre = store_view(old(store)@);
        assert(store_view(store@) =~= pre.subrange(0, j as int) + seq![ev] + pre.subrange(
            j as int,
            pre.len() as int,
        ));
    }
}

fn sorted_store_from(store: &Vec<(String, ContextualObject)>, from: usize) -> (r: Vec<
    (String, ContextualObject),
>)
    requires
        from <= store@.len(),
    ensures
        store_view(r@) == spec_sort_store(
            store_view(store@).subrange(from as int, store@.len() as int),
        ),
    decreases store@.len() - from,
{
    let ghost whole = store_view(store@).subrange(from as int, store@.len() as int);
    if from == store.len() {
        let r: Vec<(String, ContextualObject)> = Vec::new();
        proof {
            assert(whole =~= Seq::<(Seq<char>, CtxObjView)>::empty());
            assert(store_view(r@) =~= Seq::<(Seq<char>, CtxObjView)>::empty());
        }
        return r;
    }
    let mut rest = sorted_store_from(store, from + 1);
    proof {
        assert(whole[0] == store_view(store@)[from as int]);
        assert(whole.subrange(1, whole.len() as int) =~= store_view(store@).subrange(
            from as int + 1,
            store@.len() as int,
        ));
    }
    let e = (store[from].0.clone(), clone_ctx_obj(&store[from].1));
    proof {
        assert((e.0@, ctx_obj_view(e.1)) == store_view(store@)[from as int]);
    }
    insert_sorted_binding(&mut rest, e);
    rest
}

/// A copy of a binding list rearranged into ascending key order: how the
/// bindings are presented for inspection.
pub fn sort_store(store: &Vec<(String, ContextualObject)>) -> (r: Vec<(String, ContextualObject)>)
    ensures
        store_view(r@) == spec_sort_store(store_view(store@)),
{
    proof {
        assert(store_view(store@).subrange(0, store@.len() as int) =~= store_view(store@));
    }
    sorted_store_from(store, 0)
}

/// The value a plain lookup yields for a name, walking the chain: the
/// nearest binding, except that a frame named `object` keeps lookups out of
/// its parents; a miss at the end of the walk consults the built-ins table.
pub open spec fn spec_scope_get(s: Seq<FrameView>, cur: int, name: Seq<char>) -> Option<CtxObjView>
    decreases cur,
    when scope_wf(s) && 0 <= cur < s.len()
    via spec_scope_get_decreases
{
    match store_lookup(s[cur].store, name) {
        Some(v) => Some(v),
        None => {
            if s[cur].name == "object"@ {
                spec_get_builtin(name)
            } else {
                match s[cur].parent {
                    Some(p) => spec_scope_get(s, p, name),
                    None => spec_get_builtin(name),
                }
            }
        },
    }
}

#[via_fn]
proof fn spec_scope_get_decreases(s: Seq<FrameView>, cur: int, name: Seq<char>) {
    assert(frame_ok(s, cur));
}

/// The nearest `self` value on the chain.
pub open spec fn spec_scope_get_self(s: Seq<FrameView>, cur: int) -> Option<CtxObjView>
    decreases cur,
    when scope_wf(s) && 0 <= cur < s.len()
    via spec_scope_get_self_decreases
{
    match s[cur].slf {
        Some(v) => Some(v),
        None => match s[cur].parent {
            Some(p) => spec_scope_get_self(s, p),
            None => None,
        },
    }
}

#[via_fn]
proof fn spec_scope_get_self_decreases(s: Seq<FrameView>, cur: int) {
    assert(frame_ok(s, cur));
}

/// The names bound on the chain, current frame first, each frame's names
/// in ascending order.
pub open spec fn spec_scope_list_vars(s: Seq<FrameView>, cur: int) -> Seq<Seq<char>>
    decreases cur,
    when scope_wf(s) && 0 <= cur < s.len()
    via spec_scope_list_vars_decreases
{
    let sorted = spec_sort_store(s[cur].store);
    let own = Seq::new(sorted.len(), |i: int| sorted[i].0);
    match s[cur].parent {
        Some(p) => own + spec_scope_list_vars(s, p),
        None => own,
    }
}

#[via_fn]
proof fn spec_scope_list_vars_decreases(s: Seq<FrameView>, cur: int) {
    assert(frame_ok(s, cur));
}

/// The scope after a strict declaration: a new binding in the current frame,
/// or nothing when the name is already bound there.
pub open spec fn spec_scope_set(
    s: Seq<FrameView>,
    cur: int,
    name: Seq<char>,
    v: CtxObjView,
) -> Result<Seq<FrameView>, ()> {
    if store_lookup(s[cur].store, name) is Some {
        Err(())
    } else {
        Ok(
            s.update(
                cur,
                FrameView {
                    name: s[cur].name,
                    store: s[cur].store.push((name, v)),
                    parent: s[cur].parent,
                    slf: s[cur].slf,
                },
            ),
        )
    }
}

/// The scope after a reassignment: the nearest frame of the chain that binds
/// the name is rewritten; an unbound name changes nothing.
pub open spec fn spec_scope_assign(
    s: Seq<FrameView>,
    cur: int,
    name: Seq<char>,
    v: CtxObjView,
) -> Result<Seq<FrameView>, ()>
    decreases cur,
    when scope_wf(s) && 0 <= cur < s.len()
    via spec_scope_assign_decreases
{
    if store_lookup(s[cur].store, name) is Some {
        Ok(
            s.update(
                cur,
                FrameView {
                    name: s[cur].name,
                    store: store_put(s[cur].store, name, v),
                    parent: s[cur].parent,
                    slf: s[cur].slf,
                },
            ),
        )
    } else {
        match s[cur].parent {
            Some(p) => spec_scope_assign(s, p, name, v),
            None => Err(()),
        }
    }
}

#[via_fn]
proof fn spec_scope_assign_decreases(s: Seq<FrameView>, cur: int, name: Seq<char>, v: CtxObjView) {
    assert(frame_ok(s, cur));
}

/// The scope after a forced write into one frame.
pub open spec fn spec_scope_force_set(
    s: Seq<FrameView>,
    cur: int,
    name: Seq<char>,
    v: CtxObjView,
) -> Seq<FrameView> {
    s.update(
        cur,
        FrameView {
            name: s[cur].name,
            store: store_put(s[cur].store, name, v),
            parent: s[cur].parent,
            slf: s[cur].slf,
        },
    )
}

impl Scope {
    /// How many frames the arena holds.
    pub fn len(&self) -> (r: usize)
        ensures
            r == self@.len(),
    {
        self.frames.len()
    }

    /// A fresh arena holding one root frame with the given name tag.
    pub fn new(name: &str) -> (r: Scope)
        ensures
            r@ =~= seq![
                FrameView {
                    name: name@,
                    store: Seq::empty(),
                    parent: None,
                    slf: None,
                },
            ],
            scope_wf(r@),
    {
        let frame = Frame {
            name: String::from_str(name),
            store: Vec::new(),
            parent: None,
            slf: None,
        };
        let mut frames: Vec<Frame> = Vec::new();
        frames.push(frame);
        let s = Scope { frames };
        proof {
            assert(s@ =~= seq![
                FrameView { name: name@, store: store_view(Seq::empty()), parent: None, slf: None },
            ]);
            assert(store_view(Seq::empty()) =~= Seq::<(Seq<char>, CtxObjView)>::empty());
            assert(frame_ok(s@, 0));
        }
        s
    }

    /// Open a child frame under `parent`; the new frame's handle is
    /// returned.
    pub fn new_child(&mut self, parent: usize, name: &str) -> (r: usize)
        requires
            parent < old(self)@.len(),
            scope_wf(old(self)@),
        ensures
            r == old(self)@.len(),
            final(self)@ =~= old(self)@.push(
                FrameView { name: name@, store: Seq::empty(), parent: Some(parent as int), slf: None },
            ),
            scope_wf(final(self)@),
    {
        let r = self.frames.len();
        let frame = Frame {
            name: String::from_str(name),
            store: Vec::new(),
            parent: Some(parent),
            slf: None,
        };
        self.frames.push(frame);
        proof {
            assert(store_view(Seq::empty()) =~= Seq::<(Seq<char>, CtxObjView)>::empty());
            assert(self@ =~= old(self)@.push(
                FrameView {
                    name: name@,
                    store: Seq::empty(),
                    parent: Some(parent as int),
                    slf: None,
                },
            ));
            assert forall|i: int| 0 <= i < self@.len() implies #[trigger] frame_ok(self@, i) by {
                if i < old(self)@.len() {
                    assert(frame_ok(old(self)@, i));
                    assert(self@[i] == old(self)@[i]);
                }
            }
        }
        r
    }
}

fn store_find(store: &Vec<(String, ContextualObject)>, ident: &str) -> (r: Option<usize>)
    ensures
        r matches Some(j) ==> j < store@.len() && store@[j as int].0@ == ident@ && (forall|k: int|
            0 <= k < j ==> store@[k].0@ != ident@),
        r is None ==> forall|k: int| 0 <= k < store@.len() ==> store@[k].0@ != ident@,
{
    let mut i: usize = 0;
    while i < store.len()
        invariant
            0 <= i <= store@.len(),
            forall|k: int| 0 <= k < i ==> store@[k].0@ != ident@,
        decreases store@.len() - i,
    {
        if str_eq(store[i].0.as_str(), ident) {
            return Some(i);
        }
        i += 1;
    }
    None
}

/// Write a binding into a binding list, replacing in place or appending.
fn store_write(store: &mut Vec<(String, ContextualObject)>, name: String, v: ContextualObject)
    ensures
        store_view(final(store)@) == store_put(store_view(old(store)@), name@, v@),
{
    let found = store_find(store, name.as_str());
    match found {
        Some(j) => {
            proof {
                lemma_store_put_at(store_view(store@), name@, ctx_obj_view(v), j as int);
            }
            store.set(j, (name, v));
            proof {
                assert(store_view(store@) =~= store_view(old(store)@).update(
                    j as int,
                    (name@, ctx_obj_view(v)),
                ));
            }
        },
        None => {
            proof {
                lemma_store_put_none(store_view(store@), name@, ctx_obj_view(v));
            }
            store.push((name, v));
            proof {
                assert(store_view(store@) =~= store_view(old(store)@).push(
                    (name@, ctx_obj_view(v)),
                ));
            }
        },
    }
}

impl Scope {
    /// Look a name up from frame `cur`, walking the chain as
    /// `spec_scope_get` says.
    pub fn get(&self, cur: usize, ident: &str) -> (r: Option<ContextualObject>)
        requires
            scope_wf(self@),
            cur < self@.len(),
        ensures
            r matches Some(c) ==> spec_scope_get(self@, cur as int, ident@) matches Some(cv)
                && cv == c@,
            r is Some <==> spec_scope_get(self@, cur as int, ident@) is Some,
        decreases cur,
    {
        let found = store_find(&self.frames[cur].store, ident);
        match found {
            Some(j) => {
                proof {
                    lemma_store_lookup_at(self@[cur as int].store, ident@, j as int);
                }
                Some(clone_ctx_obj(&self.frames[cur].store[j].1))
            },
            None => {
                proof {
                    lemma_store_lookup_none(self@[cur as int].store, ident@);
                }
                if str_eq(self.frames[cur].name.as_str(), "object") {
                    get_builtin(ident)
                } else {
                    let parent = self.frames[cur].parent;
                    match parent {
                        Some(p) => {
                            proof {
                                assert(frame_ok(self@, cur as int));
                            }
                            self.get(p, ident)
                        },
                        None => get_builtin(ident),
                    }
                }
            },
        }
    }

    /// Declare a name in frame `cur`; a second declaration of the same name
    /// there is refused.
    pub fn set(&mut self, cur: usize, ident: &str, obj: ContextualObject, s: Span, src: &Source)
        -> (r: Result<(), Error>)
        requires
            scope_wf(old(self)@),
            cur < old(self)@.len(),
            src.wf(),
        ensures
            r is Ok <==> spec_scope_set(old(self)@, cur as int, ident@, obj@) is Ok,
            r is Ok ==> (spec_scope_set(old(self)@, cur as int, ident@, obj@) matches Ok(s2)
                && final(self)@ == s2),
            r is Err ==> final(self)@ == old(self)@,
            r matches Err(e) ==> e@ == (ErrView { stage: Stage::SettingVariable, span: s }),
            scope_wf(final(self)@),
            final(self)@.len() == old(self)@.len(),
    {
        let found = store_find(&self.frames[cur].store, ident);
        match found {
            Some(j) => {
                proof {
                    lemma_store_lookup_at(self@[cur as int].store, ident@, j as int);
                }
                let msg = String::from_str("Variable ").concat(ident).concat(" already exists");
                let hint = String::from_str(
                    "You may have meant to reassign the variable, in which case you should use the `=` operator",
                );
                Err(Error::new(Stage::SettingVariable, msg, Some(hint), s, src))
            },
            None => {
                proof {
                    lemma_store_lookup_none(self@[cur as int].store, ident@);
                }
                let frame = &mut self.frames[cur];
                frame.store.push((String::from_str(ident), obj));
                proof {
                    assert(self@[cur as int].store =~= old(self)@[cur as int].store.push(
                        (ident@, ctx_obj_view(obj)),
                    ));
                    assert(self@ =~= old(self)@.update(
                        cur as int,
                        FrameView {
                            name: old(self)@[cur as int].name,
                            store: old(self)@[cur as int].store.push((ident@, ctx_obj_view(obj))),
                            parent: old(self)@[cur as int].parent,
                            slf: old(self)@[cur as int].slf,
                        },
                    ));
                    assert forall|i: int| 0 <= i < self@.len() implies #[trigger] frame_ok(
                        self@,
                        i,
                    ) by {
                        assert(frame_ok(old(self)@, i));
                        if i == cur as int {
                            let st = old(self)@[cur as int].store;
                            assert forall|a: int, b: int|
                                0 <= a < b < self@[i].store.len() implies self@[i].store[a].0
                                != self@[i].store[b].0 by {
                                if b == st.len() {
                                    assert(st[a].0 != ident@);
                                }
                            }
                        }
                    }
                }
                Ok(())
            },
        }
    }

    /// Reassign a name, rewriting the nearest frame of the chain that binds
    /// it; an unbound name is refused.
    pub fn assign(&mut self, cur: usize, ident: &str, obj: ContextualObject, s: Span, src: &Source)
        -> (r: Result<(), Error>)
        requires
            scope_wf(old(self)@),
            cur < old(self)@.len(),
            src.wf(),
        ensures
            r is Ok <==> spec_scope_assign(old(self)@, cur as int, ident@, obj@) is Ok,
            r is Ok ==> (spec_scope_assign(old(self)@, cur as int, ident@, obj@) matches Ok(s2)
                && final(self)@ == s2),
            r is Err ==> final(self)@ == old(self)@,
            r matches Err(e) ==> e@ == (ErrView { stage: Stage::AssigningVariable, span: s }),
            scope_wf(final(self)@),
            final(self)@.len() == old(self)@.len(),
        decreases cur,
    {
        let found = store_find(&self.frames[cur].store, ident);
        match found {
            Some(j) => {
                proof {
                    assert(frame_ok(self@, cur as int));
                    lemma_store_lookup_at(self@[cur as int].store, ident@, j as int);
                    lemma_store_put_at(
                        self@[cur as int].store,
                        ident@,
                        ctx_obj_view(obj),
                        j as int,
                    );
                    lemma_store_put_unique(self@[cur as int].store, ident@, ctx_obj_view(obj));
                }
                let frame = &mut self.frames[cur];
                frame.store.set(j, (String::from_str(ident), obj));
                proof {
                    assert(self@[cur as int].store =~= old(self)@[cur as int].store.update(
                        j as int,
                        (ident@, ctx_obj_view(obj)),
                    ));
                    assert(self@ =~= old(self)@.update(
                        cur as int,
                        FrameView {
                            name: old(self)@[cur as int].name,
                            store: store_put(
                                old(self)@[cur as int].store,
                                ident@,
                                ctx_obj_view(obj),
                            ),
                            parent: old(self)@[cur as int].parent,
                            slf: old(self)@[cur as int].slf,
                        },
                    ));
                    assert forall|i: int| 0 <= i < self@.len() implies #[trigger] frame_ok(
                        self@,
                        i,
                    ) by {
                        assert(frame_ok(old(self)@, i));
                    }
                }
                Ok(())
            },
            None => {
                proof {
                    lemma_store_lookup_none(self@[cur as int].store, ident@);
                }
                let parent = self.frames[cur].parent;
                match parent {
                    Some(p) => {
                        proof {
                            assert(frame_ok(self@, cur as int));
                        }
                        self.assign(p, ident, obj, s, src)
                    },
                    None => {
                        let msg = String::from_str("Variable ").concat(ident).concat(
                            " does not exist",
                        );
                        let hint = String::from_str(
                            "You may have meant to declare a variable with the 'let' keyword.",
                        );
                        Err(Error::new(Stage::AssigningVariable, msg, Some(hint), s, src))
                    },
                }
            },
        }
    }

    /// Write a binding into frame `cur` unconditionally, replacing any
    /// binding of the name.
    pub fn force_set(&mut self, cur: usize, ident: &str, obj: ContextualObject)
        requires
            scope_wf(old(self)@),
            cur < old(self)@.len(),
        ensures
            final(self)@ == spec_scope_force_set(old(self)@, cur as int, ident@, obj@),
            scope_wf(final(self)@),
            final(self)@.len() == old(self)@.len(),
    {
        proof {
            assert(frame_ok(self@, cur as int));
            lemma_store_put_unique(self@[cur as int].store, ident@, ctx_obj_view(obj));
        }
        let frame = &mut self.frames[cur];
        store_write(&mut frame.store, String::from_str(ident), obj);
        proof {
            assert(self@ =~= old(self)@.update(
                cur as int,
                FrameView {
                    name: old(self)@[cur as int].name,
                    store: store_put(old(self)@[cur as int].store, ident@, ctx_obj_view(obj)),
                    parent: old(self)@[cur as int].parent,
                    slf: old(self)@[cur as int].slf,
                },
            ));
            assert forall|i: int| 0 <= i < self@.len() implies #[trigger] frame_ok(self@, i) by {
                assert(frame_ok(old(self)@, i));
            }
        }
    }

    /// Rewrite the name tag of frame `cur`.
    pub fn set_name(&mut self, cur: usize, name: &str)
        requires
            scope_wf(old(self)@),
            cur < old(self)@.len(),
        ensures
            final(self)@ == old(self)@.update(
                cur as int,
                FrameView {
                    name: name@,
                    store: old(self)@[cur as int].store,
                    parent: old(self)@[cur as int].parent,
                    slf: old(self)@[cur as int].slf,
                },
            ),
            scope_wf(final(self)@),
            final(self)@.len() == old(self)@.len(),
    {
        let frame = &mut self.frames[cur];
        frame.name = String::from_str(name);
        proof {
            assert(self@ =~= old(self)@.update(
                cur as int,
                FrameView {
                    name: name@,
                    store: old(self)@[cur as int].store,
                    parent: old(self)@[cur as int].parent,
                    slf: old(self)@[cur as int].slf,
                },
            ));
            assert forall|i: int| 0 <= i < self@.len() implies #[trigger] frame_ok(self@, i) by {
                assert(frame_ok(old(self)@, i));
            }
        }
    }

    /// The nearest `self` value on the chain from frame `cur`.
    pub fn get_self(&self, cur: usize) -> (r: Option<ContextualObject>)
        requires
            scope_wf(self@),
            cur < self@.len(),
        ensures
            r matches Some(c) ==> spec_scope_get_self(self@, cur as int) matches Some(cv) && cv
                == c@,
            r is Some <==> spec_scope_get_self(self@, cur as int) is Some,
        decreases cur,
    {
        match &self.frames[cur].slf {
            Some(v) => Some(clone_ctx_obj(v)),
            None => {
                let parent = self.frames[cur].parent;
                match parent {
                    Some(p) => {
                        proof {
                            assert(frame_ok(self@, cur as int));
                        }
                        self.get_self(p)
                    },
                    None => None,
                }
            },
        }
    }

    /// The names bound on the chain from frame `cur`, nearest frame first,
    /// each frame's names in ascending order.
    pub fn list_vars(&self, cur: usize) -> (r: Vec<String>)
        requires
            scope_wf(self@),
            cur < self@.len(),
        ensures
            strs_view(r@) == spec_scope_list_vars(self@, cur as int),
        decreases cur,
    {
        let sorted = sort_store(&self.frames[cur].store);
        let mut own: Vec<String> = Vec::new();
        let mut i: usize = 0;
        while i < sorted.len()
            invariant
                cur < self@.len(),
                store_view(sorted@) == spec_sort_store(self@[cur as int].store),
                0 <= i <= sorted@.len(),
                own@.len() == i,
                forall|j: int|
                    0 <= j < i ==> own@[j]@ == spec_sort_store(self@[cur as int].store)[j].0,
            decreases sorted@.len() - i,
        {
            let entry_name = sorted[i].0.clone();
            proof {
                assert(entry_name@ == spec_sort_store(self@[cur as int].store)[i as int].0);
            }
            own.push(entry_name);
            i += 1;
        }
        proof {
            assert(strs_view(own@) =~= Seq::new(
                spec_sort_store(self@[cur as int].store).len(),
                |j: int| spec_sort_store(self@[cur as int].store)[j].0,
            ));
        }
        let parent = self.frames[cur].parent;
        match parent {
            Some(p) => {
                proof {
                    assert(frame_ok(self@, cur as int));
                }
                let mut rest = self.list_vars(p);
                own.append(&mut rest);
                proof {
                    assert(strs_view(own@) =~= Seq::new(
                        spec_sort_store(self@[cur as int].store).len(),
                        |j: int| spec_sort_store(self@[cur as int].store)[j].0,
                    ) + spec_scope_list_vars(self@, self@[cur as int].parent->0));
                }
                own
            },
            None => own,
        }
    }
}

/// The array bindings of a synthesized frame: each element under the
/// decimal form of its index.
pub open spec fn put_array_bindings(
    st: Seq<(Seq<char>, CtxObjView)>,
    v: Seq<CtxObjView>,
    n: int,
) -> Seq<(Seq<char>, CtxObjView)>
    decreases n,
{
    if n <= 0 {
        st
    } else {
        store_put(put_array_bindings(st, v, n - 1), crate::text::spec_int_string(n - 1), v[n - 1])
    }
}

/// The map bindings of a synthesized frame: each value under the plain
/// rendering of its key.
pub open spec fn put_entry_bindings(
    st: Seq<(Seq<char>, CtxObjView)>,
    v: Seq<(CtxObjView, CtxObjView)>,
    n: int,
) -> Seq<(Seq<char>, CtxObjView)>
    decreases n,
{
    if n <= 0 {
        st
    } else {
        store_put(
            put_entry_bindings(st, v, n - 1),
            crate::value::spec_display(v[n - 1].0.obj),
            v[n - 1].1,
        )
    }
}

/// The string bindings of a synthesized frame: each character, as a
/// one-character string, under the decimal form of its index.
pub open spec fn put_char_bindings(
    st: Seq<(Seq<char>, CtxObjView)>,
    s: Seq<char>,
    n: int,
) -> Seq<(Seq<char>, CtxObjView)>
    decreases n,
{
    if n <= 0 {
        st
    } else {
        store_put(
            put_char_bindings(st, s, n - 1),
            crate::text::spec_int_string(n - 1),
            anon_view(ObjView::Str(seq![s[n - 1]])),
        )
    }
}

/// The intrinsics of the container's type, force-written over the data
/// bindings.
pub open spec fn put_intrinsic_bindings(
    st: Seq<(Seq<char>, CtxObjView)>,
    names: Seq<Seq<char>>,
    n: int,
) -> Seq<(Seq<char>, CtxObjView)>
    decreases n,
{
    if n <= 0 {
        st
    } else {
        match crate::intrinsics::spec_get_intrinsic(names[n - 1]) {
            Some(c) => store_put(put_intrinsic_bindings(st, names, n - 1), names[n - 1], c),
            None => put_intrinsic_bindings(st, names, n - 1),
        }
    }
}

/// The data bindings a container value contributes to a synthesized frame.
pub open spec fn spec_object_bindings(o: CtxObjView) -> Seq<(Seq<char>, CtxObjView)> {
    match o.obj {
        ObjView::Array(v) => put_array_bindings(Seq::empty(), v, v.len() as int),
        ObjView::Dict(v) => put_entry_bindings(Seq::empty(), v, v.len() as int),
        ObjView::Str(s) => put_char_bindings(Seq::empty(), s, s.len() as int),
        _ => Seq::empty(),
    }
}

/// The frame synthesized from a container value for member access: its data
/// bindings, the intrinsics of its type tag written over them, its `self`
/// set to the container, and the name `object` so plain lookups stop here.
pub open spec fn spec_synth_frame(o: CtxObjView, parent: int) -> FrameView {
    FrameView {
        name: "object"@,
        store: put_intrinsic_bindings(
            spec_object_bindings(o),
            crate::intrinsics::spec_list_intrinsics(crate::value::spec_typed(o.obj)),
            crate::intrinsics::spec_list_intrinsics(crate::value::spec_typed(o.obj)).len() as int,
        ),
        parent: Some(parent),
        slf: Some(o),
    }
}

/// The scope after synthesizing a frame from a container value.
pub open spec fn spec_new_from_object(s: Seq<FrameView>, o: CtxObjView, parent: int) -> Seq<
    FrameView,
> {
    s.push(spec_synth_frame(o, parent))
}

/// A binding list with unique keys.
pub open spec fn store_keys_unique(st: Seq<(Seq<char>, CtxObjView)>) -> bool {
    forall|j: int, k: int| 0 <= j < k < st.len() ==> st[j].0 != st[k].0
}

impl Scope {
    /// Synthesize a scope frame from a container value, for member access:
    /// the container's data under string names, its type's intrinsics
    /// written over them, and the container as `self`.
    pub fn new_from_object(&mut self, o: ContextualObject, parent: usize) -> (r: usize)
        requires
            scope_wf(old(self)@),
            parent < old(self)@.len(),
        ensures
            r == old(self)@.len(),
            final(self)@ == spec_new_from_object(old(self)@, o@, parent as int),
            scope_wf(final(self)@),
    {
        let mut store: Vec<(String, ContextualObject)> = Vec::new();
        proof {
            assert(store_view(store@) =~= Seq::<(Seq<char>, CtxObjView)>::empty());
        }
        match &o.0 {
            Object::Array(v) => {
                let mut i: usize = 0;
                while i < v.len()
                    invariant
                        0 <= i <= v@.len(),
                        store_view(store@) == put_array_bindings(
                            Seq::empty(),
                            crate::value::objs_view(v@),
                            i as int,
                        ),
                        store_keys_unique(store_view(store@)),
                    decreases v@.len() - i,
                {
                    proof {
                        crate::value::lemma_objs_view_index(v@, i as int);
                        lemma_store_put_unique(
                            store_view(store@),
                            crate::text::spec_int_string(i as int),
                            crate::value::objs_view(v@)[i as int],
                        );
                    }
                    let key = crate::text::int_to_string(i as i128);
                    let item = clone_ctx_obj(&v[i]);
                    store_write(&mut store, key, item);
                    i += 1;
                }
                proof {
                    crate::value::lemma_objs_view_len(v@);
                }
            },
            Object::Dict(v) => {
                let mut i: usize = 0;
                while i < v.len()
                    invariant
                        0 <= i <= v@.len(),
                        store_view(store@) == put_entry_bindings(
                            Seq::empty(),
                            crate::value::entries_view(v@),
                            i as int,
                        ),
                        store_keys_unique(store_view(store@)),
                    decreases v@.len() - i,
                {
                    proof {
                        crate::value::lemma_entries_view_index(v@, i as int);
                        lemma_store_put_unique(
                            store_view(store@),
                            crate::value::spec_display(
                                crate::value::entries_view(v@)[i as int].0.obj,
                            ),
                            crate::value::entries_view(v@)[i as int].1,
                        );
                    }
                    let key = crate::value::display_obj(&v[i].0.0);
                    let item = clone_ctx_obj(&v[i].1);
                    store_write(&mut store, key, item);
                    i += 1;
                }
                proof {
                    crate::value::lemma_entries_view_len(v@);
                }
            },
            Object::Str(text) => {
                let n = text.as_str().unicode_len();
                let mut i: usize = 0;
                while i < n
                    invariant
                        n == text@.len(),
                        0 <= i <= n,
                        store_view(store@) == put_char_bindings(Seq::empty(), text@, i as int),
                        store_keys_unique(store_view(store@)),
                    decreases n - i,
                {
                    proof {
                        lemma_store_put_unique(
                            store_view(store@),
                            crate::text::spec_int_string(i as int),
                            anon_view(ObjView::Str(seq![text@[i as int]])),
                        );
                    }
                    let key = crate::text::int_to_string(i as i128);
                    let piece = text.as_str().substring_char(i, i + 1);
                    proof {
                        assert(piece@ =~= seq![text@[i as int]]);
                    }
                    let item = Object::Str(piece.to_owned()).anonymous();
                    store_write(&mut store, key, item);
                    i += 1;
                }
            },
            _ => {},
        }
        let ghost data_bindings = store_view(store@);
        proof {
            assert(data_bindings == spec_object_bindings(o@));
        }
        let names = crate::intrinsics::list_instrinsics(o.0.typed().as_str());
        let ghost name_views = crate::intrinsics::spec_list_intrinsics(
            crate::value::spec_typed(o@.obj),
        );
        let mut i: usize = 0;
        while i < names.len()
            invariant
                names@.len() == name_views.len(),
                forall|j: int| 0 <= j < names@.len() ==> names@[j]@ == name_views[j],
                0 <= i <= names@.len(),
                store_view(store@) == put_intrinsic_bindings(data_bindings, name_views, i as int),
                store_keys_unique(store_view(store@)),
            decreases names@.len() - i,
        {
            match crate::intrinsics::get_intrinsic(names[i].as_str()) {
                Some(c) => {
                    proof {
                        lemma_store_put_unique(
                            store_view(store@),
                            name_views[i as int],
                            c@,
                        );
                    }
                    store_write(&mut store, names[i].clone(), c);
                },
                None => {},
            }
            i += 1;
        }
        let idx = self.frames.len();
        let frame = Frame {
            name: String::from_str("object"),
            store,
            parent: Some(parent),
            slf: Some(o),
        };
        self.frames.push(frame);
        proof {
            assert(final(self)@ =~= spec_new_from_object(old(self)@, o@, parent as int));
            assert forall|k: int| 0 <= k < final(self)@.len() implies #[trigger] frame_ok(
                final(self)@,
                k,
            ) by {
                if k < old(self)@.len() {
                    assert(frame_ok(old(self)@, k));
                    assert(final(self)@[k] == old(self)@[k]);
                }
            }
        }
        idx
    }

    /// A map picture of frame `cur`, for inspection: its name, its parent's
    /// name, its `self` value and its bindings in ascending key order.
    pub fn to_object(&self, cur: usize) -> (r: ContextualObject)
        requires
            scope_wf(self@),
            cur < self@.len(),
        ensures
            r@ == spec_scope_object(self@, cur as int),
    {
        let name_entry = (
            Object::Str(String::from_str("name")).anonymous(),
            Object::Str(self.frames[cur].name.clone()).anonymous(),
        );
        let parent_entry = (
            Object::Str(String::from_str("parent")).anonymous(),
            match self.frames[cur].parent {
                Some(p) => {
                    proof {
                        assert(frame_ok(self@, cur as int));
                    }
                    Object::Str(self.frames[p].name.clone()).anonymous()
                },
                None => Object::Str(String::from_str("none")).anonymous(),
            },
        );
        let self_entry = (
            Object::Str(String::from_str("self")).anonymous(),
            match &self.frames[cur].slf {
                Some(v) => clone_ctx_obj(v),
                None => Object::Null.anonymous(),
            },
        );
        let sorted = sort_store(&self.frames[cur].store);
        let mut bindings: Vec<(ContextualObject, ContextualObject)> = Vec::new();
        let mut i: usize = 0;
        while i < sorted.len()
            invariant
                cur < self@.len(),
                store_view(sorted@) == spec_sort_store(self@[cur as int].store),
                0 <= i <= sorted@.len(),
                crate::value::entries_view(bindings@) =~= Seq::new(
                    i as nat,
                    |j: int| (
                        anon_view(ObjView::Str(spec_sort_store(self@[cur as int].store)[j].0)),
                        spec_sort_store(self@[cur as int].store)[j].1,
                    ),
                ),
            decreases sorted@.len() - i,
        {
            let key = Object::Str(sorted[i].0.clone()).anonymous();
            let val = clone_ctx_obj(&sorted[i].1);
            proof {
                crate::value::lemma_entries_view_push(bindings@, (key, val));
            }
            bindings.push((key, val));
            proof {
                assert(crate::value::entries_view(bindings@) =~= Seq::new(
                    (i + 1) as nat,
                    |j: int| (
                        anon_view(ObjView::Str(spec_sort_store(self@[cur as int].store)[j].0)),
                        spec_sort_store(self@[cur as int].store)[j].1,
                    ),
                ));
            }
            i += 1;
        }
        let store_entry = (
            Object::Str(String::from_str("store")).anonymous(),
            Object::Dict(bindings).anonymous(),
        );
        let mut entries: Vec<(ContextualObject, ContextualObject)> = Vec::new();
        proof {
            crate::value::lemma_entries_view_push(entries@, name_entry);
        }
        entries.push(name_entry);
        proof {
            crate::value::lemma_entries_view_push(entries@, parent_entry);
        }
        entries.push(parent_entry);
        proof {
            crate::value::lemma_entries_view_push(entries@, self_entry);
        }
        entries.push(self_entry);
        proof {
            crate::value::lemma_entries_view_push(entries@, store_entry);
        }
        entries.push(store_entry);
        let out = Object::Dict(entries).anonymous();
        proof {
            assert(crate::value::entries_view(entries@) =~= spec_scope_object(
                self@,
                cur as int,
            ).obj->Dict_0);
        }
        out
    }
}

/// The map picture `to_object` draws of a frame.
pub open spec fn spec_scope_object(s: Seq<FrameView>, cur: int) -> CtxObjView {
    anon_view(
        ObjView::Dict(
            seq![
                (anon_view(ObjView::Str("name"@)), anon_view(ObjView::Str(s[cur].name))),
                (
                    anon_view(ObjView::Str("parent"@)),
                    match s[cur].parent {
                        Some(p) => anon_view(ObjView::Str(s[p].name)),
                        None => anon_view(ObjView::Str("none"@)),
                    },
                ),
                (
                    anon_view(ObjView::Str("self"@)),
                    match s[cur].slf {
                        Some(v) => v,
                        None => anon_view(ObjView::Null),
                    },
                ),
                (
                    anon_view(ObjView::Str("store"@)),
                    anon_view(
                        ObjView::Dict(
                            Seq::new(
                                spec_sort_store(s[cur].store).len(),
                                |j: int| (
                                    anon_view(ObjView::Str(spec_sort_store(s[cur].store)[j].0)),
                                    spec_sort_store(s[cur].store)[j].1,
                                ),
                            ),
                        ),
                    ),
                ),
            ],
        ),
    )
}

/// The inspection picture `to_object` draws is a well-formed map, and so
/// is the store picture inside it: keys ascend strictly.
pub proof fn lemma_scope_object_ordered(s: Seq<FrameView>, cur: int)
    requires
        scope_wf(s),
        0 <= cur < s.len(),
    ensures
        crate::value::spec_dict_ordered(spec_scope_object(s, cur).obj->Dict_0),
        spec_scope_object(s, cur).obj->Dict_0[3].1.obj matches ObjView::Dict(inner)
            && crate::value::spec_dict_ordered(inner),
{
    reveal_strlit("name");
    reveal_strlit("parent");
    reveal_strlit("self");
    reveal_strlit("store");
    reveal_with_fuel(crate::text::spec_str_le, 3);
    assert(("name"@).len() == 4 && ("parent"@).len() == 6 && ("self"@).len() == 4 && (
    "store"@).len() == 5);
    assert(("name"@)[0] == 'n' && ("parent"@)[0] == 'p' && ("self"@)[0] == 's' && ("store"@)[0]
        == 's');
    assert(("self"@)[1] == 'e' && ("store"@)[1] == 't');
    assert(crate::text::spec_str_le("name"@, "parent"@));
    assert(crate::text::spec_str_le("parent"@, "self"@));
    assert(crate::text::spec_str_le("self"@, "store"@));
    assert(("name"@) != ("parent"@) && ("parent"@) != ("self"@) && ("self"@) != ("store"@));
    let outer = spec_scope_object(s, cur).obj->Dict_0;
    assert(crate::value::spec_ctx_key_le(outer[0].0, outer[1].0));
    assert(crate::value::spec_ctx_key_le(outer[1].0, outer[2].0));
    assert(crate::value::spec_ctx_key_le(outer[2].0, outer[3].0));
    assert(frame_ok(s, cur));
    lemma_sort_store_props(s[cur].store);
    let sorted = spec_sort_store(s[cur].store);
    let inner = Seq::new(
        sorted.len(),
        |j: int| (anon_view(ObjView::Str(sorted[j].0)), sorted[j].1),
    );
    assert forall|i: int| 0 <= i && i + 1 < inner.len() implies (crate::value::spec_ctx_key_le(
        #[trigger] inner[i].0,
        inner[i + 1].0,
    ) && inner[i].0 != inner[i + 1].0) by {
        assert(crate::text::spec_str_le(sorted[i].0, sorted[i + 1].0));
        assert(sorted[i].0 != sorted[i + 1].0);
        assert(inner[i].0.obj != inner[i + 1].0.obj);
    }
}

/// An intrinsic name written late survives the writes of the other,
/// distinct, intrinsic names before it.
proof fn lemma_put_intrinsics_lookup(
    st: Seq<(Seq<char>, CtxObjView)>,
    names: Seq<Seq<char>>,
    n: int,
    i: int,
)
    requires
        0 <= i < n <= names.len(),
        forall|a: int, b: int| 0 <= a < b < names.len() ==> names[a] != names[b],
        crate::intrinsics::spec_get_intrinsic(names[i]) is Some,
    ensures
        store_lookup(put_intrinsic_bindings(st, names, n), names[i])
            == crate::intrinsics::spec_get_intrinsic(names[i]),
    decreases n,
{
    if n - 1 == i {
        match crate::intrinsics::spec_get_intrinsic(names[i]) {
            Some(c) => {
                lemma_store_put_lookup(
                    put_intrinsic_bindings(st, names, n - 1),
                    names[i],
                    c,
                    names[i],
                );
            },
            None => {},
        }
    } else {
        lemma_put_intrinsics_lookup(st, names, n - 1, i);
        match crate::intrinsics::spec_get_intrinsic(names[n - 1]) {
            Some(c) => {
                lemma_store_put_lookup(
                    put_intrinsic_bindings(st, names, n - 1),
                    names[n - 1],
                    c,
                    names[i],
                );
            },
            None => {},
        }
    }
}

/// The intrinsic names of one type tag are pairwise distinct.
proof fn lemma_intrinsic_names_distinct(typed: Seq<char>)
    ensures
        forall|a: int, b: int|
            0 <= a < b < crate::intrinsics::spec_list_intrinsics(typed).len()
                ==> crate::intrinsics::spec_list_intrinsics(typed)[a]
                != crate::intrinsics::spec_list_intrinsics(typed)[b],
{
    reveal_strlit("to_string");
    reveal_strlit("len");
    reveal_strlit("split");
    reveal_strlit("join");
    reveal_strlit("map");
    reveal_strlit("keys");
    reveal_strlit("values");
    reveal_strlit("entries");
    reveal_strlit("await");
    assert(("to_string"@).len() == 9);
    assert(("len"@).len() == 3);
    assert(("split"@).len() == 5);
    assert(("join"@).len() == 4);
    assert(("map"@).len() == 3);
    assert(("keys"@).len() == 4);
    assert(("values"@).len() == 6);
    assert(("entries"@).len() == 7);
    assert(("await"@).len() == 5);
    assert(("len"@)[0] == 'l' && ("map"@)[0] == 'm');
    assert(("len"@) != ("map"@));
    let names = crate::intrinsics::spec_list_intrinsics(typed);
    assert forall|a: int, b: int| 0 <= a < b < names.len() implies names[a] != names[b] by {
        if typed == "string"@ {
            assert(names == seq!["to_string"@, "len"@, "split"@]);
        } else if typed == "array"@ {
            assert(names == seq!["to_string"@, "len"@, "join"@, "map"@]);
        } else if typed == "map"@ {
            assert(names == seq!["to_string"@, "keys"@, "values"@, "entries"@]);
        } else if typed == "promise"@ {
            assert(names == seq!["to_string"@, "await"@]);
        } else {
            assert(names == seq!["to_string"@]);
        }
    }
}

/// Indexing closure: every intrinsic that a value's type lists is bound,
/// under its own name, in the scope frame synthesized from the value, as a
/// builtin that demands a `self` — and the synthesized frame's `self` is
/// the value itself, so invoking the member hands the value as the first
/// argument.
pub proof fn lemma_indexing_closure(s: Seq<FrameView>, o: CtxObjView, parent: int, i: int)
    requires
        scope_wf(s),
        0 <= parent < s.len(),
        0 <= i < crate::intrinsics::spec_list_intrinsics(crate::value::spec_typed(o.obj)).len(),
    ensures
        ({
            let s2 = spec_new_from_object(s, o, parent);
            let name = crate::intrinsics::spec_list_intrinsics(
                crate::value::spec_typed(o.obj),
            )[i];
            &&& store_lookup(s2[s.len() as int].store, name)
                == crate::intrinsics::spec_get_intrinsic(name)
            &&& (crate::intrinsics::spec_get_intrinsic(name) matches Some(c) && (c.obj matches
                ObjView::Builtin(bn, needs_self, _) && bn == name && needs_self))
            &&& s2[s.len() as int].slf == Some(o)
        }),
{
    let typed = crate::value::spec_typed(o.obj);
    let names = crate::intrinsics::spec_list_intrinsics(typed);
    crate::intrinsics::lemma_intrinsics_resolvable(typed, i);
    lemma_intrinsic_names_distinct(typed);
    lemma_put_intrinsics_lookup(
        spec_object_bindings(o),
        names,
        names.len() as int,
        i,
    );
    let s2 = spec_new_from_object(s, o, parent);
    assert(s2[s.len() as int] == spec_synth_frame(o, parent));
}

/// Scope shadowing: declaring a name in a child frame leaves the parent
/// frame untouched, while reassigning a name that the child does not bind
/// and the parent does rewrites the parent's binding and not the child.
pub proof fn lemma_scope_shadowing(s: Seq<FrameView>, child: int, name: Seq<char>, v: CtxObjView)
    requires
        scope_wf(s),
        0 <= child < s.len(),
        s[child].parent is Some,
        store_lookup(s[child].store, name) is None,
    ensures
        spec_scope_set(s, child, name, v) matches Ok(s2) && s2[s[child].parent->0]
            == s[s[child].parent->0],
        store_lookup(s[s[child].parent->0].store, name) is Some ==> (spec_scope_assign(
            s,
            child,
            name,
            v,
        ) matches Ok(s2) && store_lookup(s2[s[child].parent->0].store, name) == Some(v) && s2[child]
            == s[child]),
{
    let p = s[child].parent->0;
    assert(frame_ok(s, child));
    if store_lookup(s[p].store, name) is Some {
        lemma_store_put_lookup(s[p].store, name, v, name);
        assert(spec_scope_assign(s, child, name, v) == spec_scope_assign(s, p, name, v));
        let s2 = s.update(
            p,
            FrameView {
                name: s[p].name,
                store: store_put(s[p].store, name, v),
                parent: s[p].parent,
                slf: s[p].slf,
            },
        );
        assert(spec_scope_assign(s, p, name, v) matches Ok(r2) && r2 == s2);
        assert(s2[child] == s[child]);
    }
}

} // verus!
