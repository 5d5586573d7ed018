//! Reflection-driven descriptor-set layout planning: grouping reflected
//! bindings by set index, merging caller-supplied explicit bindings, sizing
//! the descriptor pool, and assembling the whole pipeline-layout plan.

use vstd::prelude::*;

use crate::descriptor::{
    layout_binding_of, spec_layout_binding_of, DescriptorKind, LayoutBinding, PushConstantBlock,
    PushConstantRange, ReflectedBinding, STAGE_COMPUTE,
};

verus! {

/// The bindings declared for one descriptor-set index.
#[derive(Clone, Debug)]
pub struct SetBindings {
    pub set: u32,
    pub bindings: Vec<LayoutBinding>,
}

/// A layout plan lists its sets in strictly increasing set-index order, so
/// each set index appears at most once.
pub open spec fn sets_sorted(sets: Seq<SetBindings>) -> bool {
    forall|i: int, j: int| 0 <= i < j < sets.len() ==> sets[i].set < sets[j].set
}

/// No two entries declare the same set index.
pub open spec fn sets_distinct(sets: Seq<SetBindings>) -> bool {
    forall|i: int, j: int| 0 <= i < j < sets.len() ==> sets[i].set != sets[j].set
}

/// Some entry declares set index `s`.
pub open spec fn has_set(sets: Seq<SetBindings>, s: u32) -> bool {
    exists|k: int| 0 <= k < sets.len() && sets[k].set == s
}

/// The bindings of the first entry declaring set `s`; empty when no entry
/// does. With distinct set indices this is the lookup of a set's bindings.
pub open spec fn bindings_at(sets: Seq<SetBindings>, s: u32) -> Seq<LayoutBinding>
    decreases sets.len(),
{
    if sets.len() == 0 {
        Seq::empty()
    } else if sets[0].set == s {
        sets[0].bindings@
    } else {
        bindings_at(sets.skip(1), s)
    }
}

/// Some reflected binding belongs to set `s`.
pub open spec fn reflected_has_set(rs: Seq<ReflectedBinding>, s: u32) -> bool {
    exists|k: int| 0 <= k < rs.len() && rs[k].set == s
}

/// The layout bindings that the reflected bindings of set `s` turn into, in
/// reflection order, all targeting `stage_flags`.
pub open spec fn bindings_of_set(
    rs: Seq<ReflectedBinding>,
    s: u32,
    stage_flags: u32,
) -> Seq<LayoutBinding>
    decreases rs.len(),
{
    if rs.len() == 0 {
        Seq::empty()
    } else {
        let prefix = bindings_of_set(rs.drop_last(), s, stage_flags);
        if rs.last().set == s {
            prefix.push(spec_layout_binding_of(rs.last(), stage_flags))
        } else {
            prefix
        }
    }
}

proof fn lemma_bindings_at_absent(sets: Seq<SetBindings>, s: u32)
    requires
        !has_set(sets, s),
    ensures
        bindings_at(sets, s) == Seq::<LayoutBinding>::empty(),
    decreases sets.len(),
{
    if sets.len() > 0 {
        assert(sets[0].set != s);
        assert forall|k: int| !(0 <= k < sets.skip(1).len() && sets.skip(1)[k].set == s) by {
            if 0 <= k < sets.skip(1).len() {
                assert(sets.skip(1)[k] == sets[k + 1]);
            }
        }
        lemma_bindings_at_absent(sets.skip(1), s);
    }
}

proof fn lemma_bindings_at_index(sets: Seq<SetBindings>, k: int)
    requires
        sets_distinct(sets),
        0 <= k < sets.len(),
    ensures
        bindings_at(sets, sets[k].set) == sets[k].bindings@,
    decreases sets.len(),
{
    if k > 0 {
        assert(sets[0].set != sets[k].set);
        assert(sets_distinct(sets.skip(1))) by {
            assert forall|i: int, j: int| 0 <= i < j < sets.skip(1).len()
                implies sets.skip(1)[i].set != sets.skip(1)[j].set by {
                assert(sets.skip(1)[i] == sets[i + 1]);
                assert(sets.skip(1)[j] == sets[j + 1]);
            }
        }
        assert(sets.skip(1)[k - 1] == sets[k]);
        lemma_bindings_at_index(sets.skip(1), k - 1);
    }
}

proof fn lemma_bindings_of_set_absent(rs: Seq<ReflectedBinding>, s: u32, stage_flags: u32)
    requires
        !reflected_has_set(rs, s),
    ensures
        bindings_of_set(rs, s, stage_flags) == Seq::<LayoutBinding>::empty(),
    decreases rs.len(),
{
    if rs.len() > 0 {
        assert(rs.last().set != s);
        assert forall|k: int| !(0 <= k < rs.drop_last().len() && rs.drop_last()[k].set == s) by {
            if 0 <= k < rs.drop_last().len() {
                assert(rs.drop_last()[k] == rs[k]);
            }
        }
        lemma_bindings_of_set_absent(rs.drop_last(), s, stage_flags);
    }
}

/// Appending one reflected binding extends exactly its own set's bindings.
proof fn lemma_bindings_of_set_push(
    rs: Seq<ReflectedBinding>,
    rb: ReflectedBinding,
    s: u32,
    stage_flags: u32,
)
    ensures
        bindings_of_set(rs.push(rb), s, stage_flags) == if rb.set == s {
            bindings_of_set(rs, s, stage_flags).push(spec_layout_binding_of(rb, stage_flags))
        } else {
            bindings_of_set(rs, s, stage_flags)
        },
{
    assert(rs.push(rb).drop_last() =~= rs);
    assert(rs.push(rb).last() == rb);
}

/// Replacing the entry at `idx` by one with the same set index changes the
/// lookup only at that set index.
proof fn lemma_bindings_at_update(a: Seq<SetBindings>, b: Seq<SetBindings>, idx: int, s: u32)
    requires
        sets_distinct(a),
        a.len() == b.len(),
        0 <= idx < a.len(),
        forall|k: int| 0 <= k < a.len() && k != idx ==> a[k] == b[k],
        b[idx].set == a[idx].set,
    ensures
        bindings_at(b, s) == if s == a[idx].set {
            b[idx].bindings@
        } else {
            bindings_at(a, s)
        },
    decreases a.len(),
{
    assert(sets_distinct(a.skip(1))) by {
        assert forall|i: int, j: int| 0 <= i < j < a.skip(1).len()
            implies a.skip(1)[i].set != a.skip(1)[j].set by {
            assert(a.skip(1)[i] == a[i + 1]);
            assert(a.skip(1)[j] == a[j + 1]);
        }
    }
    if idx == 0 {
        if s == a[0].set {
        } else {
            assert(b.skip(1) =~= a.skip(1));
        }
    } else {
        assert(a[0] == b[0]);
        if s == a[0].set {
            assert(a[0].set != a[idx].set);
        } else {
            assert(a.skip(1)[idx - 1].set == a[idx].set);
            assert forall|k: int| 0 <= k < a.skip(1).len() && k != idx - 1
                implies a.skip(1)[k] == b.skip(1)[k] by {
                assert(a.skip(1)[k] == a[k + 1]);
                assert(b.skip(1)[k] == b[k + 1]);
            }
            lemma_bindings_at_update(a.skip(1), b.skip(1), idx - 1, s);
        }
    }
}

/// Inserting an entry for a fresh set index at its sorted position adds
/// exactly that lookup entry and keeps every other lookup unchanged.
proof fn lemma_bindings_at_insert(a: Seq<SetBindings>, e: SetBindings, idx: int, s: u32)
    requires
        0 <= idx <= a.len(),
        forall|k: int| 0 <= k < a.len() ==> a[k].set != e.set,
    ensures
        bindings_at(a.insert(idx, e), s) == if s == e.set {
            e.bindings@
        } else {
            bindings_at(a, s)
        },
    decreases a.len(),
{
    let d = a.insert(idx, e);
    if idx == 0 {
        assert(d[0] == e);
        if s == e.set {
        } else {
            assert(d.skip(1) =~= a);
        }
    } else {
        assert(d[0] == a[0]);
        assert(d.skip(1) =~= a.skip(1).insert(idx - 1, e));
        if d[0].set == s {
            assert(a[0].set != e.set);
        } else {
            lemma_bindings_at_insert(a.skip(1), e, idx - 1, s);
        }
    }
}

/// Finds where set `s` stands, or should stand, in a sorted layout list:
/// returns whether an entry for `s` exists and the index where it sits or
/// would be inserted.
fn find_set_slot(sets: &Vec<SetBindings>, s: u32) -> (r: (bool, usize))
    requires
        sets_sorted(sets@),
    ensures
        r.1 <= sets@.len(),
        r.0 ==> r.1 < sets@.len() && sets@[r.1 as int].set == s,
        !r.0 ==> (forall|k: int| 0 <= k < r.1 ==> sets@[k].set < s)
            && (forall|k: int| r.1 <= k < sets@.len() ==> sets@[k].set > s),
{
    let n = sets.len();
    let mut i: usize = 0;
    while i < n
        invariant
            sets_sorted(sets@),
            n == sets@.len(),
            i <= n,
            forall|k: int| 0 <= k < i ==> sets@[k].set < s,
        decreases n - i,
    {
        if sets[i].set == s {
            return (true, i);
        }
        if sets[i].set > s {
            assert forall|k: int| i <= k < sets@.len() implies sets@[k].set > s by {
                if k > i {
                    assert(sets@[i as int].set < sets@[k].set);
                }
            }
            return (false, i);
        }
        i = i + 1;
    }
    (false, n)
}

/// Sorted entries stay distinct.
proof fn lemma_sorted_distinct(sets: Seq<SetBindings>)
    requires
        sets_sorted(sets),
    ensures
        sets_distinct(sets),
{
}

/// Groups reflected bindings by their set index. The result lists sets in
/// increasing index order; each listed set carries exactly the layout
/// bindings reflected for it, in reflection order, targeting `stage_flags`;
/// and a set is listed exactly when some reflected binding names it.
pub fn group_reflected(reflected: &Vec<ReflectedBinding>, stage_flags: u32) -> (r: Vec<
    SetBindings,
>)
    ensures
        sets_sorted(r@),
        forall|s: u32| #[trigger] bindings_at(r@, s)
            == bindings_of_set(reflected@, s, stage_flags),
        forall|s: u32| #[trigger] has_set(r@, s) <==> reflected_has_set(reflected@, s),
{
    let n = reflected.len();
    let mut cur: Vec<SetBindings> = Vec::new();
    let mut i: usize = 0;
    proof {
        assert forall|s: u32| #[trigger] bindings_at(cur@, s)
            == bindings_of_set(reflected@.take(0), s, stage_flags) by {
            assert(reflected@.take(0).len() == 0);
        }
    }
    while i < n
        invariant
            n == reflected@.len(),
            i <= n,
            sets_sorted(cur@),
            forall|s: u32| #[trigger] bindings_at(cur@, s)
                == bindings_of_set(reflected@.take(i as int), s, stage_flags),
            forall|s: u32| #[trigger] has_set(cur@, s)
                <==> reflected_has_set(reflected@.take(i as int), s),
        decreases n - i,
    {
        let rb = reflected[i];
        let b = layout_binding_of(&rb, stage_flags);
        let ghost prev = cur@;
        let ghost prefix = reflected@.take(i as int);
        let (found, idx) = find_set_slot(&cur, rb.set);
        if found {
            cur[idx].bindings.push(b);
            proof {
                lemma_sorted_distinct(prev);
                assert(cur@ == prev.update(idx as int, cur@[idx as int]));
                assert(cur@[idx as int].set == prev[idx as int].set);
                assert(cur@[idx as int].bindings@ == prev[idx as int].bindings@.push(b));
                assert(sets_sorted(cur@)) by {
                    assert forall|p: int, q: int| 0 <= p < q < cur@.len()
                        implies cur@[p].set < cur@[q].set by {
                        assert(cur@[p].set == prev[p].set);
                        assert(cur@[q].set == prev[q].set);
                    }
                }
                assert(reflected@.take(i + 1) =~= prefix.push(rb));
                assert forall|s: u32| #[trigger] bindings_at(cur@, s)
                    == bindings_of_set(reflected@.take(i + 1), s, stage_flags) by {
                    lemma_bindings_at_update(prev, cur@, idx as int, s);
                    lemma_bindings_of_set_push(prefix, rb, s, stage_flags);
                    if s == prev[idx as int].set {
                        lemma_bindings_at_index(prev, idx as int);
                    }
                }
                assert forall|s: u32| #[trigger] has_set(cur@, s)
                    <==> reflected_has_set(reflected@.take(i + 1), s) by {
                    assert forall|k: int| 0 <= k < cur@.len()
                        implies cur@[k].set == prev[k].set by {}
                    if has_set(cur@, s) {
                        let k = choose|k: int| 0 <= k < cur@.len() && cur@[k].set == s;
                        assert(prev[k].set == s);
                        assert(has_set(prev, s));
                    }
                    if has_set(prev, s) {
                        let k = choose|k: int| 0 <= k < prev.len() && prev[k].set == s;
                        assert(cur@[k].set == s);
                    }
                    if reflected_has_set(reflected@.take(i + 1), s) {
                        let next = reflected@.take(i + 1);
                        let k = choose|k: int| 0 <= k < next.len() && #[trigger] next[k].set == s;
                        if k < i {
                            assert(prefix[k].set == s);
                            assert(reflected_has_set(prefix, s));
                        } else {
                            assert(next[k] == rb);
                            assert(prev[idx as int].set == s);
                            assert(has_set(prev, s));
                        }
                    }
                    if reflected_has_set(prefix, s) {
                        let k = choose|k: int|
                            0 <= k < prefix.len() && prefix[k].set == s;
                        assert(reflected@.take(i + 1)[k].set == s);
                        assert(reflected_has_set(reflected@.take(i + 1), s));
                    }
                }
            }
        } else {
            let mut fresh: Vec<LayoutBinding> = Vec::new();
            fresh.push(b);
            let entry = SetBindings { set: rb.set, bindings: fresh };
            cur.insert(idx, entry);
            proof {
                assert(cur@ == prev.insert(idx as int, entry));
                assert(sets_sorted(cur@)) by {
                    assert forall|p: int, q: int| 0 <= p < q < cur@.len()
                        implies cur@[p].set < cur@[q].set by {
                        let pv = if p < idx { prev[p] } else if p == idx { entry } else { prev[p - 1] };
                        let qv = if q < idx { prev[q] } else if q == idx { entry } else { prev[q - 1] };
                        assert(cur@[p] == pv);
                        assert(cur@[q] == qv);
                    }
                }
                assert(reflected@.take(i + 1) =~= prefix.push(rb));
                assert forall|s: u32| #[trigger] bindings_at(cur@, s)
                    == bindings_of_set(reflected@.take(i + 1), s, stage_flags) by {
                    assert forall|k: int| 0 <= k < prev.len() implies prev[k].set != rb.set by {}
                    lemma_bindings_at_insert(prev, entry, idx as int, s);
                    lemma_bindings_of_set_push(prefix, rb, s, stage_flags);
                    if s == rb.set {
                        assert(!has_set(prev, s));
                        assert(!reflected_has_set(prefix, s));
                        lemma_bindings_at_absent(prev, s);
                        lemma_bindings_of_set_absent(prefix, s, stage_flags);
                        assert(entry.bindings@
                            =~= Seq::<LayoutBinding>::empty().push(
                            spec_layout_binding_of(rb, stage_flags),
                        ));
                    }
                }
                assert forall|s: u32| #[trigger] has_set(cur@, s)
                    <==> reflected_has_set(reflected@.take(i + 1), s) by {
                    if has_set(cur@, s) {
                        let k = choose|k: int| 0 <= k < cur@.len() && cur@[k].set == s;
                        if k == idx {
                            assert(reflected@.take(i + 1)[i as int].set == s);
                        } else {
                            let k0 = if k < idx { k } else { k - 1 };
                            assert(prev[k0].set == s);
                            assert(has_set(prev, s));
                            let m = choose|m: int| 0 <= m < prefix.len() && prefix[m].set == s;
                            assert(reflected@.take(i + 1)[m].set == s);
                        }
                    }
                    if reflected_has_set(reflected@.take(i + 1), s) {
                        let next = reflected@.take(i + 1);
                        let k = choose|k: int| 0 <= k < next.len() && #[trigger] next[k].set == s;
                        if k < i {
                            assert(prefix[k].set == s);
                            assert(has_set(prev, s));
                            let m = choose|m: int| 0 <= m < prev.len() && #[trigger] prev[m].set == s;
                            let m1 = if m < idx { m } else { m + 1 };
                            assert(cur@[m1].set == s);
                        } else {
                            assert(cur@[idx as int].set == s);
                        }
                    }
                }
            }
        }
        i = i + 1;
    }
    proof {
        assert(reflected@.take(n as int) =~= reflected@);
    }
    cur
}

/// Appends every element of `src` to `dst`.
fn push_all(dst: &mut Vec<LayoutBinding>, src: &Vec<LayoutBinding>)
    ensures
        final(dst)@ == old(dst)@ + src@,
{
    let n = src.len();
    let mut j: usize = 0;
    while j < n
        invariant
            n == src@.len(),
            j <= n,
            dst@ == old(dst)@ + src@.take(j as int),
        decreases n - j,
    {
        dst.push(src[j]);
        proof {
            assert(src@.take(j + 1) =~= src@.take(j as int).push(src@[j as int]));
            assert(old(dst)@ + src@.take(j + 1)
                =~= (old(dst)@ + src@.take(j as int)).push(src@[j as int]));
        }
        j = j + 1;
    }
    proof {
        assert(src@.take(n as int) =~= src@);
    }
}

/// Copies a binding list.
fn copy_bindings(src: &Vec<LayoutBinding>) -> (r: Vec<LayoutBinding>)
    ensures
        r@ == src@,
{
    let mut r: Vec<LayoutBinding> = Vec::new();
    push_all(&mut r, src);
    proof {
        assert(Seq::<LayoutBinding>::empty() + src@ =~= src@);
    }
    r
}

/// Appending one entry to a lookup list leaves every established lookup as it
/// was and adds the new entry's lookup if its set index was fresh.
proof fn lemma_bindings_at_push(ex: Seq<SetBindings>, e: SetBindings, s: u32)
    ensures
        bindings_at(ex.push(e), s) == if has_set(ex, s) {
            bindings_at(ex, s)
        } else if e.set == s {
            e.bindings@
        } else {
            Seq::<LayoutBinding>::empty()
        },
        has_set(ex.push(e), s) <==> has_set(ex, s) || e.set == s,
    decreases ex.len(),
{
    let d = ex.push(e);
    if ex.len() == 0 {
        assert(d[0] == e);
        if e.set != s {
            assert(d.skip(1) =~= Seq::<SetBindings>::empty());
            assert(bindings_at(Seq::<SetBindings>::empty(), s)
                == Seq::<LayoutBinding>::empty());
        }
        assert(has_set(d, s) <==> e.set == s) by {
            if has_set(d, s) {
                let k = choose|k: int| 0 <= k < d.len() && #[trigger] d[k].set == s;
                assert(d[k] == e);
            }
            if e.set == s {
                assert(d[0].set == s);
            }
        }
    } else {
        assert(d[0] == ex[0]);
        assert(d.skip(1) =~= ex.skip(1).push(e));
        lemma_bindings_at_push(ex.skip(1), e, s);
        assert(has_set(ex, s) <==> ex[0].set == s || has_set(ex.skip(1), s)) by {
            if has_set(ex, s) {
                let k = choose|k: int| 0 <= k < ex.len() && #[trigger] ex[k].set == s;
                if k > 0 {
                    assert(ex.skip(1)[k - 1].set == s);
                }
            }
            if has_set(ex.skip(1), s) {
                let k = choose|k: int|
                    0 <= k < ex.skip(1).len() && #[trigger] ex.skip(1)[k].set == s;
                assert(ex[k + 1].set == s);
            }
        }
        assert(has_set(d, s) <==> d[0].set == s || has_set(d.skip(1), s)) by {
            if has_set(d, s) {
                let k = choose|k: int| 0 <= k < d.len() && #[trigger] d[k].set == s;
                if k > 0 {
                    assert(d.skip(1)[k - 1].set == s);
                }
            }
            if has_set(d.skip(1), s) {
                let k = choose|k: int|
                    0 <= k < d.skip(1).len() && #[trigger] d.skip(1)[k].set == s;
                assert(d[k + 1].set == s);
            }
        }
    }
}

/// Merges caller-supplied explicit bindings into a grouped layout list.
/// An explicit set index that the list does not yet declare is inserted
/// verbatim; one it already declares has its explicit bindings appended after
/// the existing ones, never replacing them.
pub fn merge_explicit(sets: Vec<SetBindings>, explicit: &Vec<SetBindings>) -> (r: Vec<
    SetBindings,
>)
    requires
        sets_sorted(sets@),
        sets_distinct(explicit@),
    ensures
        sets_sorted(r@),
        forall|s: u32| #[trigger] bindings_at(r@, s)
            == bindings_at(sets@, s) + bindings_at(explicit@, s),
        forall|s: u32| #[trigger] has_set(r@, s) <==> has_set(sets@, s) || has_set(explicit@, s),
{
    let ghost orig = sets@;
    let mut cur = sets;
    let n = explicit.len();
    let mut t: usize = 0;
    proof {
        assert forall|s: u32| #[trigger] bindings_at(cur@, s)
            == bindings_at(orig, s) + bindings_at(explicit@.take(0), s) by {
            assert(explicit@.take(0).len() == 0);
            assert(bindings_at(orig, s) + Seq::<LayoutBinding>::empty() =~= bindings_at(orig, s));
        }
        assert forall|s: u32| !has_set(explicit@.take(0), s) by {}
    }
    while t < n
        invariant
            n == explicit@.len(),
            t <= n,
            sets_distinct(explicit@),
            sets_sorted(cur@),
            forall|s: u32| #[trigger] bindings_at(cur@, s)
                == bindings_at(orig, s) + bindings_at(explicit@.take(t as int), s),
            forall|s: u32| #[trigger] has_set(cur@, s)
                <==> has_set(orig, s) || has_set(explicit@.take(t as int), s),
        decreases n - t,
    {
        let ghost prev = cur@;
        let ghost prefix = explicit@.take(t as int);
        let (found, idx) = find_set_slot(&cur, explicit[t].set);
        let ghost eset = explicit@[t as int].set;
        if found {
            let mut entry = cur.remove(idx);
            push_all(&mut entry.bindings, &explicit[t].bindings);
            cur.insert(idx, entry);
            proof {
                lemma_sorted_distinct(prev);
                assert(cur@ =~= prev.update(idx as int, cur@[idx as int]));
                assert(cur@[idx as int].set == eset);
                assert(cur@[idx as int].bindings@
                    == prev[idx as int].bindings@ + explicit@[t as int].bindings@);
                assert(sets_sorted(cur@)) by {
                    assert forall|p: int, q: int| 0 <= p < q < cur@.len()
                        implies cur@[p].set < cur@[q].set by {
                        assert(cur@[p].set == prev[p].set);
                        assert(cur@[q].set == prev[q].set);
                    }
                }
                assert(explicit@.take(t + 1) =~= prefix.push(explicit@[t as int]));
                assert(!has_set(prefix, eset)) by {
                    if has_set(prefix, eset) {
                        let k = choose|k: int|
                            0 <= k < prefix.len() && #[trigger] prefix[k].set == eset;
                        assert(explicit@[k].set == explicit@[t as int].set);
                    }
                }
                assert forall|s: u32| #[trigger] bindings_at(cur@, s)
                    == bindings_at(orig, s) + bindings_at(explicit@.take(t + 1), s) by {
                    lemma_bindings_at_update(prev, cur@, idx as int, s);
                    lemma_bindings_at_push(prefix, explicit@[t as int], s);
                    if !has_set(prefix, s) {
                        lemma_bindings_at_absent(prefix, s);
                        assert(bindings_at(orig, s) + Seq::<LayoutBinding>::empty()
                            =~= bindings_at(orig, s));
                    }
                    if s == eset {
                        lemma_bindings_at_index(prev, idx as int);
                        assert(bindings_at(cur@, s)
                            == bindings_at(prev, s) + explicit@[t as int].bindings@);
                        assert(bindings_at(prev, s) == bindings_at(orig, s));
                        assert(bindings_at(explicit@.take(t + 1), s)
                            == explicit@[t as int].bindings@);
                    }
                }
                assert forall|s: u32| #[trigger] has_set(cur@, s)
                    <==> has_set(orig, s) || has_set(explicit@.take(t + 1), s) by {
                    lemma_bindings_at_push(prefix, explicit@[t as int], s);
                    assert forall|k: int| 0 <= k < cur@.len()
                        implies cur@[k].set == prev[k].set by {}
                    if has_set(cur@, s) {
                        let k = choose|k: int| 0 <= k < cur@.len() && #[trigger] cur@[k].set == s;
                        assert(prev[k].set == s);
                        assert(has_set(prev, s));
                    }
                    if has_set(prev, s) {
                        let k = choose|k: int| 0 <= k < prev.len() && #[trigger] prev[k].set == s;
                        assert(cur@[k].set == s);
                        assert(has_set(cur@, s));
                    }
                    if s == eset {
                        assert(has_set(prev, s));
                    }
                }
            }
        } else {
            let entry = SetBindings {
                set: explicit[t].set,
                bindings: copy_bindings(&explicit[t].bindings),
            };
            cur.insert(idx, entry);
            proof {
                assert(cur@ == prev.insert(idx as int, entry));
                assert(sets_sorted(cur@)) by {
                    assert forall|p: int, q: int| 0 <= p < q < cur@.len()
                        implies cur@[p].set < cur@[q].set by {
                        let pv = if p < idx { prev[p] } else if p == idx { entry } else { prev[p - 1] };
                        let qv = if q < idx { prev[q] } else if q == idx { entry } else { prev[q - 1] };
                        assert(cur@[p] == pv);
                        assert(cur@[q] == qv);
                    }
                }
                assert(explicit@.take(t + 1) =~= prefix.push(explicit@[t as int]));
                assert(!has_set(prev, eset)) by {
                    if has_set(prev, eset) {
                        let k = choose|k: int|
                            0 <= k < prev.len() && #[trigger] prev[k].set == eset;
                    }
                }
                assert(!has_set(prefix, eset)) by {
                    if has_set(prefix, eset) {
                        let k = choose|k: int|
                            0 <= k < prefix.len() && #[trigger] prefix[k].set == eset;
                        assert(explicit@[k].set == explicit@[t as int].set);
                    }
                }
                assert forall|s: u32| #[trigger] bindings_at(cur@, s)
                    == bindings_at(orig, s) + bindings_at(explicit@.take(t + 1), s) by {
                    assert forall|k: int| 0 <= k < prev.len() implies prev[k].set != eset by {}
                    lemma_bindings_at_insert(prev, entry, idx as int, s);
                    lemma_bindings_at_push(prefix, explicit@[t as int], s);
                    if !has_set(prefix, s) {
                        lemma_bindings_at_absent(prefix, s);
                        assert(bindings_at(orig, s) + Seq::<LayoutBinding>::empty()
                            =~= bindings_at(orig, s));
                    }
                    if s == eset {
                        assert(!has_set(orig, s)) by {
                            if has_set(orig, s) {
                                assert(has_set(prev, s));
                            }
                        }
                        lemma_bindings_at_absent(orig, s);
                        assert(Seq::<LayoutBinding>::empty() + entry.bindings@
                            =~= entry.bindings@);
                    }
                }
                assert forall|s: u32| #[trigger] has_set(cur@, s)
                    <==> has_set(orig, s) || has_set(explicit@.take(t + 1), s) by {
                    lemma_bindings_at_push(prefix, explicit@[t as int], s);
                    if has_set(cur@, s) {
                        let k = choose|k: int| 0 <= k < cur@.len() && #[trigger] cur@[k].set == s;
                        if k == idx {
                        } else {
                            let k0 = if k < idx { k } else { k - 1 };
                            assert(prev[k0].set == s);
                            assert(has_set(prev, s));
                        }
                    }
                    if has_set(prev, s) {
                        let k = choose|k: int| 0 <= k < prev.len() && #[trigger] prev[k].set == s;
                        let k1 = if k < idx { k } else { k + 1 };
                        assert(cur@[k1].set == s);
                        assert(has_set(cur@, s));
                    }
                    if s == eset {
                        assert(cur@[idx as int].set == s);
                        assert(has_set(cur@, s));
                    }
                }
            }
        }
        t = t + 1;
    }
    proof {
        assert(explicit@.take(n as int) =~= explicit@);
    }
    cur
}

/// All bindings of a layout list, set after set, in listed order.
pub open spec fn flat_bindings(sets: Seq<SetBindings>) -> Seq<LayoutBinding>
    decreases sets.len(),
{
    if sets.len() == 0 {
        Seq::empty()
    } else {
        flat_bindings(sets.drop_last()) + sets.last().bindings@
    }
}

/// What one binding adds to the pool total of `kind`: its descriptor count,
/// with the zero "unbounded" sentinel replaced by the caller's cap.
pub open spec fn pool_contribution(b: LayoutBinding, kind: DescriptorKind, unbounded_cap: u32) -> int {
    if b.kind == kind {
        if b.count == 0 {
            unbounded_cap as int
        } else {
            b.count as int
        }
    } else {
        0
    }
}

/// The running total of descriptor counts of `kind` over a binding list.
pub open spec fn kind_total(bs: Seq<LayoutBinding>, kind: DescriptorKind, unbounded_cap: u32) -> int
    decreases bs.len(),
{
    if bs.len() == 0 {
        0
    } else {
        kind_total(bs.drop_last(), kind, unbounded_cap)
            + pool_contribution(bs.last(), kind, unbounded_cap)
    }
}

/// Some binding in the list is of `kind`.
pub open spec fn kind_occurs(bs: Seq<LayoutBinding>, kind: DescriptorKind) -> bool {
    exists|i: int| 0 <= i < bs.len() && bs[i].kind == kind
}


/// Collects the bindings of every set into one list.
pub fn flatten_bindings(sets: &Vec<SetBindings>) -> (r: Vec<LayoutBinding>)
    ensures
        r@ == flat_bindings(sets@),
{
    let n = sets.len();
    let mut r: Vec<LayoutBinding> = Vec::new();
    let mut k: usize = 0;
    proof {
        assert(sets@.take(0).len() == 0);
    }
    while k < n
        invariant
            n == sets@.len(),
            k <= n,
            r@ == flat_bindings(sets@.take(k as int)),
        decreases n - k,
    {
        push_all(&mut r, &sets[k].bindings);
        proof {
            assert(sets@.take(k + 1).drop_last() =~= sets@.take(k as int));
            assert(sets@.take(k + 1).last() == sets@[k as int]);
        }
        k = k + 1;
    }
    proof {
        assert(sets@.take(n as int) =~= sets@);
    }
    r
}

/// Computes whether `kind` occurs in the list and its running pool total.
fn kind_pool_total(flat: &Vec<LayoutBinding>, kind: DescriptorKind, unbounded_cap: u32) -> (r: (
    bool,
    u64,
))
    requires
        flat@.len() <= 0xFFFF_FFFF,
    ensures
        r.0 == kind_occurs(flat@, kind),
        r.1 as int == kind_total(flat@, kind, unbounded_cap),
{
    let n = flat.len();
    let mut total: u64 = 0;
    let mut occurs: bool = false;
    let mut i: usize = 0;
    proof {
        assert(flat@.take(0).len() == 0);
    }
    while i < n
        invariant
            n == flat@.len() <= 0xFFFF_FFFF,
            i <= n,
            occurs == kind_occurs(flat@.take(i as int), kind),
            total as int == kind_total(flat@.take(i as int), kind, unbounded_cap),
            total as int <= (i as int) * 0xFFFF_FFFF,
        decreases n - i,
    {
        let b = flat[i];
        let ghost prefix = flat@.take(i as int);
        proof {
            assert(flat@.take(i + 1).drop_last() =~= prefix);
            assert(flat@.take(i + 1).last() == flat@[i as int]);
            assert((i as int) * 0xFFFF_FFFF + 0xFFFF_FFFF == (i + 1) * 0xFFFF_FFFF)
                by (nonlinear_arith);
            assert((i + 1) * 0xFFFF_FFFF <= 0xFFFF_FFFFu64 * 0xFFFF_FFFFu64) by (nonlinear_arith)
                requires i + 1 <= 0xFFFF_FFFF;
        }
        if b.kind == kind {
            occurs = true;
            let c: u32 = if b.count == 0 {
                unbounded_cap
            } else {
                b.count
            };
            total = total + (c as u64);
        }
        proof {
            assert(kind_occurs(flat@.take(i + 1), kind) == (kind_occurs(prefix, kind)
                || flat@[i as int].kind == kind)) by {
                if kind_occurs(flat@.take(i + 1), kind) {
                    let w = choose|w: int|
                        0 <= w < flat@.take(i + 1).len()
                            && #[trigger] flat@.take(i + 1)[w].kind == kind;
                    if w < i {
                        assert(prefix[w].kind == kind);
                    }
                }
                if kind_occurs(prefix, kind) {
                    let w = choose|w: int|
                        0 <= w < prefix.len() && #[trigger] prefix[w].kind == kind;
                    assert(flat@.take(i + 1)[w].kind == kind);
                }
                if flat@[i as int].kind == kind {
                    assert(flat@.take(i + 1)[i as int].kind == kind);
                }
            }
        }
        i = i + 1;
    }
    proof {
        assert(flat@.take(n as int) =~= flat@);
    }
    (occurs, total)
}

/// A kind that never occurs contributes nothing.
proof fn lemma_kind_total_absent(bs: Seq<LayoutBinding>, kind: DescriptorKind, unbounded_cap: u32)
    requires
        !kind_occurs(bs, kind),
    ensures
        kind_total(bs, kind, unbounded_cap) == 0,
    decreases bs.len(),
{
    if bs.len() > 0 {
        assert(bs.last().kind != kind);
        assert forall|w: int| !(0 <= w < bs.drop_last().len() && bs.drop_last()[w].kind == kind) by {
            if 0 <= w < bs.drop_last().len() {
                assert(bs.drop_last()[w] == bs[w]);
            }
        }
        lemma_kind_total_absent(bs.drop_last(), kind, unbounded_cap);
    }
}

/// One pool-size entry: a resource kind and the total descriptor count the
/// pool must hold for it.
#[derive(Clone, Copy, Debug, PartialEq, Eq, Structural)]
pub struct PoolSize {
    pub kind: DescriptorKind,
    pub count: u32,
}

/// Why a pipeline-layout plan cannot be built.
#[derive(Clone, Copy, Debug, PartialEq, Eq, Structural)]
pub enum PlanError {
    /// The merged set indices do not form a dense range starting at zero.
    NonDenseSetIndices,
    /// Some resource kind's pool total exceeds the driver's count width.
    PoolSizeOverflow,
    /// The descriptor-set headroom product exceeds the driver's count width.
    MaxSetsOverflow,
}

/// Each descriptor kind's position in the fixed enumeration of kinds.
pub open spec fn spec_kind_index(k: DescriptorKind) -> int {
    match k {
        DescriptorKind::Sampler => 0,
        DescriptorKind::CombinedImageSampler => 1,
        DescriptorKind::SampledImage => 2,
        DescriptorKind::StorageImage => 3,
        DescriptorKind::UniformTexelBuffer => 4,
        DescriptorKind::StorageTexelBuffer => 5,
        DescriptorKind::UniformBuffer => 6,
        DescriptorKind::StorageBuffer => 7,
        DescriptorKind::UniformBufferDynamic => 8,
        DescriptorKind::StorageBufferDynamic => 9,
        DescriptorKind::InputAttachment => 10,
        DescriptorKind::InlineUniformBlock => 11,
        DescriptorKind::AccelerationStructureKhr => 12,
        DescriptorKind::AccelerationStructureNv => 13,
    }
}

proof fn lemma_kind_index_injective(a: DescriptorKind, b: DescriptorKind)
    requires
        spec_kind_index(a) == spec_kind_index(b),
    ensures
        a == b,
{
}

proof fn lemma_kind_index_range(k: DescriptorKind)
    ensures
        0 <= spec_kind_index(k) < 14,
{
}

/// The descriptor kind at a position of the fixed enumeration.
fn kind_at(t: usize) -> (r: DescriptorKind)
    requires
        t < 14,
    ensures
        spec_kind_index(r) == t,
{
    if t == 0 {
        DescriptorKind::Sampler
    } else if t == 1 {
        DescriptorKind::CombinedImageSampler
    } else if t == 2 {
        DescriptorKind::SampledImage
    } else if t == 3 {
        DescriptorKind::StorageImage
    } else if t == 4 {
        DescriptorKind::UniformTexelBuffer
    } else if t == 5 {
        DescriptorKind::StorageTexelBuffer
    } else if t == 6 {
        DescriptorKind::UniformBuffer
    } else if t == 7 {
        DescriptorKind::StorageBuffer
    } else if t == 8 {
        DescriptorKind::UniformBufferDynamic
    } else if t == 9 {
        DescriptorKind::StorageBufferDynamic
    } else if t == 10 {
        DescriptorKind::InputAttachment
    } else if t == 11 {
        DescriptorKind::InlineUniformBlock
    } else if t == 12 {
        DescriptorKind::AccelerationStructureKhr
    } else {
        DescriptorKind::AccelerationStructureNv
    }
}

/// Computes the descriptor-pool sizes for a binding list: one entry per
/// resource kind that occurs, carrying the running total of descriptor
/// counts of that kind, with unbounded (zero-count) bindings contributing
/// `unbounded_cap` each. Fails exactly when some kind's total does not fit
/// the driver's 32-bit count.
#[verifier::rlimit(50)]
pub fn pool_sizes(flat: &Vec<LayoutBinding>, unbounded_cap: u32) -> (r: Result<
    Vec<PoolSize>,
    PlanError,
>)
    requires
        flat@.len() <= 0xFFFF_FFFF,
    ensures
        match r {
            Ok(ps) => (forall|i: int, j: int|
                0 <= i < j < ps@.len() ==> ps@[i].kind != ps@[j].kind) && (forall|i: int|
                0 <= i < ps@.len() ==> #[trigger] ps@[i].count as int
                    == kind_total(flat@, ps@[i].kind, unbounded_cap)
                    && kind_occurs(flat@, ps@[i].kind)) && (forall|k: DescriptorKind|
                #[trigger] kind_occurs(flat@, k) ==> exists|i: int|
                    0 <= i < ps@.len() && ps@[i].kind == k) && (forall|k: DescriptorKind|
                #[trigger] kind_total(flat@, k, unbounded_cap) <= u32::MAX),
            Err(e) => e == PlanError::PoolSizeOverflow && (exists|k: DescriptorKind|
                kind_total(flat@, k, unbounded_cap) > u32::MAX),
        },
{
    let mut ps: Vec<PoolSize> = Vec::new();
    let mut t: usize = 0;
    while t < 14
        invariant
            flat@.len() <= 0xFFFF_FFFF,
            t <= 14,
            forall|i: int|
                0 <= i < ps@.len() ==> 0 <= spec_kind_index(#[trigger] ps@[i].kind) < t,
            forall|i: int, j: int|
                0 <= i < j < ps@.len() ==> spec_kind_index(ps@[i].kind) < spec_kind_index(
                    ps@[j].kind,
                ),
            forall|i: int|
                0 <= i < ps@.len() ==> #[trigger] ps@[i].count as int
                    == kind_total(flat@, ps@[i].kind, unbounded_cap)
                    && kind_occurs(flat@, ps@[i].kind),
            forall|k: DescriptorKind|
                #[trigger] spec_kind_index(k) < t && kind_occurs(flat@, k) ==> exists|i: int|
                    0 <= i < ps@.len() && ps@[i].kind == k,
            forall|k: DescriptorKind|
                #[trigger] spec_kind_index(k) < t ==> kind_total(flat@, k, unbounded_cap)
                    <= u32::MAX,
        decreases 14 - t,
    {
        let kind = kind_at(t);
        let (occurs, total) = kind_pool_total(flat, kind, unbounded_cap);
        if occurs {
            if total > u32::MAX as u64 {
                return Err(PlanError::PoolSizeOverflow);
            }
            let ghost old_ps = ps@;
            ps.push(PoolSize { kind, count: total as u32 });
            proof {
                assert forall|i: int| 0 <= i < old_ps.len() implies ps@[i] == old_ps[i] by {}
                assert(ps@[old_ps.len() as int] == PoolSize { kind, count: total as u32 });
                assert(ps@[old_ps.len() as int].kind == kind);
                assert forall|i: int| 0 <= i < ps@.len() implies #[trigger] ps@[i].count as int
                    == kind_total(flat@, ps@[i].kind, unbounded_cap)
                    && kind_occurs(flat@, ps@[i].kind) by {
                    if i < old_ps.len() {
                        assert(ps@[i] == old_ps[i]);
                        assert(old_ps[i].count as int == kind_total(
                            flat@,
                            old_ps[i].kind,
                            unbounded_cap,
                        ));
                        assert(kind_occurs(flat@, old_ps[i].kind));
                    } else {
                        assert(ps@[i] == PoolSize { kind, count: total as u32 });
                        assert(total <= u32::MAX);
                        assert((total as u32) as int == total as int);
                        assert(total as int == kind_total(flat@, kind, unbounded_cap));
                        assert(kind_occurs(flat@, kind));
                    }
                }
                assert forall|k: DescriptorKind|
                    #[trigger] spec_kind_index(k) < t + 1 && kind_occurs(flat@, k)
                    implies exists|i: int| 0 <= i < ps@.len() && ps@[i].kind == k by {
                    if spec_kind_index(k) < t {
                        let i0 = choose|i: int|
                            0 <= i < old_ps.len() && #[trigger] old_ps[i].kind == k;
                        assert(ps@[i0].kind == k);
                    } else {
                        lemma_kind_index_injective(k, kind);
                        assert(ps@[old_ps.len() as int].kind == k);
                    }
                }
            }
        } else {
            proof {
                lemma_kind_total_absent(flat@, kind, unbounded_cap);
            }
        }
        proof {
            assert forall|k: DescriptorKind| #[trigger] spec_kind_index(k) == t implies k
                == kind by {
                lemma_kind_index_injective(k, kind);
            }
        }
        t = t + 1;
    }
    proof {
        assert forall|k: DescriptorKind| #[trigger] kind_total(flat@, k, unbounded_cap)
            <= u32::MAX by {
            lemma_kind_index_range(k);
        }
        assert forall|k: DescriptorKind| #[trigger] kind_occurs(flat@, k) implies exists|i: int|
            0 <= i < ps@.len() && ps@[i].kind == k by {
            lemma_kind_index_range(k);
        }
        assert forall|i: int, j: int| 0 <= i < j < ps@.len() implies ps@[i].kind
            != ps@[j].kind by {
            assert(spec_kind_index(ps@[i].kind) < spec_kind_index(ps@[j].kind));
        }
    }
    Ok(ps)
}

/// The layout list fills the dense range of set indices `0..len`: the `k`-th
/// entry declares set `k`, with no gaps.
pub open spec fn sets_dense(sets: Seq<SetBindings>) -> bool {
    forall|k: int| 0 <= k < sets.len() ==> sets[k].set == k
}

/// The declared set indices are downward closed: below any declared index,
/// every index is declared too. For a sorted list this is density.
pub open spec fn set_indices_downward_closed(sets: Seq<SetBindings>) -> bool {
    forall|s: u32, s2: u32| has_set(sets, s) && s2 < s ==> has_set(sets, s2)
}

proof fn lemma_sorted_lower_bound(sets: Seq<SetBindings>, k: int)
    requires
        sets_sorted(sets),
        0 <= k < sets.len(),
    ensures
        sets[k].set >= k,
    decreases k,
{
    if k > 0 {
        lemma_sorted_lower_bound(sets, k - 1);
        assert(sets[k - 1].set < sets[k].set);
    }
}

proof fn lemma_sorted_len_bound(sets: Seq<SetBindings>)
    requires
        sets_sorted(sets),
    ensures
        sets.len() <= 0x1_0000_0000,
{
    if sets.len() > 0x1_0000_0000 {
        lemma_sorted_lower_bound(sets, 0x1_0000_0000);
    }
}

proof fn lemma_downward_at(sets: Seq<SetBindings>, k: int)
    requires
        sets_sorted(sets),
        set_indices_downward_closed(sets),
        0 <= k < sets.len(),
        forall|j: int| 0 <= j < k ==> sets[j].set == j,
    ensures
        sets[k].set == k,
{
    lemma_sorted_len_bound(sets);
    lemma_sorted_lower_bound(sets, k);
    if sets[k].set > k {
        let s = sets[k].set;
        assert(has_set(sets, s));
        let s2 = k as u32;
        assert(has_set(sets, s2));
        let j = choose|j: int| 0 <= j < sets.len() && #[trigger] sets[j].set == s2;
        if j < k {
            assert(sets[j].set == j);
        } else if j > k {
            assert(sets[k].set < sets[j].set);
        }
        assert(false);
    }
}

proof fn lemma_downward_prefix(sets: Seq<SetBindings>, k: int)
    requires
        sets_sorted(sets),
        set_indices_downward_closed(sets),
        0 <= k <= sets.len(),
    ensures
        forall|j: int| 0 <= j < k ==> sets[j].set == j,
    decreases k,
{
    if k > 0 {
        lemma_downward_prefix(sets, k - 1);
        lemma_downward_at(sets, k - 1);
    }
}

/// For a sorted layout list, density is exactly downward closure of the
/// declared set indices.
proof fn lemma_dense_iff_downward(sets: Seq<SetBindings>)
    requires
        sets_sorted(sets),
    ensures
        sets_dense(sets) <==> set_indices_downward_closed(sets),
{
    if sets_dense(sets) {
        assert forall|s: u32, s2: u32| has_set(sets, s) && s2 < s implies has_set(
            sets,
            s2,
        ) by {
            let k = choose|k: int| 0 <= k < sets.len() && #[trigger] sets[k].set == s;
            assert(sets[k].set == k);
            assert(0 <= s2 < sets.len());
            assert(sets[s2 as int].set == s2);
        }
    }
    if set_indices_downward_closed(sets) {
        lemma_downward_prefix(sets, sets.len() as int);
    }
}

/// Decides whether the layout list fills the set-index range `0..len`.
pub fn check_sets_dense(sets: &Vec<SetBindings>) -> (r: bool)
    requires
        sets@.len() <= 0x1_0000_0000,
    ensures
        r == sets_dense(sets@),
{
    let n = sets.len();
    let mut k: usize = 0;
    while k < n
        invariant
            n == sets@.len() <= 0x1_0000_0000,
            k <= n,
            forall|j: int| 0 <= j < k ==> sets@[j].set == j,
        decreases n - k,
    {
        if sets[k].set != k as u32 {
            return false;
        }
        k = k + 1;
    }
    true
}

/// Everything the driver needs to build a pipeline layout, descriptor pool
/// and descriptor sets: the per-set layout bindings (dense, the `k`-th entry
/// for set `k`), the pool sizes grouped by resource kind, the pool's set
/// headroom, and the push-constant ranges.
pub struct PipelinePlan {
    pub set_bindings: Vec<SetBindings>,
    pub pool_sizes: Vec<PoolSize>,
    pub max_sets: u32,
    pub push_constant_ranges: Vec<PushConstantRange>,
}

/// The explicit bindings actually supplied: none stands for an empty list.
pub open spec fn explicit_view(explicit: Option<&Vec<SetBindings>>) -> Seq<SetBindings> {
    match explicit {
        Some(e) => e@,
        None => Seq::empty(),
    }
}

/// The merged layout list is sorted and carries, for every set index, the
/// reflected bindings of that set followed by the explicit ones, and lists a
/// set exactly when reflection or the explicit input names it.
pub open spec fn merged_lookup_ok(
    merged: Seq<SetBindings>,
    reflected: Seq<ReflectedBinding>,
    explicit: Seq<SetBindings>,
) -> bool {
    &&& sets_sorted(merged)
    &&& forall|s: u32| #[trigger] bindings_at(merged, s) == bindings_of_set(
        reflected,
        s,
        STAGE_COMPUTE,
    ) + bindings_at(explicit, s)
    &&& forall|s: u32| #[trigger] has_set(merged, s) <==> reflected_has_set(reflected, s)
        || has_set(explicit, s)
}

/// The pool sizes are the running totals of the binding list, grouped by
/// resource kind: one entry per occurring kind, no duplicates.
pub open spec fn pool_ok(ps: Seq<PoolSize>, flat: Seq<LayoutBinding>, unbounded_cap: u32) -> bool {
    &&& forall|i: int, j: int| 0 <= i < j < ps.len() ==> ps[i].kind != ps[j].kind
    &&& forall|i: int|
        0 <= i < ps.len() ==> #[trigger] ps[i].count as int == kind_total(
            flat,
            ps[i].kind,
            unbounded_cap,
        ) && kind_occurs(flat, ps[i].kind)
    &&& forall|k: DescriptorKind|
        #[trigger] kind_occurs(flat, k) ==> exists|i: int| 0 <= i < ps.len() && ps[i].kind == k
}

/// The push-constant ranges of a plan: the reflected block, if any, made
/// visible to the compute stage.
pub open spec fn push_ranges_spec(pc: Option<PushConstantBlock>) -> Seq<PushConstantRange> {
    match pc {
        Some(b) => seq![
            PushConstantRange { offset: b.offset, size: b.size, stage_flags: STAGE_COMPUTE },
        ],
        None => Seq::empty(),
    }
}

/// Plans a compute pipeline's descriptor machinery from reflected bindings,
/// optional explicit bindings and an optional push-constant block: groups
/// bindings by set, merges the explicit ones in, requires the set indices to
/// be dense, sizes the descriptor pool by resource kind (unbounded bindings
/// counted as `unbounded_pool_count`), and reserves pool headroom for
/// `max_frames_in_flight` copies of every set.
pub fn plan_compute_pipeline(
    reflected: &Vec<ReflectedBinding>,
    explicit: Option<&Vec<SetBindings>>,
    push_constants: Option<PushConstantBlock>,
    max_frames_in_flight: u32,
    unbounded_pool_count: u32,
) -> (r: Result<PipelinePlan, PlanError>)
    requires
        sets_distinct(explicit_view(explicit)),
    ensures
        match r {
            Ok(p) => {
                &&& merged_lookup_ok(p.set_bindings@, reflected@, explicit_view(explicit))
                &&& sets_dense(p.set_bindings@)
                &&& pool_ok(
                    p.pool_sizes@,
                    flat_bindings(p.set_bindings@),
                    unbounded_pool_count,
                )
                &&& p.max_sets == max_frames_in_flight * p.set_bindings@.len()
                &&& p.push_constant_ranges@ == push_ranges_spec(push_constants)
            },
            Err(PlanError::NonDenseSetIndices) => exists|s: u32, s2: u32|
                (reflected_has_set(reflected@, s) || has_set(explicit_view(explicit), s))
                    && s2 < s && !(reflected_has_set(reflected@, s2) || has_set(
                    explicit_view(explicit),
                    s2,
                )),
            Err(PlanError::PoolSizeOverflow) => exists|m: Seq<SetBindings>|
                merged_lookup_ok(m, reflected@, explicit_view(explicit)) && (flat_bindings(m).len()
                    > 0xFFFF_FFFF || exists|k: DescriptorKind|
                    kind_total(flat_bindings(m), k, unbounded_pool_count) > u32::MAX),
            Err(PlanError::MaxSetsOverflow) => exists|m: Seq<SetBindings>|
                merged_lookup_ok(m, reflected@, explicit_view(explicit))
                    && max_frames_in_flight * m.len() > u32::MAX,
        },
{
    let grouped = group_reflected(reflected, STAGE_COMPUTE);
    let merged = match explicit {
        Some(e) => merge_explicit(grouped, e),
        None => {
            proof {
                assert forall|s: u32| #[trigger] bindings_at(grouped@, s) == bindings_of_set(
                    reflected@,
                    s,
                    STAGE_COMPUTE,
                ) + bindings_at(explicit_view(explicit), s) by {
                    assert(bindings_at(Seq::<SetBindings>::empty(), s)
                        == Seq::<LayoutBinding>::empty());
                    assert(bindings_of_set(reflected@, s, STAGE_COMPUTE)
                        + Seq::<LayoutBinding>::empty() =~= bindings_of_set(
                        reflected@,
                        s,
                        STAGE_COMPUTE,
                    ));
                }
            }
            grouped
        },
    };
    proof {
        assert(merged_lookup_ok(merged@, reflected@, explicit_view(explicit)));
        lemma_sorted_len_bound(merged@);
    }
    if !check_sets_dense(&merged) {
        proof {
            lemma_dense_iff_downward(merged@);
            let (s, s2) = choose|s: u32, s2: u32|
                #![trigger has_set(merged@, s), has_set(merged@, s2)]
                has_set(merged@, s) && s2 < s && !has_set(merged@, s2);
            assert(reflected_has_set(reflected@, s) || has_set(explicit_view(explicit), s));
            assert(!(reflected_has_set(reflected@, s2) || has_set(explicit_view(explicit), s2)));
        }
        return Err(PlanError::NonDenseSetIndices);
    }
    let flat = flatten_bindings(&merged);
    if flat.len() > 0xFFFF_FFFFusize {
        return Err(PlanError::PoolSizeOverflow);
    }
    let sizes = match pool_sizes(&flat, unbounded_pool_count) {
        Ok(sizes) => sizes,
        Err(e) => {
            return Err(e);
        },
    };
    proof {
        assert((max_frames_in_flight as int) * (merged@.len() as int) <= 0xFFFF_FFFFint
            * 0x1_0000_0000int) by (nonlinear_arith)
            requires
                max_frames_in_flight <= 0xFFFF_FFFFu32,
                merged@.len() <= 0x1_0000_0000int,
        ;
    }
    let headroom: u64 = (max_frames_in_flight as u64) * (merged.len() as u64);
    if headroom > u32::MAX as u64 {
        return Err(PlanError::MaxSetsOverflow);
    }
    let mut ranges: Vec<PushConstantRange> = Vec::new();
    match push_constants {
        Some(b) => {
            ranges.push(
                PushConstantRange { offset: b.offset, size: b.size, stage_flags: STAGE_COMPUTE },
            );
            proof {
                assert(ranges@ =~= push_ranges_spec(push_constants));
            }
        },
        None => {
            proof {
                assert(ranges@ =~= push_ranges_spec(push_constants));
            }
        },
    }
    Ok(
        PipelinePlan {
            set_bindings: merged,
            pool_sizes: sizes,
            max_sets: headroom as u32,
            push_constant_ranges: ranges,
        },
    )
}

} // verus!
