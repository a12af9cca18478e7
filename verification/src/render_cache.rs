use std::collections::HashMap;

use vstd::prelude::*;

use crate::active::ActiveOutlineMethods;
use crate::active::ActiveOutlineModes;
use crate::outline_api::Outline;
use crate::outline_api::OutlineMethod;

verus! {

broadcast use vstd::std_specs::hash::group_hash_axioms;

/// Outline data extracted for rendering: the outline's method and its GPU-ready
/// appearance data `P` (intensity, width, overlap factor, owner id, color).
#[derive(Debug, Clone)]
pub struct ExtractedOutline<P> {
    /// Which outline algorithm this entity uses.
    pub mode: OutlineMethod,
    /// GPU-ready appearance data.
    pub data: P,
}

/// One update of the outline cache.
pub enum CacheOp<P> {
    /// Forget the entity's outline.
    Remove(u64),
    /// Store the entity's outline unless the cache already holds the same one.
    Upsert(u64, ExtractedOutline<P>),
    /// Leave the cache as it is.
    Keep,
}

/// The modes of the outlines in a cache.
pub open spec fn modes_of<P>(m: Map<u64, ExtractedOutline<P>>) -> Map<u64, OutlineMethod> {
    m.map_values(|v: ExtractedOutline<P>| v.mode)
}

/// The methods present among the outlines of a cache.
pub open spec fn summarize<P>(m: Map<u64, ExtractedOutline<P>>) -> ActiveOutlineMethods {
    ActiveOutlineMethods::from_flags(
        exists|k: u64| m.contains_key(k) && m[k].mode == OutlineMethod::JumpFlood,
        exists|k: u64| m.contains_key(k) && m[k].mode.is_hull(),
    )
}

/// What an update does to the modes of a cache.
pub open spec fn apply_mode_op<P>(m: Map<u64, OutlineMethod>, op: CacheOp<P>) -> Map<
    u64,
    OutlineMethod,
> {
    match op {
        CacheOp::Remove(k) => m.remove(k),
        CacheOp::Upsert(k, v) => m.insert(k, v.mode),
        CacheOp::Keep => m,
    }
}

/// What a sequence of updates does to the modes of a cache, applied in order.
pub open spec fn apply_mode_ops<P>(m: Map<u64, OutlineMethod>, ops: Seq<CacheOp<P>>) -> Map<
    u64,
    OutlineMethod,
>
    decreases ops.len(),
{
    if ops.len() == 0 {
        m
    } else {
        apply_mode_op(apply_mode_ops(m, ops.drop_last()), ops.last())
    }
}

/// `v` was written for `k` by one of the updates.
pub open spec fn written_by<P>(ops: Seq<CacheOp<P>>, k: u64, v: ExtractedOutline<P>) -> bool {
    exists|j: int| 0 <= j < ops.len() && ops[j] == CacheOp::Upsert(k, v)
}

/// The relation between a cache before and after one update, where `changed` is
/// what the update reported and `same` the comparator of appearance data.
pub open spec fn op_step<P, F: Fn(&P, &P) -> bool>(
    before: Map<u64, ExtractedOutline<P>>,
    after: Map<u64, ExtractedOutline<P>>,
    op: CacheOp<P>,
    changed: bool,
    same: F,
) -> bool {
    match op {
        CacheOp::Remove(k) => after == before.remove(k) && changed == before.contains_key(k),
        CacheOp::Upsert(k, v) => {
            if before.contains_key(k) && !changed {
                &&& after == before
                &&& before[k].mode == v.mode
                &&& call_ensures(same, (&before[k].data, &v.data), true)
            } else {
                &&& changed
                &&& after == before.insert(k, v)
                &&& before.contains_key(k) ==> (before[k].mode != v.mode || call_ensures(
                    same,
                    (&before[k].data, &v.data),
                    false,
                ))
            }
        },
        CacheOp::Keep => after == before && !changed,
    }
}

/// `states` and `changes` trace the cache from `start` to `end` through `ops`:
/// `states[i + 1]` is what update `i` made of `states[i]`, reporting `changes[i]`.
pub open spec fn is_update_trace<P, F: Fn(&P, &P) -> bool>(
    start: Map<u64, ExtractedOutline<P>>,
    end: Map<u64, ExtractedOutline<P>>,
    ops: Seq<CacheOp<P>>,
    same: F,
    states: Seq<Map<u64, ExtractedOutline<P>>>,
    changes: Seq<bool>,
) -> bool {
    &&& states.len() == ops.len() + 1
    &&& changes.len() == ops.len()
    &&& states[0] == start
    &&& states[ops.len() as int] == end
    &&& forall|i: int|
        0 <= i < ops.len() ==> op_step(states[i], states[i + 1], #[trigger] ops[i], changes[i], same)
}

/// Whether `op` updates the entry of `k`.
pub open spec fn touches<P>(op: CacheOp<P>, k: u64) -> bool {
    match op {
        CacheOp::Remove(j) => j == k,
        CacheOp::Upsert(j, _) => j == k,
        CacheOp::Keep => false,
    }
}

/// `m` holds for `k` an outline of the mode of `o` whose data is `o`'s, or that
/// `same` judged equal to `o`'s.
pub open spec fn caches_outline<P, F: Fn(&P, &P) -> bool>(
    m: Map<u64, ExtractedOutline<P>>,
    k: u64,
    o: ExtractedOutline<P>,
    same: F,
) -> bool {
    &&& m.contains_key(k)
    &&& m[k].mode == o.mode
    &&& m[k] == o || call_ensures(same, (&m[k].data, &o.data), true)
}

/// Updates that leave `k` alone leave its entry as it was.
proof fn lemma_untouched_span<P, F: Fn(&P, &P) -> bool>(
    start: Map<u64, ExtractedOutline<P>>,
    end: Map<u64, ExtractedOutline<P>>,
    ops: Seq<CacheOp<P>>,
    same: F,
    states: Seq<Map<u64, ExtractedOutline<P>>>,
    changes: Seq<bool>,
    k: u64,
    from: int,
    to: int,
)
    requires
        is_update_trace(start, end, ops, same, states, changes),
        0 <= from <= to <= ops.len(),
        forall|i: int| from <= i < to ==> !touches(#[trigger] ops[i], k),
    ensures
        states[to].contains_key(k) == states[from].contains_key(k),
        states[from].contains_key(k) ==> states[to][k] == states[from][k],
    decreases to - from,
{
    if from < to {
        lemma_untouched_span(start, end, ops, same, states, changes, k, from, to - 1);
        assert(op_step(states[to - 1], states[to], ops[to - 1], changes[to - 1], same));
        assert(!touches(ops[to - 1], k));
    }
}

/// An outline stored for `k` stays while later updates leave `k` alone.
proof fn lemma_stored_span<P, F: Fn(&P, &P) -> bool>(
    start: Map<u64, ExtractedOutline<P>>,
    end: Map<u64, ExtractedOutline<P>>,
    ops: Seq<CacheOp<P>>,
    same: F,
    states: Seq<Map<u64, ExtractedOutline<P>>>,
    changes: Seq<bool>,
    k: u64,
    o: ExtractedOutline<P>,
    t: int,
)
    requires
        is_update_trace(start, end, ops, same, states, changes),
        0 <= t < ops.len(),
        ops[t] == CacheOp::Upsert(k, o),
        forall|i: int| t < i < ops.len() ==> !touches(#[trigger] ops[i], k),
    ensures
        caches_outline(end, k, o, same),
{
    assert(op_step(states[t], states[t + 1], ops[t], changes[t], same));
    lemma_untouched_span(start, end, ops, same, states, changes, k, t + 1, ops.len() as int);
}

/// An entity absent from the cache stays absent while later updates only remove it
/// or leave it alone.
proof fn lemma_absent_span<P, F: Fn(&P, &P) -> bool>(
    start: Map<u64, ExtractedOutline<P>>,
    end: Map<u64, ExtractedOutline<P>>,
    ops: Seq<CacheOp<P>>,
    same: F,
    states: Seq<Map<u64, ExtractedOutline<P>>>,
    changes: Seq<bool>,
    k: u64,
    from: int,
    to: int,
)
    requires
        is_update_trace(start, end, ops, same, states, changes),
        0 <= from <= to <= ops.len(),
        !states[from].contains_key(k),
        forall|i: int| from <= i < to && touches(#[trigger] ops[i], k) ==> ops[i] is Remove,
    ensures
        !states[to].contains_key(k),
    decreases to - from,
{
    if from < to {
        lemma_absent_span(start, end, ops, same, states, changes, k, from, to - 1);
        assert(op_step(states[to - 1], states[to], ops[to - 1], changes[to - 1], same));
    }
}

/// Where no update reported a change, every state of the trace is the start.
proof fn lemma_quiet_trace<P, F: Fn(&P, &P) -> bool>(
    start: Map<u64, ExtractedOutline<P>>,
    end: Map<u64, ExtractedOutline<P>>,
    ops: Seq<CacheOp<P>>,
    same: F,
    states: Seq<Map<u64, ExtractedOutline<P>>>,
    changes: Seq<bool>,
    n: int,
)
    requires
        is_update_trace(start, end, ops, same, states, changes),
        !changes.contains(true),
        0 <= n <= ops.len(),
    ensures
        states[n] == start,
    decreases n,
{
    if n > 0 {
        lemma_quiet_trace(start, end, ops, same, states, changes, n - 1);
        let before = states[n - 1];
        assert(op_step(before, states[n], ops[n - 1], changes[n - 1], same));
        if changes[n - 1] {
            assert(changes[n - 1] == true);
        }
        if let CacheOp::Remove(k) = ops[n - 1] {
            assert(before.remove(k) =~= before);
        }
    }
}

/// An update that must change the state it is applied to, in a trace that starts
/// from `start`, makes the trace report a change.
proof fn lemma_forced_change<P, F: Fn(&P, &P) -> bool>(
    start: Map<u64, ExtractedOutline<P>>,
    end: Map<u64, ExtractedOutline<P>>,
    ops: Seq<CacheOp<P>>,
    same: F,
    states: Seq<Map<u64, ExtractedOutline<P>>>,
    changes: Seq<bool>,
    t: int,
)
    requires
        is_update_trace(start, end, ops, same, states, changes),
        0 <= t < ops.len(),
        match ops[t] {
            CacheOp::Remove(k) => start.contains_key(k),
            CacheOp::Upsert(k, v) => !start.contains_key(k) || start[k].mode != v.mode,
            CacheOp::Keep => false,
        },
    ensures
        changes.contains(true),
{
    if !changes.contains(true) {
        lemma_quiet_trace(start, end, ops, same, states, changes, t);
        assert(op_step(states[t], states[t + 1], ops[t], changes[t], same));
        if changes[t] {
            assert(changes[t] == true);
        }
    }
}

/// Render-world cache of all extracted outlines, keyed by main-world entity id,
/// together with the methods present among them.
pub struct ExtractedOutlineUniforms<P> {
    by_main_entity: HashMap<u64, ExtractedOutline<P>>,
    methods: ActiveOutlineMethods,
}

impl<P> View for ExtractedOutlineUniforms<P> {
    type V = Map<u64, ExtractedOutline<P>>;

    closed spec fn view(&self) -> Map<u64, ExtractedOutline<P>> {
        self.by_main_entity@
    }
}

impl<P> ExtractedOutlineUniforms<P> {
    /// The recorded methods.
    pub closed spec fn spec_methods(&self) -> ActiveOutlineMethods {
        self.methods
    }

    /// The recorded methods are those present among the cached outlines.
    pub open spec fn wf(&self) -> bool {
        self.spec_methods() == summarize(self@)
    }

    /// An empty cache.
    pub fn new() -> (r: Self)
        ensures
            r@ == Map::<u64, ExtractedOutline<P>>::empty(),
            r.spec_methods() == ActiveOutlineMethods::NoOutlines,
            r.wf(),
    {
        let r = ExtractedOutlineUniforms {
            by_main_entity: HashMap::new(),
            methods: ActiveOutlineMethods::NoOutlines,
        };
        assert(r@ =~= Map::<u64, ExtractedOutline<P>>::empty());
        r
    }

    /// Returns the recorded methods.
    pub fn methods(&self) -> (r: ActiveOutlineMethods)
        ensures
            r == self.spec_methods(),
    {
        self.methods
    }

    /// Returns the cached outlines.
    pub fn by_main_entity(&self) -> (r: &HashMap<u64, ExtractedOutline<P>>)
        ensures
            r@ == self@,
    {
        &self.by_main_entity
    }

    /// Returns whether the cache holds an outline for `entity`.
    pub fn contains(&self, entity: u64) -> (r: bool)
        ensures
            r == self@.contains_key(entity),
    {
        self.by_main_entity.contains_key(&entity)
    }

    /// Returns the cached outline of `entity`, if any.
    pub fn get(&self, entity: u64) -> (r: Option<&ExtractedOutline<P>>)
        ensures
            match r {
                Some(v) => self@.contains_key(entity) && *v == self@[entity],
                None => !self@.contains_key(entity),
            },
    {
        self.by_main_entity.get(&entity)
    }

    /// Forgets the outline of `entity`; returns whether there was one.
    pub fn remove(&mut self, entity: u64) -> (removed: bool)
        ensures
            final(self)@ == old(self)@.remove(entity),
            removed == old(self)@.contains_key(entity),
            final(self).spec_methods() == old(self).spec_methods(),
    {
        self.by_main_entity.remove(&entity).is_some()
    }

    /// Stores `outline` for `entity` unless the cache already holds an outline of
    /// the same mode whose data `same` judges equal; returns whether it stored it.
    pub fn upsert<F: Fn(&P, &P) -> bool>(
        &mut self,
        entity: u64,
        outline: ExtractedOutline<P>,
        same: &F,
    ) -> (changed: bool)
        requires
            forall|a: &P, b: &P| #[trigger] same.requires((a, b)),
        ensures
            op_step(old(self)@, final(self)@, CacheOp::Upsert(entity, outline), changed, *same),
            !old(self)@.contains_key(entity) ==> changed,
            final(self).spec_methods() == old(self).spec_methods(),
    {
        let unchanged = match self.by_main_entity.get(&entity) {
            Some(existing) => existing.mode == outline.mode && same(&existing.data, &outline.data),
            None => false,
        };
        if unchanged {
            false
        } else {
            self.by_main_entity.insert(entity, outline);
            true
        }
    }

    /// Recomputes the recorded methods from the cached outlines.
    pub fn recompute_methods(&mut self)
        ensures
            final(self)@ == old(self)@,
            final(self).wf(),
    {
        let mut methods = ActiveOutlineMethods::NoOutlines;
        let ghost m = self.by_main_entity@;
        let ghost s = vstd::std_specs::iter::IteratorSpec::remaining(&vstd::std_specs::hash::spec_values_iter(&self.by_main_entity));
        let ghost mut n: int = 0;
        for outline in it: self.by_main_entity.values()
            invariant
                m == self.by_main_entity@,
                it.seq() == s,
                n == it.index(),
                methods == ActiveOutlineMethods::from_flags(
                    exists|i: int| 0 <= i < n && s[i].mode == OutlineMethod::JumpFlood,
                    exists|i: int| 0 <= i < n && s[i].mode.is_hull(),
                ),
        {
            methods = methods.with_outline_method(outline.mode);
            proof {
                n = n + 1;
            }
        }
        proof {
            assert(n == s.len());
            assert(s.unref().to_set() == m.values());
            assert((exists|i: int| 0 <= i < s.len() && s[i].mode == OutlineMethod::JumpFlood)
                == (exists|k: u64| m.contains_key(k) && m[k].mode == OutlineMethod::JumpFlood)) by {
                if exists|i: int| 0 <= i < s.len() && s[i].mode == OutlineMethod::JumpFlood {
                    let i = choose|i: int| 0 <= i < s.len() && s[i].mode == OutlineMethod::JumpFlood;
                    assert(s.unref()[i] == *s[i]);
                    assert(s.unref().to_set().contains(*s[i]));
                    assert(m.values().contains(*s[i]));
                }
                if exists|k: u64| m.contains_key(k) && m[k].mode == OutlineMethod::JumpFlood {
                    let k = choose|k: u64| m.contains_key(k) && m[k].mode == OutlineMethod::JumpFlood;
                    assert(m.values().contains(m[k]));
                    assert(s.unref().to_set().contains(m[k]));
                    let i = choose|i: int| 0 <= i < s.unref().len() && s.unref()[i] == m[k];
                    assert(*s[i] == m[k]);
                }
            }
            assert((exists|i: int| 0 <= i < s.len() && s[i].mode.is_hull())
                == (exists|k: u64| m.contains_key(k) && m[k].mode.is_hull())) by {
                if exists|i: int| 0 <= i < s.len() && s[i].mode.is_hull() {
                    let i = choose|i: int| 0 <= i < s.len() && s[i].mode.is_hull();
                    assert(s.unref()[i] == *s[i]);
                    assert(s.unref().to_set().contains(*s[i]));
                    assert(m.values().contains(*s[i]));
                }
                if exists|k: u64| m.contains_key(k) && m[k].mode.is_hull() {
                    let k = choose|k: u64| m.contains_key(k) && m[k].mode.is_hull();
                    assert(m.values().contains(m[k]));
                    assert(s.unref().to_set().contains(m[k]));
                    let i = choose|i: int| 0 <= i < s.unref().len() && s.unref()[i] == m[k];
                    assert(*s[i] == m[k]);
                }
            }
        }
        self.methods = methods;
    }

    /// Applies one update; returns whether it changed the cache (a `Remove`
    /// that found an outline, or an `Upsert` that stored its outline).
    fn apply_op<F: Fn(&P, &P) -> bool>(&mut self, op: CacheOp<P>, same: &F) -> (changed: bool)
        requires
            forall|a: &P, b: &P| #[trigger] same.requires((a, b)),
        ensures
            op_step(old(self)@, final(self)@, op, changed, *same),
            final(self).spec_methods() == old(self).spec_methods(),
    {
        match op {
            CacheOp::Remove(entity) => self.remove(entity),
            CacheOp::Upsert(entity, outline) => self.upsert(entity, outline, same),
            CacheOp::Keep => false,
        }
    }

    /// Applies the updates in order; returns whether any of them changed the cache.
    fn apply_ops<F: Fn(&P, &P) -> bool>(&mut self, ops: Vec<CacheOp<P>>, same: &F) -> (dirty: bool)
        requires
            forall|a: &P, b: &P| #[trigger] same.requires((a, b)),
        ensures
            final(self).spec_methods() == old(self).spec_methods(),
            modes_of(final(self)@) == apply_mode_ops(modes_of(old(self)@), ops@),
            forall|k: u64| #[trigger] final(self)@.contains_key(k) ==> {
                ||| old(self)@.contains_key(k) && final(self)@[k] == old(self)@[k]
                ||| written_by(ops@, k, final(self)@[k])
            },
            !dirty ==> final(self)@ == old(self)@,
            exists|states: Seq<Map<u64, ExtractedOutline<P>>>, changes: Seq<bool>|
                is_update_trace(old(self)@, final(self)@, ops@, *same, states, changes)
                && dirty == changes.contains(true),
    {
        let ghost start = self@;
        let ghost mut states: Seq<Map<u64, ExtractedOutline<P>>> = seq![start];
        let ghost mut changes: Seq<bool> = Seq::empty();
        let ghost all = ops@;
        let ghost mut n: int = 0;
        let mut dirty = false;
        for op in it: ops.into_iter()
            invariant
                it.seq() == all,
                n == it.index(),
                0 <= n <= all.len(),
                forall|a: &P, b: &P| #[trigger] same.requires((a, b)),
                self.spec_methods() == old(self).spec_methods(),
                start == old(self)@,
                modes_of(self@) == apply_mode_ops(modes_of(start), all.take(n)),
                forall|k: u64| #[trigger] self@.contains_key(k) ==> {
                    ||| start.contains_key(k) && self@[k] == start[k]
                    ||| written_by(all.take(n), k, self@[k])
                },
                !dirty ==> self@ == start,
                states.len() == n + 1,
                changes.len() == n,
                states[0] == start,
                states[n] == self@,
                forall|i: int|
                    0 <= i < n ==> op_step(states[i], states[i + 1], #[trigger] all[i], changes[i], *same),
                dirty == changes.contains(true),
        {
            let ghost before = self@;
            let ghost cur = all[n];
            assert(op == cur);
            let changed = self.apply_op(op, same);
            dirty = dirty || changed;
            proof {
                let after = self@;
                if let CacheOp::Remove(k) = cur {
                    if !changed {
                        assert(before.remove(k) =~= before);
                    }
                }
                assert(all.take(n + 1).drop_last() =~= all.take(n));
                assert(all.take(n + 1).last() == cur);
                assert(modes_of(after) =~= apply_mode_op(modes_of(before), cur));
                assert forall|k: u64| #[trigger] after.contains_key(k) implies {
                    ||| start.contains_key(k) && after[k] == start[k]
                    ||| written_by(all.take(n + 1), k, after[k])
                } by {
                    if before.contains_key(k) && after[k] == before[k] {
                        if written_by(all.take(n), k, before[k]) {
                            let j = choose|j: int| 0 <= j < all.take(n).len() && all.take(n)[j] == CacheOp::Upsert(k, before[k]);
                            assert(all.take(n + 1)[j] == all.take(n)[j]);
                        }
                    } else {
                        assert(all.take(n + 1)[n] == cur);
                    }
                }
                let old_changes = changes;
                states = states.push(after);
                changes = changes.push(changed);
                assert(changes.contains(true) == (old_changes.contains(true) || changed)) by {
                    if old_changes.contains(true) {
                        let j = choose|j: int| 0 <= j < old_changes.len() && old_changes[j] == true;
                        assert(changes[j] == true);
                    }
                    if changed {
                        assert(changes[old_changes.len() as int] == true);
                    }
                    if changes.contains(true) && !changed {
                        let j = choose|j: int| 0 <= j < changes.len() && changes[j] == true;
                        assert(old_changes[j] == true);
                    }
                }
                n = n + 1;
            }
        }
        proof {
            assert(all.take(n) =~= all);
            assert(is_update_trace(start, self@, all, *same, states, changes));
        }
        dirty
    }
}


/// The extraction entry of `entity`'s `outline`, with `data` its GPU-ready
/// appearance: the extracted outline when the outline is enabled, and `None` when
/// it is disabled, so that extraction skips it.
pub fn extraction_entry<A, P>(entity: u64, outline: &Outline<A>, data: P) -> (r: (
    u64,
    Option<ExtractedOutline<P>>,
))
    ensures
        r.0 == entity,
        outline.enabled ==> r.1 == Some(ExtractedOutline { mode: outline.mode, data }),
        !outline.enabled ==> r.1 is None,
{
    if outline.enabled {
        (entity, Some(ExtractedOutline { mode: outline.mode, data }))
    } else {
        (entity, None)
    }
}

/// The updates of an extraction: for changed outlines, a disabled outline is removed;
/// for newly added meshes, a disabled outline is left alone.
pub open spec fn changed_op<P>(c: (u64, Option<ExtractedOutline<P>>)) -> CacheOp<P> {
    match c.1 {
        Some(o) => CacheOp::Upsert(c.0, o),
        None => CacheOp::Remove(c.0),
    }
}

/// The update for an outlined entity whose mesh was just added.
pub open spec fn added_op<P>(c: (u64, Option<ExtractedOutline<P>>)) -> CacheOp<P> {
    match c.1 {
        Some(o) => CacheOp::Upsert(c.0, o),
        None => CacheOp::Keep,
    }
}

/// The outline changes observed in the main world since the last extraction.
///
/// Each changed or added entry carries `Some` extracted outline when the outline is
/// enabled and `None` when it is disabled.
pub struct ExtractionBatch<P> {
    /// Entities whose outline was removed.
    pub removed_outlines: Vec<u64>,
    /// Entities whose mesh was removed.
    pub removed_meshes: Vec<u64>,
    /// Mesh entities whose outline was added or changed.
    pub changed_outlines: Vec<(u64, Option<ExtractedOutline<P>>)>,
    /// Outlined entities whose mesh was added.
    pub added_meshes: Vec<(u64, Option<ExtractedOutline<P>>)>,
}

impl<P> ExtractionBatch<P> {
    /// The updates of the batch, in the order extraction applies them: removed
    /// outlines, removed meshes, changed outlines, added meshes.
    pub open spec fn spec_ops(&self) -> Seq<CacheOp<P>> {
        self.removed_outlines@.map_values(|e: u64| CacheOp::<P>::Remove(e))
            + self.removed_meshes@.map_values(|e: u64| CacheOp::<P>::Remove(e))
            + self.changed_outlines@.map_values(|c: (u64, Option<ExtractedOutline<P>>)| changed_op(c))
            + self.added_meshes@.map_values(|c: (u64, Option<ExtractedOutline<P>>)| added_op(c))
    }

    /// Returns the updates of the batch in order.
    pub fn into_ops(self) -> (ops: Vec<CacheOp<P>>)
        ensures
            ops@ == self.spec_ops(),
    {
        let ghost b = self;
        let mut ops: Vec<CacheOp<P>> = Vec::new();
        for e in it: self.removed_outlines.into_iter()
            invariant
                it.seq() == b.removed_outlines@,
                ops@ == b.removed_outlines@.take(it.index()).map_values(|e: u64| CacheOp::<P>::Remove(e)),
        {
            ops.push(CacheOp::Remove(e));
            proof {
                assert(b.removed_outlines@.take(it.index() + 1) =~= b.removed_outlines@.take(it.index()).push(e));
            }
        }
        let ghost p1 = ops@;
        assert(b.removed_outlines@.take(b.removed_outlines@.len() as int) =~= b.removed_outlines@);
        for e in it: self.removed_meshes.into_iter()
            invariant
                it.seq() == b.removed_meshes@,
                ops@ == p1 + b.removed_meshes@.take(it.index()).map_values(|e: u64| CacheOp::<P>::Remove(e)),
        {
            ops.push(CacheOp::Remove(e));
            proof {
                assert(b.removed_meshes@.take(it.index() + 1) =~= b.removed_meshes@.take(it.index()).push(e));
            }
        }
        let ghost p2 = ops@;
        assert(b.removed_meshes@.take(b.removed_meshes@.len() as int) =~= b.removed_meshes@);
        for c in it: self.changed_outlines.into_iter()
            invariant
                it.seq() == b.changed_outlines@,
                ops@ == p2 + b.changed_outlines@.take(it.index()).map_values(|c: (u64, Option<ExtractedOutline<P>>)| changed_op(c)),
        {
            let ghost cc = c;
            let (entity, extracted) = c;
            match extracted {
                Some(o) => ops.push(CacheOp::Upsert(entity, o)),
                None => ops.push(CacheOp::Remove(entity)),
            }
            proof {
                assert(b.changed_outlines@.take(it.index() + 1) =~= b.changed_outlines@.take(it.index()).push(cc));
            }
        }
        let ghost p3 = ops@;
        assert(b.changed_outlines@.take(b.changed_outlines@.len() as int) =~= b.changed_outlines@);
        for c in it: self.added_meshes.into_iter()
            invariant
                it.seq() == b.added_meshes@,
                ops@ == p3 + b.added_meshes@.take(it.index()).map_values(|c: (u64, Option<ExtractedOutline<P>>)| added_op(c)),
        {
            let ghost cc = c;
            let (entity, extracted) = c;
            match extracted {
                Some(o) => ops.push(CacheOp::Upsert(entity, o)),
                None => ops.push(CacheOp::Keep),
            }
            proof {
                assert(b.added_meshes@.take(it.index() + 1) =~= b.added_meshes@.take(it.index()).push(cc));
            }
        }
        assert(b.added_meshes@.take(b.added_meshes@.len() as int) =~= b.added_meshes@);
        assert(ops@ =~= b.spec_ops());
        ops
    }
}

impl<P> ExtractionBatch<P> {
    /// Some added-mesh entry of the batch carries an enabled outline for `k`.
    pub open spec fn adds_outline(&self, k: u64) -> bool {
        exists|j: int|
            0 <= j < self.added_meshes@.len() && (#[trigger] self.added_meshes@[j]).0 == k
                && self.added_meshes@[j].1 is Some
    }

    /// Some changed-outline entry of the batch is for `k`.
    pub open spec fn changes_outline(&self, k: u64) -> bool {
        exists|j: int| 0 <= j < self.changed_outlines@.len() && (#[trigger] self.changed_outlines@[j]).0 == k
    }

    /// The batch reports that `k` lost its outline or its mesh.
    pub open spec fn removes_entity(&self, k: u64) -> bool {
        self.removed_outlines@.contains(k) || self.removed_meshes@.contains(k)
    }

    /// No added-mesh entry after entry `i` carries an enabled outline for its entity.
    pub open spec fn is_last_added(&self, i: int) -> bool {
        forall|j: int|
            i < j < self.added_meshes@.len() && (#[trigger] self.added_meshes@[j]).0
                == self.added_meshes@[i].0 ==> self.added_meshes@[j].1 is None
    }

    /// No changed-outline entry after entry `i` is for its entity.
    pub open spec fn is_last_changed(&self, i: int) -> bool {
        forall|j: int|
            i < j < self.changed_outlines@.len() ==> (#[trigger] self.changed_outlines@[j]).0
                != self.changed_outlines@[i].0
    }
}

/// The update at each position of a batch's update sequence.
proof fn lemma_batch_op_at<P>(batch: ExtractionBatch<P>)
    ensures
        batch.spec_ops().len() == batch.removed_outlines@.len() + batch.removed_meshes@.len()
            + batch.changed_outlines@.len() + batch.added_meshes@.len(),
        forall|t: int| 0 <= t < batch.spec_ops().len() ==> #[trigger] batch.spec_ops()[t] == {
            let r = batch.removed_outlines@.len() as int;
            let m = batch.removed_meshes@.len() as int;
            let c = batch.changed_outlines@.len() as int;
            if t < r {
                CacheOp::Remove(batch.removed_outlines@[t])
            } else if t < r + m {
                CacheOp::Remove(batch.removed_meshes@[t - r])
            } else if t < r + m + c {
                changed_op(batch.changed_outlines@[t - r - m])
            } else {
                added_op(batch.added_meshes@[t - r - m - c])
            }
        },
{
}

/// What applying a batch does to each entity of the cache, read off the batch's
/// fields: removals come first, then changed outlines, then added meshes, so the
/// last enabled outline given for an entity is the one cached, an entity whose
/// outline or mesh was removed is gone unless an outline is given for it again, and
/// an entity the batch does not mention keeps its entry. An entry that must alter
/// the cache (an outline for an absent entity or of another mode, the removal of a
/// cached entity) makes the trace report a change.
pub proof fn lemma_extraction_outcome<P, F: Fn(&P, &P) -> bool>(
    batch: ExtractionBatch<P>,
    before: Map<u64, ExtractedOutline<P>>,
    after: Map<u64, ExtractedOutline<P>>,
    same: F,
    states: Seq<Map<u64, ExtractedOutline<P>>>,
    changes: Seq<bool>,
)
    requires
        is_update_trace(before, after, batch.spec_ops(), same, states, changes),
    ensures
        forall|i: int|
            0 <= i < batch.added_meshes@.len() && (#[trigger] batch.added_meshes@[i]).1 is Some
                && batch.is_last_added(i) ==> caches_outline(
                after,
                batch.added_meshes@[i].0,
                batch.added_meshes@[i].1->0,
                same,
            ),
        forall|i: int|
            0 <= i < batch.changed_outlines@.len() && (#[trigger] batch.changed_outlines@[i]).1 is Some
                && batch.is_last_changed(i) && !batch.adds_outline(batch.changed_outlines@[i].0)
                ==> caches_outline(after, batch.changed_outlines@[i].0, batch.changed_outlines@[i].1->0, same),
        forall|i: int|
            0 <= i < batch.changed_outlines@.len() && (#[trigger] batch.changed_outlines@[i]).1 is None
                && batch.is_last_changed(i) && !batch.adds_outline(batch.changed_outlines@[i].0)
                ==> !after.contains_key(batch.changed_outlines@[i].0),
        forall|k: u64|
            batch.removes_entity(k) && !batch.changes_outline(k) && !batch.adds_outline(k)
                ==> !#[trigger] after.contains_key(k),
        forall|k: u64|
            !batch.removes_entity(k) && !batch.changes_outline(k) && !batch.adds_outline(k) ==> (
            #[trigger] after.contains_key(k)) == before.contains_key(k),
        forall|k: u64|
            !batch.removes_entity(k) && !batch.changes_outline(k) && !batch.adds_outline(k) && (
            #[trigger] before.contains_key(k)) ==> after[k] == before[k],
        forall|i: int|
            0 <= i < batch.added_meshes@.len() && (#[trigger] batch.added_meshes@[i]).1 is Some && (
            !before.contains_key(batch.added_meshes@[i].0) || before[batch.added_meshes@[i].0].mode
                != (batch.added_meshes@[i].1->0).mode) ==> changes.contains(true),
        forall|i: int|
            0 <= i < batch.changed_outlines@.len() && (#[trigger] batch.changed_outlines@[i]).1 is Some && (
            !before.contains_key(batch.changed_outlines@[i].0) || before[batch.changed_outlines@[i].0].mode
                != (batch.changed_outlines@[i].1->0).mode) ==> changes.contains(true),
        forall|i: int|
            0 <= i < batch.changed_outlines@.len() && (#[trigger] batch.changed_outlines@[i]).1 is None
                && before.contains_key(batch.changed_outlines@[i].0) ==> changes.contains(true),
        forall|k: u64|
            #[trigger] batch.removes_entity(k) && before.contains_key(k) ==> changes.contains(true),
{
    let ops = batch.spec_ops();
    let n = ops.len() as int;
    let ro = batch.removed_outlines@;
    let rm = batch.removed_meshes@;
    let ch = batch.changed_outlines@;
    let ad = batch.added_meshes@;
    let r = ro.len() as int;
    let m = rm.len() as int;
    let c = ch.len() as int;
    lemma_batch_op_at(batch);
    assert forall|i: int|
        0 <= i < ad.len() && (#[trigger] ad[i]).1 is Some && batch.is_last_added(i) implies caches_outline(
        after,
        ad[i].0,
        ad[i].1->0,
        same,
    ) by {
        let k = ad[i].0;
        let t = r + m + c + i;
        assert(ops[t] == added_op(ad[i]));
        assert forall|x: int| t < x < n implies !touches(#[trigger] ops[x], k) by {
            let j = x - r - m - c;
            assert(ops[x] == added_op(ad[j]));
            if ad[j].0 == k {
                assert(ad[j].1 is None);
            }
        }
        lemma_stored_span(before, after, ops, same, states, changes, k, ad[i].1->0, t);
    }
    assert forall|i: int|
        0 <= i < ch.len() && (#[trigger] ch[i]).1 is Some && batch.is_last_changed(i) && !batch.adds_outline(
            ch[i].0,
        ) implies caches_outline(after, ch[i].0, ch[i].1->0, same) by {
        let k = ch[i].0;
        let t = r + m + i;
        assert(ops[t] == changed_op(ch[i]));
        assert forall|x: int| t < x < n implies !touches(#[trigger] ops[x], k) by {
            if x < r + m + c {
                let j = x - r - m;
                assert(ops[x] == changed_op(ch[j]));
                assert(ch[j].0 != k);
            } else {
                let j = x - r - m - c;
                assert(ops[x] == added_op(ad[j]));
                if ad[j].0 == k && ad[j].1 is Some {
                    assert(batch.adds_outline(k));
                }
            }
        }
        lemma_stored_span(before, after, ops, same, states, changes, k, ch[i].1->0, t);
    }
    assert forall|i: int|
        0 <= i < ch.len() && (#[trigger] ch[i]).1 is None && batch.is_last_changed(i) && !batch.adds_outline(
            ch[i].0,
        ) implies !after.contains_key(ch[i].0) by {
        let k = ch[i].0;
        let t = r + m + i;
        assert(ops[t] == changed_op(ch[i]));
        assert(op_step(states[t], states[t + 1], ops[t], changes[t], same));
        assert forall|x: int| t + 1 <= x < n && touches(#[trigger] ops[x], k) implies ops[x] is Remove by {
            if x < r + m + c {
                let j = x - r - m;
                assert(ops[x] == changed_op(ch[j]));
                assert(ch[j].0 != k);
            } else {
                let j = x - r - m - c;
                assert(ops[x] == added_op(ad[j]));
                if ad[j].0 == k && ad[j].1 is Some {
                    assert(batch.adds_outline(k));
                }
            }
        }
        lemma_absent_span(before, after, ops, same, states, changes, k, t + 1, n);
    }
    assert forall|k: u64|
        batch.removes_entity(k) && !batch.changes_outline(k) && !batch.adds_outline(k) implies !#[trigger] after.contains_key(k) by {
        let t = if ro.contains(k) {
            choose|i: int| 0 <= i < ro.len() && ro[i] == k
        } else {
            r + choose|i: int| 0 <= i < rm.len() && rm[i] == k
        };
        assert(ops[t] == CacheOp::<P>::Remove(k));
        assert(op_step(states[t], states[t + 1], ops[t], changes[t], same));
        assert forall|x: int| t + 1 <= x < n && touches(#[trigger] ops[x], k) implies ops[x] is Remove by {
            if r + m <= x < r + m + c {
                let j = x - r - m;
                assert(ops[x] == changed_op(ch[j]));
                if ch[j].0 == k {
                    assert(batch.changes_outline(k));
                }
            } else if x >= r + m + c {
                let j = x - r - m - c;
                assert(ops[x] == added_op(ad[j]));
                if ad[j].0 == k && ad[j].1 is Some {
                    assert(batch.adds_outline(k));
                }
            }
        }
        lemma_absent_span(before, after, ops, same, states, changes, k, t + 1, n);
    }
    assert forall|k: u64|
        !batch.removes_entity(k) && !batch.changes_outline(k) && !batch.adds_outline(k) implies {
            &&& after.contains_key(k) == before.contains_key(k)
            &&& before.contains_key(k) ==> after[k] == before[k]
        } by {
        assert forall|x: int| 0 <= x < n implies !touches(#[trigger] ops[x], k) by {
            if x < r {
                if ro[x] == k {
                    assert(ro.contains(k));
                }
            } else if x < r + m {
                if rm[x - r] == k {
                    assert(rm.contains(k));
                }
            } else if x < r + m + c {
                let j = x - r - m;
                assert(ops[x] == changed_op(ch[j]));
                if ch[j].0 == k {
                    assert(batch.changes_outline(k));
                }
            } else {
                let j = x - r - m - c;
                assert(ops[x] == added_op(ad[j]));
                if ad[j].0 == k && ad[j].1 is Some {
                    assert(batch.adds_outline(k));
                }
            }
        }
        lemma_untouched_span(before, after, ops, same, states, changes, k, 0, n);
    }
    assert forall|i: int|
        0 <= i < ad.len() && (#[trigger] ad[i]).1 is Some && (!before.contains_key(ad[i].0)
            || before[ad[i].0].mode != (ad[i].1->0).mode) implies changes.contains(true) by {
        let t = r + m + c + i;
        assert(ops[t] == added_op(ad[i]));
        lemma_forced_change(before, after, ops, same, states, changes, t);
    }
    assert forall|i: int|
        0 <= i < ch.len() && (#[trigger] ch[i]).1 is Some && (!before.contains_key(ch[i].0)
            || before[ch[i].0].mode != (ch[i].1->0).mode) implies changes.contains(true) by {
        let t = r + m + i;
        assert(ops[t] == changed_op(ch[i]));
        lemma_forced_change(before, after, ops, same, states, changes, t);
    }
    assert forall|i: int|
        0 <= i < ch.len() && (#[trigger] ch[i]).1 is None && before.contains_key(ch[i].0) implies changes.contains(true) by {
        let t = r + m + i;
        assert(ops[t] == changed_op(ch[i]));
        lemma_forced_change(before, after, ops, same, states, changes, t);
    }
    assert forall|k: u64| #[trigger] batch.removes_entity(k) && before.contains_key(k) implies changes.contains(true) by {
        let t = if ro.contains(k) {
            choose|i: int| 0 <= i < ro.len() && ro[i] == k
        } else {
            r + choose|i: int| 0 <= i < rm.len() && rm[i] == k
        };
        assert(ops[t] == CacheOp::<P>::Remove(k));
        lemma_forced_change(before, after, ops, same, states, changes, t);
    }
}

/// Applies one extraction's changes to the outline cache and, when the cache
/// changed, recomputes the recorded methods. Returns whether the cache changed.
///
/// `same` compares the appearance data of two extracted outlines; an outline is
/// only stored again when its mode differs or `same` judges its data different.
pub fn extract_outline_uniforms<P, F: Fn(&P, &P) -> bool>(
    extracted_outlines: &mut ExtractedOutlineUniforms<P>,
    batch: ExtractionBatch<P>,
    same: &F,
) -> (dirty: bool)
    requires
        forall|a: &P, b: &P| #[trigger] same.requires((a, b)),
    ensures
        modes_of(final(extracted_outlines)@) == apply_mode_ops(
            modes_of(old(extracted_outlines)@),
            batch.spec_ops(),
        ),
        forall|k: u64| #[trigger] final(extracted_outlines)@.contains_key(k) ==> {
            ||| old(extracted_outlines)@.contains_key(k) && final(extracted_outlines)@[k] == old(
                extracted_outlines,
            )@[k]
            ||| written_by(batch.spec_ops(), k, final(extracted_outlines)@[k])
        },
        !dirty ==> final(extracted_outlines)@ == old(extracted_outlines)@,
        !dirty ==> final(extracted_outlines).spec_methods() == old(extracted_outlines).spec_methods(),
        exists|states: Seq<Map<u64, ExtractedOutline<P>>>, changes: Seq<bool>|
            is_update_trace(
                old(extracted_outlines)@,
                final(extracted_outlines)@,
                batch.spec_ops(),
                *same,
                states,
                changes,
            ) && dirty == changes.contains(true),
        dirty ==> final(extracted_outlines).wf(),
        old(extracted_outlines).wf() ==> final(extracted_outlines).wf(),
        forall|i: int|
            0 <= i < batch.added_meshes@.len() && (#[trigger] batch.added_meshes@[i]).1 is Some
                && batch.is_last_added(i) ==> caches_outline(
                final(extracted_outlines)@,
                batch.added_meshes@[i].0,
                batch.added_meshes@[i].1->0,
                *same,
            ),
        forall|i: int|
            0 <= i < batch.changed_outlines@.len() && (#[trigger] batch.changed_outlines@[i]).1 is Some
                && batch.is_last_changed(i) && !batch.adds_outline(batch.changed_outlines@[i].0)
                ==> caches_outline(
                final(extracted_outlines)@,
                batch.changed_outlines@[i].0,
                batch.changed_outlines@[i].1->0,
                *same,
            ),
        forall|i: int|
            0 <= i < batch.changed_outlines@.len() && (#[trigger] batch.changed_outlines@[i]).1 is None
                && batch.is_last_changed(i) && !batch.adds_outline(batch.changed_outlines@[i].0)
                ==> !final(extracted_outlines)@.contains_key(batch.changed_outlines@[i].0),
        forall|k: u64|
            batch.removes_entity(k) && !batch.changes_outline(k) && !batch.adds_outline(k)
                ==> !#[trigger] final(extracted_outlines)@.contains_key(k),
        forall|k: u64|
            !batch.removes_entity(k) && !batch.changes_outline(k) && !batch.adds_outline(k) ==> (
            #[trigger] final(extracted_outlines)@.contains_key(k)) == old(extracted_outlines)@.contains_key(k),
        forall|k: u64|
            !batch.removes_entity(k) && !batch.changes_outline(k) && !batch.adds_outline(k) && (
            #[trigger] old(extracted_outlines)@.contains_key(k)) ==> final(extracted_outlines)@[k] == old(
                extracted_outlines,
            )@[k],
        forall|i: int|
            0 <= i < batch.added_meshes@.len() && (#[trigger] batch.added_meshes@[i]).1 is Some && (
            !old(extracted_outlines)@.contains_key(batch.added_meshes@[i].0) || old(
                extracted_outlines,
            )@[batch.added_meshes@[i].0].mode != (batch.added_meshes@[i].1->0).mode) ==> dirty,
        forall|i: int|
            0 <= i < batch.changed_outlines@.len() && (#[trigger] batch.changed_outlines@[i]).1 is Some && (
            !old(extracted_outlines)@.contains_key(batch.changed_outlines@[i].0) || old(
                extracted_outlines,
            )@[batch.changed_outlines@[i].0].mode != (batch.changed_outlines@[i].1->0).mode) ==> dirty,
        forall|i: int|
            0 <= i < batch.changed_outlines@.len() && (#[trigger] batch.changed_outlines@[i]).1 is None
                && old(extracted_outlines)@.contains_key(batch.changed_outlines@[i].0) ==> dirty,
        forall|k: u64|
            #[trigger] batch.removes_entity(k) && old(extracted_outlines)@.contains_key(k) ==> dirty,
{
    let ghost b = batch;
    let ops = batch.into_ops();
    let dirty = extracted_outlines.apply_ops(ops, same);
    proof {
        let (states, changes) = choose|states: Seq<Map<u64, ExtractedOutline<P>>>, changes: Seq<bool>|
            is_update_trace(old(extracted_outlines)@, extracted_outlines@, b.spec_ops(), *same, states, changes)
            && dirty == changes.contains(true);
        lemma_extraction_outcome(b, old(extracted_outlines)@, extracted_outlines@, *same, states, changes);
    }
    if dirty {
        extracted_outlines.recompute_methods();
    }
    dirty
}

/// Copies the methods recorded in the cache into the frame's active modes.
pub fn update_active_outline_modes<P>(
    extracted_outlines: &ExtractedOutlineUniforms<P>,
    active: &mut ActiveOutlineModes,
)
    ensures
        final(active).has_jfa == extracted_outlines.spec_methods().jfa(),
        final(active).has_hull == extracted_outlines.spec_methods().hull(),
{
    let methods = extracted_outlines.methods();
    active.has_jfa = methods.has_jfa();
    active.has_hull = methods.has_hull();
}

} // verus!
