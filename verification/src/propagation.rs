use vstd::prelude::*;

use crate::outline_api::Outline;

verus! {

/// What outline propagation reads of an entity in the hierarchy.
#[derive(Debug, Clone, Copy, PartialEq, Eq)]
pub struct HierarchyEntity {
    /// The entity's id.
    pub entity: u64,
    /// Whether the entity has a mesh.
    pub is_mesh: bool,
    /// Whether the entity opts out of outline propagation.
    pub no_outline: bool,
    /// Whether the entity has an outline.
    pub has_outline: bool,
    /// The propagation source recorded in the entity's outline, if it has one.
    pub group_source: Option<u64>,
}

/// Which descendants a propagation step acts on.
#[derive(Debug, Clone, Copy, PartialEq, Eq)]
pub enum TargetRule {
    /// Meshes that do not opt out receive a propagated copy.
    Receive,
    /// Meshes carrying a copy propagated from the given source lose it.
    Remove(u64),
    /// Meshes that do not opt out and carry a copy propagated from the given source
    /// are overwritten with a fresh copy.
    Sync(u64),
}

/// Whether `rule` selects `d`.
pub open spec fn rule_selects(rule: TargetRule, d: HierarchyEntity) -> bool {
    match rule {
        TargetRule::Receive => d.is_mesh && !d.no_outline,
        TargetRule::Remove(source) => d.is_mesh && d.has_outline && d.group_source == Some(source),
        TargetRule::Sync(source) => d.is_mesh && !d.no_outline && d.has_outline && d.group_source
            == Some(source),
    }
}

/// The ids, in order, of the entities of `s` that `rule` selects.
pub open spec fn selected_entities(s: Seq<HierarchyEntity>, rule: TargetRule) -> Seq<u64>
    decreases s.len(),
{
    if s.len() == 0 {
        Seq::empty()
    } else {
        let r = selected_entities(s.drop_last(), rule);
        if rule_selects(rule, s.last()) {
            r.push(s.last().entity)
        } else {
            r
        }
    }
}

/// An id is selected exactly when some entity of `s` with that id is selected.
pub proof fn lemma_selected_entities(s: Seq<HierarchyEntity>, rule: TargetRule)
    ensures
        forall|e: u64| #[trigger]
            selected_entities(s, rule).contains(e) <==> exists|i: int|
                0 <= i < s.len() && s[i].entity == e && rule_selects(rule, s[i]),
    decreases s.len(),
{
    if s.len() > 0 {
        let t = s.drop_last();
        lemma_selected_entities(t, rule);
        let r = selected_entities(t, rule);
        let q = selected_entities(s, rule);
        if rule_selects(rule, s.last()) {
            assert(q == r.push(s.last().entity));
        } else {
            assert(q == r);
        }
        assert forall|e: u64| #[trigger] q.contains(e) <==> exists|i: int|
            0 <= i < s.len() && s[i].entity == e && rule_selects(rule, s[i]) by {
            if q.contains(e) {
                let j = choose|j: int| 0 <= j < q.len() && q[j] == e;
                if rule_selects(rule, s.last()) && j == r.len() {
                    assert(s[s.len() - 1] == s.last());
                } else {
                    assert(q[j] == r[j]);
                    assert(r.contains(e));
                    let i = choose|i: int| 0 <= i < t.len() && t[i].entity == e && rule_selects(rule, t[i]);
                    assert(s[i] == t[i]);
                }
            }
            if exists|i: int| 0 <= i < s.len() && s[i].entity == e && rule_selects(rule, s[i]) {
                let i = choose|i: int| 0 <= i < s.len() && s[i].entity == e && rule_selects(rule, s[i]);
                if i == s.len() - 1 {
                    assert(q[r.len() as int] == e);
                } else {
                    assert(t[i] == s[i]);
                    assert(r.contains(e));
                    let j = choose|j: int| 0 <= j < r.len() && r[j] == e;
                    assert(q[j] == e);
                }
            }
        }
    }
}

/// Returns the ids, in order, of the descendants that `rule` selects.
fn select_targets(descendants: &Vec<HierarchyEntity>, rule: TargetRule) -> (targets: Vec<u64>)
    ensures
        targets@ == selected_entities(descendants@, rule),
{
    let mut targets: Vec<u64> = Vec::new();
    for i in 0..descendants.len()
        invariant
            targets@ == selected_entities(descendants@.take(i as int), rule),
    {
        proof {
            assert(descendants@.take(i + 1).drop_last() =~= descendants@.take(i as int));
            assert(descendants@.take(i + 1).last() == descendants[i as int]);
        }
        let d = descendants[i];
        let selected = match rule {
            TargetRule::Receive => d.is_mesh && !d.no_outline,
            TargetRule::Remove(source) => d.is_mesh && d.has_outline && match d.group_source {
                Some(g) => g == source,
                None => false,
            },
            TargetRule::Sync(source) => d.is_mesh && !d.no_outline && d.has_outline
                && match d.group_source {
                Some(g) => g == source,
                None => false,
            },
        };
        if selected {
            targets.push(d.entity);
        }
    }
    proof {
        assert(descendants@.take(descendants.len() as int) =~= descendants@);
    }
    targets
}

impl<A: Clone> Outline<A> {
    /// A copy of this outline recording `source` as the entity it was propagated from.
    pub fn propagated_from(&self, source: u64) -> (r: Outline<A>)
        ensures
            cloned(self.appearance, r.appearance),
            r.mode == self.mode,
            r.overlap == self.overlap,
            r.style == self.style,
            r.enabled == self.enabled,
            r.group_source == Some(source),
    {
        Outline {
            appearance: self.appearance.clone(),
            mode: self.mode,
            overlap: self.overlap,
            style: self.style,
            enabled: self.enabled,
            group_source: Some(source),
        }
    }
}

/// The descendants that receive a copy when `source_outline` is added to an entity
/// (or the entity's scene becomes ready): none when the outline was itself
/// propagated, otherwise every mesh descendant that does not opt out.
pub fn propagation_targets<A>(source_outline: &Outline<A>, descendants: &Vec<HierarchyEntity>) -> (targets: Vec<u64>)
    ensures
        source_outline.group_source is Some ==> targets@.len() == 0,
        source_outline.group_source is None ==> targets@ == selected_entities(
            descendants@,
            TargetRule::Receive,
        ),
        source_outline.group_source is None ==> forall|e: u64| #[trigger]
            targets@.contains(e) <==> exists|i: int|
                0 <= i < descendants.len() && (#[trigger] descendants[i]).entity == e
                    && descendants[i].is_mesh && !descendants[i].no_outline,
{
    if source_outline.group_source.is_some() {
        Vec::new()
    } else {
        proof {
            lemma_selected_entities(descendants@, TargetRule::Receive);
        }
        select_targets(descendants, TargetRule::Receive)
    }
}

/// The descendants whose outline is removed when `source` loses its outline:
/// exactly the mesh descendants carrying a copy propagated from `source`.
pub fn removal_targets(source: u64, descendants: &Vec<HierarchyEntity>) -> (targets: Vec<u64>)
    ensures
        targets@ == selected_entities(descendants@, TargetRule::Remove(source)),
        forall|e: u64| #[trigger]
            targets@.contains(e) <==> exists|i: int|
                0 <= i < descendants.len() && (#[trigger] descendants[i]).entity == e
                    && descendants[i].is_mesh && descendants[i].has_outline
                    && descendants[i].group_source == Some(source),
{
    proof {
        lemma_selected_entities(descendants@, TargetRule::Remove(source));
    }
    select_targets(descendants, TargetRule::Remove(source))
}

/// The descendants updated when the outline `source_outline` of `source` changes:
/// none when that outline was itself propagated, otherwise every mesh descendant
/// that does not opt out and carries a copy propagated from `source`.
pub fn sync_targets<A>(
    source: u64,
    source_outline: &Outline<A>,
    descendants: &Vec<HierarchyEntity>,
) -> (targets: Vec<u64>)
    ensures
        source_outline.group_source is Some ==> targets@.len() == 0,
        source_outline.group_source is None ==> targets@ == selected_entities(
            descendants@,
            TargetRule::Sync(source),
        ),
        source_outline.group_source is None ==> forall|e: u64| #[trigger]
            targets@.contains(e) <==> exists|i: int|
                0 <= i < descendants.len() && (#[trigger] descendants[i]).entity == e
                    && descendants[i].is_mesh && !descendants[i].no_outline
                    && descendants[i].has_outline && descendants[i].group_source == Some(source),
{
    if source_outline.group_source.is_some() {
        Vec::new()
    } else {
        proof {
            lemma_selected_entities(descendants@, TargetRule::Sync(source));
        }
        select_targets(descendants, TargetRule::Sync(source))
    }
}

/// Whether a child that was just attached to a parent inherits an ancestor's
/// outline: it must be a mesh that does not opt out.
pub fn inherits_on_child_added(child: &HierarchyEntity) -> (r: bool)
    ensures
        r == (child.is_mesh && !child.no_outline),
{
    child.is_mesh && !child.no_outline
}

/// Whether an entity that just received a mesh inherits an ancestor's outline:
/// it must not opt out and must not have an outline already.
pub fn inherits_on_mesh_added(child: &HierarchyEntity) -> (r: bool)
    ensures
        r == (!child.no_outline && !child.has_outline),
{
    !child.no_outline && !child.has_outline
}

/// The source recorded by a copy of the outline of `ancestor`: the ancestor's own
/// source when its outline was propagated, otherwise the ancestor itself.
pub open spec fn inherited_source(ancestor: HierarchyEntity) -> u64 {
    match ancestor.group_source {
        Some(g) => g,
        None => ancestor.entity,
    }
}

/// Walks the ancestors (parent first) to the nearest one with an outline; returns
/// its position and the source a copy of its outline records.
pub fn find_inherited_outline(ancestors: &Vec<HierarchyEntity>) -> (r: Option<(usize, u64)>)
    ensures
        r is None ==> forall|i: int| 0 <= i < ancestors.len() ==> !(#[trigger] ancestors[i]).has_outline,
        r matches Some((i, source)) ==> {
            &&& i < ancestors.len()
            &&& ancestors[i as int].has_outline
            &&& forall|j: int| 0 <= j < i ==> !(#[trigger] ancestors[j]).has_outline
            &&& source == inherited_source(ancestors[i as int])
        },
{
    for i in 0..ancestors.len()
        invariant
            forall|j: int| 0 <= j < i ==> !(#[trigger] ancestors[j]).has_outline,
    {
        let a = ancestors[i];
        if a.has_outline {
            let source = match a.group_source {
                Some(g) => g,
                None => a.entity,
            };
            return Some((i, source));
        }
    }
    None
}

} // verus!
