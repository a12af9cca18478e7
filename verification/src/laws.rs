use vstd::arithmetic::power2::lemma_pow2_unfold;
use vstd::arithmetic::power2::pow2;
use vstd::prelude::*;

use crate::active::ActiveOutlineMethods;
use crate::flood::FloodTextures;
use crate::flood::is_ceil_log2;
use crate::outline_api::Outline;
use crate::outline_api::OutlineMethod;
use crate::outline_api::OverlapMode;
use crate::propagation::HierarchyEntity;
use crate::propagation::TargetRule;
use crate::propagation::lemma_selected_entities;
use crate::propagation::rule_selects;
use crate::propagation::selected_entities;
use crate::render_cache::ExtractedOutline;
use crate::render_cache::modes_of;
use crate::render_cache::summarize;

verus! {

/// The state after recording each method of `methods` in turn, starting from `start`.
pub open spec fn record_all(start: ActiveOutlineMethods, methods: Seq<OutlineMethod>) -> ActiveOutlineMethods
    decreases methods.len(),
{
    if methods.len() == 0 {
        start
    } else {
        record_all(start, methods.drop_last()).record(methods.last())
    }
}

/// The four states are exactly the four combinations of the two flags.
pub proof fn lemma_flags_round_trip(m: ActiveOutlineMethods, jfa: bool, hull: bool)
    ensures
        ActiveOutlineMethods::from_flags(m.jfa(), m.hull()) == m,
        ActiveOutlineMethods::from_flags(jfa, hull).jfa() == jfa,
        ActiveOutlineMethods::from_flags(jfa, hull).hull() == hull,
{
}

/// Recording two methods gives the same state in either order.
pub proof fn lemma_record_commutes(m: ActiveOutlineMethods, a: OutlineMethod, b: OutlineMethod)
    ensures
        m.record(a).record(b) == m.record(b).record(a),
{
}

/// Recording a method a second time changes nothing.
pub proof fn lemma_record_idempotent(m: ActiveOutlineMethods, a: OutlineMethod)
    ensures
        m.record(a).record(a) == m.record(a),
{
}

/// Recording a sequence of methods sets the jump-flood flag exactly when the start
/// had it or the sequence holds a jump-flood method, and the hull flag likewise.
pub proof fn lemma_record_all(start: ActiveOutlineMethods, methods: Seq<OutlineMethod>)
    ensures
        record_all(start, methods) == ActiveOutlineMethods::from_flags(
            start.jfa() || methods.contains(OutlineMethod::JumpFlood),
            start.hull() || exists|i: int| 0 <= i < methods.len() && (#[trigger] methods[i]).is_hull(),
        ),
    decreases methods.len(),
{
    if methods.len() > 0 {
        let t = methods.drop_last();
        lemma_record_all(start, t);
        assert(methods.contains(OutlineMethod::JumpFlood) <==> (t.contains(OutlineMethod::JumpFlood)
            || methods.last() == OutlineMethod::JumpFlood)) by {
            if methods.contains(OutlineMethod::JumpFlood) {
                let i = choose|i: int| 0 <= i < methods.len() && methods[i] == OutlineMethod::JumpFlood;
                if i < t.len() {
                    assert(t[i] == methods[i]);
                }
            }
            if t.contains(OutlineMethod::JumpFlood) {
                let i = choose|i: int| 0 <= i < t.len() && t[i] == OutlineMethod::JumpFlood;
                assert(methods[i] == t[i]);
            }
        }
        assert((exists|i: int| 0 <= i < methods.len() && (#[trigger] methods[i]).is_hull()) <==> (
        (exists|i: int| 0 <= i < t.len() && (#[trigger] t[i]).is_hull()) || methods.last().is_hull()))
            by {
            if exists|i: int| 0 <= i < methods.len() && (#[trigger] methods[i]).is_hull() {
                let i = choose|i: int| 0 <= i < methods.len() && (#[trigger] methods[i]).is_hull();
                if i < t.len() {
                    assert(t[i] == methods[i]);
                }
            }
            if exists|i: int| 0 <= i < t.len() && (#[trigger] t[i]).is_hull() {
                let i = choose|i: int| 0 <= i < t.len() && (#[trigger] t[i]).is_hull();
                assert(methods[i] == t[i]);
            }
        }
    }
}

/// The recorded methods do not depend on the order in which the outlines are
/// visited: two sequences holding the same methods record the same state.
pub proof fn lemma_record_order_independent(
    start: ActiveOutlineMethods,
    a: Seq<OutlineMethod>,
    b: Seq<OutlineMethod>,
)
    requires
        a.to_set() == b.to_set(),
    ensures
        record_all(start, a) == record_all(start, b),
{
    lemma_record_all(start, a);
    lemma_record_all(start, b);
    assert(a.contains(OutlineMethod::JumpFlood) == b.contains(OutlineMethod::JumpFlood)) by {
        assert(a.to_set().contains(OutlineMethod::JumpFlood) == a.contains(OutlineMethod::JumpFlood));
        assert(b.to_set().contains(OutlineMethod::JumpFlood) == b.contains(OutlineMethod::JumpFlood));
    }
    assert((exists|i: int| 0 <= i < a.len() && (#[trigger] a[i]).is_hull()) == (exists|i: int|
        0 <= i < b.len() && (#[trigger] b[i]).is_hull())) by {
        if exists|i: int| 0 <= i < a.len() && (#[trigger] a[i]).is_hull() {
            let i = choose|i: int| 0 <= i < a.len() && (#[trigger] a[i]).is_hull();
            assert(a.to_set().contains(a[i]));
            assert(b.contains(a[i]));
        }
        if exists|i: int| 0 <= i < b.len() && (#[trigger] b[i]).is_hull() {
            let i = choose|i: int| 0 <= i < b.len() && (#[trigger] b[i]).is_hull();
            assert(b.to_set().contains(b[i]));
            assert(a.contains(b[i]));
        }
    }
}

/// The methods recorded for a cache depend only on the modes of its outlines,
/// not on their appearance data.
pub proof fn lemma_summary_depends_on_modes<P>(
    m1: Map<u64, ExtractedOutline<P>>,
    m2: Map<u64, ExtractedOutline<P>>,
)
    requires
        modes_of(m1) == modes_of(m2),
    ensures
        summarize(m1) == summarize(m2),
{
    assert(m1.dom() == modes_of(m1).dom());
    assert(m2.dom() == modes_of(m2).dom());
    assert forall|k: u64| m1.contains_key(k) implies m1[k].mode == #[trigger] m2[k].mode by {
        assert(modes_of(m1)[k] == m1[k].mode);
        assert(modes_of(m2)[k] == m2[k].mode);
    }
}

/// The sum of the step lengths `2^0 + ... + 2^(passes - 1)`.
pub open spec fn total_reach(passes: nat) -> nat
    decreases passes,
{
    if passes == 0 {
        0
    } else {
        total_reach((passes - 1) as nat) + pow2((passes - 1) as nat)
    }
}

/// The step lengths of `passes` passes sum to `2^passes - 1`.
pub proof fn lemma_total_reach(passes: nat)
    ensures
        total_reach(passes) + 1 == pow2(passes),
    decreases passes,
{
    if passes == 0 {
        vstd::arithmetic::power2::lemma2_to64();
    } else {
        lemma_total_reach((passes - 1) as nat);
        lemma_pow2_unfold(passes);
    }
}

/// The jump-flood passes reach the outline: for a doubled width `n`, the largest
/// step is at least `n / 2 + 1` and all steps together span at least `n` pixels.
pub proof fn lemma_flood_reaches_width(n: nat, passes: nat)
    requires
        passes >= 1,
        is_ceil_log2((passes - 1) as nat, n / 2 + 1),
    ensures
        pow2((passes - 1) as nat) >= n / 2 + 1,
        total_reach(passes) >= n,
{
    lemma_total_reach(passes);
    lemma_pow2_unfold(passes);
}

/// The texture state after `flips` flips.
pub open spec fn after_flips<T, D>(t: FloodTextures<T, D>, flips: nat) -> FloodTextures<T, D> {
    FloodTextures { flip: t.flip != (flips % 2 == 1), ..t }
}

/// A flip swaps the ping-pong roles: the next pass reads what the previous pass
/// wrote; two flips restore the textures.
pub proof fn lemma_flip_swaps_roles<T, D>(t: FloodTextures<T, D>)
    ensures
        after_flips(t, 1).spec_input() == t.spec_output(),
        after_flips(t, 1).spec_output() == t.spec_input(),
        after_flips(t, 2) == t,
{
}

/// After the mask pass wrote `output` and `passes >= 1` passes ran, each flipping
/// first, the last pass wrote `output` when `passes` is even and `input` when it
/// is odd.
pub proof fn lemma_last_flood_texture<T, D>(t: FloodTextures<T, D>, passes: nat)
    requires
        !t.flip,
        passes >= 1,
    ensures
        after_flips(t, passes).spec_output() == if passes % 2 == 0 {
            t.output
        } else {
            t.input
        },
{
}

/// Every descendant that receives a propagated copy from `source` is, once it
/// carries that copy, among the descendants whose outline is removed when
/// `source` loses its outline.
pub proof fn lemma_propagated_copy_is_removed(
    source: u64,
    descendants: Seq<HierarchyEntity>,
    after: Seq<HierarchyEntity>,
    i: int,
)
    requires
        0 <= i < descendants.len(),
        descendants.len() == after.len(),
        rule_selects(TargetRule::Receive, descendants[i]),
        after[i] == (HierarchyEntity {
            has_outline: true,
            group_source: Some(source),
            ..descendants[i]
        }),
    ensures
        selected_entities(after, TargetRule::Remove(source)).contains(descendants[i].entity),
{
    lemma_selected_entities(after, TargetRule::Remove(source));
    assert(rule_selects(TargetRule::Remove(source), after[i]));
}

/// Removing the outline of `source` only removes copies propagated from `source`.
pub proof fn lemma_removal_spares_other_sources(source: u64, descendants: Seq<HierarchyEntity>, e: u64)
    requires
        selected_entities(descendants, TargetRule::Remove(source)).contains(e),
    ensures
        exists|i: int|
            0 <= i < descendants.len() && (#[trigger] descendants[i]).entity == e && descendants[i].group_source
                == Some(source) && descendants[i].is_mesh,
{
    lemma_selected_entities(descendants, TargetRule::Remove(source));
}

/// Every descendant that received a copy from `source`, and still carries it and
/// does not opt out, is updated when the outline of `source` changes.
pub proof fn lemma_propagated_copy_is_synced(
    source: u64,
    descendants: Seq<HierarchyEntity>,
    after: Seq<HierarchyEntity>,
    i: int,
)
    requires
        0 <= i < descendants.len(),
        descendants.len() == after.len(),
        rule_selects(TargetRule::Receive, descendants[i]),
        after[i] == (HierarchyEntity {
            has_outline: true,
            group_source: Some(source),
            ..descendants[i]
        }),
    ensures
        selected_entities(after, TargetRule::Sync(source)).contains(descendants[i].entity),
{
    lemma_selected_entities(after, TargetRule::Sync(source));
    assert(rule_selects(TargetRule::Sync(source), after[i]));
}

/// Updating the copies of `source` only overwrites meshes that carry a copy
/// propagated from `source` and do not opt out.
pub proof fn lemma_sync_spares_other_outlines(source: u64, descendants: Seq<HierarchyEntity>, e: u64)
    requires
        selected_entities(descendants, TargetRule::Sync(source)).contains(e),
    ensures
        exists|i: int|
            0 <= i < descendants.len() && (#[trigger] descendants[i]).entity == e && descendants[i].group_source
                == Some(source) && descendants[i].is_mesh && !descendants[i].no_outline,
{
    lemma_selected_entities(descendants, TargetRule::Sync(source));
}

/// A descendant receives a propagated copy exactly when it is a mesh that does not
/// opt out, whatever outline it already carries.
pub proof fn lemma_receivers_are_meshes_not_opted_out(descendants: Seq<HierarchyEntity>, e: u64)
    ensures
        selected_entities(descendants, TargetRule::Receive).contains(e) <==> exists|i: int|
            0 <= i < descendants.len() && (#[trigger] descendants[i]).entity == e
                && descendants[i].is_mesh && !descendants[i].no_outline,
{
    lemma_selected_entities(descendants, TargetRule::Receive);
}

/// A descendant loses its outline when `source` loses its own exactly when it is a
/// mesh whose outline was propagated from `source`, whether or not it opts out.
pub proof fn lemma_removal_targets_are_copies_of_source(
    source: u64,
    descendants: Seq<HierarchyEntity>,
    e: u64,
)
    ensures
        selected_entities(descendants, TargetRule::Remove(source)).contains(e) <==> exists|i: int|
            0 <= i < descendants.len() && (#[trigger] descendants[i]).entity == e
                && descendants[i].is_mesh && descendants[i].has_outline
                && descendants[i].group_source == Some(source),
{
    lemma_selected_entities(descendants, TargetRule::Remove(source));
}

/// A descendant is updated when the outline of `source` changes exactly when it is
/// a mesh that does not opt out and whose outline was propagated from `source`.
pub proof fn lemma_sync_targets_are_copies_not_opted_out(
    source: u64,
    descendants: Seq<HierarchyEntity>,
    e: u64,
)
    ensures
        selected_entities(descendants, TargetRule::Sync(source)).contains(e) <==> exists|i: int|
            0 <= i < descendants.len() && (#[trigger] descendants[i]).entity == e
                && descendants[i].is_mesh && !descendants[i].no_outline
                && descendants[i].has_outline && descendants[i].group_source == Some(source),
{
    lemma_selected_entities(descendants, TargetRule::Sync(source));
}

/// Grouped outlines propagated from the same source, and the source's own grouped
/// outline, share one owner: the source.
pub proof fn lemma_grouped_outlines_share_owner<A>(
    copy: Outline<A>,
    copy_entity: u64,
    source_outline: Outline<A>,
    source: u64,
)
    requires
        copy.overlap == OverlapMode::Grouped,
        copy.group_source == Some(source),
        source_outline.overlap == OverlapMode::Grouped,
        source_outline.group_source is None,
    ensures
        copy.spec_owner_entity(copy_entity) == source,
        source_outline.spec_owner_entity(source) == source,
{
}

/// Per-mesh outlines on different entities have different owners, whatever they
/// were propagated from.
pub proof fn lemma_per_mesh_owners_distinct<A>(o1: Outline<A>, e1: u64, o2: Outline<A>, e2: u64)
    requires
        o1.overlap == OverlapMode::PerMesh,
        o2.overlap == OverlapMode::PerMesh,
        e1 != e2,
    ensures
        o1.spec_owner_entity(e1) != o2.spec_owner_entity(e2),
{
}

} // verus!
