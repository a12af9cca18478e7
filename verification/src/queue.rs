use vstd::prelude::*;

use crate::active::ActiveOutlineModes;
use crate::outline_api::OutlineMethod;
use crate::render_cache::ExtractedOutlineUniforms;

verus! {

/// The positions in `s`, in increasing order, of the entities that satisfy `p`.
pub open spec fn positions_where(s: Seq<u64>, p: spec_fn(u64) -> bool) -> Seq<usize>
    decreases s.len(),
{
    if s.len() == 0 {
        Seq::empty()
    } else {
        let r = positions_where(s.drop_last(), p);
        if p(s.last()) {
            r.push((s.len() - 1) as usize)
        } else {
            r
        }
    }
}

/// A position is selected exactly when the entity there satisfies `p`.
pub proof fn lemma_positions_where(s: Seq<u64>, p: spec_fn(u64) -> bool)
    requires
        s.len() <= usize::MAX,
    ensures
        forall|i: usize| #[trigger]
            positions_where(s, p).contains(i) <==> (i < s.len() && p(s[i as int])),
        forall|j: int| 0 <= j < positions_where(s, p).len() ==> #[trigger] positions_where(s, p)[j] < s.len(),
    decreases s.len(),
{
    if s.len() > 0 {
        let t = s.drop_last();
        lemma_positions_where(t, p);
        let r = positions_where(t, p);
        let q = positions_where(s, p);
        if p(s.last()) {
            assert(q == r.push((s.len() - 1) as usize));
        } else {
            assert(q == r);
        }
        assert forall|i: usize| #[trigger] q.contains(i) <==> (i < s.len() && p(s[i as int])) by {
            if q.contains(i) {
                let j = choose|j: int| 0 <= j < q.len() && q[j] == i;
                if p(s.last()) && j == r.len() {
                    assert(i == s.len() - 1);
                } else {
                    assert(q[j] == r[j]);
                    assert(r.contains(i));
                    assert(t[i as int] == s[i as int]);
                }
            }
            if i < s.len() && p(s[i as int]) {
                if i == s.len() - 1 {
                    assert(q[r.len() as int] == i);
                } else {
                    assert(t[i as int] == s[i as int]);
                    assert(r.contains(i));
                    let j = choose|j: int| 0 <= j < r.len() && r[j] == i;
                    assert(q[j] == i);
                }
            }
        }
        assert forall|j: int| 0 <= j < q.len() implies #[trigger] q[j] < s.len() by {
            if j < r.len() {
                assert(q[j] == r[j]);
            }
        }
    }
}

/// The positions of the visible mesh entities that the jump-flood mask phase
/// queues: every entity with a cached outline, whatever its method.
pub fn select_mask_entities<P>(
    extracted_outlines: &ExtractedOutlineUniforms<P>,
    visible: &Vec<u64>,
) -> (selected: Vec<usize>)
    ensures
        selected@ == positions_where(visible@, |e: u64| extracted_outlines@.contains_key(e)),
        forall|i: usize| #[trigger]
            selected@.contains(i) <==> (i < visible.len() && extracted_outlines@.contains_key(
                visible[i as int],
            )),
{
    let ghost p = |e: u64| extracted_outlines@.contains_key(e);
    let mut selected: Vec<usize> = Vec::new();
    for i in 0..visible.len()
        invariant
            selected@ == positions_where(visible@.take(i as int), p),
            forall|e: u64| #[trigger] p(e) == extracted_outlines@.contains_key(e),
    {
        proof {
            assert(visible@.take(i + 1).drop_last() =~= visible@.take(i as int));
            assert(visible@.take(i + 1).last() == visible[i as int]);
        }
        if extracted_outlines.contains(visible[i]) {
            selected.push(i);
        }
    }
    proof {
        assert(visible@.take(visible.len() as int) =~= visible@);
        lemma_positions_where(visible@, p);
    }
    selected
}

/// The positions of the visible mesh entities that the hull phase queues: none
/// when no hull outline is active, otherwise those whose cached outline is a hull.
pub fn select_hull_entities<P>(
    active: &ActiveOutlineModes,
    extracted_outlines: &ExtractedOutlineUniforms<P>,
    visible: &Vec<u64>,
) -> (selected: Vec<usize>)
    ensures
        !active.has_hull ==> selected@.len() == 0,
        active.has_hull ==> selected@ == positions_where(
            visible@,
            |e: u64| extracted_outlines@.contains_key(e) && extracted_outlines@[e].mode.is_hull(),
        ),
        forall|i: usize| #[trigger]
            selected@.contains(i) <==> (active.has_hull && i < visible.len()
                && extracted_outlines@.contains_key(visible[i as int])
                && extracted_outlines@[visible[i as int]].mode.is_hull()),
{
    let mut selected: Vec<usize> = Vec::new();
    if !active.has_hull {
        return selected;
    }
    let ghost p = |e: u64| extracted_outlines@.contains_key(e) && extracted_outlines@[e].mode.is_hull();
    for i in 0..visible.len()
        invariant
            selected@ == positions_where(visible@.take(i as int), p),
            forall|e: u64| #[trigger] p(e) == (extracted_outlines@.contains_key(e)
                && extracted_outlines@[e].mode.is_hull()),
    {
        proof {
            assert(visible@.take(i + 1).drop_last() =~= visible@.take(i as int));
            assert(visible@.take(i + 1).last() == visible[i as int]);
        }
        match extracted_outlines.get(visible[i]) {
            Some(outline) => {
                if matches!(outline.mode, OutlineMethod::WorldHull | OutlineMethod::ScreenHull) {
                    selected.push(i);
                }
            },
            None => {},
        }
    }
    proof {
        assert(visible@.take(visible.len() as int) =~= visible@);
        lemma_positions_where(visible@, p);
    }
    selected
}

} // verus!
