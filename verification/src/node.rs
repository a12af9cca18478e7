use vstd::prelude::*;

verus! {

/// Which compose pipeline variant a view uses.
#[derive(Debug, Clone, Copy, PartialEq, Eq, Structural)]
pub enum ComposeVariant {
    /// Single-sampled, standard dynamic range.
    Standard,
    /// Single-sampled, high dynamic range.
    Hdr,
    /// Multisampled, standard dynamic range.
    Msaa,
    /// Multisampled, high dynamic range.
    MsaaHdr,
}

impl ComposeVariant {
    /// Whether the variant samples multisampled depth textures.
    pub open spec fn spec_is_multisampled(self) -> bool {
        self is Msaa || self is MsaaHdr
    }

    /// Whether the variant writes a high-dynamic-range target.
    pub open spec fn spec_is_hdr(self) -> bool {
        self is Hdr || self is MsaaHdr
    }

    /// The variant for a view with the given MSAA sample count and HDR setting:
    /// multisampled exactly when there is more than one sample.
    pub fn select(msaa_samples: u32, hdr: bool) -> (r: ComposeVariant)
        ensures
            r.spec_is_multisampled() == (msaa_samples > 1),
            r.spec_is_hdr() == hdr,
    {
        match (msaa_samples > 1, hdr) {
            (true, true) => ComposeVariant::MsaaHdr,
            (true, false) => ComposeVariant::Msaa,
            (false, true) => ComposeVariant::Hdr,
            (false, false) => ComposeVariant::Standard,
        }
    }

    /// Returns whether the variant samples multisampled depth textures.
    pub fn is_multisampled(self) -> (r: bool)
        ensures
            r == self.spec_is_multisampled(),
    {
        matches!(self, ComposeVariant::Msaa | ComposeVariant::MsaaHdr)
    }

    /// Returns whether the variant writes a high-dynamic-range target.
    pub fn is_hdr(self) -> (r: bool)
        ensures
            r == self.spec_is_hdr(),
    {
        matches!(self, ComposeVariant::Hdr | ComposeVariant::MsaaHdr)
    }
}

/// What the outline render node does for a view.
#[derive(Debug, Clone, Copy, PartialEq, Eq, Structural)]
pub struct OutlineNodePlan {
    /// Render the jump-flood mask phase into the flood textures.
    pub render_mask_phase: bool,
    /// Render the hull outline phase into the view target.
    pub render_hull_phase: bool,
    /// Run the jump-flood passes and the compose pass.
    pub flood_and_compose: bool,
}

/// Decides what the outline node renders for a view, given whether its jump-flood
/// and hull phases hold any item and whether any jump-flood outline is active.
/// Returns `None` when both phases are empty and the node does nothing.
pub fn plan_outline_node(
    jfa_phase_nonempty: bool,
    hull_phase_nonempty: bool,
    active_has_jfa: bool,
) -> (plan: Option<OutlineNodePlan>)
    ensures
        plan is None <==> !jfa_phase_nonempty && !hull_phase_nonempty,
        plan matches Some(p) ==> {
            &&& p.render_mask_phase == jfa_phase_nonempty
            &&& p.render_hull_phase == hull_phase_nonempty
            &&& p.flood_and_compose == active_has_jfa
        },
{
    if !jfa_phase_nonempty && !hull_phase_nonempty {
        None
    } else {
        Some(
            OutlineNodePlan {
                render_mask_phase: jfa_phase_nonempty,
                render_hull_phase: hull_phase_nonempty,
                flood_and_compose: active_has_jfa,
            },
        )
    }
}

} // verus!
