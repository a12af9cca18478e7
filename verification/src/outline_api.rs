use vstd::prelude::*;

verus! {

/// Which outline algorithm to use.
///
/// - `JumpFlood`: screen-space silhouette expansion; works on all geometry, width in pixels.
/// - `WorldHull`: vertex extrusion with a world-unit width that scales with distance.
/// - `ScreenHull`: vertex extrusion with a pixel width that stays constant on screen.
#[derive(Debug, Clone, Copy, PartialEq, Eq, Structural, Default)]
pub enum OutlineMethod {
    /// Screen-space silhouette expansion via the jump-flood algorithm.
    #[default]
    JumpFlood,
    /// Vertex extrusion with world-unit width.
    WorldHull,
    /// Vertex extrusion with pixel-unit width.
    ScreenHull,
}

impl OutlineMethod {
    /// Whether this method extrudes a hull (either world- or screen-space).
    pub open spec fn is_hull(self) -> bool {
        self is WorldHull || self is ScreenHull
    }
}

/// How overlapping outlines from different entities interact.
///
/// Only hull methods honour this setting; jump-flood outlines always merge.
#[derive(Debug, Clone, Copy, PartialEq, Eq, Structural, Default)]
pub enum OverlapMode {
    /// Overlapping outlines merge into one shared silhouette.
    #[default]
    Merged,
    /// Meshes of the same group merge, but stay distinct from other groups.
    Grouped,
    /// Every individual mesh gets its own outline boundary.
    PerMesh,
}

/// Visual style of the outline stroke.
#[derive(Debug, Clone, Copy, PartialEq, Eq, Structural, Default)]
pub enum LineStyle {
    /// A continuous solid stroke.
    #[default]
    Solid,
}

/// Whether an outline is active without removing it.
#[derive(Debug, Clone, Copy, PartialEq, Eq, Structural, Default)]
pub enum OutlineActivity {
    /// The outline participates in extraction and rendering.
    #[default]
    Enabled,
    /// The outline is present but skipped during extraction.
    Disabled,
}

impl OutlineActivity {
    /// Returns whether the outline participates in extraction and rendering.
    pub fn is_enabled(self) -> (r: bool)
        ensures
            r <==> self is Enabled,
    {
        matches!(self, OutlineActivity::Enabled)
    }
}

/// An outline attached to a mesh entity.
///
/// `A` carries the outline's appearance (width, intensity, color), which the
/// configuration logic never inspects. Entities are identified by their 64-bit ids.
#[derive(Debug, Clone)]
pub struct Outline<A> {
    /// Width, intensity and color of the outline.
    pub appearance: A,
    /// Which algorithm to use.
    pub mode: OutlineMethod,
    /// How overlapping outlines from different entities interact.
    pub overlap: OverlapMode,
    /// Line style.
    pub style: LineStyle,
    /// When `false`, extraction skips this outline without removing it.
    pub enabled: bool,
    /// Set by propagation: the entity whose outline this one was copied from.
    pub group_source: Option<u64>,
}

impl<A> Outline<A> {
    /// The entity whose id identifies this outline for overlap resolution, when the
    /// outline sits on `entity`: for `Grouped` outlines the propagation source (or
    /// `entity` itself when the outline was not propagated), otherwise `entity`.
    pub open spec fn spec_owner_entity(&self, entity: u64) -> u64 {
        match self.overlap {
            OverlapMode::Grouped => match self.group_source {
                Some(source) => source,
                None => entity,
            },
            _ => entity,
        }
    }

    /// Returns the entity whose id identifies this outline, sitting on `entity`,
    /// for overlap resolution.
    pub fn owner_entity(&self, entity: u64) -> (r: u64)
        ensures
            r == self.spec_owner_entity(entity),
    {
        match self.overlap {
            OverlapMode::Grouped => match self.group_source {
                Some(source) => source,
                None => entity,
            },
            _ => entity,
        }
    }
}

} // verus!
