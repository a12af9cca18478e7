use vstd::prelude::*;

use crate::outline_api::LineStyle;
use crate::outline_api::Outline;
use crate::outline_api::OutlineMethod;
use crate::outline_api::OverlapMode;
use crate::private::Sealed;

verus! {

/// Sealed trait implemented by the outline mode type-state markers.
pub trait OutlineModeState: Sealed + Copy {
    /// The outline method this marker stands for.
    spec fn spec_mode() -> OutlineMethod;

    /// Returns the outline method this marker stands for.
    fn mode() -> (m: OutlineMethod)
        ensures
            m == Self::spec_mode(),
    ;

    /// Returns the marker value.
    fn marker() -> Self;
}

/// Marker trait for hull-based outline modes (`WorldHull`, `ScreenHull`).
pub trait HullModeState: OutlineModeState {
    /// The method of a hull marker extrudes a hull.
    proof fn lemma_mode_is_hull()
        ensures
            Self::spec_mode().is_hull(),
    ;
}

/// Type-state marker for the jump-flood outline method.
#[derive(Debug, Clone, Copy)]
pub struct JumpFloodState;

/// Type-state marker for the world-space hull outline method.
#[derive(Debug, Clone, Copy)]
pub struct WorldHullState;

/// Type-state marker for the screen-space hull outline method.
#[derive(Debug, Clone, Copy)]
pub struct ScreenHullState;

impl OutlineModeState for JumpFloodState {
    open spec fn spec_mode() -> OutlineMethod {
        OutlineMethod::JumpFlood
    }

    fn mode() -> (m: OutlineMethod) {
        OutlineMethod::JumpFlood
    }

    fn marker() -> Self {
        JumpFloodState
    }
}

impl OutlineModeState for WorldHullState {
    open spec fn spec_mode() -> OutlineMethod {
        OutlineMethod::WorldHull
    }

    fn mode() -> (m: OutlineMethod) {
        OutlineMethod::WorldHull
    }

    fn marker() -> Self {
        WorldHullState
    }
}

impl OutlineModeState for ScreenHullState {
    open spec fn spec_mode() -> OutlineMethod {
        OutlineMethod::ScreenHull
    }

    fn mode() -> (m: OutlineMethod) {
        OutlineMethod::ScreenHull
    }

    fn marker() -> Self {
        ScreenHullState
    }
}

impl HullModeState for WorldHullState {
    proof fn lemma_mode_is_hull() {
    }
}

impl HullModeState for ScreenHullState {
    proof fn lemma_mode_is_hull() {
    }
}

/// Type-safe builder for an `Outline`: the marker `M` fixes the outline method,
/// and overlap can only be chosen for hull methods.
#[derive(Debug, Clone)]
pub struct OutlineBuilder<M: OutlineModeState, A> {
    appearance: A,
    overlap: OverlapMode,
    state: M,
}

impl<M: OutlineModeState, A> OutlineBuilder<M, A> {
    /// The appearance the builder carries.
    pub closed spec fn spec_appearance(&self) -> A {
        self.appearance
    }

    /// The overlap mode the builder will use for hull methods.
    pub closed spec fn spec_overlap(&self) -> OverlapMode {
        self.overlap
    }

    /// A builder with the given appearance and the default overlap mode (`Merged`).
    fn defaults(appearance: A) -> (r: Self)
        ensures
            r.spec_appearance() == appearance,
            r.spec_overlap() == OverlapMode::Merged,
    {
        OutlineBuilder { appearance, overlap: OverlapMode::Merged, state: M::marker() }
    }

    /// Returns the width, intensity and color of the outline being built.
    pub fn appearance(&self) -> (r: &A)
        ensures
            *r == self.spec_appearance(),
    {
        &self.appearance
    }

    /// Returns the builder with its appearance replaced.
    pub fn with_appearance(self, appearance: A) -> (r: Self)
        ensures
            r.spec_appearance() == appearance,
            r.spec_overlap() == self.spec_overlap(),
    {
        OutlineBuilder { appearance, overlap: self.overlap, state: self.state }
    }
}

impl<A> OutlineBuilder<JumpFloodState, A> {
    /// Creates a jump-flood outline builder.
    pub fn jump_flood(appearance: A) -> (r: Self)
        ensures
            r.spec_appearance() == appearance,
            r.spec_overlap() == OverlapMode::Merged,
    {
        Self::defaults(appearance)
    }

    /// Consumes the builder and produces an enabled, solid, unpropagated
    /// jump-flood outline with merged overlap.
    pub fn build(self) -> (r: Outline<A>)
        ensures
            r.appearance == self.spec_appearance(),
            r.mode == OutlineMethod::JumpFlood,
            r.overlap == OverlapMode::Merged,
            r.style == LineStyle::Solid,
            r.enabled,
            r.group_source is None,
    {
        Outline {
            appearance: self.appearance,
            mode: OutlineMethod::JumpFlood,
            overlap: OverlapMode::Merged,
            style: LineStyle::Solid,
            enabled: true,
            group_source: None,
        }
    }
}

impl<A> OutlineBuilder<WorldHullState, A> {
    /// Creates a world-space hull outline builder.
    pub fn world_hull(appearance: A) -> (r: Self)
        ensures
            r.spec_appearance() == appearance,
            r.spec_overlap() == OverlapMode::Merged,
    {
        Self::defaults(appearance)
    }
}

impl<A> OutlineBuilder<ScreenHullState, A> {
    /// Creates a screen-space hull outline builder.
    pub fn screen_hull(appearance: A) -> (r: Self)
        ensures
            r.spec_appearance() == appearance,
            r.spec_overlap() == OverlapMode::Merged,
    {
        Self::defaults(appearance)
    }
}

impl<M: HullModeState, A> OutlineBuilder<M, A> {
    /// Sets the overlap mode for hull outlines.
    pub fn with_overlap(self, overlap: OverlapMode) -> (r: Self)
        ensures
            r.spec_appearance() == self.spec_appearance(),
            r.spec_overlap() == overlap,
    {
        OutlineBuilder { appearance: self.appearance, overlap, state: self.state }
    }

    /// Consumes the builder and produces an enabled, solid, unpropagated hull
    /// outline of the marker's method with the chosen overlap mode.
    pub fn build(self) -> (r: Outline<A>)
        ensures
            r.appearance == self.spec_appearance(),
            r.mode == M::spec_mode(),
            r.mode.is_hull(),
            r.overlap == self.spec_overlap(),
            r.style == LineStyle::Solid,
            r.enabled,
            r.group_source is None,
    {
        proof {
            M::lemma_mode_is_hull();
        }
        Outline {
            appearance: self.appearance,
            mode: M::mode(),
            overlap: self.overlap,
            style: LineStyle::Solid,
            enabled: true,
            group_source: None,
        }
    }
}

impl<A> Outline<A> {
    /// Creates a jump-flood outline builder.
    pub fn jump_flood(appearance: A) -> (r: OutlineBuilder<JumpFloodState, A>)
        ensures
            r.spec_appearance() == appearance,
            r.spec_overlap() == OverlapMode::Merged,
    {
        OutlineBuilder::<JumpFloodState, A>::jump_flood(appearance)
    }

    /// Creates a screen-space hull outline builder.
    pub fn screen_hull(appearance: A) -> (r: OutlineBuilder<ScreenHullState, A>)
        ensures
            r.spec_appearance() == appearance,
            r.spec_overlap() == OverlapMode::Merged,
    {
        OutlineBuilder::<ScreenHullState, A>::screen_hull(appearance)
    }

    /// Creates a world-space hull outline builder.
    pub fn world_hull(appearance: A) -> (r: OutlineBuilder<WorldHullState, A>)
        ensures
            r.spec_appearance() == appearance,
            r.spec_overlap() == OverlapMode::Merged,
    {
        OutlineBuilder::<WorldHullState, A>::world_hull(appearance)
    }
}

} // verus!
