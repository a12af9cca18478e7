use vstd::prelude::*;

use crate::outline_api::OutlineMethod;

verus! {

/// Which outline methods are present, as one of four states.
#[derive(Debug, Clone, Copy, PartialEq, Eq, Structural, Default)]
pub enum ActiveOutlineMethods {
    /// No outline is present.
    #[default]
    NoOutlines,
    /// Only jump-flood outlines are present.
    JumpFloodOnly,
    /// Only hull outlines are present.
    HullOnly,
    /// Both jump-flood and hull outlines are present.
    JumpFloodAndHull,
}

impl ActiveOutlineMethods {
    /// Whether jump-flood outlines are present.
    pub open spec fn jfa(self) -> bool {
        self is JumpFloodOnly || self is JumpFloodAndHull
    }

    /// Whether hull outlines are present.
    pub open spec fn hull(self) -> bool {
        self is HullOnly || self is JumpFloodAndHull
    }

    /// The state that has exactly the given two flags.
    pub open spec fn from_flags(jfa: bool, hull: bool) -> ActiveOutlineMethods {
        if jfa && hull {
            ActiveOutlineMethods::JumpFloodAndHull
        } else if jfa {
            ActiveOutlineMethods::JumpFloodOnly
        } else if hull {
            ActiveOutlineMethods::HullOnly
        } else {
            ActiveOutlineMethods::NoOutlines
        }
    }

    /// The state after also recording an outline of `method`.
    pub open spec fn record(self, method: OutlineMethod) -> ActiveOutlineMethods {
        ActiveOutlineMethods::from_flags(
            self.jfa() || method == OutlineMethod::JumpFlood,
            self.hull() || method.is_hull(),
        )
    }

    /// Returns whether jump-flood outlines are present.
    pub fn has_jfa(self) -> (r: bool)
        ensures
            r == self.jfa(),
    {
        matches!(self, ActiveOutlineMethods::JumpFloodOnly | ActiveOutlineMethods::JumpFloodAndHull)
    }

    /// Returns whether hull outlines are present.
    pub fn has_hull(self) -> (r: bool)
        ensures
            r == self.hull(),
    {
        matches!(self, ActiveOutlineMethods::HullOnly | ActiveOutlineMethods::JumpFloodAndHull)
    }

    /// Returns the state after also recording an outline of the given method.
    pub fn with_outline_method(self, method: OutlineMethod) -> (r: ActiveOutlineMethods)
        ensures
            r == self.record(method),
    {
        let includes_jfa = self.has_jfa() || matches!(method, OutlineMethod::JumpFlood);
        let includes_hull = self.has_hull() || matches!(
            method,
            OutlineMethod::WorldHull | OutlineMethod::ScreenHull
        );
        match (includes_jfa, includes_hull) {
            (false, false) => ActiveOutlineMethods::NoOutlines,
            (true, false) => ActiveOutlineMethods::JumpFloodOnly,
            (false, true) => ActiveOutlineMethods::HullOnly,
            (true, true) => ActiveOutlineMethods::JumpFloodAndHull,
        }
    }
}

/// Tracks which outline infrastructure is needed this frame.
#[derive(Debug, Clone, Copy, PartialEq, Eq, Structural, Default)]
pub struct ActiveOutlineModes {
    /// Whether any entity requires jump-flood outlines.
    pub has_jfa: bool,
    /// Whether any entity requires hull-extrusion outlines.
    pub has_hull: bool,
}

} // verus!
