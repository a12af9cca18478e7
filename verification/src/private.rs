use vstd::prelude::*;

use crate::outline_builder::JumpFloodState;
use crate::outline_builder::ScreenHullState;
use crate::outline_builder::WorldHullState;

verus! {

/// Restricts the outline mode traits to the three mode markers of this crate.
pub trait Sealed {}

impl Sealed for JumpFloodState {}

impl Sealed for WorldHullState {}

impl Sealed for ScreenHullState {}

} // verus!
