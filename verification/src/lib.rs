//! Verified core of a mesh-outline renderer: the outline configuration model, the
//! type-state outline builder, the render-world outline cache, outline propagation
//! through entity hierarchies, and the jump-flood pass planning.

mod active;
mod batching;
mod flood;
pub mod laws;
mod node;
mod outline_api;
mod outline_builder;
mod private;
mod propagation;
mod queue;
mod render_cache;

pub use active::ActiveOutlineMethods;
pub use active::ActiveOutlineModes;
pub use batching::IndirectParametersBuffer;
pub use batching::IndirectParametersMetadata;
pub use batching::indirect_parameters_metadata;
pub use flood::FloodTextures;
pub use flood::allocates_owner_texture;
pub use flood::JUMP_FLOOD_STEP_TABLE_LEN;
pub use flood::jump_flood_pass_count;
pub use flood::jump_flood_pass_sizes;
pub use flood::jump_flood_step_lengths;
pub use node::ComposeVariant;
pub use node::OutlineNodePlan;
pub use node::plan_outline_node;
pub use outline_api::LineStyle;
pub use outline_api::Outline;
pub use outline_api::OutlineActivity;
pub use outline_api::OutlineMethod;
pub use outline_api::OverlapMode;
pub use outline_builder::HullModeState;
pub use outline_builder::JumpFloodState;
pub use outline_builder::OutlineBuilder;
pub use outline_builder::OutlineModeState;
pub use outline_builder::ScreenHullState;
pub use outline_builder::WorldHullState;
pub use propagation::HierarchyEntity;
pub use propagation::TargetRule;
pub use propagation::find_inherited_outline;
pub use propagation::inherits_on_child_added;
pub use propagation::inherits_on_mesh_added;
pub use propagation::propagation_targets;
pub use propagation::removal_targets;
pub use propagation::sync_targets;
pub use queue::select_hull_entities;
pub use queue::select_mask_entities;
pub use render_cache::CacheOp;
pub use render_cache::ExtractedOutline;
pub use render_cache::ExtractedOutlineUniforms;
pub use render_cache::ExtractionBatch;
pub use render_cache::extract_outline_uniforms;
pub use render_cache::extraction_entry;
pub use render_cache::lemma_extraction_outcome;
pub use render_cache::update_active_outline_modes;
