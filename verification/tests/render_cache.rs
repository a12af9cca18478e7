use bevy_liminal::ActiveOutlineMethods;
use bevy_liminal::ActiveOutlineModes;
use bevy_liminal::ExtractedOutline;
use bevy_liminal::ExtractedOutlineUniforms;
use bevy_liminal::ExtractionBatch;
use bevy_liminal::OutlineMethod;
use bevy_liminal::Outline;
use bevy_liminal::extract_outline_uniforms;
use bevy_liminal::extraction_entry;
use bevy_liminal::update_active_outline_modes;

fn eq(a: &f32, b: &f32) -> bool {
    a == b
}

fn outline(mode: OutlineMethod, width: f32) -> ExtractedOutline<f32> {
    ExtractedOutline { mode, data: width }
}

fn empty_batch() -> ExtractionBatch<f32> {
    ExtractionBatch {
        removed_outlines: Vec::new(),
        removed_meshes: Vec::new(),
        changed_outlines: Vec::new(),
        added_meshes: Vec::new(),
    }
}

#[test]
fn new_cache_is_empty() {
    let cache: ExtractedOutlineUniforms<f32> = ExtractedOutlineUniforms::new();
    assert_eq!(cache.methods(), ActiveOutlineMethods::NoOutlines);
    assert!(cache.by_main_entity().is_empty());
    assert!(!cache.contains(7));
}

#[test]
fn upsert_reports_changes() {
    let mut cache = ExtractedOutlineUniforms::new();
    assert!(cache.upsert(1, outline(OutlineMethod::JumpFlood, 4.0), &eq));
    assert!(!cache.upsert(1, outline(OutlineMethod::JumpFlood, 4.0), &eq));
    assert!(cache.upsert(1, outline(OutlineMethod::JumpFlood, 5.0), &eq));
    assert_eq!(cache.get(1).map(|o| o.data), Some(5.0));
    assert!(cache.upsert(1, outline(OutlineMethod::WorldHull, 5.0), &eq));
    assert_eq!(cache.get(1).map(|o| o.mode), Some(OutlineMethod::WorldHull));
}

#[test]
fn upsert_of_nan_data_always_changes() {
    let mut cache = ExtractedOutlineUniforms::new();
    assert!(cache.upsert(3, outline(OutlineMethod::JumpFlood, f32::NAN), &eq));
    assert!(cache.upsert(3, outline(OutlineMethod::JumpFlood, f32::NAN), &eq));
}

#[test]
fn signed_zeros_count_as_the_same() {
    let mut cache = ExtractedOutlineUniforms::new();
    assert!(cache.upsert(3, outline(OutlineMethod::JumpFlood, 0.0), &eq));
    assert!(!cache.upsert(3, outline(OutlineMethod::JumpFlood, -0.0), &eq));
    assert!(cache.get(3).map(|o| o.data.is_sign_positive()).unwrap());
}

#[test]
fn remove_reports_presence() {
    let mut cache = ExtractedOutlineUniforms::new();
    assert!(!cache.remove(9));
    cache.upsert(9, outline(OutlineMethod::ScreenHull, 1.0), &eq);
    assert!(cache.remove(9));
    assert!(!cache.contains(9));
}

#[test]
fn extraction_records_methods() {
    let mut cache = ExtractedOutlineUniforms::new();
    let mut batch = empty_batch();
    batch.changed_outlines.push((1, Some(outline(OutlineMethod::JumpFlood, 4.0))));
    batch.changed_outlines.push((2, Some(outline(OutlineMethod::WorldHull, 0.5))));
    assert!(extract_outline_uniforms(&mut cache, batch, &eq));
    assert_eq!(cache.methods(), ActiveOutlineMethods::JumpFloodAndHull);

    let mut active = ActiveOutlineModes::default();
    update_active_outline_modes(&cache, &mut active);
    assert!(active.has_jfa);
    assert!(active.has_hull);
}

#[test]
fn unchanged_extraction_is_not_dirty() {
    let mut cache = ExtractedOutlineUniforms::new();
    let mut batch = empty_batch();
    batch.changed_outlines.push((1, Some(outline(OutlineMethod::JumpFlood, 4.0))));
    assert!(extract_outline_uniforms(&mut cache, batch, &eq));

    let mut again = empty_batch();
    again.changed_outlines.push((1, Some(outline(OutlineMethod::JumpFlood, 4.0))));
    again.added_meshes.push((1, Some(outline(OutlineMethod::JumpFlood, 4.0))));
    again.removed_meshes.push(42);
    assert!(!extract_outline_uniforms(&mut cache, again, &eq));
    assert_eq!(cache.methods(), ActiveOutlineMethods::JumpFloodOnly);
}

#[test]
fn disabled_outlines_are_removed_when_changed_and_ignored_when_added() {
    let mut cache = ExtractedOutlineUniforms::new();
    let mut batch = empty_batch();
    batch.changed_outlines.push((1, Some(outline(OutlineMethod::WorldHull, 1.0))));
    batch.changed_outlines.push((2, Some(outline(OutlineMethod::JumpFlood, 2.0))));
    extract_outline_uniforms(&mut cache, batch, &eq);

    let mut disable = empty_batch();
    disable.changed_outlines.push((1, None));
    disable.added_meshes.push((2, None));
    assert!(extract_outline_uniforms(&mut cache, disable, &eq));
    assert!(!cache.contains(1));
    assert!(cache.contains(2));
    assert_eq!(cache.methods(), ActiveOutlineMethods::JumpFloodOnly);
}

#[test]
fn removals_come_before_changes() {
    let mut cache = ExtractedOutlineUniforms::new();
    let mut batch = empty_batch();
    batch.changed_outlines.push((5, Some(outline(OutlineMethod::ScreenHull, 1.0))));
    extract_outline_uniforms(&mut cache, batch, &eq);

    // The mesh was removed and the outline changed in the same frame: the change
    // is applied after the removal, so the entity stays cached.
    let mut batch = empty_batch();
    batch.removed_meshes.push(5);
    batch.changed_outlines.push((5, Some(outline(OutlineMethod::JumpFlood, 3.0))));
    assert!(extract_outline_uniforms(&mut cache, batch, &eq));
    assert_eq!(cache.get(5).map(|o| o.mode), Some(OutlineMethod::JumpFlood));
    assert_eq!(cache.methods(), ActiveOutlineMethods::JumpFloodOnly);

    let mut batch = empty_batch();
    batch.removed_outlines.push(5);
    assert!(extract_outline_uniforms(&mut cache, batch, &eq));
    assert_eq!(cache.methods(), ActiveOutlineMethods::NoOutlines);
}

#[test]
fn recorded_methods_ignore_appearance_data() {
    let mut a = ExtractedOutlineUniforms::new();
    let mut b = ExtractedOutlineUniforms::new();
    let mut batch_a = empty_batch();
    batch_a.changed_outlines.push((1, Some(outline(OutlineMethod::ScreenHull, 1.0))));
    let mut batch_b = empty_batch();
    batch_b.changed_outlines.push((1, Some(outline(OutlineMethod::ScreenHull, 9.0))));
    extract_outline_uniforms(&mut a, batch_a, &eq);
    extract_outline_uniforms(&mut b, batch_b, &eq);
    assert_eq!(a.methods(), b.methods());
    assert_eq!(a.methods(), ActiveOutlineMethods::HullOnly);
}

#[test]
fn disabled_outlines_have_no_extraction_entry() {
    let mut hull = Outline::world_hull("red").build();
    let (entity, entry) = extraction_entry(4, &hull, 2.5f32);
    assert_eq!(entity, 4);
    let entry = entry.unwrap();
    assert_eq!(entry.mode, OutlineMethod::WorldHull);
    assert_eq!(entry.data, 2.5);

    hull.enabled = false;
    let (entity, entry) = extraction_entry(4, &hull, 2.5f32);
    assert_eq!(entity, 4);
    assert!(entry.is_none());
}
