use bevy_liminal::ActiveOutlineModes;
use bevy_liminal::ExtractedOutline;
use bevy_liminal::ExtractedOutlineUniforms;
use bevy_liminal::HierarchyEntity;
use bevy_liminal::Outline;
use bevy_liminal::OutlineMethod;
use bevy_liminal::OverlapMode;
use bevy_liminal::find_inherited_outline;
use bevy_liminal::inherits_on_child_added;
use bevy_liminal::inherits_on_mesh_added;
use bevy_liminal::propagation_targets;
use bevy_liminal::removal_targets;
use bevy_liminal::select_hull_entities;
use bevy_liminal::select_mask_entities;
use bevy_liminal::sync_targets;

fn node(entity: u64) -> HierarchyEntity {
    HierarchyEntity {
        entity,
        is_mesh: true,
        no_outline: false,
        has_outline: false,
        group_source: None,
    }
}

fn source_outline(overlap: OverlapMode) -> Outline<&'static str> {
    Outline::world_hull("blue").with_overlap(overlap).build()
}

#[test]
fn propagation_skips_opt_outs_and_non_meshes() {
    let mut not_mesh = node(2);
    not_mesh.is_mesh = false;
    let mut opted_out = node(3);
    opted_out.no_outline = true;
    let descendants = vec![node(1), not_mesh, opted_out, node(4)];
    let targets = propagation_targets(&source_outline(OverlapMode::Merged), &descendants);
    assert_eq!(targets, vec![1, 4]);
}

#[test]
fn propagated_outlines_do_not_propagate_again() {
    let copy = source_outline(OverlapMode::Merged).propagated_from(10);
    assert_eq!(copy.group_source, Some(10));
    assert_eq!(copy.appearance, "blue");
    assert_eq!(copy.mode, OutlineMethod::WorldHull);
    assert!(propagation_targets(&copy, &vec![node(1)]).is_empty());
    let mut carrying = node(1);
    carrying.has_outline = true;
    carrying.group_source = Some(1);
    assert!(sync_targets(1, &copy, &vec![carrying]).is_empty());
}

#[test]
fn removal_only_takes_copies_from_the_source() {
    let mut from_source = node(1);
    from_source.has_outline = true;
    from_source.group_source = Some(10);
    let mut from_other = node(2);
    from_other.has_outline = true;
    from_other.group_source = Some(11);
    let mut own = node(3);
    own.has_outline = true;
    let descendants = vec![from_source, from_other, own, node(4)];
    assert_eq!(removal_targets(10, &descendants), vec![1]);
}

#[test]
fn propagate_then_remove_round_trip() {
    let descendants = vec![node(1), node(2)];
    let targets = propagation_targets(&source_outline(OverlapMode::Grouped), &descendants);
    let after: Vec<HierarchyEntity> = descendants
        .iter()
        .map(|d| HierarchyEntity { has_outline: true, group_source: Some(10), ..*d })
        .collect();
    assert_eq!(removal_targets(10, &after), targets);
}

#[test]
fn sync_updates_exactly_the_copies_from_the_source() {
    let mut copy = node(1);
    copy.has_outline = true;
    copy.group_source = Some(10);
    // A copy on a mesh that has child nodes is updated as well.
    let mut copy_with_children = node(2);
    copy_with_children.has_outline = true;
    copy_with_children.group_source = Some(10);
    let mut other_source = node(3);
    other_source.has_outline = true;
    other_source.group_source = Some(11);
    let mut own = node(4);
    own.has_outline = true;
    let mut opted_out = node(5);
    opted_out.has_outline = true;
    opted_out.group_source = Some(10);
    opted_out.no_outline = true;
    let descendants = vec![copy, copy_with_children, other_source, own, opted_out, node(6)];
    assert_eq!(
        sync_targets(10, &source_outline(OverlapMode::Merged), &descendants),
        vec![1, 2]
    );
}

#[test]
fn propagate_then_sync_round_trip() {
    let descendants = vec![node(1), node(2)];
    let targets = propagation_targets(&source_outline(OverlapMode::Merged), &descendants);
    let after: Vec<HierarchyEntity> = descendants
        .iter()
        .map(|d| HierarchyEntity { has_outline: true, group_source: Some(10), ..*d })
        .collect();
    assert_eq!(sync_targets(10, &source_outline(OverlapMode::Merged), &after), targets);
}

#[test]
fn inheritance_eligibility() {
    let mut child = node(1);
    assert!(inherits_on_child_added(&child));
    assert!(inherits_on_mesh_added(&child));
    child.has_outline = true;
    assert!(inherits_on_child_added(&child));
    assert!(!inherits_on_mesh_added(&child));
    child.no_outline = true;
    assert!(!inherits_on_child_added(&child));
    child.is_mesh = false;
    child.no_outline = false;
    assert!(!inherits_on_child_added(&child));
}

#[test]
fn nearest_outlined_ancestor_gives_the_source() {
    let mut grandparent = node(20);
    grandparent.has_outline = true;
    let ancestors = vec![node(10), grandparent];
    assert_eq!(find_inherited_outline(&ancestors), Some((1, 20)));

    let mut parent = node(10);
    parent.has_outline = true;
    parent.group_source = Some(30);
    let ancestors = vec![parent, grandparent];
    assert_eq!(find_inherited_outline(&ancestors), Some((0, 30)));

    assert_eq!(find_inherited_outline(&vec![node(1), node(2)]), None);
}

#[test]
fn owners_follow_overlap_mode() {
    let grouped_copy = source_outline(OverlapMode::Grouped).propagated_from(10);
    assert_eq!(grouped_copy.owner_entity(5), 10);
    assert_eq!(source_outline(OverlapMode::Grouped).owner_entity(10), 10);
    let per_mesh_copy = source_outline(OverlapMode::PerMesh).propagated_from(10);
    assert_eq!(per_mesh_copy.owner_entity(5), 5);
    let merged_copy = source_outline(OverlapMode::Merged).propagated_from(10);
    assert_eq!(merged_copy.owner_entity(6), 6);
}

fn eq(a: &u8, b: &u8) -> bool {
    a == b
}

#[test]
fn queue_selection() {
    let mut cache = ExtractedOutlineUniforms::new();
    cache.upsert(1, ExtractedOutline { mode: OutlineMethod::JumpFlood, data: 0u8 }, &eq);
    cache.upsert(2, ExtractedOutline { mode: OutlineMethod::ScreenHull, data: 0u8 }, &eq);
    cache.upsert(3, ExtractedOutline { mode: OutlineMethod::WorldHull, data: 0u8 }, &eq);
    let visible = vec![3, 4, 1, 2];
    assert_eq!(select_mask_entities(&cache, &visible), vec![0, 2, 3]);
    let active = ActiveOutlineModes { has_jfa: true, has_hull: true };
    assert_eq!(select_hull_entities(&active, &cache, &visible), vec![0, 3]);
    let no_hull = ActiveOutlineModes { has_jfa: true, has_hull: false };
    assert!(select_hull_entities(&no_hull, &cache, &visible).is_empty());
}
