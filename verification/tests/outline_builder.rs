use bevy_liminal::LineStyle;
use bevy_liminal::Outline;
use bevy_liminal::OutlineActivity;
use bevy_liminal::OutlineMethod;
use bevy_liminal::OverlapMode;

#[derive(Debug, Clone, Copy, PartialEq)]
struct Appearance {
    width: f32,
    intensity: f32,
    color: [f32; 4],
}

const BLACK: [f32; 4] = [0.0, 0.0, 0.0, 1.0];
const WHITE: [f32; 4] = [1.0, 1.0, 1.0, 1.0];

fn appearance(width: f32) -> Appearance {
    Appearance { width, intensity: 1.0, color: BLACK }
}

#[test]
fn jump_flood_builds_correctly() {
    let builder = Outline::jump_flood(appearance(4.0));
    let mut colored = *builder.appearance();
    colored.color = WHITE;
    let outline = builder.with_appearance(colored).build();

    assert_eq!(outline.mode, OutlineMethod::JumpFlood);
    assert!((outline.appearance.width - 4.0).abs() < f32::EPSILON);
    assert_eq!(outline.overlap, OverlapMode::Merged);
    assert!(outline.enabled);
    assert_eq!(outline.appearance.color, WHITE);
}

#[test]
fn screen_hull_with_overlap() {
    let outline = Outline::screen_hull(appearance(3.0))
        .with_overlap(OverlapMode::PerMesh)
        .build();

    assert_eq!(outline.mode, OutlineMethod::ScreenHull);
    assert!((outline.appearance.width - 3.0).abs() < f32::EPSILON);
    assert_eq!(outline.overlap, OverlapMode::PerMesh);
}

#[test]
fn world_hull_with_grouped_overlap() {
    let outline = Outline::world_hull(appearance(0.05))
        .with_overlap(OverlapMode::Grouped)
        .build();

    assert_eq!(outline.mode, OutlineMethod::WorldHull);
    assert_eq!(outline.overlap, OverlapMode::Grouped);
}

#[test]
fn enabled_defaults_to_true() {
    let outline = Outline::jump_flood(appearance(2.0)).build();
    assert!(outline.enabled);
}

#[test]
fn built_outlines_are_solid_and_unpropagated() {
    let jfa = Outline::jump_flood(appearance(1.0)).build();
    let hull = Outline::world_hull(appearance(1.0)).build();
    assert_eq!(jfa.style, LineStyle::Solid);
    assert_eq!(hull.style, LineStyle::Solid);
    assert_eq!(jfa.group_source, None);
    assert_eq!(hull.group_source, None);
}

#[test]
fn hull_builder_defaults_to_merged_overlap() {
    let outline = Outline::screen_hull(appearance(1.0)).build();
    assert_eq!(outline.overlap, OverlapMode::Merged);
    assert_eq!(outline.appearance, appearance(1.0));
}

#[test]
fn activity_reports_enabled() {
    assert!(OutlineActivity::Enabled.is_enabled());
    assert!(!OutlineActivity::Disabled.is_enabled());
    assert_eq!(OutlineActivity::default(), OutlineActivity::Enabled);
}
