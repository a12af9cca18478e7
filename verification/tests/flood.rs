use bevy_liminal::ActiveOutlineModes;
use bevy_liminal::ComposeVariant;
use bevy_liminal::allocates_owner_texture;
use bevy_liminal::FloodTextures;
use bevy_liminal::JUMP_FLOOD_STEP_TABLE_LEN;
use bevy_liminal::OutlineNodePlan;
use bevy_liminal::jump_flood_pass_count;
use bevy_liminal::jump_flood_pass_sizes;
use bevy_liminal::jump_flood_step_lengths;
use bevy_liminal::plan_outline_node;

#[test]
fn step_lengths_are_powers_of_two() {
    let lengths = jump_flood_step_lengths();
    assert_eq!(lengths.len(), JUMP_FLOOD_STEP_TABLE_LEN);
    assert_eq!(lengths[0], 1);
    assert_eq!(lengths[1], 2);
    assert_eq!(lengths[10], 1024);
    assert_eq!(lengths[31], 1 << 31);
}

#[test]
fn pass_counts() {
    assert_eq!(jump_flood_pass_count(None), 0);
    assert_eq!(jump_flood_pass_count(Some(0)), 1);
    assert_eq!(jump_flood_pass_count(Some(1)), 1);
    assert_eq!(jump_flood_pass_count(Some(2)), 2);
    assert_eq!(jump_flood_pass_count(Some(6)), 3);
    // A 10 pixel outline: ceil(20) / 2 + 1 = 11, rounded up to 16 = 2^4.
    assert_eq!(jump_flood_pass_count(Some(20)), 5);
    assert_eq!(jump_flood_pass_count(Some(u32::MAX)), 32);
}

#[test]
fn pass_count_matches_next_power_of_two() {
    for n in [0u32, 1, 3, 7, 8, 9, 100, 1023, 4096, 65_535, 1 << 30, u32::MAX - 1] {
        let expected = (n / 2 + 1).next_power_of_two().trailing_zeros() + 1;
        assert_eq!(jump_flood_pass_count(Some(n)), expected);
    }
}

#[test]
fn flood_reaches_the_width() {
    let lengths = jump_flood_step_lengths();
    for n in [1u32, 5, 20, 99, 1000] {
        let passes = jump_flood_pass_count(Some(n));
        let sizes = jump_flood_pass_sizes(passes);
        let reach: u64 = sizes.iter().map(|s| lengths[*s as usize] as u64).sum();
        assert!(reach >= n as u64);
        assert!(lengths[sizes[0] as usize] >= n / 2 + 1);
    }
}

#[test]
fn pass_sizes_run_from_largest_step_down() {
    assert_eq!(jump_flood_pass_sizes(5), vec![4, 3, 2, 1, 0]);
    assert_eq!(jump_flood_pass_sizes(0), Vec::<u32>::new());
}

#[test]
fn flipping_swaps_ping_pong_roles() {
    let mut textures = FloodTextures {
        flip: false,
        input: "a",
        output: "b",
        outline_depth_texture: 0u8,
        appearance_texture: "appearance",
        owner_texture: None,
    };
    assert_eq!(*textures.input(), "a");
    assert_eq!(*textures.output(), "b");
    textures.flip();
    assert_eq!(*textures.input(), "b");
    assert_eq!(*textures.output(), "a");
    textures.flip();
    assert_eq!(*textures.input(), "a");
    assert!(!textures.flip);
}

#[test]
fn last_pass_writes_output_field_only_for_even_pass_counts() {
    for passes in 1..6u32 {
        let mut textures = FloodTextures {
            flip: false,
            input: "input",
            output: "output",
            outline_depth_texture: (),
            appearance_texture: "appearance",
            owner_texture: Some("owner"),
        };
        let mut last = "";
        for _ in jump_flood_pass_sizes(passes) {
            textures.flip();
            last = *textures.output();
        }
        assert_eq!(last, if passes % 2 == 0 { "output" } else { "input" });
    }
}

#[test]
fn compose_variant_selection() {
    assert_eq!(ComposeVariant::select(1, false), ComposeVariant::Standard);
    assert_eq!(ComposeVariant::select(1, true), ComposeVariant::Hdr);
    assert_eq!(ComposeVariant::select(4, false), ComposeVariant::Msaa);
    assert_eq!(ComposeVariant::select(4, true), ComposeVariant::MsaaHdr);
    assert!(ComposeVariant::MsaaHdr.is_multisampled());
    assert!(ComposeVariant::MsaaHdr.is_hdr());
    assert!(!ComposeVariant::Hdr.is_multisampled());
    assert!(!ComposeVariant::Msaa.is_hdr());
}

#[test]
fn node_plan() {
    assert_eq!(plan_outline_node(false, false, true), None);
    assert_eq!(
        plan_outline_node(true, false, true),
        Some(OutlineNodePlan { render_mask_phase: true, render_hull_phase: false, flood_and_compose: true })
    );
    assert_eq!(
        plan_outline_node(false, true, false),
        Some(OutlineNodePlan { render_mask_phase: false, render_hull_phase: true, flood_and_compose: false })
    );
}

#[test]
fn owner_texture_only_with_hull_outlines() {
    assert!(allocates_owner_texture(&ActiveOutlineModes { has_jfa: false, has_hull: true }));
    assert!(allocates_owner_texture(&ActiveOutlineModes { has_jfa: true, has_hull: true }));
    assert!(!allocates_owner_texture(&ActiveOutlineModes { has_jfa: true, has_hull: false }));
    assert!(!allocates_owner_texture(&ActiveOutlineModes::default()));
}
