use bevy_liminal::ActiveOutlineMethods;
use bevy_liminal::OutlineMethod;

const ALL_STATES: [ActiveOutlineMethods; 4] = [
    ActiveOutlineMethods::NoOutlines,
    ActiveOutlineMethods::JumpFloodOnly,
    ActiveOutlineMethods::HullOnly,
    ActiveOutlineMethods::JumpFloodAndHull,
];

const ALL_METHODS: [OutlineMethod; 3] =
    [OutlineMethod::JumpFlood, OutlineMethod::WorldHull, OutlineMethod::ScreenHull];

#[test]
fn flags_of_each_state() {
    assert!(!ActiveOutlineMethods::NoOutlines.has_jfa());
    assert!(!ActiveOutlineMethods::NoOutlines.has_hull());
    assert!(ActiveOutlineMethods::JumpFloodOnly.has_jfa());
    assert!(!ActiveOutlineMethods::JumpFloodOnly.has_hull());
    assert!(!ActiveOutlineMethods::HullOnly.has_jfa());
    assert!(ActiveOutlineMethods::HullOnly.has_hull());
    assert!(ActiveOutlineMethods::JumpFloodAndHull.has_jfa());
    assert!(ActiveOutlineMethods::JumpFloodAndHull.has_hull());
}

#[test]
fn recording_methods() {
    let m = ActiveOutlineMethods::NoOutlines;
    assert_eq!(m.with_outline_method(OutlineMethod::JumpFlood), ActiveOutlineMethods::JumpFloodOnly);
    assert_eq!(m.with_outline_method(OutlineMethod::WorldHull), ActiveOutlineMethods::HullOnly);
    assert_eq!(m.with_outline_method(OutlineMethod::ScreenHull), ActiveOutlineMethods::HullOnly);
    assert_eq!(
        ActiveOutlineMethods::HullOnly.with_outline_method(OutlineMethod::JumpFlood),
        ActiveOutlineMethods::JumpFloodAndHull
    );
    assert_eq!(
        ActiveOutlineMethods::JumpFloodOnly.with_outline_method(OutlineMethod::JumpFlood),
        ActiveOutlineMethods::JumpFloodOnly
    );
}

#[test]
fn recording_commutes_and_is_idempotent() {
    for m in ALL_STATES {
        for a in ALL_METHODS {
            assert_eq!(
                m.with_outline_method(a).with_outline_method(a),
                m.with_outline_method(a)
            );
            for b in ALL_METHODS {
                assert_eq!(
                    m.with_outline_method(a).with_outline_method(b),
                    m.with_outline_method(b).with_outline_method(a)
                );
            }
        }
    }
}

#[test]
fn recording_order_does_not_matter() {
    let forward = [OutlineMethod::WorldHull, OutlineMethod::JumpFlood, OutlineMethod::WorldHull];
    let mut a = ActiveOutlineMethods::NoOutlines;
    for m in forward {
        a = a.with_outline_method(m);
    }
    let mut b = ActiveOutlineMethods::NoOutlines;
    for m in forward.iter().rev() {
        b = b.with_outline_method(*m);
    }
    assert_eq!(a, b);
    assert_eq!(a, ActiveOutlineMethods::JumpFloodAndHull);
}
