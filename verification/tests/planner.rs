use imgopt::planner::plan;

#[test]
fn upscale_aspect() {
    assert_eq!(plan(300, 200), (480, 320));
}

#[test]
fn downscale_aspect() {
    assert_eq!(plan(1000, 500), (720, 360));
}

#[test]
fn square_image() {
    assert_eq!(plan(100, 100), (480, 480));
}

#[test]
fn height_longer() {
    assert_eq!(plan(200, 1200), (120, 720));
}

#[test]
fn identity_inside_band() {
    assert_eq!(plan(600, 400), (600, 400));
    assert_eq!(plan(480, 1), (480, 1));
    assert_eq!(plan(10, 720), (10, 720));
    assert_eq!(plan(700, 700), (700, 700));
}

#[test]
fn just_outside_band() {
    assert_eq!(plan(721, 721), (720, 720));
    assert_eq!(plan(479, 479), (480, 480));
}

#[test]
fn replan_is_identity() {
    let cases = [
        (300u32, 200u32),
        (1000, 500),
        (100, 100),
        (200, 1200),
        (600, 400),
        (721, 13),
        (1, 1),
        (u32::MAX, u32::MAX),
    ];
    for (w, h) in cases {
        let (tw, th) = plan(w, h);
        assert_eq!(plan(tw, th), (tw, th));
    }
}

#[test]
fn extreme_ratio_rounds_down_to_zero() {
    assert_eq!(plan(1_000_000, 1), (720, 0));
    assert_eq!(plan(1, 1_000_000), (0, 720));
}

#[test]
fn largest_sources() {
    assert_eq!(plan(u32::MAX, u32::MAX), (720, 720));
    assert_eq!(plan(u32::MAX, 1), (720, 0));
}
