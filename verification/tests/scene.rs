use rstr::scene::{first_invalid, Draw, Facing, ModelTriangle, Switch};

#[test]
fn toggle_flips_both_ways() {
    assert_eq!(Switch::On.toggle(), Switch::Off);
    assert_eq!(Switch::Off.toggle(), Switch::On);
}

#[test]
fn toggle_twice_is_identity() {
    assert_eq!(Switch::On.toggle().toggle(), Switch::On);
    assert_eq!(Switch::Off.toggle().toggle(), Switch::Off);
}

#[test]
fn culling_off_skips_nothing() {
    assert!(!Switch::Off.culls(Facing::Toward));
    assert!(!Switch::Off.culls(Facing::EdgeOn));
    assert!(!Switch::Off.culls(Facing::Away));
}

#[test]
fn culling_on_skips_faces_not_toward_the_camera() {
    assert!(!Switch::On.culls(Facing::Toward));
    assert!(Switch::On.culls(Facing::EdgeOn));
    assert!(Switch::On.culls(Facing::Away));
}

#[test]
fn only_wireframe_does_not_fill() {
    assert!(Draw::Pixels.fills());
    assert!(Draw::Depths.fills());
    assert!(!Draw::Wireframe.fills());
}

#[test]
fn model_triangle_new_keeps_its_indices() {
    let t = ModelTriangle::new([4, 0, 3], [2, 7, 1]);
    assert_eq!(t.vertices, [4, 0, 3]);
    assert_eq!(t.indices_color, [2, 7, 1]);
}

#[test]
fn triangle_is_valid_when_every_index_is_in_range() {
    let t = ModelTriangle::new([0, 1, 7], [7, 0, 3]);
    assert!(t.is_valid(8, 8));
    assert!(!t.is_valid(7, 8));
    assert!(!t.is_valid(8, 7));
    assert!(!t.is_valid(0, 0));
}

#[test]
fn triangle_validity_looks_at_each_corner() {
    assert!(!ModelTriangle::new([5, 0, 0], [0, 0, 0]).is_valid(5, 1));
    assert!(!ModelTriangle::new([0, 5, 0], [0, 0, 0]).is_valid(5, 1));
    assert!(!ModelTriangle::new([0, 0, 5], [0, 0, 0]).is_valid(5, 1));
    assert!(!ModelTriangle::new([0, 0, 0], [1, 0, 0]).is_valid(5, 1));
    assert!(!ModelTriangle::new([0, 0, 0], [0, 1, 0]).is_valid(5, 1));
    assert!(!ModelTriangle::new([0, 0, 0], [0, 0, 1]).is_valid(5, 1));
    assert!(ModelTriangle::new([4, 4, 4], [0, 0, 0]).is_valid(5, 1));
}

#[test]
fn first_invalid_finds_none_in_a_sound_model() {
    let triangles = vec![
        ModelTriangle::new([0, 1, 2], [7, 0, 3]),
        ModelTriangle::new([0, 2, 3], [7, 3, 1]),
    ];
    assert_eq!(first_invalid(&triangles, 4, 8), None);
    assert_eq!(first_invalid(&Vec::new(), 0, 0), None);
}

#[test]
fn first_invalid_names_the_first_offender() {
    let triangles = vec![
        ModelTriangle::new([0, 1, 2], [0, 0, 0]),
        ModelTriangle::new([0, 2, 9], [0, 0, 0]),
        ModelTriangle::new([0, 2, 3], [0, 0, 4]),
    ];
    assert_eq!(first_invalid(&triangles, 4, 4), Some(1));
    assert_eq!(first_invalid(&triangles, 10, 4), Some(2));
    assert_eq!(first_invalid(&triangles, 10, 5), None);
    assert_eq!(first_invalid(&triangles, 2, 5), Some(0));
}
