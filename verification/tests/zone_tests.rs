use padtype::zone::{OctantSection, XY};

fn classify(x: i16, y: i16) -> Option<OctantSection> {
    XY { x, y }.octant()
}

#[test]
fn straight_up_is_octant_zero() {
    assert_eq!(classify(0, 32767), Some(OctantSection::Octant(0)));
}

#[test]
fn classify_is_deterministic() {
    for &(x, y) in &[(0i16, 32767i16), (26214, 19660), (9830, 9830), (-23170, 23170), (12540, 30273)] {
        let first = classify(x, y);
        for _ in 0..10 {
            assert_eq!(classify(x, y), first);
        }
    }
}

#[test]
fn clearly_inside_octant_one() {
    // (0.8, 0.6) scaled: well inside the north-east octant.
    assert_eq!(classify(26214, 19660), Some(OctantSection::Octant(1)));
}

#[test]
fn diagonal_is_octant_one() {
    // (0.71, 0.71) scaled lands exactly on the north-east diagonal.
    assert_eq!(classify(23265, 23265), Some(OctantSection::Octant(1)));
}

#[test]
fn small_deflection_is_center() {
    // (0.3, 0.3) scaled: magnitude about 0.42, below the 0.6 dead band.
    assert_eq!(classify(9830, 9830), Some(OctantSection::Center));
}

#[test]
fn origin_is_center() {
    assert_eq!(classify(0, 0), Some(OctantSection::Center));
}

#[test]
fn dead_zone_boundary() {
    // 19660 is just under 0.6 of full deflection, 19661 just over.
    assert_eq!(classify(19660, 0), Some(OctantSection::Center));
    assert_eq!(classify(19661, 0), Some(OctantSection::Octant(2)));
}

#[test]
fn all_eight_bin_centers() {
    let d = 23170; // full deflection along a diagonal
    assert_eq!(classify(0, 32767), Some(OctantSection::Octant(0)));
    assert_eq!(classify(d, d), Some(OctantSection::Octant(1)));
    assert_eq!(classify(32767, 0), Some(OctantSection::Octant(2)));
    assert_eq!(classify(d, -d), Some(OctantSection::Octant(3)));
    assert_eq!(classify(0, -32767), Some(OctantSection::Octant(4)));
    assert_eq!(classify(-d, -d), Some(OctantSection::Octant(5)));
    assert_eq!(classify(-32767, 0), Some(OctantSection::Octant(6)));
    assert_eq!(classify(-d, d), Some(OctantSection::Octant(7)));
}

#[test]
fn bin_boundary_is_guard_band() {
    // A full deflection at 22.5 degrees clockwise from up: the exact
    // boundary between octants 0 and 1, inside the 5-degree guard band.
    assert_eq!(classify(12540, 30273), None);
    // And the boundary between octants 1 and 2 (67.5 degrees).
    assert_eq!(classify(30273, 12540), None);
}

#[test]
fn guard_band_edges() {
    // Just inside octant 0's clockwise edge (20 degrees) and just outside.
    // tan(20deg) is about 0.36397: x = 11208 against y = 30800 sits inside,
    // x = 11260 sits in the guard band.
    assert_eq!(classify(11208, 30800), Some(OctantSection::Octant(0)));
    assert_eq!(classify(11260, 30800), None);
}
