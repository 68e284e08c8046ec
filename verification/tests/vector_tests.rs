//! Fixed-point vector arithmetic behaviour.

use rollcore::vec3::Vec3Fx;

/// Componentwise addition and subtraction round-trip.
#[test]
fn add_sub_round_trip() {
    let a = Vec3Fx { x: 3 * 65536, y: -2 * 65536, z: 12345 };
    let b = Vec3Fx { x: -65536, y: 7 * 65536, z: -54321 };
    let s = a.add(b);
    assert_eq!(s, Vec3Fx { x: 2 * 65536, y: 5 * 65536, z: -41976 });
    assert_eq!(s.sub(b), a);
}

/// Fixed-point scaling: two times one and a half is three, and scaling
/// truncates toward zero on both signs.
#[test]
fn scale_exact_and_truncating() {
    let v = Vec3Fx { x: 2 * 65536, y: -2 * 65536, z: 3 };
    let r = v.scale(98304);
    assert_eq!(r.x, 3 * 65536);
    assert_eq!(r.y, -3 * 65536);
    // 3 * 1.5 = 4.5 ticks truncates to 4 toward zero.
    assert_eq!(r.z, 4);
    let n = Vec3Fx { x: -3, y: 0, z: 0 }.scale(98304);
    assert_eq!(n.x, -4);
}

/// The length of a 3-4-0 vector is exactly 5.
#[test]
fn length_three_four_five() {
    let v = Vec3Fx { x: 3 * 65536, y: 4 * 65536, z: 0 };
    assert_eq!(v.length(), 5 * 65536);
}

/// Interpolation hits both endpoints and the midpoint exactly.
#[test]
fn lerp_endpoints_and_midpoint() {
    let a = Vec3Fx { x: 0, y: 0, z: -65536 };
    let b = Vec3Fx { x: 65536, y: -65536, z: 65536 };
    assert_eq!(a.lerp(b, 0), a);
    assert_eq!(a.lerp(b, 65536), b);
    let m = a.lerp(b, 32768);
    assert_eq!(m, Vec3Fx { x: 32768, y: -32768, z: 0 });
}
