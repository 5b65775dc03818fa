//! Tests of the PPM texture decoder and the fixed-point math primitives.

use obj_mesh::fixed::{sat_add, sat_div, sat_mul, sat_sub, FIXED_MAX, SCALE};
use obj_mesh::matrix::Mat4;
use obj_mesh::texture::{Texture, TextureError};
use obj_mesh::trig::{HALF_PI, TWO_PI};
use obj_mesh::vector::Vec3;

const ONE: i64 = SCALE;

#[test]
fn ppm_decodes_to_rgba() {
    let t = Texture::parse_ppm("P3\n2 1\n255\n255 0 0 0 255 0\n").unwrap();
    assert_eq!(t.width, 2);
    assert_eq!(t.height, 1);
    assert_eq!(t.data, vec![255, 0, 0, 255, 0, 255, 0, 255]);
}

#[test]
fn ppm_rescales_against_the_maximum() {
    let t = Texture::parse_ppm("P3\n1 1\n100\n50 100 0\n").unwrap();
    // 50 * 255 / 100, truncated
    assert_eq!(t.data, vec![127, 255, 0, 255]);
}

#[test]
fn ppm_accepts_comments_and_blank_lines() {
    let t = Texture::parse_ppm("P3\n# made by hand\n\n1 1\n255\n1 2 3\n").unwrap();
    assert_eq!((t.width, t.height), (1, 1));
    assert_eq!(t.data, vec![1, 2, 3, 255]);
}

#[test]
fn ppm_rejects_bad_magic() {
    let e = Texture::parse_ppm("P6\n1 1\n255\n0 0 0\n").unwrap_err();
    assert_eq!(e, TextureError::ImageFormatError);
}

#[test]
fn ppm_rejects_short_files() {
    let e = Texture::parse_ppm("P3\n1 1\n").unwrap_err();
    assert_eq!(e, TextureError::ImageFormatError);
}

#[test]
fn ppm_rejects_missing_channel_data() {
    let e = Texture::parse_ppm("P3\n2 2\n255\n0 0 0\n").unwrap_err();
    assert_eq!(e, TextureError::ImageFormatError);
}

#[test]
fn ppm_rejects_bad_numbers() {
    let e = Texture::parse_ppm("P3\nx 1\n255\n0 0 0\n").unwrap_err();
    assert_eq!(e, TextureError::NumericParseError);
    let e = Texture::parse_ppm("P3\n1 1\n255\n0 red 0\n").unwrap_err();
    assert_eq!(e, TextureError::NumericParseError);
    // a maximum beyond 16 bits
    let e = Texture::parse_ppm("P3\n1 1\n70000\n0 0 0\n").unwrap_err();
    assert_eq!(e, TextureError::NumericParseError);
}

#[test]
fn vector_arithmetic_is_exact() {
    let a = Vec3 { x: 3 * ONE, y: 4 * ONE, z: 0 };
    let b = Vec3 { x: ONE, y: -ONE, z: 2 * ONE };
    let s = a.add(&b);
    assert_eq!((s.x, s.y, s.z), (4 * ONE, 3 * ONE, 2 * ONE));
    let d = a.sub(&b);
    assert_eq!((d.x, d.y, d.z), (2 * ONE, 5 * ONE, -2 * ONE));
    assert_eq!(Vec3::dot(&a, &b), -ONE);
    // (3,4,0) has length exactly 5
    assert_eq!(a.length(), 5 * ONE);
    let n = a.normalize();
    assert_eq!((n.x, n.y, n.z), (3 * ONE / 5, 4 * ONE / 5, 0));
    // the zero vector maps to itself
    let z = Vec3 { x: 0, y: 0, z: 0 }.normalize();
    assert_eq!((z.x, z.y, z.z), (0, 0, 0));
}

#[test]
fn cross_product_follows_the_right_hand_rule() {
    let x = Vec3 { x: ONE, y: 0, z: 0 };
    let y = Vec3 { x: 0, y: ONE, z: 0 };
    let c = Vec3::cross(&x, &y);
    assert_eq!((c.x, c.y, c.z), (0, 0, ONE));
    let c = Vec3::cross(&y, &x);
    assert_eq!((c.x, c.y, c.z), (0, 0, -ONE));
}

#[test]
fn saturating_scalar_operations() {
    assert_eq!(sat_add(FIXED_MAX, FIXED_MAX), FIXED_MAX);
    assert_eq!(sat_sub(-FIXED_MAX, FIXED_MAX), -FIXED_MAX);
    assert_eq!(sat_mul(2 * ONE, 3 * ONE), 6 * ONE);
    assert_eq!(sat_mul(-2 * ONE, 3 * ONE), -6 * ONE);
    assert_eq!(sat_div(ONE, 2 * ONE), ONE / 2);
    // division by zero saturates with the numerator's sign
    assert_eq!(sat_div(ONE, 0), FIXED_MAX);
    assert_eq!(sat_div(-ONE, 0), -FIXED_MAX);
    assert_eq!(sat_div(0, 0), 0);
}

#[test]
fn matrix_identity_and_product() {
    let i = Mat4::identity();
    let p = i.mul(&i);
    assert_eq!(p.m, i.m);
    let t = Mat4::translation(ONE, 2 * ONE, 3 * ONE);
    assert_eq!(t.m[3], ONE);
    assert_eq!(t.m[7], 2 * ONE);
    assert_eq!(t.m[11], 3 * ONE);
    // translating twice adds the offsets
    let tt = t.mul(&t);
    assert_eq!(tt.m[3], 2 * ONE);
    assert_eq!(tt.m[7], 4 * ONE);
    assert_eq!(tt.m[11], 6 * ONE);
    let s = Mat4::scale(2 * ONE, 3 * ONE, 4 * ONE);
    let st = s.mul(&t);
    assert_eq!(st.m[0], 2 * ONE);
    assert_eq!(st.m[3], 2 * ONE);
    let sum = t.add(&t);
    assert_eq!(sum.m[3], 2 * ONE);
    assert_eq!(sum.m[0], 2 * ONE);
}

#[test]
fn rotation_about_z_at_zero_is_the_identity() {
    let r = Mat4::rotation_z(0);
    assert_eq!(r.m, Mat4::identity().m);
    let rx = Mat4::rotate_x(0);
    assert_eq!(rx.m, Mat4::identity().m);
    let ry = Mat4::rotate_y(0);
    assert_eq!(ry.m, Mat4::identity().m);
}

#[test]
fn quarter_turn_swaps_axes_approximately() {
    let r = Mat4::rotation_z(HALF_PI);
    // cos(pi/2) is nearly zero, sin(pi/2) nearly one, at micro resolution
    assert!(r.m[0].abs() < 100);
    assert!((r.m[4] - ONE).abs() < 100);
    assert!((r.m[1] + ONE).abs() < 100);
}

#[test]
fn trig_is_exact_at_zero() {
    assert_eq!(obj_mesh::trig::sin(0), 0);
    assert_eq!(obj_mesh::trig::cos(0), ONE);
    assert_eq!(obj_mesh::trig::tan(0), 0);
    // wrapping reduces any angle into one turn
    assert_eq!(obj_mesh::trig::wrap_angle(TWO_PI), 0);
    assert_eq!(obj_mesh::trig::wrap_angle(-1), TWO_PI - 1);
    assert_eq!(obj_mesh::trig::sin(TWO_PI), 0);
}
