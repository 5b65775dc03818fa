//! End-to-end tests of the OBJ mesh ingestion engine.

use obj_mesh::fixed::SCALE;
use obj_mesh::obj::{Object, ParseErrorKind};

const ONE: i64 = SCALE; // 1.0 in fixed point

#[test]
fn triangle_mesh_vertices_indices_normals_extents() {
    // one triangle in the xy plane
    let obj = Object::parse("v 0 0 0\nv 1 0 0\nv 0 1 0\nf 1 2 3\n").unwrap();
    // placeholder + three real vertices
    assert_eq!(obj.vertex.len(), 4);
    assert_eq!(obj.indice, vec![1, 2, 3]);
    // flat normal (0, 0, 1) on all three vertices
    for k in 1..4 {
        assert_eq!(obj.vertex[k].normal.x, 0);
        assert_eq!(obj.vertex[k].normal.y, 0);
        assert_eq!(obj.vertex[k].normal.z, ONE);
    }
    // bounding box of the unit right triangle (placeholder at the origin)
    assert_eq!((obj.size.x, obj.size.y, obj.size.z), (ONE, ONE, 0));
    assert_eq!((obj.center.x, obj.center.y, obj.center.z), (ONE / 2, ONE / 2, 0));
}

#[test]
fn quad_face_becomes_two_triangles_in_order() {
    let obj = Object::parse("v 0 0 0\nv 1 0 0\nv 1 1 0\nv 0 1 0\nf 1 2 3 4\n").unwrap();
    // triangles (1,2,3) and (1,3,4), in that order
    assert_eq!(obj.indice, vec![1, 2, 3, 1, 3, 4]);
    assert_eq!(obj.vertex.len(), 5);
}

#[test]
fn negative_indices_resolve_like_positive_ones() {
    let pos = Object::parse("v 0 0 0\nv 1 0 0\nv 0 1 0\nf 3 2 1\n").unwrap();
    let neg = Object::parse("v 0 0 0\nv 1 0 0\nv 0 1 0\nf -1 -2 -3\n").unwrap();
    assert_eq!(pos.indice, neg.indice);
    assert_eq!(pos.vertex.len(), neg.vertex.len());
    for k in 0..pos.vertex.len() {
        assert_eq!(pos.vertex[k], neg.vertex[k]);
    }
}

#[test]
fn reparsing_is_deterministic() {
    let text = "v 0 0 0\nv 2 0 1\nv 0 3 0\nv 1 1 1\nf 1 2 3\nf 2 3 4\n";
    let a = Object::parse(text).unwrap();
    let b = Object::parse(text).unwrap();
    assert_eq!(a.vertex.len(), b.vertex.len());
    for k in 0..a.vertex.len() {
        assert_eq!(a.vertex[k], b.vertex[k]);
    }
    assert_eq!(a.indice, b.indice);
    assert_eq!(a.size, b.size);
    assert_eq!(a.center, b.center);
}

#[test]
fn shared_vertices_are_deduplicated() {
    // two triangles sharing the edge (1, 3): five references but four slots
    let obj = Object::parse("v 0 0 0\nv 1 0 0\nv 1 1 0\nv 0 1 0\nf 1 2 3\nf 1 3 4\n").unwrap();
    assert_eq!(obj.indice.len(), 6);
    // both triangles lie in the plane, so the shared corners coincide exactly
    assert_eq!(obj.vertex.len(), 5);
    assert_eq!(obj.indice, vec![1, 2, 3, 1, 3, 4]);
    // every index stays inside the vertex buffer and off the placeholder
    for &i in obj.indice.iter() {
        assert!(i >= 1 && (i as usize) < obj.vertex.len());
    }
}

#[test]
fn arity_error_carries_the_line_number() {
    let e = Object::parse("v 0 0 0\nv 1 2\n").unwrap_err();
    assert_eq!(e.kind, ParseErrorKind::Arity);
    assert_eq!(e.line, 2);
    // and the parse yields no mesh at all
    assert!(Object::parse("v 1 2\n").is_err());
}

#[test]
fn malformed_directive_is_rejected() {
    let e = Object::parse("vx 1 2 3\n").unwrap_err();
    assert_eq!(e.kind, ParseErrorKind::MalformedDirective);
    assert_eq!(e.line, 1);
}

#[test]
fn bad_numeric_literal_is_rejected() {
    let e = Object::parse("v one 2 3\n").unwrap_err();
    assert_eq!(e.kind, ParseErrorKind::NumericParse);
    assert_eq!(e.line, 1);
    let e = Object::parse("v 0 0 0\nv 1 0 0\nv 0 1 0\nf 1 2 x\n").unwrap_err();
    assert_eq!(e.kind, ParseErrorKind::NumericParse);
    assert_eq!(e.line, 4);
}

#[test]
fn face_with_too_many_subfields_is_rejected() {
    let e = Object::parse("v 0 0 0\nv 1 0 0\nv 0 1 0\nf 1/1/1/1 2 3\n").unwrap_err();
    assert_eq!(e.kind, ParseErrorKind::FaceFormat);
    assert_eq!(e.line, 4);
}

#[test]
fn out_of_range_indices_are_rejected() {
    let e = Object::parse("v 0 0 0\nf 1 2 5\n").unwrap_err();
    assert_eq!(e.kind, ParseErrorKind::IndexOutOfRange);
    assert_eq!(e.line, 2);
    // a negative reference reaching past the start of the table
    let e = Object::parse("v 0 0 0\nf -1 -2 -3\n").unwrap_err();
    assert_eq!(e.kind, ParseErrorKind::IndexOutOfRange);
    // index zero names the placeholder and is invalid
    let e = Object::parse("v 0 0 0\nv 1 0 0\nv 0 1 0\nf 0 1 2\n").unwrap_err();
    assert_eq!(e.kind, ParseErrorKind::IndexOutOfRange);
}

#[test]
fn colors_above_one_are_rescaled() {
    let obj = Object::parse(
        "v 0 0 0 255 0 127.5\nv 1 0 0 1 0 0\nv 0 1 0 0.5 0.5 0.5\nf 1 2 3\n",
    )
    .unwrap();
    // 255 is read on the 0-255 scale: 255 / 255 = 1; 127.5 / 255 = 0.5
    assert_eq!(obj.vertex[1].color.x, ONE);
    assert_eq!(obj.vertex[1].color.y, 0);
    assert_eq!(obj.vertex[1].color.z, ONE / 2);
    // values at or below one pass through
    assert_eq!(obj.vertex[2].color.x, ONE);
    assert_eq!(obj.vertex[3].color.x, ONE / 2);
}

#[test]
fn default_color_is_white() {
    let obj = Object::parse("v 0 0 0\nv 1 0 0\nv 0 1 0\nf 1 2 3\n").unwrap();
    for k in 1..4 {
        assert_eq!(obj.vertex[k].color.x, ONE);
        assert_eq!(obj.vertex[k].color.y, ONE);
        assert_eq!(obj.vertex[k].color.z, ONE);
    }
}

#[test]
fn two_component_texture_coordinates_are_flipped() {
    let obj = Object::parse(
        "v 0 0 0\nv 1 0 0\nv 0 1 0\nvt 0.25 0.25\nvt 0 0\nvt 1 1\nf 1/1 2/2 3/3\n",
    )
    .unwrap();
    // v' = 1 - v
    assert_eq!(obj.vertex[1].texture.x, ONE / 4);
    assert_eq!(obj.vertex[1].texture.y, 3 * ONE / 4);
    assert_eq!(obj.vertex[2].texture.y, ONE);
    assert_eq!(obj.vertex[3].texture.y, 0);
}

#[test]
fn three_component_texture_coordinates_are_stored_as_given() {
    let obj = Object::parse(
        "v 0 0 0\nv 1 0 0\nv 0 1 0\nvt 0.25 0.25 0\nvt 0 0 0\nvt 1 1 0\nf 1/1 2/2 3/3\n",
    )
    .unwrap();
    assert_eq!(obj.vertex[1].texture.y, ONE / 4);
    assert_eq!(obj.vertex[2].texture.y, 0);
}

#[test]
fn supplied_normals_are_used_verbatim() {
    let obj = Object::parse(
        "v 0 0 0\nv 1 0 0\nv 0 1 0\nvn 0 0 -1\nf 1//1 2//1 3//1\n",
    )
    .unwrap();
    for k in 1..4 {
        assert_eq!(obj.vertex[k].normal.z, -ONE);
    }
}

#[test]
fn full_face_references_take_texture_and_normal() {
    let obj = Object::parse(
        "v 0 0 0\nv 1 0 0\nv 0 1 0\nvt 0.5 0.5\nvn 0 1 0\nf 1/1/1 2/1/1 3/1/1\n",
    )
    .unwrap();
    assert_eq!(obj.vertex[1].texture.x, ONE / 2);
    assert_eq!(obj.vertex[1].normal.y, ONE);
}

#[test]
fn comments_blank_lines_and_scene_directives_are_skipped() {
    let obj = Object::parse(
        "# a comment line\no cube\ns off\ng side\nmtllib a.mtl\nusemtl m\n\nv 0 0 0 # inline\nv 1 0 0\nv 0 1 0\nf 1 2 3\n",
    )
    .unwrap();
    assert_eq!(obj.vertex.len(), 4);
    assert_eq!(obj.indice, vec![1, 2, 3]);
}

#[test]
fn faces_with_more_than_four_references_are_ignored() {
    let obj = Object::parse(
        "v 0 0 0\nv 1 0 0\nv 0 1 0\nv 1 1 0\nv 2 2 0\nf 1 2 3 4 5\nf 1 2 3\n",
    )
    .unwrap();
    // only the triangle contributed indices
    assert_eq!(obj.indice.len(), 3);
}

#[test]
fn synthesized_texture_coordinates_follow_positions() {
    let obj = Object::parse("v 0 0 0\nv 0 1 2\nv 0 2 2\nf 1 2 3\n").unwrap();
    // no vt anywhere: texture = (z / size.z, -y / size.y)
    let v = &obj.vertex[2]; // position (0, 1, 2)
    assert_eq!(obj.size.z, 2 * ONE);
    assert_eq!(obj.size.y, 2 * ONE);
    assert_eq!(v.texture.x, ONE);
    assert_eq!(v.texture.y, -ONE / 2);
}

#[test]
fn every_position_sits_inside_the_bounding_box() {
    let obj = Object::parse(
        "v -3 0.5 2\nv 7 -1 0\nv 0 4 -2.25\nv 1 1 1\nf 1 2 3\nf 2 3 4\n",
    )
    .unwrap();
    for v in obj.vertex.iter() {
        for (p, c, s) in [
            (v.position.x, obj.center.x, obj.size.x),
            (v.position.y, obj.center.y, obj.size.y),
            (v.position.z, obj.center.z, obj.size.z),
        ] {
            // within one fixed-point quantum of the half-extent box
            assert!(c - s / 2 - 1 <= p && p <= c + s / 2 + 1);
        }
    }
}

#[test]
fn numeric_range_and_grammar_limits() {
    // scalars beyond the representable range are numeric errors
    let e = Object::parse("v 600000000000 0 0\n").unwrap_err();
    assert_eq!(e.kind, ParseErrorKind::NumericParse);
    // exponents are not part of the grammar
    let e = Object::parse("v 1e3 0 0\n").unwrap_err();
    assert_eq!(e.kind, ParseErrorKind::NumericParse);
    // plain fractions of either shape are
    let obj = Object::parse("v .5 1. -0.125 0 0 0\nv 1 0 0\nv 0 1 0\nf 1 2 3\n").unwrap();
    assert_eq!(obj.vertex[1].position.x, ONE / 2);
    assert_eq!(obj.vertex[1].position.y, ONE);
    assert_eq!(obj.vertex[1].position.z, -ONE / 8);
}
