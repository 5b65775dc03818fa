//! Global properties of the mesh ingestion engine, stated and proved over
//! its functional specification:
//!
//! - every distinct resolved vertex tuple occupies exactly one real slot of
//!   the vertex buffer, every index is in range, and the index list holds
//!   exactly three entries per triangle;
//! - parsing is a pure function of the input bytes (determinism);
//! - a quad face contributes its two triangles in authored order;
//! - negative face references resolve exactly like their positive
//!   equivalents;
//! - every vertex position lies within the derived bounding box, up to one
//!   fixed-point quantum of division rounding.

use vstd::prelude::*;

use crate::fixed::{div_t, fx_half, FIXED_MAX};
use crate::numparse::{
    all_digits, digit_prefix_len, digits_val, is_digit, lemma_digits_val_nonneg,
    lemma_frac_micro_nonneg, spec_parse_scalar, SCALAR_LIT_MAX,
};
use crate::obj::{
    lemma_split_count, spec_bbox_max, spec_bbox_min, spec_calc_normal, spec_f_line, spec_face_el,
    spec_finalize, spec_find_from, spec_find_vertex, spec_fold_from, spec_handle_face,
    spec_init_state, spec_line_step, spec_max_fold, spec_min_fold, spec_obj_size, spec_parse_obj,
    spec_push_vertex, spec_resolve_val, spec_split, spec_synth_texture, spec_tokens, spec_v_line,
    ObjOut, ObjState, ParseErrorKind, PosColor, Vec2, Vertexxx,
};
use crate::vector::Vec3;

verus! {

/// Every component of a parsed position stays within the literal bound, so
/// bounding-box arithmetic over positions is exact.
pub open spec fn pos_bounded(p: Vec3) -> bool {
    &&& -SCALAR_LIT_MAX <= p.x <= SCALAR_LIT_MAX
    &&& -SCALAR_LIT_MAX <= p.y <= SCALAR_LIT_MAX
    &&& -SCALAR_LIT_MAX <= p.z <= SCALAR_LIT_MAX
}

/// No two real (non-placeholder) vertex slots hold the same tuple.
pub open spec fn unique_real_vertices(verts: Seq<Vertexxx>) -> bool {
    forall|i: int, j: int|
        1 <= i < j < verts.len() ==> #[trigger] verts[i] != #[trigger] verts[j]
}

/// Every index refers to a real vertex slot.
pub open spec fn indices_in_range(verts: Seq<Vertexxx>, inds: Seq<u32>) -> bool {
    forall|k: int| 0 <= k < inds.len() ==> 1 <= #[trigger] inds[k] < verts.len()
}

pub open spec fn positions_bounded(verts: Seq<Vertexxx>) -> bool {
    forall|i: int| 0 <= i < verts.len() ==> pos_bounded((#[trigger] verts[i]).position)
}

pub open spec fn table_bounded(v: Seq<PosColor>) -> bool {
    forall|i: int| 0 <= i < v.len() ==> pos_bounded((#[trigger] v[i]).pos)
}

/// All vertices still carry the default texture coordinate (holds as long
/// as the source gave no `vt` directive).
pub open spec fn zero_textures(verts: Seq<Vertexxx>) -> bool {
    forall|i: int|
        0 <= i < verts.len() ==> (#[trigger] verts[i]).texture == (Vec2 { x: 0, y: 0 })
}

/// The invariant every parsing state satisfies.
pub open spec fn wf_state(st: ObjState) -> bool {
    &&& st.verts.len() >= 1
    &&& unique_real_vertices(st.verts)
    &&& indices_in_range(st.verts, st.inds)
    &&& st.inds.len() == 3 * st.tris
    &&& positions_bounded(st.verts)
    &&& table_bounded(st.v)
    &&& st.vt.len() >= 1
    &&& (st.vt.len() == 1 ==> zero_textures(st.verts))
}

/// The shape every successfully parsed mesh has: a placeholder slot, no
/// duplicate real vertex, only in-range indices, three indices per
/// triangle, and bounded positions.
pub open spec fn wf_mesh(out: ObjOut) -> bool {
    &&& out.verts.len() >= 1
    &&& unique_real_vertices(out.verts)
    &&& indices_in_range(out.verts, out.inds)
    &&& out.inds.len() == 3 * out.tris
    &&& positions_bounded(out.verts)
}

/// What the deduplication scan returns: the first matching real slot, or -1
/// exactly when no real slot matches.
pub proof fn lemma_find_from_props(verts: Seq<Vertexxx>, w: Vertexxx, i: int)
    requires
        1 <= i,
    ensures
        spec_find_from(verts, w, i) == -1 ==> forall|j: int|
            i <= j < verts.len() ==> #[trigger] verts[j] != w,
        spec_find_from(verts, w, i) != -1 ==> i <= spec_find_from(verts, w, i) < verts.len()
            && verts[spec_find_from(verts, w, i)] == w,
    decreases verts.len() - i,
{
    if i < verts.len() && verts[i] != w {
        lemma_find_from_props(verts, w, i + 1);
    }
}

/// Deduplicating one vertex preserves the mesh invariant, appends exactly
/// one index, and grows the vertex buffer by at most one slot.
pub proof fn lemma_push_vertex_wf(verts: Seq<Vertexxx>, inds: Seq<u32>, w: Vertexxx)
    requires
        verts.len() >= 1,
        verts.len() < 0x1_0000_0000,
        unique_real_vertices(verts),
        indices_in_range(verts, inds),
        positions_bounded(verts),
        pos_bounded(w.position),
    ensures
        ({
            let p = spec_push_vertex(verts, inds, w);
            &&& verts.len() <= p.0.len() <= verts.len() + 1
            &&& p.1.len() == inds.len() + 1
            &&& unique_real_vertices(p.0)
            &&& indices_in_range(p.0, p.1)
            &&& positions_bounded(p.0)
            &&& (zero_textures(verts) && w.texture == (Vec2 { x: 0, y: 0 }) ==> zero_textures(
                p.0,
            ))
        }),
{
    lemma_find_from_props(verts, w, 1);
    let f = spec_find_vertex(verts, w);
    if f >= 1 {
        assert(f < 0x1_0000_0000);
        assert(f as u32 == f);
    } else {
        assert(verts.len() as u32 == verts.len());
    }
}

/// Feeding one triangle preserves the mesh invariant, appends exactly three
/// indices, and grows the vertex buffer by at most three slots.
pub proof fn lemma_handle_face_wf(
    verts: Seq<Vertexxx>,
    inds: Seq<u32>,
    v1: Vertexxx,
    v2: Vertexxx,
    v3: Vertexxx,
    hn: bool,
)
    requires
        verts.len() >= 1,
        verts.len() + 3 < 0x1_0000_0000,
        unique_real_vertices(verts),
        indices_in_range(verts, inds),
        positions_bounded(verts),
        pos_bounded(v1.position),
        pos_bounded(v2.position),
        pos_bounded(v3.position),
    ensures
        ({
            let p = spec_handle_face(verts, inds, v1, v2, v3, hn);
            &&& verts.len() <= p.0.len() <= verts.len() + 3
            &&& p.1.len() == inds.len() + 3
            &&& unique_real_vertices(p.0)
            &&& indices_in_range(p.0, p.1)
            &&& positions_bounded(p.0)
            &&& (zero_textures(verts) && v1.texture == (Vec2 { x: 0, y: 0 }) && v2.texture == (
            Vec2 { x: 0, y: 0 }) && v3.texture == (Vec2 { x: 0, y: 0 }) ==> zero_textures(p.0))
        }),
{
    let n = spec_calc_normal(v1, v2, v3);
    let w1 = if hn {
        v1
    } else {
        Vertexxx { normal: n, ..v1 }
    };
    let w2 = if hn {
        v2
    } else {
        Vertexxx { normal: n, ..v2 }
    };
    let w3 = if hn {
        v3
    } else {
        Vertexxx { normal: n, ..v3 }
    };
    let p1 = spec_push_vertex(verts, inds, w1);
    lemma_push_vertex_wf(verts, inds, w1);
    let p2 = spec_push_vertex(p1.0, p1.1, w2);
    lemma_push_vertex_wf(p1.0, p1.1, w2);
    lemma_push_vertex_wf(p2.0, p2.1, w3);
}

/// The digit prefix of a token consists of digits.
proof fn lemma_digit_prefix_all(t: Seq<u8>)
    ensures
        0 <= digit_prefix_len(t) <= t.len(),
        all_digits(t.take(digit_prefix_len(t))),
    decreases t.len(),
{
    if t.len() == 0 || !is_digit(t[0]) {
        assert(t.take(0) =~= Seq::<u8>::empty());
    } else {
        let r = t.drop_first();
        lemma_digit_prefix_all(r);
        let k = digit_prefix_len(t);
        assert(t.take(k) =~= seq![t[0]] + r.take(k - 1));
        assert(forall|i: int|
            0 <= i < k - 1 ==> #[trigger] r.take(k - 1)[i] == t.take(k)[i + 1]);
        assert(forall|i: int| 0 <= i < k ==> is_digit(#[trigger] t.take(k)[i])) by {
            assert(forall|i: int|
                1 <= i < k ==> t.take(k)[i] == #[trigger] r.take(k - 1)[i - 1]);
        }
    }
}

/// A scalar literal that parses stays within the literal bound.
pub proof fn lemma_parse_scalar_bounded(s: Seq<u8>)
    requires
        spec_parse_scalar(s) is Some,
    ensures
        -SCALAR_LIT_MAX <= spec_parse_scalar(s).unwrap() <= SCALAR_LIT_MAX,
{
    let t = if s.len() > 0 && (s[0] == 45 || s[0] == 43) {
        s.drop_first()
    } else {
        s
    };
    let k = digit_prefix_len(t);
    let rest = t.skip(k);
    lemma_digit_prefix_all(t);
    lemma_digits_val_nonneg(t.take(k));
    vstd::arithmetic::mul::lemma_mul_nonnegative(digits_val(t.take(k)), crate::fixed::SCALE as int);
    if rest.len() != 0 && rest[0] == 46 && all_digits(rest.drop_first()) {
        lemma_frac_micro_nonneg(rest.drop_first());
    }
}

/// A resolved face reference points into the table, its position is
/// bounded, and with no texture table it carries the default texture.
proof fn lemma_face_el_wf(tok: Seq<u8>, vv: Seq<PosColor>, vtt: Seq<Vec2>, vnn: Seq<Vec3>)
    requires
        table_bounded(vv),
    ensures
        spec_face_el(tok, vv, vtt, vnn) matches Ok(p) ==> pos_bounded(p.0.position) && (vtt.len()
            == 1 ==> p.0.texture == (Vec2 { x: 0, y: 0 })),
{
}

/// One line of input preserves the parsing invariant and grows the vertex
/// buffer by at most six slots.
proof fn lemma_line_step_wf(st: ObjState, toks: Seq<Seq<u8>>, line: nat)
    requires
        wf_state(st),
        st.verts.len() + 6 < 0x1_0000_0000,
    ensures
        spec_line_step(st, toks, line) matches Ok(st2) ==> wf_state(st2) && st2.verts.len()
            <= st.verts.len() + 6,
{
    if toks.len() < 2 {
    } else {
        let d = toks[0];
        if d.len() == 1 && d[0] == 118 {
            if spec_v_line(st.v, toks, line) is Ok {
                if toks.len() == 4 {
                    lemma_parse_scalar_bounded(toks[1]);
                    lemma_parse_scalar_bounded(toks[2]);
                    lemma_parse_scalar_bounded(toks[3]);
                } else {
                    lemma_parse_scalar_bounded(toks[1]);
                    lemma_parse_scalar_bounded(toks[2]);
                    lemma_parse_scalar_bounded(toks[3]);
                    lemma_parse_scalar_bounded(toks[4]);
                    lemma_parse_scalar_bounded(toks[5]);
                    lemma_parse_scalar_bounded(toks[6]);
                }
            }
        } else if d.len() == 1 && d[0] == 102 {
            if spec_f_line(st.v, st.vt, st.vn, st.verts, st.inds, toks, line) is Ok {
                if toks.len() == 4 {
                    lemma_face_el_wf(toks[1], st.v, st.vt, st.vn);
                    lemma_face_el_wf(toks[2], st.v, st.vt, st.vn);
                    lemma_face_el_wf(toks[3], st.v, st.vt, st.vn);
                    let v1 = spec_face_el(toks[1], st.v, st.vt, st.vn).unwrap();
                    let v2 = spec_face_el(toks[2], st.v, st.vt, st.vn).unwrap();
                    let v3 = spec_face_el(toks[3], st.v, st.vt, st.vn).unwrap();
                    lemma_handle_face_wf(st.verts, st.inds, v1.0, v2.0, v3.0, v1.1);
                } else if toks.len() == 5 {
                    lemma_face_el_wf(toks[1], st.v, st.vt, st.vn);
                    lemma_face_el_wf(toks[2], st.v, st.vt, st.vn);
                    lemma_face_el_wf(toks[3], st.v, st.vt, st.vn);
                    lemma_face_el_wf(toks[4], st.v, st.vt, st.vn);
                    let v1 = spec_face_el(toks[1], st.v, st.vt, st.vn).unwrap();
                    let v2 = spec_face_el(toks[2], st.v, st.vt, st.vn).unwrap();
                    let v3 = spec_face_el(toks[3], st.v, st.vt, st.vn).unwrap();
                    let v4 = spec_face_el(toks[4], st.v, st.vt, st.vn).unwrap();
                    lemma_handle_face_wf(st.verts, st.inds, v1.0, v2.0, v3.0, v1.1);
                    let p = spec_handle_face(st.verts, st.inds, v1.0, v2.0, v3.0, v1.1);
                    lemma_handle_face_wf(p.0, p.1, v1.0, v3.0, v4.0, v1.1);
                }
            }
        }
    }
}

/// Folding the remaining lines preserves the parsing invariant.
proof fn lemma_fold_wf(lines: Seq<Seq<u8>>, i: int, st: ObjState)
    requires
        0 <= i,
        wf_state(st),
        st.verts.len() + 6 * (lines.len() - i) < 0x1_0000_0000,
    ensures
        spec_fold_from(lines, i, st) matches Ok(st2) ==> wf_state(st2),
    decreases lines.len() - i,
{
    if i < lines.len() {
        lemma_line_step_wf(st, spec_tokens(lines[i]), (i + 1) as nat);
        match spec_line_step(st, spec_tokens(lines[i]), (i + 1) as nat) {
            Ok(st2) => {
                lemma_fold_wf(lines, i + 1, st2);
            },
            Err(_) => {},
        }
    }
}

/// Finalization keeps the mesh well formed: deduplication survives the
/// synthesized texture pass because, when it runs, all vertices still carry
/// the same default texture.
proof fn lemma_finalize_wf(st: ObjState)
    requires
        wf_state(st),
    ensures
        wf_mesh(spec_finalize(st)),
        spec_finalize(st).tris == st.tris,
        spec_finalize(st).inds == st.inds,
{
    let size = spec_obj_size(st.verts);
    let out = spec_finalize(st);
    if st.vt.len() == 1 {
        let m = st.verts.map_values(|w: Vertexxx| spec_synth_texture(w, size));
        assert(m.len() == st.verts.len());
        assert forall|i: int, j: int| 1 <= i < j < m.len() implies #[trigger] m[i]
            != #[trigger] m[j] by {
            assert(st.verts[i] != st.verts[j]);
            assert(st.verts[i].texture == st.verts[j].texture);
            assert(m[i] == spec_synth_texture(st.verts[i], size));
            assert(m[j] == spec_synth_texture(st.verts[j], size));
        }
        assert(positions_bounded(m)) by {
            assert(forall|i: int|
                0 <= i < m.len() ==> (#[trigger] m[i]).position == st.verts[i].position);
        }
    }
}

/// Every successfully parsed mesh is well formed: each distinct resolved
/// vertex tuple occupies exactly one real slot, every index is in range,
/// and the index list holds exactly three entries per triangle after quad
/// splitting.
pub proof fn lemma_parse_obj_well_formed(b: Seq<u8>)
    requires
        b.len() <= 0x2000_0000,
        spec_parse_obj(b) is Ok,
    ensures
        wf_mesh(spec_parse_obj(b).unwrap()),
{
    let lines = spec_split(b, 10);
    lemma_split_count(b, 10);
    let st0 = spec_init_state();
    assert(wf_state(st0));
    lemma_fold_wf(lines, 0, st0);
    let st = spec_fold_from(lines, 0, st0).unwrap();
    lemma_finalize_wf(st);
}

/// Parsing is deterministic: the mesh is a pure function of the input
/// bytes, so re-parsing the same text yields identical vertex and index
/// sequences.
pub proof fn lemma_parse_deterministic(b1: Seq<u8>, b2: Seq<u8>)
    requires
        b1 == b2,
    ensures
        spec_parse_obj(b1) == spec_parse_obj(b2),
{
}

/// A quad face whose four references resolve contributes exactly its two
/// triangles `(1,2,3)` and `(1,3,4)`, in that order, six indices in all.
pub proof fn lemma_quad_triangulation(
    vv: Seq<PosColor>,
    vtt: Seq<Vec2>,
    vnn: Seq<Vec3>,
    verts: Seq<Vertexxx>,
    inds: Seq<u32>,
    toks: Seq<Seq<u8>>,
    line: nat,
)
    requires
        toks.len() == 5,
        spec_face_el(toks[1], vv, vtt, vnn) is Ok,
        spec_face_el(toks[2], vv, vtt, vnn) is Ok,
        spec_face_el(toks[3], vv, vtt, vnn) is Ok,
        spec_face_el(toks[4], vv, vtt, vnn) is Ok,
    ensures
        ({
            let (v1, hn) = spec_face_el(toks[1], vv, vtt, vnn).unwrap();
            let (v2, _b2) = spec_face_el(toks[2], vv, vtt, vnn).unwrap();
            let (v3, _b3) = spec_face_el(toks[3], vv, vtt, vnn).unwrap();
            let (v4, _b4) = spec_face_el(toks[4], vv, vtt, vnn).unwrap();
            let first = spec_handle_face(verts, inds, v1, v2, v3, hn);
            let both = spec_handle_face(first.0, first.1, v1, v3, v4, hn);
            spec_f_line(vv, vtt, vnn, verts, inds, toks, line) == Ok::<
                (Seq<Vertexxx>, Seq<u32>, nat),
                crate::obj::ParseObjectError,
            >((both.0, both.1, 2nat))
        }),
{
}

/// A negative face reference `-k` against a table of `size` slots resolves
/// exactly like the positive reference `size - k`: both name offset
/// `size - k`.
pub proof fn lemma_relative_index_resolution(k: int, size: int)
    requires
        1 <= k < size,
    ensures
        spec_resolve_val(-k, size) == spec_resolve_val(size - k, size),
        spec_resolve_val(-k, size) == Ok::<int, ParseErrorKind>(size - k),
{
}

/// The running minimum only descends, descends below every remaining
/// position, and stays within the literal bound when everything fed to it
/// does.
proof fn lemma_min_fold_bounds(verts: Seq<Vertexxx>, i: int, cur: Vec3)
    requires
        0 <= i,
    ensures
        ({
            let r = spec_min_fold(verts, i, cur);
            &&& r.x <= cur.x && r.y <= cur.y && r.z <= cur.z
            &&& forall|k: int|
                i <= k < verts.len() ==> r.x <= (#[trigger] verts[k]).position.x && r.y
                    <= verts[k].position.y && r.z <= verts[k].position.z
            &&& (positions_bounded(verts) && cur.x >= -SCALAR_LIT_MAX && cur.y >= -SCALAR_LIT_MAX
                && cur.z >= -SCALAR_LIT_MAX ==> r.x >= -SCALAR_LIT_MAX && r.y >= -SCALAR_LIT_MAX
                && r.z >= -SCALAR_LIT_MAX)
        }),
    decreases verts.len() - i,
{
    if i < verts.len() {
        lemma_min_fold_bounds(verts, i + 1, crate::obj::v3_min(cur, verts[i].position));
    }
}

/// The running maximum only ascends, ascends above every remaining
/// position, and stays within the literal bound when everything fed to it
/// does.
proof fn lemma_max_fold_bounds(verts: Seq<Vertexxx>, i: int, cur: Vec3)
    requires
        0 <= i,
    ensures
        ({
            let r = spec_max_fold(verts, i, cur);
            &&& r.x >= cur.x && r.y >= cur.y && r.z >= cur.z
            &&& forall|k: int|
                i <= k < verts.len() ==> r.x >= (#[trigger] verts[k]).position.x && r.y
                    >= verts[k].position.y && r.z >= verts[k].position.z
            &&& (positions_bounded(verts) && cur.x <= SCALAR_LIT_MAX && cur.y <= SCALAR_LIT_MAX
                && cur.z <= SCALAR_LIT_MAX ==> r.x <= SCALAR_LIT_MAX && r.y <= SCALAR_LIT_MAX
                && r.z <= SCALAR_LIT_MAX)
        }),
    decreases verts.len() - i,
{
    if i < verts.len() {
        lemma_max_fold_bounds(verts, i + 1, crate::obj::v3_max(cur, verts[i].position));
    }
}

/// Halving truncates by at most one: `a - 1 <= 2 * div_t(a, 2) <= a + 1`.
proof fn lemma_div2_bounds(a: int)
    ensures
        a - 1 <= 2 * div_t(a, 2) <= a + 1,
{
    if a >= 0 {
        vstd::arithmetic::div_mod::lemma_fundamental_div_mod(a, 2);
        vstd::arithmetic::div_mod::lemma_mod_bound(a, 2);
    } else {
        vstd::arithmetic::div_mod::lemma_fundamental_div_mod(-a, 2);
        vstd::arithmetic::div_mod::lemma_mod_bound(-a, 2);
    }
}

/// One position component is inside the box `[c - s/2 - 1, c + s/2 + 1]`,
/// where the slack of one fixed-point quantum absorbs the truncation of the
/// two halvings.
pub open spec fn component_in_box(p: i64, c: i64, s: i64) -> bool {
    c - fx_half(s as int) - 1 <= p <= c + fx_half(s as int) + 1
}

/// Every vertex position of a parsed mesh lies within the box spanned by
/// `center` and `size`, componentwise, up to one fixed-point quantum.
#[verifier::rlimit(100)]
pub proof fn lemma_bounding_box(b: Seq<u8>)
    requires
        b.len() <= 0x2000_0000,
        spec_parse_obj(b) is Ok,
    ensures
        ({
            let o = spec_parse_obj(b).unwrap();
            forall|k: int|
                0 <= k < o.verts.len() ==> {
                    let p = (#[trigger] o.verts[k]).position;
                    component_in_box(p.x, o.center.x, o.size.x) && component_in_box(
                        p.y,
                        o.center.y,
                        o.size.y,
                    ) && component_in_box(p.z, o.center.z, o.size.z)
                }
        }),
{
    let lines = spec_split(b, 10);
    lemma_split_count(b, 10);
    lemma_fold_wf(lines, 0, spec_init_state());
    let st = spec_fold_from(lines, 0, spec_init_state()).unwrap();
    let o = spec_parse_obj(b).unwrap();
    let verts = st.verts;
    let init_mn = Vec3 { x: FIXED_MAX, y: FIXED_MAX, z: FIXED_MAX };
    let init_mx = Vec3 { x: (-FIXED_MAX) as i64, y: (-FIXED_MAX) as i64, z: (-FIXED_MAX) as i64 };
    let mn = spec_bbox_min(verts);
    let mx = spec_bbox_max(verts);
    lemma_min_fold_bounds(verts, 0, init_mn);
    lemma_max_fold_bounds(verts, 0, init_mx);
    // the placeholder vertex pins both folds into the literal range
    assert(mn.x <= verts[0].position.x && mx.x >= verts[0].position.x);
    assert(-SCALAR_LIT_MAX <= mn.x <= SCALAR_LIT_MAX && -SCALAR_LIT_MAX <= mx.x
        <= SCALAR_LIT_MAX);
    assert(-SCALAR_LIT_MAX <= mn.y <= SCALAR_LIT_MAX && -SCALAR_LIT_MAX <= mx.y
        <= SCALAR_LIT_MAX);
    assert(-SCALAR_LIT_MAX <= mn.z <= SCALAR_LIT_MAX && -SCALAR_LIT_MAX <= mx.z
        <= SCALAR_LIT_MAX);
    lemma_div2_bounds(mn.x + mx.x);
    lemma_div2_bounds(mn.y + mx.y);
    lemma_div2_bounds(mn.z + mx.z);
    lemma_div2_bounds(mx.x - mn.x);
    lemma_div2_bounds(mx.y - mn.y);
    lemma_div2_bounds(mx.z - mn.z);
    assert(o.verts.len() == verts.len());
    assert forall|k: int| 0 <= k < o.verts.len() implies {
        let p = (#[trigger] o.verts[k]).position;
        component_in_box(p.x, o.center.x, o.size.x) && component_in_box(p.y, o.center.y, o.size.y)
            && component_in_box(p.z, o.center.z, o.size.z)
    } by {
        if st.vt.len() == 1 {
            assert(o.verts[k] == spec_synth_texture(verts[k], o.size));
        }
        assert(o.verts[k].position == verts[k].position);
        assert(mn.x <= verts[k].position.x <= mx.x);
        assert(mn.y <= verts[k].position.y <= mx.y);
        assert(mn.z <= verts[k].position.z <= mx.z);
    }
}

} // verus!
