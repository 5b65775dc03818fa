//! The OBJ mesh ingestion engine.
//!
//! `Object::parse` scans OBJ text line by line, fills 1-indexed tables of
//! positions (with optional colors), texture coordinates and normals,
//! resolves face references (absolute and negative/relative), triangulates
//! quads, computes missing flat normals, and deduplicates fully resolved
//! vertices into an indexed triangle mesh.  The whole pipeline is specified
//! as a function of the input bytes, so parsing is deterministic by
//! construction.

use vstd::prelude::*;
use vstd::string::StringSliceAdditionalSpecFns;

use crate::fixed::{fx_add, fx_div, fx_half, fx_neg, fx_sub, sat_add, sat_div, sat_half, sat_neg, sat_sub, FIXED_MAX, SCALE};
use crate::numparse::{spec_parse_i32, spec_parse_scalar, parse_i32_token, parse_scalar_token};
use crate::vector::{spec_v3_cross, spec_v3_normalize, spec_v3_sub, Vec3};

verus! {

/// A 2-vector of fixed-point scalars, used for texture coordinates.
#[derive(Clone, Copy, Debug, PartialEq, Eq, Structural)]
pub struct Vec2 {
    pub x: i64,
    pub y: i64,
}

/// A fully resolved mesh vertex.  Two vertices are the same exactly when
/// every stored component is identical, which is what makes deduplication
/// deterministic.
#[derive(Clone, Copy, Debug, PartialEq, Eq, Structural)]
pub struct Vertexxx {
    pub position: Vec3,
    pub normal: Vec3,
    pub color: Vec3,
    pub texture: Vec2,
}

/// The default vertex: origin position, zero normal and texture, white color.
pub open spec fn spec_default_vertex() -> Vertexxx {
    Vertexxx {
        position: Vec3 { x: 0, y: 0, z: 0 },
        normal: Vec3 { x: 0, y: 0, z: 0 },
        color: Vec3 { x: crate::fixed::SCALE, y: crate::fixed::SCALE, z: crate::fixed::SCALE },
        texture: Vec2 { x: 0, y: 0 },
    }
}

impl Default for Vertexxx {
    /// The placeholder vertex: all-zero position, normal and texture
    /// coordinate, white color.
    fn default() -> (r: Vertexxx)
        ensures
            r == spec_default_vertex(),
    {
        Vertexxx {
            position: Vec3 { x: 0, y: 0, z: 0 },
            normal: Vec3 { x: 0, y: 0, z: 0 },
            color: Vec3 {
                x: crate::fixed::SCALE,
                y: crate::fixed::SCALE,
                z: crate::fixed::SCALE,
            },
            texture: Vec2 { x: 0, y: 0 },
        }
    }
}

/// What a parse rejects, by kind.
#[derive(Clone, Copy, Debug, PartialEq, Eq, Structural)]
pub enum ParseErrorKind {
    /// A numeric literal that the grammar does not accept.
    NumericParse,
    /// A directive with the wrong number of tokens.
    Arity,
    /// An unrecognized leading token.
    MalformedDirective,
    /// A face reference with more than three `/`-separated subfields.
    FaceFormat,
    /// A face index that resolves outside its table.
    IndexOutOfRange,
}

/// A parse failure: its kind and the 1-based line it arose on.
#[derive(Clone, Copy, Debug, PartialEq, Eq, Structural)]
pub struct ParseObjectError {
    pub kind: ParseErrorKind,
    pub line: usize,
}

/// An entry of the position table: a position and its (possibly defaulted)
/// color.
#[derive(Clone, Copy, Debug, PartialEq, Eq, Structural)]
pub struct PosColor {
    pub pos: Vec3,
    pub col: Vec3,
}

/// The indexed mesh an OBJ parse produces.
#[derive(Clone, Debug)]
pub struct Object {
    /// Unique vertices, in first-seen order; index 0 is a reserved
    /// placeholder never referenced by faces.
    pub vertex: Vec<Vertexxx>,
    /// Flat triangle list: each three consecutive entries index `vertex`.
    pub indice: Vec<u32>,
    /// Componentwise extents of the bounding box of all vertex positions.
    pub size: Vec3,
    /// Midpoint of the bounding box.
    pub center: Vec3,
}

// ---------------------------------------------------------------------------
// Splitting bytes into lines, tokens and face subfields.
// ---------------------------------------------------------------------------

/// Length of the prefix before the first `sep` byte.
pub open spec fn sep_prefix_len(t: Seq<u8>, sep: u8) -> nat
    decreases t.len(),
{
    if t.len() == 0 || t[0] == sep {
        0
    } else {
        (1 + sep_prefix_len(t.drop_first(), sep)) as nat
    }
}

/// A separator-free prefix is no longer than the whole.
pub proof fn lemma_sep_prefix_len_le(t: Seq<u8>, sep: u8)
    ensures
        sep_prefix_len(t, sep) <= t.len(),
    decreases t.len(),
{
    if t.len() > 0 && t[0] != sep {
        lemma_sep_prefix_len_le(t.drop_first(), sep);
    }
}

/// Split on a separator byte, keeping empty segments (so a trailing
/// separator yields a final empty segment).
pub open spec fn spec_split(t: Seq<u8>, sep: u8) -> Seq<Seq<u8>>
    decreases t.len(),
    via spec_split_decreases
{
    let k = sep_prefix_len(t, sep);
    if k == t.len() {
        seq![t]
    } else {
        seq![t.take(k as int)] + spec_split(t.skip(k + 1int), sep)
    }
}

#[via_fn]
proof fn spec_split_decreases(t: Seq<u8>, sep: u8) {
    lemma_sep_prefix_len_le(t, sep);
}

/// ASCII whitespace, as line tokenization splits on it.
pub open spec fn is_space(b: u8) -> bool {
    b == 32 || b == 9 || b == 10 || b == 12 || b == 13
}

/// Length of the prefix of non-whitespace bytes.
pub open spec fn nonspace_len(t: Seq<u8>) -> nat
    decreases t.len(),
{
    if t.len() == 0 || is_space(t[0]) {
        0
    } else {
        (1 + nonspace_len(t.drop_first())) as nat
    }
}

/// A whitespace-free prefix is no longer than the whole.
pub proof fn lemma_nonspace_len_le(t: Seq<u8>)
    ensures
        nonspace_len(t) <= t.len(),
    decreases t.len(),
{
    if t.len() > 0 && !is_space(t[0]) {
        lemma_nonspace_len_le(t.drop_first());
    }
}

/// The visible tokens of a line: maximal runs of non-whitespace bytes, cut
/// short at the first token that opens a comment (begins with `#`), which is
/// itself dropped.
pub open spec fn spec_tokens(l: Seq<u8>) -> Seq<Seq<u8>>
    decreases l.len(),
    via spec_tokens_decreases
{
    if l.len() == 0 {
        Seq::empty()
    } else if is_space(l[0]) {
        spec_tokens(l.drop_first())
    } else {
        let k = nonspace_len(l);
        let tok = l.take(k as int);
        if tok[0] == 35 {
            Seq::empty()
        } else {
            seq![tok] + spec_tokens(l.skip(k as int))
        }
    }
}

#[via_fn]
proof fn spec_tokens_decreases(l: Seq<u8>) {
    lemma_nonspace_len_le(l);
}

/// `sep_prefix_len` is the position of the first separator.
proof fn lemma_sep_prefix_len_is(s: Seq<u8>, sep: u8, k: int)
    requires
        0 <= k <= s.len(),
        forall|i: int| 0 <= i < k ==> #[trigger] s[i] != sep,
        k == s.len() || s[k as int] == sep,
    ensures
        sep_prefix_len(s, sep) == k,
    decreases s.len(),
{
    if s.len() == 0 || s[0] == sep {
        assert(k == 0);
    } else {
        let t = s.drop_first();
        assert(forall|i: int| 0 <= i < k - 1 ==> #[trigger] t[i] != sep);
        lemma_sep_prefix_len_is(t, sep, k - 1);
    }
}

/// Split a byte string on a separator.
pub fn split_bytes(b: &[u8], sep: u8) -> (r: Vec<Vec<u8>>)
    ensures
        r.deep_view() == spec_split(b@, sep),
{
    let n = b.len();
    let mut out: Vec<Vec<u8>> = Vec::new();
    let mut pos: usize = 0;
    proof {
        assert(b@.skip(0) =~= b@);
        assert(out.deep_view() =~~= Seq::<Seq<u8>>::empty());
        assert(Seq::<Seq<u8>>::empty() + spec_split(b@, sep) =~= spec_split(b@, sep));
    }
    loop
        invariant
            pos <= n,
            n == b@.len(),
            spec_split(b@, sep) == out.deep_view() + spec_split(b@.skip(pos as int), sep),
        decreases n - pos,
    {
        let mut i = pos;
        while i < n && b[i] != sep
            invariant
                pos <= i <= n,
                n == b@.len(),
                forall|j: int| pos <= j < i ==> #[trigger] b@[j] != sep,
            decreases n - i,
        {
            i = i + 1;
        }
        let ghost rest = b@.skip(pos as int);
        proof {
            assert(forall|j: int| 0 <= j < i - pos ==> #[trigger] rest[j] == b@[pos + j]);
            lemma_sep_prefix_len_is(rest, sep, i - pos);
            if i < n {
                assert(rest[i - pos] == b@[i as int]);
            }
            assert(rest.take(i - pos) =~= b@.subrange(pos as int, i as int));
        }
        let seg = vstd::slice::slice_to_vec(vstd::slice::slice_subrange(b, pos, i));
        let ghost out_pre = out.deep_view();
        out.push(seg);
        proof {
            assert(out.deep_view() =~~= out_pre + seq![b@.subrange(pos as int, i as int)]);
        }
        if i < n {
            proof {
                assert(rest.skip(i - pos + 1) =~= b@.skip(i + 1));
                assert(spec_split(rest, sep) == seq![rest.take(i - pos)] + spec_split(
                    b@.skip(i + 1),
                    sep,
                ));
                assert((out_pre + seq![rest.take(i - pos)]) + spec_split(b@.skip(i + 1), sep)
                    =~= out_pre + (seq![rest.take(i - pos)] + spec_split(b@.skip(i + 1), sep)));
            }
            pos = i + 1;
        } else {
            proof {
                assert(rest =~= rest.take(i - pos));
                assert(spec_split(rest, sep) == seq![rest]);
                assert(out.deep_view() =~~= out_pre + seq![rest]);
            }
            return out;
        }
    }
}

/// Tokenize a line into its visible tokens.
pub fn tokenize(l: &[u8]) -> (r: Vec<Vec<u8>>)
    ensures
        r.deep_view() == spec_tokens(l@),
{
    let n = l.len();
    let mut out: Vec<Vec<u8>> = Vec::new();
    let mut pos: usize = 0;
    proof {
        assert(l@.skip(0) =~= l@);
        assert(out.deep_view() =~~= Seq::<Seq<u8>>::empty());
        assert(Seq::<Seq<u8>>::empty() + spec_tokens(l@) =~= spec_tokens(l@));
    }
    while pos < n
        invariant
            pos <= n,
            n == l@.len(),
            spec_tokens(l@) == out.deep_view() + spec_tokens(l@.skip(pos as int)),
        decreases n - pos,
    {
        let c = l[pos];
        if c == 32 || c == 9 || c == 10 || c == 12 || c == 13 {
            proof {
                assert(l@.skip(pos as int).drop_first() =~= l@.skip(pos + 1));
            }
            pos = pos + 1;
        } else {
            let mut i = pos;
            while i < n && !(l[i] == 32 || l[i] == 9 || l[i] == 10 || l[i] == 12 || l[i] == 13)
                invariant
                    pos <= i <= n,
                    n == l@.len(),
                    forall|j: int| pos <= j < i ==> !is_space(#[trigger] l@[j]),
                decreases n - i,
            {
                i = i + 1;
            }
            let ghost rest = l@.skip(pos as int);
            proof {
                assert(forall|j: int| 0 <= j < i - pos ==> #[trigger] rest[j] == l@[pos + j]);
                lemma_nonspace_len_is(rest, i - pos);
                if i < n {
                    assert(rest[i - pos] == l@[i as int]);
                }
                assert(rest.take(i - pos) =~= l@.subrange(pos as int, i as int));
            }
            if l[pos] == 35 {
                // comment token: the rest of the line is invisible
                proof {
                    assert(rest.take(nonspace_len(rest) as int)[0] == rest[0]);
                    assert(spec_tokens(rest) =~= Seq::<Seq<u8>>::empty());
                    assert(out.deep_view() + Seq::<Seq<u8>>::empty() =~= out.deep_view());
                }
                return out;
            }
            let tok = vstd::slice::slice_to_vec(vstd::slice::slice_subrange(l, pos, i));
            let ghost out_pre = out.deep_view();
            out.push(tok);
            proof {
                assert(out.deep_view() =~~= out_pre + seq![l@.subrange(pos as int, i as int)]);
                assert(rest.skip(i - pos) =~= l@.skip(i as int));
                assert(rest.take(nonspace_len(rest) as int)[0] == rest[0]);
                assert((out_pre + seq![rest.take(i - pos)]) + spec_tokens(l@.skip(i as int))
                    =~= out_pre + (seq![rest.take(i - pos)] + spec_tokens(l@.skip(i as int))));
            }
            pos = i;
        }
    }
    proof {
        assert(spec_tokens(l@.skip(pos as int)) =~= Seq::<Seq<u8>>::empty());
        assert(out.deep_view() =~= out.deep_view() + Seq::<Seq<u8>>::empty());
    }
    out
}

/// `nonspace_len` is the position of the first whitespace byte.
proof fn lemma_nonspace_len_is(s: Seq<u8>, k: int)
    requires
        0 <= k <= s.len(),
        forall|i: int| 0 <= i < k ==> !is_space(#[trigger] s[i]),
        k == s.len() || is_space(s[k as int]),
    ensures
        nonspace_len(s) == k,
    decreases s.len(),
{
    if s.len() == 0 || is_space(s[0]) {
        assert(k == 0);
    } else {
        let t = s.drop_first();
        assert(forall|i: int| 0 <= i < k - 1 ==> !is_space(#[trigger] t[i]));
        lemma_nonspace_len_is(t, k - 1);
    }
}

// ---------------------------------------------------------------------------
// Face-reference resolution.
// ---------------------------------------------------------------------------

/// Resolve a face-index value against a table of `size` entries (slot 0 is
/// the dummy): a negative value counts back from the end of the table; a
/// valid resolved offset lies in `1 .. size`.
pub open spec fn spec_resolve_val(val: int, size: int) -> Result<int, ParseErrorKind> {
    let idx = if val < 0 {
        size + val
    } else {
        val
    };
    if 1 <= idx < size {
        Ok(idx)
    } else {
        Err(ParseErrorKind::IndexOutOfRange)
    }
}

/// Parse and resolve one face-index subfield.
pub open spec fn spec_convert(tok: Seq<u8>, size: int) -> Result<int, ParseErrorKind> {
    match spec_parse_i32(tok) {
        Some(v) => spec_resolve_val(v as int, size),
        None => Err(ParseErrorKind::NumericParse),
    }
}

/// Parse and resolve one face-index subfield against a table of `size`
/// entries.
fn convert_index_bytes(tok: &[u8], size: usize) -> (r: Result<usize, ParseErrorKind>)
    ensures
        match r {
            Ok(x) => spec_convert(tok@, size as int) == Ok::<int, ParseErrorKind>(x as int),
            Err(k) => spec_convert(tok@, size as int) == Err::<int, ParseErrorKind>(k),
        },
{
    match parse_i32_token(tok) {
        None => Err(ParseErrorKind::NumericParse),
        Some(v) => {
            if v < 0 {
                let m = (-v) as usize;
                if m < size {
                    Ok(size - m)
                } else {
                    Err(ParseErrorKind::IndexOutOfRange)
                }
            } else {
                let idx = v as usize;
                if 1 <= idx && idx < size {
                    Ok(idx)
                } else {
                    Err(ParseErrorKind::IndexOutOfRange)
                }
            }
        },
    }
}

/// Parse and resolve one face-index subfield, given as text.
pub fn convert_index(i: &str, size: usize) -> (r: Result<usize, ParseErrorKind>)
    ensures
        match r {
            Ok(x) => spec_convert(i.spec_bytes(), size as int) == Ok::<int, ParseErrorKind>(
                x as int,
            ),
            Err(k) => spec_convert(i.spec_bytes(), size as int) == Err::<int, ParseErrorKind>(k),
        },
{
    convert_index_bytes(i.as_bytes(), size)
}

/// Resolve one whole face-reference token (`p`, `p/t`, `p/t/n` or `p//n`)
/// into a vertex with everything but a computed flat normal filled in, and
/// whether the file supplied a normal.
pub open spec fn spec_face_el(tok: Seq<u8>, v: Seq<PosColor>, vt: Seq<Vec2>, vn: Seq<Vec3>) -> Result<
    (Vertexxx, bool),
    ParseErrorKind,
> {
    let el = spec_split(tok, 47);
    let zero3 = Vec3 { x: 0, y: 0, z: 0 };
    let zero2 = Vec2 { x: 0, y: 0 };
    if el.len() == 1 {
        match spec_convert(el[0], v.len() as int) {
            Ok(i) => Ok(
                (
                    Vertexxx {
                        position: v[i].pos,
                        color: v[i].col,
                        normal: zero3,
                        texture: zero2,
                    },
                    false,
                ),
            ),
            Err(k) => Err(k),
        }
    } else if el.len() == 2 {
        match spec_convert(el[0], v.len() as int) {
            Ok(i) => match spec_convert(el[1], vt.len() as int) {
                Ok(t) => Ok(
                    (
                        Vertexxx {
                            position: v[i].pos,
                            color: v[i].col,
                            normal: zero3,
                            texture: vt[t],
                        },
                        false,
                    ),
                ),
                Err(k) => Err(k),
            },
            Err(k) => Err(k),
        }
    } else if el.len() == 3 {
        if el[1].len() != 0 {
            match spec_convert(el[0], v.len() as int) {
                Ok(i) => match spec_convert(el[1], vt.len() as int) {
                    Ok(t) => match spec_convert(el[2], vn.len() as int) {
                        Ok(nn) => Ok(
                            (
                                Vertexxx {
                                    position: v[i].pos,
                                    color: v[i].col,
                                    normal: vn[nn],
                                    texture: vt[t],
                                },
                                true,
                            ),
                        ),
                        Err(k) => Err(k),
                    },
                    Err(k) => Err(k),
                },
                Err(k) => Err(k),
            }
        } else {
            match spec_convert(el[0], v.len() as int) {
                Ok(i) => match spec_convert(el[2], vn.len() as int) {
                    Ok(nn) => Ok(
                        (
                            Vertexxx {
                                position: v[i].pos,
                                color: v[i].col,
                                normal: vn[nn],
                                texture: zero2,
                            },
                            true,
                        ),
                    ),
                    Err(k) => Err(k),
                },
                Err(k) => Err(k),
            }
        }
    } else {
        Err(ParseErrorKind::FaceFormat)
    }
}

/// Resolve one face-reference token against the current tables.
fn parse_face_el(tok: &[u8], v: &Vec<PosColor>, vt: &Vec<Vec2>, vn: &Vec<Vec3>) -> (r: Result<
    (Vertexxx, bool),
    ParseErrorKind,
>)
    ensures
        r == spec_face_el(tok@, v@, vt@, vn@),
{
    let el = split_bytes(tok, 47);
    proof {
        assert forall|i: int| 0 <= i < el@.len() implies (#[trigger] el@[i])@ == spec_split(
            tok@,
            47,
        )[i] by {
            assert(el@[i].deep_view() =~= el@[i]@);
        }
    }
    let zero3 = Vec3 { x: 0, y: 0, z: 0 };
    let zero2 = Vec2 { x: 0, y: 0 };
    if el.len() == 1 {
        let i = match convert_index_bytes(el[0].as_slice(), v.len()) {
            Ok(i) => i,
            Err(k) => {
                return Err(k);
            },
        };
        Ok((Vertexxx { position: v[i].pos, color: v[i].col, normal: zero3, texture: zero2 }, false))
    } else if el.len() == 2 {
        let i = match convert_index_bytes(el[0].as_slice(), v.len()) {
            Ok(i) => i,
            Err(k) => {
                return Err(k);
            },
        };
        let t = match convert_index_bytes(el[1].as_slice(), vt.len()) {
            Ok(t) => t,
            Err(k) => {
                return Err(k);
            },
        };
        Ok(
            (
                Vertexxx { position: v[i].pos, color: v[i].col, normal: zero3, texture: vt[t] },
                false,
            ),
        )
    } else if el.len() == 3 {
        if el[1].len() != 0 {
            let i = match convert_index_bytes(el[0].as_slice(), v.len()) {
                Ok(i) => i,
                Err(k) => {
                    return Err(k);
                },
            };
            let t = match convert_index_bytes(el[1].as_slice(), vt.len()) {
                Ok(t) => t,
                Err(k) => {
                    return Err(k);
                },
            };
            let nn = match convert_index_bytes(el[2].as_slice(), vn.len()) {
                Ok(nn) => nn,
                Err(k) => {
                    return Err(k);
                },
            };
            Ok(
                (
                    Vertexxx {
                        position: v[i].pos,
                        color: v[i].col,
                        normal: vn[nn],
                        texture: vt[t],
                    },
                    true,
                ),
            )
        } else {
            let i = match convert_index_bytes(el[0].as_slice(), v.len()) {
                Ok(i) => i,
                Err(k) => {
                    return Err(k);
                },
            };
            let nn = match convert_index_bytes(el[2].as_slice(), vn.len()) {
                Ok(nn) => nn,
                Err(k) => {
                    return Err(k);
                },
            };
            Ok(
                (
                    Vertexxx {
                        position: v[i].pos,
                        color: v[i].col,
                        normal: vn[nn],
                        texture: zero2,
                    },
                    true,
                ),
            )
        }
    } else {
        Err(ParseErrorKind::FaceFormat)
    }
}

// ---------------------------------------------------------------------------
// Flat normals and vertex deduplication.
// ---------------------------------------------------------------------------

/// The flat normal of a triangle: the normalized cross product of its edge
/// vectors in authored order.
pub open spec fn spec_calc_normal(v1: Vertexxx, v2: Vertexxx, v3: Vertexxx) -> Vec3 {
    spec_v3_normalize(
        spec_v3_cross(
            spec_v3_sub(v2.position, v1.position),
            spec_v3_sub(v3.position, v2.position),
        ),
    )
}

/// The flat normal of a triangle.
fn calculate_normal(v1: &Vertexxx, v2: &Vertexxx, v3: &Vertexxx) -> (r: Vec3)
    ensures
        r == spec_calc_normal(*v1, *v2, *v3),
{
    Vec3::cross(&v2.position.sub(&v1.position), &v3.position.sub(&v2.position)).normalize()
}

/// A vertex with its normal replaced.
pub open spec fn with_normal(v: Vertexxx, n: Vec3) -> Vertexxx {
    Vertexxx { normal: n, ..v }
}

/// First index at or after `i` (never the placeholder slot 0) holding `w`,
/// or -1.
pub open spec fn spec_find_from(verts: Seq<Vertexxx>, w: Vertexxx, i: int) -> int
    decreases verts.len() - i,
{
    if i < 1 || i >= verts.len() {
        -1
    } else if verts[i] == w {
        i
    } else {
        spec_find_from(verts, w, i + 1)
    }
}

/// First real (non-placeholder) slot holding `w`, or -1.
pub open spec fn spec_find_vertex(verts: Seq<Vertexxx>, w: Vertexxx) -> int {
    spec_find_from(verts, w, 1)
}

/// Scan the real vertex slots for an entry equal to `w`.
fn find_vertex(verts: &Vec<Vertexxx>, w: &Vertexxx) -> (r: Option<usize>)
    ensures
        match r {
            Some(i) => spec_find_vertex(verts@, *w) == i && 1 <= i < verts@.len(),
            None => spec_find_vertex(verts@, *w) == -1,
        },
{
    let n = verts.len();
    let mut i: usize = 1;
    while i < n
        invariant
            1 <= i,
            n == verts@.len(),
            spec_find_vertex(verts@, *w) == spec_find_from(verts@, *w, i as int),
        decreases n - i,
    {
        if verts[i] == *w {
            return Some(i);
        }
        i = i + 1;
    }
    None
}

/// Append one resolved vertex: reuse the slot of an equal vertex if one
/// exists, else append a new slot; either way append its index.
pub open spec fn spec_push_vertex(verts: Seq<Vertexxx>, inds: Seq<u32>, w: Vertexxx) -> (
    Seq<Vertexxx>,
    Seq<u32>,
) {
    let f = spec_find_vertex(verts, w);
    if f >= 1 {
        (verts, inds.push(f as u32))
    } else {
        (verts.push(w), inds.push(verts.len() as u32))
    }
}

/// Feed one triangle to the mesh: compute a flat normal when the face gave
/// none, then deduplicate the three vertices in order.
pub open spec fn spec_handle_face(
    verts: Seq<Vertexxx>,
    inds: Seq<u32>,
    v1: Vertexxx,
    v2: Vertexxx,
    v3: Vertexxx,
    has_normal: bool,
) -> (Seq<Vertexxx>, Seq<u32>) {
    let n = spec_calc_normal(v1, v2, v3);
    let w1 = if has_normal {
        v1
    } else {
        with_normal(v1, n)
    };
    let w2 = if has_normal {
        v2
    } else {
        with_normal(v2, n)
    };
    let w3 = if has_normal {
        v3
    } else {
        with_normal(v3, n)
    };
    let p1 = spec_push_vertex(verts, inds, w1);
    let p2 = spec_push_vertex(p1.0, p1.1, w2);
    spec_push_vertex(p2.0, p2.1, w3)
}

/// Deduplicate one vertex into the mesh and append its index.
fn push_vertex(verts: &mut Vec<Vertexxx>, inds: &mut Vec<u32>, w: Vertexxx)
    requires
        old(verts)@.len() < 0xffff_ffff,
    ensures
        ({
            let p = spec_push_vertex(old(verts)@, old(inds)@, w);
            final(verts)@ == p.0 && final(inds)@ == p.1
        }),
        final(verts)@.len() <= old(verts)@.len() + 1,
{
    match find_vertex(verts, &w) {
        Some(i) => {
            inds.push(i as u32);
        },
        None => {
            let idx = verts.len() as u32;
            inds.push(idx);
            verts.push(w);
        },
    }
}

/// Feed one triangle to the mesh.
fn handle_face(
    v1: Vertexxx,
    v2: Vertexxx,
    v3: Vertexxx,
    verts: &mut Vec<Vertexxx>,
    inds: &mut Vec<u32>,
    has_normal: bool,
)
    requires
        old(verts)@.len() + 3 < 0x1_0000_0000,
    ensures
        ({
            let p = spec_handle_face(old(verts)@, old(inds)@, v1, v2, v3, has_normal);
            final(verts)@ == p.0 && final(inds)@ == p.1
        }),
        final(verts)@.len() <= old(verts)@.len() + 3,
{
    let (w1, w2, w3) = if !has_normal {
        let n = calculate_normal(&v1, &v2, &v3);
        (
            Vertexxx { normal: n, ..v1 },
            Vertexxx { normal: n, ..v2 },
            Vertexxx { normal: n, ..v3 },
        )
    } else {
        (v1, v2, v3)
    };
    push_vertex(verts, inds, w1);
    push_vertex(verts, inds, w2);
    push_vertex(verts, inds, w3);
}

// ---------------------------------------------------------------------------
// One directive line.
// ---------------------------------------------------------------------------

/// Normalize a color channel: a value above one is read on the 0-255 scale
/// and divided by 255.
pub open spec fn spec_norm_channel(c: int) -> i64 {
    if c > SCALE {
        fx_div(c, 255_000_000) as i64
    } else {
        c as i64
    }
}

/// A `v` line: three coordinates, optionally followed by three color
/// channels, appended to the position table (default color white).
pub open spec fn spec_v_line(vv: Seq<PosColor>, toks: Seq<Seq<u8>>, line: nat) -> Result<
    Seq<PosColor>,
    ParseObjectError,
> {
    if toks.len() == 4 {
        if spec_parse_scalar(toks[1]) is None || spec_parse_scalar(toks[2]) is None
            || spec_parse_scalar(toks[3]) is None {
            Err(ParseObjectError { kind: ParseErrorKind::NumericParse, line: line as usize })
        } else {
            let pos = Vec3 {
                x: spec_parse_scalar(toks[1]).unwrap(),
                y: spec_parse_scalar(toks[2]).unwrap(),
                z: spec_parse_scalar(toks[3]).unwrap(),
            };
            Ok(vv.push(PosColor { pos, col: Vec3 { x: SCALE, y: SCALE, z: SCALE } }))
        }
    } else if toks.len() == 7 {
        if spec_parse_scalar(toks[1]) is None || spec_parse_scalar(toks[2]) is None
            || spec_parse_scalar(toks[3]) is None || spec_parse_scalar(toks[4]) is None
            || spec_parse_scalar(toks[5]) is None || spec_parse_scalar(toks[6]) is None {
            Err(ParseObjectError { kind: ParseErrorKind::NumericParse, line: line as usize })
        } else {
            let pos = Vec3 {
                x: spec_parse_scalar(toks[1]).unwrap(),
                y: spec_parse_scalar(toks[2]).unwrap(),
                z: spec_parse_scalar(toks[3]).unwrap(),
            };
            let col = Vec3 {
                x: spec_norm_channel(spec_parse_scalar(toks[4]).unwrap() as int),
                y: spec_norm_channel(spec_parse_scalar(toks[5]).unwrap() as int),
                z: spec_norm_channel(spec_parse_scalar(toks[6]).unwrap() as int),
            };
            Ok(vv.push(PosColor { pos, col }))
        }
    } else {
        Err(ParseObjectError { kind: ParseErrorKind::Arity, line: line as usize })
    }
}

/// A `vt` line: a 2-component form has its V coordinate flipped (`1 - v`); a
/// 3-component form is stored as given (the third component is ignored).
pub open spec fn spec_vt_line(vtt: Seq<Vec2>, toks: Seq<Seq<u8>>, line: nat) -> Result<
    Seq<Vec2>,
    ParseObjectError,
> {
    if toks.len() == 3 || toks.len() == 4 {
        if spec_parse_scalar(toks[1]) is None || spec_parse_scalar(toks[2]) is None {
            Err(ParseObjectError { kind: ParseErrorKind::NumericParse, line: line as usize })
        } else {
            let u = spec_parse_scalar(toks[1]).unwrap();
            let w = spec_parse_scalar(toks[2]).unwrap();
            let y = if toks.len() == 3 {
                fx_sub(SCALE as int, w as int) as i64
            } else {
                w
            };
            Ok(vtt.push(Vec2 { x: u, y }))
        }
    } else {
        Err(ParseObjectError { kind: ParseErrorKind::Arity, line: line as usize })
    }
}

/// A `vn` line: three components appended to the normal table.
pub open spec fn spec_vn_line(vnn: Seq<Vec3>, toks: Seq<Seq<u8>>, line: nat) -> Result<
    Seq<Vec3>,
    ParseObjectError,
> {
    if toks.len() == 4 {
        if spec_parse_scalar(toks[1]) is None || spec_parse_scalar(toks[2]) is None
            || spec_parse_scalar(toks[3]) is None {
            Err(ParseObjectError { kind: ParseErrorKind::NumericParse, line: line as usize })
        } else {
            Ok(
                vnn.push(
                    Vec3 {
                        x: spec_parse_scalar(toks[1]).unwrap(),
                        y: spec_parse_scalar(toks[2]).unwrap(),
                        z: spec_parse_scalar(toks[3]).unwrap(),
                    },
                ),
            )
        }
    } else {
        Err(ParseObjectError { kind: ParseErrorKind::Arity, line: line as usize })
    }
}

/// An `f` line: three references make one triangle, four make two (`a b c d`
/// becomes `a b c` and `a c d`), more than four are ignored, fewer are an
/// arity error.  Whether a flat normal is computed follows the first
/// reference alone.  Returns the new mesh and how many triangles were added.
pub open spec fn spec_f_line(
    vv: Seq<PosColor>,
    vtt: Seq<Vec2>,
    vnn: Seq<Vec3>,
    verts: Seq<Vertexxx>,
    inds: Seq<u32>,
    toks: Seq<Seq<u8>>,
    line: nat,
) -> Result<(Seq<Vertexxx>, Seq<u32>, nat), ParseObjectError> {
    if toks.len() == 4 {
        match spec_face_el(toks[1], vv, vtt, vnn) {
            Err(k) => Err(ParseObjectError { kind: k, line: line as usize }),
            Ok((v1, hn)) => match spec_face_el(toks[2], vv, vtt, vnn) {
                Err(k) => Err(ParseObjectError { kind: k, line: line as usize }),
                Ok((v2, _b2)) => match spec_face_el(toks[3], vv, vtt, vnn) {
                    Err(k) => Err(ParseObjectError { kind: k, line: line as usize }),
                    Ok((v3, _b3)) => {
                        let p = spec_handle_face(verts, inds, v1, v2, v3, hn);
                        Ok((p.0, p.1, 1nat))
                    },
                },
            },
        }
    } else if toks.len() == 5 {
        match spec_face_el(toks[1], vv, vtt, vnn) {
            Err(k) => Err(ParseObjectError { kind: k, line: line as usize }),
            Ok((v1, hn)) => match spec_face_el(toks[2], vv, vtt, vnn) {
                Err(k) => Err(ParseObjectError { kind: k, line: line as usize }),
                Ok((v2, _b2)) => match spec_face_el(toks[3], vv, vtt, vnn) {
                    Err(k) => Err(ParseObjectError { kind: k, line: line as usize }),
                    Ok((v3, _b3)) => match spec_face_el(toks[4], vv, vtt, vnn) {
                        Err(k) => Err(ParseObjectError { kind: k, line: line as usize }),
                        Ok((v4, _b4)) => {
                            let p = spec_handle_face(verts, inds, v1, v2, v3, hn);
                            let q = spec_handle_face(p.0, p.1, v1, v3, v4, hn);
                            Ok((q.0, q.1, 2nat))
                        },
                    },
                },
            },
        }
    } else if toks.len() > 5 {
        Ok((verts, inds, 0nat))
    } else {
        Err(ParseObjectError { kind: ParseErrorKind::Arity, line: line as usize })
    }
}

// ---------------------------------------------------------------------------
// The whole parse, one line at a time.
// ---------------------------------------------------------------------------

/// The transient parsing state: the three 1-indexed tables and the mesh
/// being built, plus the running triangle count.
pub struct ObjState {
    pub v: Seq<PosColor>,
    pub vt: Seq<Vec2>,
    pub vn: Seq<Vec3>,
    pub verts: Seq<Vertexxx>,
    pub inds: Seq<u32>,
    pub tris: nat,
}

/// Directives that are read and deliberately ignored: `#`, `o`, `s`, `g`,
/// `mtllib`, `usemtl`.
pub open spec fn is_ignored_directive(d: Seq<u8>) -> bool {
    (d.len() == 1 && (d[0] == 35 || d[0] == 111 || d[0] == 115 || d[0] == 103)) || (d.len() == 6
        && d[0] == 109 && d[1] == 116 && d[2] == 108 && d[3] == 108 && d[4] == 105 && d[5] == 98)
        || (d.len() == 6 && d[0] == 117 && d[1] == 115 && d[2] == 101 && d[3] == 109 && d[4] == 116
        && d[5] == 108)
}

/// One line of input: lines with fewer than two visible tokens are skipped,
/// otherwise the leading token selects the directive.
pub open spec fn spec_line_step(st: ObjState, toks: Seq<Seq<u8>>, line: nat) -> Result<
    ObjState,
    ParseObjectError,
> {
    if toks.len() < 2 {
        Ok(st)
    } else {
        let d = toks[0];
        if d.len() == 1 && d[0] == 118 {
            match spec_v_line(st.v, toks, line) {
                Ok(s) => Ok(ObjState { v: s, ..st }),
                Err(e) => Err(e),
            }
        } else if d.len() == 2 && d[0] == 118 && d[1] == 116 {
            match spec_vt_line(st.vt, toks, line) {
                Ok(s) => Ok(ObjState { vt: s, ..st }),
                Err(e) => Err(e),
            }
        } else if d.len() == 2 && d[0] == 118 && d[1] == 110 {
            match spec_vn_line(st.vn, toks, line) {
                Ok(s) => Ok(ObjState { vn: s, ..st }),
                Err(e) => Err(e),
            }
        } else if d.len() == 1 && d[0] == 102 {
            match spec_f_line(st.v, st.vt, st.vn, st.verts, st.inds, toks, line) {
                Ok(p) => Ok(ObjState { verts: p.0, inds: p.1, tris: (st.tris + p.2) as nat, ..st }),
                Err(e) => Err(e),
            }
        } else if is_ignored_directive(d) {
            Ok(st)
        } else {
            Err(ParseObjectError { kind: ParseErrorKind::MalformedDirective, line: line as usize })
        }
    }
}

/// The state a parse starts from: each table pre-seeded with one dummy slot
/// so OBJ's 1-based indices address it directly, and the vertex list
/// pre-seeded with the placeholder vertex.
pub open spec fn spec_init_state() -> ObjState {
    ObjState {
        v: seq![
            PosColor { pos: Vec3 { x: 0, y: 0, z: 0 }, col: Vec3 { x: 0, y: 0, z: 0 } },
        ],
        vt: seq![Vec2 { x: 0, y: 0 }],
        vn: seq![Vec3 { x: 0, y: 0, z: 0 }],
        verts: seq![spec_default_vertex()],
        inds: Seq::empty(),
        tris: 0,
    }
}

/// Fold the remaining lines, starting at line index `i`, through the state.
pub open spec fn spec_fold_from(lines: Seq<Seq<u8>>, i: int, st: ObjState) -> Result<
    ObjState,
    ParseObjectError,
> 
    decreases lines.len() - i,
{
    if i < 0 || i >= lines.len() {
        Ok(st)
    } else {
        match spec_line_step(st, spec_tokens(lines[i]), (i + 1) as nat) {
            Ok(st2) => spec_fold_from(lines, i + 1, st2),
            Err(e) => Err(e),
        }
    }
}

// ---------------------------------------------------------------------------
// Finalization: bounding box and synthesized texture coordinates.
// ---------------------------------------------------------------------------

/// Componentwise minimum.
pub open spec fn v3_min(a: Vec3, b: Vec3) -> Vec3 {
    Vec3 {
        x: if b.x < a.x {
            b.x
        } else {
            a.x
        },
        y: if b.y < a.y {
            b.y
        } else {
            a.y
        },
        z: if b.z < a.z {
            b.z
        } else {
            a.z
        },
    }
}

/// Componentwise maximum.
pub open spec fn v3_max(a: Vec3, b: Vec3) -> Vec3 {
    Vec3 {
        x: if b.x > a.x {
            b.x
        } else {
            a.x
        },
        y: if b.y > a.y {
            b.y
        } else {
            a.y
        },
        z: if b.z > a.z {
            b.z
        } else {
            a.z
        },
    }
}

pub open spec fn spec_min_fold(verts: Seq<Vertexxx>, i: int, cur: Vec3) -> Vec3
    decreases verts.len() - i,
{
    if i < 0 || i >= verts.len() {
        cur
    } else {
        spec_min_fold(verts, i + 1, v3_min(cur, verts[i].position))
    }
}

pub open spec fn spec_max_fold(verts: Seq<Vertexxx>, i: int, cur: Vec3) -> Vec3
    decreases verts.len() - i,
{
    if i < 0 || i >= verts.len() {
        cur
    } else {
        spec_max_fold(verts, i + 1, v3_max(cur, verts[i].position))
    }
}

/// Componentwise minimum of all vertex positions (placeholder included).
pub open spec fn spec_bbox_min(verts: Seq<Vertexxx>) -> Vec3 {
    spec_min_fold(verts, 0, Vec3 { x: FIXED_MAX, y: FIXED_MAX, z: FIXED_MAX })
}

/// Componentwise maximum of all vertex positions (placeholder included).
pub open spec fn spec_bbox_max(verts: Seq<Vertexxx>) -> Vec3 {
    spec_max_fold(verts, 0, Vec3 { x: (-FIXED_MAX) as i64, y: (-FIXED_MAX) as i64, z: (-FIXED_MAX) as i64 })
}

/// Bounding-box extents: maximum minus minimum, componentwise.
pub open spec fn spec_obj_size(verts: Seq<Vertexxx>) -> Vec3 {
    let mn = spec_bbox_min(verts);
    let mx = spec_bbox_max(verts);
    Vec3 {
        x: fx_sub(mx.x as int, mn.x as int) as i64,
        y: fx_sub(mx.y as int, mn.y as int) as i64,
        z: fx_sub(mx.z as int, mn.z as int) as i64,
    }
}

/// Bounding-box midpoint: half the componentwise sum of minimum and maximum.
pub open spec fn spec_obj_center(verts: Seq<Vertexxx>) -> Vec3 {
    let mn = spec_bbox_min(verts);
    let mx = spec_bbox_max(verts);
    Vec3 {
        x: fx_half(fx_add(mn.x as int, mx.x as int)) as i64,
        y: fx_half(fx_add(mn.y as int, mx.y as int)) as i64,
        z: fx_half(fx_add(mn.z as int, mx.z as int)) as i64,
    }
}

/// The planar fallback texture coordinate of one vertex, projected against
/// the mesh extents.
pub open spec fn spec_synth_texture(w: Vertexxx, size: Vec3) -> Vertexxx {
    Vertexxx {
        texture: Vec2 {
            x: fx_div(w.position.z as int, size.z as int) as i64,
            y: fx_div(fx_neg(w.position.y as int), size.y as int) as i64,
        },
        ..w
    }
}

/// The mesh an OBJ parse hands back, as mathematical sequences.
pub struct ObjOut {
    pub verts: Seq<Vertexxx>,
    pub inds: Seq<u32>,
    pub size: Vec3,
    pub center: Vec3,
    pub tris: nat,
}

/// Finalize a completed scan: derive extents and midpoint, and when the
/// source supplied no texture coordinates at all, synthesize naive ones.
pub open spec fn spec_finalize(st: ObjState) -> ObjOut {
    let size = spec_obj_size(st.verts);
    let center = spec_obj_center(st.verts);
    let verts2 = if st.vt.len() == 1 {
        st.verts.map_values(|w: Vertexxx| spec_synth_texture(w, size))
    } else {
        st.verts
    };
    ObjOut { verts: verts2, inds: st.inds, size, center, tris: st.tris }
}

/// What parsing a whole OBJ byte string yields.
pub open spec fn spec_parse_obj(b: Seq<u8>) -> Result<ObjOut, ParseObjectError> {
    match spec_fold_from(spec_split(b, 10), 0, spec_init_state()) {
        Ok(st) => Ok(spec_finalize(st)),
        Err(e) => Err(e),
    }
}

/// A split yields at most one segment more than there are bytes.
pub proof fn lemma_split_count(b: Seq<u8>, sep: u8)
    ensures
        spec_split(b, sep).len() <= b.len() + 1,
    decreases b.len(),
{
    lemma_sep_prefix_len_le(b, sep);
    let k = sep_prefix_len(b, sep);
    if k != b.len() {
        lemma_split_count(b.skip(k + 1int), sep);
    }
}

// ---------------------------------------------------------------------------
// Executable directive steps.
// ---------------------------------------------------------------------------

/// Relates a vector of byte vectors to its sequence-of-sequences view.
proof fn lemma_toks_deep_view(toks: &Vec<Vec<u8>>)
    ensures
        toks.deep_view().len() == toks@.len(),
        forall|i: int| 0 <= i < toks@.len() ==> (#[trigger] toks@[i])@ == toks.deep_view()[i],
{
    assert forall|i: int| 0 <= i < toks@.len() implies (#[trigger] toks@[i])@
        == toks.deep_view()[i] by {
        assert(toks@[i].deep_view() =~= toks@[i]@);
    }
}

/// Normalize a color channel.
fn norm_channel(c: i64) -> (r: i64)
    ensures
        r == spec_norm_channel(c as int),
{
    if c > SCALE {
        sat_div(c, 255_000_000)
    } else {
        c
    }
}

/// Apply a `v` line to the position table.
fn step_v(v: &mut Vec<PosColor>, toks: &Vec<Vec<u8>>, line: usize) -> (r: Result<
    (),
    ParseObjectError,
>)
    ensures
        match spec_v_line(old(v)@, toks.deep_view(), line as nat) {
            Ok(s) => r is Ok && final(v)@ == s,
            Err(e) => r == Err::<(), ParseObjectError>(e) && final(v)@ == old(v)@,
        },
{
    proof {
        lemma_toks_deep_view(toks);
    }
    if toks.len() == 4 {
        let x = match parse_scalar_token(toks[1].as_slice()) {
            Some(x) => x,
            None => {
                return Err(
                    ParseObjectError { kind: ParseErrorKind::NumericParse, line },
                );
            },
        };
        let y = match parse_scalar_token(toks[2].as_slice()) {
            Some(y) => y,
            None => {
                return Err(
                    ParseObjectError { kind: ParseErrorKind::NumericParse, line },
                );
            },
        };
        let z = match parse_scalar_token(toks[3].as_slice()) {
            Some(z) => z,
            None => {
                return Err(
                    ParseObjectError { kind: ParseErrorKind::NumericParse, line },
                );
            },
        };
        v.push(
            PosColor {
                pos: Vec3 { x, y, z },
                col: Vec3 { x: SCALE, y: SCALE, z: SCALE },
            },
        );
        Ok(())
    } else if toks.len() == 7 {
        let x = match parse_scalar_token(toks[1].as_slice()) {
            Some(x) => x,
            None => {
                return Err(
                    ParseObjectError { kind: ParseErrorKind::NumericParse, line },
                );
            },
        };
        let y = match parse_scalar_token(toks[2].as_slice()) {
            Some(y) => y,
            None => {
                return Err(
                    ParseObjectError { kind: ParseErrorKind::NumericParse, line },
                );
            },
        };
        let z = match parse_scalar_token(toks[3].as_slice()) {
            Some(z) => z,
            None => {
                return Err(
                    ParseObjectError { kind: ParseErrorKind::NumericParse, line },
                );
            },
        };
        let cr = match parse_scalar_token(toks[4].as_slice()) {
            Some(c) => c,
            None => {
                return Err(
                    ParseObjectError { kind: ParseErrorKind::NumericParse, line },
                );
            },
        };
        let cg = match parse_scalar_token(toks[5].as_slice()) {
            Some(c) => c,
            None => {
                return Err(
                    ParseObjectError { kind: ParseErrorKind::NumericParse, line },
                );
            },
        };
        let cb = match parse_scalar_token(toks[6].as_slice()) {
            Some(c) => c,
            None => {
                return Err(
                    ParseObjectError { kind: ParseErrorKind::NumericParse, line },
                );
            },
        };
        v.push(
            PosColor {
                pos: Vec3 { x, y, z },
                col: Vec3 { x: norm_channel(cr), y: norm_channel(cg), z: norm_channel(cb) },
            },
        );
        Ok(())
    } else {
        Err(ParseObjectError { kind: ParseErrorKind::Arity, line })
    }
}

/// Apply a `vt` line to the texture-coordinate table.
fn step_vt(vt: &mut Vec<Vec2>, toks: &Vec<Vec<u8>>, line: usize) -> (r: Result<
    (),
    ParseObjectError,
>)
    ensures
        match spec_vt_line(old(vt)@, toks.deep_view(), line as nat) {
            Ok(s) => r is Ok && final(vt)@ == s,
            Err(e) => r == Err::<(), ParseObjectError>(e) && final(vt)@ == old(vt)@,
        },
{
    proof {
        lemma_toks_deep_view(toks);
    }
    if toks.len() == 3 || toks.len() == 4 {
        let u = match parse_scalar_token(toks[1].as_slice()) {
            Some(u) => u,
            None => {
                return Err(
                    ParseObjectError { kind: ParseErrorKind::NumericParse, line },
                );
            },
        };
        let w = match parse_scalar_token(toks[2].as_slice()) {
            Some(w) => w,
            None => {
                return Err(
                    ParseObjectError { kind: ParseErrorKind::NumericParse, line },
                );
            },
        };
        let y = if toks.len() == 3 {
            sat_sub(SCALE, w)
        } else {
            w
        };
        vt.push(Vec2 { x: u, y });
        Ok(())
    } else {
        Err(ParseObjectError { kind: ParseErrorKind::Arity, line })
    }
}

/// Apply a `vn` line to the normal table.
fn step_vn(vn: &mut Vec<Vec3>, toks: &Vec<Vec<u8>>, line: usize) -> (r: Result<
    (),
    ParseObjectError,
>)
    ensures
        match spec_vn_line(old(vn)@, toks.deep_view(), line as nat) {
            Ok(s) => r is Ok && final(vn)@ == s,
            Err(e) => r == Err::<(), ParseObjectError>(e) && final(vn)@ == old(vn)@,
        },
{
    proof {
        lemma_toks_deep_view(toks);
    }
    if toks.len() == 4 {
        let x = match parse_scalar_token(toks[1].as_slice()) {
            Some(x) => x,
            None => {
                return Err(
                    ParseObjectError { kind: ParseErrorKind::NumericParse, line },
                );
            },
        };
        let y = match parse_scalar_token(toks[2].as_slice()) {
            Some(y) => y,
            None => {
                return Err(
                    ParseObjectError { kind: ParseErrorKind::NumericParse, line },
                );
            },
        };
        let z = match parse_scalar_token(toks[3].as_slice()) {
            Some(z) => z,
            None => {
                return Err(
                    ParseObjectError { kind: ParseErrorKind::NumericParse, line },
                );
            },
        };
        vn.push(Vec3 { x, y, z });
        Ok(())
    } else {
        Err(ParseObjectError { kind: ParseErrorKind::Arity, line })
    }
}

/// Apply an `f` line to the mesh being built.
fn step_f(
    v: &Vec<PosColor>,
    vt: &Vec<Vec2>,
    vn: &Vec<Vec3>,
    verts: &mut Vec<Vertexxx>,
    inds: &mut Vec<u32>,
    toks: &Vec<Vec<u8>>,
    line: usize,
) -> (r: Result<(), ParseObjectError>)
    requires
        old(verts)@.len() + 6 < 0x1_0000_0000,
    ensures
        match spec_f_line(v@, vt@, vn@, old(verts)@, old(inds)@, toks.deep_view(), line as nat) {
            Ok(p) => r is Ok && final(verts)@ == p.0 && final(inds)@ == p.1,
            Err(e) => r == Err::<(), ParseObjectError>(e) && final(verts)@ == old(verts)@
                && final(inds)@ == old(inds)@,
        },
        final(verts)@.len() <= old(verts)@.len() + 6,
{
    proof {
        lemma_toks_deep_view(toks);
    }
    if toks.len() == 4 {
        let (v1, hn) = match parse_face_el(toks[1].as_slice(), v, vt, vn) {
            Ok(p) => p,
            Err(k) => {
                return Err(ParseObjectError { kind: k, line });
            },
        };
        let (v2, _b2) = match parse_face_el(toks[2].as_slice(), v, vt, vn) {
            Ok(p) => p,
            Err(k) => {
                return Err(ParseObjectError { kind: k, line });
            },
        };
        let (v3, _b3) = match parse_face_el(toks[3].as_slice(), v, vt, vn) {
            Ok(p) => p,
            Err(k) => {
                return Err(ParseObjectError { kind: k, line });
            },
        };
        handle_face(v1, v2, v3, verts, inds, hn);
        Ok(())
    } else if toks.len() == 5 {
        let (v1, hn) = match parse_face_el(toks[1].as_slice(), v, vt, vn) {
            Ok(p) => p,
            Err(k) => {
                return Err(ParseObjectError { kind: k, line });
            },
        };
        let (v2, _b2) = match parse_face_el(toks[2].as_slice(), v, vt, vn) {
            Ok(p) => p,
            Err(k) => {
                return Err(ParseObjectError { kind: k, line });
            },
        };
        let (v3, _b3) = match parse_face_el(toks[3].as_slice(), v, vt, vn) {
            Ok(p) => p,
            Err(k) => {
                return Err(ParseObjectError { kind: k, line });
            },
        };
        let (v4, _b4) = match parse_face_el(toks[4].as_slice(), v, vt, vn) {
            Ok(p) => p,
            Err(k) => {
                return Err(ParseObjectError { kind: k, line });
            },
        };
        handle_face(v1, v2, v3, verts, inds, hn);
        handle_face(v1, v3, v4, verts, inds, hn);
        Ok(())
    } else if toks.len() > 5 {
        // a face with more than four references is ignored as recoverable
        Ok(())
    } else {
        Err(ParseObjectError { kind: ParseErrorKind::Arity, line })
    }
}

// ---------------------------------------------------------------------------
// The parse entry points.
// ---------------------------------------------------------------------------

/// Apply one line's visible tokens to the parsing state.
#[verifier::rlimit(80)]
fn line_step(
    v: &mut Vec<PosColor>,
    vt: &mut Vec<Vec2>,
    vn: &mut Vec<Vec3>,
    verts: &mut Vec<Vertexxx>,
    inds: &mut Vec<u32>,
    toks: &Vec<Vec<u8>>,
    line: usize,
    Ghost(tris0): Ghost<nat>,
) -> (r: Result<(), ParseObjectError>)
    requires
        old(verts)@.len() + 6 < 0x1_0000_0000,
    ensures
        ({
            let st0 = ObjState {
                v: old(v)@,
                vt: old(vt)@,
                vn: old(vn)@,
                verts: old(verts)@,
                inds: old(inds)@,
                tris: tris0,
            };
            match spec_line_step(st0, toks.deep_view(), line as nat) {
                Ok(st2) => r is Ok && final(v)@ == st2.v && final(vt)@ == st2.vt && final(vn)@
                    == st2.vn && final(verts)@ == st2.verts && final(inds)@ == st2.inds,
                Err(e) => r == Err::<(), ParseObjectError>(e),
            }
        }),
        final(verts)@.len() <= old(verts)@.len() + 6,
{
    proof {
        lemma_toks_deep_view(toks);
    }
    let ghost tv = toks.deep_view();
    if toks.len() < 2 {
        return Ok(());
    }
    let d0len = toks[0].len();
    let d00: u8 = if d0len == 0 {
        0
    } else {
        toks[0][0]
    };
    if d0len == 1 && d00 == 118 {
        match step_v(v, toks, line) {
            Ok(()) => Ok(()),
            Err(e) => Err(e),
        }
    } else if d0len == 2 && d00 == 118 && toks[0][1] == 116 {
        match step_vt(vt, toks, line) {
            Ok(()) => Ok(()),
            Err(e) => Err(e),
        }
    } else if d0len == 2 && d00 == 118 && toks[0][1] == 110 {
        match step_vn(vn, toks, line) {
            Ok(()) => Ok(()),
            Err(e) => Err(e),
        }
    } else if d0len == 1 && d00 == 102 {
        match step_f(v, vt, vn, verts, inds, toks, line) {
            Ok(()) => Ok(()),
            Err(e) => Err(e),
        }
    } else {
        let ignored = (d0len == 1 && (d00 == 35 || d00 == 111 || d00 == 115 || d00 == 103)) || (
        d0len == 6 && {
            let t = &toks[0];
            (t[0] == 109 && t[1] == 116 && t[2] == 108 && t[3] == 108 && t[4] == 105 && t[5] == 98)
                || (t[0] == 117 && t[1] == 115 && t[2] == 101 && t[3] == 109 && t[4] == 116 && t[5]
                == 108)
        });
        if ignored {
            proof {
                assert(is_ignored_directive(tv[0]));
            }
            Ok(())
        } else {
            proof {
                assert(!is_ignored_directive(tv[0]));
            }
            Err(ParseObjectError { kind: ParseErrorKind::MalformedDirective, line })
        }
    }
}

impl Object {
    /// Parse OBJ text, given as bytes, into an indexed mesh.
    ///
    /// The input length is bounded so that every vertex index provably fits
    /// the `u32` index buffer.
    #[verifier::rlimit(80)]
    pub fn parse_bytes(bytes: &[u8]) -> (r: Result<Object, ParseObjectError>)
        requires
            bytes@.len() <= 0x2000_0000,
        ensures
            match r {
                Ok(o) => spec_parse_obj(bytes@) is Ok && ({
                    let out = spec_parse_obj(bytes@).unwrap();
                    o.vertex@ == out.verts && o.indice@ == out.inds && o.size == out.size
                        && o.center == out.center
                }),
                Err(e) => spec_parse_obj(bytes@) == Err::<ObjOut, ParseObjectError>(e),
            },
    {
        let lines = split_bytes(bytes, 10);
        let ghost ls = lines.deep_view();
        proof {
            lemma_split_count(bytes@, 10);
            lemma_toks_deep_view(&lines);
        }
        let nl = lines.len();

        let mut v: Vec<PosColor> = Vec::new();
        v.push(PosColor { pos: Vec3 { x: 0, y: 0, z: 0 }, col: Vec3 { x: 0, y: 0, z: 0 } });
        let mut vt: Vec<Vec2> = Vec::new();
        vt.push(Vec2 { x: 0, y: 0 });
        let mut vn: Vec<Vec3> = Vec::new();
        vn.push(Vec3 { x: 0, y: 0, z: 0 });
        let mut verts: Vec<Vertexxx> = Vec::new();
        verts.push(Vertexxx::default());
        let mut inds: Vec<u32> = Vec::new();

        let ghost mut st = spec_init_state();
        proof {
            assert(st.v =~= v@);
            assert(st.vt =~= vt@);
            assert(st.vn =~= vn@);
            assert(st.verts =~= verts@);
            assert(st.inds =~= inds@);
        }

        let mut li: usize = 0;
        while li < nl
            invariant
                li <= nl,
                nl == ls.len(),
                ls == lines.deep_view(),
                ls == spec_split(bytes@, 10),
                nl == lines@.len(),
                forall|i: int| 0 <= i < lines@.len() ==> (#[trigger] lines@[i])@ == ls[i],
                ls.len() <= bytes@.len() + 1,
                bytes@.len() <= 0x2000_0000,
                spec_fold_from(ls, 0, spec_init_state()) == spec_fold_from(ls, li as int, st),
                st.v == v@,
                st.vt == vt@,
                st.vn == vn@,
                st.verts == verts@,
                st.inds == inds@,
                verts@.len() <= 1 + 6 * li,
            decreases nl - li,
        {
            let toks = tokenize(lines[li].as_slice());
            let ghost tv = spec_tokens(ls[li as int]);
            proof {
                assert(toks.deep_view() == tv);
            }
            let line_no = li + 1;
            let ghost st0 = st;
            match line_step(
                &mut v,
                &mut vt,
                &mut vn,
                &mut verts,
                &mut inds,
                &toks,
                line_no,
                Ghost(st0.tris),
            ) {
                Ok(()) => {
                    proof {
                        st = spec_line_step(st0, tv, line_no as nat).unwrap();
                        assert(spec_fold_from(ls, li as int, st0) == spec_fold_from(
                            ls,
                            li + 1,
                            st,
                        ));
                    }
                },
                Err(e) => {
                    proof {
                        assert(spec_fold_from(ls, li as int, st0) == Err::<
                            ObjState,
                            ParseObjectError,
                        >(e));
                    }
                    return Err(e);
                },
            }
            li = li + 1;
        }

        // finalize: bounding box
        let mut mn = Vec3 { x: FIXED_MAX, y: FIXED_MAX, z: FIXED_MAX };
        let mut mx = Vec3 { x: -FIXED_MAX, y: -FIXED_MAX, z: -FIXED_MAX };
        let nv = verts.len();
        let mut i: usize = 0;
        while i < nv
            invariant
                i <= nv,
                nv == verts@.len(),
                spec_bbox_min(verts@) == spec_min_fold(verts@, i as int, mn),
                spec_bbox_max(verts@) == spec_max_fold(verts@, i as int, mx),
            decreases nv - i,
        {
            let p = verts[i].position;
            mn = Vec3 {
                x: if p.x < mn.x {
                    p.x
                } else {
                    mn.x
                },
                y: if p.y < mn.y {
                    p.y
                } else {
                    mn.y
                },
                z: if p.z < mn.z {
                    p.z
                } else {
                    mn.z
                },
            };
            mx = Vec3 {
                x: if p.x > mx.x {
                    p.x
                } else {
                    mx.x
                },
                y: if p.y > mx.y {
                    p.y
                } else {
                    mx.y
                },
                z: if p.z > mx.z {
                    p.z
                } else {
                    mx.z
                },
            };
            i = i + 1;
        }
        let size = Vec3 {
            x: sat_sub(mx.x, mn.x),
            y: sat_sub(mx.y, mn.y),
            z: sat_sub(mx.z, mn.z),
        };
        let center = Vec3 {
            x: sat_half(sat_add(mn.x, mx.x)),
            y: sat_half(sat_add(mn.y, mx.y)),
            z: sat_half(sat_add(mn.z, mx.z)),
        };

        let ghost verts_scanned = verts@;
        if vt.len() == 1 {
            // no texture coordinates in the source: synthesize naive ones
            let mut j: usize = 0;
            while j < nv
                invariant
                    j <= nv,
                    nv == verts@.len(),
                    verts@.len() == verts_scanned.len(),
                    size == spec_obj_size(verts_scanned),
                    forall|k: int|
                        0 <= k < j ==> verts@[k] == spec_synth_texture(
                            #[trigger] verts_scanned[k],
                            size,
                        ),
                    forall|k: int| j <= k < nv ==> verts@[k] == #[trigger] verts_scanned[k],
                decreases nv - j,
            {
                let py = verts[j].position.y;
                let pz = verts[j].position.z;
                let t = Vec2 { x: sat_div(pz, size.z), y: sat_div(sat_neg(py), size.y) };
                verts[j].texture = t;
                j = j + 1;
            }
            proof {
                assert(verts@ =~= verts_scanned.map_values(
                    |w: Vertexxx| spec_synth_texture(w, size),
                ));
            }
        }

        Ok(Object { vertex: verts, indice: inds, size, center })
    }

    /// Parse OBJ text into an indexed mesh.
    ///
    /// The text length is bounded so that every vertex index provably fits
    /// the `u32` index buffer.
    pub fn parse(object: &str) -> (r: Result<Object, ParseObjectError>)
        requires
            object.spec_bytes().len() <= 0x2000_0000,
        ensures
            match r {
                Ok(o) => spec_parse_obj(object.spec_bytes()) is Ok && ({
                    let out = spec_parse_obj(object.spec_bytes()).unwrap();
                    o.vertex@ == out.verts && o.indice@ == out.inds && o.size == out.size
                        && o.center == out.center
                }),
                Err(e) => spec_parse_obj(object.spec_bytes()) == Err::<ObjOut, ParseObjectError>(e),
            },
    {
        Object::parse_bytes(object.as_bytes())
    }
}

} // verus!
