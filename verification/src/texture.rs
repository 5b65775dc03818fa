//! The ASCII PPM (`P3`) texture decoder.
//!
//! A `P3` file holds a magic line, a width/height line, a maximum channel
//! value, and whitespace-separated channel values; the decoder rescales each
//! channel to the 0-255 range and emits RGBA bytes (alpha fixed at 255).

use vstd::prelude::*;
use vstd::string::StringSliceAdditionalSpecFns;

use crate::numparse::{parse_u32_token, spec_parse_u32};
use crate::obj::{spec_split, spec_tokens, split_bytes, tokenize};

verus! {

/// What a texture decode rejects.
#[derive(Clone, Copy, Debug, PartialEq, Eq, Structural)]
pub enum TextureError {
    /// Wrong magic, too few header lines, or channel data that does not
    /// match the declared dimensions.
    ImageFormatError,
    /// A dimension, maximum or channel value that the grammar does not
    /// accept.
    NumericParseError,
}

/// A decoded RGBA texture.
#[derive(Clone, Debug)]
pub struct Texture {
    pub width: u32,
    pub height: u32,
    /// Four bytes per pixel, rows in file order.
    pub data: Vec<u8>,
}

/// A line with one trailing carriage return removed.
pub open spec fn strip_cr(l: Seq<u8>) -> Seq<u8> {
    if l.len() > 0 && l.last() == 13 {
        l.drop_last()
    } else {
        l
    }
}

/// The meaningful lines of a PPM file: carriage returns stripped, empty
/// lines and whole-line comments dropped.
pub open spec fn spec_clean_lines(ls: Seq<Seq<u8>>) -> Seq<Seq<u8>>
    decreases ls.len(),
{
    if ls.len() == 0 {
        Seq::empty()
    } else {
        let l0 = strip_cr(ls[0]);
        let rest = spec_clean_lines(ls.drop_first());
        if l0.len() > 0 && l0[0] != 35 {
            seq![l0] + rest
        } else {
            rest
        }
    }
}

/// Rescale one channel value from the 0-`maxv` range to 0-255, saturating;
/// a zero maximum saturates every nonzero value.
pub open spec fn scale_channel(v: int, maxv: int) -> u8 {
    if maxv == 0 {
        if v == 0 {
            0u8
        } else {
            255u8
        }
    } else {
        let s = v * 255 / maxv;
        if s > 255 {
            255u8
        } else {
            s as u8
        }
    }
}

/// Decode the channel tokens of one line: each value is rescaled and
/// appended, and every third channel is followed by an alpha byte.
pub open spec fn spec_pixel_tokens(
    toks: Seq<Seq<u8>>,
    j: int,
    maxv: int,
    data: Seq<u8>,
    chan: int,
) -> Result<(Seq<u8>, int), TextureError>
    decreases toks.len() - j,
{
    if j < 0 || j >= toks.len() {
        Ok((data, chan))
    } else {
        match spec_parse_u32(toks[j]) {
            None => Err(TextureError::NumericParseError),
            Some(v) => {
                let d1 = data.push(scale_channel(v as int, maxv));
                let d2 = if chan == 2 {
                    d1.push(255u8)
                } else {
                    d1
                };
                spec_pixel_tokens(toks, j + 1, maxv, d2, if chan == 2 {
                    0
                } else {
                    chan + 1
                })
            },
        }
    }
}

/// Decode the channel data of all remaining lines.
pub open spec fn spec_pixel_lines(
    ls: Seq<Seq<u8>>,
    i: int,
    maxv: int,
    data: Seq<u8>,
    chan: int,
) -> Result<(Seq<u8>, int), TextureError>
    decreases ls.len() - i,
{
    if i < 0 || i >= ls.len() {
        Ok((data, chan))
    } else {
        match spec_pixel_tokens(spec_tokens(ls[i]), 0, maxv, data, chan) {
            Ok((d2, c2)) => spec_pixel_lines(ls, i + 1, maxv, d2, c2),
            Err(e) => Err(e),
        }
    }
}

/// The texture as mathematical values.
pub struct TextureOut {
    pub width: u32,
    pub height: u32,
    pub data: Seq<u8>,
}

/// What decoding a whole PPM byte string yields.
pub open spec fn spec_parse_ppm(b: Seq<u8>) -> Result<TextureOut, TextureError> {
    let ls = spec_clean_lines(spec_split(b, 10));
    if ls.len() < 3 {
        Err(TextureError::ImageFormatError)
    } else if !(ls[0].len() == 2 && ls[0][0] == 80 && ls[0][1] == 51) {
        Err(TextureError::ImageFormatError)
    } else {
        let dim = spec_tokens(ls[1]);
        if dim.len() < 2 {
            Err(TextureError::ImageFormatError)
        } else if spec_parse_u32(dim[0]) is None || spec_parse_u32(dim[1]) is None {
            Err(TextureError::NumericParseError)
        } else {
            let w = spec_parse_u32(dim[0]).unwrap();
            let h = spec_parse_u32(dim[1]).unwrap();
            let mtoks = spec_tokens(ls[2]);
            if mtoks.len() != 1 {
                Err(TextureError::ImageFormatError)
            } else {
                match spec_parse_u32(mtoks[0]) {
                    None => Err(TextureError::NumericParseError),
                    Some(maxv) => if maxv > 0xffff {
                        Err(TextureError::NumericParseError)
                    } else {
                        match spec_pixel_lines(ls, 3, maxv as int, Seq::empty(), 0) {
                            Err(e) => Err(e),
                            Ok((data, _chan)) => if data.len() != 4 * (w as int) * (h as int) {
                                Err(TextureError::ImageFormatError)
                            } else {
                                Ok(TextureOut { width: w, height: h, data })
                            },
                        }
                    },
                }
            }
        }
    }
}

/// The meaningful lines of a PPM file.
fn clean_lines(b: &[u8]) -> (r: Vec<Vec<u8>>)
    ensures
        r.deep_view() == spec_clean_lines(spec_split(b@, 10)),
{
    let raw = split_bytes(b, 10);
    let ghost ls = raw.deep_view();
    let mut out: Vec<Vec<u8>> = Vec::new();
    let n = raw.len();
    let mut i: usize = 0;
    proof {
        assert(raw@.len() == ls.len());
        assert(ls.skip(0) =~= ls);
        assert(out.deep_view() =~~= Seq::<Seq<u8>>::empty());
        assert(Seq::<Seq<u8>>::empty() + spec_clean_lines(ls) =~= spec_clean_lines(ls));
    }
    while i < n
        invariant
            i <= n,
            n == raw@.len(),
            n == ls.len(),
            ls == raw.deep_view(),
            forall|k: int| 0 <= k < n ==> (#[trigger] raw@[k])@ == ls[k],
            spec_clean_lines(ls) == out.deep_view() + spec_clean_lines(ls.skip(i as int)),
        decreases n - i,
    {
        let mut line = vstd::slice::slice_to_vec(raw[i].as_slice());
        proof {
            assert(ls.skip(i as int)[0] == ls[i as int]);
            assert(ls.skip(i as int).drop_first() =~= ls.skip(i + 1));
        }
        if line.len() > 0 && line[line.len() - 1] == 13 {
            line.pop();
            proof {
                assert(line@ =~= strip_cr(ls[i as int]));
            }
        }
        proof {
            assert(line@ == strip_cr(ls[i as int]));
        }
        if line.len() > 0 && line[0] != 35 {
            let ghost out_pre = out.deep_view();
            out.push(line);
            proof {
                assert(out.deep_view() =~~= out_pre + seq![strip_cr(ls[i as int])]);
                assert((out_pre + seq![strip_cr(ls[i as int])]) + spec_clean_lines(
                    ls.skip(i + 1),
                ) =~= out_pre + (seq![strip_cr(ls[i as int])] + spec_clean_lines(ls.skip(i + 1))));
            }
        }
        i = i + 1;
    }
    proof {
        assert(spec_clean_lines(ls.skip(n as int)) =~= Seq::<Seq<u8>>::empty());
        assert(out.deep_view() + Seq::<Seq<u8>>::empty() =~= out.deep_view());
    }
    out
}

/// Rescale one channel value.
fn scale_channel_exec(v: u32, maxv: u32) -> (r: u8)
    requires
        maxv <= 0xffff,
    ensures
        r == scale_channel(v as int, maxv as int),
{
    if maxv == 0 {
        if v == 0 {
            0
        } else {
            255
        }
    } else {
        let s: u64 = (v as u64) * 255 / (maxv as u64);
        if s > 255 {
            255
        } else {
            s as u8
        }
    }
}

/// After the header of a PPM file has been read, the decode result is a
/// function of the pixel fold alone.
pub open spec fn ppm_summary(b: Seq<u8>, lsv: Seq<Seq<u8>>, w: u32, h: u32, maxv: u32) -> bool {
    spec_parse_ppm(b) == (match spec_pixel_lines(lsv, 3, maxv as int, Seq::empty(), 0) {
        Err(e) => Err::<TextureOut, TextureError>(e),
        Ok(p) => if p.0.len() != 4 * (w as int) * (h as int) {
            Err::<TextureOut, TextureError>(TextureError::ImageFormatError)
        } else {
            Ok::<TextureOut, TextureError>(TextureOut { width: w, height: h, data: p.0 })
        },
    })
}

impl Texture {
    /// Decode an ASCII `P3` PPM image into an RGBA texture.
    pub fn parse_ppm(file: &str) -> (r: Result<Texture, TextureError>)
        ensures
            match r {
                Ok(t) => spec_parse_ppm(file.spec_bytes()) is Ok && ({
                    let out = spec_parse_ppm(file.spec_bytes()).unwrap();
                    t.width == out.width && t.height == out.height && t.data@ == out.data
                }),
                Err(e) => spec_parse_ppm(file.spec_bytes()) == Err::<TextureOut, TextureError>(e),
            },
    {
        let b = file.as_bytes();
        let ls = clean_lines(b);
        let ghost lsv = ls.deep_view();
        proof {
            assert(ls@.len() == lsv.len());
            assert forall|k: int| 0 <= k < ls@.len() implies (#[trigger] ls@[k])@ == lsv[k] by {
                assert(ls@[k].deep_view() =~= ls@[k]@);
            }
        }
        if ls.len() < 3 {
            return Err(TextureError::ImageFormatError);
        }
        let magic = &ls[0];
        if !(magic.len() == 2 && magic[0] == 80 && magic[1] == 51) {
            return Err(TextureError::ImageFormatError);
        }
        let dim = tokenize(ls[1].as_slice());
        proof {
            assert forall|k: int| 0 <= k < dim@.len() implies (#[trigger] dim@[k])@
                == spec_tokens(lsv[1])[k] by {
                assert(dim@[k].deep_view() =~= dim@[k]@);
            }
            assert(dim@.len() == spec_tokens(lsv[1]).len());
        }
        if dim.len() < 2 {
            return Err(TextureError::ImageFormatError);
        }
        let w = match parse_u32_token(dim[0].as_slice()) {
            Some(w) => w,
            None => {
                return Err(TextureError::NumericParseError);
            },
        };
        let h = match parse_u32_token(dim[1].as_slice()) {
            Some(h) => h,
            None => {
                return Err(TextureError::NumericParseError);
            },
        };
        let mtoks = tokenize(ls[2].as_slice());
        proof {
            assert forall|k: int| 0 <= k < mtoks@.len() implies (#[trigger] mtoks@[k])@
                == spec_tokens(lsv[2])[k] by {
                assert(mtoks@[k].deep_view() =~= mtoks@[k]@);
            }
            assert(mtoks@.len() == spec_tokens(lsv[2]).len());
        }
        if mtoks.len() != 1 {
            return Err(TextureError::ImageFormatError);
        }
        let maxv = match parse_u32_token(mtoks[0].as_slice()) {
            Some(m) => m,
            None => {
                return Err(TextureError::NumericParseError);
            },
        };
        if maxv > 0xffff {
            return Err(TextureError::NumericParseError);
        }

        proof {
            assert(ppm_summary(file.spec_bytes(), lsv, w, h, maxv));
        }
        let mut data: Vec<u8> = Vec::new();
        let mut chan: u8 = 0;
        let nl = ls.len();
        let mut i: usize = 3;
        while i < nl
            invariant
                3 <= i <= nl,
                nl == ls@.len(),
                nl == lsv.len(),
                lsv == ls.deep_view(),
                forall|k: int| 0 <= k < nl ==> (#[trigger] ls@[k])@ == lsv[k],
                maxv <= 0xffff,
                chan < 3,
                ppm_summary(file.spec_bytes(), lsv, w, h, maxv),
                spec_pixel_lines(lsv, 3, maxv as int, Seq::empty(), 0) == spec_pixel_lines(
                    lsv,
                    i as int,
                    maxv as int,
                    data@,
                    chan as int,
                ),
            decreases nl - i,
        {
            let toks = tokenize(ls[i].as_slice());
            let ghost tv = spec_tokens(lsv[i as int]);
            proof {
                assert forall|k: int| 0 <= k < toks@.len() implies (#[trigger] toks@[k])@
                    == tv[k] by {
                    assert(toks@[k].deep_view() =~= toks@[k]@);
                }
                assert(toks@.len() == tv.len());
            }
            let ghost data0 = data@;
            let ghost chan0 = chan as int;
            let nt = toks.len();
            let mut j: usize = 0;
            while j < nt
                invariant
                    j <= nt,
                    nt == toks@.len(),
                    nt == tv.len(),
                    forall|k: int| 0 <= k < nt ==> (#[trigger] toks@[k])@ == tv[k],
                    maxv <= 0xffff,
                    chan < 3,
                    ppm_summary(file.spec_bytes(), lsv, w, h, maxv),
                    spec_pixel_lines(lsv, 3, maxv as int, Seq::empty(), 0) == spec_pixel_lines(
                        lsv,
                        i as int,
                        maxv as int,
                        data0,
                        chan0,
                    ),
                    3 <= i < nl,
                    nl == lsv.len(),
                    tv == spec_tokens(lsv[i as int]),
                    spec_pixel_tokens(tv, 0, maxv as int, data0, chan0) == spec_pixel_tokens(
                        tv,
                        j as int,
                        maxv as int,
                        data@,
                        chan as int,
                    ),
                decreases nt - j,
            {
                let v = match parse_u32_token(toks[j].as_slice()) {
                    Some(v) => v,
                    None => {
                        proof {
                            assert(spec_pixel_tokens(tv, j as int, maxv as int, data@, chan as int)
                                == Err::<(Seq<u8>, int), TextureError>(
                                TextureError::NumericParseError,
                            ));
                            assert(spec_pixel_lines(lsv, i as int, maxv as int, data0, chan0)
                                == Err::<(Seq<u8>, int), TextureError>(
                                TextureError::NumericParseError,
                            ));
                            assert(spec_pixel_lines(lsv, 3, maxv as int, Seq::empty(), 0)
                                == Err::<(Seq<u8>, int), TextureError>(
                                TextureError::NumericParseError,
                            ));
                        }
                        return Err(TextureError::NumericParseError);
                    },
                };
                data.push(scale_channel_exec(v, maxv));
                if chan == 2 {
                    data.push(255);
                    chan = 0;
                } else {
                    chan = chan + 1;
                }
                j = j + 1;
            }
            proof {
                assert(spec_pixel_tokens(tv, nt as int, maxv as int, data@, chan as int) == Ok::<
                    (Seq<u8>, int),
                    TextureError,
                >((data@, chan as int)));
                assert(spec_pixel_lines(lsv, i as int, maxv as int, data0, chan0)
                    == spec_pixel_lines(lsv, i + 1, maxv as int, data@, chan as int));
            }
            i = i + 1;
        }
        proof {
            assert(spec_pixel_lines(lsv, nl as int, maxv as int, data@, chan as int) == Ok::<
                (Seq<u8>, int),
                TextureError,
            >((data@, chan as int)));
        }
        proof {
            assert((4 * (w as int)) * (h as int) <= (4 * 0xffff_ffffint) * 0xffff_ffffint)
                by (nonlinear_arith)
                requires
                    0 <= w <= 0xffff_ffffint,
                    0 <= h <= 0xffff_ffffint,
            ;
        }
        let total: u128 = (4u128 * (w as u128)) * (h as u128);
        if (data.len() as u128) != total {
            return Err(TextureError::ImageFormatError);
        }
        Ok(Texture { width: w, height: h, data })
    }
}

} // verus!
