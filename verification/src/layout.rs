//! Pure layout helpers for the document renderer: scaling a QR module
//! matrix into a padded RGB pixel buffer, and splitting long encoded texts
//! into spaced lines for printing.

use vstd::prelude::*;
use crate::caps;
use crate::caps::{qr_fits, qr_modules_of};

verus! {

// ---------------------------------------------------------------------------
// QR code scaling
// ---------------------------------------------------------------------------

/// The grey value of the pixel at `(x, y)` of the scaled image: white in the
/// padding border, and otherwise white or black as the underlying module of
/// the matrix is light or dark.
pub open spec fn qr_pixel(
    m: Seq<bool>,
    w: nat,
    scale: nat,
    pad: nat,
    x: int,
    y: int,
) -> u8 {
    if x < pad || y < pad || x >= pad + w * scale || y >= pad + w * scale {
        255u8
    } else if m[((x - pad) / scale as int) * w + ((y - pad) / scale as int)] {
        0u8
    } else {
        255u8
    }
}

/// Generate a QR code for the data. The output is a vector of RGB values,
/// three bytes per pixel, of width `(modules * scalefactor) + padding` with
/// a ten-pixel white border on every side, row by row; `None` exactly when
/// the data does not fit any QR code version. The bound on the scale factor
/// keeps the RGB buffer length below 2^31 even for the widest code, so the
/// index arithmetic cannot overflow on any machine; the renderer uses at
/// most 20.
pub fn qrcode_scaled(data: &[u8], scalefactor: usize) -> (r: Option<(Vec<u8>, usize)>)
    requires
        1 <= scalefactor <= 64,
    ensures
        r is Some <==> qr_fits(data@),
        r matches Some(t) ==> exists|w: nat|
            #![trigger w * w]
            {
                &&& qr_modules_of(data@).len() == w * w
                &&& w <= 177
                &&& t.1 == w * scalefactor + 20
                &&& t.0@.len() == 3 * t.1 * t.1
                &&& forall|k: int|
                    0 <= k < t.0@.len() ==> t.0@[k] == qr_pixel(
                        qr_modules_of(data@),
                        w,
                        scalefactor as nat,
                        10,
                        (k / 3) / t.1 as int,
                        (k / 3) % t.1 as int,
                    )
            },
{
    let looked = caps::qr_code_modules(data);
    let (m, w) = match looked {
        Some(t) => t,
        None => {
            return None;
        },
    };
    proof {
        assert(w * scalefactor <= 177 * 64) by (nonlinear_arith)
            requires
                w <= 177,
                scalefactor <= 64,
            {
        }
    }
    let padding: usize = 10;
    let scaledsize: usize = w * scalefactor;
    let finalsize: usize = scaledsize + 2 * padding;
    let ghost fs = finalsize as int;
    let ghost mm = m@;
    let ghost ww = w as nat;
    let ghost sc = scalefactor as nat;
    let mut img: Vec<u8> = Vec::new();
    let mut x: usize = 0;
    proof {
        assert(3 * 0 * fs == 0) by (nonlinear_arith) {}
    }
    while x < finalsize
        invariant
            x <= finalsize,
            finalsize == w * scalefactor + 20,
            finalsize <= 11348,
            scaledsize == w * scalefactor,
            padding == 10,
            w <= 177,
            1 <= scalefactor <= 64,
            mm.len() == w * w,
            mm == m@,
            img@.len() == 3 * (x as int) * fs,
            fs == finalsize as int,
            forall|k: int|
                0 <= k < img@.len() ==> #[trigger] img@[k] == qr_pixel(
                    mm,
                    ww,
                    sc,
                    10,
                    (k / 3) / fs,
                    (k / 3) % fs,
                ),
            ww == w as nat,
            sc == scalefactor as nat,
        decreases finalsize - x,
    {
        let mut y: usize = 0;
        proof {
            assert(3 * (x as int) * fs == 3 * ((x as int) * fs)) by (nonlinear_arith) {}
        }
        while y < finalsize
            invariant
                x < finalsize,
                y <= finalsize,
                finalsize == w * scalefactor + 20,
                finalsize <= 11348,
                scaledsize == w * scalefactor,
                padding == 10,
                w <= 177,
                1 <= scalefactor <= 64,
                mm.len() == w * w,
                mm == m@,
                img@.len() == 3 * ((x as int) * fs + y as int),
                fs == finalsize as int,
                forall|k: int|
                    0 <= k < img@.len() ==> #[trigger] img@[k] == qr_pixel(
                        mm,
                        ww,
                        sc,
                        10,
                        (k / 3) / fs,
                        (k / 3) % fs,
                    ),
                ww == w as nat,
                sc == scalefactor as nat,
            decreases finalsize - y,
        {
            let v: u8 = if x < padding || y < padding || x >= padding + scaledsize || y >= padding
                + scaledsize {
                255
            } else {
                let mx = (x - padding) / scalefactor;
                let my = (y - padding) / scalefactor;
                proof {
                    assert(mx < w && my < w) by (nonlinear_arith)
                        requires
                            mx as int == (x - padding) as int / scalefactor as int,
                            my as int == (y - padding) as int / scalefactor as int,
                            ((x - padding) as int) < (w as int) * (scalefactor as int),
                            ((y - padding) as int) < (w as int) * (scalefactor as int),
                            x >= padding,
                            y >= padding,
                            scalefactor >= 1,
                        {
                    }
                    assert(mx * w + my < w * w && w * w <= 31329) by (nonlinear_arith)
                        requires
                            mx < w,
                            my < w,
                            w <= 177,
                        {
                    }
                }
                let mi = mx * w + my;
                if m[mi] {
                    0
                } else {
                    255
                }
            };
            proof {
                assert(v == qr_pixel(mm, ww, sc, 10, x as int, y as int));
            }
            let ghost base = img@.len() as int;
            img.push(v);
            img.push(v);
            img.push(v);
            proof {
                let cell = (x as int) * fs + y as int;
                assert(base == 3 * cell);
                assert(cell / fs == x as int && cell % fs == y as int) by (nonlinear_arith)
                    requires
                        cell == (x as int) * fs + y as int,
                        0 <= (y as int) < fs,
                        0 <= (x as int),
                    {
                }
                assert forall|k: int| 0 <= k < img@.len() implies #[trigger] img@[k] == qr_pixel(
                    mm,
                    ww,
                    sc,
                    10,
                    (k / 3) / fs,
                    (k / 3) % fs,
                ) by {
                    if k < base {
                    } else {
                        assert(img@[k] == v);
                        assert(k / 3 == cell) by {
                            assert(3 * cell <= k < 3 * cell + 3);
                        }
                    }
                }
                assert(3 * ((x as int) * fs + y as int) + 3 == 3 * ((x as int) * fs + (y as int
                    + 1)));
            }
            y = y + 1;
        }
        proof {
            assert(3 * ((x as int) * fs + fs) == 3 * ((x as int) + 1) * fs) by (nonlinear_arith) {}
        }
        x = x + 1;
    }
    proof {
        assert(qr_modules_of(data@).len() == ww * ww);
        assert(finalsize as int == ww * sc + 20);
        assert(img@.len() == 3 * (finalsize as int) * fs);
    }
    Some((img, finalsize))
}

// ---------------------------------------------------------------------------
// Splitting text into spaced lines
// ---------------------------------------------------------------------------

/// The chunk of `line` that starts at `j * bs`, at most `bs` characters.
pub open spec fn chunk_at(line: Seq<char>, bs: int, j: int) -> Seq<char> {
    line.subrange(
        j * bs,
        if (j + 1) * bs > line.len() {
            line.len() as int
        } else {
            (j + 1) * bs
        },
    )
}

/// The first `j` chunks of a line, each preceded by one space, exactly as
/// the renderer accumulates them.
pub open spec fn spaced_upto(line: Seq<char>, bs: int, j: int) -> Seq<char>
    decreases j,
{
    if j <= 0 {
        Seq::empty()
    } else {
        spaced_upto(line, bs, j - 1) + seq![' '] + chunk_at(line, bs, j - 1)
    }
}

/// The sequence without its leading spaces.
pub open spec fn trim_start_sp(s: Seq<char>) -> Seq<char>
    decreases s.len(),
{
    if s.len() > 0 && s[0] == ' ' {
        trim_start_sp(s.drop_first())
    } else {
        s
    }
}

/// The sequence without its trailing spaces.
pub open spec fn trim_end_sp(s: Seq<char>) -> Seq<char>
    decreases s.len(),
{
    if s.len() > 0 && s.last() == ' ' {
        trim_end_sp(s.drop_last())
    } else {
        s
    }
}

/// The line that row `i` of the split shows: the `i`-th piece of `max`
/// characters, re-spaced at `bs` intervals and trimmed.
pub open spec fn split_row(s: Seq<char>, max: int, bs: int, i: int) -> Seq<char> {
    let line = chunk_at(s, max, i);
    trim_end_sp(trim_start_sp(spaced_upto(line, bs, line.len() as int / bs + 1)))
}

/// Exact executable form of [`trim_start_sp`].
fn trim_start_spaces<'a>(t: &'a str) -> (r: &'a str)
    requires
        t.is_ascii(),
    ensures
        r@ == trim_start_sp(t@),
        r.is_ascii(),
    decreases t@.len(),
{
    let len = t.unicode_len();
    if len > 0 && t.get_char(0) == ' ' {
        let rest = t.substring_ascii(1, len);
        proof {
            assert(rest@ =~= t@.drop_first());
        }
        trim_start_spaces(rest)
    } else {
        t
    }
}

/// Exact executable form of [`trim_end_sp`].
fn trim_end_spaces<'a>(t: &'a str) -> (r: &'a str)
    requires
        t.is_ascii(),
    ensures
        r@ == trim_end_sp(t@),
        r.is_ascii(),
    decreases t@.len(),
{
    let len = t.unicode_len();
    if len > 0 && t.get_char(len - 1) == ' ' {
        let rest = t.substring_ascii(0, len - 1);
        proof {
            assert(rest@ =~= t@.drop_last());
        }
        trim_end_spaces(rest)
    } else {
        t
    }
}

/// Split a string into lines of at most `max` characters, with a space
/// inserted at every `blocksize` interval inside each line for readability;
/// one trailing row is empty when the length is a multiple of `max`.
pub fn split_to_max(s: &str, max: usize, blocksize: usize) -> (r: Vec<String>)
    requires
        s.is_ascii(),
        1 <= max,
        1 <= blocksize,
        s@.len() + max + blocksize <= usize::MAX,
    ensures
        r@.len() == s@.len() as int / (max as int) + 1,
        forall|i: int|
            0 <= i < r@.len() ==> #[trigger] r@[i]@ == split_row(
                s@,
                max as int,
                blocksize as int,
                i,
            ),
{
    let len = s.unicode_len();
    let rows = len / max + 1;
    let mut ans: Vec<String> = Vec::new();
    let mut i: usize = 0;
    while i < rows
        invariant
            i <= rows,
            rows == len as int / (max as int) + 1,
            len == s@.len(),
            s.is_ascii(),
            1 <= max,
            1 <= blocksize,
            len + max + blocksize <= usize::MAX,
            ans@.len() == i as nat,
            forall|t: int|
                0 <= t < i ==> #[trigger] ans@[t]@ == split_row(
                    s@,
                    max as int,
                    blocksize as int,
                    t,
                ),
        decreases rows - i,
    {
        proof {
            assert((i as int) * (max as int) <= ((len as int) / (max as int)) * (max as int)
                && ((len as int) / (max as int)) * (max as int) <= len as int) by (nonlinear_arith)
                requires
                    i as int <= (len as int) / (max as int),
                    max >= 1,
                    len >= 0,
                {
            }
            assert((i as int + 1) * (max as int) == (i as int) * (max as int)
                + max as int) by (nonlinear_arith) {}
        }
        let start = i * max;
        let end = if start + max > len {
            len
        } else {
            start + max
        };
        let line = s.substring_ascii(start, end);
        proof {
            assert(line@ =~= chunk_at(s@, max as int, i as int));
        }
        let line_len = line.unicode_len();
        let blocks = line_len / blocksize + 1;
        let mut spaced = String::new();
        let mut j: usize = 0;
        proof {
            assert(spaced@ =~= spaced_upto(line@, blocksize as int, 0));
        }
        while j < blocks
            invariant
                j <= blocks,
                blocks == line_len as int / (blocksize as int) + 1,
                line_len == line@.len(),
                line_len <= max,
                line.is_ascii(),
                1 <= blocksize,
                line_len + blocksize <= usize::MAX,
                spaced@ == spaced_upto(line@, blocksize as int, j as int),
                vstd::utf8::is_ascii_chars(spaced@),
            decreases blocks - j,
        {
            spaced.append(" ");
            proof {
                assert((j as int) * (blocksize as int) <= ((line_len as int) / (blocksize as int))
                    * (blocksize as int) && ((line_len as int) / (blocksize as int)) * (
                blocksize as int) <= line_len as int) by (nonlinear_arith)
                    requires
                        j as int <= (line_len as int) / (blocksize as int),
                        blocksize >= 1,
                        line_len >= 0,
                    {
                }
                assert((j as int + 1) * (blocksize as int) == (j as int) * (blocksize as int)
                    + blocksize as int) by (nonlinear_arith) {}
            }
            let cstart = j * blocksize;
            let cend = if cstart + blocksize > line_len {
                line_len
            } else {
                cstart + blocksize
            };
            let chunk = line.substring_ascii(cstart, cend);
            proof {
                assert(chunk@ =~= chunk_at(line@, blocksize as int, j as int));
            }
            spaced.append(chunk);
            proof {
                reveal_strlit(" ");
                assert(spaced@ =~= spaced_upto(line@, blocksize as int, j as int + 1));
                assert forall|k: int| 0 <= k < spaced@.len() implies '\0' <= #[trigger] spaced@[k]
                    <= '\u{7f}' by {}
            }
            j = j + 1;
        }
        let trimmed = trim_end_spaces(trim_start_spaces(spaced.as_str()));
        ans.push(trimmed.to_owned());
        proof {
            assert(ans@[i as int]@ == split_row(s@, max as int, blocksize as int, i as int));
        }
        i = i + 1;
    }
    ans
}

} // verus!
