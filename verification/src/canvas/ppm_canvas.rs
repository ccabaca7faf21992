//! The PPM (`P3`) text-image encoder: an 8-bit pixel type, a canvas of such
//! pixels, an encoder that wraps its output so that no line exceeds 70
//! characters, and a parser with a proved encode/parse round trip.

use vstd::prelude::*;
use vstd::string::StrSliceExecFns;
use vstd::string::StringExecFns;

use crate::canvas::text::dec_rep;
use crate::canvas::text::decimal_string;
use crate::canvas::text::is_dec_token;
use crate::canvas::text::is_ws;
use crate::canvas::text::lemma_dec_rep_is_token;
use crate::canvas::text::lemma_dec_rep_val;
use crate::canvas::text::lemma_digits_not_ws;
use crate::canvas::text::is_digit;
use crate::canvas::text::lemma_dec_rep_len;
use crate::canvas::text::lemma_dec_rep_len_u64;
use crate::canvas::text::lemma_lines_within_newline;
use crate::canvas::text::lemma_lines_within_prefix;
use crate::canvas::text::lines_within;
use crate::canvas::text::lemma_tokens_prepend_block;
use crate::canvas::text::lemma_tokens_prepend_ws;
use crate::canvas::text::parse_decimal;
use crate::canvas::text::token_val;
use crate::canvas::text::tokenize;
use crate::canvas::text::tokens;

verus! {

/// A color quantized to 8-bit channels, as the PPM text format carries it.
#[derive(PartialEq, Eq, Structural, Clone, Copy, Debug)]
pub struct PPMColor {
    pub r: u8,
    pub g: u8,
    pub b: u8,
}

impl PPMColor {
    /// Builds an 8-bit color from its three channels.
    pub fn new(r: u8, g: u8, b: u8) -> (c: PPMColor)
        ensures
            c == (PPMColor { r, g, b }),
    {
        PPMColor { r, g, b }
    }

    /// The `"R G B"` text of this pixel: the three channels in decimal,
    /// separated by single spaces.
    pub open spec fn chars(self) -> Seq<char> {
        dec_rep(self.r as nat) + seq![' '] + dec_rep(self.g as nat) + seq![' '] + dec_rep(
            self.b as nat,
        )
    }

    /// The pixel text is 5 to 11 characters long (`"0 0 0"` up to
    /// `"255 255 255"`).
    pub proof fn lemma_chars_len(self)
        ensures
            5 <= self.chars().len() <= 11,
    {
        lemma_dec_rep_len(self.r as nat);
        lemma_dec_rep_len(self.g as nat);
        lemma_dec_rep_len(self.b as nat);
    }

    /// Renders the `"R G B"` text of this pixel.
    fn token(self) -> (s: String)
        ensures
            s@ == self.chars(),
    {
        let mut s = decimal_string(self.r as u64);
        s.append(" ");
        let g = decimal_string(self.g as u64);
        s.append(g.as_str());
        s.append(" ");
        let b = decimal_string(self.b as u64);
        s.append(b.as_str());
        proof {
            reveal_strlit(" ");
            assert(s@ =~= self.chars());
        }
        s
    }
}

/// The text the encoder produces for the pixel stream from `i` on, with
/// `line_len` characters already on the current output line. Pixels are
/// emitted in order; a line is closed early once it is 63 characters or
/// longer (so that no following pixel could overflow it), and broken before
/// a pixel whose text would push it to 70 characters or beyond.
pub open spec fn wrap_pixels(pixels: Seq<PPMColor>, i: int, line_len: int) -> Seq<char>
    decreases pixels.len() - i,
{
    if i < 0 || i >= pixels.len() {
        Seq::empty()
    } else {
        let t = pixels[i].chars();
        let expect = line_len + t.len();
        if 63 <= expect < 70 {
            t + seq!['\n'] + wrap_pixels(pixels, i + 1, 0)
        } else if expect >= 70 {
            seq!['\n'] + t + seq![' '] + wrap_pixels(pixels, i + 1, t.len() as int + 1)
        } else {
            t + seq![' '] + wrap_pixels(pixels, i + 1, expect + 1)
        }
    }
}

/// The three header lines of a `w` by `h` PPM text: `P3`, the dimensions,
/// and the maximum channel value 255.
pub open spec fn ppm_header(w: nat, h: nat) -> Seq<char> {
    seq!['P', '3', '\n'] + dec_rep(w) + seq![' '] + dec_rep(h) + seq!['\n', '2', '5', '5', '\n']
}

/// The full PPM text of a `w` by `h` canvas: header, wrapped pixel triples,
/// and a final newline.
pub open spec fn ppm_chars(w: nat, h: nat, pixels: Seq<PPMColor>) -> Seq<char> {
    ppm_header(w, h) + wrap_pixels(pixels, 0, 0) + seq!['\n']
}

/// A canvas of 8-bit colors ready for PPM encoding, stored in row-major
/// order. Its view is the row-major sequence of its pixels.
#[derive(Debug)]
pub struct PPMCanvas<const W: usize, const H: usize> {
    pixels: Vec<PPMColor>,
}

impl<const W: usize, const H: usize> View for PPMCanvas<W, H> {
    type V = Seq<PPMColor>;

    closed spec fn view(&self) -> Seq<PPMColor> {
        self.pixels@
    }
}

impl<const W: usize, const H: usize> PPMCanvas<W, H> {
    /// The canvas holds exactly its `W * H` pixels.
    pub open spec fn wf(&self) -> bool {
        self@.len() == W * H
    }

    /// Builds the canvas from its `W * H` pixels in row-major order.
    pub fn from_pixels(pixels: Vec<PPMColor>) -> (r: PPMCanvas<W, H>)
        requires
            pixels@.len() == W * H,
        ensures
            r@ == pixels@,
            r.wf(),
    {
        PPMCanvas { pixels }
    }

    /// Read-only access to the full pixel buffer in row-major order.
    pub fn pixels(&self) -> (r: &[PPMColor])
        ensures
            r@ == self@,
    {
        self.pixels.as_slice()
    }

    /// Encodes the canvas as PPM text: the three header lines, then the
    /// `"R G B"` triples of every pixel in row-major order, greedily packed
    /// so that no output line exceeds 70 characters, and a final newline.
    pub fn to_ppm_string(&self) -> (s: String)
        requires
            self.wf(),
        ensures
            s@ == ppm_chars(W as nat, H as nat, self@),
    {
        let mut s = String::new();
        s.append("P3\n");
        let wtext = decimal_string(W as u64);
        s.append(wtext.as_str());
        s.append(" ");
        let htext = decimal_string(H as u64);
        s.append(htext.as_str());
        s.append("\n255\n");
        proof {
            reveal_strlit("P3\n");
            reveal_strlit(" ");
            reveal_strlit("\n255\n");
            assert(s@ =~= ppm_header(W as nat, H as nat));
        }
        let n = self.pixels.len();
        let mut line_len: usize = 0;
        let mut i: usize = 0;
        while i < n
            invariant
                i <= n,
                n == self@.len(),
                line_len <= 63,
                s@ + wrap_pixels(self@, i as int, line_len as int) == ppm_header(
                    W as nat,
                    H as nat,
                ) + wrap_pixels(self@, 0, 0),
            decreases n - i,
        {
            let ghost pre = s@;
            let pixel = self.pixels[i];
            let tok = pixel.token();
            proof {
                pixel.lemma_chars_len();
            }
            let tok_len = tok.as_str().unicode_len();
            let expect = line_len + tok_len;
            if 63 <= expect && expect < 70 {
                s.append(tok.as_str());
                s.append("\n");
                line_len = 0;
                proof {
                    reveal_strlit("\n");
                    assert(s@ =~= pre + (pixel.chars() + seq!['\n']));
                }
            } else if expect >= 70 {
                s.append("\n");
                s.append(tok.as_str());
                s.append(" ");
                line_len = tok_len + 1;
                proof {
                    reveal_strlit("\n");
                    reveal_strlit(" ");
                    assert(s@ =~= pre + (seq!['\n'] + pixel.chars() + seq![' ']));
                }
            } else {
                s.append(tok.as_str());
                s.append(" ");
                line_len = expect + 1;
                proof {
                    reveal_strlit(" ");
                    assert(s@ =~= pre + (pixel.chars() + seq![' ']));
                }
            }
            proof {
                assert(s@ + wrap_pixels(self@, i + 1, line_len as int) =~= pre + wrap_pixels(
                    self@,
                    i as int,
                    expect - tok_len,
                ));
            }
            i = i + 1;
        }
        s.append("\n");
        proof {
            reveal_strlit("\n");
            assert(wrap_pixels(self@, n as int, line_len as int) =~= Seq::<char>::empty());
            assert(s@ =~= ppm_chars(W as nat, H as nat, self@));
        }
        s
    }
}

/// What a PPM text means: `None` when the text is no well-formed `P3`
/// image, and otherwise the width, the height, and the `"R G B"` triples of
/// all pixels in row-major order. Tokens are maximal whitespace-separated
/// runs; the first four must be `P3`, the width, the height and `255`, and
/// exactly `3 * width * height` channel values, each at most 255, must
/// follow.
pub open spec fn spec_parse(s: Seq<char>) -> Option<(int, int, Seq<PPMColor>)> {
    let tk = tokens(s);
    if tk.len() < 4 {
        None
    } else if tk[0] != seq!['P', '3'] {
        None
    } else if !(is_dec_token(tk[1]) && token_val(tk[1]) <= usize::MAX) {
        None
    } else if !(is_dec_token(tk[2]) && token_val(tk[2]) <= usize::MAX) {
        None
    } else if tk[3] != seq!['2', '5', '5'] {
        None
    } else {
        let w = token_val(tk[1]);
        let h = token_val(tk[2]);
        if tk.len() != 4 + 3 * (w * h) {
            None
        } else if exists|j: int|
            4 <= j < tk.len() && !(is_dec_token(#[trigger] tk[j]) && token_val(tk[j]) <= 255) {
            None
        } else {
            Some(
                (
                    w,
                    h,
                    Seq::new(
                        (w * h) as nat,
                        |p: int|
                            PPMColor {
                                r: token_val(tk[4 + 3 * p]) as u8,
                                g: token_val(tk[5 + 3 * p]) as u8,
                                b: token_val(tk[6 + 3 * p]) as u8,
                            },
                    ),
                ),
            )
        }
    }
}

/// Parses a PPM text back into its width, height and 8-bit pixel triples,
/// exactly as [`spec_parse`] reads it.
pub fn parse_ppm(s: &str) -> (r: Option<(usize, usize, Vec<PPMColor>)>)
    ensures
        r is Some <==> spec_parse(s@) is Some,
        r matches Some(t) ==> spec_parse(s@) == Some((t.0 as int, t.1 as int, t.2@)),
{
    let ghost tk = tokens(s@);
    let toks = tokenize(s);
    proof {
        assert(toks@.len() == tk.len());
        assert(forall|j: int| 0 <= j < tk.len() ==> #[trigger] tk[j] == toks@[j]@);
    }
    if toks.len() < 4 {
        return None;
    }
    let p3 = String::from_str("P3");
    proof {
        reveal_strlit("P3");
        assert(p3@ =~= seq!['P', '3']);
    }
    if !(toks[0] == p3) {
        return None;
    }
    let w64 = match parse_decimal(toks[1].as_str()) {
        Some(v) => v,
        None => {
            return None;
        },
    };
    if w64 > usize::MAX as u64 {
        return None;
    }
    let w = w64 as usize;
    let h64 = match parse_decimal(toks[2].as_str()) {
        Some(v) => v,
        None => {
            return None;
        },
    };
    if h64 > usize::MAX as u64 {
        return None;
    }
    let h = h64 as usize;
    let m255 = String::from_str("255");
    proof {
        reveal_strlit("255");
        assert(m255@ =~= seq!['2', '5', '5']);
    }
    if !(toks[3] == m255) {
        return None;
    }
    let wh = match w.checked_mul(h) {
        Some(v) => v,
        None => {
            proof {
                assert(tk.len() <= usize::MAX);
                assert(w as int * h as int > usize::MAX);
                assert(3 * (w as int * h as int) >= w as int * h as int);
                assert(spec_parse(s@) is None);
            }
            return None;
        },
    };
    let wh3 = match wh.checked_mul(3) {
        Some(v) => v,
        None => {
            proof {
                assert(tk.len() <= usize::MAX);
            }
            return None;
        },
    };
    let total = match wh3.checked_add(4) {
        Some(v) => v,
        None => {
            proof {
                assert(tk.len() <= usize::MAX);
            }
            return None;
        },
    };
    if toks.len() != total {
        return None;
    }
    let mut pix: Vec<PPMColor> = Vec::new();
    let mut p: usize = 0;
    while p < wh
        invariant
            p <= wh,
            pix@.len() == p,
            tk == tokens(s@),
            toks.deep_view() == tk,
            toks@.len() == tk.len(),
            tk.len() == 4 + 3 * wh,
            4 + 3 * (wh as int) <= usize::MAX,
            forall|j: int| 0 <= j < tk.len() ==> #[trigger] tk[j] == toks@[j]@,
            forall|j: int|
                4 <= j < 4 + 3 * p ==> is_dec_token(#[trigger] tk[j]) && token_val(tk[j]) <= 255,
            forall|q: int|
                0 <= q < p ==> #[trigger] pix@[q] == (PPMColor {
                    r: token_val(tk[4 + 3 * q]) as u8,
                    g: token_val(tk[5 + 3 * q]) as u8,
                    b: token_val(tk[6 + 3 * q]) as u8,
                }),
        decreases wh - p,
    {
        let base = 4 + 3 * p;
        let rv = match parse_decimal(toks[base].as_str()) {
            Some(v) => v,
            None => {
                proof {
                    assert(!(is_dec_token(tk[base as int]) && token_val(tk[base as int]) <= 255));
                }
                return None;
            },
        };
        if rv > 255 {
            proof {
                assert(!(is_dec_token(tk[base as int]) && token_val(tk[base as int]) <= 255));
            }
            return None;
        }
        let gv = match parse_decimal(toks[base + 1].as_str()) {
            Some(v) => v,
            None => {
                proof {
                    assert(!(is_dec_token(tk[base + 1]) && token_val(tk[base + 1]) <= 255));
                }
                return None;
            },
        };
        if gv > 255 {
            proof {
                assert(!(is_dec_token(tk[base + 1]) && token_val(tk[base + 1]) <= 255));
            }
            return None;
        }
        let bv = match parse_decimal(toks[base + 2].as_str()) {
            Some(v) => v,
            None => {
                proof {
                    assert(!(is_dec_token(tk[base + 2]) && token_val(tk[base + 2]) <= 255));
                }
                return None;
            },
        };
        if bv > 255 {
            proof {
                assert(!(is_dec_token(tk[base + 2]) && token_val(tk[base + 2]) <= 255));
            }
            return None;
        }
        pix.push(PPMColor::new(rv as u8, gv as u8, bv as u8));
        p = p + 1;
    }
    proof {
        assert(spec_parse(s@) is Some);
        let want = Seq::new(
            (w as int * h as int) as nat,
            |q: int|
                PPMColor {
                    r: token_val(tk[4 + 3 * q]) as u8,
                    g: token_val(tk[5 + 3 * q]) as u8,
                    b: token_val(tk[6 + 3 * q]) as u8,
                },
        );
        assert(pix@ =~= want);
    }
    Some((w, h, pix))
}

/// The decimal tokens the encoder emits for the pixel stream from `i` on:
/// the three channels of each pixel, in order.
pub open spec fn channel_tokens(pixels: Seq<PPMColor>, i: int) -> Seq<Seq<char>>
    decreases pixels.len() - i,
{
    if i < 0 || i >= pixels.len() {
        Seq::empty()
    } else {
        seq![
            dec_rep(pixels[i].r as nat),
            dec_rep(pixels[i].g as nat),
            dec_rep(pixels[i].b as nat),
        ] + channel_tokens(pixels, i + 1)
    }
}

/// There are three channel tokens for each remaining pixel.
proof fn lemma_channel_tokens_len(pixels: Seq<PPMColor>, i: int)
    requires
        0 <= i <= pixels.len(),
    ensures
        channel_tokens(pixels, i).len() == 3 * (pixels.len() - i),
    decreases pixels.len() - i,
{
    if i < pixels.len() {
        lemma_channel_tokens_len(pixels, i + 1);
    }
}

/// Every channel token is a digit run whose value is a channel, so at most
/// 255.
proof fn lemma_channel_tokens_valid(pixels: Seq<PPMColor>, i: int)
    requires
        0 <= i <= pixels.len(),
    ensures
        forall|j: int|
            0 <= j < channel_tokens(pixels, i).len() ==> is_dec_token(
                #[trigger] channel_tokens(pixels, i)[j],
            ) && token_val(channel_tokens(pixels, i)[j]) <= 255,
    decreases pixels.len() - i,
{
    if i < pixels.len() {
        lemma_channel_tokens_valid(pixels, i + 1);
        lemma_dec_rep_is_token(pixels[i].r as nat);
        lemma_dec_rep_is_token(pixels[i].g as nat);
        lemma_dec_rep_is_token(pixels[i].b as nat);
        lemma_dec_rep_val(pixels[i].r as nat);
        lemma_dec_rep_val(pixels[i].g as nat);
        lemma_dec_rep_val(pixels[i].b as nat);
        assert forall|j: int| 0 <= j < channel_tokens(pixels, i).len() implies is_dec_token(
            #[trigger] channel_tokens(pixels, i)[j],
        ) && token_val(channel_tokens(pixels, i)[j]) <= 255 by {
            if j >= 3 {
                assert(channel_tokens(pixels, i)[j] == channel_tokens(pixels, i + 1)[j - 3]);
            }
        }
    }
}

/// Which token stands at each channel position.
proof fn lemma_channel_tokens_at(pixels: Seq<PPMColor>, i: int)
    requires
        0 <= i <= pixels.len(),
    ensures
        forall|q: int|
            #![trigger pixels[q]]
            i <= q < pixels.len() ==> {
                &&& channel_tokens(pixels, i)[3 * (q - i)] == dec_rep(pixels[q].r as nat)
                &&& channel_tokens(pixels, i)[3 * (q - i) + 1] == dec_rep(pixels[q].g as nat)
                &&& channel_tokens(pixels, i)[3 * (q - i) + 2] == dec_rep(pixels[q].b as nat)
            },
    decreases pixels.len() - i,
{
    if i < pixels.len() {
        lemma_channel_tokens_at(pixels, i + 1);
        lemma_channel_tokens_len(pixels, i + 1);
        assert forall|q: int| i <= q < pixels.len() implies {
            &&& channel_tokens(pixels, i)[3 * (q - i)] == dec_rep(#[trigger] pixels[q].r as nat)
            &&& channel_tokens(pixels, i)[3 * (q - i) + 1] == dec_rep(pixels[q].g as nat)
            &&& channel_tokens(pixels, i)[3 * (q - i) + 2] == dec_rep(pixels[q].b as nat)
        } by {
            if q > i {
                assert(channel_tokens(pixels, i)[3 * (q - i)] == channel_tokens(pixels, i + 1)[3
                    * (q - (i + 1))]);
                assert(channel_tokens(pixels, i)[3 * (q - i) + 1] == channel_tokens(pixels, i + 1)[
                    3 * (q - (i + 1)) + 1]);
                assert(channel_tokens(pixels, i)[3 * (q - i) + 2] == channel_tokens(pixels, i + 1)[
                    3 * (q - (i + 1)) + 2]);
            }
        }
    }
}

/// The tokens of one emitted pixel text followed by a separator: exactly
/// its three channel tokens.
proof fn lemma_pixel_block_tokens(p: PPMColor, sep: char, rest: Seq<char>)
    requires
        is_ws(sep),
    ensures
        tokens(p.chars() + seq![sep] + rest) == seq![
            dec_rep(p.r as nat),
            dec_rep(p.g as nat),
            dec_rep(p.b as nat),
        ] + tokens(rest),
{
    let a = dec_rep(p.r as nat);
    let b = dec_rep(p.g as nat);
    let c = dec_rep(p.b as nat);
    lemma_dec_rep_is_token(p.r as nat);
    lemma_dec_rep_is_token(p.g as nat);
    lemma_dec_rep_is_token(p.b as nat);
    lemma_digits_not_ws(a);
    lemma_digits_not_ws(b);
    lemma_digits_not_ws(c);
    let tail_c = seq![sep] + rest;
    let tail_b = seq![' '] + (c + tail_c);
    let tail_a = seq![' '] + (b + tail_b);
    assert(p.chars() + seq![sep] + rest =~= a + tail_a);
    lemma_tokens_prepend_block(a, tail_a);
    lemma_tokens_prepend_ws(' ', b + tail_b);
    lemma_tokens_prepend_block(b, tail_b);
    lemma_tokens_prepend_ws(' ', c + tail_c);
    lemma_tokens_prepend_block(c, tail_c);
    lemma_tokens_prepend_ws(sep, rest);
    assert(tokens(a + tail_a) =~= seq![a, b, c] + tokens(rest));
}

/// The tokens of the encoder's wrapped pixel text, followed by any
/// whitespace-led (or empty) tail: the channel tokens of all pixels, then
/// the tail's tokens. Wrapping never splits or joins tokens.
proof fn lemma_wrap_tokens(pixels: Seq<PPMColor>, i: int, line_len: int, tail: Seq<char>)
    requires
        0 <= i,
        tail.len() == 0 || is_ws(tail[0]),
    ensures
        tokens(wrap_pixels(pixels, i, line_len) + tail) == channel_tokens(pixels, i) + tokens(
            tail,
        ),
    decreases pixels.len() - i,
{
    if i >= pixels.len() {
        assert(wrap_pixels(pixels, i, line_len) + tail =~= tail);
        assert(channel_tokens(pixels, i) + tokens(tail) =~= tokens(tail));
    } else {
        let t = pixels[i].chars();
        let expect = line_len + t.len();
        let chs = seq![
            dec_rep(pixels[i].r as nat),
            dec_rep(pixels[i].g as nat),
            dec_rep(pixels[i].b as nat),
        ];
        if 63 <= expect < 70 {
            let w2 = wrap_pixels(pixels, i + 1, 0);
            lemma_wrap_tokens(pixels, i + 1, 0, tail);
            lemma_pixel_block_tokens(pixels[i], '\n', w2 + tail);
            assert(wrap_pixels(pixels, i, line_len) + tail =~= pixels[i].chars() + seq!['\n'] + (
            w2 + tail));
            assert(chs + (channel_tokens(pixels, i + 1) + tokens(tail)) =~= channel_tokens(
                pixels,
                i,
            ) + tokens(tail));
        } else if expect >= 70 {
            let w2 = wrap_pixels(pixels, i + 1, t.len() as int + 1);
            lemma_wrap_tokens(pixels, i + 1, t.len() as int + 1, tail);
            lemma_pixel_block_tokens(pixels[i], ' ', w2 + tail);
            lemma_tokens_prepend_ws('\n', pixels[i].chars() + seq![' '] + (w2 + tail));
            assert(wrap_pixels(pixels, i, line_len) + tail =~= seq!['\n'] + (pixels[i].chars()
                + seq![' '] + (w2 + tail)));
            assert(chs + (channel_tokens(pixels, i + 1) + tokens(tail)) =~= channel_tokens(
                pixels,
                i,
            ) + tokens(tail));
        } else {
            let w2 = wrap_pixels(pixels, i + 1, expect + 1);
            lemma_wrap_tokens(pixels, i + 1, expect + 1, tail);
            lemma_pixel_block_tokens(pixels[i], ' ', w2 + tail);
            assert(wrap_pixels(pixels, i, line_len) + tail =~= pixels[i].chars() + seq![' '] + (w2
                + tail));
            assert(chs + (channel_tokens(pixels, i + 1) + tokens(tail)) =~= channel_tokens(
                pixels,
                i,
            ) + tokens(tail));
        }
    }
}

/// Round trip: parsing the encoder's text gives back exactly the width,
/// the height and the pixel triples that were encoded. The encoder is
/// deterministic and lossless relative to its quantized 8-bit input.
pub proof fn lemma_encode_parse_round_trip(w: nat, h: nat, pixels: Seq<PPMColor>)
    requires
        pixels.len() == w * h,
        w <= usize::MAX,
        h <= usize::MAX,
    ensures
        spec_parse(ppm_chars(w, h, pixels)) == Some((w as int, h as int, pixels)),
{
    let s = ppm_chars(w, h, pixels);
    let body = wrap_pixels(pixels, 0, 0);
    let dw = dec_rep(w);
    let dh = dec_rep(h);
    let p3t = seq!['P', '3'];
    let t255 = seq!['2', '5', '5'];
    lemma_dec_rep_is_token(w);
    lemma_dec_rep_is_token(h);
    lemma_dec_rep_val(w);
    lemma_dec_rep_val(h);
    lemma_digits_not_ws(dw);
    lemma_digits_not_ws(dh);
    // Peel the header one block at a time.
    let after_p3 = dw + (seq![' '] + (dh + (seq!['\n'] + (t255 + (seq!['\n'] + (body + seq![
        '\n',
    ]))))));
    assert(s =~= p3t + (seq!['\n'] + after_p3));
    assert(!is_ws('P') && !is_ws('3')) by {
        assert('P' as u32 == 80);
        assert('3' as u32 == 51);
        assert(' ' as u32 == 32);
        assert('\n' as u32 == 10);
        assert('\t' as u32 == 9);
        assert('\r' as u32 == 13);
    }
    assert(forall|i: int| 0 <= i < p3t.len() ==> !is_ws(#[trigger] p3t[i]));
    lemma_tokens_prepend_block(p3t, seq!['\n'] + after_p3);
    lemma_tokens_prepend_ws('\n', after_p3);
    let after_w = dh + (seq!['\n'] + (t255 + (seq!['\n'] + (body + seq!['\n']))));
    lemma_tokens_prepend_block(dw, seq![' '] + after_w);
    assert(dw + (seq![' '] + after_w) =~= after_p3);
    lemma_tokens_prepend_ws(' ', after_w);
    let after_h = t255 + (seq!['\n'] + (body + seq!['\n']));
    lemma_tokens_prepend_block(dh, seq!['\n'] + after_h);
    lemma_tokens_prepend_ws('\n', after_h);
    assert(is_dec_token(t255)) by {
        assert('2' as u32 == 50);
        assert('5' as u32 == 53);
        assert(is_digit(t255[0]) && is_digit(t255[1]) && is_digit(t255[2]));
    }
    lemma_digits_not_ws(t255);
    lemma_tokens_prepend_block(t255, seq!['\n'] + (body + seq!['\n']));
    lemma_tokens_prepend_ws('\n', body + seq!['\n']);
    lemma_wrap_tokens(pixels, 0, 0, seq!['\n']);
    assert(tokens(seq!['\n']) =~= Seq::<Seq<char>>::empty()) by {
        assert(seq!['\n'].skip(1) =~= Seq::<char>::empty());
        assert(tokens(Seq::<char>::empty()) =~= Seq::<Seq<char>>::empty());
        assert(is_ws('\n'));
    }
    let ct = channel_tokens(pixels, 0);
    let tk = tokens(s);
    assert(tk =~= seq![p3t, dw, dh, t255] + ct);
    lemma_channel_tokens_len(pixels, 0);
    lemma_channel_tokens_valid(pixels, 0);
    lemma_channel_tokens_at(pixels, 0);
    assert(ct.len() == 3 * (pixels.len() - 0));
    assert(tk.len() == 4 + 3 * (w * h));
    // The header tokens read back as themselves.
    assert(tk[0] == p3t && tk[1] == dw && tk[2] == dh && tk[3] == t255);
    // No channel token is invalid.
    assert forall|j: int| 4 <= j < tk.len() implies is_dec_token(#[trigger] tk[j]) && token_val(
        tk[j],
    ) <= 255 by {
        assert(tk[j] == ct[j - 4]);
    }
    // The parsed triples are the pixels.
    let parsed = Seq::new(
        (token_val(dw) * token_val(dh)) as nat,
        |p: int|
            PPMColor {
                r: token_val(tk[4 + 3 * p]) as u8,
                g: token_val(tk[5 + 3 * p]) as u8,
                b: token_val(tk[6 + 3 * p]) as u8,
            },
    );
    assert forall|p: int| 0 <= p < pixels.len() implies parsed[p] == pixels[p] by {
        assert(tk[4 + 3 * p] == ct[3 * p]);
        assert(tk[5 + 3 * p] == ct[3 * p + 1]);
        assert(tk[6 + 3 * p] == ct[3 * p + 2]);
        assert(ct[3 * p] == dec_rep(pixels[p].r as nat));
        assert(ct[3 * p + 1] == dec_rep(pixels[p].g as nat));
        assert(ct[3 * p + 2] == dec_rep(pixels[p].b as nat));
        lemma_dec_rep_val(pixels[p].r as nat);
        lemma_dec_rep_val(pixels[p].g as nat);
        lemma_dec_rep_val(pixels[p].b as nat);
    }
    assert(parsed =~= pixels);
    assert(token_val(tk[1]) == w as int && token_val(tk[2]) == h as int);
    assert(spec_parse(s) == Some((token_val(tk[1]), token_val(tk[2]), parsed)));
}


/// The pixel text holds digits and spaces only, never a newline.
proof fn lemma_pixel_chars_no_newline(p: PPMColor)
    ensures
        forall|i: int| 0 <= i < p.chars().len() ==> #[trigger] p.chars()[i] != '\n',
{
    lemma_dec_rep_is_token(p.r as nat);
    lemma_dec_rep_is_token(p.g as nat);
    lemma_dec_rep_is_token(p.b as nat);
    lemma_digits_not_ws(dec_rep(p.r as nat));
    lemma_digits_not_ws(dec_rep(p.g as nat));
    lemma_digits_not_ws(dec_rep(p.b as nat));
    let a = dec_rep(p.r as nat);
    let b = dec_rep(p.g as nat);
    let c = dec_rep(p.b as nat);
    assert forall|i: int| 0 <= i < p.chars().len() implies #[trigger] p.chars()[i] != '\n' by {
        let al = a.len() as int;
        let bl = b.len() as int;
        if i < al {
            assert(p.chars()[i] == a[i]);
        } else if i == al {
            assert(p.chars()[i] == ' ');
        } else if i < al + 1 + bl {
            assert(p.chars()[i] == b[i - al - 1]);
        } else if i == al + 1 + bl {
            assert(p.chars()[i] == ' ');
        } else {
            assert(p.chars()[i] == c[i - al - bl - 2]);
        }
    }
}

/// The wrapped pixel text, closed by a final newline and read with at most
/// 63 characters already on the current line, never lets a line exceed 70
/// characters.
proof fn lemma_wrap_lines(pixels: Seq<PPMColor>, i: int, line_len: int)
    requires
        0 <= line_len <= 63,
    ensures
        lines_within(wrap_pixels(pixels, i, line_len) + seq!['\n'], line_len, 70),
    decreases pixels.len() - i,
{
    if i < 0 || i >= pixels.len() {
        assert(wrap_pixels(pixels, i, line_len) + seq!['\n'] =~= seq!['\n'] + Seq::<
            char,
        >::empty());
        lemma_lines_within_newline(Seq::<char>::empty(), line_len, 70);
    } else {
        let t = pixels[i].chars();
        let expect = line_len + t.len();
        pixels[i].lemma_chars_len();
        lemma_pixel_chars_no_newline(pixels[i]);
        if 63 <= expect < 70 {
            let rest = wrap_pixels(pixels, i + 1, 0) + seq!['\n'];
            lemma_wrap_lines(pixels, i + 1, 0);
            assert(wrap_pixels(pixels, i, line_len) + seq!['\n'] =~= t + (seq!['\n'] + rest));
            lemma_lines_within_prefix(t, seq!['\n'] + rest, line_len, 70);
            lemma_lines_within_newline(rest, expect, 70);
        } else if expect >= 70 {
            let ll2 = t.len() as int + 1;
            let rest = wrap_pixels(pixels, i + 1, ll2) + seq!['\n'];
            lemma_wrap_lines(pixels, i + 1, ll2);
            assert(wrap_pixels(pixels, i, line_len) + seq!['\n'] =~= seq!['\n'] + (t + (seq![' ']
                + rest)));
            lemma_lines_within_newline(t + (seq![' '] + rest), line_len, 70);
            assert(forall|k: int| 0 <= k < (t + seq![' ']).len() ==> #[trigger] (t + seq![' '])[k]
                != '\n');
            lemma_lines_within_prefix(t + seq![' '], rest, 0, 70);
            assert(t + (seq![' '] + rest) =~= (t + seq![' ']) + rest);
        } else {
            let rest = wrap_pixels(pixels, i + 1, expect + 1) + seq!['\n'];
            lemma_wrap_lines(pixels, i + 1, expect + 1);
            assert(wrap_pixels(pixels, i, line_len) + seq!['\n'] =~= (t + seq![' ']) + rest);
            assert(forall|k: int| 0 <= k < (t + seq![' ']).len() ==> #[trigger] (t + seq![' '])[k]
                != '\n');
            lemma_lines_within_prefix(t + seq![' '], rest, line_len, 70);
        }
    }
}

/// No line of the encoder's output exceeds 70 characters: neither the
/// three header lines nor any wrapped pixel line.
pub proof fn lemma_ppm_lines_bounded(w: nat, h: nat, pixels: Seq<PPMColor>)
    requires
        w <= u64::MAX,
        h <= u64::MAX,
    ensures
        lines_within(ppm_chars(w, h, pixels), 0, 70),
{
    let s = ppm_chars(w, h, pixels);
    let dw = dec_rep(w);
    let dh = dec_rep(h);
    let body = wrap_pixels(pixels, 0, 0);
    lemma_dec_rep_is_token(w);
    lemma_dec_rep_is_token(h);
    lemma_digits_not_ws(dw);
    lemma_digits_not_ws(dh);
    lemma_dec_rep_len_u64(w);
    lemma_dec_rep_len_u64(h);
    let dims = dw + seq![' '] + dh;
    let rest2 = seq!['2', '5', '5'] + (seq!['\n'] + (body + seq!['\n']));
    let rest1 = dims + (seq!['\n'] + rest2);
    assert(s =~= seq!['P', '3'] + (seq!['\n'] + rest1));
    let p3t = seq!['P', '3'];
    assert(forall|k: int| 0 <= k < 2 ==> p3t[k] != '\n') by {
        assert(p3t[0] == 'P' && p3t[1] == '3');
    }
    lemma_lines_within_prefix(p3t, seq!['\n'] + rest1, 0, 70);
    assert(s =~= p3t + (seq!['\n'] + rest1));
    lemma_lines_within_newline(rest1, 2, 70);
    assert(forall|k: int| 0 <= k < dims.len() ==> #[trigger] dims[k] != '\n') by {
        assert forall|k: int| 0 <= k < dims.len() implies #[trigger] dims[k] != '\n' by {
            if k < dw.len() {
                assert(dims[k] == dw[k]);
            } else if k == dw.len() {
                assert(dims[k] == ' ');
            } else {
                assert(dims[k] == dh[k - dw.len() - 1]);
            }
        }
    }
    lemma_lines_within_prefix(dims, seq!['\n'] + rest2, 0, 70);
    assert(dims.len() <= 41);
    lemma_lines_within_newline(rest2, dims.len() as int, 70);
    let t255 = seq!['2', '5', '5'];
    assert(forall|k: int| 0 <= k < 3 ==> t255[k] != '\n') by {
        assert(t255[0] == '2' && t255[1] == '5' && t255[2] == '5');
    }
    lemma_lines_within_prefix(t255, seq!['\n'] + (body + seq!['\n']), 0, 70);
    lemma_lines_within_newline(body + seq!['\n'], 3, 70);
    lemma_wrap_lines(pixels, 0, 0);
}


} // verus!
