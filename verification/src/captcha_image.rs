//! Drawing a pre-generated CAPTCHA: a 300-by-100 picture in 24-bit BMP
//! form, with a dark background, coloured noise and the text in large
//! pixel letters, each letter shifted up or down a little.

use vstd::prelude::*;
use crate::glyphs::{glyph, ascii_upper, get_char_pattern};
use crate::text::chars_of;
use crate::random::random_below;

verus! {

/// A colour as red, green and blue.
pub type Rgb = (u8, u8, u8);

/// The background colour.
pub open spec fn background() -> Rgb {
    (0x15, 0x05, 0x20)
}

/// The colour of the text.
pub open spec fn text_colour() -> Rgb {
    (0x00, 0xff, 0x00)
}

/// The four noise colours.
pub open spec fn noise_colour(c: u8) -> Rgb {
    if c == 0 { (0x00, 0x80, 0x00) } else if c == 1 { (0x80, 0x00, 0x80) } else if c == 2 { (0x00, 0x40, 0x00) } else { (0x40, 0x20, 0x40) }
}

/// Byte `k` of a pixel as BMP stores it: blue, green, then red.
pub open spec fn bgr_byte(p: Rgb, k: int) -> u8 {
    if k == 0 { p.2 } else if k == 1 { p.1 } else { p.0 }
}

/// Where the text starts on the x axis for a text of `nbytes` bytes:
/// centred when it is narrower than the picture, else at the left edge.
pub open spec fn text_start_x(nbytes: int) -> int {
    let w = nbytes * 20 + (nbytes - 1) * 4;
    if w < 300 { (300 - w) / 2 } else { 0 }
}

/// Whether column `col` (0 to 4, left to right) of a glyph row is lit.
pub open spec fn lit(row: u8, col: int) -> bool {
    (row >> ((4 - col) as u8)) & 1u8 == 1u8
}

/// Whether the text covers pixel (`x`, `y`). Letter `i` is 20 pixels wide
/// and 28 high, each glyph cell a 4-by-4 block, 4 pixels apart from the
/// next, starting at `start_x + 24 i` and 36 plus its shift `offsets[i]` from
/// the top.
pub open spec fn text_pixel(chars: Seq<char>, offsets: Seq<i32>, start_x: int, x: int, y: int) -> bool {
    let rel = x - start_x;
    let i = rel / 24;
    let cx = rel % 24;
    &&& rel >= 0
    &&& i < chars.len()
    &&& cx < 20
    &&& {
        let dy = y - 36 - offsets[i];
        &&& 0 <= dy < 28
        &&& lit(glyph(ascii_upper(chars[i]))[dy / 4], cx / 4)
    }
}

/// The colour the noise leaves at (`x`, `y`): that of the last noise dot
/// there, if any.
pub open spec fn last_noise(noise: Seq<(u32, u32, u8)>, x: int, y: int) -> Option<u8>
    decreases noise.len(),
{
    if noise.len() == 0 {
        None
    } else if noise.last().0 == x && noise.last().1 == y {
        Some(noise.last().2)
    } else {
        last_noise(noise.drop_last(), x, y)
    }
}

/// The colour of (`x`, `y`) before the text is drawn.
pub open spec fn under_text(noise: Seq<(u32, u32, u8)>, x: int, y: int) -> Rgb {
    match last_noise(noise, x, y) {
        Some(c) => noise_colour(c),
        None => background(),
    }
}

/// The colour of pixel (`x`, `y`), `y` counted from the top.
pub open spec fn pixel_rgb(chars: Seq<char>, offsets: Seq<i32>, start_x: int, noise: Seq<(u32, u32, u8)>, x: int, y: int) -> Rgb {
    if text_pixel(chars, offsets, start_x, x, y) { text_colour() } else { under_text(noise, x, y) }
}

/// Whether every noise dot lies in the picture and has one of the four colours.
pub open spec fn valid_noise(noise: Seq<(u32, u32, u8)>) -> bool {
    forall|k: int| 0 <= k < noise.len() ==> (#[trigger] noise[k]).0 < 300 && noise[k].1 < 100 && noise[k].2 < 4
}

/// Byte `k` of pixel (`x`, `y`) in a buffer of rows 900 bytes long.
pub open spec fn px(buf: Seq<u8>, x: int, y: int, k: int) -> u8 {
    buf[y * 900 + x * 3 + k]
}

/// Whether pixel (`x`, `y`) is in the picture and `k` names one of its bytes.
pub open spec fn in_picture(x: int, y: int, k: int) -> bool {
    0 <= x < 300 && 0 <= y < 100 && 0 <= k < 3
}

/// Whether `c` (shifted by `off`) lights pixel (`rel`, `y`) of its letter box.
fn glyph_lit(c: char, off: i32, cx: u32, y: u32) -> (r: bool)
    requires
        cx < 20,
        y < 100,
    ensures
        r == ({
            let dy = y - 36 - off;
            0 <= dy < 28 && lit(glyph(ascii_upper(c))[dy / 4], (cx / 4) as int)
        }),
{
    let dy: i64 = y as i64 - 36 - off as i64;
    if dy < 0 || dy >= 28 {
        return false;
    }
    let pattern = get_char_pattern(c);
    let row: u8 = pattern[(dy / 4) as usize];
    let col: u8 = (cx / 4) as u8;
    (row >> (4 - col)) & 1 == 1
}

/// Whether the text covers pixel (`x`, `y`).
fn is_text_pixel(chars: &Vec<char>, offsets: &Vec<i32>, start_x: u32, x: u32, y: u32) -> (r: bool)
    requires
        offsets@.len() == chars@.len(),
        y < 100,
    ensures
        r == text_pixel(chars@, offsets@, start_x as int, x as int, y as int),
{
    if x < start_x {
        return false;
    }
    let rel: u32 = x - start_x;
    let i: usize = (rel / 24) as usize;
    let cx: u32 = rel % 24;
    if i >= chars.len() || cx >= 20 {
        return false;
    }
    glyph_lit(chars[i], offsets[i], cx, y)
}

/// The 54 bytes that open the picture's BMP file: the file header (size
/// 90054, pixels at byte 54) and the information header (300 by 100 pixels,
/// one plane, 24 bits a pixel, no compression, 90000 bytes of pixels, 2835
/// pixels a metre both ways).
pub open spec fn bmp_header() -> Seq<u8> {
    seq![
        66u8, 77u8, 198u8, 95u8, 1u8, 0u8, 0u8, 0u8, 0u8, 0u8, 54u8, 0u8, 0u8, 0u8,
        40u8, 0u8, 0u8, 0u8, 44u8, 1u8, 0u8, 0u8, 100u8, 0u8, 0u8, 0u8, 1u8, 0u8, 24u8, 0u8,
        0u8, 0u8, 0u8, 0u8, 144u8, 95u8, 1u8, 0u8, 19u8, 11u8, 0u8, 0u8, 19u8, 11u8, 0u8, 0u8,
        0u8, 0u8, 0u8, 0u8, 0u8, 0u8, 0u8, 0u8,
    ]
}

/// Byte `k` of pixel `x` of stored row `r`; BMP stores the bottom row first.
pub open spec fn image_byte(img: Seq<u8>, r: int, x: int, k: int) -> u8 {
    img[54 + r * 900 + x * 3 + k]
}

/// Whether `img` is the CAPTCHA picture of the text `chars` (of `nbytes`
/// bytes) with these noise dots and letter shifts: nothing at all for an
/// empty text, else the BMP header followed by the rows, bottom row first.
pub open spec fn is_captcha_image(img: Seq<u8>, chars: Seq<char>, nbytes: int, noise: Seq<(u32, u32, u8)>, offsets: Seq<i32>) -> bool {
    if chars.len() == 0 {
        img.len() == 0
    } else {
        &&& img.len() == 90054
        &&& img.subrange(0, 54) == bmp_header()
        &&& forall|r: int, x: int, k: int| in_picture(x, r, k) ==> #[trigger] image_byte(img, r, x, k)
            == bgr_byte(pixel_rgb(chars, offsets, text_start_x(nbytes), noise, x, 99 - r), k)
    }
}

fn header_bytes() -> (v: Vec<u8>)
    ensures
        v@ == bmp_header(),
{
    let v = vec![
        66u8, 77u8, 198u8, 95u8, 1u8, 0u8, 0u8, 0u8, 0u8, 0u8, 54u8, 0u8, 0u8, 0u8,
        40u8, 0u8, 0u8, 0u8, 44u8, 1u8, 0u8, 0u8, 100u8, 0u8, 0u8, 0u8, 1u8, 0u8, 24u8, 0u8,
        0u8, 0u8, 0u8, 0u8, 144u8, 95u8, 1u8, 0u8, 19u8, 11u8, 0u8, 0u8, 19u8, 11u8, 0u8, 0u8,
        0u8, 0u8, 0u8, 0u8, 0u8, 0u8, 0u8, 0u8,
    ];
    proof {
        assert(v@ =~= bmp_header());
    }
    v
}

/// The pixel rows filled with the background colour, top row first.
fn background_buffer() -> (buf: Vec<u8>)
    ensures
        buf@.len() == 90000,
        forall|x: int, y: int, k: int| in_picture(x, y, k) ==> #[trigger] px(buf@, x, y, k) == bgr_byte(background(), k),
{
    let mut buf: Vec<u8> = Vec::new();
    let mut y: usize = 0;
    while y < 100
        invariant
            y <= 100,
            buf@.len() == y * 900,
            forall|x: int, yy: int, k: int| in_picture(x, yy, k) && yy < y ==> #[trigger] px(buf@, x, yy, k) == bgr_byte(background(), k),
        decreases 100 - y,
    {
        let mut x: usize = 0;
        while x < 300
            invariant
                y < 100,
                x <= 300,
                buf@.len() == y * 900 + x * 3,
                forall|xx: int, yy: int, k: int| in_picture(xx, yy, k) && (yy < y || (yy == y && xx < x))
                    ==> #[trigger] px(buf@, xx, yy, k) == bgr_byte(background(), k),
            decreases 300 - x,
        {
            let ghost before = buf@;
            buf.push(0x20u8);
            buf.push(0x05u8);
            buf.push(0x15u8);
            proof {
                assert forall|xx: int, yy: int, k: int| in_picture(xx, yy, k) && (yy < y || (yy == y && xx < x + 1))
                    implies #[trigger] px(buf@, xx, yy, k) == bgr_byte(background(), k) by {
                    if yy == y && xx == x {
                    } else {
                        assert(px(before, xx, yy, k) == bgr_byte(background(), k));
                    }
                }
            }
            x = x + 1;
        }
        y = y + 1;
    }
    buf
}

fn noise_rgb(c: u8) -> (p: Rgb)
    ensures
        p == noise_colour(c),
{
    if c == 0 { (0x00, 0x80, 0x00) } else if c == 1 { (0x80, 0x00, 0x80) } else if c == 2 { (0x00, 0x40, 0x00) } else { (0x40, 0x20, 0x40) }
}

/// Paints the noise dots, in order, over the buffer.
fn add_noise(buf: &mut Vec<u8>, noise: &Vec<(u32, u32, u8)>)
    requires
        old(buf)@.len() == 90000,
        valid_noise(noise@),
        forall|x: int, y: int, k: int| in_picture(x, y, k) ==> #[trigger] px(old(buf)@, x, y, k) == bgr_byte(background(), k),
    ensures
        final(buf)@.len() == 90000,
        forall|x: int, y: int, k: int| in_picture(x, y, k) ==> #[trigger] px(final(buf)@, x, y, k) == bgr_byte(under_text(noise@, x, y), k),
{
    let mut j: usize = 0;
    proof {
        assert(noise@.take(0) =~= Seq::<(u32, u32, u8)>::empty());
    }
    while j < noise.len()
        invariant
            j <= noise@.len(),
            buf@.len() == 90000,
            valid_noise(noise@),
            forall|x: int, y: int, k: int| in_picture(x, y, k) ==> #[trigger] px(buf@, x, y, k) == bgr_byte(under_text(noise@.take(j as int), x, y), k),
        decreases noise@.len() - j,
    {
        let (nx, ny, c) = noise[j];
        proof {
            assert(noise@[j as int].0 < 300 && noise@[j as int].1 < 100);
        }
        let (r, g, b) = noise_rgb(c);
        let idx: usize = (ny as usize) * 900 + (nx as usize) * 3;
        let ghost before = buf@;
        buf.set(idx, b);
        buf.set(idx + 1, g);
        buf.set(idx + 2, r);
        proof {
            let t = noise@.take(j + 1);
            assert(t.drop_last() =~= noise@.take(j as int));
            assert(t.last() == noise@[j as int]);
            assert forall|x: int, y: int, k: int| in_picture(x, y, k) implies #[trigger] px(buf@, x, y, k)
                == bgr_byte(under_text(t, x, y), k) by {
                if x == nx && y == ny {
                    assert(under_text(t, x, y) == noise_colour(c));
                } else {
                    assert(px(buf@, x, y, k) == px(before, x, y, k));
                    assert(under_text(t, x, y) == under_text(noise@.take(j as int), x, y));
                }
            }
        }
        j = j + 1;
    }
    proof {
        assert(noise@.take(noise@.len() as int) =~= noise@);
    }
}

/// Draws the CAPTCHA picture of `text` with the given noise dots (painted
/// in order, each a column, row and one of four colours) and letter shifts
/// (one per character). An empty text gives no bytes at all.
pub fn render_captcha_image(text: &str, noise: &Vec<(u32, u32, u8)>, offsets: &Vec<i32>) -> (img: Vec<u8>)
    requires
        text.len() * 24 <= u32::MAX + 4,
        offsets@.len() == text@.len(),
        valid_noise(noise@),
    ensures
        is_captcha_image(img@, text@, text.len() as int, noise@, offsets@),
{
    let mut buf = background_buffer();
    add_noise(&mut buf, noise);
    if text.is_empty() {
        return Vec::new();
    }
    let chars = chars_of(text);
    let nbytes: usize = text.len();
    let w: i64 = (nbytes as i64) * 24 - 4;
    let start_x: u32 = if w < 300 { ((300 - w) / 2) as u32 } else { 0 };
    let ghost sx = text_start_x(nbytes as int);
    assert(start_x == sx);
    let mut img = header_bytes();
    let mut r: usize = 0;
    while r < 100
        invariant
            r <= 100,
            img@.len() == 54 + r * 900,
            img@.subrange(0, 54) == bmp_header(),
            buf@.len() == 90000,
            chars@ == text@,
            chars@.len() > 0,
            offsets@.len() == chars@.len(),
            start_x == sx,
            forall|x: int, y: int, k: int| in_picture(x, y, k) ==> #[trigger] px(buf@, x, y, k) == bgr_byte(under_text(noise@, x, y), k),
            forall|rr: int, xx: int, k: int| in_picture(xx, rr, k) && rr < r ==> #[trigger] image_byte(img@, rr, xx, k)
                == bgr_byte(pixel_rgb(chars@, offsets@, sx, noise@, xx, 99 - rr), k),
        decreases 100 - r,
    {
        let y: usize = 99 - r;
        let mut x: usize = 0;
        while x < 300
            invariant
                r < 100,
                y == 99 - r,
                x <= 300,
                img@.len() == 54 + r * 900 + x * 3,
                img@.subrange(0, 54) == bmp_header(),
                buf@.len() == 90000,
                offsets@.len() == chars@.len(),
                start_x == sx,
                forall|x: int, y: int, k: int| in_picture(x, y, k) ==> #[trigger] px(buf@, x, y, k) == bgr_byte(under_text(noise@, x, y), k),
                forall|rr: int, xx: int, k: int| in_picture(xx, rr, k) && (rr < r || (rr == r && xx < x)) ==> #[trigger] image_byte(img@, rr, xx, k)
                    == bgr_byte(pixel_rgb(chars@, offsets@, sx, noise@, xx, 99 - rr), k),
            decreases 300 - x,
        {
            let idx: usize = y * 900 + x * 3;
            let on_text = is_text_pixel(&chars, offsets, start_x, x as u32, y as u32);
            let (b, g, rd) = if on_text {
                (0x00u8, 0xffu8, 0x00u8)
            } else {
                proof {
                    assert(px(buf@, x as int, y as int, 0) == buf@[idx as int]);
                    assert(px(buf@, x as int, y as int, 1) == buf@[idx + 1]);
                    assert(px(buf@, x as int, y as int, 2) == buf@[idx + 2]);
                }
                (buf[idx], buf[idx + 1], buf[idx + 2])
            };
            let ghost before = img@;
            img.push(b);
            img.push(g);
            img.push(rd);
            proof {
                assert forall|rr: int, xx: int, k: int| in_picture(xx, rr, k) && (rr < r || (rr == r && xx < x + 1))
                    implies #[trigger] image_byte(img@, rr, xx, k)
                    == bgr_byte(pixel_rgb(chars@, offsets@, sx, noise@, xx, 99 - rr), k) by {
                    if rr == r && xx == x {
                        if k == 0 {
                            assert(image_byte(img@, rr, xx, k) == b);
                        } else if k == 1 {
                            assert(image_byte(img@, rr, xx, k) == g);
                        } else {
                            assert(image_byte(img@, rr, xx, k) == rd);
                        }
                    } else {
                        assert(image_byte(img@, rr, xx, k) == image_byte(before, rr, xx, k));
                    }
                }
                assert(img@.subrange(0, 54) =~= before.subrange(0, 54));
            }
            x = x + 1;
        }
        r = r + 1;
    }
    img
}

/// Whether every letter shift is between -2 and 2 pixels.
pub open spec fn valid_offsets(offsets: Seq<i32>) -> bool {
    forall|i: int| 0 <= i < offsets.len() ==> -2 <= #[trigger] offsets[i] <= 2
}

/// Draws the CAPTCHA picture of `text` with 800 noise dots at random
/// places in random colours and each letter shifted at random by up to two
/// pixels. Which dots and shifts come out is chance; the picture is the
/// one `render_captcha_image` draws from them.
pub fn generate_captcha_image(text: &str) -> (img: Vec<u8>)
    requires
        text.len() * 24 <= u32::MAX + 4,
    ensures
        exists|noise: Seq<(u32, u32, u8)>, offsets: Seq<i32>|
            noise.len() == 800 && valid_noise(noise) && offsets.len() == text@.len() && valid_offsets(offsets)
            && #[trigger] is_captcha_image(img@, text@, text.len() as int, noise, offsets),
{
    let mut noise: Vec<(u32, u32, u8)> = Vec::new();
    let mut k: usize = 0;
    while k < 800
        invariant
            k <= 800,
            noise@.len() == k,
            valid_noise(noise@),
        decreases 800 - k,
    {
        let x = random_below(300);
        let y = random_below(100);
        let c = random_below(4) as u8;
        noise.push((x, y, c));
        k = k + 1;
    }
    let n = text.unicode_len();
    let mut offsets: Vec<i32> = Vec::new();
    let mut i: usize = 0;
    while i < n
        invariant
            n == text@.len(),
            i <= n,
            offsets@.len() == i,
            valid_offsets(offsets@),
        decreases n - i,
    {
        let o = random_below(5) as i32 - 2;
        offsets.push(o);
        i = i + 1;
    }
    let img = render_captcha_image(text, &noise, &offsets);
    proof {
        assert(is_captcha_image(img@, text@, text.len() as int, noise@, offsets@));
    }
    img
}

} // verus!
