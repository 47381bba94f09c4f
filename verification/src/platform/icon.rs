//! Icons of applications and files: which paths an extractor takes, the cache
//! key of a path, and the pixel work on RGBA icon bitmaps (bounding box of
//! the visible pixels, cropping).  Extraction itself and the floating-point
//! scaling are outside this library.

use vstd::prelude::*;
use crate::text::{ascii_lower_seq, chars_of, has_prefix, is_lit, lower_ascii, lowercase, same_chars, starts_lit, starts_with, to_lowercase};
use crate::paths::{extension_chars, file_ext, file_name_chars, file_name_of};

verus! {

/// Alpha at or below which a pixel counts as empty.
pub const ALPHA_THRESHOLD: u8 = 8;

/// Pixel `(x, y)` of a `w`-wide RGBA bitmap is visible.
pub open spec fn visible(rgba: Seq<u8>, w: int, x: int, y: int) -> bool {
    rgba[(y * w + x) * 4 + 3] > ALPHA_THRESHOLD
}

/// Some pixel of the `w` by `h` bitmap is visible.
pub open spec fn any_visible(rgba: Seq<u8>, w: int, h: int) -> bool {
    exists|x: int, y: int| 0 <= x < w && 0 <= y < h && #[trigger] visible(rgba, w, x, y)
}

/// `(l, t, r, b)` is the smallest box, edges included, around the visible
/// pixels of the `w` by `h` bitmap.
pub open spec fn is_bbox(rgba: Seq<u8>, w: int, h: int, l: int, t: int, r: int, b: int) -> bool {
    &&& forall|x: int, y: int| 0 <= x < w && 0 <= y < h && #[trigger] visible(rgba, w, x, y) ==> l <= x <= r && t <= y <= b
    &&& exists|y: int| 0 <= y < h && #[trigger] visible(rgba, w, l, y)
    &&& exists|y: int| 0 <= y < h && #[trigger] visible(rgba, w, r, y)
    &&& exists|x: int| 0 <= x < w && #[trigger] visible(rgba, w, x, t)
    &&& exists|x: int| 0 <= x < w && #[trigger] visible(rgba, w, x, b)
    &&& 0 <= l <= r < w
    &&& 0 <= t <= b < h
}

proof fn lemma_pixel_index(w: int, h: int, x: int, y: int)
    requires
        0 <= x < w,
        0 <= y < h,
    ensures
        0 <= (y * w + x) * 4 + 3 < w * h * 4,
{
    assert(y * w + x < w * h) by (nonlinear_arith)
        requires
            0 <= x < w,
            0 <= y < h,
    ;
    assert(0 <= y * w) by (nonlinear_arith)
        requires
            0 <= y,
            0 <= w,
    ;
}

/// The bounding box `(left, top, right, bottom)` of the visible pixels of a
/// `width` by `height` RGBA bitmap, edges included; `None` when no pixel is
/// visible.
pub fn find_content_bounds(rgba: &[u8], width: u32, height: u32) -> (r: Option<(u32, u32, u32, u32)>)
    requires
        (width as int) * (height as int) * 4 <= rgba@.len(),
    ensures
        match r {
            Some((l, t, rr, b)) => is_bbox(rgba@, width as int, height as int, l as int, t as int, rr as int, b as int),
            None => !any_visible(rgba@, width as int, height as int),
        },
{
    let w = width as usize;
    let h = height as usize;
    let ghost wi = width as int;
    let ghost hi = height as int;
    let n = rgba.len();
    let mut found = false;
    let mut min_x: usize = 0;
    let mut min_y: usize = 0;
    let mut max_x: usize = 0;
    let mut max_y: usize = 0;
    let mut y: usize = 0;
    while y < h
        invariant
            w == wi,
            h == hi,
            n == rgba@.len(),
            wi * hi * 4 <= n,
            y <= h,
            !found ==> forall|xx: int, yy: int| 0 <= xx < wi && 0 <= yy < y ==> !#[trigger] visible(rgba@, wi, xx, yy),
            found ==> {
                &&& forall|xx: int, yy: int| 0 <= xx < wi && 0 <= yy < y && #[trigger] visible(rgba@, wi, xx, yy) ==> min_x <= xx <= max_x && min_y <= yy <= max_y
                &&& exists|yy: int| 0 <= yy < y && #[trigger] visible(rgba@, wi, min_x as int, yy)
                &&& exists|yy: int| 0 <= yy < y && #[trigger] visible(rgba@, wi, max_x as int, yy)
                &&& exists|xx: int| 0 <= xx < wi && #[trigger] visible(rgba@, wi, xx, min_y as int)
                &&& exists|xx: int| 0 <= xx < wi && #[trigger] visible(rgba@, wi, xx, max_y as int)
                &&& min_x <= max_x < w
                &&& min_y <= max_y < y
            },
        decreases h - y,
    {
        let mut x: usize = 0;
        while x < w
            invariant
                w == wi,
                h == hi,
                n == rgba@.len(),
                wi * hi * 4 <= n,
                y < h,
                x <= w,
                !found ==> forall|xx: int, yy: int| 0 <= xx < wi && 0 <= yy < y ==> !#[trigger] visible(rgba@, wi, xx, yy),
                !found ==> forall|xx: int| 0 <= xx < x ==> !#[trigger] visible(rgba@, wi, xx, y as int),
                found ==> {
                    &&& forall|xx: int, yy: int| 0 <= xx < wi && 0 <= yy < y && #[trigger] visible(rgba@, wi, xx, yy) ==> min_x <= xx <= max_x && min_y <= yy <= max_y
                    &&& forall|xx: int| 0 <= xx < x && #[trigger] visible(rgba@, wi, xx, y as int) ==> min_x <= xx <= max_x && min_y <= y <= max_y
                    &&& exists|yy: int| 0 <= yy <= y && #[trigger] visible(rgba@, wi, min_x as int, yy)
                    &&& exists|yy: int| 0 <= yy <= y && #[trigger] visible(rgba@, wi, max_x as int, yy)
                    &&& exists|xx: int| 0 <= xx < wi && #[trigger] visible(rgba@, wi, xx, min_y as int)
                    &&& exists|xx: int| 0 <= xx < wi && #[trigger] visible(rgba@, wi, xx, max_y as int)
                    &&& min_x <= max_x < w
                    &&& min_y <= max_y <= y
                },
            decreases w - x,
        {
            proof {
                lemma_pixel_index(wi, hi, x as int, y as int);
            }
            let idx = (y * w + x) * 4;
            let a = rgba[idx + 3];
            if a > ALPHA_THRESHOLD {
                assert(visible(rgba@, wi, x as int, y as int));
                if !found {
                    found = true;
                    min_x = x;
                    max_x = x;
                    min_y = y;
                    max_y = y;
                } else {
                    if x < min_x {
                        min_x = x;
                    }
                    if y < min_y {
                        min_y = y;
                    }
                    if x > max_x {
                        max_x = x;
                    }
                    if y > max_y {
                        max_y = y;
                    }
                }
            }
            x += 1;
        }
        y += 1;
    }
    if !found {
        return None;
    }
    Some((min_x as u32, min_y as u32, max_x as u32, max_y as u32))
}

/// Byte offset, in a `src_w`-wide bitmap, of pixel `(x, src_row)`.
pub open spec fn row_start(src_w: int, x: int, src_row: int) -> int {
    (src_row * src_w + x) * 4
}

/// Row `r` of the crop at `(x, y)` of width `w`: the `w` pixels of source row
/// `y + r` from column `x`, or transparent pixels when that row lies below
/// the source or past the end of its bytes.
pub open spec fn crop_row(rgba: Seq<u8>, src_w: int, src_h: int, x: int, y: int, w: int, r: int) -> Seq<u8> {
    let start = row_start(src_w, x, y + r);
    if y + r >= src_h || start + w * 4 > rgba.len() {
        Seq::new((w * 4) as nat, |k: int| 0u8)
    } else {
        rgba.subrange(start, start + w * 4)
    }
}

/// The first `n` rows of the crop, one after another.
pub open spec fn crop_rows(rgba: Seq<u8>, src_w: int, src_h: int, x: int, y: int, w: int, n: int) -> Seq<u8>
    decreases n,
{
    if n <= 0 {
        Seq::empty()
    } else {
        crop_rows(rgba, src_w, src_h, x, y, w, n - 1) + crop_row(rgba, src_w, src_h, x, y, w, n - 1)
    }
}

/// The `w` by `h` region at `(x, y)` of a `src_w` by `src_h` RGBA bitmap, row
/// by row; see `crop_row`.  The requirements are the ranges in which the
/// offsets are computed.
pub fn crop_rgba(rgba: &[u8], src_w: u32, src_h: u32, x: u32, y: u32, w: u32, h: u32) -> (out: Vec<u8>)
    requires
        (w as int) * (h as int) * 4 <= u32::MAX,
        (y as int) + (h as int) <= u32::MAX + 1,
        forall|r: int| 0 <= r < h && y + r < src_h ==> #[trigger] ((y + r) * src_w) + x <= u32::MAX,
        forall|r: int| 0 <= r < h && y + r < src_h ==> #[trigger] row_start(src_w as int, x as int, y + r) + w * 4 <= usize::MAX,
    ensures
        out@ == crop_rows(rgba@, src_w as int, src_h as int, x as int, y as int, w as int, h as int),
{
    let mut out: Vec<u8> = Vec::new();
    let wb: usize = if h > 0 {
        assert((w as int) * 4 <= (w as int) * (h as int) * 4) by (nonlinear_arith)
            requires
                h > 0,
        ;
        (w * 4) as usize
    } else {
        0
    };
    let n = rgba.len();
    let mut row: u32 = 0;
    while row < h
        invariant
            n == rgba@.len(),
            h > 0 ==> wb == w * 4,
            row <= h,
            (y as int) + (h as int) <= u32::MAX + 1,
            forall|r: int| 0 <= r < h && y + r < src_h ==> #[trigger] ((y + r) * src_w) + x <= u32::MAX,
            forall|r: int| 0 <= r < h && y + r < src_h ==> #[trigger] row_start(src_w as int, x as int, y + r) + w * 4 <= usize::MAX,
            out@ == crop_rows(rgba@, src_w as int, src_h as int, x as int, y as int, w as int, row as int),
        decreases h - row,
    {
        let src_row = y + row;
        let ghost r = row as int;
        let ghost before = out@;
        let ghost expect = crop_row(rgba@, src_w as int, src_h as int, x as int, y as int, w as int, r);
        let mut zero = src_row >= src_h;
        let mut start: usize = 0;
        if !zero {
            assert(((y + r) * src_w) + x <= u32::MAX);
            let s32 = src_row * src_w + x;
            start = s32 as usize * 4;
            assert(start == row_start(src_w as int, x as int, y + r));
            if start + wb > rgba.len() {
                zero = true;
            }
        }
        let mut k: usize = 0;
        while k < wb
            invariant
                n == rgba@.len(),
                h > 0 ==> wb == w * 4,
                row < h,
                k <= wb,
                expect.len() == wb,
                zero == (y + r >= src_h || row_start(src_w as int, x as int, y + r) + w * 4 > rgba@.len()),
                !zero ==> start == row_start(src_w as int, x as int, y + r) && start + wb <= rgba@.len(),
                expect == crop_row(rgba@, src_w as int, src_h as int, x as int, y as int, w as int, r),
                out@ == before + expect.take(k as int),
            decreases wb - k,
        {
            if zero {
                out.push(0u8);
            } else {
                out.push(rgba[start + k]);
            }
            assert(expect.take(k + 1) =~= expect.take(k as int).push(expect[k as int]));
            k += 1;
        }
        assert(expect.take(wb as int) =~= expect);
        row += 1;
    }
    out
}

// ---------------------------------------------------------------------------
// Extractors.

/// Extensions (ASCII lower case) whose icons the Windows shell extracts.
pub open spec fn icon_extensions() -> Seq<Seq<char>> {
    seq!["exe"@, "lnk"@, "url"@, "ico"@, "msi"@, "scr"@]
}

/// The Windows extractor takes shell namespace paths, paths without an
/// extension, and paths whose extension, ASCII lower-cased, is listed.
pub open spec fn windows_supports(p: Seq<char>) -> bool {
    starts_with(p, "shell:"@) || match file_ext(file_name_of(p)) {
        None => true,
        Some(e) => icon_extensions().contains(ascii_lower_seq(e)),
    }
}

/// Something that extracts icons.  Extraction never fails loudly: any
/// failure is `None`.
pub trait IconExtractor {
    /// Name of the platform, for diagnostics.
    fn platform_name(&self) -> &'static str;

    /// PNG bytes of the icon of `path` at `size` pixels, if extracted.
    fn extract(&self, path: &str, size: i32) -> Option<Vec<u8>>;

    /// Whether the extractor tries `path` at all; unless an extractor says
    /// otherwise, it tries every path.
    fn supports(&self, path: &str) -> (r: bool)
        default_ensures
            r,
    {
        true
    }
}

/// Icons through the Windows shell.
#[derive(Debug, Clone, Copy)]
pub struct WindowsIconExtractor;

impl IconExtractor for WindowsIconExtractor {
    fn platform_name(&self) -> (r: &'static str)
        ensures
            r@ == "windows"@,
    {
        "windows"
    }

    /// The Windows shell is not linked into this build, so nothing can be
    /// extracted and every path gives `None`.
    fn extract(&self, path: &str, size: i32) -> (r: Option<Vec<u8>>)
        ensures
            r is None,
    {
        None
    }

    fn supports(&self, path: &str) -> (r: bool)
        ensures
            r == windows_supports(path@),
    {
        let cs = chars_of(path);
        let shell = chars_of("shell:");
        if has_prefix(cs.as_slice(), shell.as_slice()) {
            return true;
        }
        let name = file_name_chars(path);
        match extension_chars(name.as_slice()) {
            None => true,
            Some(e) => {
                let l = lower_ascii(e.as_slice());
                let ls = l.as_slice();
                let r = is_lit(ls, "exe") || is_lit(ls, "lnk") || is_lit(ls, "url") || is_lit(ls, "ico")
                    || is_lit(ls, "msi") || is_lit(ls, "scr");
                proof {
                    let lv = l@;
                    if icon_extensions().contains(lv) {
                        let k = choose|k: int| 0 <= k < 6 && icon_extensions()[k] == lv;
                    }
                    if lv == "exe"@ { assert(icon_extensions()[0] == lv); }
                    if lv == "lnk"@ { assert(icon_extensions()[1] == lv); }
                    if lv == "url"@ { assert(icon_extensions()[2] == lv); }
                    if lv == "ico"@ { assert(icon_extensions()[3] == lv); }
                    if lv == "msi"@ { assert(icon_extensions()[4] == lv); }
                    if lv == "scr"@ { assert(icon_extensions()[5] == lv); }
                }
                r
            },
        }
    }
}

/// The eight bytes every PNG file starts with.
pub open spec fn png_signature() -> Seq<u8> {
    seq![0x89u8, 0x50u8, 0x4Eu8, 0x47u8, 0x0Du8, 0x0Au8, 0x1Au8, 0x0Au8]
}

/// Encodes RGBA pixels, eight bits per channel, with the `png` crate's
/// `Encoder`.  Its `write_header` refuses a zero width or height, and
/// `write_image_data` a buffer whose length is not `width * height * 4`;
/// otherwise every step succeeds, since writing into a `Vec` cannot fail.
/// A written file starts with the PNG signature.  The compressed image data
/// is left unstated.  The encoder computes the image size `width * height *
/// 4` in `usize` without a check, so that size must fit.
#[verifier::external_body]
fn png_rgba8(rgba: &[u8], width: u32, height: u32) -> (r: Option<Vec<u8>>)
    requires
        width * height * 4 <= usize::MAX,
    ensures
        width == 0 || height == 0 || rgba@.len() != width * height * 4 ==> r is None,
        width > 0 && height > 0 && rgba@.len() == width * height * 4 ==> r is Some,
        r matches Some(b) ==> b@.len() >= 8 && b@.take(8) == png_signature(),
{
    let mut out: Vec<u8> = Vec::new();
    {
        let mut encoder = png::Encoder::new(&mut out, width, height);
        encoder.set_color(png::ColorType::Rgba);
        encoder.set_depth(png::BitDepth::Eight);
        let mut w = match encoder.write_header() {
            Ok(w) => w,
            Err(_) => return None,
        };
        if w.write_image_data(rgba).is_err() || w.finish().is_err() {
            return None;
        }
    }
    Some(out)
}

/// The PNG file of an RGBA image of `width` by `height` pixels: none for an
/// empty size or a buffer of the wrong length, else a file that starts with
/// the PNG signature.  A size too large to address is a buffer of the wrong
/// length.
pub fn encode_png(rgba: &[u8], width: u32, height: u32) -> (r: Option<Vec<u8>>)
    ensures
        width == 0 || height == 0 || rgba@.len() != width * height * 4 ==> r is None,
        width > 0 && height > 0 && rgba@.len() == width * height * 4 ==> r is Some,
        r matches Some(b) ==> b@.len() >= 8 && b@.take(8) == png_signature(),
{
    assert((width as int) * (height as int) <= 0xffff_ffffint * 0xffff_ffffint) by (nonlinear_arith)
        requires
            width <= 0xffff_ffff,
            height <= 0xffff_ffff,
    ;
    let area: u64 = (width as u64) * (height as u64);
    let size: u128 = (area as u128) * 4;
    if size != rgba.len() as u128 {
        return None;
    }
    png_rgba8(rgba, width, height)
}

/// The extractor for this platform.
pub fn get_extractor() -> (r: WindowsIconExtractor) {
    WindowsIconExtractor
}

/// The cache key of an icon path: the canonical form of the path when the
/// file system gave one, else the path as given, lower-cased.
pub fn cache_key(path: &str, canonical: Option<&str>) -> (r: String)
    ensures
        r@ == lowercase(
            match canonical {
                Some(c) => c@,
                None => path@,
            },
        ),
{
    match canonical {
        Some(c) => to_lowercase(c),
        None => to_lowercase(path),
    }
}

/// Number of occurrences of `c` in `s`.
pub open spec fn count_char(s: Seq<char>, c: char) -> nat
    decreases s.len(),
{
    if s.len() == 0 {
        0
    } else {
        count_char(s.drop_last(), c) + if s.last() == c { 1nat } else { 0nat }
    }
}

/// A path worth looking up an icon for: not a URL (`http://`, `https://`,
/// `ftp://`, `mailto:`), without NUL, and with at most two replacement
/// characters.
pub open spec fn icon_path_ok(p: Seq<char>) -> bool {
    &&& !(starts_with(p, "http://"@) || starts_with(p, "https://"@) || starts_with(p, "ftp://"@) || starts_with(p, "mailto:"@))
    &&& count_char(p, '\0') == 0
    &&& count_char(p, '\u{fffd}') <= 2
}

fn count_of(s: &[char], c: char) -> (r: usize)
    ensures
        r == count_char(s@, c),
{
    let mut n: usize = 0;
    let mut i: usize = 0;
    while i < s.len()
        invariant
            i <= s@.len(),
            n == count_char(s@.take(i as int), c),
            n <= i,
        decreases s@.len() - i,
    {
        assert(s@.take(i + 1).drop_last() =~= s@.take(i as int));
        if s[i] == c {
            n += 1;
        }
        i += 1;
    }
    assert(s@.take(i as int) =~= s@);
    n
}

/// Whether an icon is looked up for `path`; see `icon_path_ok`.
pub fn icon_path_admissible(path: &str) -> (r: bool)
    ensures
        r == icon_path_ok(path@),
{
    let cs = chars_of(path);
    let p = cs.as_slice();
    if starts_lit(p, "http://") || starts_lit(p, "https://") || starts_lit(p, "ftp://") || starts_lit(p, "mailto:") {
        return false;
    }
    count_of(p, '\0') == 0 && count_of(p, '\u{fffd}') <= 2
}

/// The path names a shortcut: its extension is `lnk` in any ASCII case.
pub open spec fn is_lnk(p: Seq<char>) -> bool {
    match file_ext(file_name_of(p)) {
        Some(e) => ascii_lower_seq(e) == "lnk"@,
        None => false,
    }
}

/// Whether `path` names a shortcut; see `is_lnk`.
pub fn is_lnk_path(path: &str) -> (r: bool)
    ensures
        r == is_lnk(path@),
{
    let name = file_name_chars(path);
    match extension_chars(name.as_slice()) {
        Some(e) => {
            let l = lower_ascii(e.as_slice());
            is_lit(l.as_slice(), "lnk")
        },
        None => false,
    }
}

// ---------------------------------------------------------------------------
// Statistics for telling a blank icon from a real one.

/// Pixel `i` of the RGBA bytes `b` is visible: its alpha is above 8.
pub open spec fn pixel_visible(b: Seq<u8>, i: int) -> bool {
    b[4 * i + 3] > 8
}

/// The luminance of pixel `i` (ITU-R BT.601 weights, rounded down).
pub open spec fn pixel_luma(b: Seq<u8>, i: int) -> int {
    (299 * b[4 * i] + 587 * b[4 * i + 1] + 114 * b[4 * i + 2]) / 1000
}

/// The colour bucket of pixel `i`: red, green and blue to 5 bits and alpha
/// to 3 bits, packed into one number below 262144.
pub open spec fn pixel_bucket(b: Seq<u8>, i: int) -> int {
    (b[4 * i] / 8) * 8192 + (b[4 * i + 1] / 8) * 256 + (b[4 * i + 2] / 8) * 8 + b[4 * i + 3] / 32
}

/// Over the first `m` whole pixels of `b`: the number of visible pixels, the
/// sum of their luminances, the sum of their squared luminances, and the set
/// of their colour buckets.
pub open spec fn blank_stats_upto(b: Seq<u8>, m: int) -> (int, int, int, Set<int>)
    decreases m,
{
    if m <= 0 {
        (0, 0, 0, Set::empty())
    } else {
        let p = blank_stats_upto(b, m - 1);
        if pixel_visible(b, m - 1) {
            let l = pixel_luma(b, m - 1);
            (p.0 + 1, p.1 + l, p.2 + l * l, p.3.insert(pixel_bucket(b, m - 1)))
        } else {
            p
        }
    }
}

/// What the blank-icon test reads off an RGBA image.
#[derive(Debug, Clone, Copy, PartialEq, Eq, Structural)]
pub struct BlankStats {
    /// Whole pixels with an alpha above 8.
    pub visible_pixels: u64,
    /// Distinct colour buckets among them.
    pub colors: u64,
    /// Sum of their luminances.
    pub luma_sum: u64,
    /// Sum of their squared luminances.
    pub luma_sum_sq: u64,
}

/// The blank-icon statistics of the RGBA bytes `rgba` (trailing bytes that
/// make no whole pixel are ignored); see `blank_stats_upto`.
#[verifier::rlimit(40)]
#[verifier::spinoff_prover]
pub fn blank_icon_stats(rgba: &[u8]) -> (r: BlankStats)
    requires
        rgba@.len() / 4 * 65025 <= u64::MAX,
    ensures
        r.visible_pixels == blank_stats_upto(rgba@, (rgba@.len() / 4) as int).0,
        r.luma_sum == blank_stats_upto(rgba@, (rgba@.len() / 4) as int).1,
        r.luma_sum_sq == blank_stats_upto(rgba@, (rgba@.len() / 4) as int).2,
        r.colors == blank_stats_upto(rgba@, (rgba@.len() / 4) as int).3.len(),
{
    let total = rgba.len();
    let n = total / 4;
    let mut seen: Vec<bool> = Vec::new();
    let mut k: usize = 0;
    while k < 262144
        invariant
            k <= 262144,
            seen@.len() == k,
            forall|j: int| 0 <= j < k ==> !seen@[j],
        decreases 262144 - k,
    {
        seen.push(false);
        k += 1;
    }
    assert(4 * n <= rgba@.len());
    let mut visible: u64 = 0;
    let mut colors: u64 = 0;
    let mut sum: u64 = 0;
    let mut sum_sq: u64 = 0;
    let mut i: usize = 0;
    while i < n
        invariant
            total == rgba@.len(),
            n == rgba@.len() / 4,
            4 * n <= rgba@.len(),
            n * 65025 <= u64::MAX,
            i <= n,
            colors <= visible,
            seen@.len() == 262144,
            visible == blank_stats_upto(rgba@, i as int).0,
            sum == blank_stats_upto(rgba@, i as int).1,
            sum_sq == blank_stats_upto(rgba@, i as int).2,
            colors == blank_stats_upto(rgba@, i as int).3.len(),
            blank_stats_upto(rgba@, i as int).3.finite(),
            visible <= i,
            sum <= 255 * i,
            sum_sq <= 65025 * i,
            forall|x: int| #[trigger] blank_stats_upto(rgba@, i as int).3.contains(x) ==> 0 <= x < 262144,
            forall|j: int| 0 <= j < 262144 ==> seen@[j] == blank_stats_upto(rgba@, i as int).3.contains(j),
        decreases n - i,
    {
        assert(4 * i + 3 < rgba@.len()) by {
            assert(4 * i + 4 <= 4 * n);
        }
        let a = rgba[4 * i + 3];
        if a > 8 {
            let r = rgba[4 * i] as u32;
            let g = rgba[4 * i + 1] as u32;
            let b = rgba[4 * i + 2] as u32;
            let l: u32 = (299 * r + 587 * g + 114 * b) / 1000;
            assert(l <= 255);
            assert(l * l <= 65025) by (nonlinear_arith)
                requires
                    l <= 255,
            ;
            let key: usize = ((r / 8) * 8192 + (g / 8) * 256 + (b / 8) * 8 + (a as u32) / 32) as usize;
            let ghost prev = blank_stats_upto(rgba@, i as int).3;
            assert(key == pixel_bucket(rgba@, i as int));
            if !seen[key] {
                seen.set(key, true);
                colors = colors + 1;
            }
            visible = visible + 1;
            sum = sum + l as u64;
            sum_sq = sum_sq + (l as u64) * (l as u64);
            proof {
                assert(blank_stats_upto(rgba@, i + 1) == (
                    blank_stats_upto(rgba@, i as int).0 + 1,
                    blank_stats_upto(rgba@, i as int).1 + pixel_luma(rgba@, i as int),
                    blank_stats_upto(rgba@, i as int).2 + pixel_luma(rgba@, i as int) * pixel_luma(rgba@, i as int),
                    prev.insert(key as int),
                ));
            }
        }
        i += 1;
    }
    BlankStats { visible_pixels: visible, colors, luma_sum: sum, luma_sum_sq: sum_sq }
}

/// What the blank-icon test decides from counts alone.
#[derive(Debug, Clone, Copy, PartialEq, Eq, Structural)]
pub enum BlankCheck {
    /// Blank: fewer than one whole pixel, too few visible pixels, or at
    /// most one colour bucket.
    Blank,
    /// Undecided: the luminance spread decides, from these statistics.
    Spread(BlankStats),
}

/// The image `b` is blank by its counts: it holds no whole pixel, fewer
/// than `min_visible` visible pixels, or at most one colour bucket.
pub open spec fn blank_by_counts(b: Seq<u8>, min_visible: int) -> bool {
    ||| b.len() < 4
    ||| blank_stats_upto(b, (b.len() / 4) as int).0 < min_visible
    ||| blank_stats_upto(b, (b.len() / 4) as int).3.len() <= 1
}

/// The first steps of the blank-icon test, with `min_visible` the least
/// number of visible pixels of a real icon: `Blank` when the counts decide
/// (see `blank_by_counts`), else the statistics (see `blank_icon_stats`).
pub fn blank_icon_precheck(rgba: &[u8], min_visible: u64) -> (r: BlankCheck)
    requires
        rgba@.len() / 4 * 65025 <= u64::MAX,
    ensures
        (r is Blank) == blank_by_counts(rgba@, min_visible as int),
        r matches BlankCheck::Spread(s) ==> {
            &&& s.visible_pixels == blank_stats_upto(rgba@, (rgba@.len() / 4) as int).0
            &&& s.luma_sum == blank_stats_upto(rgba@, (rgba@.len() / 4) as int).1
            &&& s.luma_sum_sq == blank_stats_upto(rgba@, (rgba@.len() / 4) as int).2
            &&& s.colors == blank_stats_upto(rgba@, (rgba@.len() / 4) as int).3.len()
        },
{
    if rgba.len() < 4 {
        return BlankCheck::Blank;
    }
    let s = blank_icon_stats(rgba);
    if s.visible_pixels < min_visible || s.colors <= 1 {
        BlankCheck::Blank
    } else {
        BlankCheck::Spread(s)
    }
}

} // verus!
