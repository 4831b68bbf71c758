use vstd::prelude::*;
use vstd::arithmetic::div_mod::{lemma_fundamental_div_mod, lemma_fundamental_div_mod_converse};
use crate::battery::{Battery, BatteryStatus};
use crate::colors::{Colors, gauge_color_spec};
use crate::raster::{
    BaseImage, CANVAS_HEIGHT, CANVAS_WIDTH, Canvas, rgb_at, rgba_at, triple,
};

verus! {

/// The accent color that marks the gauge region of the artwork.
pub const ACCENT_R: u8 = 143;
pub const ACCENT_G: u8 = 188;
pub const ACCENT_B: u8 = 187;

pub open spec fn is_accent(p: (u8, u8, u8, u8)) -> bool {
    p == (ACCENT_R, ACCENT_G, ACCENT_B, 255u8)
}

/// Row `row` of an image `height` rows tall lies in the filled part of the
/// gauge: below `height * (1 - capacity / 100)`.
pub open spec fn in_fill_region(row: int, height: int, capacity: int) -> bool {
    100 * row > height * (100 - capacity)
}

/// What a base pixel in row `row` becomes: a gauge accent pixel in the filled
/// region takes the gauge color, any pixel that is not fully opaque takes the
/// background, and every other pixel keeps its color.
pub open spec fn recolor_spec(
    p: (u8, u8, u8, u8),
    row: int,
    height: int,
    battery: Battery,
    colors: Colors,
) -> (u8, u8, u8) {
    if is_accent(p) && in_fill_region(row, height, battery.capacity as int) {
        triple(gauge_color_spec(battery, colors))
    } else if p.3 < 255 {
        triple(colors.background)
    } else {
        (p.0, p.1, p.2)
    }
}

/// Decides whether `row` lies in the filled part of the gauge.
pub fn fill_row(row: u32, height: u32, capacity: u8) -> (r: bool)
    ensures
        r == in_fill_region(row as int, height as int, capacity as int),
{
    let h = height as u64;
    let c = capacity as u64;
    assert(h * c <= 0xffff_ffff * 255) by (nonlinear_arith)
        requires
            h <= 0xffff_ffff,
            c <= 255,
    ;
    let lhs = 100 * (row as u64) + h * c;
    let rhs = 100 * h;
    assert(in_fill_region(row as int, height as int, capacity as int) == (lhs > rhs)) by (nonlinear_arith)
        requires
            lhs == 100 * row + h * c,
            rhs == 100 * h,
            h == height,
            c == capacity,
    ;
    lhs > rhs
}

/// Classifies one base pixel; `gauge` is the color already selected for
/// `battery` from `colors`.
fn recolor_pixel(
    p: (u8, u8, u8, u8),
    row: u32,
    height: u32,
    battery: &Battery,
    colors: &Colors,
    gauge: [u8; 3],
) -> (r: (u8, u8, u8))
    requires
        gauge == gauge_color_spec(*battery, *colors),
    ensures
        r == recolor_spec(p, row as int, height as int, *battery, *colors),
{
    let (red, green, blue, alpha) = p;
    if red == ACCENT_R && green == ACCENT_G && blue == ACCENT_B && alpha == 255
        && fill_row(row, height, battery.capacity) {
        (gauge[0], gauge[1], gauge[2])
    } else if alpha < 255 {
        (colors.background[0], colors.background[1], colors.background[2])
    } else {
        (red, green, blue)
    }
}

/// Recolors every pixel of `base` for the given battery reading, giving an
/// opaque image of the same size.
pub fn recolor(base: &BaseImage, battery: &Battery, colors: &Colors) -> (r: Vec<u8>)
    requires
        base.wf(),
    ensures
        r@.len() == 3 * base.pixel_count(),
        forall|i: int|
            0 <= i < base.pixel_count() ==> #[trigger] rgb_at(r@, i) == recolor_spec(
                rgba_at(base.rgba@, i),
                i / base.width as int,
                base.height as int,
                *battery,
                *colors,
            ),
{
    let gauge = colors.gauge_color(battery);
    let mut out: Vec<u8> = Vec::new();
    let w = base.width;
    let h = base.height;
    if w == 0 {
        assert(base.pixel_count() == 0) by (nonlinear_arith)
            requires
                base.pixel_count() == w * h,
                w == 0,
        ;
        return out;
    }
    assert(0 < base.pixel_count() ==> 0 < h) by (nonlinear_arith)
        requires
            base.pixel_count() == w * h,
    ;
    let n = base.rgba.len();
    let mut j: usize = 0;
    let mut x: u32 = 0;
    let mut y: u32 = 0;
    let ghost mut i: int = 0;
    while j < n
        invariant
            base.wf(),
            w == base.width,
            h == base.height,
            w > 0,
            n == base.rgba@.len(),
            gauge == gauge_color_spec(*battery, *colors),
            0 <= i <= base.pixel_count(),
            j == 4 * i,
            out@.len() == 3 * i,
            i == y * w + x,
            x < w,
            i < base.pixel_count() ==> y < h,
            forall|q: int|
                0 <= q < i ==> #[trigger] rgb_at(out@, q) == recolor_spec(
                    rgba_at(base.rgba@, q),
                    q / w as int,
                    h as int,
                    *battery,
                    *colors,
                ),
        decreases n - j,
    {
        proof {
            lemma_fundamental_div_mod_converse(i, w as int, y as int, x as int);
        }
        let p = (base.rgba[j], base.rgba[j + 1], base.rgba[j + 2], base.rgba[j + 3]);
        let (red, green, blue) = recolor_pixel(p, y, h, battery, colors, gauge);
        let ghost prev = out@;
        out.push(red);
        out.push(green);
        out.push(blue);
        assert(rgb_at(out@, i) == (red, green, blue));
        assert forall|q: int| 0 <= q < i implies #[trigger] rgb_at(out@, q) == rgb_at(prev, q) by {}
        j = j + 4;
        x = x + 1;
        if x == w {
            assert((y + 1) * w == y * w + w) by (nonlinear_arith);
            assert(y + 1 <= h) by (nonlinear_arith)
                requires
                    (y + 1) * w <= w * h,
                    w > 0,
            ;
            x = 0;
            y = y + 1;
        }
        proof {
            i = i + 1;
            if i < base.pixel_count() {
                assert(y < h) by (nonlinear_arith)
                    requires
                        i == y * w + x,
                        i < w * h,
                        x >= 0,
                ;
            }
        }
    }
    out
}


/// Offset that centers a span of `size` within a span of `total`.
pub open spec fn center_offset(total: int, size: int) -> int {
    (total - size) / 2
}

/// Whether an image `w` by `h` placed with its top-left corner at `(ox, oy)`
/// covers point `(px, py)`.
pub open spec fn covers(ox: int, oy: int, w: int, h: int, px: int, py: int) -> bool {
    ox <= px < ox + w && oy <= py < oy + h
}

/// The pixel at `(px, py)` of the rendered canvas: the recolored base image
/// centered on a background-filled canvas.
pub open spec fn composite_spec(
    base: BaseImage,
    battery: Battery,
    colors: Colors,
    px: int,
    py: int,
) -> (u8, u8, u8) {
    let w = base.width as int;
    let h = base.height as int;
    let ox = center_offset(CANVAS_WIDTH as int, w);
    let oy = center_offset(CANVAS_HEIGHT as int, h);
    if covers(ox, oy, w, h, px, py) {
        recolor_spec(rgba_at(base.rgba@, (py - oy) * w + (px - ox)), py - oy, h, battery, colors)
    } else {
        triple(colors.background)
    }
}

/// `canvas` is the rendering of `base` for `battery` under `colors`: a
/// full-screen buffer whose every pixel is given by `composite_spec`.
pub open spec fn renders(canvas: Canvas, battery: Battery, colors: Colors, base: BaseImage) -> bool {
    &&& canvas.width == CANVAS_WIDTH
    &&& canvas.height == CANVAS_HEIGHT
    &&& canvas.rgb@.len() == 3 * (CANVAS_WIDTH * CANVAS_HEIGHT)
    &&& forall|i: int|
        0 <= i < CANVAS_WIDTH * CANVAS_HEIGHT ==> #[trigger] rgb_at(canvas.rgb@, i) == composite_spec(
            base,
            battery,
            colors,
            i % CANVAS_WIDTH as int,
            i / CANVAS_WIDTH as int,
        )
}

/// Cell `(x, y)` of a `w` by `h` row-major grid has index `y * w + x`, and
/// its row is recovered by dividing by `w`.
pub proof fn lemma_grid_index(w: int, h: int, x: int, y: int)
    requires
        0 <= x < w,
        0 <= y < h,
    ensures
        0 <= y * w + x < w * h,
        (y * w + x) / w == y,
        (y * w + x) % w == x,
{
    lemma_fundamental_div_mod_converse(y * w + x, w, y, x);
    assert(0 <= y * w + x < w * h) by (nonlinear_arith)
        requires
            0 <= x < w,
            0 <= y < h,
    ;
}

/// A buffer of `n` pixels, all of color `color`.
fn solid_pixels(color: [u8; 3], n: usize) -> (r: Vec<u8>)
    requires
        3 * n <= usize::MAX,
    ensures
        r@.len() == 3 * n,
        forall|i: int| 0 <= i < n ==> #[trigger] rgb_at(r@, i) == triple(color),
{
    let mut out: Vec<u8> = Vec::with_capacity(3 * n);
    let mut k: usize = 0;
    while k < n
        invariant
            k <= n,
            out@.len() == 3 * k,
            forall|i: int| 0 <= i < k ==> #[trigger] rgb_at(out@, i) == triple(color),
        decreases n - k,
    {
        let ghost prev = out@;
        out.push(color[0]);
        out.push(color[1]);
        out.push(color[2]);
        assert forall|i: int| 0 <= i < k + 1 implies #[trigger] rgb_at(out@, i) == triple(color) by {
            if i < k {
                assert(rgb_at(out@, i) == rgb_at(prev, i));
            }
        }
        k = k + 1;
    }
    out
}

/// Relies on image::imageops::overlay over two `RgbImage` buffers: every pixel
/// of `bottom` that the top image, placed at `(x, y)`, covers takes the top
/// image's pixel (blending an `Rgb` pixel is a plain copy); every other pixel
/// of `bottom` stays as it was. Both buffers are row-major, three bytes per
/// pixel, as `ImageBuffer::from_raw` and `into_raw` lay them out.
#[verifier::external_body]
fn overlay_rgb(
    bottom: &mut Vec<u8>,
    bottom_width: u32,
    bottom_height: u32,
    top: &Vec<u8>,
    top_width: u32,
    top_height: u32,
    x: u32,
    y: u32,
)
    requires
        old(bottom)@.len() == 3 * (bottom_width * bottom_height),
        top@.len() == 3 * (top_width * top_height),
    ensures
        final(bottom)@.len() == old(bottom)@.len(),
        forall|i: int|
            0 <= i < bottom_width * bottom_height ==> #[trigger] rgb_at(final(bottom)@, i) == (if covers(
                x as int,
                y as int,
                top_width as int,
                top_height as int,
                i % bottom_width as int,
                i / bottom_width as int,
            ) {
                rgb_at(
                    top@,
                    (i / bottom_width as int - y) * top_width + (i % bottom_width as int - x),
                )
            } else {
                rgb_at(old(bottom)@, i)
            }),
{
    let raw = std::mem::take(bottom);
    let mut canvas: image::RgbImage = image::ImageBuffer::from_raw(bottom_width, bottom_height, raw).unwrap();
    let layer: image::ImageBuffer<image::Rgb<u8>, &[u8]> =
        image::ImageBuffer::from_raw(top_width, top_height, top.as_slice()).unwrap();
    image::imageops::overlay(&mut canvas, &layer, x as i64, y as i64);
    *bottom = canvas.into_raw();
}

/// Renders the wallpaper for a battery reading: the base image, recolored,
/// centered on a full-screen canvas filled with the scheme's background.
pub fn create(battery: &Battery, colors: &Colors, base: &BaseImage) -> (r: Canvas)
    requires
        base.wf(),
        base.width <= CANVAS_WIDTH,
        base.height <= CANVAS_HEIGHT,
    ensures
        renders(r, *battery, *colors, *base),
{
    let layer = recolor(base, battery, colors);
    let n: usize = 3840 * 2160;
    let mut rgb = solid_pixels(colors.background, n);
    let ghost filled = rgb@;
    let x = (CANVAS_WIDTH - base.width) / 2;
    let y = (CANVAS_HEIGHT - base.height) / 2;
    overlay_rgb(&mut rgb, CANVAS_WIDTH, CANVAS_HEIGHT, &layer, base.width, base.height, x, y);
    assert forall|i: int| 0 <= i < CANVAS_WIDTH * CANVAS_HEIGHT implies #[trigger] rgb_at(rgb@, i)
        == composite_spec(*base, *battery, *colors, i % CANVAS_WIDTH as int, i / CANVAS_WIDTH as int) by {
        let px = i % CANVAS_WIDTH as int;
        let py = i / CANVAS_WIDTH as int;
        let w = base.width as int;
        let h = base.height as int;
        if covers(x as int, y as int, w, h, px, py) {
            lemma_grid_index(w, h, px - x, py - y);
        } else {
            assert(rgb_at(filled, i) == triple(colors.background));
        }
    }
    Canvas { width: CANVAS_WIDTH, height: CANVAS_HEIGHT, rgb }
}


/// Rendering is a function of its inputs: two renderings of the same base
/// image, reading and scheme are byte for byte the same.
pub proof fn lemma_render_deterministic(
    c1: Canvas,
    c2: Canvas,
    battery: Battery,
    colors: Colors,
    base: BaseImage,
)
    requires
        renders(c1, battery, colors, base),
        renders(c2, battery, colors, base),
    ensures
        c1.width == c2.width,
        c1.height == c2.height,
        c1.rgb@ == c2.rgb@,
{
    assert forall|k: int| 0 <= k < c1.rgb@.len() implies c1.rgb@[k] == c2.rgb@[k] by {
        lemma_fundamental_div_mod(k, 3);
        let i = k / 3;
        assert(rgb_at(c1.rgb@, i) == rgb_at(c2.rgb@, i));
    }
    assert(c1.rgb@ =~= c2.rgb@);
}

/// The filled part of the gauge grows with the charge: a row that is filled
/// at some capacity stays filled at every higher capacity.
pub proof fn lemma_fill_region_grows(row: int, height: int, lower: int, higher: int)
    requires
        0 <= height,
        lower <= higher,
        in_fill_region(row, height, lower),
    ensures
        in_fill_region(row, height, higher),
{
    assert(height * (100 - higher) <= height * (100 - lower)) by (nonlinear_arith)
        requires
            0 <= height,
            lower <= higher,
    ;
}

/// For a discharging battery, every accent pixel that is recolored at some
/// capacity is recolored at every higher capacity, too.
pub proof fn lemma_recolored_set_grows(
    p: (u8, u8, u8, u8),
    row: int,
    height: int,
    lower: Battery,
    higher: Battery,
    colors: Colors,
)
    requires
        0 <= height,
        lower.status == BatteryStatus::NotCharging,
        higher.status == BatteryStatus::NotCharging,
        lower.capacity <= higher.capacity,
        is_accent(p),
        in_fill_region(row, height, lower.capacity as int),
    ensures
        in_fill_region(row, height, higher.capacity as int),
        recolor_spec(p, row, height, higher, colors) == triple(gauge_color_spec(higher, colors)),
{
    lemma_fill_region_grows(row, height, lower.capacity as int, higher.capacity as int);
}

/// A pixel that is not fully opaque becomes the background color, whatever
/// its color, row or the battery reading.
pub proof fn lemma_transparent_becomes_background(
    p: (u8, u8, u8, u8),
    row: int,
    height: int,
    battery: Battery,
    colors: Colors,
)
    requires
        p.3 < 255,
    ensures
        recolor_spec(p, row, height, battery, colors) == triple(colors.background),
{
}

/// An opaque pixel other than the accent color keeps its color, whatever the
/// battery reading.
pub proof fn lemma_opaque_passes_through(
    p: (u8, u8, u8, u8),
    row: int,
    height: int,
    battery: Battery,
    colors: Colors,
)
    requires
        p.3 == 255,
        !is_accent(p),
    ensures
        recolor_spec(p, row, height, battery, colors) == (p.0, p.1, p.2),
{
}

/// The base image sits centered on the canvas: its pixel `(x, y)` lands at
/// `((3840 - w) / 2 + x, (2160 - h) / 2 + y)`, floor division, and every
/// canvas pixel it does not cover is the background color.
pub proof fn lemma_centered(base: BaseImage, battery: Battery, colors: Colors, px: int, py: int)
    requires
        base.width <= CANVAS_WIDTH,
        base.height <= CANVAS_HEIGHT,
    ensures
        ({
            let w = base.width as int;
            let h = base.height as int;
            let ox = (CANVAS_WIDTH - w) / 2;
            let oy = (CANVAS_HEIGHT - h) / 2;
            &&& 0 <= ox && ox + w <= CANVAS_WIDTH
            &&& 0 <= oy && oy + h <= CANVAS_HEIGHT
            &&& (ox <= px < ox + w && oy <= py < oy + h) ==> composite_spec(base, battery, colors, px, py)
                == recolor_spec(
                rgba_at(base.rgba@, (py - oy) * w + (px - ox)),
                py - oy,
                h,
                battery,
                colors,
            )
            &&& !(ox <= px < ox + w && oy <= py < oy + h) ==> composite_spec(
                base,
                battery,
                colors,
                px,
                py,
            ) == triple(colors.background)
        }),
{
}

} // verus!
