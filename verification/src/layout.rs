//! Geometry of the switcher window: the icon strip, the title line below it,
//! the placement on the monitor, and which icon a click lands on.
use vstd::prelude::*;

verus! {

/// Background colour of the dark theme.
pub const BG_DARK_COLOR: u32 = 0x4c4c4c;
/// Selection colour of the dark theme.
pub const FG_DARK_COLOR: u32 = 0x3b3b3b;
/// Background colour of the light theme.
pub const BG_LIGHT_COLOR: u32 = 0xe0e0e0;
/// Selection colour of the light theme.
pub const FG_LIGHT_COLOR: u32 = 0xf2f2f2;
/// Title colour of the dark theme.
pub const TEXT_DARK_COLOR: u32 = 0xf4f4f4;
/// Title colour of the light theme.
pub const TEXT_LIGHT_COLOR: u32 = 0x202020;

/// A rectangle in screen pixels, edges included on the left and top.
#[derive(Clone, Copy, PartialEq, Eq, Debug)]
pub struct Rect {
    pub left: i32,
    pub top: i32,
    pub right: i32,
    pub bottom: i32,
}

/// The DPI-scaled sizes the layout starts from.
#[derive(Clone, Copy, PartialEq, Eq, Debug)]
pub struct LayoutMetrics {
    pub icon_size_max: i32,
    pub border_size: i32,
    pub icon_border: i32,
    pub title_height: i32,
    pub title_gap: i32,
    pub title_min_width: i32,
}

/// Where the switcher window and its parts go.
#[derive(Clone, Copy, PartialEq, Eq, Debug)]
pub struct Coordinate {
    pub x: i32,
    pub y: i32,
    pub width: i32,
    pub height: i32,
    pub icon_size: i32,
    pub item_size: i32,
    pub icons_x: i32,
    pub title_top: i32,
}

/// Integer division that rounds toward zero, as machine division does.
pub open spec fn div_toward_zero(a: int, b: int) -> int {
    if b > 0 {
        if a >= 0 {
            a / b
        } else {
            -((-a) / b)
        }
    } else if a >= 0 {
        -(a / (-b))
    } else {
        (-a) / (-b)
    }
}

pub open spec fn spec_max(a: int, b: int) -> int {
    if a >= b {
        a
    } else {
        b
    }
}

/// `v` limited to `lo..=hi`.
pub open spec fn spec_clamp(v: int, lo: int, hi: int) -> int {
    if v < lo {
        lo
    } else if v > hi {
        hi
    } else {
        v
    }
}

pub open spec fn fits_i32(v: int) -> bool {
    i32::MIN <= v <= i32::MAX
}

pub open spec fn monitor_width(r: Rect) -> int {
    r.right - r.left
}

pub open spec fn monitor_height(r: Rect) -> int {
    r.bottom - r.top
}

/// The icon edge: the monitor width shared among the icons, less their
/// borders, kept between one pixel and the largest icon size.
pub open spec fn layout_icon_size(n: int, m: LayoutMetrics, r: Rect) -> int {
    spec_clamp(
        div_toward_zero(monitor_width(r) - 2 * m.border_size, n) - m.icon_border * 2,
        1,
        spec_max(m.icon_size_max as int, 1),
    )
}

pub open spec fn layout_item_size(n: int, m: LayoutMetrics, r: Rect) -> int {
    layout_icon_size(n, m, r) + m.icon_border * 2
}

pub open spec fn layout_icons_width(n: int, m: LayoutMetrics, r: Rect) -> int {
    layout_item_size(n, m, r) * n
}

pub open spec fn layout_width(n: int, m: LayoutMetrics, r: Rect) -> int {
    spec_max(layout_icons_width(n, m, r), m.title_min_width as int) + m.border_size * 2
}

pub open spec fn layout_height(n: int, m: LayoutMetrics, r: Rect) -> int {
    layout_item_size(n, m, r) + m.title_gap + m.title_height + m.border_size * 2
}

/// The layout of `n` icons on the monitor `r`, computed without bounds.
pub open spec fn spec_layout(n: int, m: LayoutMetrics, r: Rect) -> Coordinate {
    let item = layout_item_size(n, m, r);
    let width = layout_width(n, m, r);
    let height = layout_height(n, m, r);
    Coordinate {
        x: (r.left + div_toward_zero(monitor_width(r) - width, 2)) as i32,
        y: (r.top + div_toward_zero(monitor_height(r) - height, 2)) as i32,
        width: width as i32,
        height: height as i32,
        icon_size: layout_icon_size(n, m, r) as i32,
        item_size: item as i32,
        icons_x: div_toward_zero(width - layout_icons_width(n, m, r), 2) as i32,
        title_top: (m.border_size + item + m.title_gap) as i32,
    }
}

/// Every intermediate value of the layout fits a 32-bit machine integer.
pub open spec fn layout_fits(n: int, m: LayoutMetrics, r: Rect) -> bool {
    let mw = monitor_width(r);
    let mh = monitor_height(r);
    let item = layout_item_size(n, m, r);
    let icons_width = layout_icons_width(n, m, r);
    let width = layout_width(n, m, r);
    let height = layout_height(n, m, r);
    &&& fits_i32(mw)
    &&& fits_i32(mh)
    &&& fits_i32(2 * m.border_size)
    &&& fits_i32(mw - 2 * m.border_size)
    &&& fits_i32(m.icon_border * 2)
    &&& fits_i32(div_toward_zero(mw - 2 * m.border_size, n))
    &&& fits_i32(div_toward_zero(mw - 2 * m.border_size, n) - m.icon_border * 2)
    &&& fits_i32(item)
    &&& fits_i32(icons_width)
    &&& fits_i32(width)
    &&& fits_i32(item + m.title_gap)
    &&& fits_i32(item + m.title_gap + m.title_height)
    &&& fits_i32(height)
    &&& fits_i32(mw - width)
    &&& fits_i32(r.left + div_toward_zero(mw - width, 2))
    &&& fits_i32(mh - height)
    &&& fits_i32(r.top + div_toward_zero(mh - height, 2))
    &&& fits_i32(width - icons_width)
    &&& fits_i32(m.border_size + item)
    &&& fits_i32(m.border_size + item + m.title_gap)
}

proof fn lemma_div_toward_zero_bounds(a: int, b: int)
    requires
        b > 0,
    ensures
        a >= 0 ==> 0 <= div_toward_zero(a, b) <= a,
        a < 0 ==> a <= div_toward_zero(a, b) <= 0,
{
    if a >= 0 {
        assert(a / b <= a) by (nonlinear_arith)
            requires
                a >= 0,
                b > 0,
        ;
        assert(a / b >= 0) by (nonlinear_arith)
            requires
                a >= 0,
                b > 0,
        ;
    } else {
        assert((-a) / b <= -a) by (nonlinear_arith)
            requires
                a < 0,
                b > 0,
        ;
        assert((-a) / b >= 0) by (nonlinear_arith)
            requires
                a < 0,
                b > 0,
        ;
    }
}

/// Division by a negative number, in terms of division by its magnitude.
proof fn lemma_div_by_negative(x: int, b: int)
    requires
        b < 0,
    ensures
        x / b == -(x / (-b)),
{
    let d = -b;
    vstd::arithmetic::div_mod::lemma_fundamental_div_mod(x, d);
    let q = x / d;
    let r = x % d;
    vstd::arithmetic::div_mod::lemma_mod_bound(x, d);
    assert(x / b == -q) by (nonlinear_arith)
        requires
            b < 0,
            d == -b,
            x == d * q + r,
            0 <= r < d,
    ;
}

fn div_i32(a: i32, b: i32) -> (q: i32)
    requires
        b != 0,
        fits_i32(div_toward_zero(a as int, b as int)),
    ensures
        q == div_toward_zero(a as int, b as int),
{
    proof {
        if a == i32::MIN && b == -1 {
            assert(div_toward_zero(a as int, b as int) == 2147483648int / 1int);
        }
    }
    let q = a / b;
    if b > 0 {
        if a >= 0 {
            assert(q == (a as int) / (b as int));
        } else {
            assert(q == -((-(a as int)) / (b as int)));
        }
    } else if a >= 0 {
        proof {
            lemma_div_by_negative(a as int, b as int);
        }
        assert(q == -((a as int) / (-(b as int))));
    } else {
        proof {
            lemma_div_by_negative(-(a as int), b as int);
        }
        assert(q == (-(a as int)) / (-(b as int)));
    }
    q
}

impl Coordinate {
    /// Lays out `num_apps` icons centred on the monitor `monitor_rect`.
    pub fn new(num_apps: i32, metrics: LayoutMetrics, monitor_rect: Rect) -> (c: Coordinate)
        requires
            num_apps != 0,
            layout_fits(num_apps as int, metrics, monitor_rect),
        ensures
            c == spec_layout(num_apps as int, metrics, monitor_rect),
            1 <= c.icon_size <= spec_max(metrics.icon_size_max as int, 1),
            metrics.icon_border >= 0 ==> c.item_size >= c.icon_size,
            num_apps > 0 && metrics.icon_border >= 0 && metrics.border_size >= 0
                && metrics.title_gap >= 0 && metrics.title_height >= 0 ==> c.width > 0 && c.height > 0 && c.width
                >= c.item_size * num_apps && c.icons_x >= 0,
    {
        let m = metrics;
        let r = monitor_rect;
        let n = num_apps;
        let monitor_width = r.right - r.left;
        let monitor_height = r.bottom - r.top;
        let hi = if m.icon_size_max >= 1 {
            m.icon_size_max
        } else {
            1
        };
        let raw = div_i32(monitor_width - 2 * m.border_size, n) - m.icon_border * 2;
        let icon_size = if raw < 1 {
            1
        } else if raw > hi {
            hi
        } else {
            raw
        };
        let item_size = icon_size + m.icon_border * 2;
        let icons_width = item_size * n;
        let content_width = if icons_width >= m.title_min_width {
            icons_width
        } else {
            m.title_min_width
        };
        let width = content_width + m.border_size * 2;
        let height = item_size + m.title_gap + m.title_height + m.border_size * 2;
        let x = r.left + div_i32(monitor_width - width, 2);
        let y = r.top + div_i32(monitor_height - height, 2);
        let icons_x = div_i32(width - icons_width, 2);
        let title_top = m.border_size + item_size + m.title_gap;
        proof {
            if m.icon_border >= 0 && n > 0 {
                assert(item_size >= 1);
                assert(icons_width >= n) by (nonlinear_arith)
                    requires
                        item_size >= 1,
                        n > 0,
                        icons_width == item_size * n,
                ;
            }
            if m.icon_border >= 0 && m.border_size >= 0 && n > 0 {
                lemma_div_toward_zero_bounds(width - icons_width, 2);
            }
        }
        Coordinate { x, y, width, height, icon_size, item_size, icons_x, title_top }
    }

    /// [`Coordinate::new`] where its arithmetic stays within 32 bits, and
    /// `None` for a count of zero or where some step would overflow.
    #[verifier::rlimit(50)]
    pub fn try_new(num_apps: i32, metrics: LayoutMetrics, monitor_rect: Rect) -> (r: Option<
        Coordinate,
    >)
        ensures
            r is Some <==> num_apps != 0 && layout_fits(num_apps as int, metrics, monitor_rect),
            r matches Some(c) ==> c == spec_layout(num_apps as int, metrics, monitor_rect),
    {
        if num_apps == 0 {
            return None;
        }
        let m = metrics;
        let r = monitor_rect;
        let Some(mw) = r.right.checked_sub(r.left) else { return None };
        let Some(mh) = r.bottom.checked_sub(r.top) else { return None };
        let Some(border2) = m.border_size.checked_mul(2) else { return None };
        let Some(inner) = mw.checked_sub(border2) else { return None };
        let Some(icon_border2) = m.icon_border.checked_mul(2) else { return None };
        if num_apps == -1 && inner == i32::MIN {
            assert(div_toward_zero(inner as int, num_apps as int) == 2147483648int / 1int);
            return None;
        }
        let Some(raw) = div_i32(inner, num_apps).checked_sub(icon_border2) else { return None };
        let hi = if m.icon_size_max >= 1 {
            m.icon_size_max
        } else {
            1
        };
        let icon_size = if raw < 1 {
            1
        } else if raw > hi {
            hi
        } else {
            raw
        };
        let Some(item) = icon_size.checked_add(icon_border2) else { return None };
        let Some(icons_width) = item.checked_mul(num_apps) else { return None };
        let content = if icons_width >= m.title_min_width {
            icons_width
        } else {
            m.title_min_width
        };
        let Some(width) = content.checked_add(border2) else { return None };
        let Some(with_gap) = item.checked_add(m.title_gap) else { return None };
        let Some(with_title) = with_gap.checked_add(m.title_height) else { return None };
        let Some(height) = with_title.checked_add(border2) else { return None };
        let Some(spare_w) = mw.checked_sub(width) else { return None };
        let Some(_) = r.left.checked_add(div_i32(spare_w, 2)) else { return None };
        let Some(spare_h) = mh.checked_sub(height) else { return None };
        let Some(_) = r.top.checked_add(div_i32(spare_h, 2)) else { return None };
        let Some(_) = width.checked_sub(icons_width) else { return None };
        let Some(top_item) = m.border_size.checked_add(item) else { return None };
        let Some(_) = top_item.checked_add(m.title_gap) else { return None };
        Some(Coordinate::new(num_apps, metrics, monitor_rect))
    }
}

/// Icons shrink, never grow, as windows are added: on the same monitor with
/// the same metrics, more icons get an icon edge no larger than fewer icons.
/// (Where the icon border is negative and the monitor is narrower than its
/// two window borders, more icons can get a larger edge.)
pub proof fn lemma_icons_shrink_as_windows_are_added(a: int, b: int, m: LayoutMetrics, r: Rect)
    requires
        1 <= a <= b,
        m.icon_border >= 0 || monitor_width(r) >= 2 * m.border_size,
    ensures
        layout_icon_size(b, m, r) <= layout_icon_size(a, m, r),
        spec_layout(b, m, r).icon_size <= spec_layout(a, m, r).icon_size,
{
    let x = monitor_width(r) - 2 * m.border_size;
    if x >= 0 {
        vstd::arithmetic::div_mod::lemma_div_is_ordered_by_denominator(x, a, b);
    } else {
        lemma_div_toward_zero_bounds(x, a);
        lemma_div_toward_zero_bounds(x, b);
    }
    let hi = spec_max(m.icon_size_max as int, 1);
    assert(1 <= layout_icon_size(a, m, r) <= hi);
    assert(1 <= layout_icon_size(b, m, r) <= hi);
}

/// Whether the point lies in the square cell of edge `size` whose top left
/// corner is `(cx, cy)`.
pub open spec fn in_cell(x: int, y: int, cx: int, cy: int, size: int) -> bool {
    cx <= x < cx + size && cy <= y < cy + size
}

/// Whether the point lies on the `i`-th icon of a strip that starts at
/// `(icons_x, top)`.
pub open spec fn on_icon(x: int, y: int, icons_x: int, top: int, item_size: int, i: int) -> bool {
    in_cell(x, y, icons_x + item_size * i, top, item_size)
}

/// Every cell position of the strip fits a 32-bit machine integer.
pub open spec fn strip_fits(icons_x: int, item_size: int, count: int) -> bool {
    forall|i: int|
        0 <= i < count ==> fits_i32(#[trigger] (item_size * i)) && fits_i32(icons_x + item_size * i)
            && fits_i32(icons_x + item_size * i + item_size)
}

/// The icon of a strip of `count` icons that the point `(x, y)`, relative to
/// the switcher window, lands on.
pub fn hit_test(x: i32, y: i32, icons_x: i32, top: i32, item_size: i32, count: usize) -> (r: Option<
    usize,
>)
    requires
        count <= i32::MAX,
        fits_i32(top + item_size),
        strip_fits(icons_x as int, item_size as int, count as int),
    ensures
        r matches Some(i) ==> i < count && on_icon(
            x as int,
            y as int,
            icons_x as int,
            top as int,
            item_size as int,
            i as int,
        ) && forall|j: int|
            0 <= j < i ==> !on_icon(
                x as int,
                y as int,
                icons_x as int,
                top as int,
                item_size as int,
                j,
            ),
        r is None ==> forall|j: int|
            0 <= j < count ==> !on_icon(
                x as int,
                y as int,
                icons_x as int,
                top as int,
                item_size as int,
                j,
            ),
{
    let mut i: usize = 0;
    while i < count
        invariant
            i <= count,
            count <= i32::MAX,
            fits_i32(top + item_size),
            strip_fits(icons_x as int, item_size as int, count as int),
            forall|j: int|
                0 <= j < i ==> !on_icon(
                    x as int,
                    y as int,
                    icons_x as int,
                    top as int,
                    item_size as int,
                    j,
                ),
        decreases count - i,
    {
        let k = i as i32;
        assert(fits_i32(item_size * (i as int)));
        let cx = icons_x + item_size * k;
        if x >= cx && x < cx + item_size && y >= top && y < top + item_size {
            return Some(i);
        }
        i = i + 1;
    }
    None
}

/// With cells of positive size, a point lies on at most one icon.
pub proof fn lemma_icons_do_not_overlap(
    x: int,
    y: int,
    icons_x: int,
    top: int,
    item_size: int,
    i: int,
    j: int,
)
    requires
        item_size > 0,
        on_icon(x, y, icons_x, top, item_size, i),
        on_icon(x, y, icons_x, top, item_size, j),
    ensures
        i == j,
{
    if i < j {
        assert(item_size * i + item_size <= item_size * j) by (nonlinear_arith)
            requires
                item_size > 0,
                i < j,
        ;
    } else if j < i {
        assert(item_size * j + item_size <= item_size * i) by (nonlinear_arith)
            requires
                item_size > 0,
                j < i,
        ;
    }
}

/// The selection, background and title colours of the light or dark theme.
pub fn theme_color(light_theme: bool) -> (colors: (u32, u32, u32))
    ensures
        colors == (if light_theme {
            (FG_LIGHT_COLOR, BG_LIGHT_COLOR, TEXT_LIGHT_COLOR)
        } else {
            (FG_DARK_COLOR, BG_DARK_COLOR, TEXT_DARK_COLOR)
        }),
{
    if light_theme {
        (FG_LIGHT_COLOR, BG_LIGHT_COLOR, TEXT_LIGHT_COLOR)
    } else {
        (FG_DARK_COLOR, BG_DARK_COLOR, TEXT_DARK_COLOR)
    }
}

/// The corner radius of the selection marker: a quarter of a cell where
/// rounded corners are drawn, none otherwise.
pub fn corner_radius(item_size: i32, rounded_corner: bool) -> (r: i32)
    ensures
        r == (if rounded_corner {
            div_toward_zero(item_size as int, 4)
        } else {
            0
        }),
{
    if rounded_corner {
        div_i32(item_size, 4)
    } else {
        0
    }
}

/// How many times larger icons are drawn before being scaled down.
pub const SCALE_FACTOR: i32 = 2;

/// The integer geometry of one paint of the switcher, besides its layout.
#[derive(Clone, Copy, PartialEq, Eq, Debug)]
pub struct PaintGeometry {
    /// Width of the strip of all icons.
    pub icons_width: i32,
    /// Left edge of the selected cell.
    pub selected_x: i32,
    /// Width of the title box: the window less a border on each side.
    pub title_width: i32,
    /// Width and height of the strip drawn at [`SCALE_FACTOR`] times.
    pub scaled_width: i32,
    pub scaled_height: i32,
    /// Border around each icon, icon edge and cell edge at that scale.
    pub scaled_border: i32,
    pub scaled_icon: i32,
    pub scaled_cell: i32,
    /// Edge and corner radius of the selection marker at that scale.
    pub scaled_item: i32,
    pub scaled_radius: i32,
}

/// The paint geometry of `count` icons laid out as `c`, with the entry at
/// `index` selected and a marker radius of `radius`, computed without bounds.
pub open spec fn spec_paint_geometry(
    c: Coordinate,
    m: LayoutMetrics,
    count: int,
    index: int,
    radius: int,
) -> PaintGeometry {
    let f = SCALE_FACTOR as int;
    PaintGeometry {
        icons_width: (c.item_size * count) as i32,
        selected_x: (c.icons_x + c.item_size * index) as i32,
        title_width: (c.width - m.border_size * 2) as i32,
        scaled_width: (c.item_size * count * f) as i32,
        scaled_height: (c.item_size * f) as i32,
        scaled_border: (m.icon_border * f) as i32,
        scaled_icon: (c.icon_size * f) as i32,
        scaled_cell: (c.icon_size * f + m.icon_border * f * 2) as i32,
        scaled_item: (c.item_size * f) as i32,
        scaled_radius: (radius * f) as i32,
    }
}

/// Every intermediate value of the paint geometry fits a 32-bit integer.
pub open spec fn paint_fits(c: Coordinate, m: LayoutMetrics, count: int, index: int, radius: int) -> bool {
    let f = SCALE_FACTOR as int;
    &&& fits_i32(c.item_size * count)
    &&& fits_i32(c.item_size * index)
    &&& fits_i32(c.icons_x + c.item_size * index)
    &&& fits_i32(m.border_size * 2)
    &&& fits_i32(c.width - m.border_size * 2)
    &&& fits_i32(c.item_size * count * f)
    &&& fits_i32(c.item_size * f)
    &&& fits_i32(m.icon_border * f)
    &&& fits_i32(c.icon_size * f)
    &&& fits_i32(m.icon_border * f * 2)
    &&& fits_i32(c.icon_size * f + m.icon_border * f * 2)
    &&& fits_i32(radius * f)
}

/// The paint geometry where its arithmetic stays within 32 bits, `None`
/// where some step would overflow.
pub fn paint_geometry(c: Coordinate, m: LayoutMetrics, count: i32, index: i32, radius: i32) -> (r:
    Option<PaintGeometry>)
    ensures
        r is Some <==> paint_fits(c, m, count as int, index as int, radius as int),
        r matches Some(g) ==> g == spec_paint_geometry(c, m, count as int, index as int, radius as int),
{
    let Some(icons_width) = c.item_size.checked_mul(count) else { return None };
    let Some(offset) = c.item_size.checked_mul(index) else { return None };
    let Some(selected_x) = c.icons_x.checked_add(offset) else { return None };
    let Some(borders) = m.border_size.checked_mul(2) else { return None };
    let Some(title_width) = c.width.checked_sub(borders) else { return None };
    let Some(scaled_width) = icons_width.checked_mul(SCALE_FACTOR) else { return None };
    let Some(scaled_item) = c.item_size.checked_mul(SCALE_FACTOR) else { return None };
    let Some(scaled_border) = m.icon_border.checked_mul(SCALE_FACTOR) else { return None };
    let Some(scaled_icon) = c.icon_size.checked_mul(SCALE_FACTOR) else { return None };
    let Some(scaled_borders) = scaled_border.checked_mul(2) else { return None };
    let Some(scaled_cell) = scaled_icon.checked_add(scaled_borders) else { return None };
    let Some(scaled_radius) = radius.checked_mul(SCALE_FACTOR) else { return None };
    Some(PaintGeometry {
        icons_width,
        selected_x,
        title_width,
        scaled_width,
        scaled_height: scaled_item,
        scaled_border,
        scaled_icon,
        scaled_cell,
        scaled_item,
        scaled_radius,
    })
}

/// Left edge of the `i`-th icon in the strip drawn at [`SCALE_FACTOR`]
/// times, `None` where it does not fit 32 bits.
pub fn scaled_icon_x(g: PaintGeometry, i: i32) -> (r: Option<i32>)
    ensures
        r is Some <==> fits_i32(g.scaled_cell * i) && fits_i32(g.scaled_border + g.scaled_cell * i),
        r matches Some(x) ==> x == g.scaled_border + g.scaled_cell * i,
{
    let Some(offset) = g.scaled_cell.checked_mul(i) else { return None };
    g.scaled_border.checked_add(offset)
}

} // verus!
