//! Layout of the icon atlas: every icon is placed left to right on one
//! strip, as tall as the tallest icon, and its pixels are copied there.
//!
//! Rasterising the SVG and PNG sources and uploading the strip to the GPU
//! happen around this; here the icons are sizes, names and RGBA bytes.

use vstd::prelude::*;

verus! {

/// Side of a toolbar icon (px).
pub const ICON_SIZE: u32 = 32;
/// Side of a mouth-shape picture (px).
pub const RHUBARB_ICON_SIZE: u32 = 128;
/// Width of a stretchable detection marker (px).
pub const STRETCHABLE_ICON_WIDTH: u32 = 512;
/// Height of a stretchable detection marker (px).
pub const STRETCHABLE_ICON_HEIGHT: u32 = 64;

/// Source format of an icon.
#[derive(Clone, Copy, Debug, PartialEq, Eq, Structural)]
pub enum AtlasEntryKind {
    Svg,
    Png,
}

/// An icon to place in the atlas.
#[derive(Debug)]
pub struct AtlasEntry {
    pub name: String,
    pub kind: AtlasEntryKind,
    pub width: u32,
    pub height: u32,
    /// Mirrored left to right after rasterising.
    pub flip_h: bool,
}

impl AtlasEntry {
    fn sized(name: &str, kind: AtlasEntryKind, width: u32, height: u32, flip_h: bool) -> (r: Self)
        ensures
            r.name@ == name@,
            r.kind == kind,
            r.width == width,
            r.height == height,
            r.flip_h == flip_h,
    {
        AtlasEntry { name: crate::text::owned(name), kind, width, height, flip_h }
    }

    /// A toolbar icon drawn from SVG.
    pub fn svg(name: &str) -> (r: Self)
        ensures
            r.name@ == name@,
            r.kind == AtlasEntryKind::Svg,
            r.width == ICON_SIZE,
            r.height == ICON_SIZE,
            !r.flip_h,
    {
        Self::sized(name, AtlasEntryKind::Svg, ICON_SIZE, ICON_SIZE, false)
    }

    /// A toolbar icon drawn from SVG and mirrored left to right.
    pub fn flipped_svg(name: &str) -> (r: Self)
        ensures
            r.name@ == name@,
            r.kind == AtlasEntryKind::Svg,
            r.width == ICON_SIZE,
            r.height == ICON_SIZE,
            r.flip_h,
    {
        Self::sized(name, AtlasEntryKind::Svg, ICON_SIZE, ICON_SIZE, true)
    }

    /// A wide detection marker drawn from SVG.
    pub fn stretchable_svg(name: &str) -> (r: Self)
        ensures
            r.name@ == name@,
            r.kind == AtlasEntryKind::Svg,
            r.width == STRETCHABLE_ICON_WIDTH,
            r.height == STRETCHABLE_ICON_HEIGHT,
            !r.flip_h,
    {
        Self::sized(name, AtlasEntryKind::Svg, STRETCHABLE_ICON_WIDTH, STRETCHABLE_ICON_HEIGHT, false)
    }

    /// A mouth-shape picture decoded from PNG.
    pub fn rhubarb_png(name: &str) -> (r: Self)
        ensures
            r.name@ == name@,
            r.kind == AtlasEntryKind::Png,
            r.width == RHUBARB_ICON_SIZE,
            r.height == RHUBARB_ICON_SIZE,
            !r.flip_h,
    {
        Self::sized(name, AtlasEntryKind::Png, RHUBARB_ICON_SIZE, RHUBARB_ICON_SIZE, false)
    }
}

/// Where an icon sits in the atlas (px).
#[derive(Debug)]
pub struct IconPlacement {
    pub name: String,
    pub x: u32,
    pub y: u32,
    pub width: u32,
    pub height: u32,
}

/// Size of the atlas and the place of every icon, in the entries' order.
#[derive(Debug)]
pub struct AtlasLayout {
    pub width: u32,
    pub height: u32,
    pub placements: Vec<IconPlacement>,
}

/// Total width of the first `k` entries.
pub open spec fn widths_before(entries: Seq<AtlasEntry>, k: int) -> int
    decreases k,
{
    if k <= 0 || k > entries.len() {
        0
    } else {
        widths_before(entries, k - 1) + entries[k - 1].width
    }
}

/// Height of the tallest of the first `k` entries (0 for none).
pub open spec fn tallest(entries: Seq<AtlasEntry>, k: int) -> int
    decreases k,
{
    if k <= 0 || k > entries.len() {
        0
    } else {
        let h = entries[k - 1].height as int;
        let t = tallest(entries, k - 1);
        if h > t {
            h
        } else {
            t
        }
    }
}

/// Height of the atlas: the tallest entry, or a toolbar icon's side when
/// there is none.
pub open spec fn atlas_height(entries: Seq<AtlasEntry>) -> int {
    if entries.len() == 0 {
        ICON_SIZE as int
    } else {
        tallest(entries, entries.len() as int)
    }
}

/// The placements lie side by side from the left edge, top-aligned, and
/// exactly cover the atlas width; no icon is taller than the atlas.
pub open spec fn tiles(l: &AtlasLayout) -> bool {
    let p = l.placements@;
    let n = p.len() as int;
    &&& forall|k: int| 0 <= k < n ==> (#[trigger] p[k]).y == 0 && p[k].height <= l.height
    &&& n == 0 ==> l.width == 0
    &&& n > 0 ==> p[0].x == 0 && p[n - 1].x + p[n - 1].width == l.width
    &&& forall|k: int| 0 <= k < n - 1 ==> #[trigger] p[k + 1].x == p[k].x + p[k].width
}

proof fn lemma_widths_grow(entries: Seq<AtlasEntry>, a: int, b: int)
    requires
        0 <= a <= b <= entries.len(),
    ensures
        widths_before(entries, a) <= widths_before(entries, b),
    decreases b - a,
{
    if a < b {
        lemma_widths_grow(entries, a, b - 1);
    }
}

proof fn lemma_tallest_bounds(entries: Seq<AtlasEntry>, k: int, j: int)
    requires
        0 <= j < k <= entries.len(),
    ensures
        entries[j].height <= tallest(entries, k),
        tallest(entries, k) <= u32::MAX,
    decreases k,
{
    if j < k - 1 {
        lemma_tallest_bounds(entries, k - 1, j);
    } else if k - 1 > 0 {
        lemma_tallest_bounds(entries, k - 1, 0);
    }
}

/// Places `entries` left to right, in order, on a strip as tall as the
/// tallest of them.
pub fn atlas_layout(entries: &Vec<AtlasEntry>) -> (r: AtlasLayout)
    requires
        widths_before(entries@, entries@.len() as int) <= u32::MAX,
    ensures
        r.width == widths_before(entries@, entries@.len() as int),
        r.height == atlas_height(entries@),
        r.placements@.len() == entries@.len(),
        forall|k: int|
            0 <= k < entries@.len() ==> {
                let p = #[trigger] r.placements@[k];
                &&& p.name@ == entries@[k].name@
                &&& p.x == widths_before(entries@, k)
                &&& p.y == 0
                &&& p.width == entries@[k].width
                &&& p.height == entries@[k].height
            },
        tiles(&r),
{
    let n = entries.len();
    let mut placements: Vec<IconPlacement> = Vec::new();
    let mut x: u32 = 0;
    let mut tall: u32 = 0;
    let mut k: usize = 0;
    while k < n
        invariant
            n == entries@.len(),
            k <= n,
            widths_before(entries@, n as int) <= u32::MAX,
            x == widths_before(entries@, k as int),
            tall == tallest(entries@, k as int),
            placements@.len() == k,
            forall|j: int|
                0 <= j < k ==> {
                    let p = #[trigger] placements@[j];
                    &&& p.name@ == entries@[j].name@
                    &&& p.x == widths_before(entries@, j)
                    &&& p.y == 0
                    &&& p.width == entries@[j].width
                    &&& p.height == entries@[j].height
                },
        decreases n - k,
    {
        let e = &entries[k];
        proof {
            lemma_widths_grow(entries@, k + 1, n as int);
        }
        placements.push(
            IconPlacement {
                name: crate::text::owned(e.name.as_str()),
                x,
                y: 0,
                width: e.width,
                height: e.height,
            },
        );
        x = x + e.width;
        if e.height > tall {
            tall = e.height;
        }
        k = k + 1;
    }
    let height = if n == 0 { ICON_SIZE } else { tall };
    let r = AtlasLayout { width: x, height, placements };
    proof {
        assert forall|j: int| 0 <= j < n implies (#[trigger] r.placements@[j]).y == 0
            && r.placements@[j].height <= r.height by {
            lemma_tallest_bounds(entries@, n as int, j);
        }
        assert forall|j: int| 0 <= j < n - 1 implies #[trigger] r.placements@[j + 1].x
            == r.placements@[j].x + r.placements@[j].width by {
            assert(r.placements@[j + 1].x == widths_before(entries@, j + 1));
        }
        if n > 0 {
            assert(r.placements@[0].x == widths_before(entries@, 0));
            assert(r.placements@[n - 1].x == widths_before(entries@, n - 1));
        }
    }
    r
}

/// Index of the last placement named `name` among the first `k`, if any.
pub open spec fn last_named(p: Seq<IconPlacement>, name: Seq<char>, k: int) -> Option<int>
    decreases k,
{
    if k <= 0 || k > p.len() {
        None
    } else if p[k - 1].name@ == name {
        Some(k - 1)
    } else {
        last_named(p, name, k - 1)
    }
}

/// Place of the icon named `name`, as `(x, y, width, height)`: the last one
/// placed under that name.
pub open spec fn placement_of(l: &AtlasLayout, name: Seq<char>) -> Option<(u32, u32, u32, u32)> {
    match last_named(l.placements@, name, l.placements@.len() as int) {
        Some(k) => {
            let p = l.placements@[k];
            Some((p.x, p.y, p.width, p.height))
        },
        None => None,
    }
}

impl AtlasLayout {
    /// Place of the icon named `name`, as `(x, y, width, height)`.
    pub fn position_of(&self, name: &str) -> (r: Option<(u32, u32, u32, u32)>)
        ensures
            r == placement_of(self, name@),
    {
        let mut k = self.placements.len();
        while k > 0
            invariant
                k <= self.placements@.len(),
                last_named(self.placements@, name@, self.placements@.len() as int) == last_named(
                    self.placements@,
                    name@,
                    k as int,
                ),
            decreases k,
        {
            let p = &self.placements[k - 1];
            if crate::event::key_is(&p.name, name) {
                return Some((p.x, p.y, p.width, p.height));
            }
            k = k - 1;
        }
        None
    }
}

/// Icons of the atlas never overlap and all lie inside it: each one ends
/// where or before the next one starts, and the last one ends at the
/// atlas's right edge.
pub proof fn lemma_placements_are_disjoint(l: &AtlasLayout, a: int, b: int)
    requires
        tiles(l),
        0 <= a < b < l.placements@.len(),
    ensures
        l.placements@[a].x + l.placements@[a].width <= l.placements@[b].x,
        l.placements@[b].x + l.placements@[b].width <= l.width,
    decreases b - a,
{
    let p = l.placements@;
    let n = p.len() as int;
    if a + 1 < b {
        lemma_placements_are_disjoint(l, a + 1, b);
        assert(p[a + 1].x == p[a].x + p[a].width);
    } else {
        assert(p[a + 1].x == p[a].x + p[a].width);
        lemma_ends_within(l, b);
    }
}

proof fn lemma_ends_within(l: &AtlasLayout, b: int)
    requires
        tiles(l),
        0 <= b < l.placements@.len(),
    ensures
        l.placements@[b].x + l.placements@[b].width <= l.width,
    decreases l.placements@.len() - b,
{
    let p = l.placements@;
    let n = p.len() as int;
    if b < n - 1 {
        lemma_ends_within(l, b + 1);
        assert(p[b + 1].x == p[b].x + p[b].width);
    }
}

/// Byte of channel `c` of pixel `(x, y)` in an RGBA image `w` pixels wide.
pub open spec fn pixel_index(w: int, x: int, y: int, c: int) -> int {
    (y * w + x) * 4 + c
}

/// `b` is `a` mirrored left to right: both hold `w` by `h` RGBA pixels and
/// pixel `(x, y)` of `b` is pixel `(w - 1 - x, y)` of `a`.
pub open spec fn is_mirror(a: Seq<u8>, b: Seq<u8>, w: int, h: int) -> bool {
    &&& a.len() == w * h * 4
    &&& b.len() == a.len()
    &&& forall|x: int, y: int, c: int|
        0 <= x < w && 0 <= y < h && 0 <= c < 4 ==> b[#[trigger] pixel_index(w, x, y, c)]
            == a[pixel_index(w, w - 1 - x, y, c)]
}

proof fn lemma_pixel_in_image(w: int, h: int, x: int, y: int, c: int)
    requires
        0 <= x < w,
        0 <= y < h,
        0 <= c < 4,
    ensures
        0 <= pixel_index(w, x, y, c) < w * h * 4,
{
    assert(0 <= y * w) by (nonlinear_arith)
        requires
            0 <= y,
            0 <= w,
    ;
    assert(y * w + x < w * h) by (nonlinear_arith)
        requires
            0 <= x < w,
            0 <= y < h,
    ;
}

/// Every byte of a `w` by `h` RGBA image is channel `i % 4` of the pixel
/// `((i / 4) % w, (i / 4) / w)`.
proof fn lemma_byte_decomposes(i: int, w: int, h: int)
    requires
        w > 0,
        0 <= i < w * h * 4,
    ensures
        0 <= (i / 4) % w < w,
        0 <= (i / 4) / w < h,
        0 <= i % 4 < 4,
        i == pixel_index(w, (i / 4) % w, (i / 4) / w, i % 4),
{
    let p = i / 4;
    vstd::arithmetic::div_mod::lemma_fundamental_div_mod(i, 4);
    vstd::arithmetic::div_mod::lemma_fundamental_div_mod(p, w);
    vstd::arithmetic::div_mod::lemma_mod_bound(p, w);
    vstd::arithmetic::div_mod::lemma_mod_bound(i, 4);
    assert(p < w * h) by {
        assert(w * h * 4 == (w * h) * 4) by (nonlinear_arith);
        vstd::arithmetic::div_mod::lemma_div_by_multiple_is_strongly_ordered(i, w * h * 4, w * h, 4);
        vstd::arithmetic::div_mod::lemma_div_multiples_vanish(w * h, 4);
    }
    assert(0 <= p / w) by {
        vstd::arithmetic::div_mod::lemma_div_pos_is_pos(p, w);
    }
    assert(p / w < h) by {
        assert(w * h == h * w) by (nonlinear_arith);
        vstd::arithmetic::div_mod::lemma_div_by_multiple_is_strongly_ordered(p, w * h, h, w);
        vstd::arithmetic::div_mod::lemma_div_multiples_vanish(h, w);
    }
    assert(p == (p / w) * w + p % w) by {
        assert(w * (p / w) == (p / w) * w) by (nonlinear_arith);
    }
}

proof fn lemma_pixel_coordinates(w: int, x: int, y: int, c: int)
    requires
        0 <= x < w,
        0 <= y,
        0 <= c < 4,
    ensures
        pixel_index(w, x, y, c) / 4 == y * w + x,
        pixel_index(w, x, y, c) % 4 == c,
        (pixel_index(w, x, y, c) / 4) % w == x,
        (pixel_index(w, x, y, c) / 4) / w == y,
{
    let i = pixel_index(w, x, y, c);
    let p = y * w + x;
    vstd::arithmetic::div_mod::lemma_fundamental_div_mod_converse(i, 4, p, c);
    vstd::arithmetic::div_mod::lemma_fundamental_div_mod_converse(p, w, y, x);
}

/// Mirrors an image of `width` by `height` RGBA pixels left to right.
pub fn flip_horizontal(pixels: &mut Vec<u8>, width: u32, height: u32)
    requires
        old(pixels)@.len() == width * height * 4,
    ensures
        is_mirror(old(pixels)@, final(pixels)@, width as int, height as int),
{
    let ghost w = width as int;
    let ghost h = height as int;
    let len = pixels.len();
    let wu = width as usize;
    let mut out: Vec<u8> = Vec::new();
    let mut i: usize = 0;
    while i < len
        invariant
            len == pixels@.len(),
            len == w * h * 4,
            wu == w,
            out@.len() == i,
            i <= len,
            forall|m: int|
                0 <= m < i ==> out@[m] == pixels@[pixel_index(
                    w,
                    w - 1 - (m / 4) % w,
                    (m / 4) / w,
                    m % 4,
                )],
        decreases len - i,
    {
        proof {
            lemma_byte_decomposes(i as int, w, h);
        }
        let p = i / 4;
        let x = p % wu;
        let row = p / wu;
        let c = i % 4;
        proof {
            lemma_pixel_in_image(w, h, w - 1 - x, row as int, c as int);
        }
        let j = (row * wu + (wu - 1 - x)) * 4 + c;
        out.push(pixels[j]);
        i = i + 1;
    }
    proof {
        assert forall|x: int, y: int, c: int|
            0 <= x < w && 0 <= y < h && 0 <= c < 4 implies out@[#[trigger] pixel_index(w, x, y, c)]
            == pixels@[pixel_index(w, w - 1 - x, y, c)] by {
            lemma_pixel_in_image(w, h, x, y, c);
            lemma_pixel_coordinates(w, x, y, c);
        }
    }
    *pixels = out;
}

/// Mirroring twice gives back the original image.
pub proof fn lemma_mirroring_twice_restores(a: Seq<u8>, b: Seq<u8>, c: Seq<u8>, w: int, h: int)
    requires
        w > 0,
        h >= 0,
        is_mirror(a, b, w, h),
        is_mirror(b, c, w, h),
    ensures
        c == a,
{
    assert forall|i: int| 0 <= i < a.len() implies c[i] == a[i] by {
        lemma_byte_decomposes(i, w, h);
        let x = (i / 4) % w;
        let y = (i / 4) / w;
        let ch = i % 4;
        assert(c[pixel_index(w, x, y, ch)] == b[pixel_index(w, w - 1 - x, y, ch)]);
        assert(b[pixel_index(w, w - 1 - x, y, ch)] == a[pixel_index(w, w - 1 - (w - 1 - x), y, ch)]);
    }
    assert(c =~= a);
}

/// Icon `k`'s columns are `[x, x + width)` of the atlas.
pub open spec fn covers(l: &AtlasLayout, k: int, col: int) -> bool {
    0 <= k < l.placements@.len() && l.placements@[k].x <= col < l.placements@[k].x
        + l.placements@[k].width
}

proof fn lemma_one_icon_per_column(l: &AtlasLayout, a: int, b: int, col: int)
    requires
        tiles(l),
        covers(l, a, col),
        covers(l, b, col),
    ensures
        a == b,
{
    if a < b {
        lemma_placements_are_disjoint(l, a, b);
    } else if b < a {
        lemma_placements_are_disjoint(l, b, a);
    }
}

/// Table of the icon covering each column of the atlas.
fn column_owners(l: &AtlasLayout) -> (owners: Vec<usize>)
    requires
        tiles(l),
    ensures
        owners@.len() == l.width,
        forall|col: int| 0 <= col < l.width ==> covers(l, #[trigger] owners@[col] as int, col),
{
    let n = l.placements.len();
    let mut owners: Vec<usize> = Vec::new();
    let mut k: usize = 0;
    while k < n
        invariant
            n == l.placements@.len(),
            tiles(l),
            k <= n,
            owners@.len() == if k < n { l.placements@[k as int].x as int } else { l.width as int },
            forall|col: int| 0 <= col < owners@.len() ==> covers(l, #[trigger] owners@[col] as int, col),
        decreases n - k,
    {
        let w = l.placements[k].width;
        let mut d: u32 = 0;
        while d < w
            invariant
                n == l.placements@.len(),
                k < n,
                w == l.placements@[k as int].width,
                d <= w,
                owners@.len() == l.placements@[k as int].x + d,
                forall|col: int| 0 <= col < owners@.len() ==> covers(l, #[trigger] owners@[col] as int, col),
            decreases w - d,
        {
            owners.push(k);
            d = d + 1;
        }
        proof {
            if k + 1 < n {
                assert(l.placements@[k + 1].x == l.placements@[k as int].x + l.placements@[k as int].width);
            }
        }
        k = k + 1;
    }
    owners
}

proof fn lemma_byte_of_icon(wk: int, hk: int, x: int, y: int, c: int)
    requires
        0 <= x < wk,
        0 <= y < hk,
        0 <= c < 4,
    ensures
        0 <= y * wk,
        y * wk + x < wk * hk,
        0 <= pixel_index(wk, x, y, c) < wk * hk * 4,
{
    lemma_pixel_in_image(wk, hk, x, y, c);
    assert(0 <= y * wk) by (nonlinear_arith)
        requires
            0 <= y,
            0 <= wk,
    ;
}

/// The atlas strip: each icon's pixels copied to its place, transparent
/// black below icons shorter than the strip.
pub fn compose_atlas(layout: &AtlasLayout, rasters: &Vec<Vec<u8>>) -> (r: Vec<u8>)
    requires
        tiles(layout),
        rasters@.len() == layout.placements@.len(),
        forall|k: int|
            0 <= k < rasters@.len() ==> (#[trigger] rasters@[k])@.len() == layout.placements@[k].width
                * layout.placements@[k].height * 4,
        layout.width * layout.height * 4 <= u32::MAX,
    ensures
        r@.len() == layout.width * layout.height * 4,
        forall|k: int, col: int, y: int, c: int|
            #![trigger r@[pixel_index(layout.width as int, col, y, c)], layout.placements@[k]]
            covers(layout, k, col) && 0 <= y < layout.height && 0 <= c < 4 ==> r@[pixel_index(
                layout.width as int,
                col,
                y,
                c,
            )] == if y < layout.placements@[k].height {
                rasters@[k]@[pixel_index(
                    layout.placements@[k].width as int,
                    col - layout.placements@[k].x,
                    y,
                    c,
                )]
            } else {
                0u8
            },
{
    let ghost w = layout.width as int;
    let ghost h = layout.height as int;
    let owners = column_owners(layout);
    let wu = layout.width as usize;
    let total = wu * (layout.height as usize) * 4;
    let mut out: Vec<u8> = Vec::new();
    let mut i: usize = 0;
    while i < total
        invariant
            tiles(layout),
            rasters@.len() == layout.placements@.len(),
            forall|k: int|
                0 <= k < rasters@.len() ==> (#[trigger] rasters@[k])@.len()
                    == layout.placements@[k].width * layout.placements@[k].height * 4,
            wu == w,
            w == layout.width,
            h == layout.height,
            total == w * h * 4,
            owners@.len() == w,
            forall|col: int| 0 <= col < w ==> covers(layout, #[trigger] owners@[col] as int, col),
            i <= total,
            out@.len() == i,
            forall|m: int|
                #![trigger out@[m]]
                0 <= m < i ==> {
                    let col = (m / 4) % w;
                    let y = (m / 4) / w;
                    let k = owners@[col] as int;
                    let pk = layout.placements@[k];
                    out@[m] == if y < pk.height {
                        rasters@[k]@[pixel_index(pk.width as int, col - pk.x, y, m % 4)]
                    } else {
                        0u8
                    }
                },
        decreases total - i,
    {
        proof {
            if w == 0 {
                assert(w * h * 4 == 0) by (nonlinear_arith)
                    requires
                        w == 0,
                ;
            }
            lemma_byte_decomposes(i as int, w, h);
        }
        let p = i / 4;
        let col = p % wu;
        let row = p / wu;
        let c = i % 4;
        let k = owners[col];
        let pk = &layout.placements[k];
        let byte = if (row as u64) < (pk.height as u64) {
            let dx = col - (pk.x as usize);
            let wk = pk.width as usize;
            let rlen = rasters[k].len();
            assert(rlen == pk.width * pk.height * 4);
            proof {
                lemma_byte_of_icon(pk.width as int, pk.height as int, dx as int, row as int, c as int);
            }
            let at = (row * wk + dx) * 4 + c;
            rasters[k][at]
        } else {
            0u8
        };
        out.push(byte);
        i = i + 1;
    }
    proof {
        assert forall|k: int, col: int, y: int, c: int|
            #![trigger out@[pixel_index(w, col, y, c)], layout.placements@[k]]
            covers(layout, k, col) && 0 <= y < h && 0 <= c < 4 implies out@[pixel_index(
                w,
                col,
                y,
                c,
            )] == if y < layout.placements@[k].height {
                rasters@[k]@[pixel_index(
                    layout.placements@[k].width as int,
                    col - layout.placements@[k].x,
                    y,
                    c,
                )]
            } else {
                0u8
            } by {
            lemma_ends_within(layout, k);
            lemma_pixel_in_image(w, h, col, y, c);
            lemma_pixel_coordinates(w, col, y, c);
            lemma_one_icon_per_column(layout, k, owners@[col] as int, col);
        }
    }
    out
}

} // verus!
