//! The glyph atlas of a text run: glyphs sit side by side on one row,
//! separated by padding, in a texture whose sides are powers of two clamped
//! to a fixed range; their bitmaps are copied into it row by row.

use vstd::prelude::*;

verus! {

/// Smallest atlas side in texels.
pub const ATLAS_MIN_SIZE: u32 = 64;

/// Largest atlas side in texels.
pub const ATLAS_MAX_SIZE: u32 = 2048;

/// Empty texels between neighbouring glyphs.
pub const GLYPH_PADDING: u32 = 2;

/// `n` is a power of two.
pub open spec fn is_pow2(n: nat) -> bool
    decreases n,
{
    if n <= 1 {
        n == 1
    } else {
        n % 2 == 0 && is_pow2(n / 2)
    }
}

/// `p` is the smallest power of two that is at least `n`.
pub open spec fn is_next_pow2(p: nat, n: nat) -> bool {
    &&& is_pow2(p)
    &&& p >= n
    &&& (p == 1 || p / 2 < n)
}

/// `n` clamped to the atlas side range.
pub open spec fn clamp_side(n: nat) -> nat {
    if n < ATLAS_MIN_SIZE {
        ATLAS_MIN_SIZE as nat
    } else if n > ATLAS_MAX_SIZE {
        ATLAS_MAX_SIZE as nat
    } else {
        n
    }
}

/// Size of one rasterized glyph bitmap.
#[derive(Debug, Clone, Copy, PartialEq, Eq, Structural)]
pub struct GlyphBox {
    /// Bitmap width in texels.
    pub width: u32,
    /// Bitmap height in texels.
    pub height: u32,
}

/// Where each glyph goes in the atlas, and the atlas size.
#[derive(Debug, Clone)]
pub struct AtlasLayout {
    /// Atlas width in texels.
    pub width: u32,
    /// Atlas height in texels.
    pub height: u32,
    /// Left edge of each glyph, in glyph order.
    pub glyph_x: Vec<u32>,
}

/// Left edge of glyph `i`: the widths of the glyphs before it, each followed
/// by the padding.
pub open spec fn pen_at(glyphs: Seq<GlyphBox>, i: int) -> nat
    decreases i,
{
    if i <= 0 {
        0
    } else {
        pen_at(glyphs, i - 1) + glyphs[i - 1].width as nat + GLYPH_PADDING as nat
    }
}

/// The tallest glyph among the first `i`.
pub open spec fn tallest(glyphs: Seq<GlyphBox>, i: int) -> nat
    decreases i,
{
    if i <= 0 {
        0
    } else if glyphs[i - 1].height > tallest(glyphs, i - 1) {
        glyphs[i - 1].height as nat
    } else {
        tallest(glyphs, i - 1)
    }
}

/// The smallest power of two at least `n`, for `n` up to 2^31.
pub fn next_power_of_two(n: u32) -> (p: u32)
    requires
        n <= 0x8000_0000,
    ensures
        is_next_pow2(p as nat, n as nat),
{
    let mut p: u32 = 1;
    assert(is_pow2(1));
    while p < n
        invariant
            n <= 0x8000_0000,
            is_pow2(p as nat),
            1 <= p,
            p < 2 * n || p == 1,
            p == 1 || p / 2 < n,
        decreases 2 * (n as int) - p,
    {
        assert(is_pow2((2 * p) as nat));
        p = p * 2;
    }
    p
}

/// `n` clamped to `[ATLAS_MIN_SIZE, ATLAS_MAX_SIZE]`.
fn clamp_to_side(n: u32) -> (r: u32)
    ensures
        r == clamp_side(n as nat),
{
    if n < ATLAS_MIN_SIZE {
        ATLAS_MIN_SIZE
    } else if n > ATLAS_MAX_SIZE {
        ATLAS_MAX_SIZE
    } else {
        n
    }
}

/// Lay out glyphs left to right with padding after each: every glyph's left
/// edge, and the atlas size, each side the next power of two of the row's
/// width (resp. the tallest glyph) clamped to the side range.
pub fn layout_atlas(glyphs: &[GlyphBox]) -> (r: AtlasLayout)
    requires
        pen_at(glyphs@, glyphs@.len() as int) <= 0x8000_0000,
        tallest(glyphs@, glyphs@.len() as int) <= 0x8000_0000,
    ensures
        r.glyph_x@.len() == glyphs@.len(),
        forall|i: int| 0 <= i < glyphs@.len() ==> r.glyph_x@[i] == pen_at(glyphs@, i),
        exists|p: nat|
            is_next_pow2(p, pen_at(glyphs@, glyphs@.len() as int)) && r.width == clamp_side(p),
        exists|p: nat|
            is_next_pow2(p, tallest(glyphs@, glyphs@.len() as int)) && r.height == clamp_side(p),
        forall|j: int|
            0 <= j < glyphs@.len() && glyphs@[j].height <= ATLAS_MAX_SIZE ==> glyphs@[j].height
                <= r.height,
        r.height > ATLAS_MIN_SIZE ==> exists|j: int|
            0 <= j < glyphs@.len() && 2 * glyphs@[j].height > r.height,
        ATLAS_MIN_SIZE <= r.height <= ATLAS_MAX_SIZE,
        pen_at(glyphs@, glyphs@.len() as int) <= ATLAS_MAX_SIZE ==> forall|j: int|
            0 <= j < glyphs@.len() ==> r.glyph_x@[j] + glyphs@[j].width <= r.width,
        glyphs@.len() > 0 ==> r.glyph_x@[0] == 0,
        forall|j: int|
            0 <= j < glyphs@.len() - 1 ==> r.glyph_x@[j + 1] == r.glyph_x@[j] + glyphs@[j].width
                + GLYPH_PADDING,
{
    let mut pen: u32 = 0;
    let mut max_height: u32 = 0;
    let mut xs: Vec<u32> = Vec::new();
    let mut i: usize = 0;
    while i < glyphs.len()
        invariant
            i <= glyphs@.len(),
            pen_at(glyphs@, glyphs@.len() as int) <= 0x8000_0000,
            pen == pen_at(glyphs@, i as int),
            max_height == tallest(glyphs@, i as int),
            xs@.len() == i,
            forall|j: int| 0 <= j < i ==> xs@[j] == pen_at(glyphs@, j),
        decreases glyphs@.len() - i,
    {
        proof {
            lemma_pen_monotone(glyphs@, i + 1, glyphs@.len() as int);
        }
        xs.push(pen);
        let g = glyphs[i];
        pen = pen + g.width + GLYPH_PADDING;
        if g.height > max_height {
            max_height = g.height;
        }
        i = i + 1;
    }
    let w = next_power_of_two(pen);
    let h = next_power_of_two(max_height);
    let r = AtlasLayout { width: clamp_to_side(w), height: clamp_to_side(h), glyph_x: xs };
    assert(is_next_pow2(w as nat, pen_at(glyphs@, glyphs@.len() as int)));
    proof {
        let n = glyphs@.len() as int;
        lemma_tallest(glyphs@, n);
        let t = tallest(glyphs@, n);
        assert(is_next_pow2(h as nat, t));
        assert forall|j: int| 0 <= j < n implies pen_at(glyphs@, j) + glyphs@[j].width <= pen_at(
            glyphs@,
            n,
        ) by {
            lemma_pen_monotone(glyphs@, j + 1, n);
        }
        if r.height > ATLAS_MIN_SIZE {
            assert(h != 1);
            assert(2 * t > r.height);
            let j = choose|j: int| 0 <= j < n && tallest(glyphs@, n) == glyphs@[j].height;
            assert(0 <= j < n && 2 * glyphs@[j].height > r.height);
        }
    }
    r
}

/// The atlas is tall enough for every glyph: a side that is the next power of
/// two of the tallest glyph, clamped to the side range, holds each glyph that
/// is not taller than the largest side.
pub proof fn lemma_atlas_height_fits(glyphs: Seq<GlyphBox>, p: nat)
    requires
        is_next_pow2(p, tallest(glyphs, glyphs.len() as int)),
    ensures
        forall|j: int|
            0 <= j < glyphs.len() && glyphs[j].height <= ATLAS_MAX_SIZE ==> glyphs[j].height
                <= clamp_side(p),
{
    lemma_tallest(glyphs, glyphs.len() as int);
}

/// The tallest of the first `i` glyphs is at least as tall as each of them,
/// and is one of their heights (0 when there are none).
proof fn lemma_tallest(glyphs: Seq<GlyphBox>, i: int)
    requires
        0 <= i <= glyphs.len(),
    ensures
        forall|j: int| 0 <= j < i ==> glyphs[j].height <= tallest(glyphs, i),
        i == 0 ==> tallest(glyphs, i) == 0,
        i > 0 ==> exists|j: int| 0 <= j < i && tallest(glyphs, i) == glyphs[j].height,
    decreases i,
{
    if i > 0 {
        lemma_tallest(glyphs, i - 1);
        if glyphs[i - 1].height > tallest(glyphs, i - 1) {
            assert(tallest(glyphs, i) == glyphs[i - 1].height);
        } else if i - 1 > 0 {
            let j = choose|j: int| 0 <= j < i - 1 && tallest(glyphs, i - 1) == glyphs[j].height;
            assert(tallest(glyphs, i) == glyphs[j].height);
        } else {
            assert(tallest(glyphs, i) == glyphs[0].height);
        }
    }
}

/// Left edges only grow along the row.
proof fn lemma_pen_monotone(glyphs: Seq<GlyphBox>, i: int, j: int)
    requires
        0 <= i <= j <= glyphs.len(),
    ensures
        pen_at(glyphs, i) <= pen_at(glyphs, j),
    decreases j - i,
{
    if i < j {
        lemma_pen_monotone(glyphs, i, j - 1);
    }
}

/// A rasterized glyph: `height` rows of `width` coverage values, row by row.
#[derive(Debug, Clone)]
pub struct GlyphBitmap {
    /// Bitmap width in texels.
    pub width: u32,
    /// Bitmap height in texels.
    pub height: u32,
    /// Coverage values, row by row.
    pub pixels: Vec<u8>,
}

/// Copying row `y` of glyph `g`, drawn with its left edge at `pen` in an
/// atlas `aw` texels wide, puts a texel at atlas index `t`: the column
/// `t - pen - y * aw` lies within the glyph and the bitmap has that texel.
pub open spec fn row_hits(g: GlyphBitmap, pen: int, aw: int, y: int, t: int) -> bool {
    let x = t - pen - y * aw;
    &&& 0 <= y < g.height
    &&& 0 <= x < g.width
    &&& y * g.width + x < g.pixels@.len()
}

/// The texel that row `y` of glyph `g` puts at atlas index `t`.
pub open spec fn row_texel(g: GlyphBitmap, pen: int, aw: int, y: int, t: int) -> u8 {
    g.pixels@[y * g.width + (t - pen - y * aw)]
}

/// A row copied after row `y` of glyph `k` (a later row of that glyph, or a
/// row of a later glyph) also puts a texel at `t`.
pub open spec fn overwritten(
    glyphs: Seq<GlyphBitmap>,
    xs: Seq<u32>,
    aw: int,
    k: int,
    y: int,
    t: int,
) -> bool {
    exists|k2: int, y2: int|
        #![trigger row_hits(glyphs[k2], xs[k2] as int, aw, y2, t)]
        (k < k2 < glyphs.len() || (k2 == k && y2 > y)) && row_hits(
            glyphs[k2],
            xs[k2] as int,
            aw,
            y2,
            t,
        )
}

/// `data` is the atlas image of `glyphs` drawn at left edges `xs` in an atlas
/// `aw` texels wide, copied glyph by glyph and row by row: a texel that no
/// row reaches is 0; a texel holds what the last row to reach it put there.
pub open spec fn is_atlas_image(data: Seq<u8>, glyphs: Seq<GlyphBitmap>, xs: Seq<u32>, aw: int) -> bool {
    forall|t: int|
        0 <= t < data.len() ==> {
            &&& (forall|k: int, y: int|
                0 <= k < glyphs.len() ==> !#[trigger] row_hits(glyphs[k], xs[k] as int, aw, y, t))
                ==> data[t] == 0
            &&& forall|k: int, y: int|
                0 <= k < glyphs.len() && #[trigger] row_hits(glyphs[k], xs[k] as int, aw, y, t)
                    && !overwritten(glyphs, xs, aw, k, y, t) ==> data[t] == row_texel(
                    glyphs[k],
                    xs[k] as int,
                    aw,
                    y,
                    t,
                )
        }
}

/// The row copy `(k, y)` comes before `(k2, y2)`, or is it.
pub open spec fn row_le(k: int, y: int, k2: int, y2: int) -> bool {
    k < k2 || (k == k2 && y <= y2)
}

/// Row `y` of glyph `k` is copied, up to column `x`, once the copy has
/// reached glyph `kc`, row `yc`, column `xc`.
pub open spec fn copied(
    glyphs: Seq<GlyphBitmap>,
    xs: Seq<u32>,
    aw: int,
    kc: int,
    yc: int,
    xc: int,
    k: int,
    y: int,
    t: int,
) -> bool {
    &&& row_hits(glyphs[k], xs[k] as int, aw, y, t)
    &&& (k < kc || (k == kc && (y < yc || (y == yc && t - xs[k] - y * aw < xc))))
}

/// The glyph of a recorded row copy.
pub open spec fn copy_glyph(o: Option<(int, int)>) -> int {
    match o {
        Some((k, y)) => k,
        None => -1,
    }
}

/// The row of a recorded row copy.
pub open spec fn copy_row(o: Option<(int, int)>) -> int {
    match o {
        Some((k, y)) => y,
        None => -1,
    }
}

/// Texels that no copy reached are 0.
pub open spec fn unreached_zero(data: Seq<u8>, owner: Seq<Option<(int, int)>>) -> bool {
    forall|t: int| #![trigger data[t]] 0 <= t < data.len() && owner[t] is None ==> data[t] == 0
}

/// No copy so far reached a texel without an owner.
pub open spec fn unowned_unreached(
    data: Seq<u8>,
    owner: Seq<Option<(int, int)>>,
    glyphs: Seq<GlyphBitmap>,
    xs: Seq<u32>,
    aw: int,
    kc: int,
    yc: int,
    xc: int,
) -> bool {
    forall|t: int, k: int, y: int|
        #![trigger copied(glyphs, xs, aw, kc, yc, xc, k, y, t)]
        0 <= t < data.len() && owner[t] is None && 0 <= k < glyphs.len() ==> !copied(
            glyphs,
            xs,
            aw,
            kc,
            yc,
            xc,
            k,
            y,
            t,
        )
}

/// Texel `t` is owned by a copy that reached it and put its texel there.
pub open spec fn owner_ok(
    data: Seq<u8>,
    owner: Seq<Option<(int, int)>>,
    glyphs: Seq<GlyphBitmap>,
    xs: Seq<u32>,
    aw: int,
    kc: int,
    yc: int,
    xc: int,
    t: int,
) -> bool {
    let k = copy_glyph(owner[t]);
    let y = copy_row(owner[t]);
    &&& 0 <= k < glyphs.len()
    &&& copied(glyphs, xs, aw, kc, yc, xc, k, y, t)
    &&& data[t] == row_texel(glyphs[k], xs[k] as int, aw, y, t)
}

/// The owner of a texel is a copy that reached it and put its texel there.
pub open spec fn owner_wrote(
    data: Seq<u8>,
    owner: Seq<Option<(int, int)>>,
    glyphs: Seq<GlyphBitmap>,
    xs: Seq<u32>,
    aw: int,
    kc: int,
    yc: int,
    xc: int,
) -> bool {
    forall|t: int|
        0 <= t < data.len() && owner[t] is Some ==> #[trigger] owner_ok(
            data,
            owner,
            glyphs,
            xs,
            aw,
            kc,
            yc,
            xc,
            t,
        )
}

/// No copy so far reached a texel after its owner.
pub open spec fn owner_latest(
    data: Seq<u8>,
    owner: Seq<Option<(int, int)>>,
    glyphs: Seq<GlyphBitmap>,
    xs: Seq<u32>,
    aw: int,
    kc: int,
    yc: int,
    xc: int,
) -> bool {
    forall|t: int, k2: int, y2: int|
        #![trigger copied(glyphs, xs, aw, kc, yc, xc, k2, y2, t)]
        0 <= t < data.len() && owner[t] is Some && 0 <= k2 < glyphs.len() && copied(
            glyphs,
            xs,
            aw,
            kc,
            yc,
            xc,
            k2,
            y2,
            t,
        ) ==> row_le(k2, y2, copy_glyph(owner[t]), copy_row(owner[t]))
}

/// What the copy loop keeps: `owner[t]` names the last row copy that reached
/// texel `t`, whose texel is there, and no copy so far reached `t` after it;
/// texels no copy reached are 0.
pub open spec fn copy_inv(
    data: Seq<u8>,
    owner: Seq<Option<(int, int)>>,
    glyphs: Seq<GlyphBitmap>,
    xs: Seq<u32>,
    aw: int,
    kc: int,
    yc: int,
    xc: int,
) -> bool {
    &&& owner.len() == data.len()
    &&& unreached_zero(data, owner)
    &&& unowned_unreached(data, owner, glyphs, xs, aw, kc, yc, xc)
    &&& owner_wrote(data, owner, glyphs, xs, aw, kc, yc, xc)
    &&& owner_latest(data, owner, glyphs, xs, aw, kc, yc, xc)
}

/// Two copy positions that have copied the same row copies leave the loop's
/// invariant as it was.
proof fn lemma_copy_inv_same(
    data: Seq<u8>,
    owner: Seq<Option<(int, int)>>,
    glyphs: Seq<GlyphBitmap>,
    xs: Seq<u32>,
    aw: int,
    kc: int,
    yc: int,
    xc: int,
    kd: int,
    yd: int,
    xd: int,
)
    requires
        copy_inv(data, owner, glyphs, xs, aw, kc, yc, xc),
        forall|k: int, y: int, t: int|
            #![trigger copied(glyphs, xs, aw, kc, yc, xc, k, y, t)]
            #![trigger copied(glyphs, xs, aw, kd, yd, xd, k, y, t)]
            0 <= k < glyphs.len() ==> copied(glyphs, xs, aw, kc, yc, xc, k, y, t) == copied(
                glyphs,
                xs,
                aw,
                kd,
                yd,
                xd,
                k,
                y,
                t,
            ),
    ensures
        copy_inv(data, owner, glyphs, xs, aw, kd, yd, xd),
{
    assert forall|t: int| 0 <= t < data.len() && owner[t] is Some implies #[trigger] owner_ok(
        data,
        owner,
        glyphs,
        xs,
        aw,
        kd,
        yd,
        xd,
        t,
    ) by {
        assert(owner_ok(data, owner, glyphs, xs, aw, kc, yc, xc, t));
        assert(copied(glyphs, xs, aw, kc, yc, xc, copy_glyph(owner[t]), copy_row(owner[t]), t));
    }
}

/// One texel copy keeps the loop's invariant, the copy position moving one
/// column on.
proof fn lemma_copy_step(
    data: Seq<u8>,
    owner: Seq<Option<(int, int)>>,
    new_data: Seq<u8>,
    new_owner: Seq<Option<(int, int)>>,
    glyphs: Seq<GlyphBitmap>,
    xs: Seq<u32>,
    aw: int,
    k: int,
    y: int,
    x: int,
    t0: int,
)
    requires
        copy_inv(data, owner, glyphs, xs, aw, k, y, x),
        xs.len() == glyphs.len(),
        0 <= k < glyphs.len(),
        0 <= y < glyphs[k].height,
        0 <= x < glyphs[k].width,
        t0 == y * aw + xs[k] + x,
        (0 <= t0 < data.len() && row_hits(glyphs[k], xs[k] as int, aw, y, t0)) ==> new_data
            == data.update(t0, row_texel(glyphs[k], xs[k] as int, aw, y, t0)) && new_owner
            == owner.update(t0, Some((k, y))),
        !(0 <= t0 < data.len() && row_hits(glyphs[k], xs[k] as int, aw, y, t0)) ==> new_data
            == data && new_owner == owner,
    ensures
        copy_inv(new_data, new_owner, glyphs, xs, aw, k, y, x + 1),
{
    let x1 = x + 1;
    let wrote = 0 <= t0 < data.len() && row_hits(glyphs[k], xs[k] as int, aw, y, t0);
    assert(t0 - xs[k] - y * aw == x);
    // Away from texel t0, the copies made so far are the same.
    assert forall|k1: int, y1: int, t: int|
        t != t0 && 0 <= k1 < glyphs.len() implies #[trigger] copied(
        glyphs,
        xs,
        aw,
        k,
        y,
        x1,
        k1,
        y1,
        t,
    ) == copied(glyphs, xs, aw, k, y, x, k1, y1, t) by {
        if k1 == k && y1 == y && row_hits(glyphs[k1], xs[k1] as int, aw, y1, t) && t - xs[k1] - y1
            * aw == x {
            assert(t == t0);
        }
    }
    // At texel t0, the copies made before all come before row (k, y).
    assert forall|k1: int, y1: int|
        0 <= k1 < glyphs.len() && #[trigger] copied(glyphs, xs, aw, k, y, x, k1, y1, t0) implies copied(
        glyphs,
        xs,
        aw,
        k,
        y,
        x1,
        k1,
        y1,
        t0,
    ) && row_le(k1, y1, k, y) && !(k1 == k && y1 == y) by {
    }
    // At texel t0, a copy made now is the new one or one made before.
    assert forall|k1: int, y1: int|
        0 <= k1 < glyphs.len() && #[trigger] copied(glyphs, xs, aw, k, y, x1, k1, y1, t0) && !(k1
            == k && y1 == y) implies copied(glyphs, xs, aw, k, y, x, k1, y1, t0) by {
        assert(k1 < k || (k1 == k && y1 < y));
    }
    assert(unreached_zero(new_data, new_owner)) by {
        assert forall|t: int|
            0 <= t < new_data.len() && new_owner[t] is None implies #[trigger] new_data[t] == 0 by {
            if !(wrote && t == t0) {
                assert(new_data[t] == data[t]);
                assert(new_owner[t] == owner[t]);
            }
        }
    }
    assert(unowned_unreached(new_data, new_owner, glyphs, xs, aw, k, y, x1)) by {
        assert forall|t: int, k1: int, y1: int|
            0 <= t < new_data.len() && new_owner[t] is None && 0 <= k1 < glyphs.len() implies !#[trigger] copied(
            glyphs,
            xs,
            aw,
            k,
            y,
            x1,
            k1,
            y1,
            t,
        ) by {
            assert(new_owner[t] == owner[t]);
            if t != t0 {
                assert(copied(glyphs, xs, aw, k, y, x1, k1, y1, t) == copied(
                    glyphs,
                    xs,
                    aw,
                    k,
                    y,
                    x,
                    k1,
                    y1,
                    t,
                ));
            } else if copied(glyphs, xs, aw, k, y, x1, k1, y1, t) {
                if !(k1 == k && y1 == y) {
                    assert(copied(glyphs, xs, aw, k, y, x, k1, y1, t));
                }
            }
        }
    }
    assert(owner_wrote(new_data, new_owner, glyphs, xs, aw, k, y, x1)) by {
        assert forall|t: int|
            0 <= t < new_data.len() && new_owner[t] is Some implies #[trigger] owner_ok(
            new_data,
            new_owner,
            glyphs,
            xs,
            aw,
            k,
            y,
            x1,
            t,
        ) by {
            if wrote && t == t0 {
                assert(new_owner[t] == Some((k, y)));
                assert(copied(glyphs, xs, aw, k, y, x1, k, y, t));
            } else {
                assert(new_data[t] == data[t]);
                assert(new_owner[t] == owner[t]);
                assert(owner_ok(data, owner, glyphs, xs, aw, k, y, x, t));
                let ko = copy_glyph(owner[t]);
                let yo = copy_row(owner[t]);
                if t != t0 {
                    assert(copied(glyphs, xs, aw, k, y, x1, ko, yo, t) == copied(
                        glyphs,
                        xs,
                        aw,
                        k,
                        y,
                        x,
                        ko,
                        yo,
                        t,
                    ));
                } else {
                    assert(copied(glyphs, xs, aw, k, y, x, ko, yo, t));
                }
            }
        }
    }
    assert(owner_latest(new_data, new_owner, glyphs, xs, aw, k, y, x1)) by {
        assert forall|t: int, k2: int, y2: int|
            0 <= t < new_data.len() && new_owner[t] is Some && 0 <= k2 < glyphs.len()
                && #[trigger] copied(
                glyphs,
                xs,
                aw,
                k,
                y,
                x1,
                k2,
                y2,
                t,
            ) implies row_le(k2, y2, copy_glyph(new_owner[t]), copy_row(new_owner[t])) by {
            if wrote && t == t0 {
                assert(new_owner[t] == Some((k, y)));
                if !(k2 == k && y2 == y) {
                    assert(copied(glyphs, xs, aw, k, y, x, k2, y2, t));
                }
            } else {
                assert(new_owner[t] == owner[t]);
                if t != t0 {
                    assert(copied(glyphs, xs, aw, k, y, x1, k2, y2, t) == copied(
                        glyphs,
                        xs,
                        aw,
                        k,
                        y,
                        x,
                        k2,
                        y2,
                        t,
                    ));
                } else if !(k2 == k && y2 == y) {
                    assert(copied(glyphs, xs, aw, k, y, x, k2, y2, t));
                }
            }
        }
    }
}

/// Once every glyph is copied, the invariant says the atlas image is made.
proof fn lemma_copy_done(
    data: Seq<u8>,
    owner: Seq<Option<(int, int)>>,
    glyphs: Seq<GlyphBitmap>,
    xs: Seq<u32>,
    aw: int,
)
    requires
        copy_inv(data, owner, glyphs, xs, aw, glyphs.len() as int, 0, 0),
    ensures
        is_atlas_image(data, glyphs, xs, aw),
{
    let n = glyphs.len() as int;
    assert forall|t: int| 0 <= t < data.len() implies {
        &&& (forall|k: int, y: int|
            0 <= k < glyphs.len() ==> !#[trigger] row_hits(glyphs[k], xs[k] as int, aw, y, t))
            ==> data[t] == 0
        &&& forall|k: int, y: int|
            0 <= k < glyphs.len() && #[trigger] row_hits(glyphs[k], xs[k] as int, aw, y, t)
                && !overwritten(glyphs, xs, aw, k, y, t) ==> data[t] == row_texel(
                glyphs[k],
                xs[k] as int,
                aw,
                y,
                t,
            )
    } by {
        let d = data[t];
        if owner[t] is Some {
            assert(owner_ok(data, owner, glyphs, xs, aw, n, 0, 0, t));
        }
        assert forall|k: int, y: int|
            0 <= k < glyphs.len() && #[trigger] row_hits(glyphs[k], xs[k] as int, aw, y, t)
                && !overwritten(glyphs, xs, aw, k, y, t) implies data[t] == row_texel(
            glyphs[k],
            xs[k] as int,
            aw,
            y,
            t,
        ) by {
            assert(copied(glyphs, xs, aw, n, 0, 0, k, y, t));
            assert(owner_ok(data, owner, glyphs, xs, aw, n, 0, 0, t));
            let ko = copy_glyph(owner[t]);
            let yo = copy_row(owner[t]);
            assert(row_le(k, y, ko, yo));
            if !(ko == k && yo == y) {
                assert(row_hits(glyphs[ko], xs[ko] as int, aw, yo, t));
            }
        }
    }
}

/// Copying glyph `g` with its left edge at `pen` into an atlas `aw` texels
/// wide keeps every texel index, and every bitmap index, within 32 bits.
pub open spec fn copy_fits(g: GlyphBitmap, pen: u32, aw: u32) -> bool {
    g.height > 0 && g.width > 0 ==> (g.height - 1) * aw + pen + (g.width - 1) <= u32::MAX
        && g.height * g.width - 1 <= u32::MAX
}

/// Copy each glyph's bitmap into a zeroed atlas of the layout's size, glyph
/// by glyph and row by row, at the glyph's left edge; texels that fall outside
/// the atlas or past the end of a bitmap are skipped.
pub fn blit_glyphs(layout: &AtlasLayout, glyphs: &[GlyphBitmap]) -> (data: Vec<u8>)
    requires
        layout.glyph_x@.len() == glyphs@.len(),
        layout.width * layout.height <= u32::MAX,
        forall|k: int|
            0 <= k < glyphs@.len() ==> #[trigger] copy_fits(
                glyphs@[k],
                layout.glyph_x@[k],
                layout.width,
            ),
    ensures
        data@.len() == layout.width * layout.height,
        is_atlas_image(data@, glyphs@, layout.glyph_x@, layout.width as int),
{
    let aw = layout.width;
    let ghost xs = layout.glyph_x@;
    let ghost gs = glyphs@;
    assert((aw as int) * (layout.height as int) <= usize::MAX) by {
        assert(u32::MAX <= usize::MAX);
    }
    let total: usize = (aw as usize) * (layout.height as usize);
    let mut data: Vec<u8> = vec![0u8; total];
    let ghost mut owner: Seq<Option<(int, int)>> = Seq::new(total as nat, |t: int| None);
    let mut k: usize = 0;
    while k < glyphs.len()
        invariant
            k <= gs.len(),
            xs == layout.glyph_x@,
            gs == glyphs@,
            xs.len() == gs.len(),
            data@.len() == total,
            total == layout.width * layout.height,
            aw == layout.width,
            forall|j: int| 0 <= j < gs.len() ==> #[trigger] copy_fits(gs[j], xs[j], aw),
            copy_inv(data@, owner, gs, xs, aw as int, k as int, 0, 0),
        decreases gs.len() - k,
    {
        let g = &glyphs[k];
        let pen = layout.glyph_x[k];
        assert(copy_fits(gs[k as int], xs[k as int], aw));
        let mut y: u32 = 0;
        while y < g.height
            invariant
                k < gs.len(),
                xs == layout.glyph_x@,
                gs == glyphs@,
                xs.len() == gs.len(),
                *g == gs[k as int],
                pen == xs[k as int],
                data@.len() == total,
                aw == layout.width,
                copy_fits(gs[k as int], pen, aw),
                y <= g.height,
                copy_inv(data@, owner, gs, xs, aw as int, k as int, y as int, 0),
            decreases g.height - y,
        {
            let mut x: u32 = 0;
            while x < g.width
                invariant
                    k < gs.len(),
                    xs == layout.glyph_x@,
                    gs == glyphs@,
                    xs.len() == gs.len(),
                    *g == gs[k as int],
                    pen == xs[k as int],
                    data@.len() == total,
                    aw == layout.width,
                    copy_fits(gs[k as int], pen, aw),
                    y < g.height,
                    x <= g.width,
                    copy_inv(data@, owner, gs, xs, aw as int, k as int, y as int, x as int),
                decreases g.width - x,
            {
                let y64 = y as u64;
                let aw64 = aw as u64;
                let w64 = g.width as u64;
                assert(y64 * aw64 <= (g.height as u64 - 1) * aw64) by (nonlinear_arith)
                    requires
                        y64 <= g.height as u64 - 1,
                ;
                assert(y64 * w64 <= (g.height as u64 - 1) * w64) by (nonlinear_arith)
                    requires
                        y64 <= g.height as u64 - 1,
                ;
                assert((g.height as int - 1) * (g.width as int) + g.width == (g.height as int) * (
                g.width as int)) by (nonlinear_arith);
                let t = y64 * aw64 + (pen as u64) + (x as u64);
                let bi = y64 * w64 + (x as u64);
                let ghost old_data = data@;
                let ghost old_owner = owner;
                if t < data.len() as u64 && bi < g.pixels.len() as u64 {
                    let v = g.pixels[bi as usize];
                    data.set(t as usize, v);
                    proof {
                        owner = owner.update(t as int, Some((k as int, y as int)));
                    }
                }
                proof {
                    lemma_copy_step(
                        old_data,
                        old_owner,
                        data@,
                        owner,
                        gs,
                        xs,
                        aw as int,
                        k as int,
                        y as int,
                        x as int,
                        t as int,
                    );
                }
                x = x + 1;
            }
            proof {
                assert forall|k1: int, y1: int, t: int|
                    #![trigger copied(gs, xs, aw as int, k as int, y as int, g.width as int, k1, y1, t)]
                    #![trigger copied(gs, xs, aw as int, k as int, y + 1, 0, k1, y1, t)]
                    0 <= k1 < gs.len() implies copied(
                    gs,
                    xs,
                    aw as int,
                    k as int,
                    y as int,
                    g.width as int,
                    k1,
                    y1,
                    t,
                ) == copied(gs, xs, aw as int, k as int, y + 1, 0, k1, y1, t) by {
                }
                lemma_copy_inv_same(
                    data@,
                    owner,
                    gs,
                    xs,
                    aw as int,
                    k as int,
                    y as int,
                    g.width as int,
                    k as int,
                    y + 1,
                    0,
                );
            }
            y = y + 1;
        }
        proof {
            assert forall|k1: int, y1: int, t: int|
                #![trigger copied(gs, xs, aw as int, k as int, g.height as int, 0, k1, y1, t)]
                #![trigger copied(gs, xs, aw as int, k + 1, 0, 0, k1, y1, t)]
                0 <= k1 < gs.len() implies copied(
                gs,
                xs,
                aw as int,
                k as int,
                g.height as int,
                0,
                k1,
                y1,
                t,
            ) == copied(gs, xs, aw as int, k + 1, 0, 0, k1, y1, t) by {
            }
            lemma_copy_inv_same(
                data@,
                owner,
                gs,
                xs,
                aw as int,
                k as int,
                g.height as int,
                0,
                k + 1,
                0,
                0,
            );
        }
        k = k + 1;
    }
    proof {
        lemma_copy_done(data@, owner, gs, xs, aw as int);
    }
    data
}

} // verus!
