use vstd::prelude::*;

verus! {

use crate::config::Renderer;

/// A catalog index was out of range.
#[derive(Debug, Clone, Copy, PartialEq, Eq, Structural)]
pub struct IndexError;

/// A layer failed its health check: either the grid does not match the
/// declared dimensions, or a cell holds an index outside the catalog.
/// `BadCell` reports the value and the derived coordinates of the first
/// offending cell in row-major order.
#[derive(Debug, Clone, Copy, PartialEq, Eq, Structural)]
pub enum IntegrityError {
    BadSize,
    BadCell { value: u32, x: usize, y: usize },
}

/// Pixel coordinates of a tile's sub-image within the shared atlas texture.
/// `o` is a horizontal origin offset subtracted from `x` when sampling.
#[derive(Debug, Clone)]
pub struct Rect {
    pub x: u32,
    pub y: u32,
    pub w: u32,
    pub h: u32,
    pub o: u32,
}

/// One catalog entry. `id` is informational; drawing indexes by catalog
/// position, not by `id`.
#[derive(Debug, Clone)]
pub struct Tile {
    pub id: u32,
    pub tag: String,
    pub rect: Rect,
    pub solid: bool,
    pub transparent: bool,
}

/// The ordered, immutable tile catalog: the single source of truth for
/// tile geometry and flags, shared read-only by every layer.
#[derive(Debug)]
pub struct Tiles {
    tiles: Vec<Tile>,
}

impl View for Tiles {
    type V = Seq<Tile>;

    closed spec fn view(&self) -> Seq<Tile> {
        self.tiles@
    }
}

impl Tiles {
    pub fn new(tiles: Vec<Tile>) -> (r: Tiles)
        ensures
            r@ == tiles@,
    {
        Tiles { tiles }
    }

    pub fn len(&self) -> (r: usize)
        ensures
            r == self@.len(),
    {
        self.tiles.len()
    }

    /// Succeeds exactly when `index` is within the catalog, and then hands
    /// back the entry at that position.
    pub fn get(&self, index: u32) -> (r: Result<&Tile, IndexError>)
        ensures
            r is Ok <==> (index as int) < self@.len(),
            r is Ok ==> *r->Ok_0 == self@[index as int],
    {
        if index as usize >= self.tiles.len() {
            return Err(IndexError);
        }
        Ok(&self.tiles[index as usize])
    }
}

/// Every cell of `data` is a valid index into a catalog of length `l`.
pub open spec fn grid_ok(data: Seq<u32>, l: int) -> bool {
    forall|i: int| 0 <= i < data.len() ==> data[i] < l
}

/// `i` is the first cell, in row-major order, whose value is not a valid
/// index into a catalog of length `l`.
pub open spec fn first_bad_at(data: Seq<u32>, l: int, i: int) -> bool {
    &&& 0 <= i < data.len()
    &&& data[i] >= l
    &&& forall|j: int| 0 <= j < i ==> data[j] < l
}

/// A rectangle in pixel coordinates, as the draw-command sink consumes it:
/// a signed top-left corner and an unsigned extent.
#[derive(Debug, Clone, Copy, PartialEq, Eq, Structural)]
pub struct ScreenRect {
    pub x: i32,
    pub y: i32,
    pub w: u32,
    pub h: u32,
}

/// One emitted draw command: copy `src` of the atlas texture into `dest`
/// of the canvas.
#[derive(Debug, Clone, Copy, PartialEq, Eq, Structural)]
pub struct DrawCmd {
    pub src: ScreenRect,
    pub dest: ScreenRect,
}

/// Absolute value on mathematical integers.
pub open spec fn iabs(v: int) -> int {
    if v >= 0 {
        v
    } else {
        -v
    }
}

/// The source rectangle into the atlas for a tile: its sub-image, with the
/// horizontal origin offset `o` subtracted from the left edge.
pub open spec fn src_rect_spec(t: Tile) -> ScreenRect {
    ScreenRect {
        x: (t.rect.x - t.rect.o) as i32,
        y: t.rect.y as i32,
        w: t.rect.w,
        h: t.rect.h,
    }
}

/// The destination rectangle for the cell at unscaled coordinates `(x, y)`:
/// the skew transform applied to the scaled cell coordinates, shifted by the
/// pixel offset, with the tile's extent scaled by `zoom`.
pub open spec fn dest_rect_spec(x: int, y: int, t: Tile, cfg: Renderer, xo: int, yo: int) -> ScreenRect {
    let sx = x * (cfg.zoom as int);
    let sy = y * (cfg.zoom as int);
    ScreenRect {
        x: (sx * (t.rect.w as int) - sx * (cfg.xxo as int) - sy * (cfg.xyo as int) + xo) as i32,
        y: (sy * (t.rect.h as int) + sx * (cfg.yxo as int) - sy * (cfg.yyo as int) + yo) as i32,
        w: ((t.rect.w as int) * (cfg.zoom as int)) as u32,
        h: ((t.rect.h as int) * (cfg.zoom as int)) as u32,
    }
}

/// The draw command emitted for cell `i` of a grid `width` cells wide when
/// the cell resolves to tile `t`.
pub open spec fn draw_cmd_spec(i: int, width: int, t: Tile, cfg: Renderer, xo: int, yo: int) -> DrawCmd {
    DrawCmd {
        src: src_rect_spec(t),
        dest: dest_rect_spec(i % width, i / width, t, cfg, xo, yo),
    }
}

/// The machine limits under which the projection of cell `i` stays in
/// range: the tile's corner fits the signed pixel coordinates, the scaled
/// extent fits, and the magnitudes of the skew terms sum to at most
/// `i32::MAX`, so every intermediate of the transform fits a pixel
/// coordinate.
pub open spec fn cell_fits(i: int, width: int, t: Tile, cfg: Renderer, xo: int, yo: int) -> bool {
    let sx = (i % width) * (cfg.zoom as int);
    let sy = (i / width) * (cfg.zoom as int);
    &&& t.rect.x <= i32::MAX
    &&& t.rect.y <= i32::MAX
    &&& t.rect.o <= i32::MAX
    &&& (t.rect.w as int) * (cfg.zoom as int) <= u32::MAX
    &&& (t.rect.h as int) * (cfg.zoom as int) <= u32::MAX
    &&& sx <= i32::MAX
    &&& sy <= i32::MAX
    &&& sx * (t.rect.w as int) + sx * iabs(cfg.xxo as int) + sy * iabs(cfg.xyo as int) + iabs(xo)
        <= i32::MAX
    &&& sy * (t.rect.h as int) + sx * iabs(cfg.yxo as int) + sy * iabs(cfg.yyo as int) + iabs(yo)
        <= i32::MAX
}

/// For `a >= 0`, the product `a * b` lies between `-(a * iabs(b))` and
/// `a * iabs(b)`, and that bound is nonnegative.
proof fn lemma_mul_abs_bound(a: int, b: int)
    requires
        a >= 0,
    ensures
        a * b <= a * iabs(b),
        -(a * iabs(b)) <= a * b,
        0 <= a * iabs(b),
{
    if b >= 0 {
        assert(0 <= a * b) by (nonlinear_arith)
            requires
                a >= 0,
                b >= 0,
        ;
    } else {
        assert(a * b <= 0 && a * (-b) == -(a * b)) by (nonlinear_arith)
            requires
                a >= 0,
                b < 0,
        ;
    }
}

/// The value the procedural fill writes into cell `i` of a `width x height`
/// grid with border thickness `z`, over a catalog of length `l >= 2`: cells
/// in the interior cycle through the catalog entries from position 2 upward,
/// cells in the border band of thickness `z` hold the reserved border tile 1.
pub open spec fn pattern_value(i: int, width: int, height: int, z: int, l: int) -> int {
    if i % width < width - z && i / width < height - z {
        i % (l - 2) + 2
    } else {
        1
    }
}

/// The whole grid the procedural fill produces: unchanged when the catalog
/// has fewer than 2 entries, else a pure function of the grid length, the
/// dimensions, the border thickness and the catalog length.
pub open spec fn pattern_grid(data: Seq<u32>, width: int, height: int, z: int, l: int) -> Seq<
    u32,
> {
    if l < 2 {
        data
    } else {
        Seq::new(data.len(), |i: int| pattern_value(i, width, height, z, l) as u32)
    }
}

/// A grid in which every cell is zero passes the index part of the health
/// check exactly when the catalog is non-empty or the grid itself is empty:
/// zero is a valid index into any non-empty catalog, and an empty grid has
/// no cell to fail on.
pub proof fn lemma_fresh_grid_ok(data: Seq<u32>, l: int)
    requires
        forall|i: int| 0 <= i < data.len() ==> data[i] == 0u32,
    ensures
        grid_ok(data, l) <==> (data.len() == 0 || l >= 1),
{
    if data.len() > 0 {
        assert(data[0] == 0u32);
    }
}

/// The procedural fill is idempotent: filling an already filled grid
/// produces the same grid again, because the result depends only on the
/// grid length, the dimensions, the border thickness and the catalog
/// length, none of which the fill changes.
pub proof fn lemma_pattern_idempotent(data: Seq<u32>, width: int, height: int, z: int, l: int)
    ensures
        pattern_grid(pattern_grid(data, width, height, z, l), width, height, z, l)
            == pattern_grid(data, width, height, z, l),
{
    if l >= 2 {
        assert(pattern_grid(pattern_grid(data, width, height, z, l), width, height, z, l)
            =~= pattern_grid(data, width, height, z, l));
    }
}

/// With fewer than 2 catalog entries the procedural fill changes nothing.
pub proof fn lemma_pattern_small_catalog(data: Seq<u32>, width: int, height: int, z: int, l: int)
    requires
        l < 2,
    ensures
        pattern_grid(data, width, height, z, l) == data,
{
}

/// With border thickness zero the procedural fill produces no border cell:
/// every cell of a well-sized grid takes the interior value.
pub proof fn lemma_pattern_no_border(data: Seq<u32>, width: int, height: int, l: int)
    requires
        l >= 2,
        width >= 1,
        data.len() == width * height,
    ensures
        forall|i: int|
            0 <= i < data.len() ==> pattern_grid(data, width, height, 0, l)[i] == (i % (l - 2)
                + 2) as u32,
{
    let pg = pattern_grid(data, width, height, 0, l);
    assert forall|i: int| 0 <= i < data.len() implies pg[i] == (i % (l - 2) + 2) as u32 by {
        assert(i / width < height) by (nonlinear_arith)
            requires
                0 <= i,
                i < width * height,
                width >= 1,
        ;
        assert(pattern_value(i, width, height, 0, l) == i % (l - 2) + 2);
    }
}

/// With unit zoom and all four skew coefficients zero, the projection
/// reduces to plain tiling: the destination rectangle of the cell at
/// `(x, y)` is the tile's own extent placed at
/// `(x * w + x_offset, y * h + y_offset)`.
pub proof fn lemma_projection_identity(x: int, y: int, t: Tile, cfg: Renderer, xo: int, yo: int)
    requires
        cfg.zoom == 1,
        cfg.xxo == 0,
        cfg.xyo == 0,
        cfg.yxo == 0,
        cfg.yyo == 0,
        0 <= x,
        0 <= y,
        i32::MIN <= x * (t.rect.w as int) + xo <= i32::MAX,
        i32::MIN <= y * (t.rect.h as int) + yo <= i32::MAX,
    ensures
        dest_rect_spec(x, y, t, cfg, xo, yo).x == x * (t.rect.w as int) + xo,
        dest_rect_spec(x, y, t, cfg, xo, yo).y == y * (t.rect.h as int) + yo,
        dest_rect_spec(x, y, t, cfg, xo, yo).w == t.rect.w,
        dest_rect_spec(x, y, t, cfg, xo, yo).h == t.rect.h,
{
    assert(x * 1 == x);
    assert(y * 1 == y);
}

/// One stacked grid of tile-catalog indices. `z` is the stacking order;
/// `data` has `width * height` entries, row-major, top-left first. The
/// catalog reference is shared and read-only.
pub struct Layer<'a> {
    pub tiles: &'a Tiles,
    pub z: u32,
    pub data: Vec<u32>,
    pub width: u32,
    pub height: u32,
}

impl<'a> Layer<'a> {
    /// The catalog this layer indexes into.
    pub open spec fn catalog(&self) -> Seq<Tile> {
        self.tiles@
    }

    /// Allocates a `width * height` grid with every entry zero.
    pub fn new(tiles: &'a Tiles, z: u32, width: u32, height: u32) -> (r: Layer<'a>)
        requires
            width * height <= u32::MAX,
        ensures
            r.catalog() == tiles@,
            r.z == z,
            r.width == width,
            r.height == height,
            r.data@.len() == width * height,
            forall|i: int| 0 <= i < r.data@.len() ==> r.data@[i] == 0u32,
    {
        let n: usize = (width * height) as usize;
        let mut data: Vec<u32> = Vec::new();
        let mut k: usize = 0;
        while k < n
            invariant
                k <= n,
                data@.len() == k,
                forall|i: int| 0 <= i < k ==> data@[i] == 0u32,
            decreases n - k,
        {
            data.push(0);
            k += 1;
        }
        Layer { tiles, z, data, width, height }
    }

    /// Validates the layer: the grid length must equal `width * height`,
    /// and every cell must be a valid catalog index. On the first offending
    /// cell the error reports its value and derived coordinates.
    pub fn healh_check(&self) -> (r: Result<(), IntegrityError>)
        ensures
            r is Ok <==> (self.data@.len() == self.width * self.height && grid_ok(
                self.data@,
                self.catalog().len() as int,
            )),
            r == Err::<(), IntegrityError>(IntegrityError::BadSize) <==> self.data@.len()
                != self.width * self.height,
            (match r {
                Err(IntegrityError::BadCell { value, x, y }) => exists|i: int|
                    first_bad_at(self.data@, self.catalog().len() as int, i) && value
                        == self.data@[i] && x == i % (self.width as int) && y == i / (
                    self.width as int),
                _ => true,
            }),
    {
        proof {
            assert((self.width as int) * (self.height as int) <= 0xffff_ffff * 0xffff_ffff)
                by (nonlinear_arith)
                requires
                    self.width <= 0xffff_ffffu32,
                    self.height <= 0xffff_ffffu32,
            ;
        }
        if self.data.len() as u64 != (self.width as u64) * (self.height as u64) {
            return Err(IntegrityError::BadSize);
        }
        let l = self.tiles.len();
        let n = self.data.len();
        let mut i: usize = 0;
        while i < n
            invariant
                n == self.data@.len(),
                n == self.width * self.height,
                l == self.catalog().len(),
                i <= n,
                forall|j: int| 0 <= j < i ==> self.data@[j] < l,
            decreases n - i,
        {
            if self.data[i] as usize >= l {
                proof {
                    assert(self.width > 0) by {
                        if self.width == 0 {
                            assert(self.width * self.height == 0);
                        }
                    }
                }
                return Err(IntegrityError::BadCell {
                    value: self.data[i],
                    x: i % (self.width as usize),
                    y: i / (self.width as usize),
                });
            }
            i += 1;
        }
        Ok(())
    }

    /// Fills the grid with the deterministic diagnostic pattern: a border
    /// band of thickness `z` holding the reserved tile 1 around an interior
    /// that cycles through the catalog from position 2 upward. A no-op when
    /// the catalog has fewer than 2 entries.
    pub fn pattern(&mut self)
        requires
            old(self).catalog().len() >= 2 ==> old(self).catalog().len() <= u32::MAX,
            old(self).catalog().len() >= 2 && old(self).data@.len() > 0 ==> old(self).width >= 1,
            old(self).catalog().len() == 2 ==> (old(self).data@.len() == 0 || old(self).z >= old(
                self,
            ).width || old(self).z >= old(self).height),
        ensures
            final(self).tiles == old(self).tiles,
            final(self).z == old(self).z,
            final(self).width == old(self).width,
            final(self).height == old(self).height,
            final(self).data@ == pattern_grid(
                old(self).data@,
                old(self).width as int,
                old(self).height as int,
                old(self).z as int,
                old(self).catalog().len() as int,
            ),
    {
        let l = self.tiles.len();
        if l < 2 {
            return;
        }
        let ghost pg = pattern_grid(
            old(self).data@,
            old(self).width as int,
            old(self).height as int,
            old(self).z as int,
            old(self).catalog().len() as int,
        );
        let n = self.data.len();
        let w = self.width as usize;
        let mut i: usize = 0;
        while i < n
            invariant
                self.tiles == old(self).tiles,
                self.z == old(self).z,
                self.width == old(self).width,
                self.height == old(self).height,
                self.data@.len() == n,
                n == old(self).data@.len(),
                l == self.catalog().len(),
                2 <= l <= u32::MAX,
                w == self.width,
                n > 0 ==> w >= 1,
                l == 2 ==> (n == 0 || self.z >= self.width || self.z >= self.height),
                pg == pattern_grid(
                    old(self).data@,
                    self.width as int,
                    self.height as int,
                    self.z as int,
                    l as int,
                ),
                i <= n,
                forall|j: int| 0 <= j < i ==> self.data@[j] == pg[j],
            decreases n - i,
        {
            let x = i % w;
            let y = i / w;
            if (x as u128) + (self.z as u128) < (self.width as u128) && (y as u128) + (
            self.z as u128) < (self.height as u128) {
                proof {
                    assert(l != 2);
                }
                let v: usize = i % (l - 2) + 2;
                self.data.set(i, v as u32);
            } else {
                self.data.set(i, 1);
            }
            i += 1;
        }
        proof {
            assert(self.data@ =~= pg);
        }
    }

    /// Resolves every cell against the catalog and computes its draw
    /// command under the projection `config`. Succeeds exactly when every
    /// cell is a valid catalog index; the first invalid cell aborts the
    /// pass with an `IndexError` and no commands are handed out.
    pub fn draw(&self, x_offset: i32, y_offset: i32, config: &Renderer) -> (r: Result<
        Vec<DrawCmd>,
        IndexError,
    >)
        requires
            self.data@.len() > 0 ==> self.width >= 1,
            self.data@.len() <= i32::MAX,
            forall|i: int| #![trigger self.data@[i]]
                0 <= i < self.data@.len() && self.data@[i] < self.catalog().len() ==> cell_fits(
                    i,
                    self.width as int,
                    self.catalog()[self.data@[i] as int],
                    *config,
                    x_offset as int,
                    y_offset as int,
                ),
        ensures
            r is Ok <==> grid_ok(self.data@, self.catalog().len() as int),
            r matches Ok(cmds) ==> cmds@.len() == self.data@.len() && forall|i: int|
                0 <= i < self.data@.len() ==> cmds@[i] == draw_cmd_spec(
                    i,
                    self.width as int,
                    self.catalog()[self.data@[i] as int],
                    *config,
                    x_offset as int,
                    y_offset as int,
                ),
    {
        let mut cmds: Vec<DrawCmd> = Vec::new();
        let n = self.data.len();
        let w = self.width as usize;
        let mut i: usize = 0;
        while i < n
            invariant
                n == self.data@.len(),
                n <= i32::MAX,
                w == self.width,
                n > 0 ==> w >= 1,
                forall|k: int| #![trigger self.data@[k]]
                    0 <= k < n && self.data@[k] < self.catalog().len() ==> cell_fits(
                        k,
                        self.width as int,
                        self.catalog()[self.data@[k] as int],
                        *config,
                        x_offset as int,
                        y_offset as int,
                    ),
                i <= n,
                cmds@.len() == i,
                forall|j: int| #![trigger self.data@[j]]
                    0 <= j < i ==> self.data@[j] < self.catalog().len(),
                forall|j: int| #![trigger cmds@[j]]
                    0 <= j < i ==> cmds@[j] == draw_cmd_spec(
                        j,
                        self.width as int,
                        self.catalog()[self.data@[j] as int],
                        *config,
                        x_offset as int,
                        y_offset as int,
                    ),
            decreases n - i,
        {
            let tile = match self.tiles.get(self.data[i]) {
                Ok(tile) => tile,
                Err(e) => {
                    return Err(e);
                },
            };
            let ghost ii = i as int;
            let ghost wd = self.width as int;
            let ghost sxv = (ii % wd) * (config.zoom as int);
            let ghost syv = (ii / wd) * (config.zoom as int);
            proof {
                assert(self.data@[ii] < self.catalog().len());
                assert(cell_fits(
                    ii,
                    wd,
                    self.catalog()[self.data@[ii] as int],
                    *config,
                    x_offset as int,
                    y_offset as int,
                ));
                lemma_mul_abs_bound(sxv, tile.rect.w as int);
                lemma_mul_abs_bound(syv, tile.rect.h as int);
                lemma_mul_abs_bound(sxv, config.xxo as int);
                lemma_mul_abs_bound(syv, config.xyo as int);
                lemma_mul_abs_bound(sxv, config.yxo as int);
                lemma_mul_abs_bound(syv, config.yyo as int);
            }
            let x = (i % w) as i64;
            let y = (i / w) as i64;
            let zoom = config.zoom as i64;
            let sx = x * zoom;
            let sy = y * zoom;
            let tw = tile.rect.w as i64;
            let th = tile.rect.h as i64;
            let dest_x = sx * tw - sx * (config.xxo as i64) - sy * (config.xyo as i64) + (
            x_offset as i64);
            let dest_y = sy * th + sx * (config.yxo as i64) - sy * (config.yyo as i64) + (
            y_offset as i64);
            let src = ScreenRect {
                x: (tile.rect.x as i64 - tile.rect.o as i64) as i32,
                y: tile.rect.y as i32,
                w: tile.rect.w,
                h: tile.rect.h,
            };
            let dest = ScreenRect {
                x: dest_x as i32,
                y: dest_y as i32,
                w: tile.rect.w * config.zoom,
                h: tile.rect.h * config.zoom,
            };
            proof {
                let t_spec = self.catalog()[self.data@[ii] as int];
                assert(*tile == t_spec);
                assert(x as int == ii % wd);
                assert(y as int == ii / wd);
                assert(sx as int == sxv);
                assert(sy as int == syv);
                assert(dest_x as int == sxv * (t_spec.rect.w as int) - sxv * (config.xxo as int)
                    - syv * (config.xyo as int) + x_offset as int);
                assert(dest_y as int == syv * (t_spec.rect.h as int) + sxv * (config.yxo as int)
                    - syv * (config.yyo as int) + y_offset as int);
                assert(src == src_rect_spec(t_spec));
                assert(dest == dest_rect_spec(
                    ii % wd,
                    ii / wd,
                    t_spec,
                    *config,
                    x_offset as int,
                    y_offset as int,
                ));
            }
            cmds.push(DrawCmd { src, dest });
            i += 1;
        }
        proof {
            assert(grid_ok(self.data@, self.catalog().len() as int));
        }
        Ok(cmds)
    }
}

} // verus!
