//! The tile grid, stored row by row.
use vstd::prelude::*;
use crate::entity::Point;
use crate::tiles::MapTile;
use crate::tiles::TileIndex;

verus! {

/// A grid of `width` by `height` tiles; the tile at `(x, y)` is kept at
/// `y * width + x`.
pub struct TileMap {
    pub width: i32,
    pub height: i32,
    pub tiles: Vec<MapTile>,
}

/// In a grid of `w` by `h` tiles, the tile at `(x, y)` has an index below
/// `w * h`.
pub proof fn lemma_index_in_grid(w: int, h: int, x: int, y: int)
    requires
        0 <= x < w,
        0 <= y < h,
    ensures
        0 <= y * w + x < w * h,
        0 <= y * w <= w * h,
{
    assert(y * w >= 0) by (nonlinear_arith)
        requires
            y >= 0,
            w >= 0,
    ;
    assert(y * w + w <= h * w) by (nonlinear_arith)
        requires
            y + 1 <= h,
            w >= 0,
    ;
    assert(h * w == w * h) by (nonlinear_arith);
}

/// What contracts say of a grid.
pub struct MapView {
    pub width: int,
    pub height: int,
    pub tiles: Seq<MapTile>,
}

impl MapView {
    /// The grid has one tile for each of its places, and no more places than
    /// an `i32` can count.
    pub open spec fn wf(self) -> bool {
        &&& 0 <= self.width
        &&& 0 <= self.height
        &&& self.tiles.len() == self.width * self.height
        &&& self.width * self.height <= i32::MAX
    }

    /// Whether `(x, y)` lies on the grid.
    pub open spec fn is_valid_tile(self, x: int, y: int) -> bool {
        0 <= x < self.width && 0 <= y < self.height
    }

    /// The index of the tile at `(x, y)`, if it lies on the grid.
    pub open spec fn tile_index(self, x: int, y: int) -> Option<int> {
        if self.is_valid_tile(x, y) {
            Some(y * self.width + x)
        } else {
            None
        }
    }

    /// The index of the tile at `pt`; a point off the grid gives index 0.
    pub open spec fn point2d_to_index(self, pt: Point) -> int {
        match self.tile_index(pt.x as int, pt.y as int) {
            Some(i) => i,
            None => 0,
        }
    }

    /// The grid with the tile `t` at `index`.
    pub open spec fn set_at(self, index: int, t: MapTile) -> MapView {
        MapView { tiles: self.tiles.update(index, t), ..self }
    }

    /// The index that stands for a point is an index of the grid, if the grid
    /// has any tile.
    pub proof fn lemma_point_index_in_range(self, pt: Point)
        requires
            self.wf(),
            self.tiles.len() > 0,
        ensures
            0 <= self.point2d_to_index(pt) < self.tiles.len(),
    {
        if self.is_valid_tile(pt.x as int, pt.y as int) {
            lemma_index_in_grid(self.width, self.height, pt.x as int, pt.y as int);
        }
    }
}

impl View for TileMap {
    type V = MapView;

    open spec fn view(&self) -> MapView {
        MapView { width: self.width as int, height: self.height as int, tiles: self.tiles@ }
    }
}

impl TileMap {
    /// The grid has one tile for each of its places, and no more places than
    /// an `i32` can count.
    pub open spec fn wf(&self) -> bool {
        self@.wf()
    }

    fn is_valid_tile(&self, x: i32, y: i32) -> (r: bool)
        ensures
            r == self@.is_valid_tile(x as int, y as int),
    {
        x >= 0 && x < self.width && y >= 0 && y < self.height
    }

    /// A grid of `w` by `h` tiles of solid rock.
    pub fn new(w: i32, h: i32) -> (r: TileMap)
        requires
            0 <= w,
            0 <= h,
            w * h <= i32::MAX,
        ensures
            r.wf(),
            r.width == w,
            r.height == h,
            forall|i: int| 0 <= i < r.tiles@.len() ==> r.tiles@[i] == MapTile::Obscured,
    {
        assert(0 <= w * h) by (nonlinear_arith)
            requires
                0 <= w,
                0 <= h,
        ;
        let size = (w * h) as usize;
        let mut tiles: Vec<MapTile> = Vec::with_capacity(size);
        let mut i: usize = 0;
        while i < size
            invariant
                i <= size,
                tiles@.len() == i,
                forall|k: int| 0 <= k < tiles@.len() ==> tiles@[k] == MapTile::Obscured,
            decreases size - i,
        {
            tiles.push(MapTile::default());
            i = i + 1;
        }
        TileMap { width: w, height: h, tiles }
    }

    /// The tile at an index of the grid.
    pub fn get_tile_at(&self, tile_index: TileIndex) -> (r: &MapTile)
        requires
            tile_index < self.tiles@.len(),
        ensures
            *r == self.tiles@[tile_index as int],
    {
        &self.tiles[tile_index]
    }

    /// The index of the tile at `p`, if `p` lies on the grid.
    pub fn get_tile_index_from_point(&self, p: Point) -> (r: Option<usize>)
        requires
            self.wf(),
        ensures
            match r {
                Some(i) => self@.tile_index(p.x as int, p.y as int) == Some(i as int) && i
                    < self.tiles@.len(),
                None => self@.tile_index(p.x as int, p.y as int).is_none(),
            },
    {
        self.get_tile_index(p.x, p.y)
    }

    /// The index of the tile at `(x, y)`, if it lies on the grid.
    pub fn get_tile_index(&self, x: i32, y: i32) -> (r: Option<usize>)
        requires
            self.wf(),
        ensures
            match r {
                Some(i) => self@.tile_index(x as int, y as int) == Some(i as int) && i
                    < self.tiles@.len(),
                None => self@.tile_index(x as int, y as int).is_none(),
            },
    {
        if self.is_valid_tile(x, y) {
            proof {
                lemma_index_in_grid(self.width as int, self.height as int, x as int, y as int);
            }
            Some(((y * self.width) + x) as usize)
        } else {
            None
        }
    }

    /// Column and row of the tile at `index`.
    pub fn get_tile_coords(&self, index: usize) -> (r: (i32, i32))
        requires
            self.width > 0,
            index <= i32::MAX,
        ensures
            r.0 == index as int % self.width as int,
            r.1 == index as int / self.width as int,
    {
        (index as i32 % self.width, index as i32 / self.width)
    }

    /// The point of the tile at `index`.
    pub fn index_to_point2d(&self, index: usize) -> (r: Point)
        requires
            self.width > 0,
            index <= i32::MAX,
        ensures
            r.x == index as int % self.width as int,
            r.y == index as int / self.width as int,
    {
        Point { x: index as i32 % self.width, y: index as i32 / self.width }
    }

    /// The index of the tile at `pt`; a point off the grid gives index 0.
    pub fn point2d_to_index(&self, pt: Point) -> (r: usize)
        requires
            self.wf(),
        ensures
            r == self@.point2d_to_index(pt),
    {
        match self.get_tile_index(pt.x, pt.y) {
            Some(i) => i,
            None => 0,
        }
    }

    /// Width and height as a point.
    pub fn dimensions(&self) -> (r: Point)
        ensures
            r == (Point { x: self.width, y: self.height }),
    {
        Point::new(self.width, self.height)
    }

    /// Whether nothing can walk onto the tile at `tile_index`.
    pub fn is_tile_blocked(&self, tile_index: TileIndex) -> (r: bool)
        requires
            tile_index < self.tiles@.len(),
        ensures
            r == self.tiles@[tile_index as int].is_blocking(),
    {
        self.tiles[tile_index].is_blocking()
    }

    /// Whether the tile at `tile` is on the grid and of the kind `tile_kind`.
    pub fn is_tile(&self, tile: TileIndex, tile_kind: MapTile) -> (r: bool)
        ensures
            r == (tile < self.tiles@.len() && self.tiles@[tile as int] == tile_kind),
    {
        if tile < self.tiles.len() {
            self.tiles[tile] == tile_kind
        } else {
            false
        }
    }

    /// Whether something can step onto `(x, y)`: the place lies on the grid,
    /// not in its first row or column, and its tile does not block.
    pub fn is_exit_valid(&self, x: i32, y: i32) -> (r: bool)
        requires
            self.wf(),
        ensures
            r == (1 <= x < self.width && 1 <= y < self.height && !self.tiles@[y * self.width
                + x].is_blocking()),
    {
        if x < 1 || x > self.width - 1 || y < 1 || y > self.height - 1 {
            return false;
        }
        match self.get_tile_index(x, y) {
            Some(index) => !self.is_tile_blocked(index),
            None => false,
        }
    }

    /// Puts `t` at an index of the grid.
    pub fn set_at_tile_index(&mut self, tile_index: TileIndex, t: MapTile)
        requires
            tile_index < old(self).tiles@.len(),
        ensures
            final(self)@ == old(self)@.set_at(tile_index as int, t),
    {
        self.tiles.set(tile_index, t);
    }

    /// Puts `t` at `(x, y)`; off the grid nothing happens.
    pub fn set(&mut self, x: i32, y: i32, t: MapTile)
        requires
            old(self).wf(),
        ensures
            final(self).wf(),
            final(self).width == old(self).width,
            final(self).height == old(self).height,
            final(self).tiles@ == match old(self)@.tile_index(x as int, y as int) {
                Some(i) => old(self).tiles@.update(i, t),
                None => old(self).tiles@,
            },
    {
        match self.get_tile_index(x, y) {
            Some(index) => {
                self.tiles.set(index, t);
            },
            None => {},
        }
    }

    /// The indices of all door tiles, in ascending order.
    pub fn get_all_doors(&self) -> (r: Vec<TileIndex>)
        ensures
            forall|k: int| 0 <= k < r@.len() ==> r@[k] < self.tiles@.len() && self.tiles@[r@[k] as int]
                == MapTile::Door,
            forall|i: int|
                0 <= i < self.tiles@.len() && self.tiles@[i] == MapTile::Door ==> exists|k: int|
                    0 <= k < r@.len() && #[trigger] r@[k] == i,
            forall|j: int, k: int| 0 <= j < k < r@.len() ==> r@[j] < r@[k],
    {
        let n = self.tiles.len();
        let mut r: Vec<TileIndex> = Vec::new();
        let mut i: usize = 0;
        while i < n
            invariant
                n == self.tiles@.len(),
                i <= n,
                forall|k: int|
                    0 <= k < r@.len() ==> r@[k] < i && self.tiles@[r@[k] as int] == MapTile::Door,
                forall|t: int|
                    0 <= t < i && self.tiles@[t] == MapTile::Door ==> exists|k: int|
                        0 <= k < r@.len() && #[trigger] r@[k] == t,
                forall|j: int, k: int| 0 <= j < k < r@.len() ==> r@[j] < r@[k],
            decreases n - i,
        {
            if self.tiles[i] == MapTile::Door {
                let ghost before = r@;
                r.push(i);
                assert forall|t: int|
                    0 <= t < i + 1 && self.tiles@[t] == MapTile::Door implies exists|k: int|
                    0 <= k < r@.len() && #[trigger] r@[k] == t by {
                    if t < i {
                        let k = choose|k: int| 0 <= k < before.len() && #[trigger] before[k] == t;
                        assert(r@[k] == t);
                    } else {
                        assert(r@[before.len() as int] == t);
                    }
                }
            }
            i = i + 1;
        }
        r
    }
}

} // verus!
