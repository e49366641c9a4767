//! The map: tiles, what blocks movement, and which entities stand where.
use crate::ecs::Entity;
use vstd::prelude::*;

verus! {

/// The kind of a tile.
#[derive(Clone, Copy, PartialEq, Eq, Structural, Debug)]
pub enum TileType {
    Wall,
    Floor,
}

/// A rectangular map of `width` by `height` tiles, stored row by row.
pub struct GameMap {
    pub tiles: Vec<TileType>,
    pub width: i32,
    pub height: i32,
    pub blocked: Vec<bool>,
    pub tile_content: Vec<Vec<Entity>>,
    pub visible_tiles: Vec<bool>,
}

/// `y * w + x` stays below `w * h` when `(x, y)` is inside a `w` by `h` rectangle.
pub proof fn lemma_index_in_rect(x: int, y: int, w: int, h: int)
    requires
        0 <= x < w,
        0 <= y < h,
    ensures
        0 <= y * w + x < w * h,
{
    assert(0 <= y * w) by (nonlinear_arith)
        requires
            0 <= y,
            0 <= w,
    ;
    assert(y * w + w <= h * w) by (nonlinear_arith)
        requires
            y + 1 <= h,
            0 <= w,
    ;
    assert(h * w == w * h) by (nonlinear_arith);
}

impl GameMap {
    /// The number of tiles.
    pub open spec fn size(&self) -> int {
        self.width * self.height
    }

    /// Every per-tile vector has one entry per tile.
    pub open spec fn wf(&self) -> bool {
        &&& 0 < self.width
        &&& 0 < self.height
        &&& self.tiles@.len() == self.size()
        &&& self.blocked@.len() == self.size()
        &&& self.tile_content@.len() == self.size()
        &&& self.visible_tiles@.len() == self.size()
    }

    /// `(x, y)` is a tile of the map.
    pub open spec fn in_bounds(&self, x: int, y: int) -> bool {
        0 <= x < self.width && 0 <= y < self.height
    }

    /// The index of tile `(x, y)`.
    pub open spec fn idx(&self, x: int, y: int) -> int {
        y * self.width + x
    }

    /// Whether every per-tile vector has one entry per tile.
    pub fn is_wf(&self) -> (r: bool)
        ensures
            r == self.wf(),
    {
        if self.width <= 0 || self.height <= 0 {
            return false;
        }
        proof {
            assert((self.width as u64) * (self.height as u64) <= u64::MAX) by (nonlinear_arith)
                requires
                    0 < self.width <= i32::MAX,
                    0 < self.height <= i32::MAX,
            ;
        }
        let size = (self.width as u64) * (self.height as u64);
        proof {
            assert((self.width as u64) * (self.height as u64) == self.width * self.height) by (nonlinear_arith)
                requires
                    0 < self.width <= i32::MAX,
                    0 < self.height <= i32::MAX,
            ;
        }
        self.tiles.len() as u64 == size && self.blocked.len() as u64 == size
            && self.tile_content.len() as u64 == size && self.visible_tiles.len() as u64 == size
    }

    /// A map of the given tiles, with nothing blocked, indexed or visible.
    pub fn new(width: i32, height: i32, tiles: Vec<TileType>) -> (m: GameMap)
        requires
            0 < width,
            0 < height,
            tiles@.len() == width * height,
        ensures
            m.wf(),
            m.width == width,
            m.height == height,
            m.tiles@ == tiles@,
            forall|i: int| 0 <= i < m.size() ==> !#[trigger] m.blocked@[i],
            forall|i: int| 0 <= i < m.size() ==> #[trigger] m.tile_content@[i]@.len() == 0,
            forall|i: int| 0 <= i < m.size() ==> !#[trigger] m.visible_tiles@[i],
    {
        let n = tiles.len();
        let mut blocked: Vec<bool> = Vec::new();
        let mut tile_content: Vec<Vec<Entity>> = Vec::new();
        let mut visible_tiles: Vec<bool> = Vec::new();
        for i in 0..n
            invariant
                blocked@.len() == i,
                tile_content@.len() == i,
                visible_tiles@.len() == i,
                forall|j: int| 0 <= j < i ==> !#[trigger] blocked@[j],
                forall|j: int| 0 <= j < i ==> #[trigger] tile_content@[j]@.len() == 0,
                forall|j: int| 0 <= j < i ==> !#[trigger] visible_tiles@[j],
        {
            blocked.push(false);
            tile_content.push(Vec::new());
            visible_tiles.push(false);
        }
        GameMap { tiles, width, height, blocked, tile_content, visible_tiles }
    }

    /// The index of tile `(x, y)` in the per-tile vectors.
    pub fn xy_idx(&self, x: i32, y: i32) -> (r: usize)
        requires
            self.wf(),
            self.in_bounds(x as int, y as int),
        ensures
            r == self.idx(x as int, y as int),
            r < self.size(),
    {
        let _tile_count = self.tiles.len();
        proof {
            lemma_index_in_rect(x as int, y as int, self.width as int, self.height as int);
            assert((y as usize) * (self.width as usize) == y * self.width);
        }
        (y as usize) * (self.width as usize) + (x as usize)
    }

    /// Marks exactly the walls as blocked.
    pub fn block_terrain(&mut self)
        requires
            old(self).wf(),
        ensures
            final(self).wf(),
            final(self).tiles == old(self).tiles,
            final(self).width == old(self).width,
            final(self).height == old(self).height,
            final(self).tile_content == old(self).tile_content,
            final(self).visible_tiles == old(self).visible_tiles,
            forall|i: int|
                0 <= i < final(self).size() ==> #[trigger] final(self).blocked@[i] == (
                final(self).tiles@[i] == TileType::Wall),
    {
        let n = self.tiles.len();
        for i in 0..n
            invariant
                n == self.tiles@.len(),
                self.wf(),
                self.tiles == old(self).tiles,
                self.width == old(self).width,
                self.height == old(self).height,
                self.tile_content == old(self).tile_content,
                self.visible_tiles == old(self).visible_tiles,
                forall|j: int|
                    0 <= j < i ==> #[trigger] self.blocked@[j] == (self.tiles@[j] == TileType::Wall),
        {
            let wall = self.tiles[i] == TileType::Wall;
            self.blocked.set(i, wall);
        }
    }

    /// Empties the list of entities on every tile.
    pub fn clear_tile_content(&mut self)
        requires
            old(self).wf(),
        ensures
            final(self).wf(),
            final(self).tiles == old(self).tiles,
            final(self).width == old(self).width,
            final(self).height == old(self).height,
            final(self).blocked == old(self).blocked,
            final(self).visible_tiles == old(self).visible_tiles,
            forall|i: int|
                0 <= i < final(self).size() ==> #[trigger] final(self).tile_content@[i]@.len() == 0,
    {
        let n = self.tile_content.len();
        for i in 0..n
            invariant
                n == self.tile_content@.len(),
                self.wf(),
                self.tiles == old(self).tiles,
                self.width == old(self).width,
                self.height == old(self).height,
                self.blocked == old(self).blocked,
                self.visible_tiles == old(self).visible_tiles,
                forall|j: int| 0 <= j < i ==> #[trigger] self.tile_content@[j]@.len() == 0,
        {
            self.tile_content.set(i, Vec::new());
        }
    }
}

} // verus!
