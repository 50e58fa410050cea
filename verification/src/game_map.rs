//! The map: per-cell terrain, visibility flags, the blocking index and the
//! per-cell content index, plus the room rectangles the bootstrap carved.
//!
//! Cells are stored row by row: the cell at `(x, y)` lives at index
//! `y * width + x`. The blocking and content indices are rebuilt from scratch
//! every tick by the spatial index system.

use vstd::prelude::*;
use vstd::arithmetic::div_mod::lemma_div_is_ordered;
use vstd::arithmetic::div_mod::lemma_div_pos_is_pos;
use vstd::arithmetic::div_mod::lemma_fundamental_div_mod_converse;
use vstd::arithmetic::div_mod::lemma_mod_bound;

verus! {

/// Terrain of one cell.
#[derive(Clone, Copy, PartialEq, Eq, Structural, Debug)]
pub enum TileType {
    Wall,
    Floor,
}

/// An axis-aligned room rectangle; `x1..=x2` by `y1..=y2`, where carving
/// floors only the interior `x1+1..=x2` by `y1+1..=y2`.
#[derive(Clone, Copy, PartialEq, Eq, Structural, Debug)]
pub struct Rect {
    pub x1: i32,
    pub y1: i32,
    pub x2: i32,
    pub y2: i32,
}

impl Rect {
    /// A rectangle from a corner and a width and height.
    pub fn new(x: i32, y: i32, w: i32, h: i32) -> (r: Rect)
        requires
            0 <= w,
            0 <= h,
            x + w <= i32::MAX,
            y + h <= i32::MAX,
        ensures
            r.x1 == x,
            r.y1 == y,
            r.x2 == x + w,
            r.y2 == y + h,
    {
        Rect { x1: x, y1: y, x2: x + w, y2: y + h }
    }

    /// Whether two rectangles overlap (touching edges count as overlap).
    pub fn intersect(&self, other: &Rect) -> (r: bool)
        ensures
            r == (self.x1 <= other.x2 && self.x2 >= other.x1 && self.y1 <= other.y2
                && self.y2 >= other.y1),
    {
        self.x1 <= other.x2 && self.x2 >= other.x1 && self.y1 <= other.y2 && self.y2 >= other.y1
    }

    /// The middle cell of the rectangle.
    pub fn center(&self) -> (c: (i32, i32))
        requires
            0 <= self.x1 <= self.x2,
            0 <= self.y1 <= self.y2,
            self.x1 + self.x2 <= i32::MAX,
            self.y1 + self.y2 <= i32::MAX,
        ensures
            c.0 == (self.x1 + self.x2) as int / 2,
            c.1 == (self.y1 + self.y2) as int / 2,
            self.x1 <= c.0 <= self.x2,
            self.y1 <= c.1 <= self.y2,
    {
        ((self.x1 + self.x2) / 2, (self.y1 + self.y2) / 2)
    }
}

/// The map. `blocked[i]` holds iff cell `i` cannot be entered this tick;
/// `tile_content[i]` lists the entities standing on cell `i`.
#[derive(Debug)]
pub struct GameMap {
    pub tiles: Vec<TileType>,
    pub revealed_tiles: Vec<bool>,
    pub visible_tiles: Vec<bool>,
    pub blocked: Vec<bool>,
    pub tile_content: Vec<Vec<usize>>,
    pub rooms: Vec<Rect>,
    pub width: i32,
    pub height: i32,
}

impl GameMap {
    /// Structural well-formedness: positive dimensions, a cell count that
    /// fits signed 32-bit arithmetic, and one entry per cell in every
    /// per-cell vector.
    pub open spec fn wf(self) -> bool {
        &&& 1 <= self.width
        &&& 1 <= self.height
        &&& (self.width as int) * (self.height as int) <= i32::MAX as int
        &&& self.tiles@.len() == (self.width as int) * (self.height as int)
        &&& self.revealed_tiles@.len() == self.tiles@.len()
        &&& self.visible_tiles@.len() == self.tiles@.len()
        &&& self.blocked@.len() == self.tiles@.len()
        &&& self.tile_content@.len() == self.tiles@.len()
    }

    /// The cell index of coordinates `(x, y)`.
    pub open spec fn idx_of(self, x: int, y: int) -> int {
        y * self.width + x
    }

    /// Whether `(x, y)` lies on the map.
    pub open spec fn in_bounds(self, x: int, y: int) -> bool {
        0 <= x < self.width && 0 <= y < self.height
    }

    /// In-bounds coordinates index an in-range cell.
    pub proof fn lemma_idx_in_range(self, x: int, y: int)
        requires
            self.wf(),
            self.in_bounds(x, y),
        ensures
            0 <= self.idx_of(x, y) < self.tiles@.len(),
    {
        assert(0 <= y * self.width + x < self.width * self.height) by (nonlinear_arith)
            requires
                0 <= x < self.width,
                0 <= y < self.height,
        {}
    }

    /// Cell indices decompose uniquely into coordinates.
    pub proof fn lemma_idx_decompose(self, x: int, y: int)
        requires
            self.wf(),
            self.in_bounds(x, y),
        ensures
            self.idx_of(x, y) % (self.width as int) == x,
            self.idx_of(x, y) / (self.width as int) == y,
    {
        lemma_fundamental_div_mod_converse(y * self.width + x, self.width as int, y, x);
    }

    /// A cell index decomposes into on-map coordinates.
    pub proof fn lemma_div_mod_bounds(self, s: int)
        requires
            self.wf(),
            0 <= s < self.tiles@.len(),
        ensures
            0 <= s % (self.width as int) < self.width,
            0 <= s / (self.width as int) < self.height,
    {
        let w = self.width as int;
        let h = self.height as int;
        lemma_mod_bound(s, w);
        lemma_div_pos_is_pos(s, w);
        assert(w * h - 1 == (h - 1) * w + (w - 1)) by (nonlinear_arith);
        lemma_fundamental_div_mod_converse(w * h - 1, w, h - 1, w - 1);
        lemma_div_is_ordered(s, w * h - 1, w);
    }

    /// A fresh map: all walls, nothing revealed or visible, everything
    /// blocked, no occupants, no rooms.
    pub fn new(width: i32, height: i32) -> (m: GameMap)
        requires
            1 <= width,
            1 <= height,
            (width as int) * (height as int) <= i32::MAX as int,
        ensures
            m.wf(),
            m.width == width,
            m.height == height,
            forall|i: int| 0 <= i < m.tiles@.len() ==> m.tiles@[i] == TileType::Wall,
            forall|i: int| 0 <= i < m.tiles@.len() ==> m.revealed_tiles@[i] == false,
            forall|i: int| 0 <= i < m.tiles@.len() ==> m.visible_tiles@[i] == false,
            forall|i: int| 0 <= i < m.tiles@.len() ==> m.blocked@[i] == true,
            forall|i: int| 0 <= i < m.tiles@.len() ==> m.tile_content@[i]@ =~= Seq::<usize>::empty(),
            m.rooms@ =~= Seq::<Rect>::empty(),
    {
        let n: usize = (width * height) as usize;
        let mut tiles: Vec<TileType> = Vec::new();
        let mut revealed_tiles: Vec<bool> = Vec::new();
        let mut visible_tiles: Vec<bool> = Vec::new();
        let mut blocked: Vec<bool> = Vec::new();
        let mut tile_content: Vec<Vec<usize>> = Vec::new();
        let mut i: usize = 0;
        while i < n
            invariant
                i <= n,
                tiles@.len() == i,
                revealed_tiles@.len() == i,
                visible_tiles@.len() == i,
                blocked@.len() == i,
                tile_content@.len() == i,
                forall|k: int| 0 <= k < i ==> tiles@[k] == TileType::Wall,
                forall|k: int| 0 <= k < i ==> revealed_tiles@[k] == false,
                forall|k: int| 0 <= k < i ==> visible_tiles@[k] == false,
                forall|k: int| 0 <= k < i ==> blocked@[k] == true,
                forall|k: int| 0 <= k < i ==> tile_content@[k]@ =~= Seq::<usize>::empty(),
            decreases n - i,
        {
            tiles.push(TileType::Wall);
            revealed_tiles.push(false);
            visible_tiles.push(false);
            blocked.push(true);
            tile_content.push(Vec::new());
            i += 1;
        }
        GameMap {
            tiles,
            revealed_tiles,
            visible_tiles,
            blocked,
            tile_content,
            rooms: Vec::new(),
            width,
            height,
        }
    }

    /// The cell index of `(x, y)`.
    pub fn xy_idx(&self, x: i32, y: i32) -> (idx: usize)
        requires
            self.wf(),
            self.in_bounds(x as int, y as int),
        ensures
            idx == self.idx_of(x as int, y as int),
            idx < self.tiles@.len(),
    {
        proof {
            self.lemma_idx_in_range(x as int, y as int);
        }
        (y * self.width + x) as usize
    }

    /// Whether cell `idx` stops sight.
    pub fn is_opaque(&self, idx: usize) -> (r: bool)
        requires
            self.wf(),
            idx < self.tiles@.len(),
        ensures
            r == (self.tiles@[idx as int] == TileType::Wall),
    {
        self.tiles[idx] == TileType::Wall
    }

    /// Rebuild the blocking index from terrain alone: a cell is blocked iff
    /// it is a wall. Occupants are added afterwards by the spatial index
    /// system.
    pub fn populate_blocked(&mut self)
        requires
            old(self).wf(),
        ensures
            final(self).wf(),
            forall|i: int|
                0 <= i < final(self).blocked@.len() ==> final(self).blocked@[i] == (final(self).tiles@[i] == TileType::Wall),
            final(self).tiles == old(self).tiles,
            final(self).revealed_tiles == old(self).revealed_tiles,
            final(self).visible_tiles == old(self).visible_tiles,
            final(self).tile_content == old(self).tile_content,
            final(self).rooms == old(self).rooms,
            final(self).width == old(self).width,
            final(self).height == old(self).height,
            final(self).blocked@.len() == old(self).blocked@.len(),
    {
        let n: usize = self.tiles.len();
        let mut i: usize = 0;
        while i < n
            invariant
                i <= n,
                self.wf(),
                n == self.tiles@.len(),
                forall|k: int|
                    0 <= k < i ==> self.blocked@[k] == (self.tiles@[k] == TileType::Wall),
                self.tiles == old(self).tiles,
                self.revealed_tiles == old(self).revealed_tiles,
                self.visible_tiles == old(self).visible_tiles,
                self.tile_content == old(self).tile_content,
                self.rooms == old(self).rooms,
                self.width == old(self).width,
                self.height == old(self).height,
                self.blocked@.len() == old(self).blocked@.len(),
            decreases n - i,
        {
            self.blocked[i] = self.tiles[i] == TileType::Wall;
            i += 1;
        }
    }

    /// Empty every cell's content list.
    pub fn clear_content_index(&mut self)
        requires
            old(self).wf(),
        ensures
            final(self).wf(),
            forall|i: int|
                0 <= i < final(self).tile_content@.len() ==> final(self).tile_content@[i]@ =~= Seq::<
                    usize,
                >::empty(),
            final(self).tiles == old(self).tiles,
            final(self).revealed_tiles == old(self).revealed_tiles,
            final(self).visible_tiles == old(self).visible_tiles,
            final(self).blocked == old(self).blocked,
            final(self).rooms == old(self).rooms,
            final(self).width == old(self).width,
            final(self).height == old(self).height,
            final(self).tile_content@.len() == old(self).tile_content@.len(),
    {
        let n: usize = self.tile_content.len();
        let mut i: usize = 0;
        while i < n
            invariant
                i <= n,
                self.wf(),
                n == self.tile_content@.len(),
                forall|k: int| 0 <= k < i ==> self.tile_content@[k]@ =~= Seq::<usize>::empty(),
                self.tiles == old(self).tiles,
                self.revealed_tiles == old(self).revealed_tiles,
                self.visible_tiles == old(self).visible_tiles,
                self.blocked == old(self).blocked,
                self.rooms == old(self).rooms,
                self.width == old(self).width,
                self.height == old(self).height,
                self.tile_content@.len() == old(self).tile_content@.len(),
            decreases n - i,
        {
            self.tile_content[i] = Vec::new();
            i += 1;
        }
    }

    /// Whether a moving actor may step onto `(x, y)`: on the map, not in the
    /// leftmost column or topmost row, and not blocked.
    pub fn is_exit_valid(&self, x: i32, y: i32) -> (r: bool)
        requires
            self.wf(),
        ensures
            r == (1 <= x && x <= self.width - 1 && 1 <= y && y <= self.height - 1
                && !self.blocked@[self.idx_of(x as int, y as int)]),
    {
        if x < 1 || x > self.width - 1 || y < 1 || y > self.height - 1 {
            false
        } else {
            let idx = self.xy_idx(x, y);
            !self.blocked[idx]
        }
    }

    /// Cell `(x, y)` lies in the carved interior of `r`: the rectangle less
    /// its left column and top row.
    pub open spec fn room_covers(self, r: Rect, i: int) -> bool {
        &&& r.x1 < i % (self.width as int) <= r.x2
        &&& r.y1 < i / (self.width as int) <= r.y2
    }

    /// Carve the interior of a room to floor.
    pub fn draw_room(&mut self, room: &Rect)
        requires
            old(self).wf(),
            0 <= room.x1 <= room.x2,
            room.x2 < old(self).width,
            0 <= room.y1 <= room.y2,
            room.y2 < old(self).height,
        ensures
            final(self).wf(),
            final(self).revealed_tiles == old(self).revealed_tiles,
            final(self).visible_tiles == old(self).visible_tiles,
            final(self).blocked == old(self).blocked,
            final(self).tile_content == old(self).tile_content,
            final(self).rooms == old(self).rooms,
            final(self).width == old(self).width,
            final(self).height == old(self).height,
            final(self).tiles@.len() == old(self).tiles@.len(),
            forall|i: int|
                0 <= i < final(self).tiles@.len() && !old(self).room_covers(*room, i)
                    ==> final(self).tiles@[i] == old(self).tiles@[i],
            forall|i: int|
                0 <= i < final(self).tiles@.len() && old(self).room_covers(*room, i)
                    ==> final(self).tiles@[i] == TileType::Floor,
    {
        let mut y = room.y1 + 1;
        while y <= room.y2
            invariant
                self.wf(),
                self.revealed_tiles == old(self).revealed_tiles,
                self.visible_tiles == old(self).visible_tiles,
                self.blocked == old(self).blocked,
                self.tile_content == old(self).tile_content,
                self.rooms == old(self).rooms,
                self.width == old(self).width,
                self.height == old(self).height,
                self.tiles@.len() == old(self).tiles@.len(),
                room.y1 + 1 <= y,
                y <= room.y2 + 1,
                room.x2 < self.width,
                room.y2 < self.height,
                0 <= room.x1 <= room.x2,
                0 <= room.y1 <= room.y2,
                forall|i: int|
                    0 <= i < self.tiles@.len() && !old(self).room_covers(*room, i)
                        ==> self.tiles@[i] == old(self).tiles@[i],
                forall|i: int|
                    0 <= i < self.tiles@.len() && old(self).room_covers(*room, i) && i / (
                    self.width as int) < y ==> self.tiles@[i] == TileType::Floor,
                forall|i: int|
                    0 <= i < self.tiles@.len() && old(self).room_covers(*room, i) && i / (
                    self.width as int) >= y ==> self.tiles@[i] == old(self).tiles@[i],
            decreases room.y2 + 1 - y,
        {
            let mut x = room.x1 + 1;
            while x <= room.x2
                invariant
                    self.wf(),
                    self.revealed_tiles == old(self).revealed_tiles,
                    self.visible_tiles == old(self).visible_tiles,
                    self.blocked == old(self).blocked,
                    self.tile_content == old(self).tile_content,
                    self.rooms == old(self).rooms,
                    self.width == old(self).width,
                    self.height == old(self).height,
                    self.tiles@.len() == old(self).tiles@.len(),
                    room.x1 + 1 <= x,
                    x <= room.x2 + 1,
                    room.y1 + 1 <= y <= room.y2,
                    room.x2 < self.width,
                    room.y2 < self.height,
                    0 <= room.x1 <= room.x2,
                    0 <= room.y1 <= room.y2,
                    forall|i: int|
                        0 <= i < self.tiles@.len() && !old(self).room_covers(*room, i)
                            ==> self.tiles@[i] == old(self).tiles@[i],
                    forall|i: int|
                        0 <= i < self.tiles@.len() && old(self).room_covers(*room, i) && (i / (
                        self.width as int) < y || (i / (self.width as int) == y && i % (
                        self.width as int) < x)) ==> self.tiles@[i] == TileType::Floor,
                    forall|i: int|
                        0 <= i < self.tiles@.len() && old(self).room_covers(*room, i) && (i / (
                        self.width as int) > y || (i / (self.width as int) == y && i % (
                        self.width as int) >= x)) ==> self.tiles@[i] == old(self).tiles@[i],
                decreases room.x2 + 1 - x,
            {
                let ghost t0 = self.tiles@;
                let index = self.xy_idx(x, y);
                self.tiles[index] = TileType::Floor;
                proof {
                    self.lemma_idx_decompose(x as int, y as int);
                    assert(self.tiles@ == t0.update(index as int, TileType::Floor));
                    assert forall|i: int|
                        0 <= i < self.tiles@.len() && i != index as int implies self.tiles@[i]
                        == t0[i] by {}
                    assert forall|i: int|
                        0 <= i < self.tiles@.len() && old(self).room_covers(*room, i) && (i / (
                        self.width as int) < y || (i / (self.width as int) == y && i % (
                        self.width as int) < x + 1)) implies self.tiles@[i]
                        == TileType::Floor by {
                        if i != index as int {
                            vstd::arithmetic::div_mod::lemma_fundamental_div_mod(
                                i,
                                self.width as int,
                            );
                            if i / (self.width as int) == y as int && i % (self.width as int)
                                == x as int {
                                assert((self.width as int) * (y as int) == (y as int) * (
                                self.width as int)) by (nonlinear_arith);
                                assert(i == index as int);
                            }
                            assert(self.tiles@[i] == t0[i]);
                        }
                    }
                }
                x += 1;
            }
            y += 1;
        }
    }

    /// Carve a one-row tunnel between two columns.
    pub fn draw_horizontal_tunnel(&mut self, x1: i32, x2: i32, y: i32)
        requires
            old(self).wf(),
            0 <= x1,
            0 <= x2,
            x1 < old(self).width,
            x2 < old(self).width,
            0 <= y,
            y < old(self).height - 1,
        ensures
            final(self).wf(),
            final(self).revealed_tiles == old(self).revealed_tiles,
            final(self).visible_tiles == old(self).visible_tiles,
            final(self).blocked == old(self).blocked,
            final(self).tile_content == old(self).tile_content,
            final(self).rooms == old(self).rooms,
            final(self).width == old(self).width,
            final(self).height == old(self).height,
            final(self).tiles@.len() == old(self).tiles@.len(),
            forall|i: int|
                0 <= i < final(self).tiles@.len() ==> final(self).tiles@[i] == TileType::Floor
                    || final(self).tiles@[i] == old(self).tiles@[i],
    {
        let minx = if x1 < x2 {
            x1
        } else {
            x2
        };
        let maxx = if x1 < x2 {
            x2
        } else {
            x1
        };
        let room = Rect { x1: minx, y1: y, x2: maxx, y2: y + 1 };
        self.draw_room(&room);
        proof {
            assert forall|i: int| 0 <= i < self.tiles@.len() implies self.tiles@[i]
                == TileType::Floor || self.tiles@[i] == old(self).tiles@[i] by {
                if old(self).room_covers(room, i) {
                } else {
                }
            }
        }
    }

    /// Carve a one-column tunnel between two rows.
    pub fn draw_vertical_tunnel(&mut self, y1: i32, y2: i32, x: i32)
        requires
            old(self).wf(),
            0 <= y1,
            0 <= y2,
            y1 < old(self).height,
            y2 < old(self).height,
            0 <= x,
            x < old(self).width - 1,
        ensures
            final(self).wf(),
            final(self).revealed_tiles == old(self).revealed_tiles,
            final(self).visible_tiles == old(self).visible_tiles,
            final(self).blocked == old(self).blocked,
            final(self).tile_content == old(self).tile_content,
            final(self).rooms == old(self).rooms,
            final(self).width == old(self).width,
            final(self).height == old(self).height,
            final(self).tiles@.len() == old(self).tiles@.len(),
            forall|i: int|
                0 <= i < final(self).tiles@.len() ==> final(self).tiles@[i] == TileType::Floor
                    || final(self).tiles@[i] == old(self).tiles@[i],
    {
        let miny = if y1 < y2 {
            y1
        } else {
            y2
        };
        let maxy = if y1 < y2 {
            y2
        } else {
            y1
        };
        let room = Rect { x1: x, y1: miny, x2: x + 1, y2: maxy };
        self.draw_room(&room);
        proof {
            assert forall|i: int| 0 <= i < self.tiles@.len() implies self.tiles@[i]
                == TileType::Floor || self.tiles@[i] == old(self).tiles@[i] by {
                if old(self).room_covers(room, i) {
                } else {
                }
            }
        }
    }
}

/// Two rectangles overlap (touching edges count as overlap).
pub open spec fn rects_intersect(a: Rect, b: Rect) -> bool {
    a.x1 <= b.x2 && a.x2 >= b.x1 && a.y1 <= b.y2 && a.y2 >= b.y1
}

/// A room candidate fits the map with margin for its tunnels and center
/// arithmetic.
pub open spec fn room_candidate_ok(r: Rect, w: int, h: int) -> bool {
    &&& 0 <= r.x1 <= r.x2
    &&& r.x2 <= w - 2
    &&& 0 <= r.y1 <= r.y2
    &&& r.y2 <= h - 2
    &&& r.x1 + r.x2 <= i32::MAX
    &&& r.y1 + r.y2 <= i32::MAX
}

/// The rooms accepted from the first `n` candidates: each must fit the map
/// and overlap no earlier accepted room.
pub open spec fn accepted_rooms(cands: Seq<Rect>, w: int, h: int, n: int) -> Seq<Rect>
    decreases n,
{
    if n <= 0 {
        Seq::empty()
    } else {
        let prev = accepted_rooms(cands, w, h, n - 1);
        let c = cands[n - 1];
        if room_candidate_ok(c, w, h) && (forall|j: int|
            0 <= j < prev.len() ==> !rects_intersect(c, #[trigger] prev[j])) {
            prev.push(c)
        } else {
            prev
        }
    }
}

impl GameMap {
    /// Carve a dungeon from a list of room candidates: each candidate that
    /// fits the map and overlaps no earlier accepted room is carved, linked
    /// to the previous room by an L-shaped tunnel (horizontal leg first or
    /// second as `horizontal_first` says), and recorded in `rooms`. The
    /// candidates and leg choices come from the host's random number
    /// generator; every carve only turns walls into floors.
    pub fn populate_with_random_rooms(
        &mut self,
        candidates: &Vec<Rect>,
        horizontal_first: &Vec<bool>,
    )
        requires
            old(self).wf(),
            candidates@.len() == horizontal_first@.len(),
        ensures
            final(self).wf(),
               final(self).revealed_tiles == old(self).revealed_tiles,
            final(self).visible_tiles == old(self).visible_tiles,
            final(self).blocked == old(self).blocked,
            final(self).tile_content == old(self).tile_content,
            final(self).width == old(self).width,
            final(self).height == old(self).height,
            final(self).tiles@.len() == old(self).tiles@.len(),
            final(self).rooms@ == accepted_rooms(
                candidates@,
                old(self).width as int,
                old(self).height as int,
                candidates@.len() as int,
            ),
            forall|i: int|
                0 <= i < final(self).tiles@.len() ==> final(self).tiles@[i] == TileType::Floor
                    || final(self).tiles@[i] == old(self).tiles@[i],
            forall|j: int, i: int|
                0 <= j < final(self).rooms@.len() && 0 <= i < final(self).tiles@.len() && old(
                    self,
                ).room_covers(final(self).rooms@[j], i) ==> final(self).tiles@[i]
                    == TileType::Floor,
    {
        let n: usize = candidates.len();
        let mut rooms: Vec<Rect> = Vec::new();
        let mut k: usize = 0;
        while k < n
            invariant
                k <= n,
                n == candidates@.len(),
                candidates@.len() == horizontal_first@.len(),
                old(self).wf(),
                self.wf(),
                self.revealed_tiles == old(self).revealed_tiles,
                self.visible_tiles == old(self).visible_tiles,
                self.blocked == old(self).blocked,
                self.tile_content == old(self).tile_content,
                self.rooms == old(self).rooms,
                self.width == old(self).width,
                self.height == old(self).height,
                self.tiles@.len() == old(self).tiles@.len(),
                rooms@ == accepted_rooms(
                    candidates@,
                    old(self).width as int,
                    old(self).height as int,
                    k as int,
                ),
                forall|j: int|
                    0 <= j < rooms@.len() ==> room_candidate_ok(
                        #[trigger] rooms@[j],
                        old(self).width as int,
                        old(self).height as int,
                    ),
                forall|i: int|
                    0 <= i < self.tiles@.len() ==> self.tiles@[i] == TileType::Floor
                        || self.tiles@[i] == old(self).tiles@[i],
                forall|j: int, i: int|
                    0 <= j < rooms@.len() && 0 <= i < self.tiles@.len() && old(self).room_covers(
                        rooms@[j],
                        i,
                    ) ==> self.tiles@[i] == TileType::Floor,
            decreases n - k,
        {
            let ghost rooms0 = rooms@;
            let ghost tiles0 = self.tiles@;
            let c = candidates[k];
            let w = self.width;
            let h = self.height;
            let fits = 0 <= c.x1 && c.x1 <= c.x2 && c.x2 <= w - 2 && 0 <= c.y1 && c.y1 <= c.y2
                && c.y2 <= h - 2 && (c.x1 as i64) + (c.x2 as i64) <= i32::MAX as i64 && (
            c.y1 as i64) + (c.y2 as i64) <= i32::MAX as i64;
            let mut overlaps = false;
            if fits {
                let rn: usize = rooms.len();
                let mut j: usize = 0;
                while j < rn
                    invariant
                        j <= rn,
                        rn == rooms@.len(),
                        overlaps == exists|j2: int|
                            0 <= j2 < j && rects_intersect(c, #[trigger] rooms@[j2]),
                    decreases rn - j,
                {
                    let r = rooms[j];
                    if c.x1 <= r.x2 && c.x2 >= r.x1 && c.y1 <= r.y2 && c.y2 >= r.y1 {
                        proof {
                            assert(rects_intersect(c, rooms@[j as int]));
                        }
                        overlaps = true;
                    }
                    j += 1;
                }
            }
            if fits && !overlaps {
                let ghost m0 = *self;
                self.draw_room(&c);
                let ghost t1 = self.tiles@;
                proof {
                    assert forall|i: int| 0 <= i < t1.len() implies t1[i] == TileType::Floor || t1[i]
                        == tiles0[i] by {
                        if m0.room_covers(c, i) {
                        } else {
                        }
                    }
                }
                if rooms.len() > 0 {
                    let (new_x, new_y) = c.center();
                    let prev = rooms[rooms.len() - 1];
                    let (prev_x, prev_y) = prev.center();
                    if horizontal_first[k] {
                        self.draw_horizontal_tunnel(prev_x, new_x, prev_y);
                        let ghost ta = self.tiles@;
                        self.draw_vertical_tunnel(prev_y, new_y, new_x);
                        proof {
                            assert forall|i: int|
                                0 <= i < self.tiles@.len() implies self.tiles@[i]
                                == TileType::Floor || self.tiles@[i] == t1[i] by {
                                assert(ta[i] == TileType::Floor || ta[i] == t1[i]);
                                assert(self.tiles@[i] == TileType::Floor || self.tiles@[i]
                                    == ta[i]);
                            }
                        }
                    } else {
                        self.draw_vertical_tunnel(prev_y, new_y, prev_x);
                        let ghost ta = self.tiles@;
                        self.draw_horizontal_tunnel(prev_x, new_x, new_y);
                        proof {
                            assert forall|i: int|
                                0 <= i < self.tiles@.len() implies self.tiles@[i]
                                == TileType::Floor || self.tiles@[i] == t1[i] by {
                                assert(ta[i] == TileType::Floor || ta[i] == t1[i]);
                                assert(self.tiles@[i] == TileType::Floor || self.tiles@[i]
                                    == ta[i]);
                            }
                        }
                    }
                }
                rooms.push(c);
                proof {
                    assert(rooms@ =~= accepted_rooms(
                        candidates@,
                        old(self).width as int,
                        old(self).height as int,
                        k + 1,
                    ));
                    assert forall|i: int|
                        0 <= i < self.tiles@.len() implies self.tiles@[i] == TileType::Floor
                        || self.tiles@[i] == t1[i] by {}
                    assert forall|j: int, i: int|
                        0 <= j < rooms@.len() && 0 <= i < self.tiles@.len() && old(
                            self,
                        ).room_covers(rooms@[j], i) implies self.tiles@[i] == TileType::Floor by {
                        assert(self.tiles@[i] == TileType::Floor || self.tiles@[i] == t1[i]);
                        assert(t1[i] == TileType::Floor || t1[i] == tiles0[i]);
                        if j < rooms@.len() - 1 {
                            assert(rooms@[j] == rooms0[j]);
                            assert(tiles0[i] == TileType::Floor);
                        } else {
                            assert(rooms@[j] == c);
                            assert(m0.room_covers(c, i));
                            assert(t1[i] == TileType::Floor);
                        }
                    }
                }
            } else {
                proof {
                    assert(!(room_candidate_ok(
                        c,
                        old(self).width as int,
                        old(self).height as int,
                    ) && (forall|j2: int|
                        0 <= j2 < rooms0.len() ==> !rects_intersect(c, #[trigger] rooms0[j2]))));
                    assert(rooms@ =~= accepted_rooms(
                        candidates@,
                        old(self).width as int,
                        old(self).height as int,
                        k + 1,
                    ));
                }
            }
            k += 1;
        }
        self.rooms = rooms;
    }
}


impl GameMap {
    /// The neighbor entry the exits list holds for the step `(dx, dy)` out
    /// of cell `idx`: empty if that step is not a valid exit. Costs are in
    /// hundredths — 100 for a cardinal step, 145 for a diagonal — for the
    /// path service to scale.
    pub open spec fn exit_entry(self, idx: int, dx: int, dy: int) -> Seq<(usize, u32)> {
        let x = idx % (self.width as int);
        let y = idx / (self.width as int);
        let nx = x + dx;
        let ny = y + dy;
        if 1 <= nx <= self.width - 1 && 1 <= ny <= self.height - 1 && !self.blocked@[self.idx_of(
            nx,
            ny,
        )] {
            seq![(self.idx_of(nx, ny) as usize, (if dx == 0 || dy == 0 { 100u32 } else { 145u32 }))]
        } else {
            Seq::empty()
        }
    }

    /// The passable neighbors of cell `idx` and their traversal costs, in
    /// hundredths: 100 cardinal, 145 diagonal. This is the map-as-graph
    /// oracle the external path service searches over.
    pub fn get_available_exits(&self, idx: usize) -> (r: Vec<(usize, u32)>)
        requires
            self.wf(),
            idx < self.tiles@.len(),
        ensures
            r@ == self.exit_entry(idx as int, -1, -1) + self.exit_entry(idx as int, -1, 0)
                + self.exit_entry(idx as int, -1, 1) + self.exit_entry(idx as int, 0, -1)
                + self.exit_entry(idx as int, 0, 1) + self.exit_entry(idx as int, 1, -1)
                + self.exit_entry(idx as int, 1, 0) + self.exit_entry(idx as int, 1, 1),
    {
        proof {
            self.lemma_div_mod_bounds(idx as int);
        }
        let x: i32 = (idx as i32) % self.width;
        let y: i32 = (idx as i32) / self.width;
        let mut r: Vec<(usize, u32)> = Vec::new();
        let mut dx: i32 = -1;
        while dx <= 1
            invariant
                self.wf(),
                idx < self.tiles@.len(),
                -1 <= dx <= 2,
                x == (idx as int) % (self.width as int),
                y == (idx as int) / (self.width as int),
                0 <= x < self.width,
                0 <= y < self.height,
                r@ == exits_upto(*self, idx as int, dx as int),
            decreases 2 - dx,
        {
            let mut dy: i32 = -1;
            while dy <= 1
                invariant
                    self.wf(),
                    idx < self.tiles@.len(),
                    -1 <= dx <= 1,
                    -1 <= dy <= 2,
                    x == (idx as int) % (self.width as int),
                    y == (idx as int) / (self.width as int),
                    0 <= x < self.width,
                    0 <= y < self.height,
                    r@ == exits_upto(*self, idx as int, dx as int) + exits_row_upto(
                        *self,
                        idx as int,
                        dx as int,
                        dy as int,
                    ),
                decreases 2 - dy,
            {
                if !(dx == 0 && dy == 0) {
                    if self.is_exit_valid(x + dx, y + dy) {
                        let nidx = self.xy_idx(x + dx, y + dy);
                        let cost: u32 = if dx == 0 || dy == 0 {
                            100
                        } else {
                            145
                        };
                        r.push((nidx, cost));
                        proof {
                            assert(r@ =~= exits_upto(*self, idx as int, dx as int)
                                + exits_row_upto(*self, idx as int, dx as int, dy + 1));
                        }
                    } else {
                        proof {
                            assert(self.exit_entry(idx as int, dx as int, dy as int) =~= Seq::<
                                (usize, u32),
                            >::empty());
                            assert(r@ =~= exits_upto(*self, idx as int, dx as int)
                                + exits_row_upto(*self, idx as int, dx as int, dy + 1));
                        }
                    }
                } else {
                    proof {
                        assert(r@ =~= exits_upto(*self, idx as int, dx as int) + exits_row_upto(
                            *self,
                            idx as int,
                            dx as int,
                            dy + 1,
                        ));
                    }
                }
                dy += 1;
            }
            proof {
                assert(r@ =~= exits_upto(*self, idx as int, dx + 1));
            }
            dx += 1;
        }
        proof {
            assert(r@ =~= self.exit_entry(idx as int, -1, -1) + self.exit_entry(idx as int, -1, 0)
                + self.exit_entry(idx as int, -1, 1) + self.exit_entry(idx as int, 0, -1)
                + self.exit_entry(idx as int, 0, 1) + self.exit_entry(idx as int, 1, -1)
                + self.exit_entry(idx as int, 1, 0) + self.exit_entry(idx as int, 1, 1));
        }
        r
    }
}

/// The exit entries of whole delta-columns before `dx`, in scan order.
pub open spec fn exits_upto(m: GameMap, idx: int, dx: int) -> Seq<(usize, u32)> {
    if dx <= -1 {
        Seq::empty()
    } else if dx == 0 {
        m.exit_entry(idx, -1, -1) + m.exit_entry(idx, -1, 0) + m.exit_entry(idx, -1, 1)
    } else if dx == 1 {
        m.exit_entry(idx, -1, -1) + m.exit_entry(idx, -1, 0) + m.exit_entry(idx, -1, 1)
            + m.exit_entry(idx, 0, -1) + m.exit_entry(idx, 0, 1)
    } else {
        m.exit_entry(idx, -1, -1) + m.exit_entry(idx, -1, 0) + m.exit_entry(idx, -1, 1)
            + m.exit_entry(idx, 0, -1) + m.exit_entry(idx, 0, 1) + m.exit_entry(idx, 1, -1)
            + m.exit_entry(idx, 1, 0) + m.exit_entry(idx, 1, 1)
    }
}

/// The exit entries of the current delta-column `dx` before `dy`, skipping
/// the null step.
pub open spec fn exits_row_upto(m: GameMap, idx: int, dx: int, dy: int) -> Seq<(usize, u32)> {
    if dy <= -1 {
        Seq::empty()
    } else if dy == 0 {
        m.exit_entry(idx, dx, -1)
    } else if dy == 1 {
        if dx == 0 {
            m.exit_entry(idx, dx, -1)
        } else {
            m.exit_entry(idx, dx, -1) + m.exit_entry(idx, dx, 0)
        }
    } else {
        if dx == 0 {
            m.exit_entry(idx, dx, -1) + m.exit_entry(idx, dx, 1)
        } else {
            m.exit_entry(idx, dx, -1) + m.exit_entry(idx, dx, 0) + m.exit_entry(idx, dx, 1)
        }
    }
}

} // verus!
