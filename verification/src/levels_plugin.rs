//! The level grid: tiles, their walls and floors, and where entities stand.

use crate::point::Point;
use vstd::prelude::*;

verus! {

/// Where an entity stands on the grid.
#[derive(Clone, Copy, Debug)]
pub struct Position(pub Point);

/// What blocks a tile.
#[derive(Clone, Copy, Debug, PartialEq, Eq, Structural)]
pub struct Wall;

/// What one stands on.
#[derive(Clone, Copy, Debug, PartialEq, Eq, Structural)]
pub struct Floor;

/// One cell of the level.
#[derive(Clone, Copy, Debug)]
pub struct Tile {
    pub wall: Option<Wall>,
    pub floor: Option<Floor>,
}

/// A tile with neither wall nor floor.
pub open spec fn blank_tile() -> Tile {
    Tile { wall: None, floor: None }
}

/// A line of `width` blank tiles.
pub open spec fn blank_line(width: nat) -> Seq<Tile> {
    Seq::new(width, |j: int| blank_tile())
}

/// A rectangular grid of tiles, stored as a list of equally long lines.
pub struct Level {
    tiles: Vec<Vec<Tile>>,
}

impl View for Level {
    type V = Seq<Seq<Tile>>;

    closed spec fn view(&self) -> Seq<Seq<Tile>> {
        Seq::new(self.tiles@.len(), |i: int| self.tiles@[i]@)
    }
}

impl Level {
    /// All lines have the same length.
    pub open spec fn wf(&self) -> bool {
        forall|i: int| 0 <= i < self@.len() ==> (#[trigger] self@[i]).len() == self@[0].len()
    }

    /// The length of a line, 0 where there is none.
    pub open spec fn spec_width(&self) -> nat {
        if self@.len() == 0 {
            0
        } else {
            self@[0].len()
        }
    }

    /// The number of lines.
    pub open spec fn spec_height(&self) -> nat {
        self@.len()
    }

    /// Whether all lines have the same length.
    #[verifier::when_used_as_spec(wf)]
    pub fn is_well_formed(&self) -> (b: bool)
        ensures
            b == self.wf(),
    {
        let height = self.tiles.len();
        if height == 0 {
            return true;
        }
        let width = self.tiles[0].len();
        assert(self@[0] == self.tiles@[0]@);
        let mut i: usize = 0;
        while i < height
            invariant
                i <= height,
                height == self.tiles@.len(),
                height > 0,
                width == self@[0].len(),
                forall|k: int| 0 <= k < i ==> (#[trigger] self@[k]).len() == width,
            decreases height - i,
        {
            assert(self@[i as int] == self.tiles@[i as int]@);
            if self.tiles[i].len() != width {
                return false;
            }
            i += 1;
        }
        true
    }

    /// A level of `height` lines of `width` blank tiles each.
    pub fn new(width: usize, height: usize) -> (level: Self)
        ensures
            level.wf(),
            level@ == Seq::new(height as nat, |i: int| blank_line(width as nat)),
    {
        let mut tiles: Vec<Vec<Tile>> = Vec::new();
        let mut y: usize = 0;
        while y < height
            invariant
                y <= height,
                tiles@.len() == y,
                forall|i: int| 0 <= i < y ==> (#[trigger] tiles@[i])@ == blank_line(width as nat),
            decreases height - y,
        {
            let mut line: Vec<Tile> = Vec::new();
            let mut x: usize = 0;
            while x < width
                invariant
                    x <= width,
                    line@.len() == x,
                    forall|j: int| 0 <= j < x ==> #[trigger] line@[j] == blank_tile(),
                decreases width - x,
            {
                line.push(Tile { wall: None, floor: None });
                x += 1;
            }
            assert(line@ =~= blank_line(width as nat));
            tiles.push(line);
            y += 1;
        }
        let level = Level { tiles };
        assert(level@ =~= Seq::new(height as nat, |i: int| blank_line(width as nat)));
        level
    }

    /// The length of a line, 0 where there is none.
    pub fn width(&self) -> (w: usize)
        ensures
            w == self.spec_width(),
    {
        if self.tiles.is_empty() {
            0
        } else {
            self.tiles[0].len()
        }
    }

    /// The number of lines.
    pub fn height(&self) -> (h: usize)
        ensures
            h == self.spec_height(),
    {
        self.tiles.len()
    }

    /// The tile at place `x` of line `y`.
    pub fn tile(&self, y: usize, x: usize) -> (t: &Tile)
        requires
            y < self@.len(),
            x < self@[y as int].len(),
        ensures
            *t == self@[y as int][x as int],
    {
        &self.tiles[y][x]
    }

    /// The tile at place `x` of line `y`, to be changed in place.
    pub fn tile_mut(&mut self, y: usize, x: usize) -> (t: &mut Tile)
        requires
            y < old(self)@.len(),
            x < old(self)@[y as int].len(),
        ensures
            *t == old(self)@[y as int][x as int],
            final(self)@ == old(self)@.update(
                y as int,
                old(self)@[y as int].update(x as int, *final(t)),
            ),
    {
        &mut self.tiles[y][x]
    }
}

/// Whether the tile in column `x` of line `y` lies on the rim of a level of
/// the given size.
pub open spec fn on_rim(x: int, y: int, width: int, height: int) -> bool {
    y == 0 || x == 0 || y == height - 1 || x == width - 1
}

/// What laying out the level makes of the tile in column `x` of line `y`: it
/// gets a floor, and on the rim a wall; elsewhere its wall stays as it was.
pub open spec fn furnished(tile: Tile, x: int, y: int, width: int, height: int) -> Tile {
    Tile {
        wall: if on_rim(x, y, width, height) {
            Some(Wall)
        } else {
            tile.wall
        },
        floor: Some(Floor),
    }
}

/// Lays out the level: a floor everywhere, walled in along the rim.
pub fn init_level(level: &mut Level)
    requires
        old(level).wf(),
    ensures
        final(level).wf(),
        final(level)@.len() == old(level)@.len(),
        final(level).spec_width() == old(level).spec_width(),
        forall|y: int, x: int|
            0 <= y < old(level).spec_height() && 0 <= x < old(level).spec_width()
                ==> #[trigger] final(level)@[y][x] == furnished(
                old(level)@[y][x],
                x,
                y,
                old(level).spec_width() as int,
                old(level).spec_height() as int,
            ),
{
    let width = level.width();
    let height = level.height();
    let mut y: usize = 0;
    while y < height
        invariant
            y <= height,
            width == old(level).spec_width(),
            height == old(level).spec_height(),
            level@.len() == height,
            forall|i: int| 0 <= i < height ==> (#[trigger] level@[i]).len() == width,
            forall|i: int, j: int|
                0 <= i < height && 0 <= j < width ==> #[trigger] level@[i][j] == (if i < y {
                    furnished(old(level)@[i][j], j, i, width as int, height as int)
                } else {
                    old(level)@[i][j]
                }),
        decreases height - y,
    {
        let mut x: usize = 0;
        while x < width
            invariant
                y < height,
                x <= width,
                width == old(level).spec_width(),
                height == old(level).spec_height(),
                level@.len() == height,
                forall|i: int| 0 <= i < height ==> (#[trigger] level@[i]).len() == width,
                forall|i: int, j: int|
                    0 <= i < height && 0 <= j < width ==> #[trigger] level@[i][j] == (if i < y
                        || (i == y && j < x) {
                        furnished(old(level)@[i][j], j, i, width as int, height as int)
                    } else {
                        old(level)@[i][j]
                    }),
            decreases width - x,
        {
            let tile = level.tile_mut(y, x);
            tile.floor = Some(Floor);
            if y == 0 || x == 0 || y == height - 1 || x == width - 1 {
                tile.wall = Some(Wall);
            }
            x += 1;
        }
        y += 1;
    }
}

} // verus!
