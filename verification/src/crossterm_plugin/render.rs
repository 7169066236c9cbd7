//! The frame: what the terminal shows of the level and of the entities.

use crate::actions::movement_plugin::in_bounds;
use crate::crossterm_plugin::CrosstermRunner;
use crate::levels_plugin::{Level, Position};
use crate::player_plugin::CameraPosition;
use crate::point::Point;
use crate::store::{Entity, Store, ID_SPACE};
use vstd::prelude::*;

verus! {

/// The order in which entities are drawn: higher layers over lower ones.
pub type LayerId = i32;

/// How an entity is drawn. `visible` is carried along and not consulted.
#[derive(Clone, Copy, Debug)]
pub struct Renderable {
    pub character: char,
    pub visible: bool,
    pub layer: LayerId,
}

/// The drawn window reaches from its start up to, but not including, its
/// end, and is as many cells wide and high as the terminal has columns and
/// rows. This says that both corners lie within the range of coordinates.
pub open spec fn window_fits(camera: Point, size: (u16, u16)) -> bool {
    &&& i32::MIN <= camera.x - size.0 / 2
    &&& camera.x + size.0 / 2 + size.0 % 2 <= i32::MAX
    &&& i32::MIN <= camera.y - size.1 / 2
    &&& camera.y + size.1 / 2 + size.1 % 2 <= i32::MAX
}

/// Whether a window of `size` around `camera` lies within the range of
/// coordinates.
#[verifier::when_used_as_spec(window_fits)]
pub fn frame_fits(camera: Point, size: (u16, u16)) -> (b: bool)
    ensures
        b == window_fits(camera, size),
{
    let half_cols = (size.0 / 2) as i64;
    let half_rows = (size.1 / 2) as i64;
    let x = camera.x as i64;
    let y = camera.y as i64;
    i32::MIN as i64 <= x - half_cols && x + half_cols + (size.0 % 2) as i64 <= i32::MAX as i64
        && i32::MIN as i64 <= y - half_rows && y + half_rows + (size.1 % 2) as i64
        <= i32::MAX as i64
}

/// The cell drawn in the top left corner: half the terminal's size before
/// the camera.
pub open spec fn window_start(camera: Point, size: (u16, u16)) -> Point {
    Point { x: (camera.x - size.0 / 2) as i32, y: (camera.y - size.1 / 2) as i32 }
}

/// The cell drawn in column `col` of row `row`.
pub open spec fn cell_point(start: Point, row: int, col: int) -> Point {
    Point { x: (start.x + col) as i32, y: (start.y + row) as i32 }
}

/// How the level itself looks at `p`: a wall, else a floor, else nothing.
pub open spec fn tile_glyph(level: &Level, p: Point) -> char {
    if !in_bounds(level, p) {
        ' '
    } else if level@[p.y as int][p.x as int].wall is Some {
        '#'
    } else if level@[p.y as int][p.x as int].floor is Some {
        '.'
    } else {
        ' '
    }
}

/// Whether `e` is drawn at `p`: it can be drawn and stands there.
pub open spec fn shown_at(
    positions: Map<Entity, Position>,
    renderables: Map<Entity, Renderable>,
    e: Entity,
    p: Point,
) -> bool {
    positions.contains_key(e) && renderables.contains_key(e) && positions[e].0 == p
}

/// Whether `over` is drawn after `under`: its layer is higher, or the layers
/// are equal and its identifier is not lower.
pub open spec fn drawn_over(
    renderables: Map<Entity, Renderable>,
    under: Entity,
    over: Entity,
) -> bool {
    renderables[under].layer < renderables[over].layer || (renderables[under].layer
        == renderables[over].layer && under.id <= over.id)
}

/// Whether `e` is what one sees at `p`: it is drawn there, after every other
/// entity drawn there.
pub open spec fn on_top(
    positions: Map<Entity, Position>,
    renderables: Map<Entity, Renderable>,
    e: Entity,
    p: Point,
) -> bool {
    &&& shown_at(positions, renderables, e, p)
    &&& forall|other: Entity| #[trigger]
        shown_at(positions, renderables, other, p) ==> drawn_over(renderables, other, e)
}

/// Whether `glyph` is what the cell `p` shows: the character of the entity
/// on top there, or, where no entity is drawn, the look of the level.
pub open spec fn cell_shows(
    level: &Level,
    positions: Map<Entity, Position>,
    renderables: Map<Entity, Renderable>,
    p: Point,
    glyph: char,
) -> bool {
    if exists|e: Entity| #[trigger] shown_at(positions, renderables, e, p) {
        exists|e: Entity| #[trigger]
            on_top(positions, renderables, e, p) && glyph == renderables[e].character
    } else {
        glyph == tile_glyph(level, p)
    }
}

/// What holds of a cell once the entities with an identifier below `n` are
/// drawn: `top` is the one seen there, if any.
spec fn drawn_so_far(
    level: &Level,
    positions: Map<Entity, Position>,
    renderables: Map<Entity, Renderable>,
    p: Point,
    n: nat,
    top: Option<Entity>,
    glyph: char,
    layer: Option<LayerId>,
) -> bool {
    match top {
        None => {
            &&& layer is None
            &&& glyph == tile_glyph(level, p)
            &&& forall|e: Entity|
                e.id < n ==> !#[trigger] shown_at(positions, renderables, e, p)
        },
        Some(t) => {
            &&& t.id < n
            &&& shown_at(positions, renderables, t, p)
            &&& glyph == renderables[t].character
            &&& layer == Some(renderables[t].layer)
            &&& forall|e: Entity|
                e.id < n && #[trigger] shown_at(positions, renderables, e, p) ==> drawn_over(
                    renderables,
                    e,
                    t,
                )
        },
    }
}

fn glyph_of_tile(level: &Level, x: i32, y: i32) -> (glyph: char)
    requires
        level.wf(),
    ensures
        glyph == tile_glyph(level, Point { x, y }),
{
    if x < 0 || y < 0 || x as usize >= level.width() || y as usize >= level.height() {
        return ' ';
    }
    let tile = level.tile(y as usize, x as usize);
    if tile.wall.is_some() {
        '#'
    } else if tile.floor.is_some() {
        '.'
    } else {
        ' '
    }
}

/// The level as the window shows it, without any entity.
fn level_grid(level: &Level, start: Point, cols: u16, rows: u16) -> (grid: Vec<Vec<char>>)
    requires
        level.wf(),
        start.x + cols <= i32::MAX,
        start.y + rows <= i32::MAX,
    ensures
        grid@.len() == rows,
        forall|r: int| 0 <= r < rows ==> (#[trigger] grid@[r])@.len() == cols,
        forall|r: int, c: int|
            0 <= r < rows && 0 <= c < cols ==> #[trigger] grid@[r]@[c] == tile_glyph(
                level,
                cell_point(start, r, c),
            ),
{
    let mut grid: Vec<Vec<char>> = Vec::new();
    let mut row: u16 = 0;
    while row < rows
        invariant
            row <= rows,
            level.wf(),
            start.x + cols <= i32::MAX,
            start.y + rows <= i32::MAX,
            grid@.len() == row,
            forall|r: int| 0 <= r < row ==> (#[trigger] grid@[r])@.len() == cols,
            forall|r: int, c: int|
                0 <= r < row && 0 <= c < cols ==> #[trigger] grid@[r]@[c] == tile_glyph(
                    level,
                    cell_point(start, r, c),
                ),
        decreases rows - row,
    {
        let y = start.y + row as i32;
        let mut line: Vec<char> = Vec::new();
        let mut col: u16 = 0;
        while col < cols
            invariant
                col <= cols,
                row < rows,
                level.wf(),
                start.x + cols <= i32::MAX,
                y == start.y + row,
                line@.len() == col,
                forall|c: int|
                    0 <= c < col ==> #[trigger] line@[c] == tile_glyph(
                        level,
                        cell_point(start, row as int, c),
                    ),
            decreases cols - col,
        {
            let x = start.x + col as i32;
            line.push(glyph_of_tile(level, x, y));
            col += 1;
        }
        grid.push(line);
        row += 1;
    }
    grid
}

/// A grid of the window's size that names no layer.
fn no_layers(cols: u16, rows: u16) -> (layers: Vec<Vec<Option<LayerId>>>)
    ensures
        layers@.len() == rows,
        forall|r: int| 0 <= r < rows ==> (#[trigger] layers@[r])@.len() == cols,
        forall|r: int, c: int| 0 <= r < rows && 0 <= c < cols ==> #[trigger] layers@[r]@[c] is None,
{
    let mut layers: Vec<Vec<Option<LayerId>>> = Vec::new();
    let mut row: u16 = 0;
    while row < rows
        invariant
            row <= rows,
            layers@.len() == row,
            forall|r: int| 0 <= r < row ==> (#[trigger] layers@[r])@.len() == cols,
            forall|r: int, c: int|
                0 <= r < row && 0 <= c < cols ==> #[trigger] layers@[r]@[c] is None,
        decreases rows - row,
    {
        let mut line: Vec<Option<LayerId>> = Vec::new();
        let mut col: u16 = 0;
        while col < cols
            invariant
                col <= cols,
                line@.len() == col,
                forall|c: int| 0 <= c < col ==> #[trigger] line@[c] is None,
            decreases cols - col,
        {
            line.push(None);
            col += 1;
        }
        layers.push(line);
        row += 1;
    }
    layers
}

/// Draws the frame: the part of the level around the camera that fits a
/// terminal of `size` columns and rows, with the entities that stand in it.
/// Row `r`, column `c` of the frame shows the cell `c` to the right of and
/// `r` below the window's start. While ticks are resolved nothing is drawn.
pub fn crossterm_render(
    runner: &CrosstermRunner,
    size: (u16, u16),
    camera_position: &CameraPosition,
    level: &Level,
    positions: &Store<Position>,
    renderables: &Store<Renderable>,
) -> (frame: Option<Vec<Vec<char>>>)
    requires
        !runner.is_world_tick() ==> level.wf() && window_fits(camera_position.0, size),
    ensures
        runner.is_world_tick() ==> frame is None,
        !runner.is_world_tick() ==> {
            &&& frame matches Some(grid)
            &&& grid@.len() == size.1
            &&& forall|r: int| 0 <= r < size.1 ==> (#[trigger] grid@[r])@.len() == size.0
            &&& forall|r: int, c: int|
                0 <= r < size.1 && 0 <= c < size.0 ==> cell_shows(
                    level,
                    positions@,
                    renderables@,
                    cell_point(window_start(camera_position.0, size), r, c),
                    #[trigger] grid@[r]@[c],
                )
        },
{
    if runner.is_world_tick() {
        return None;
    }
    let (cols, rows) = size;
    let camera = camera_position.0;
    let start = Point::new(camera.x - cols as i32 / 2, camera.y - rows as i32 / 2);
    let mut end = Point::new(camera.x + cols as i32 / 2, camera.y + rows as i32 / 2);
    if cols % 2 == 1 {
        end.x += 1;
    }
    if rows % 2 == 1 {
        end.y += 1;
    }
    assert(end.x == start.x + cols && end.y == start.y + rows);
    let mut grid = level_grid(level, start, cols, rows);
    let mut layers = no_layers(cols, rows);
    let ghost mut tops: Seq<Seq<Option<Entity>>> = Seq::new(
        rows as nat,
        |r: int| Seq::new(cols as nat, |c: int| None),
    );
    let limit = positions.bound();
    let mut j: u64 = 0;
    while j < limit
        invariant
            j <= limit <= ID_SPACE,
            end.x == start.x + cols,
            end.y == start.y + rows,
            grid@.len() == rows,
            layers@.len() == rows,
            tops.len() == rows,
            forall|r: int| 0 <= r < rows ==> (#[trigger] grid@[r])@.len() == cols,
            forall|r: int| 0 <= r < rows ==> (#[trigger] layers@[r])@.len() == cols,
            forall|r: int| 0 <= r < rows ==> (#[trigger] tops[r]).len() == cols,
            forall|r: int, c: int|
                0 <= r < rows && 0 <= c < cols ==> drawn_so_far(
                    level,
                    positions@,
                    renderables@,
                    cell_point(start, r, c),
                    j as nat,
                    #[trigger] tops[r][c],
                    grid@[r]@[c],
                    layers@[r]@[c],
                ),
        decreases limit - j,
    {
        let e = Entity { id: j as u32 };
        let standing = match positions.get(e) {
            Some(position) => Some(position.0),
            None => None,
        };
        let look = match renderables.get(e) {
            Some(renderable) => Some(*renderable),
            None => None,
        };
        let ghost before = tops;
        let ghost grid_before = grid@;
        let ghost layers_before = layers@;
        let mut drawn: bool = false;
        if let Some(p) = standing {
            if let Some(renderable) = look {
                if p.x >= start.x && p.x < end.x && p.y >= start.y && p.y < end.y {
                    let offset = p - start;
                    let r = offset.y as usize;
                    let c = offset.x as usize;
                    assert(cell_point(start, r as int, c as int) == p);
                    let over = match layers[r][c] {
                        None => true,
                        Some(layer) => renderable.layer >= layer,
                    };
                    if over {
                        grid[r][c] = renderable.character;
                        layers[r][c] = Some(renderable.layer);
                        proof {
                            tops = tops.update(r as int, tops[r as int].update(c as int, Some(e)));
                        }
                    }
                }
            }
        }
        proof {
            assert forall|r: int, c: int| 0 <= r < rows && 0 <= c < cols implies drawn_so_far(
                level,
                positions@,
                renderables@,
                cell_point(start, r, c),
                (j + 1) as nat,
                #[trigger] tops[r][c],
                grid@[r]@[c],
                layers@[r]@[c],
            ) by {
                let q = cell_point(start, r, c);
                assert(drawn_so_far(
                    level,
                    positions@,
                    renderables@,
                    q,
                    j as nat,
                    before[r][c],
                    grid_before[r]@[c],
                    layers_before[r]@[c],
                ));
                assert(forall|x: Entity| x.id < j + 1 ==> x.id < j || x == e);
            }
        }
        j += 1;
    }
    proof {
        assert forall|r: int, c: int| 0 <= r < rows && 0 <= c < cols implies cell_shows(
            level,
            positions@,
            renderables@,
            cell_point(window_start(camera_position.0, size), r, c),
            #[trigger] grid@[r]@[c],
        ) by {
            let q = cell_point(start, r, c);
            assert(drawn_so_far(
                level,
                positions@,
                renderables@,
                q,
                limit as nat,
                tops[r][c],
                grid@[r]@[c],
                layers@[r]@[c],
            ));
            match tops[r][c] {
                None => {
                    assert forall|x: Entity| !shown_at(positions@, renderables@, x, q) by {
                        if positions@.contains_key(x) {
                            assert(x.id < limit);
                        }
                    }
                },
                Some(t) => {
                    assert forall|x: Entity| #[trigger]
                        shown_at(positions@, renderables@, x, q) implies drawn_over(
                        renderables@,
                        x,
                        t,
                    ) by {
                        assert(x.id < limit);
                    }
                    assert(on_top(positions@, renderables@, t, q));
                },
            }
        }
    }
    Some(grid)
}

} // verus!
