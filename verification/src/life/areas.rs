//! # Areas
//!
//! Positions, areas, neighbours and anything around,
//! such as checking if something is on an area.

use vstd::prelude::*;

use crate::random;

verus! {

/// Simple position in world.
#[derive(Debug, PartialEq, Eq, Clone, Copy, Hash, Structural)]
pub struct Position {
    /// left to right (width)
    pub x: u32,
    /// front to back (depth)
    pub y: u32,
    /// bottom to top (height)
    pub z: u32,
}

impl Position {
    /// Simple constructor.
    pub fn new(x: u32, y: u32, z: u32) -> (position: Self)
        ensures
            position == (Position { x, y, z }),
    {
        Self { x, y, z }
    }

    /// The squared euclidean distance between two positions on the width-depth plane
    /// (the height is not taken into account).
    pub open spec fn spec_distance_squared(self, other: Self) -> int {
        (self.x - other.x) * (self.x - other.x) + (self.y - other.y) * (self.y - other.y)
    }

    /// Get the squared distance between two positions (on the width-depth plane).
    ///
    /// Comparing squared distances orders positions exactly as comparing the
    /// distances themselves does.
    pub fn distance_squared_to(&self, other: &Self) -> (distance: u128)
        ensures
            distance == self.spec_distance_squared(*other),
    {
        let dx: u128 = if self.x >= other.x {
            (self.x - other.x) as u128
        } else {
            (other.x - self.x) as u128
        };
        let dy: u128 = if self.y >= other.y {
            (self.y - other.y) as u128
        } else {
            (other.y - self.y) as u128
        };
        assert(dx * dx <= 0xffff_ffff * 0xffff_ffff) by (nonlinear_arith)
            requires
                dx <= 0xffff_ffff,
        ;
        assert(dy * dy <= 0xffff_ffff * 0xffff_ffff) by (nonlinear_arith)
            requires
                dy <= 0xffff_ffff,
        ;
        assert(dx * dx == (self.x - other.x) * (self.x - other.x)) by (nonlinear_arith)
            requires
                dx == self.x - other.x || dx == other.x - self.x,
        ;
        assert(dy * dy == (self.y - other.y) * (self.y - other.y)) by (nonlinear_arith)
            requires
                dy == self.y - other.y || dy == other.y - self.y,
        ;
        dx * dx + dy * dy
    }
}

/// Option to go forward, backward or stay.
#[derive(Debug, PartialEq, Eq, Clone, Copy, Hash, Structural)]
pub enum Step {
    Backward,
    Stay,
    Forward,
}

impl Step {
    /// The offset of one step.
    pub open spec fn spec_offset(self) -> int {
        match self {
            Step::Backward => -1,
            Step::Stay => 0,
            Step::Forward => 1,
        }
    }

    pub fn as_offset(&self) -> (offset: i8)
        ensures
            offset == self.spec_offset(),
    {
        match self {
            Self::Backward => -1,
            Self::Stay => 0,
            Self::Forward => 1,
        }
    }
}

/// Directional offset from any position (3D).
#[derive(Debug, PartialEq, Eq, Clone, Copy, Hash, Structural)]
pub struct Direction {
    pub x: Step,
    pub y: Step,
    pub z: Step,
}

/// The eight directions of the width-depth slice, in the order the neighbours are listed.
pub open spec fn spec_direction_xy(index: int) -> Direction {
    let (x, y) = if index == 0 {
        (Step::Backward, Step::Backward)
    } else if index == 1 {
        (Step::Stay, Step::Backward)
    } else if index == 2 {
        (Step::Forward, Step::Backward)
    } else if index == 3 {
        (Step::Backward, Step::Stay)
    } else if index == 4 {
        (Step::Forward, Step::Stay)
    } else if index == 5 {
        (Step::Backward, Step::Forward)
    } else if index == 6 {
        (Step::Stay, Step::Forward)
    } else {
        (Step::Forward, Step::Forward)
    };
    Direction { x, y, z: Step::Stay }
}

impl Direction {
    /// Number of directions of the width-depth slice.
    pub const DIRECTION_COUNT_XY: usize = 8;

    /// Get one of the eight directions of the width-depth slice.
    fn direction_xy(index: usize) -> (direction: Self)
        requires
            index < 8,
        ensures
            direction == spec_direction_xy(index as int),
    {
        let (x, y) = match index {
            0 => (Step::Backward, Step::Backward),
            1 => (Step::Stay, Step::Backward),
            2 => (Step::Forward, Step::Backward),
            3 => (Step::Backward, Step::Stay),
            4 => (Step::Forward, Step::Stay),
            5 => (Step::Backward, Step::Forward),
            6 => (Step::Stay, Step::Forward),
            _ => (Step::Forward, Step::Forward),
        };
        Self { x, y, z: Step::Stay }
    }

    pub fn as_offset_tuple(&self) -> (offset: (i8, i8, i8))
        ensures
            offset.0 == self.x.spec_offset(),
            offset.1 == self.y.spec_offset(),
            offset.2 == self.z.spec_offset(),
    {
        (self.x.as_offset(), self.y.as_offset(), self.z.as_offset())
    }
}

/// An area: a box spanned from an anchor, with a width, depth and height.
#[derive(Debug, PartialEq, Clone, Copy)]
pub struct Area {
    anchor: Position,
    width: u32,
    depth: u32,
    height: u32,
    position_index_bound: usize,
    iterator_index: u32,
}

/// The mathematical model of an area.
pub struct AreaModel {
    pub anchor: Position,
    pub width: u32,
    pub depth: u32,
    pub height: u32,
    pub position_index_bound: usize,
    pub iterator_index: u32,
}

impl View for Area {
    type V = AreaModel;

    closed spec fn view(&self) -> AreaModel {
        AreaModel {
            anchor: self.anchor,
            width: self.width,
            depth: self.depth,
            height: self.height,
            position_index_bound: self.position_index_bound,
            iterator_index: self.iterator_index,
        }
    }
}

impl AreaModel {
    /// The model of a newly created area.
    pub open spec fn spec_new(anchor: Position, width: u32, depth: u32, height: u32) -> AreaModel {
        AreaModel {
            anchor,
            width,
            depth,
            height,
            position_index_bound: (width * depth * height) as usize,
            iterator_index: 0,
        }
    }

    /// The far borders of the area can be represented by coordinates.
    pub open spec fn representable(self) -> bool {
        &&& self.anchor.x + self.width <= u32::MAX
        &&& self.anchor.y + self.depth <= u32::MAX
        &&& self.anchor.z + self.height <= u32::MAX
    }

    /// The position is inside the area.
    pub open spec fn spec_contains(self, pos: Position) -> bool {
        &&& self.anchor.x <= pos.x < self.anchor.x + self.width
        &&& self.anchor.y <= pos.y < self.anchor.y + self.depth
        &&& self.anchor.z <= pos.z < self.anchor.z + self.height
    }

    /// The neighbour of a position in a direction, if it lies within the area.
    pub open spec fn spec_neighbour(self, pos: Position, direction: Direction) -> Option<
        Position,
    > {
        let nx = pos.x + direction.x.spec_offset();
        let ny = pos.y + direction.y.spec_offset();
        let nz = pos.z + direction.z.spec_offset();
        if self.anchor.x <= nx < self.anchor.x + self.width && self.anchor.y <= ny < self.anchor.y
            + self.depth && self.anchor.z <= nz < self.anchor.z + self.height {
            Some(Position { x: nx as u32, y: ny as u32, z: nz as u32 })
        } else {
            None
        }
    }

    /// The neighbours of the first `n` width-depth directions, in direction order.
    pub open spec fn spec_neighbours_xy_upto(self, pos: Position, n: nat) -> Seq<Position>
        decreases n,
    {
        if n == 0 {
            Seq::empty()
        } else {
            let previous = self.spec_neighbours_xy_upto(pos, (n - 1) as nat);
            match self.spec_neighbour(pos, spec_direction_xy(n - 1)) {
                Some(neighbour) => previous.push(neighbour),
                None => previous,
            }
        }
    }

    /// All width-depth neighbours of a position, in direction order.
    pub open spec fn spec_neighbours_xy(self, pos: Position) -> Seq<Position> {
        self.spec_neighbours_xy_upto(pos, 8)
    }

    /// The position at an index of the width-depth slice (row by row).
    pub open spec fn spec_position_from_index(self, index: u32) -> Option<Position> {
        if index < self.width * self.depth {
            Some(
                Position {
                    x: (index % self.width + self.anchor.x) as u32,
                    y: (index / self.width + self.anchor.y) as u32,
                    z: 0,
                },
            )
        } else {
            None
        }
    }
}

impl Area {
    pub fn new(anchor: Position, width: u32, depth: u32, height: u32) -> (area: Self)
        requires
            width * depth <= usize::MAX,
            width * depth * height <= usize::MAX,
        ensures
            area@ == AreaModel::spec_new(anchor, width, depth, height),
    {
        let position_index_bound = (width as usize) * (depth as usize) * (height as usize);
        Self { anchor, width, depth, height, position_index_bound, iterator_index: 0 }
    }

    /// Width of the area.
    pub fn width(&self) -> (width: u32)
        ensures
            width == self@.width,
    {
        self.width
    }

    /// Depth of the area.
    pub fn depth(&self) -> (depth: u32)
        ensures
            depth == self@.depth,
    {
        self.depth
    }

    /// Height of the area.
    pub fn height(&self) -> (height: u32)
        ensures
            height == self@.height,
    {
        self.height
    }

    /// Create an area, that is spanned by the given positions: the smallest box that
    /// holds both.
    pub fn span(a: &Position, b: &Position) -> (area: Self)
        requires
            ({
                let w = if a.x >= b.x { a.x - b.x } else { b.x - a.x } + 1;
                let d = if a.y >= b.y { a.y - b.y } else { b.y - a.y } + 1;
                let h = if a.z >= b.z { a.z - b.z } else { b.z - a.z } + 1;
                w <= u32::MAX && d <= u32::MAX && h <= u32::MAX && w * d <= usize::MAX && w * d * h
                    <= usize::MAX
            }),
        ensures
            ({
                let min_x = if a.x <= b.x { a.x } else { b.x };
                let min_y = if a.y <= b.y { a.y } else { b.y };
                let min_z = if a.z <= b.z { a.z } else { b.z };
                let w = if a.x >= b.x { a.x - b.x } else { b.x - a.x } + 1;
                let d = if a.y >= b.y { a.y - b.y } else { b.y - a.y } + 1;
                let h = if a.z >= b.z { a.z - b.z } else { b.z - a.z } + 1;
                area@ == AreaModel::spec_new(Position { x: min_x, y: min_y, z: min_z }, w as u32, d as u32, h as u32)
            }),
            area@.spec_contains(*a),
            area@.spec_contains(*b),
    {
        let (min_x, max_x) = (if a.x <= b.x { a.x } else { b.x }, if a.x >= b.x { a.x } else { b.x });
        let (min_y, max_y) = (if a.y <= b.y { a.y } else { b.y }, if a.y >= b.y { a.y } else { b.y });
        let (min_z, max_z) = (if a.z <= b.z { a.z } else { b.z }, if a.z >= b.z { a.z } else { b.z });

        let width = max_x - min_x + 1;
        let depth = max_y - min_y + 1;
        let height = max_z - min_z + 1;

        Area::new(Position { x: min_x, y: min_y, z: min_z }, width, depth, height)
    }

    /// Check, if the position is in the area.
    pub fn contains_position(&self, pos: &Position) -> (contained: bool)
        requires
            self@.representable(),
        ensures
            contained == self@.spec_contains(*pos),
    {
        (self.anchor.x <= pos.x && pos.x < (self.anchor.x + self.width)) && (self.anchor.y <= pos.y
            && pos.y < (self.anchor.y + self.depth)) && (self.anchor.z <= pos.z && pos.z < (
        self.anchor.z + self.height))
    }

    /// Get a random position within this area.
    pub fn position_random(&self) -> (position: Position)
        requires
            self@.width > 0,
            self@.depth > 0,
            self@.height > 0,
            self@.representable(),
        ensures
            self@.spec_contains(position),
    {
        Position {
            x: self.anchor.x + (random::random_u32() % self.width),
            y: self.anchor.y + (random::random_u32() % self.depth),
            z: self.anchor.z + (random::random_u32() % self.height),
        }
    }

    /// Get all valid neighbours of a position within the width-depth slice of the area.
    pub fn get_all_neighbours_xy(&self, pos: Position) -> (neighbours: Vec<Position>)
        requires
            self@.representable(),
        ensures
            neighbours@ == self@.spec_neighbours_xy(pos),
    {
        let mut neighbours: Vec<Position> = Vec::new();
        let mut i: usize = 0;
        while i < Direction::DIRECTION_COUNT_XY
            invariant
                i <= 8,
                self@.representable(),
                neighbours@ == self@.spec_neighbours_xy_upto(pos, i as nat),
            decreases 8 - i,
        {
            if let Some(n) = self.get_directed_neighbour(pos, Direction::direction_xy(i)) {
                neighbours.push(n);
            }
            i += 1;
        }
        neighbours
    }

    /// Get a requested neighbour of a given position within this area.
    pub fn get_directed_neighbour(&self, pos: Position, direction: Direction) -> (neighbour: Option<
        Position,
    >)
        requires
            self@.representable(),
        ensures
            neighbour == self@.spec_neighbour(pos, direction),
    {
        let change = direction.as_offset_tuple();

        let nx: i64 = pos.x as i64 + change.0 as i64;
        let ny: i64 = pos.y as i64 + change.1 as i64;
        let nz: i64 = pos.z as i64 + change.2 as i64;

        // Only a neighbour within the area counts.
        if nx < self.anchor.x as i64 || nx >= self.anchor.x as i64 + self.width as i64 {
            return None;
        }
        if ny < self.anchor.y as i64 || ny >= self.anchor.y as i64 + self.depth as i64 {
            return None;
        }
        if nz < self.anchor.z as i64 || nz >= self.anchor.z as i64 + self.height as i64 {
            return None;
        }

        Some(Position::new(nx as u32, ny as u32, nz as u32))
    }

    /// Get the optional position, which is on the given index (of the width-depth slice).
    pub fn position_from_index(&self, index: u32) -> (position: Option<Position>)
        requires
            self@.width * self@.depth <= u32::MAX,
            index < self@.width * self@.depth ==> {
                &&& index % self@.width + self@.anchor.x <= u32::MAX
                &&& index / self@.width + self@.anchor.y <= u32::MAX
            },
        ensures
            position == self@.spec_position_from_index(index),
    {
        if index < self.width * self.depth {
            Some(Position::new(index % self.width + self.anchor.x, index / self.width + self.anchor.y, 0u32))
        } else {
            None
        }
    }

    /// The next position of the area, row by row (the area counts the positions it gave);
    /// after the last one, none.
    pub fn next(&mut self) -> (position: Option<Position>)
        requires
            old(self)@.iterator_index < u32::MAX,
            old(self)@.width * old(self)@.depth <= u32::MAX,
            old(self)@.iterator_index < old(self)@.width * old(self)@.depth ==> {
                &&& old(self)@.iterator_index % old(self)@.width + old(self)@.anchor.x <= u32::MAX
                &&& old(self)@.iterator_index / old(self)@.width + old(self)@.anchor.y <= u32::MAX
            },
        ensures
            final(self)@ == (AreaModel { iterator_index: (old(self)@.iterator_index + 1) as u32, ..old(self)@ }),
            position == old(self)@.spec_position_from_index(old(self)@.iterator_index),
    {
        let index = self.iterator_index;
        self.iterator_index += 1;
        self.position_from_index(index)
    }
}

/// Every neighbour is one step away from the position: on the width-depth slice each
/// coordinate differs by at most one, the height stays, the neighbour is not the
/// position itself, and it lies within the area.
pub proof fn lemma_neighbours_adjacent(area: AreaModel, pos: Position, n: nat)
    requires
        n <= 8,
        pos.x < u32::MAX,
        pos.y < u32::MAX,
    ensures
        forall|k: int|
            #![trigger area.spec_neighbours_xy_upto(pos, n)[k]]
            0 <= k < area.spec_neighbours_xy_upto(pos, n).len() ==> {
                let m = area.spec_neighbours_xy_upto(pos, n)[k];
                &&& m.x <= pos.x + 1
                &&& pos.x <= m.x + 1
                &&& m.y <= pos.y + 1
                &&& pos.y <= m.y + 1
                &&& m.z == pos.z
                &&& !(m.x == pos.x && m.y == pos.y)
                &&& area.spec_contains(m)
            },
    decreases n,
{
    if n > 0 {
        lemma_neighbours_adjacent(area, pos, (n - 1) as nat);
        let previous = area.spec_neighbours_xy_upto(pos, (n - 1) as nat);
        let all = area.spec_neighbours_xy_upto(pos, n);
        assert forall|k: int| #![trigger all[k]] 0 <= k < all.len() implies {
            let m = all[k];
            &&& m.x <= pos.x + 1
            &&& pos.x <= m.x + 1
            &&& m.y <= pos.y + 1
            &&& pos.y <= m.y + 1
            &&& m.z == pos.z
            &&& !(m.x == pos.x && m.y == pos.y)
            &&& area.spec_contains(m)
        } by {
            if k < previous.len() {
                assert(all[k] == previous[k]);
            }
        }
    }
}

/// A neighbour that lies within the area in one of the first `n` width-depth directions is
/// listed among the neighbours of the first `n` directions.
pub proof fn lemma_neighbour_listed(area: AreaModel, pos: Position, n: nat, k: int)
    requires
        0 <= k < n <= 8,
        area.spec_neighbour(pos, spec_direction_xy(k)) is Some,
    ensures
        area.spec_neighbours_xy_upto(pos, n).contains(area.spec_neighbour(pos, spec_direction_xy(k)).unwrap()),
    decreases n,
{
    let m = area.spec_neighbour(pos, spec_direction_xy(k)).unwrap();
    let all = area.spec_neighbours_xy_upto(pos, n);
    let previous = area.spec_neighbours_xy_upto(pos, (n - 1) as nat);
    if k < n - 1 {
        lemma_neighbour_listed(area, pos, (n - 1) as nat, k);
        let j = choose|j: int| 0 <= j < previous.len() && previous[j] == m;
        assert(all[j] == m);
    } else {
        assert(all[all.len() - 1] == m);
    }
}

} // verus!
