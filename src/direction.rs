use vstd::prelude::*;

verus! {

/// East or west.
#[derive(Clone, Copy, Debug, PartialEq, Eq, Structural)]
pub enum HorizontalDirection {
    East,
    West,
}

/// North or south.
#[derive(Clone, Copy, Debug, PartialEq, Eq, Structural)]
pub enum VerticalDirection {
    North,
    South,
}

/// One of the four orthogonal directions.
#[derive(Clone, Copy, Debug, PartialEq, Eq, Structural)]
pub enum Direction {
    Horizontal(HorizontalDirection),
    Vertical(VerticalDirection),
}

/// One of the four diagonal directions: the corner of a cell or the quadrant
/// of an intersection that it names.
#[derive(Clone, Copy, Debug, PartialEq, Eq, Structural)]
pub struct CornerDirection {
    pub horizontal: HorizontalDirection,
    pub vertical: VerticalDirection,
}

impl HorizontalDirection {
    pub open spec fn opposite(self) -> HorizontalDirection {
        match self {
            HorizontalDirection::East => HorizontalDirection::West,
            HorizontalDirection::West => HorizontalDirection::East,
        }
    }

    pub fn get_opposite(self) -> (r: Self)
        ensures
            r == self.opposite(),
    {
        match self {
            HorizontalDirection::East => HorizontalDirection::West,
            HorizontalDirection::West => HorizontalDirection::East,
        }
    }
}

impl VerticalDirection {
    pub open spec fn opposite(self) -> VerticalDirection {
        match self {
            VerticalDirection::North => VerticalDirection::South,
            VerticalDirection::South => VerticalDirection::North,
        }
    }

    pub fn get_opposite(self) -> (r: Self)
        ensures
            r == self.opposite(),
    {
        match self {
            VerticalDirection::North => VerticalDirection::South,
            VerticalDirection::South => VerticalDirection::North,
        }
    }
}

/// The four directions in the order in which the solver visits them:
/// north, east, south, west.
pub open spec fn all_directions() -> Seq<Direction> {
    seq![
        Direction::Vertical(VerticalDirection::North),
        Direction::Horizontal(HorizontalDirection::East),
        Direction::Vertical(VerticalDirection::South),
        Direction::Horizontal(HorizontalDirection::West),
    ]
}

/// The four corners in the order in which the solver visits them:
/// north-east, south-east, south-west, north-west.
pub open spec fn all_corners() -> Seq<CornerDirection> {
    seq![
        CornerDirection::new(HorizontalDirection::East, VerticalDirection::North),
        CornerDirection::new(HorizontalDirection::East, VerticalDirection::South),
        CornerDirection::new(HorizontalDirection::West, VerticalDirection::South),
        CornerDirection::new(HorizontalDirection::West, VerticalDirection::North),
    ]
}

impl Direction {
    /// The four directions: north, east, south, west.
    pub fn iter_all() -> (r: [Direction; 4])
        ensures
            r@ == all_directions(),
    {
        let r = [
            Direction::Vertical(VerticalDirection::North),
            Direction::Horizontal(HorizontalDirection::East),
            Direction::Vertical(VerticalDirection::South),
            Direction::Horizontal(HorizontalDirection::West),
        ];
        assert(r@ =~= all_directions());
        r
    }
}

impl CornerDirection {
    pub open spec fn new(horizontal: HorizontalDirection, vertical: VerticalDirection) -> Self {
        CornerDirection { horizontal, vertical }
    }

    pub open spec fn opposite(self) -> Self {
        CornerDirection::new(self.horizontal.opposite(), self.vertical.opposite())
    }

    /// The two corners next to this one, each sharing one side with it:
    /// south-east and north-west for the north-east and south-west corners,
    /// north-east and south-west for the other two.
    pub open spec fn adjacent(self) -> Seq<CornerDirection> {
        if self.horizontal == HorizontalDirection::East && self.vertical == VerticalDirection::South
            || self.horizontal == HorizontalDirection::West && self.vertical
            == VerticalDirection::North {
            seq![
                CornerDirection::new(HorizontalDirection::East, VerticalDirection::North),
                CornerDirection::new(HorizontalDirection::West, VerticalDirection::South),
            ]
        } else {
            seq![
                CornerDirection::new(HorizontalDirection::East, VerticalDirection::South),
                CornerDirection::new(HorizontalDirection::West, VerticalDirection::North),
            ]
        }
    }

    /// The two sides that make up this corner: the east or west one first,
    /// then the north or south one.
    pub open spec fn sides(self) -> Seq<Direction> {
        seq![Direction::Horizontal(self.horizontal), Direction::Vertical(self.vertical)]
    }

    /// The four corners: north-east, south-east, south-west, north-west.
    pub fn all() -> (r: [CornerDirection; 4])
        ensures
            r@ == all_corners(),
    {
        let r = [
            CornerDirection { horizontal: HorizontalDirection::East, vertical: VerticalDirection::North },
            CornerDirection { horizontal: HorizontalDirection::East, vertical: VerticalDirection::South },
            CornerDirection { horizontal: HorizontalDirection::West, vertical: VerticalDirection::South },
            CornerDirection { horizontal: HorizontalDirection::West, vertical: VerticalDirection::North },
        ];
        assert(r@ =~= all_corners());
        r
    }

    pub fn get_opposite(self) -> (r: Self)
        ensures
            r == self.opposite(),
    {
        CornerDirection {
            horizontal: self.horizontal.get_opposite(),
            vertical: self.vertical.get_opposite(),
        }
    }

    pub fn get_adjacent(self) -> (r: [Self; 2])
        ensures
            r@ == self.adjacent(),
    {
        let a = [
            CornerDirection { horizontal: HorizontalDirection::East, vertical: VerticalDirection::South },
            CornerDirection { horizontal: HorizontalDirection::West, vertical: VerticalDirection::North },
        ];
        let b = [
            CornerDirection { horizontal: HorizontalDirection::East, vertical: VerticalDirection::North },
            CornerDirection { horizontal: HorizontalDirection::West, vertical: VerticalDirection::South },
        ];
        if self == a[0] || self == a[1] {
            assert(b@ =~= self.adjacent());
            b
        } else {
            assert(a@ =~= self.adjacent());
            a
        }
    }

    /// The two sides of this corner: the east or west one, then the north or
    /// south one.
    pub fn directions(self) -> (r: [Direction; 2])
        ensures
            r@ == self.sides(),
    {
        let r = [Direction::Horizontal(self.horizontal), Direction::Vertical(self.vertical)];
        assert(r@ =~= self.sides());
        r
    }
}

} // verus!
