//! Compass directions, the arrow mask of a card and the relation between
//! two neighbouring cards.

use vstd::prelude::*;

verus! {

/// A compass direction, listed in the order in which a board enumerates the
/// neighbours of a space.
#[derive(Clone, Copy, Debug, PartialEq, Eq, Structural)]
pub enum Direction {
    West,
    East,
    North,
    Northwest,
    Northeast,
    South,
    Southwest,
    Southeast,
}

impl Direction {
    /// The direction that stands at position `i` of a neighbour list.
    pub open spec fn spec_from_index(i: int) -> Direction {
        if i == 0 {
            Direction::West
        } else if i == 1 {
            Direction::East
        } else if i == 2 {
            Direction::North
        } else if i == 3 {
            Direction::Northwest
        } else if i == 4 {
            Direction::Northeast
        } else if i == 5 {
            Direction::South
        } else if i == 6 {
            Direction::Southwest
        } else {
            Direction::Southeast
        }
    }

    /// The position of this direction in a neighbour list.
    pub open spec fn index(self) -> int {
        match self {
            Direction::West => 0,
            Direction::East => 1,
            Direction::North => 2,
            Direction::Northwest => 3,
            Direction::Northeast => 4,
            Direction::South => 5,
            Direction::Southwest => 6,
            Direction::Southeast => 7,
        }
    }

    /// The direction that points back: north and south, east and west, and
    /// the two diagonals.
    pub open spec fn opposite(self) -> Direction {
        match self {
            Direction::West => Direction::East,
            Direction::East => Direction::West,
            Direction::North => Direction::South,
            Direction::Northwest => Direction::Southeast,
            Direction::Northeast => Direction::Southwest,
            Direction::South => Direction::North,
            Direction::Southwest => Direction::Northeast,
            Direction::Southeast => Direction::Northwest,
        }
    }

    /// The bit of an arrow mask that stands for this direction.
    pub open spec fn mask(self) -> u8 {
        match self {
            Direction::North => 0x80u8,
            Direction::Northeast => 0x40u8,
            Direction::East => 0x20u8,
            Direction::Southeast => 0x10u8,
            Direction::South => 0x08u8,
            Direction::Southwest => 0x04u8,
            Direction::West => 0x02u8,
            Direction::Northwest => 0x01u8,
        }
    }

    /// How many rows further down the neighbour in this direction lies.
    pub open spec fn row_offset(self) -> int {
        match self {
            Direction::North | Direction::Northwest | Direction::Northeast => -1,
            Direction::West | Direction::East => 0,
            Direction::South | Direction::Southwest | Direction::Southeast => 1,
        }
    }

    /// How many columns further right the neighbour in this direction lies.
    pub open spec fn column_offset(self) -> int {
        match self {
            Direction::West | Direction::Northwest | Direction::Southwest => -1,
            Direction::North | Direction::South => 0,
            Direction::East | Direction::Northeast | Direction::Southeast => 1,
        }
    }

    /// Every direction stands at one of the eight positions of a neighbour
    /// list, and is the direction found there.
    pub proof fn lemma_index_round_trip(self)
        ensures
            0 <= self.index() < 8,
            Direction::spec_from_index(self.index()) == self,
    {
    }

    /// Turning round twice gives the direction back, and the way back
    /// undoes the step: the offsets of the opposite direction are the
    /// offsets with their sign turned.
    pub proof fn lemma_opposite(self)
        ensures
            self.opposite().opposite() == self,
            self.opposite() != self,
            self.opposite().row_offset() == -self.row_offset(),
            self.opposite().column_offset() == -self.column_offset(),
    {
    }

    /// The direction at position `i` of a neighbour list.
    pub fn from_index(i: usize) -> (d: Direction)
        requires
            i < 8,
        ensures
            d == Direction::spec_from_index(i as int),
            d.index() == i,
    {
        if i == 0 {
            Direction::West
        } else if i == 1 {
            Direction::East
        } else if i == 2 {
            Direction::North
        } else if i == 3 {
            Direction::Northwest
        } else if i == 4 {
            Direction::Northeast
        } else if i == 5 {
            Direction::South
        } else if i == 6 {
            Direction::Southwest
        } else {
            Direction::Southeast
        }
    }

    /// One less the row offset: 2 for a neighbour a row up, 0 for one a row
    /// down.
    pub fn row_toward_top(self) -> (steps: usize)
        ensures
            steps == 1 - self.row_offset(),
    {
        match self {
            Direction::North | Direction::Northwest | Direction::Northeast => 2,
            Direction::West | Direction::East => 1,
            Direction::South | Direction::Southwest | Direction::Southeast => 0,
        }
    }

    /// One less the column offset: 2 for a neighbour a column to the left, 0
    /// for one a column to the right.
    pub fn column_toward_left(self) -> (steps: usize)
        ensures
            steps == 1 - self.column_offset(),
    {
        match self {
            Direction::West | Direction::Northwest | Direction::Southwest => 2,
            Direction::North | Direction::South => 1,
            Direction::East | Direction::Northeast | Direction::Southeast => 0,
        }
    }

    /// The exec form of [`Direction::mask`].
    pub fn arrow_mask(self) -> (m: u8)
        ensures
            m == self.mask(),
    {
        match self {
            Direction::North => 0x80u8,
            Direction::Northeast => 0x40u8,
            Direction::East => 0x20u8,
            Direction::Southeast => 0x10u8,
            Direction::South => 0x08u8,
            Direction::Southwest => 0x04u8,
            Direction::West => 0x02u8,
            Direction::Northwest => 0x01u8,
        }
    }
}

/// How a card stands to one of its neighbours.
#[derive(Clone, Copy, Debug, PartialEq, Eq, Structural)]
pub enum ArrowRelation {
    Ignore,
    Take,
    Battle,
}

/// The arrows of a card: one bit for each compass direction.
#[derive(Clone, Copy, Debug, PartialEq, Eq, Structural)]
pub struct Arrows {
    pub flags: u8,
}

/// What a single mask bit does to another single mask bit when it is set or
/// cleared in `f`.
proof fn lemma_single_bits(f: u8, m: u8, n: u8)
    by (bit_vector)
    requires
        m == 1 || m == 2 || m == 4 || m == 8 || m == 16 || m == 32 || m == 64 || m == 128,
        n == 1 || n == 2 || n == 4 || n == 8 || n == 16 || n == 32 || n == 64 || n == 128,
    ensures
        ((f | m) & n != 0) == (m == n || f & n != 0),
        ((f & !m) & n != 0) == (m != n && f & n != 0),
{
}

impl Default for Arrows {
    fn default() -> (r: Self)
        ensures
            r.flags == 0,
    {
        Arrows { flags: 0 }
    }
}

impl Arrows {
    /// Whether the card has an arrow in direction `d`.
    pub open spec fn points(self, d: Direction) -> bool {
        self.flags & d.mask() != 0
    }

    /// These arrows with the one in direction `d` switched on or off.
    pub open spec fn with(self, d: Direction, status: bool) -> Arrows {
        if status {
            Arrows { flags: self.flags | d.mask() }
        } else {
            Arrows { flags: self.flags & !d.mask() }
        }
    }

    /// The relation of a card with these arrows to a neighbour with the
    /// arrows `other` that lies in `direction`: nothing without an arrow
    /// towards it, a battle where it points back, a capture where it does not.
    pub open spec fn relation(self, direction: Direction, other: Arrows) -> ArrowRelation {
        if !self.points(direction) {
            ArrowRelation::Ignore
        } else if other.points(direction.opposite()) {
            ArrowRelation::Battle
        } else {
            ArrowRelation::Take
        }
    }

    /// A battle is mutual: a card battles its neighbour exactly when the
    /// neighbour, looking back, battles the card.
    pub proof fn lemma_battle_is_mutual(self, direction: Direction, other: Arrows)
        ensures
            (self.relation(direction, other) == ArrowRelation::Battle) == (other.relation(
                direction.opposite(),
                self,
            ) == ArrowRelation::Battle),
    {
        direction.lemma_opposite();
    }

    /// Switching one arrow sets that arrow and leaves the seven others as
    /// they were.
    pub proof fn lemma_with_points(self, d: Direction, status: bool, e: Direction)
        ensures
            self.with(d, status).points(e) == (if d == e {
                status
            } else {
                self.points(e)
            }),
    {
        lemma_single_bits(self.flags, d.mask(), e.mask());
    }

    pub fn from_flags(flags: u8) -> (r: Self)
        ensures
            r.flags == flags,
    {
        Arrows { flags }
    }

    /// Whether there is an arrow in `direction`.
    pub fn has(&self, direction: Direction) -> (b: bool)
        ensures
            b == self.points(direction),
    {
        (self.flags & direction.arrow_mask()) != 0
    }

    /// Switches the arrow in `direction` on or off.
    pub fn set(&mut self, direction: Direction, status: bool)
        ensures
            *final(self) == old(self).with(direction, status),
            forall|e: Direction| #[trigger]
                final(self).points(e) == (if direction == e {
                    status
                } else {
                    old(self).points(e)
                }),
    {
        let m: u8 = direction.arrow_mask();
        if status {
            self.flags |= m;
        } else {
            self.flags &= !m;
        }
        proof {
            assert forall|e: Direction| #[trigger]
                self.points(e) == (if direction == e {
                    status
                } else {
                    old(self).points(e)
                }) by {
                old(self).lemma_with_points(direction, status, e);
            }
        }
    }

    pub fn relation_from(&self, direction: Direction, other: &Arrows) -> (r: ArrowRelation)
        ensures
            r == self.relation(direction, *other),
            r == ArrowRelation::Battle <==> self.points(direction) && other.points(
                direction.opposite(),
            ),
            r == ArrowRelation::Take <==> self.points(direction) && !other.points(
                direction.opposite(),
            ),
            r == ArrowRelation::Ignore <==> !self.points(direction),
    {
        let (attack, defend) = match direction {
            Direction::North => (self.north(), other.south()),
            Direction::Northeast => (self.northeast(), other.southwest()),
            Direction::East => (self.east(), other.west()),
            Direction::Southeast => (self.southeast(), other.northwest()),
            Direction::South => (self.south(), other.north()),
            Direction::Southwest => (self.southwest(), other.northeast()),
            Direction::West => (self.west(), other.east()),
            Direction::Northwest => (self.northwest(), other.southeast()),
        };
        if attack && defend {
            ArrowRelation::Battle
        } else if attack {
            ArrowRelation::Take
        } else {
            ArrowRelation::Ignore
        }
    }

    pub fn north(&self) -> (b: bool)
        ensures
            b == self.points(Direction::North),
    {
        self.has(Direction::North)
    }

    pub fn set_north(&mut self, status: bool)
        ensures
            *final(self) == old(self).with(Direction::North, status),
            forall|e: Direction| #[trigger]
                final(self).points(e) == (if e == Direction::North {
                    status
                } else {
                    old(self).points(e)
                }),
    {
        self.set(Direction::North, status)
    }

    pub fn northeast(&self) -> (b: bool)
        ensures
            b == self.points(Direction::Northeast),
    {
        self.has(Direction::Northeast)
    }

    pub fn set_northeast(&mut self, status: bool)
        ensures
            *final(self) == old(self).with(Direction::Northeast, status),
            forall|e: Direction| #[trigger]
                final(self).points(e) == (if e == Direction::Northeast {
                    status
                } else {
                    old(self).points(e)
                }),
    {
        self.set(Direction::Northeast, status)
    }

    pub fn east(&self) -> (b: bool)
        ensures
            b == self.points(Direction::East),
    {
        self.has(Direction::East)
    }

    pub fn set_east(&mut self, status: bool)
        ensures
            *final(self) == old(self).with(Direction::East, status),
            forall|e: Direction| #[trigger]
                final(self).points(e) == (if e == Direction::East {
                    status
                } else {
                    old(self).points(e)
                }),
    {
        self.set(Direction::East, status)
    }

    pub fn southeast(&self) -> (b: bool)
        ensures
            b == self.points(Direction::Southeast),
    {
        self.has(Direction::Southeast)
    }

    pub fn set_southeast(&mut self, status: bool)
        ensures
            *final(self) == old(self).with(Direction::Southeast, status),
            forall|e: Direction| #[trigger]
                final(self).points(e) == (if e == Direction::Southeast {
                    status
                } else {
                    old(self).points(e)
                }),
    {
        self.set(Direction::Southeast, status)
    }

    pub fn south(&self) -> (b: bool)
        ensures
            b == self.points(Direction::South),
    {
        self.has(Direction::South)
    }

    pub fn set_south(&mut self, status: bool)
        ensures
            *final(self) == old(self).with(Direction::South, status),
            forall|e: Direction| #[trigger]
                final(self).points(e) == (if e == Direction::South {
                    status
                } else {
                    old(self).points(e)
                }),
    {
        self.set(Direction::South, status)
    }

    pub fn southwest(&self) -> (b: bool)
        ensures
            b == self.points(Direction::Southwest),
    {
        self.has(Direction::Southwest)
    }

    pub fn set_southwest(&mut self, status: bool)
        ensures
            *final(self) == old(self).with(Direction::Southwest, status),
            forall|e: Direction| #[trigger]
                final(self).points(e) == (if e == Direction::Southwest {
                    status
                } else {
                    old(self).points(e)
                }),
    {
        self.set(Direction::Southwest, status)
    }

    pub fn west(&self) -> (b: bool)
        ensures
            b == self.points(Direction::West),
    {
        self.has(Direction::West)
    }

    pub fn set_west(&mut self, status: bool)
        ensures
            *final(self) == old(self).with(Direction::West, status),
            forall|e: Direction| #[trigger]
                final(self).points(e) == (if e == Direction::West {
                    status
                } else {
                    old(self).points(e)
                }),
    {
        self.set(Direction::West, status)
    }

    pub fn northwest(&self) -> (b: bool)
        ensures
            b == self.points(Direction::Northwest),
    {
        self.has(Direction::Northwest)
    }

    pub fn set_northwest(&mut self, status: bool)
        ensures
            *final(self) == old(self).with(Direction::Northwest, status),
            forall|e: Direction| #[trigger]
                final(self).points(e) == (if e == Direction::Northwest {
                    status
                } else {
                    old(self).points(e)
                }),
    {
        self.set(Direction::Northwest, status)
    }
}

} // verus!
