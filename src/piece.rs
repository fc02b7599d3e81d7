use vstd::prelude::*;

use crate::command::Command;

verus! {

/// The four orientations of a piece, in clockwise order.
#[derive(Clone, Copy, Debug, PartialEq, Eq, Structural)]
pub enum Orientation {
    North,
    East,
    South,
    West,
}

/// Index of an orientation in a shape's tables.
pub open spec fn spec_offset(o: Orientation) -> int {
    match o {
        Orientation::North => 0,
        Orientation::East => 1,
        Orientation::South => 2,
        Orientation::West => 3,
    }
}

/// The clockwise neighbour in the cycle North, East, South, West.
pub open spec fn spec_clockwise(o: Orientation) -> Orientation {
    match o {
        Orientation::North => Orientation::East,
        Orientation::East => Orientation::South,
        Orientation::South => Orientation::West,
        Orientation::West => Orientation::North,
    }
}

/// The counter-clockwise neighbour in the cycle North, East, South, West.
pub open spec fn spec_counter_clockwise(o: Orientation) -> Orientation {
    match o {
        Orientation::North => Orientation::West,
        Orientation::East => Orientation::North,
        Orientation::South => Orientation::East,
        Orientation::West => Orientation::South,
    }
}

/// The orientation reached from `o` by a rotation command; other commands
/// leave it as it is.
pub open spec fn spec_rotate(o: Orientation, c: Command) -> Orientation {
    match c {
        Command::Clockwise => spec_clockwise(o),
        Command::CounterClockwise => spec_counter_clockwise(o),
        _ => o,
    }
}

impl Orientation {
    /// The orientation after a rotation command.
    pub fn rotate(&self, command: Command) -> (r: Orientation)
        ensures
            r == spec_rotate(*self, command),
    {
        match command {
            Command::Clockwise => match self {
                Orientation::North => Orientation::East,
                Orientation::East => Orientation::South,
                Orientation::South => Orientation::West,
                Orientation::West => Orientation::North,
            },
            Command::CounterClockwise => match self {
                Orientation::North => Orientation::West,
                Orientation::East => Orientation::North,
                Orientation::South => Orientation::East,
                Orientation::West => Orientation::South,
            },
            _ => *self,
        }
    }

    /// Index of the orientation in a shape's tables.
    pub fn offset(&self) -> (r: usize)
        ensures
            r == spec_offset(*self),
    {
        match self {
            Orientation::North => 0,
            Orientation::East => 1,
            Orientation::South => 2,
            Orientation::West => 3,
        }
    }
}

/// The seven shapes. Each has a 4x4 mask and a score for each orientation.
#[derive(Clone, Copy, Debug, PartialEq, Eq, Structural)]
pub enum Piece {
    Bar,
    Tee,
    Square,
    Zee,
    ReverseZee,
    El,
    ReverseEl,
}

/// Number of shapes in the catalogue.
pub const PIECE_COUNT: usize = 7;

/// The shape at position `i` of the catalogue.
pub open spec fn spec_piece_at(i: int) -> Piece {
    if i == 0 {
        Piece::Bar
    } else if i == 1 {
        Piece::Tee
    } else if i == 2 {
        Piece::Square
    } else if i == 3 {
        Piece::Zee
    } else if i == 4 {
        Piece::ReverseZee
    } else if i == 5 {
        Piece::El
    } else {
        Piece::ReverseEl
    }
}

/// Position of a shape in the catalogue.
pub open spec fn spec_index(p: Piece) -> int {
    match p {
        Piece::Bar => 0,
        Piece::Tee => 1,
        Piece::Square => 2,
        Piece::Zee => 3,
        Piece::ReverseZee => 4,
        Piece::El => 5,
        Piece::ReverseEl => 6,
    }
}

/// The mask of a shape in an orientation: 4 rows of 4 bits, the lowest
/// nibble being the top row and bit `c` of a nibble column `c`.
pub open spec fn spec_mask(p: Piece, o: Orientation) -> u16 {
    let i = spec_offset(o);
    match p {
        Piece::Bar => if i % 2 == 0 { 0x00f0u16 } else { 0x2222u16 },
        Piece::Tee => if i == 0 { 0x0270u16 } else if i == 1 { 0x0232u16 } else if i == 2 { 0x0072u16 } else { 0x0262u16 },
        Piece::Square => 0x0660u16,
        Piece::Zee => if i % 2 == 0 { 0x0360u16 } else { 0x0462u16 },
        Piece::ReverseZee => if i % 2 == 0 { 0x0630u16 } else { 0x0264u16 },
        Piece::El => if i == 0 { 0x0470u16 } else if i == 1 { 0x0322u16 } else if i == 2 { 0x0071u16 } else { 0x0226u16 },
        Piece::ReverseEl => if i == 0 { 0x0740u16 } else if i == 1 { 0x2230u16 } else if i == 2 { 0x0170u16 } else { 0x0622u16 },
    }
}

/// Points for locking a shape in an orientation.
pub open spec fn spec_points(p: Piece, o: Orientation) -> u32 {
    let i = spec_offset(o);
    match p {
        Piece::Bar => if i % 2 == 0 { 12u32 } else { 1u32 },
        Piece::Tee => if i == 0 { 6u32 } else if i == 1 { 5u32 } else if i == 2 { 2u32 } else { 1u32 },
        Piece::Square => 4u32,
        Piece::Zee => if i % 2 == 0 { 5u32 } else { 3u32 },
        Piece::ReverseZee => if i % 2 == 0 { 5u32 } else { 3u32 },
        Piece::El => if i < 2 { 6u32 } else { 3u32 },
        Piece::ReverseEl => if i < 2 { 3u32 } else { 6u32 },
    }
}

/// The name of a shape, which is also how a display styles its cells.
pub open spec fn spec_name(p: Piece) -> Seq<char> {
    match p {
        Piece::Bar => seq!['B', 'a', 'r'],
        Piece::Tee => seq!['T', 'e', 'e'],
        Piece::Square => seq!['S', 'q', 'u', 'a', 'r', 'e'],
        Piece::Zee => seq!['Z', 'e', 'e'],
        Piece::ReverseZee => seq!['R', 'e', 'v', 'e', 'r', 's', 'e', 'Z', 'e', 'e'],
        Piece::El => seq!['E', 'l'],
        Piece::ReverseEl => seq!['R', 'e', 'v', 'e', 'r', 's', 'e', 'E', 'l'],
    }
}

/// Relies on fastrand::usize: a value drawn from `0..n`, which panics only
/// on an empty range.
#[verifier::external_body]
fn random_below(n: usize) -> (r: usize)
    requires
        n > 0,
    ensures
        r < n,
{
    fastrand::usize(0..n)
}

impl Piece {
    /// Points for locking this shape in orientation `o`.
    pub fn points(&self, o: Orientation) -> (r: u32)
        ensures
            r == spec_points(*self, o),
    {
        let i = o.offset();
        match self {
            Piece::Bar => if i % 2 == 0 { 12 } else { 1 },
            Piece::Tee => if i == 0 { 6 } else if i == 1 { 5 } else if i == 2 { 2 } else { 1 },
            Piece::Square => 4,
            Piece::Zee => if i % 2 == 0 { 5 } else { 3 },
            Piece::ReverseZee => if i % 2 == 0 { 5 } else { 3 },
            Piece::El => if i < 2 { 6 } else { 3 },
            Piece::ReverseEl => if i < 2 { 3 } else { 6 },
        }
    }

    /// The 4x4 mask of this shape in orientation `o`.
    pub fn mask(&self, o: Orientation) -> (r: u16)
        ensures
            r == spec_mask(*self, o),
    {
        let i = o.offset();
        match self {
            Piece::Bar => if i % 2 == 0 { 0x00f0 } else { 0x2222 },
            Piece::Tee => if i == 0 { 0x0270 } else if i == 1 { 0x0232 } else if i == 2 { 0x0072 } else { 0x0262 },
            Piece::Square => 0x0660,
            Piece::Zee => if i % 2 == 0 { 0x0360 } else { 0x0462 },
            Piece::ReverseZee => if i % 2 == 0 { 0x0630 } else { 0x0264 },
            Piece::El => if i == 0 { 0x0470 } else if i == 1 { 0x0322 } else if i == 2 { 0x0071 } else { 0x0226 },
            Piece::ReverseEl => if i == 0 { 0x0740 } else if i == 1 { 0x2230 } else if i == 2 { 0x0170 } else { 0x0622 },
        }
    }

    /// The name of this shape.
    pub fn name(&self) -> (r: String)
        ensures
            r@ == spec_name(*self),
    {
        let s = match self {
            Piece::Bar => "Bar",
            Piece::Tee => "Tee",
            Piece::Square => "Square",
            Piece::Zee => "Zee",
            Piece::ReverseZee => "ReverseZee",
            Piece::El => "El",
            Piece::ReverseEl => "ReverseEl",
        };
        proof {
            reveal_strlit("Bar");
            reveal_strlit("Tee");
            reveal_strlit("Square");
            reveal_strlit("Zee");
            reveal_strlit("ReverseZee");
            reveal_strlit("El");
            reveal_strlit("ReverseEl");
        }
        s.to_string()
    }

    /// Position of this shape in the catalogue.
    pub fn index(&self) -> (r: usize)
        ensures
            r == spec_index(*self),
            r < PIECE_COUNT,
    {
        match self {
            Piece::Bar => 0,
            Piece::Tee => 1,
            Piece::Square => 2,
            Piece::Zee => 3,
            Piece::ReverseZee => 4,
            Piece::El => 5,
            Piece::ReverseEl => 6,
        }
    }

    /// The shape at position `i` of the catalogue, if there is one.
    pub fn from_index(i: usize) -> (r: Option<Piece>)
        ensures
            i < PIECE_COUNT ==> r == Some(spec_piece_at(i as int)),
            i >= PIECE_COUNT ==> r.is_none(),
    {
        if i == 0 {
            Some(Piece::Bar)
        } else if i == 1 {
            Some(Piece::Tee)
        } else if i == 2 {
            Some(Piece::Square)
        } else if i == 3 {
            Some(Piece::Zee)
        } else if i == 4 {
            Some(Piece::ReverseZee)
        } else if i == 5 {
            Some(Piece::El)
        } else if i == 6 {
            Some(Piece::ReverseEl)
        } else {
            None
        }
    }

    /// A shape drawn uniformly from the catalogue.
    pub fn random() -> (r: Piece) {
        let i = random_below(PIECE_COUNT);
        Piece::from_index(i).unwrap()
    }
}

} // verus!
