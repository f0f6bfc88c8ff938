use vstd::prelude::*;

verus! {

/// The two sides.
#[derive(Clone, Copy, Debug, PartialEq, Eq, Structural)]
pub enum PieceColor {
    White,
    Black,
}

/// The six kinds of piece.
#[derive(Clone, Copy, Debug, PartialEq, Eq, Structural)]
pub enum PieceKind {
    Pawn,
    Knight,
    Bishop,
    Rook,
    Queen,
    King,
}

/// A square of the board: rank 0 is White's back rank, file 0 is the a-file.
#[derive(Clone, Copy, Debug, PartialEq, Eq, Structural)]
pub struct Square {
    pub rank: u8,
    pub file: u8,
}

/// A piece record: a stable identity, what it is, where it stands, and
/// whether it is still on the board.
#[derive(Clone, Copy, Debug, PartialEq, Eq, Structural)]
pub struct Piece {
    pub id: usize,
    pub kind: PieceKind,
    pub color: PieceColor,
    pub square: Square,
    pub alive: bool,
}

/// A move as handed to the rules engine.
#[derive(Clone, Copy, Debug, PartialEq, Eq, Structural)]
pub struct Move {
    pub from: Square,
    pub to: Square,
    pub promotion: Option<PieceKind>,
}

/// What an accepted move did, for the presentation layer.
#[derive(Clone, Copy, Debug, PartialEq, Eq, Structural)]
pub enum Effect {
    Moved { piece: usize, to: Square },
    Captured { piece: usize },
    Promoted { piece: usize, kind: PieceKind },
    GameEnded { winner: PieceColor },
}

/// The click-driven selection.
#[derive(Clone, Copy, Debug, PartialEq, Eq, Structural)]
pub enum Selection {
    Idle,
    SquareSelected(Square),
    PieceSelected(Square, usize),
}

pub open spec fn opposite(c: PieceColor) -> PieceColor {
    match c {
        PieceColor::White => PieceColor::Black,
        PieceColor::Black => PieceColor::White,
    }
}

impl PieceColor {
    /// The other side.
    pub fn other(self) -> (r: PieceColor)
        ensures
            r == opposite(self),
    {
        match self {
            PieceColor::White => PieceColor::Black,
            PieceColor::Black => PieceColor::White,
        }
    }
}

impl Square {
    pub open spec fn valid(self) -> bool {
        self.rank < 8 && self.file < 8
    }

    /// Builds a square from its rank and file.
    pub fn new(rank: u8, file: u8) -> (r: Square)
        requires
            rank < 8,
            file < 8,
        ensures
            r.valid(),
            r.rank == rank,
            r.file == file,
    {
        Square { rank, file }
    }
}

/// The rank on which a pawn of this color promotes.
pub open spec fn last_rank(c: PieceColor) -> u8 {
    match c {
        PieceColor::White => 7,
        PieceColor::Black => 0,
    }
}

/// The rank on which a side's king and rooks start.
pub open spec fn home_rank(c: PieceColor) -> u8 {
    match c {
        PieceColor::White => 0,
        PieceColor::Black => 7,
    }
}

/// The square one step back from `s` for a pawn of color `c`, if any.
pub open spec fn behind(s: Square, c: PieceColor) -> Option<Square> {
    match c {
        PieceColor::White => if s.rank >= 1 {
            Some(Square { rank: (s.rank - 1) as u8, file: s.file })
        } else {
            None
        },
        PieceColor::Black => if s.rank < 7 {
            Some(Square { rank: (s.rank + 1) as u8, file: s.file })
        } else {
            None
        },
    }
}

/// The square one step back from `s` for a pawn of color `c`, if any.
pub fn square_behind(s: Square, c: PieceColor) -> (r: Option<Square>)
    requires
        s.valid(),
    ensures
        r == behind(s, c),
        r matches Some(b) ==> b.valid(),
{
    match c {
        PieceColor::White => if s.rank >= 1 {
            Some(Square { rank: s.rank - 1, file: s.file })
        } else {
            None
        },
        PieceColor::Black => if s.rank < 7 {
            Some(Square { rank: s.rank + 1, file: s.file })
        } else {
            None
        },
    }
}

} // verus!
