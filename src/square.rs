//! Board coordinates: files, ranks, squares and partially known squares.
use vstd::prelude::*;

verus! {

/// A column of the board, from the queen's side (A) to the king's side (H).
#[derive(Clone, Copy, Debug, PartialEq, Eq, Structural, Hash)]
pub enum File {
    A,
    B,
    C,
    D,
    E,
    F,
    G,
    H,
}

/// A row of the board, from white's back rank (R1) to black's (R8).
#[derive(Clone, Copy, Debug, PartialEq, Eq, Structural, Hash)]
pub enum Rank {
    R1,
    R2,
    R3,
    R4,
    R5,
    R6,
    R7,
    R8,
}

/// The kind of a chess piece.
#[derive(Clone, Copy, Debug, PartialEq, Eq, Structural, Hash)]
pub enum Piece {
    Pawn,
    Rook,
    Knight,
    Bishop,
    Queen,
    King,
}

impl File {
    /// Zero-based column number, A being 0.
    pub open spec fn spec_index(self) -> int {
        match self {
            File::A => 0,
            File::B => 1,
            File::C => 2,
            File::D => 3,
            File::E => 4,
            File::F => 5,
            File::G => 6,
            File::H => 7,
        }
    }

    /// The file with the given zero-based column number (meaningful for 0..8).
    pub open spec fn spec_from_index(i: int) -> File {
        if i <= 0 {
            File::A
        } else if i == 1 {
            File::B
        } else if i == 2 {
            File::C
        } else if i == 3 {
            File::D
        } else if i == 4 {
            File::E
        } else if i == 5 {
            File::F
        } else if i == 6 {
            File::G
        } else {
            File::H
        }
    }

    pub fn index(self) -> (r: u8)
        ensures
            r as int == self.spec_index(),
    {
        match self {
            File::A => 0,
            File::B => 1,
            File::C => 2,
            File::D => 3,
            File::E => 4,
            File::F => 5,
            File::G => 6,
            File::H => 7,
        }
    }

    pub fn from_index(i: u8) -> (r: Option<File>)
        ensures
            i < 8 ==> r == Some(File::spec_from_index(i as int)),
            i >= 8 ==> r is None,
    {
        match i {
            0 => Some(File::A),
            1 => Some(File::B),
            2 => Some(File::C),
            3 => Some(File::D),
            4 => Some(File::E),
            5 => Some(File::F),
            6 => Some(File::G),
            7 => Some(File::H),
            _ => None,
        }
    }
}

impl Rank {
    /// Zero-based row number, R1 being 0.
    pub open spec fn spec_index(self) -> int {
        match self {
            Rank::R1 => 0,
            Rank::R2 => 1,
            Rank::R3 => 2,
            Rank::R4 => 3,
            Rank::R5 => 4,
            Rank::R6 => 5,
            Rank::R7 => 6,
            Rank::R8 => 7,
        }
    }

    /// The rank with the given zero-based row number (meaningful for 0..8).
    pub open spec fn spec_from_index(i: int) -> Rank {
        if i <= 0 {
            Rank::R1
        } else if i == 1 {
            Rank::R2
        } else if i == 2 {
            Rank::R3
        } else if i == 3 {
            Rank::R4
        } else if i == 4 {
            Rank::R5
        } else if i == 5 {
            Rank::R6
        } else if i == 6 {
            Rank::R7
        } else {
            Rank::R8
        }
    }

    pub fn index(self) -> (r: u8)
        ensures
            r as int == self.spec_index(),
    {
        match self {
            Rank::R1 => 0,
            Rank::R2 => 1,
            Rank::R3 => 2,
            Rank::R4 => 3,
            Rank::R5 => 4,
            Rank::R6 => 5,
            Rank::R7 => 6,
            Rank::R8 => 7,
        }
    }

    pub fn from_index(i: u8) -> (r: Option<Rank>)
        ensures
            i < 8 ==> r == Some(Rank::spec_from_index(i as int)),
            i >= 8 ==> r is None,
    {
        match i {
            0 => Some(Rank::R1),
            1 => Some(Rank::R2),
            2 => Some(Rank::R3),
            3 => Some(Rank::R4),
            4 => Some(Rank::R5),
            5 => Some(Rank::R6),
            6 => Some(Rank::R7),
            7 => Some(Rank::R8),
            _ => None,
        }
    }
}

/// A fully known square of the board.
#[derive(Clone, Copy, Debug, PartialEq, Eq, Structural, Hash)]
pub struct Square {
    pub file: File,
    pub rank: Rank,
}

/// Whether a column/row pair lies on the 8x8 board.
pub open spec fn on_board(col: int, row: int) -> bool {
    0 <= col < 8 && 0 <= row < 8
}

impl Square {
    pub open spec fn col(self) -> int {
        self.file.spec_index()
    }

    pub open spec fn row(self) -> int {
        self.rank.spec_index()
    }

    /// The square at a column/row pair (meaningful on the board).
    pub open spec fn at(col: int, row: int) -> Square {
        Square { file: File::spec_from_index(col), rank: Rank::spec_from_index(row) }
    }

    /// The square reached by moving `df` files and `dr` ranks, if it is on the board.
    #[verifier::opaque]
    pub open spec fn spec_offset(self, df: int, dr: int) -> Option<Square> {
        if on_board(self.col() + df, self.row() + dr) {
            Some(Square::at(self.col() + df, self.row() + dr))
        } else {
            None
        }
    }

    pub fn new_known(file: File, rank: Rank) -> (r: Square)
        ensures
            r == (Square { file, rank }),
    {
        Square { file, rank }
    }

    /// The square `file_offset` files and `rank_offset` ranks away, or `None` off the board.
    pub fn new_with_offset(&self, file_offset: i32, rank_offset: i32) -> (r: Option<Square>)
        ensures
            r == self.spec_offset(file_offset as int, rank_offset as int),
    {
        proof {
            reveal(Square::spec_offset);
        }
        let col: i64 = self.file.index() as i64 + file_offset as i64;
        let row: i64 = self.rank.index() as i64 + rank_offset as i64;
        if 0 <= col && col < 8 && 0 <= row && row < 8 {
            let file = File::from_index(col as u8);
            let rank = Rank::from_index(row as u8);
            match (file, rank) {
                (Some(f), Some(r)) => Some(Square { file: f, rank: r }),
                _ => None,
            }
        } else {
            None
        }
    }
}

/// A square as written in a move's origin: its file, its rank, both or neither may be known.
#[derive(Clone, Copy, Debug, PartialEq, Eq, Structural, Hash)]
pub struct PartialSquare {
    pub file: Option<File>,
    pub rank: Option<Rank>,
}

impl PartialSquare {
    pub fn new(file: Option<File>, rank: Option<Rank>) -> (r: PartialSquare)
        ensures
            r == (PartialSquare { file, rank }),
    {
        PartialSquare { file, rank }
    }

    pub fn file(&self) -> (r: Option<File>)
        ensures
            r == self.file,
    {
        self.file
    }

    pub fn rank(&self) -> (r: Option<Rank>)
        ensures
            r == self.rank,
    {
        self.rank
    }

    /// The square, when both its file and its rank are known.
    pub open spec fn spec_known(self) -> Option<Square> {
        match (self.file, self.rank) {
            (Some(f), Some(r)) => Some(Square { file: f, rank: r }),
            _ => None,
        }
    }

    pub fn get_known(&self) -> (r: Option<Square>)
        ensures
            r == self.spec_known(),
    {
        match (self.file, self.rank) {
            (Some(f), Some(r)) => Some(Square { file: f, rank: r }),
            _ => None,
        }
    }
}

} // verus!
