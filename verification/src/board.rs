//! Board data model: colors, positions, pieces, moves, and the board
//! well-formedness invariant that the rules engine maintains.

use vstd::prelude::*;

verus! {

/// The two sides of a game. White moves toward increasing lines,
/// Black toward decreasing lines.
#[derive(Clone, Copy, PartialEq, Eq, Structural, Debug, Hash)]
pub enum PieceColor {
    White,
    Black,
}

impl PieceColor {
    /// The opposing color.
    pub open spec fn spec_opposite(self) -> PieceColor {
        match self {
            PieceColor::White => PieceColor::Black,
            PieceColor::Black => PieceColor::White,
        }
    }

    pub fn opposite(&self) -> (r: Self)
        ensures
            r == self.spec_opposite(),
    {
        if *self == PieceColor::White {
            PieceColor::Black
        } else {
            PieceColor::White
        }
    }
}

/// A square of the board. Columns and lines of squares that are in play
/// range over 1..=8; values outside that range denote off-board squares.
#[derive(Clone, Copy, PartialEq, Eq, Structural, Debug)]
pub struct CheckerPosition {
    pub column: u8,
    pub line: u8,
}

/// A destination square is playable only inside the 8x8 board.
pub open spec fn pos_on_board(p: CheckerPosition) -> bool {
    1 <= p.column <= 8 && 1 <= p.line <= 8
}

pub fn is_allowable_position(position: &CheckerPosition) -> (r: bool)
    ensures
        r == pos_on_board(*position),
{
    (1 <= position.column) && (position.column <= 8) && (1 <= position.line) && (position.line
        <= 8)
}

/// One piece: a per-color stable identifier, a crowned (king) flag that is
/// set at promotion and never cleared, and the square it occupies.
#[derive(Clone, Copy, PartialEq, Eq, Structural, Debug)]
pub struct CheckerPiece {
    pub id: u8,
    pub is_crowned: bool,
    pub position: CheckerPosition,
}

/// A candidate move for a piece: where it lands, and, for a capturing
/// move, the square of the opponent piece it removes.
#[derive(Clone, Copy, PartialEq, Eq, Structural, Debug)]
pub struct AllowableMove {
    pub checker_id: u8,
    pub next_position: CheckerPosition,
    pub captured_piece_position: Option<CheckerPosition>,
}

/// The payload exchanged between the two players for one applied move.
#[derive(Clone, Copy, PartialEq, Eq, Structural, Debug)]
pub struct GameData {
    pub opponent_piece_color: PieceColor,
    pub piece_previous_position: CheckerPosition,
    pub piece_new_position: CheckerPosition,
    pub captured_piece_position: Option<CheckerPosition>,
    pub is_opponent_step: bool,
}

/// A full board: the piece collection of each color.
#[derive(Clone, Debug)]
pub struct Board {
    pub white: Vec<CheckerPiece>,
    pub black: Vec<CheckerPiece>,
}

/// Every listed piece stands on a square of the board.
pub open spec fn all_on_board(s: Seq<CheckerPiece>) -> bool {
    forall|i: int| 0 <= i < s.len() ==> pos_on_board(#[trigger] s[i].position)
}

/// No two listed pieces share a square.
pub open spec fn positions_distinct(s: Seq<CheckerPiece>) -> bool {
    forall|i: int, j: int|
        0 <= i < j < s.len() ==> (#[trigger] s[i]).position != (#[trigger] s[j]).position
}

/// No piece of `a` shares a square with a piece of `b`.
pub open spec fn no_overlap(a: Seq<CheckerPiece>, b: Seq<CheckerPiece>) -> bool {
    forall|i: int, j: int|
        0 <= i < a.len() && 0 <= j < b.len() ==> (#[trigger] a[i]).position != (
        #[trigger] b[j]).position
}

/// No two listed pieces share an identifier.
pub open spec fn ids_unique(s: Seq<CheckerPiece>) -> bool {
    forall|i: int, j: int| 0 <= i < j < s.len() ==> (#[trigger] s[i]).id != (#[trigger] s[j]).id
}

/// Some listed piece occupies square `p`.
pub open spec fn occ(s: Seq<CheckerPiece>, p: CheckerPosition) -> bool {
    exists|i: int| 0 <= i < s.len() && (#[trigger] s[i]).position == p
}

impl Board {
    /// The pieces of one color, as a sequence.
    pub open spec fn spec_pieces(self, c: PieceColor) -> Seq<CheckerPiece> {
        match c {
            PieceColor::White => self.white@,
            PieceColor::Black => self.black@,
        }
    }

    /// A square is occupied if a piece of either color sits on it.
    pub open spec fn spec_occupied(self, p: CheckerPosition) -> bool {
        occ(self.white@, p) || occ(self.black@, p)
    }

    /// Board invariant: all pieces on-board, no shared squares (across both
    /// colors), and identifiers unique within each color.
    pub open spec fn wf(self) -> bool {
        &&& all_on_board(self.white@)
        &&& all_on_board(self.black@)
        &&& positions_distinct(self.white@)
        &&& positions_distinct(self.black@)
        &&& no_overlap(self.white@, self.black@)
        &&& ids_unique(self.white@)
        &&& ids_unique(self.black@)
    }

    pub fn pieces(&self, c: PieceColor) -> (r: &Vec<CheckerPiece>)
        ensures
            r@ == self.spec_pieces(c),
    {
        match c {
            PieceColor::White => &self.white,
            PieceColor::Black => &self.black,
        }
    }

    /// Whether any piece of either color occupies `p`.
    pub fn occupied(&self, p: &CheckerPosition) -> (r: bool)
        ensures
            r == self.spec_occupied(*p),
    {
        proof {
            lemma_find_pos_props(self.white@, *p);
            lemma_find_pos_props(self.black@, *p);
        }
        find_position(&self.white, p).is_some() || find_position(&self.black, p).is_some()
    }
}

/// Index of the first piece on square `p` at or after index `i`, or -1.
pub open spec fn find_pos_from(s: Seq<CheckerPiece>, p: CheckerPosition, i: int) -> int
    decreases s.len() - i,
    when 0 <= i <= s.len()
{
    if i >= s.len() {
        -1
    } else if s[i].position == p {
        i
    } else {
        find_pos_from(s, p, i + 1)
    }
}

/// Index of the first piece on square `p`, or -1 if the square is free.
pub open spec fn find_pos(s: Seq<CheckerPiece>, p: CheckerPosition) -> int {
    find_pos_from(s, p, 0)
}

pub proof fn lemma_find_pos_from_skip(s: Seq<CheckerPiece>, p: CheckerPosition, i: int)
    requires
        0 <= i <= s.len(),
        forall|j: int| 0 <= j < i ==> (#[trigger] s[j]).position != p,
    ensures
        find_pos(s, p) == find_pos_from(s, p, i),
    decreases i,
{
    if i > 0 {
        lemma_find_pos_from_skip(s, p, i - 1);
    }
}

/// Characterization of `find_pos`: either no piece sits on `p`, or the
/// result is the first index of a piece on `p`.
pub proof fn lemma_find_pos_props(s: Seq<CheckerPiece>, p: CheckerPosition)
    ensures
        find_pos(s, p) == -1 ==> !occ(s, p),
        find_pos(s, p) != -1 ==> 0 <= find_pos(s, p) < s.len() && s[find_pos(s, p)].position == p,
        find_pos(s, p) != -1 ==> forall|j: int|
            0 <= j < find_pos(s, p) ==> (#[trigger] s[j]).position != p,
{
    lemma_find_pos_props_from(s, p, 0);
}

proof fn lemma_find_pos_props_from(s: Seq<CheckerPiece>, p: CheckerPosition, i: int)
    requires
        0 <= i <= s.len(),
    ensures
        find_pos_from(s, p, i) == -1 ==> forall|j: int|
            i <= j < s.len() ==> (#[trigger] s[j]).position != p,
        find_pos_from(s, p, i) != -1 ==> i <= find_pos_from(s, p, i) < s.len() && s[find_pos_from(
            s,
            p,
            i,
        )].position == p,
        find_pos_from(s, p, i) != -1 ==> forall|j: int|
            i <= j < find_pos_from(s, p, i) ==> (#[trigger] s[j]).position != p,
    decreases s.len() - i,
{
    if i < s.len() && s[i].position != p {
        lemma_find_pos_props_from(s, p, i + 1);
    }
}

/// Index of the first piece in `checker_pieces` that occupies `position`.
pub fn find_position(checker_pieces: &Vec<CheckerPiece>, position: &CheckerPosition) -> (r: Option<
    usize,
>)
    ensures
        r is Some <==> find_pos(checker_pieces@, *position) >= 0,
        r is Some ==> r->Some_0 as int == find_pos(checker_pieces@, *position),
        r is None ==> !occ(checker_pieces@, *position),
{
    let n = checker_pieces.len();
    let mut i: usize = 0;
    while i < n
        invariant
            0 <= i <= n,
            n == checker_pieces@.len(),
            forall|j: int| 0 <= j < i ==> (#[trigger] checker_pieces@[j]).position != *position,
        decreases n - i,
    {
        if checker_pieces[i].position == *position {
            proof {
                lemma_find_pos_from_skip(checker_pieces@, *position, i as int);
            }
            return Some(i);
        }
        i = i + 1;
    }
    proof {
        lemma_find_pos_from_skip(checker_pieces@, *position, n as int);
    }
    None
}

} // verus!
