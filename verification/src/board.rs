//! The nine-cell board and specifications for counting its blank cells.

use vstd::prelude::*;

verus! {

/// One cell of the 3x3 grid: empty, or marked by one of the two players.
/// X always moves first.
#[derive(Clone, Copy, Debug, PartialEq, Eq, Structural)]
pub enum Piece {
    Blank,
    X,
    O,
}

impl Default for Piece {
    fn default() -> (r: Self)
        ensures
            r == Piece::Blank,
    {
        Piece::Blank
    }
}

impl Piece {
    /// The single character used to display this cell.
    pub fn glyph(&self) -> (c: char)
        ensures
            *self == Piece::Blank ==> c == ' ',
            *self == Piece::X ==> c == 'X',
            *self == Piece::O ==> c == 'O',
    {
        match *self {
            Piece::Blank => ' ',
            Piece::X => 'X',
            Piece::O => 'O',
        }
    }
}

/// A tic-tac-toe position: nine cells in row-major order.
///
/// Rows are cells {0,1,2}, {3,4,5} and {6,7,8}.
pub type Board = [Piece; 9];

/// 1 if the cell is blank, 0 otherwise.
pub open spec fn cell_blank(p: Piece) -> nat {
    if p == Piece::Blank {
        1nat
    } else {
        0nat
    }
}

/// Number of blank cells among the first `n` cells of the board.
pub open spec fn blanks_upto(s: Seq<Piece>, n: int) -> nat
    decreases n,
{
    if n <= 0 {
        0
    } else {
        blanks_upto(s, n - 1) + cell_blank(s[n - 1])
    }
}

/// Number of blank cells on the whole board.
pub open spec fn blanks(s: Seq<Piece>) -> nat {
    blanks_upto(s, s.len() as int)
}

/// Writing one cell changes the blank count by exactly the difference
/// between the old and the new cell.
pub proof fn lemma_blanks_upto_update(s: Seq<Piece>, i: int, p: Piece, n: int)
    requires
        0 <= i < s.len(),
        n <= s.len(),
    ensures
        i < n ==> blanks_upto(s.update(i, p), n) + cell_blank(s[i]) == blanks_upto(s, n)
            + cell_blank(p),
        n <= i ==> blanks_upto(s.update(i, p), n) == blanks_upto(s, n),
    decreases n,
{
    if n > 0 {
        lemma_blanks_upto_update(s, i, p, n - 1);
    }
}

/// Writing one cell changes the blank count of the whole board accordingly.
pub proof fn lemma_blanks_update(s: Seq<Piece>, i: int, p: Piece)
    requires
        0 <= i < s.len(),
    ensures
        blanks(s.update(i, p)) + cell_blank(s[i]) == blanks(s) + cell_blank(p),
{
    lemma_blanks_upto_update(s, i, p, s.len() as int);
}

/// A positive blank count means some cell in the counted range is blank.
pub proof fn lemma_blanks_upto_exists(s: Seq<Piece>, n: int)
    requires
        blanks_upto(s, n) > 0,
    ensures
        exists|i: int| 0 <= i < n && s[i] == Piece::Blank,
    decreases n,
{
    if n > 0 {
        if s[n - 1] == Piece::Blank {
            assert(0 <= n - 1 < n && s[n - 1] == Piece::Blank);
        } else {
            lemma_blanks_upto_exists(s, n - 1);
        }
    }
}

/// Counting over a longer prefix never counts fewer blanks.
pub proof fn lemma_blanks_upto_le(s: Seq<Piece>, x: int, n: int)
    requires
        x <= n,
    ensures
        blanks_upto(s, x) <= blanks_upto(s, n),
    decreases n - x,
{
    if x < n {
        lemma_blanks_upto_le(s, x, n - 1);
    }
}

/// A range of all-blank cells counts its full length.
pub proof fn lemma_blanks_upto_all_blank(s: Seq<Piece>, n: int)
    requires
        0 <= n,
        forall|i: int| 0 <= i < n ==> s[i] == Piece::Blank,
    ensures
        blanks_upto(s, n) == n,
    decreases n,
{
    if n > 0 {
        lemma_blanks_upto_all_blank(s, n - 1);
    }
}

/// A board with every cell blank.
pub fn empty_board() -> (b: Board)
    ensures
        forall|i: int| 0 <= i < 9 ==> b@[i] == Piece::Blank,
        blanks(b@) == 9,
{
    let b: Board = [Piece::Blank; 9];
    proof {
        lemma_blanks_upto_all_blank(b@, 9);
    }
    b
}

} // verus!
