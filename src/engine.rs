use vstd::prelude::*;
use crate::types::{Move, PieceColor, PieceKind, Square};
use chess::{ChessMove, File, Rank};

verus! {

/// The rules engine's game record (`chess::Game`), held out of sight: the
/// library reads it only through the functions below.
#[verifier::external_body]
pub struct Engine {
    game: chess::Game,
}

/// The moves that the engine has recorded, in order.
pub uninterp spec fn moves_of(e: Engine) -> Seq<Move>;

/// Whether the engine accepts `mv` after the recorded moves `history`: the
/// game is not over and the move is legal in the position they lead to.
pub uninterp spec fn accepts(history: Seq<Move>, mv: Move) -> bool;

/// The side to move after `n` recorded moves from the starting position.
pub open spec fn side_after(n: nat) -> PieceColor {
    if n % 2 == 0 {
        PieceColor::White
    } else {
        PieceColor::Black
    }
}

/// Relies on chess::Game::new: a game from the standard starting position,
/// with no moves recorded.
#[verifier::external_body]
pub(crate) fn engine_new() -> (r: Engine)
    ensures
        moves_of(r) == Seq::<Move>::empty(),
{
    Engine { game: chess::Game::new() }
}

/// Relies on chess::Game::side_to_move: White when an even number of moves
/// has been made from a start with White to move, Black otherwise. Every
/// `Engine` starts from `engine_new`, with White to move.
#[verifier::external_body]
pub(crate) fn engine_side(e: &Engine) -> (r: PieceColor)
    ensures
        r == side_after(moves_of(*e).len()),
{
    match e.game.side_to_move() {
        chess::Color::White => PieceColor::White,
        chess::Color::Black => PieceColor::Black,
    }
}

/// Relies on chess::Game::current_position: the board after the moves played.
#[verifier::external_body]
pub(crate) fn engine_position(e: &Engine) -> chess::Board {
    e.game.current_position()
}

/// Relies on chess::Board::en_passant: the square of the pawn that may be
/// taken en passant, if any; a rank and a file index are each below 8.
#[verifier::external_body]
pub(crate) fn board_en_passant(b: &chess::Board) -> (r: Option<Square>)
    ensures
        r matches Some(s) ==> s.valid(),
{
    match b.en_passant() {
        Some(s) => Some(Square { rank: s.get_rank().to_index() as u8, file: s.get_file().to_index() as u8 }),
        None => None,
    }
}

/// Relies on chess::Board::color_on: the color of the piece on a square, if any.
#[verifier::external_body]
pub(crate) fn board_color_on(b: &chess::Board, s: Square) -> Option<PieceColor>
    requires
        s.valid(),
{
    let sq = chess::Square::make_square(Rank::from_index(s.rank as usize), File::from_index(s.file as usize));
    match b.color_on(sq) {
        Some(chess::Color::White) => Some(PieceColor::White),
        Some(chess::Color::Black) => Some(PieceColor::Black),
        None => None,
    }
}

/// Relies on chess::Game::make_move: the verdict depends only on the moves
/// recorded so far and the move given; an accepted move is recorded, and a
/// refused one leaves the game as it was.
#[verifier::external_body]
pub(crate) fn engine_make_move(e: &mut Engine, mv: Move) -> (r: bool)
    requires
        mv.from.valid(),
        mv.to.valid(),
    ensures
        r == accepts(moves_of(*old(e)), mv),
        r ==> moves_of(*final(e)) == moves_of(*old(e)).push(mv),
        !r ==> *final(e) == *old(e),
{
    let from = chess::Square::make_square(Rank::from_index(mv.from.rank as usize), File::from_index(mv.from.file as usize));
    let to = chess::Square::make_square(Rank::from_index(mv.to.rank as usize), File::from_index(mv.to.file as usize));
    let p = match mv.promotion {
        Some(PieceKind::Queen) => Some(chess::Piece::Queen),
        Some(PieceKind::Rook) => Some(chess::Piece::Rook),
        Some(PieceKind::Bishop) => Some(chess::Piece::Bishop),
        Some(PieceKind::Knight) => Some(chess::Piece::Knight),
        Some(PieceKind::Pawn) => Some(chess::Piece::Pawn),
        Some(PieceKind::King) => Some(chess::Piece::King),
        None => None,
    };
    e.game.make_move(ChessMove::new(from, to, p))
}

} // verus!
