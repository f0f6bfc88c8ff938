use vstd::prelude::*;
use crate::engine::{
    accepts, board_color_on, board_en_passant, engine_make_move, engine_new, engine_position,
    engine_side, moves_of, side_after, Engine,
};
use crate::registry::{first_alive_at, initial_piece, Registry};
use crate::resolve::{apply_accepted, effects_upto, next_piece, promotion_for, promotion_of, Prior};
use crate::types::{opposite, Effect, Move, Piece, PieceColor, Selection, Square};

verus! {

/// The result of one attempted move: whether the engine accepted it, what it
/// did to the pieces, and what the board held on the destination and en
/// passant square just before.
pub struct MoveOutcome {
    pub accepted: bool,
    pub effects: Vec<Effect>,
    pub prior: Prior,
}

/// The move that carries piece `p` to `to`.
pub open spec fn move_of(p: Piece, to: Square) -> Move {
    Move { from: p.square, to, promotion: promotion_of(p, to) }
}

/// The winner named by the first end-of-game effect among the first `n`.
pub open spec fn winner_upto(effs: Seq<Effect>, n: int) -> Option<PieceColor>
    decreases n,
{
    if n <= 0 {
        None
    } else {
        match winner_upto(effs, n - 1) {
            Some(w) => Some(w),
            None => match effs[n - 1] {
                Effect::GameEnded { winner } => Some(winner),
                _ => None,
            },
        }
    }
}

/// What a click on `s` selects when no piece is chosen yet: the live piece
/// there if it belongs to the side to move, otherwise just the square.
pub open spec fn selection_for(ps: Seq<Piece>, side: PieceColor, s: Square) -> Selection {
    match first_alive_at(ps, s) {
        Some(i) => if ps[i].color == side {
            Selection::PieceSelected(s, i as usize)
        } else {
            Selection::SquareSelected(s)
        },
        None => Selection::SquareSelected(s),
    }
}

/// One game: the engine's record, the pieces, the selection, and the winner
/// once a king has fallen. Whose turn it is, the engine says.
pub struct Game {
    pub chess_game: Engine,
    pub registry: Registry,
    pub selection: Selection,
    pub winner: Option<PieceColor>,
}

/// Nothing but the selection differs between `a` and `b`.
pub open spec fn same_but_selection(a: Game, b: Game) -> bool {
    &&& a.chess_game == b.chess_game
    &&& a.registry == b.registry
    &&& a.winner == b.winner
}

/// `b` is `a` after an attempt to move piece `id` to `to` that gave `r`.
#[verifier::opaque]
pub open spec fn attempted(a: Game, b: Game, id: usize, to: Square, r: MoveOutcome) -> bool {
    let ps = a.registry.pieces@;
    let mover = ps[id as int];
    let mv = move_of(mover, to);
    &&& b.selection == Selection::Idle
    &&& r.accepted == accepts(moves_of(a.chess_game), mv)
    &&& !r.accepted ==> {
        &&& same_but_selection(a, b)
        &&& r.effects@.len() == 0
    }
    &&& r.accepted ==> {
        &&& r.prior.wf()
        &&& moves_of(b.chess_game) == moves_of(a.chess_game).push(mv)
        &&& b.turn() == opposite(a.turn())
        &&& b.registry.pieces@.len() == ps.len()
        &&& forall|i: int|
            0 <= i < ps.len() ==> b.registry.pieces@[i] == #[trigger] next_piece(
                ps[i],
                i,
                mover,
                mv,
                r.prior,
            )
        &&& r.effects@ == effects_upto(ps, ps.len() as int, mover, mv, r.prior)
        &&& b.winner == match a.winner {
            Some(w) => Some(w),
            None => winner_upto(r.effects@, r.effects@.len() as int),
        }
    }
}

impl Game {
    /// The side to move, as the engine's record of moves gives it.
    pub open spec fn turn(&self) -> PieceColor {
        side_after(moves_of(self.chess_game).len())
    }

    pub open spec fn wf(&self) -> bool {
        &&& self.registry.wf()
        &&& match self.selection {
            Selection::Idle => true,
            Selection::SquareSelected(s) => s.valid(),
            Selection::PieceSelected(s, i) => {
                &&& i < self.registry.pieces@.len()
                &&& self.registry.pieces@[i as int].square == s
                &&& self.registry.pieces@[i as int].alive
            },
        }
    }

    /// A game at the starting position, White to move, nothing selected.
    pub fn new() -> (r: Game)
        ensures
            r.wf(),
            r.registry.pieces@.len() == 32,
            forall|i: int| 0 <= i < 32 ==> r.registry.pieces@[i] == #[trigger] initial_piece(i),
            r.registry.one_per_square(),
            r.selection == Selection::Idle,
            moves_of(r.chess_game) == Seq::<Move>::empty(),
            r.turn() == PieceColor::White,
            r.winner is None,
    {
        Game {
            chess_game: engine_new(),
            registry: Registry::new(),
            selection: Selection::Idle,
            winner: None,
        }
    }

    /// Tries to move piece `id` to `to`. The engine decides; on acceptance the
    /// registry takes every effect of the move and the turn passes. Either
    /// way the selection is cleared.
    pub fn attempt_move(&mut self, id: usize, to: Square) -> (r: MoveOutcome)
        requires
            old(self).wf(),
            id < old(self).registry.pieces@.len(),
            to.valid(),
        ensures
            final(self).wf(),
            r.accepted == accepts(
                moves_of(old(self).chess_game),
                move_of(old(self).registry.pieces@[id as int], to),
            ),
            r.accepted ==> moves_of(final(self).chess_game) == moves_of(old(self).chess_game).push(
                move_of(old(self).registry.pieces@[id as int], to),
            ),
            attempted(*old(self), *final(self), id, to, r),
    {
        proof {
            reveal(attempted);
        }
        let p = self.registry.pieces[id];
        let mv = Move { from: p.square, to, promotion: promotion_for(&p, to) };
        let board = engine_position(&self.chess_game);
        let prior = Prior { en_passant: board_en_passant(&board), on_target: board_color_on(&board, to) };
        self.selection = Selection::Idle;
        if !engine_make_move(&mut self.chess_game, mv) {
            return MoveOutcome { accepted: false, effects: Vec::new(), prior };
        }
        let effects = apply_accepted(&mut self.registry, id, mv, prior);
        if self.winner.is_none() {
            self.winner = first_winner(&effects);
        }
        MoveOutcome { accepted: true, effects, prior }
    }

    /// The side to move, asked of the engine.
    pub fn side_to_move(&self) -> (r: PieceColor)
        ensures
            r == self.turn(),
    {
        engine_side(&self.chess_game)
    }

    /// What a click on `s` selects when no piece is chosen yet.
    pub fn selection_at(&self, s: Square) -> (r: Selection)
        requires
            self.registry.wf(),
            s.valid(),
        ensures
            r == selection_for(self.registry.pieces@, self.turn(), s),
            r matches Selection::PieceSelected(q, i) ==> q == s && i < self.registry.pieces@.len()
                && self.registry.pieces@[i as int].square == s
                && self.registry.pieces@[i as int].alive,
    {
        match self.registry.piece_at(s) {
            Some(i) => if self.registry.pieces[i].color == self.side_to_move() {
                Selection::PieceSelected(s, i)
            } else {
                Selection::SquareSelected(s)
            },
            None => Selection::SquareSelected(s),
        }
    }

    /// Handles a click: `None` when the pointer was off the board.
    ///
    /// Off the board, the selection clears. With no piece chosen, the click
    /// chooses the live piece on the square if it belongs to the side to move,
    /// or else just the square. With a piece chosen, a click on its own square
    /// changes nothing, and a click elsewhere attempts the move. Once a winner
    /// is known, clicks are ignored.
    pub fn click(&mut self, target: Option<Square>) -> (r: Option<MoveOutcome>)
        requires
            old(self).wf(),
            target matches Some(s) ==> s.valid(),
        ensures
            final(self).wf(),
            old(self).winner is Some ==> r is None && same_but_selection(*old(self), *final(self))
                && final(self).selection == old(self).selection,
            old(self).winner is None ==> match target {
                None => r is None && same_but_selection(*old(self), *final(self))
                    && final(self).selection == Selection::Idle,
                Some(s) => match old(self).selection {
                    Selection::PieceSelected(prev, id) => if s == prev {
                        r is None && same_but_selection(*old(self), *final(self))
                            && final(self).selection == old(self).selection
                    } else {
                        r matches Some(o) && attempted(*old(self), *final(self), id, s, o)
                            && o.accepted == accepts(
                            moves_of(old(self).chess_game),
                            move_of(old(self).registry.pieces@[id as int], s),
                        )
                    },
                    _ => r is None && same_but_selection(*old(self), *final(self))
                        && final(self).selection == selection_for(
                        old(self).registry.pieces@,
                        old(self).turn(),
                        s,
                    ),
                },
            },
    {
        if self.winner.is_some() {
            return None;
        }
        match target {
            None => {
                self.selection = Selection::Idle;
                None
            },
            Some(s) => match self.selection {
                Selection::PieceSelected(prev, id) => {
                    if s == prev {
                        None
                    } else {
                        Some(self.attempt_move(id, s))
                    }
                },
                _ => {
                    self.selection = self.selection_at(s);
                    None
                },
            },
        }
    }
}

impl Default for Game {
    /// The same game as `Game::new`.
    fn default() -> (r: Game)
        ensures
            r.wf(),
            r.registry.pieces@.len() == 32,
            forall|i: int| 0 <= i < 32 ==> r.registry.pieces@[i] == #[trigger] initial_piece(i),
            r.registry.one_per_square(),
            r.selection == Selection::Idle,
            moves_of(r.chess_game) == Seq::<Move>::empty(),
            r.turn() == PieceColor::White,
            r.winner is None,
    {
        Game::new()
    }
}

/// The winner named by the first end-of-game effect, if any.
fn first_winner(effects: &Vec<Effect>) -> (r: Option<PieceColor>)
    ensures
        r == winner_upto(effects@, effects@.len() as int),
{
    let mut i: usize = 0;
    let mut w: Option<PieceColor> = None;
    while i < effects.len()
        invariant
            i <= effects@.len(),
            w == winner_upto(effects@, i as int),
        decreases effects@.len() - i,
    {
        if w.is_none() {
            if let Effect::GameEnded { winner } = effects[i] {
                w = Some(winner);
            }
        }
        i = i + 1;
    }
    w
}

} // verus!
