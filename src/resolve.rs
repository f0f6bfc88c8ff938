use vstd::prelude::*;
use crate::registry::Registry;
use crate::types::{
    behind, last_rank, opposite, square_behind, Effect, Move, Piece, PieceColor, PieceKind, Square,
};

verus! {

/// What the rules engine's board said just before an accepted move: the
/// square of the pawn that could be taken en passant, and the color of the
/// piece standing on the destination.
#[derive(Clone, Copy, Debug, PartialEq, Eq, Structural)]
pub struct Prior {
    pub en_passant: Option<Square>,
    pub on_target: Option<PieceColor>,
}

impl Prior {
    pub open spec fn wf(self) -> bool {
        self.en_passant matches Some(s) ==> s.valid()
    }
}

/// Promotion is always to a queen, for a pawn that lands on its last rank.
pub open spec fn promotion_of(p: Piece, to: Square) -> Option<PieceKind> {
    if p.kind == PieceKind::Pawn && to.rank == last_rank(p.color) {
        Some(PieceKind::Queen)
    } else {
        None
    }
}

/// A king move of more than one file.
pub open spec fn is_castling(mover: Piece, mv: Move) -> bool {
    mover.kind == PieceKind::King && (mv.from.file - mv.to.file > 1 || mv.to.file - mv.from.file > 1)
}

/// The corner of the king's rank on the side it moved toward.
pub open spec fn rook_corner(mv: Move) -> Square {
    Square { rank: mv.from.rank, file: if mv.to.file < mv.from.file { 0 } else { 7 } }
}

/// Where the castling rook lands: beside the king, on the side it came from.
pub open spec fn rook_landing(mv: Move) -> Square {
    if mv.to.file < mv.from.file {
        Square { rank: mv.to.rank, file: (mv.to.file + 1) as u8 }
    } else {
        Square { rank: mv.to.rank, file: (mv.to.file - 1) as u8 }
    }
}

/// A pawn lands just in front of the pawn that could be taken en passant.
pub open spec fn is_en_passant(mover: Piece, mv: Move, prior: Prior) -> bool {
    mover.kind == PieceKind::Pawn && behind(mv.to, mover.color) is Some && prior.en_passant
        == behind(mv.to, mover.color)
}

/// Piece `i` is taken by the move: the pawn passed en passant, or else an
/// opposing piece on the destination.
pub open spec fn is_taken(p: Piece, i: int, mover: Piece, mv: Move, prior: Prior) -> bool {
    &&& i != mover.id
    &&& p.alive
    &&& p.color != mover.color
    &&& if is_en_passant(mover, mv, prior) {
        prior.en_passant == Some(p.square)
    } else {
        p.square == mv.to && prior.on_target == Some(opposite(mover.color))
    }
}

/// Piece `i` is the rook that a castling move carries along.
pub open spec fn is_castled_rook(p: Piece, i: int, mover: Piece, mv: Move) -> bool {
    &&& i != mover.id
    &&& p.alive
    &&& p.kind == PieceKind::Rook
    &&& p.color == mover.color
    &&& is_castling(mover, mv)
    &&& p.square == rook_corner(mv)
}

/// The record of piece `i` after the move.
pub open spec fn next_piece(p: Piece, i: int, mover: Piece, mv: Move, prior: Prior) -> Piece {
    if i == mover.id {
        Piece {
            square: mv.to,
            kind: match mv.promotion {
                Some(k) => k,
                None => p.kind,
            },
            ..p
        }
    } else if is_taken(p, i, mover, mv, prior) {
        Piece { alive: false, ..p }
    } else if is_castled_rook(p, i, mover, mv) {
        Piece { square: rook_landing(mv), ..p }
    } else {
        p
    }
}

/// The effects that the move has on piece `i`, in order.
pub open spec fn piece_effects(p: Piece, i: int, mover: Piece, mv: Move, prior: Prior) -> Seq<
    Effect,
> {
    if i == mover.id {
        seq![Effect::Moved { piece: i as usize, to: mv.to }] + match mv.promotion {
            Some(k) => seq![Effect::Promoted { piece: i as usize, kind: k }],
            None => Seq::<Effect>::empty(),
        }
    } else if is_taken(p, i, mover, mv, prior) {
        seq![Effect::Captured { piece: i as usize }] + if p.kind == PieceKind::King {
            seq![Effect::GameEnded { winner: opposite(p.color) }]
        } else {
            Seq::<Effect>::empty()
        }
    } else if is_castled_rook(p, i, mover, mv) {
        seq![Effect::Moved { piece: i as usize, to: rook_landing(mv) }]
    } else {
        Seq::<Effect>::empty()
    }
}

/// The effects of the move on the first `n` pieces, in order of identity.
pub open spec fn effects_upto(ps: Seq<Piece>, n: int, mover: Piece, mv: Move, prior: Prior) -> Seq<
    Effect,
>
    decreases n,
{
    if n <= 0 {
        Seq::empty()
    } else {
        effects_upto(ps, n - 1, mover, mv, prior) + piece_effects(ps[n - 1], n - 1, mover, mv, prior)
    }
}

/// The promotion that a move of `p` to `to` carries: a queen for a pawn that
/// reaches its last rank, none otherwise.
pub fn promotion_for(p: &Piece, to: Square) -> (r: Option<PieceKind>)
    ensures
        r == promotion_of(*p, to),
{
    match p.kind {
        PieceKind::Pawn => {
            let last: u8 = match p.color {
                PieceColor::White => 7,
                PieceColor::Black => 0,
            };
            if to.rank == last {
                Some(PieceKind::Queen)
            } else {
                None
            }
        },
        _ => None,
    }
}

fn castling(mover: &Piece, mv: &Move) -> (r: bool)
    ensures
        r == is_castling(*mover, *mv),
{
    let d: i16 = mv.from.file as i16 - mv.to.file as i16;
    mover.kind == PieceKind::King && (d > 1 || d < -1)
}

fn en_passant(mover: &Piece, mv: &Move, prior: &Prior) -> (r: bool)
    requires
        mv.to.valid(),
    ensures
        r == is_en_passant(*mover, *mv, *prior),
{
    if mover.kind != PieceKind::Pawn {
        return false;
    }
    let b = square_behind(mv.to, mover.color);
    b.is_some() && prior.en_passant == b
}

fn taken(p: &Piece, i: usize, mover: &Piece, mv: &Move, prior: &Prior) -> (r: bool)
    requires
        mv.to.valid(),
    ensures
        r == is_taken(*p, i as int, *mover, *mv, *prior),
{
    if i == mover.id || !p.alive || p.color == mover.color {
        return false;
    }
    if en_passant(mover, mv, prior) {
        prior.en_passant == Some(p.square)
    } else {
        p.square == mv.to && prior.on_target == Some(mover.color.other())
    }
}

fn castled_rook(p: &Piece, i: usize, mover: &Piece, mv: &Move) -> (r: bool)
    ensures
        r == is_castled_rook(*p, i as int, *mover, *mv),
{
    i != mover.id && p.alive && p.kind == PieceKind::Rook && p.color == mover.color && castling(
        mover,
        mv,
    ) && p.square == Square {
        rank: mv.from.rank,
        file: if mv.to.file < mv.from.file { 0 } else { 7 },
    }
}

/// Applies an accepted move of piece `id` to the registry, given what the
/// engine's board held just before it, and lists what was done.
pub fn apply_accepted(reg: &mut Registry, id: usize, mv: Move, prior: Prior) -> (effects: Vec<
    Effect,
>)
    requires
        old(reg).wf(),
        id < old(reg).pieces@.len(),
        mv.from == old(reg).pieces@[id as int].square,
        mv.to.valid(),
        prior.wf(),
    ensures
        final(reg).wf(),
        final(reg).pieces@.len() == old(reg).pieces@.len(),
        forall|i: int|
            0 <= i < old(reg).pieces@.len() ==> final(reg).pieces@[i] == #[trigger] next_piece(
                old(reg).pieces@[i],
                i,
                old(reg).pieces@[id as int],
                mv,
                prior,
            ),
        effects@ == effects_upto(
            old(reg).pieces@,
            old(reg).pieces@.len() as int,
            old(reg).pieces@[id as int],
            mv,
            prior,
        ),
{
    let ghost ps = reg.pieces@;
    let mover = reg.pieces[id];
    let mut effects: Vec<Effect> = Vec::new();
    let n = reg.pieces.len();
    let mut i: usize = 0;
    while i < n
        invariant
            n == ps.len(),
            i <= n,
            id < n,
            mover == ps[id as int],
            mv.from == mover.square,
            mv.to.valid(),
            reg.pieces@.len() == n,
            forall|k: int| 0 <= k < n ==> ps[k].id == k && ps[k].square.valid(),
            forall|k: int| 0 <= k < i ==> reg.pieces@[k] == #[trigger] next_piece(ps[k], k, mover, mv, prior),
            forall|k: int| i <= k < n ==> reg.pieces@[k] == ps[k],
            effects@ == effects_upto(ps, i as int, mover, mv, prior),
        decreases n - i,
    {
        let p = reg.pieces[i];
        let ghost before = effects@;
        let np: Piece;
        if i == mover.id {
            let kind = match mv.promotion {
                Some(k) => k,
                None => p.kind,
            };
            np = Piece { square: mv.to, kind, ..p };
            effects.push(Effect::Moved { piece: i, to: mv.to });
            if let Some(k) = mv.promotion {
                effects.push(Effect::Promoted { piece: i, kind: k });
            }
        } else if taken(&p, i, &mover, &mv, &prior) {
            np = Piece { alive: false, ..p };
            effects.push(Effect::Captured { piece: i });
            if p.kind == PieceKind::King {
                effects.push(Effect::GameEnded { winner: p.color.other() });
            }
        } else if castled_rook(&p, i, &mover, &mv) {
            let landing = if mv.to.file < mv.from.file {
                Square { rank: mv.to.rank, file: mv.to.file + 1 }
            } else {
                Square { rank: mv.to.rank, file: mv.to.file - 1 }
            };
            np = Piece { square: landing, ..p };
            effects.push(Effect::Moved { piece: i, to: landing });
        } else {
            np = p;
        }
        reg.pieces.set(i, np);
        proof {
            assert(effects@ =~= before + piece_effects(ps[i as int], i as int, mover, mv, prior));
        }
        i = i + 1;
    }
    proof {
        assert forall|k: int| 0 <= k < reg.pieces@.len() implies #[trigger] reg.pieces@[k].id == k
            && reg.pieces@[k].square.valid() by {
            assert(reg.pieces@[k] == next_piece(ps[k], k, mover, mv, prior));
            assert(mover.id == id);
        }
    }
    effects
}

} // verus!
