use vstd::prelude::*;
use crate::game::{attempted, move_of, winner_upto, Game, MoveOutcome};
use crate::registry::{alive_count, alive_upto, one_live_per_square, Registry};
use crate::resolve::{
    effects_upto, is_castled_rook, is_castling, is_taken, next_piece, piece_effects, rook_corner,
    rook_landing, Prior,
};
use crate::types::{behind, last_rank, opposite, Effect, Move, Piece, PieceKind, Square};

verus! {

/// The records of `ps` after the move.
pub open spec fn after_move(ps: Seq<Piece>, mover: Piece, mv: Move, prior: Prior) -> Seq<Piece> {
    Seq::new(ps.len(), |i: int| next_piece(ps[i], i, mover, mv, prior))
}

proof fn lemma_taken_unique(reg: Registry, i: int, j: int, mover: Piece, mv: Move, prior: Prior)
    requires
        reg.one_per_square(),
        0 <= i < reg.pieces@.len(),
        0 <= j < reg.pieces@.len(),
        is_taken(reg.pieces@[i], i, mover, mv, prior),
        is_taken(reg.pieces@[j], j, mover, mv, prior),
    ensures
        i == j,
{
    if i != j {
        assert(reg.pieces@[i].square != reg.pieces@[j].square);
    }
}

proof fn lemma_alive_upto(reg: Registry, n: int, mover: Piece, mv: Move, prior: Prior)
    requires
        reg.one_per_square(),
        0 <= n <= reg.pieces@.len(),
        mover.id < reg.pieces@.len(),
        reg.pieces@[mover.id as int] == mover,
    ensures
        alive_upto(after_move(reg.pieces@, mover, mv, prior), n) <= alive_upto(reg.pieces@, n),
        alive_upto(reg.pieces@, n) <= alive_upto(after_move(reg.pieces@, mover, mv, prior), n) + 1,
        (forall|k: int| 0 <= k < n ==> !is_taken(#[trigger] reg.pieces@[k], k, mover, mv, prior))
            ==> alive_upto(reg.pieces@, n) == alive_upto(
            after_move(reg.pieces@, mover, mv, prior),
            n,
        ),
    decreases n,
{
    let ps = reg.pieces@;
    let nx = after_move(ps, mover, mv, prior);
    if n > 0 {
        lemma_alive_upto(reg, n - 1, mover, mv, prior);
        let k = n - 1;
        if is_taken(ps[k], k, mover, mv, prior) {
            assert forall|j: int| 0 <= j < n - 1 implies !is_taken(
                #[trigger] ps[j],
                j,
                mover,
                mv,
                prior,
            ) by {
                if is_taken(ps[j], j, mover, mv, prior) {
                    lemma_taken_unique(reg, j, k, mover, mv, prior);
                }
            }
        } else {
            assert(nx[k].alive == ps[k].alive);
        }
    }
}

/// An accepted move takes at most one piece off the board, and adds none,
/// as long as no two live pieces shared a square before it.
pub proof fn lemma_alive_count_drops_by_at_most_one(reg: Registry, id: usize, mv: Move, prior: Prior)
    requires
        reg.wf(),
        reg.one_per_square(),
        id < reg.pieces@.len(),
    ensures
        alive_count(after_move(reg.pieces@, reg.pieces@[id as int], mv, prior)) <= alive_count(
            reg.pieces@,
        ),
        alive_count(reg.pieces@) <= alive_count(
            after_move(reg.pieces@, reg.pieces@[id as int], mv, prior),
        ) + 1,
{
    lemma_alive_upto(reg, reg.pieces@.len() as int, reg.pieces@[id as int], mv, prior);
}

/// The registry after an accepted move is the one described by the move's
/// outcome, record for record.
pub proof fn lemma_accepted_registry(a: Game, b: Game, id: usize, to: Square, r: MoveOutcome)
    requires
        a.wf(),
        id < a.registry.pieces@.len(),
        attempted(a, b, id, to, r),
        r.accepted,
    ensures
        b.registry.pieces@ == after_move(
            a.registry.pieces@,
            a.registry.pieces@[id as int],
            move_of(a.registry.pieces@[id as int], to),
            r.prior,
        ),
{
    reveal(attempted);
    assert(b.registry.pieces@ =~= after_move(
        a.registry.pieces@,
        a.registry.pieces@[id as int],
        move_of(a.registry.pieces@[id as int], to),
        r.prior,
    ));
}

/// The turn passes on every accepted move and stays on every rejected one.
pub proof fn lemma_turn_alternates(a: Game, b: Game, id: usize, to: Square, r: MoveOutcome)
    requires
        attempted(a, b, id, to, r),
    ensures
        r.accepted ==> b.turn() == opposite(a.turn()),
        !r.accepted ==> b.turn() == a.turn(),
        !r.accepted ==> b.registry == a.registry && r.effects@.len() == 0,
{
    reveal(attempted);
}

/// A pawn that an accepted move brings to its last rank lands there as a queen.
pub proof fn lemma_pawn_promotes_to_queen(a: Game, b: Game, id: usize, to: Square, r: MoveOutcome)
    requires
        a.wf(),
        id < a.registry.pieces@.len(),
        attempted(a, b, id, to, r),
        r.accepted,
        a.registry.pieces@[id as int].kind == PieceKind::Pawn,
        to.rank == last_rank(a.registry.pieces@[id as int].color),
    ensures
        b.registry.pieces@[id as int].kind == PieceKind::Queen,
        b.registry.pieces@[id as int].square == to,
{
    reveal(attempted);
    assert(a.registry.pieces@[id as int].id == id);
    assert(b.registry.pieces@[id as int] == next_piece(
        a.registry.pieces@[id as int],
        id as int,
        a.registry.pieces@[id as int],
        move_of(a.registry.pieces@[id as int], to),
        r.prior,
    ));
}

/// When an accepted king move crosses more than one file, the live rook of
/// the mover's color on the corner it moved toward lands beside the king on
/// the side it came from; no other piece of that color moves.
pub proof fn lemma_castling_moves_corner_rook(
    a: Game,
    b: Game,
    id: usize,
    to: Square,
    r: MoveOutcome,
    k: usize,
)
    requires
        a.wf(),
        a.registry.one_per_square(),
        id < a.registry.pieces@.len(),
        k < a.registry.pieces@.len(),
        attempted(a, b, id, to, r),
        r.accepted,
        a.registry.pieces@[id as int].kind == PieceKind::King,
        a.registry.pieces@[id as int].square.file - to.file > 1 || to.file - a.registry.pieces@[id as int].square.file > 1,
        a.registry.pieces@[k as int].kind == PieceKind::Rook,
        a.registry.pieces@[k as int].alive,
        a.registry.pieces@[k as int].color == a.registry.pieces@[id as int].color,
        a.registry.pieces@[k as int].square == rook_corner(move_of(a.registry.pieces@[id as int], to)),
    ensures
        b.registry.pieces@[k as int].square.rank == to.rank,
        to.file < a.registry.pieces@[id as int].square.file ==> b.registry.pieces@[k as int].square.file == to.file + 1,
        to.file > a.registry.pieces@[id as int].square.file ==> b.registry.pieces@[k as int].square.file == to.file - 1,
        forall|j: int|
            0 <= j < a.registry.pieces@.len() && j != id && j != k && a.registry.pieces@[j].color
                == a.registry.pieces@[id as int].color ==> #[trigger] b.registry.pieces@[j]
                == a.registry.pieces@[j],
{
    reveal(attempted);
    let ps = a.registry.pieces@;
    let mover = ps[id as int];
    assert(ps[id as int].id == id);
    assert(ps[k as int].id == k);
    assert(b.registry.pieces@[k as int] == next_piece(ps[k as int], k as int, mover, move_of(mover, to), r.prior));
    assert forall|j: int|
        0 <= j < ps.len() && j != id && j != k && ps[j].color == mover.color implies #[trigger] b.registry.pieces@[j]
            == ps[j] by {
        assert(b.registry.pieces@[j] == next_piece(ps[j], j, mover, move_of(mover, to), r.prior));
        if ps[j].alive && ps[j].square == ps[k as int].square {
            assert(ps[j].square != ps[k as int].square);
        }
    }
}

/// When an accepted pawn move lands just in front of the pawn that could be
/// taken en passant, that pawn is taken and nothing on the destination is.
pub proof fn lemma_en_passant_takes_passed_pawn(
    a: Game,
    b: Game,
    id: usize,
    to: Square,
    r: MoveOutcome,
    k: usize,
)
    requires
        a.wf(),
        id < a.registry.pieces@.len(),
        k < a.registry.pieces@.len(),
        attempted(a, b, id, to, r),
        r.accepted,
        a.registry.pieces@[id as int].kind == PieceKind::Pawn,
        behind(to, a.registry.pieces@[id as int].color) is Some,
        r.prior.en_passant == behind(to, a.registry.pieces@[id as int].color),
        a.registry.pieces@[k as int].alive,
        a.registry.pieces@[k as int].color != a.registry.pieces@[id as int].color,
        Some(a.registry.pieces@[k as int].square) == r.prior.en_passant,
    ensures
        !b.registry.pieces@[k as int].alive,
        forall|j: int|
            0 <= j < a.registry.pieces@.len() && a.registry.pieces@[j].square == to
                ==> #[trigger] b.registry.pieces@[j].alive == a.registry.pieces@[j].alive,
{
    reveal(attempted);
    let ps = a.registry.pieces@;
    let mover = ps[id as int];
    assert(ps[id as int].id == id);
    assert(ps[k as int].id == k);
    assert(b.registry.pieces@[k as int] == next_piece(ps[k as int], k as int, mover, move_of(mover, to), r.prior));
    assert forall|j: int|
        0 <= j < ps.len() && ps[j].square == to implies #[trigger] b.registry.pieces@[j].alive
            == ps[j].alive by {
        assert(b.registry.pieces@[j] == next_piece(ps[j], j, mover, move_of(mover, to), r.prior));
    }
}

proof fn lemma_effects_keep(
    ps: Seq<Piece>,
    n: int,
    k: int,
    mover: Piece,
    mv: Move,
    prior: Prior,
    e: Effect,
)
    requires
        0 <= k < n <= ps.len(),
        piece_effects(ps[k], k, mover, mv, prior).contains(e),
    ensures
        effects_upto(ps, n, mover, mv, prior).contains(e),
    decreases n,
{
    let prev = effects_upto(ps, n - 1, mover, mv, prior);
    let last = piece_effects(ps[n - 1], n - 1, mover, mv, prior);
    assert(effects_upto(ps, n, mover, mv, prior) == prev + last);
    if k == n - 1 {
        let idx = choose|idx: int| 0 <= idx < last.len() && last[idx] == e;
        assert((prev + last)[prev.len() + idx] == e);
    } else {
        lemma_effects_keep(ps, n - 1, k, mover, mv, prior, e);
        let idx = choose|idx: int| 0 <= idx < prev.len() && prev[idx] == e;
        assert((prev + last)[idx] == e);
    }
}

proof fn lemma_winner_found(effs: Seq<Effect>, n: int, i: int)
    requires
        0 <= i < n <= effs.len(),
        effs[i] is GameEnded,
    ensures
        winner_upto(effs, n) is Some,
    decreases n,
{
    if i < n - 1 {
        lemma_winner_found(effs, n - 1, i);
    }
}

/// An accepted move that takes a king reports the end of the game, won by
/// the side that moved, and the game then has a winner.
pub proof fn lemma_king_capture_ends_game(
    a: Game,
    b: Game,
    id: usize,
    to: Square,
    r: MoveOutcome,
    k: usize,
)
    requires
        a.wf(),
        id < a.registry.pieces@.len(),
        k < a.registry.pieces@.len(),
        attempted(a, b, id, to, r),
        r.accepted,
        a.registry.pieces@[k as int].kind == PieceKind::King,
        a.registry.pieces@[k as int].alive,
        !b.registry.pieces@[k as int].alive,
    ensures
        r.effects@.contains(Effect::GameEnded { winner: a.registry.pieces@[id as int].color }),
        b.winner is Some,
{
    reveal(attempted);
    let ps = a.registry.pieces@;
    let mover = ps[id as int];
    let mv = move_of(mover, to);
    assert(ps[id as int].id == id);
    assert(b.registry.pieces@[k as int] == next_piece(ps[k as int], k as int, mover, mv, r.prior));
    assert(is_taken(ps[k as int], k as int, mover, mv, r.prior));
    let e = Effect::GameEnded { winner: mover.color };
    assert(opposite(ps[k as int].color) == mover.color);
    let pe = piece_effects(ps[k as int], k as int, mover, mv, r.prior);
    assert(pe[1] == e);
    lemma_effects_keep(ps, ps.len() as int, k as int, mover, mv, r.prior, e);
    if a.winner is None {
        let idx = choose|idx: int| 0 <= idx < r.effects@.len() && r.effects@[idx] == e;
        lemma_winner_found(r.effects@, r.effects@.len() as int, idx);
    }
}

/// An accepted move keeps every square to at most one live piece, given what
/// the rules engine's board guarantees: whatever else stands on the
/// destination is taken by the move, and a castling rook lands on a free
/// square.
pub proof fn lemma_one_per_square_kept(reg: Registry, id: usize, mv: Move, prior: Prior)
    requires
        reg.wf(),
        reg.one_per_square(),
        id < reg.pieces@.len(),
        mv.from == reg.pieces@[id as int].square,
        mv.to.valid(),
        forall|j: int|
            0 <= j < reg.pieces@.len() && j != id && reg.pieces@[j].alive && #[trigger] reg.pieces@[j].square
                == mv.to ==> is_taken(reg.pieces@[j], j, reg.pieces@[id as int], mv, prior),
        is_castling(reg.pieces@[id as int], mv) ==> forall|j: int|
            0 <= j < reg.pieces@.len() && j != id && reg.pieces@[j].alive ==> #[trigger] reg.pieces@[j].square
                != rook_landing(mv),
    ensures
        one_live_per_square(after_move(reg.pieces@, reg.pieces@[id as int], mv, prior)),
{
    let ps = reg.pieces@;
    let mover = ps[id as int];
    let nx = after_move(ps, mover, mv, prior);
    assert(mover.id == id);
    assert forall|i: int, j: int|
        0 <= i < nx.len() && 0 <= j < nx.len() && i != j && nx[i].alive && nx[j].alive implies #[trigger] nx[i].square
        != #[trigger] nx[j].square by {
        assert(ps[i].id == i && ps[j].id == j);
        let ci = is_castled_rook(ps[i], i, mover, mv);
        let cj = is_castled_rook(ps[j], j, mover, mv);
        if ci && cj {
            assert(ps[i].square == ps[j].square);
        }
        if i != id && !is_taken(ps[i], i, mover, mv, prior) && !ci && ps[i].square == mv.to {
            assert(is_taken(ps[i], i, mover, mv, prior));
        }
        if j != id && !is_taken(ps[j], j, mover, mv, prior) && !cj && ps[j].square == mv.to {
            assert(is_taken(ps[j], j, mover, mv, prior));
        }
        if ci && j != id && !is_taken(ps[j], j, mover, mv, prior) && !cj {
            assert(ps[j].square != rook_landing(mv));
        }
        if cj && i != id && !is_taken(ps[i], i, mover, mv, prior) && !ci {
            assert(ps[i].square != rook_landing(mv));
        }
    }
}

} // verus!
