use vstd::prelude::*;
use crate::types::{Piece, PieceColor, PieceKind, Square};

verus! {

/// The kind of piece that starts on file `f` of a back rank.
pub open spec fn back_kind(f: int) -> PieceKind {
    if f == 0 || f == 7 {
        PieceKind::Rook
    } else if f == 1 || f == 6 {
        PieceKind::Knight
    } else if f == 2 || f == 5 {
        PieceKind::Bishop
    } else if f == 3 {
        PieceKind::Queen
    } else {
        PieceKind::King
    }
}

/// Piece `i` of the starting position: White holds 0..16 and Black 16..32;
/// within a side the back rank comes first, file by file, then the pawns.
pub open spec fn initial_piece(i: int) -> Piece {
    let color = if i < 16 { PieceColor::White } else { PieceColor::Black };
    let j = i % 16;
    let back: u8 = if i < 16 { 0 } else { 7 };
    let pawns: u8 = if i < 16 { 1 } else { 6 };
    if j < 8 {
        Piece {
            id: i as usize,
            kind: back_kind(j),
            color,
            square: Square { rank: back, file: j as u8 },
            alive: true,
        }
    } else {
        Piece {
            id: i as usize,
            kind: PieceKind::Pawn,
            color,
            square: Square { rank: pawns, file: (j - 8) as u8 },
            alive: true,
        }
    }
}

/// The number of live pieces among the first `n` of `ps`.
pub open spec fn alive_upto(ps: Seq<Piece>, n: int) -> nat
    decreases n,
{
    if n <= 0 {
        0
    } else {
        alive_upto(ps, n - 1) + if ps[n - 1].alive { 1nat } else { 0nat }
    }
}

pub open spec fn alive_count(ps: Seq<Piece>) -> nat {
    alive_upto(ps, ps.len() as int)
}

/// The first live piece standing on `s`, if any.
pub open spec fn first_alive_at(ps: Seq<Piece>, s: Square) -> Option<int> {
    if exists|i: int| 0 <= i < ps.len() && ps[i].alive && ps[i].square == s {
        let i = choose|i: int|
            0 <= i < ps.len() && ps[i].alive && ps[i].square == s && forall|j: int|
                0 <= j < i ==> !(ps[j].alive && ps[j].square == s);
        Some(i)
    } else {
        None
    }
}

/// No two live records of `ps` share a square.
pub open spec fn one_live_per_square(ps: Seq<Piece>) -> bool {
    forall|i: int, j: int|
        0 <= i < ps.len() && 0 <= j < ps.len() && i != j && ps[i].alive && ps[j].alive
            ==> #[trigger] ps[i].square != #[trigger] ps[j].square
}

/// The presentation-facing table of piece records, indexed by identity.
pub struct Registry {
    pub pieces: Vec<Piece>,
}

impl Registry {
    /// Every record sits at the index of its identity, on a square of the board.
    pub open spec fn wf(&self) -> bool {
        forall|i: int|
            0 <= i < self.pieces@.len() ==> {
                &&& (#[trigger] self.pieces@[i]).id == i
                &&& self.pieces@[i].square.valid()
            }
    }

    /// No two live pieces share a square.
    pub open spec fn one_per_square(&self) -> bool {
        one_live_per_square(self.pieces@)
    }

    /// The 32 pieces of the starting position.
    pub fn new() -> (r: Registry)
        ensures
            r.wf(),
            r.pieces@.len() == 32,
            forall|i: int| 0 <= i < 32 ==> r.pieces@[i] == #[trigger] initial_piece(i),
            r.one_per_square(),
    {
        let mut pieces: Vec<Piece> = Vec::new();
        let mut i: usize = 0;
        while i < 32
            invariant
                i <= 32,
                pieces@.len() == i,
                forall|k: int| 0 <= k < i ==> pieces@[k] == #[trigger] initial_piece(k),
            decreases 32 - i,
        {
            pieces.push(start_piece(i));
            i = i + 1;
        }
        let r = Registry { pieces };
        assert forall|k: int| 0 <= k < r.pieces@.len() implies #[trigger] r.pieces@[k].id == k
            && r.pieces@[k].square.valid() by {
            assert(r.pieces@[k] == initial_piece(k));
        }
        assert forall|a: int, b: int|
            0 <= a < r.pieces@.len() && 0 <= b < r.pieces@.len() && a != b && r.pieces@[a].alive
                && r.pieces@[b].alive implies #[trigger] r.pieces@[a].square
            != #[trigger] r.pieces@[b].square by {
            lemma_initial_squares_differ(a, b);
        }
        r
    }

    /// The first live piece standing on `s`, if any.
    pub fn piece_at(&self, s: Square) -> (r: Option<usize>)
        ensures
            r matches Some(i) ==> i < self.pieces@.len() && self.pieces@[i as int].alive
                && self.pieces@[i as int].square == s,
            r is None ==> forall|j: int|
                0 <= j < self.pieces@.len() ==> !(#[trigger] self.pieces@[j].alive
                    && self.pieces@[j].square == s),
            r matches Some(i) ==> first_alive_at(self.pieces@, s) == Some(i as int),
            r is None ==> first_alive_at(self.pieces@, s) is None,
    {
        let mut i: usize = 0;
        while i < self.pieces.len()
            invariant
                i <= self.pieces@.len(),
                forall|j: int| 0 <= j < i ==> !(self.pieces@[j].alive && self.pieces@[j].square == s),
            decreases self.pieces@.len() - i,
        {
            let p = self.pieces[i];
            if p.alive && p.square == s {
                let ghost ps = self.pieces@;
                proof {
                    let k = choose|k: int|
                        0 <= k < ps.len() && ps[k].alive && ps[k].square == s && forall|j: int|
                            0 <= j < k ==> !(ps[j].alive && ps[j].square == s);
                    if k < i as int {
                    } else if k > i as int {
                        assert(!(ps[i as int].alive && ps[i as int].square == s));
                    }
                }
                return Some(i);
            }
            i = i + 1;
        }
        None
    }

    /// The number of live pieces.
    pub fn alive_total(&self) -> (r: usize)
        ensures
            r == alive_count(self.pieces@),
    {
        let mut n: usize = 0;
        let mut i: usize = 0;
        while i < self.pieces.len()
            invariant
                i <= self.pieces@.len(),
                n == alive_upto(self.pieces@, i as int),
                n <= i,
            decreases self.pieces@.len() - i,
        {
            if self.pieces[i].alive {
                n = n + 1;
            }
            i = i + 1;
        }
        n
    }
}

proof fn lemma_initial_squares_differ(a: int, b: int)
    requires
        0 <= a < 32,
        0 <= b < 32,
        a != b,
    ensures
        initial_piece(a).square != initial_piece(b).square,
{
}

fn back_kind_at(f: usize) -> (r: PieceKind)
    requires
        f < 8,
    ensures
        r == back_kind(f as int),
{
    if f == 0 || f == 7 {
        PieceKind::Rook
    } else if f == 1 || f == 6 {
        PieceKind::Knight
    } else if f == 2 || f == 5 {
        PieceKind::Bishop
    } else if f == 3 {
        PieceKind::Queen
    } else {
        PieceKind::King
    }
}

fn start_piece(i: usize) -> (r: Piece)
    requires
        i < 32,
    ensures
        r == initial_piece(i as int),
{
    let color = if i < 16 { PieceColor::White } else { PieceColor::Black };
    let j: usize = i % 16;
    let back: u8 = if i < 16 { 0 } else { 7 };
    let pawns: u8 = if i < 16 { 1 } else { 6 };
    if j < 8 {
        Piece { id: i, kind: back_kind_at(j), color, square: Square { rank: back, file: j as u8 }, alive: true }
    } else {
        Piece { id: i, kind: PieceKind::Pawn, color, square: Square { rank: pawns, file: (j - 8) as u8 }, alive: true }
    }
}

} // verus!
