use chess_board::{
    apply_accepted, promotion_for, Effect, Game, Move, Piece, PieceColor, PieceKind, Prior,
    Registry, Selection, Square,
};

fn sq(rank: u8, file: u8) -> Square {
    Square::new(rank, file)
}

fn play(game: &mut Game, from: Square, to: Square) -> bool {
    game.click(Some(from));
    let outcome = game.click(Some(to)).expect("a piece was selected");
    outcome.accepted
}

fn piece(id: usize, kind: PieceKind, color: PieceColor, square: Square) -> Piece {
    Piece { id, kind, color, square, alive: true }
}

#[test]
fn starting_registry_holds_every_piece() {
    let game = Game::new();
    assert_eq!(game.registry.pieces.len(), 32);
    assert_eq!(game.registry.alive_total(), 32);
    let king = game.registry.pieces[4];
    assert_eq!(king.kind, PieceKind::King);
    assert_eq!(king.color, PieceColor::White);
    assert_eq!(king.square, sq(0, 4));
    let black_queen = game.registry.pieces[19];
    assert_eq!(black_queen.kind, PieceKind::Queen);
    assert_eq!(black_queen.square, sq(7, 3));
    assert_eq!(game.registry.pieces[28].kind, PieceKind::Pawn);
    assert_eq!(game.registry.pieces[28].square, sq(6, 4));
    assert_eq!(game.registry.piece_at(sq(1, 4)), Some(12));
    assert_eq!(game.registry.piece_at(sq(4, 4)), None);
    assert_eq!(game.side_to_move(), PieceColor::White);
    assert_eq!(game.selection, Selection::Idle);
}

#[test]
fn default_game_is_the_starting_game() {
    let game = Game::default();
    assert_eq!(game.registry.pieces, Game::new().registry.pieces);
    assert_eq!(game.winner, None);
}

#[test]
fn pawn_double_step_is_accepted_and_passes_the_turn() {
    let mut game = Game::new();
    assert!(game.click(Some(sq(1, 4))).is_none());
    assert_eq!(game.selection, Selection::PieceSelected(sq(1, 4), 12));
    let outcome = game.click(Some(sq(3, 4))).unwrap();
    assert!(outcome.accepted);
    assert_eq!(outcome.effects, vec![Effect::Moved { piece: 12, to: sq(3, 4) }]);
    assert_eq!(game.side_to_move(), PieceColor::Black);
    assert_eq!(game.selection, Selection::Idle);
    assert_eq!(game.registry.pieces[12].square, sq(3, 4));
}

#[test]
fn opposing_piece_is_never_selected() {
    let mut game = Game::new();
    assert!(game.click(Some(sq(6, 4))).is_none());
    assert_eq!(game.selection, Selection::SquareSelected(sq(6, 4)));
    assert!(game.click(Some(sq(7, 1))).is_none());
    assert_eq!(game.selection, Selection::SquareSelected(sq(7, 1)));
}

#[test]
fn empty_square_selects_only_the_square() {
    let mut game = Game::new();
    game.click(Some(sq(4, 4)));
    assert_eq!(game.selection, Selection::SquareSelected(sq(4, 4)));
    game.click(Some(sq(1, 0)));
    assert_eq!(game.selection, Selection::PieceSelected(sq(1, 0), 8));
}

#[test]
fn reselecting_the_selected_square_changes_nothing() {
    let mut game = Game::new();
    game.click(Some(sq(1, 4)));
    let pieces = game.registry.pieces.clone();
    assert!(game.click(Some(sq(1, 4))).is_none());
    assert_eq!(game.selection, Selection::PieceSelected(sq(1, 4), 12));
    assert_eq!(game.registry.pieces, pieces);
    assert_eq!(game.side_to_move(), PieceColor::White);
}

#[test]
fn illegal_target_leaves_everything_and_clears_selection() {
    let mut game = Game::new();
    let pieces = game.registry.pieces.clone();
    game.click(Some(sq(1, 4)));
    let outcome = game.click(Some(sq(4, 4))).unwrap();
    assert!(!outcome.accepted);
    assert!(outcome.effects.is_empty());
    assert_eq!(game.registry.pieces, pieces);
    assert_eq!(game.selection, Selection::Idle);
    assert_eq!(game.side_to_move(), PieceColor::White);
    assert!(play(&mut game, sq(1, 4), sq(3, 4)));
}

#[test]
fn click_off_the_board_clears_selection() {
    let mut game = Game::new();
    game.click(Some(sq(1, 4)));
    assert!(game.click(None).is_none());
    assert_eq!(game.selection, Selection::Idle);
}

#[test]
fn capture_marks_the_taken_piece() {
    let mut game = Game::new();
    assert!(play(&mut game, sq(1, 4), sq(3, 4)));
    assert!(play(&mut game, sq(6, 3), sq(4, 3)));
    game.click(Some(sq(3, 4)));
    let outcome = game.click(Some(sq(4, 3))).unwrap();
    assert!(outcome.accepted);
    assert_eq!(outcome.prior.on_target, Some(PieceColor::Black));
    assert_eq!(
        outcome.effects,
        vec![Effect::Moved { piece: 12, to: sq(4, 3) }, Effect::Captured { piece: 27 }]
    );
    assert!(!game.registry.pieces[27].alive);
    assert_eq!(game.registry.alive_total(), 31);
    assert_eq!(game.registry.piece_at(sq(4, 3)), Some(12));
}

#[test]
fn en_passant_takes_the_passed_pawn() {
    let mut game = Game::new();
    assert!(play(&mut game, sq(1, 4), sq(3, 4)));
    assert!(play(&mut game, sq(6, 0), sq(5, 0)));
    assert!(play(&mut game, sq(3, 4), sq(4, 4)));
    assert!(play(&mut game, sq(6, 3), sq(4, 3)));
    game.click(Some(sq(4, 4)));
    let outcome = game.click(Some(sq(5, 3))).unwrap();
    assert!(outcome.accepted);
    assert_eq!(outcome.prior.en_passant, Some(sq(4, 3)));
    assert_eq!(outcome.prior.on_target, None);
    assert_eq!(
        outcome.effects,
        vec![Effect::Moved { piece: 12, to: sq(5, 3) }, Effect::Captured { piece: 27 }]
    );
    assert!(!game.registry.pieces[27].alive);
    assert_eq!(game.registry.alive_total(), 31);
}

#[test]
fn king_side_castling_moves_the_h_rook() {
    let mut game = Game::new();
    assert!(play(&mut game, sq(1, 4), sq(3, 4)));
    assert!(play(&mut game, sq(6, 4), sq(4, 4)));
    assert!(play(&mut game, sq(0, 6), sq(2, 5)));
    assert!(play(&mut game, sq(7, 1), sq(5, 2)));
    assert!(play(&mut game, sq(0, 5), sq(3, 2)));
    assert!(play(&mut game, sq(7, 6), sq(5, 5)));
    game.click(Some(sq(0, 4)));
    let outcome = game.click(Some(sq(0, 6))).unwrap();
    assert!(outcome.accepted);
    assert_eq!(
        outcome.effects,
        vec![Effect::Moved { piece: 4, to: sq(0, 6) }, Effect::Moved { piece: 7, to: sq(0, 5) }]
    );
    assert_eq!(game.registry.pieces[7].square, sq(0, 5));
    assert_eq!(game.registry.pieces[0].square, sq(0, 0));
}

#[test]
fn queen_side_castling_moves_the_a_rook() {
    let mut reg = Registry {
        pieces: vec![
            piece(0, PieceKind::Rook, PieceColor::Black, sq(7, 0)),
            piece(1, PieceKind::King, PieceColor::Black, sq(7, 4)),
            piece(2, PieceKind::Rook, PieceColor::Black, sq(7, 7)),
        ],
    };
    let mv = Move { from: sq(7, 4), to: sq(7, 2), promotion: None };
    let effects =
        apply_accepted(&mut reg, 1, mv, Prior { en_passant: None, on_target: None });
    assert_eq!(
        effects,
        vec![Effect::Moved { piece: 0, to: sq(7, 3) }, Effect::Moved { piece: 1, to: sq(7, 2) }]
    );
    assert_eq!(reg.pieces[0].square, sq(7, 3));
    assert_eq!(reg.pieces[2].square, sq(7, 7));
}

#[test]
fn castling_uses_the_corner_not_any_rook() {
    let mut reg = Registry {
        pieces: vec![
            piece(0, PieceKind::Rook, PieceColor::White, sq(0, 6)),
            piece(1, PieceKind::King, PieceColor::White, sq(0, 4)),
            piece(2, PieceKind::Rook, PieceColor::White, sq(3, 7)),
        ],
    };
    let mv = Move { from: sq(0, 4), to: sq(0, 6), promotion: None };
    let effects =
        apply_accepted(&mut reg, 1, mv, Prior { en_passant: None, on_target: None });
    assert_eq!(effects, vec![Effect::Moved { piece: 1, to: sq(0, 6) }]);
    assert_eq!(reg.pieces[2].square, sq(3, 7));
}

#[test]
fn pawn_on_last_rank_becomes_a_queen() {
    let white = piece(0, PieceKind::Pawn, PieceColor::White, sq(6, 0));
    let black = piece(1, PieceKind::Pawn, PieceColor::Black, sq(1, 5));
    assert_eq!(promotion_for(&white, sq(7, 0)), Some(PieceKind::Queen));
    assert_eq!(promotion_for(&white, sq(5, 0)), None);
    assert_eq!(promotion_for(&black, sq(0, 5)), Some(PieceKind::Queen));
    assert_eq!(promotion_for(&black, sq(7, 5)), None);
    let knight = piece(2, PieceKind::Knight, PieceColor::White, sq(5, 1));
    assert_eq!(promotion_for(&knight, sq(7, 2)), None);

    let mut reg = Registry { pieces: vec![white, black] };
    let mv = Move { from: sq(6, 0), to: sq(7, 0), promotion: promotion_for(&white, sq(7, 0)) };
    let effects =
        apply_accepted(&mut reg, 0, mv, Prior { en_passant: None, on_target: None });
    assert_eq!(
        effects,
        vec![
            Effect::Moved { piece: 0, to: sq(7, 0) },
            Effect::Promoted { piece: 0, kind: PieceKind::Queen }
        ]
    );
    assert_eq!(reg.pieces[0].kind, PieceKind::Queen);
    assert_eq!(reg.pieces[0].id, 0);
}

#[test]
fn taking_the_king_ends_the_game_for_the_mover() {
    let mut reg = Registry {
        pieces: vec![
            piece(0, PieceKind::Queen, PieceColor::White, sq(3, 3)),
            piece(1, PieceKind::King, PieceColor::Black, sq(5, 5)),
            piece(2, PieceKind::King, PieceColor::White, sq(0, 4)),
        ],
    };
    let mv = Move { from: sq(3, 3), to: sq(5, 5), promotion: None };
    let effects = apply_accepted(
        &mut reg,
        0,
        mv,
        Prior { en_passant: None, on_target: Some(PieceColor::Black) },
    );
    assert_eq!(
        effects,
        vec![
            Effect::Moved { piece: 0, to: sq(5, 5) },
            Effect::Captured { piece: 1 },
            Effect::GameEnded { winner: PieceColor::White }
        ]
    );
    assert!(!reg.pieces[1].alive);
    assert_eq!(reg.alive_total(), 2);
}

#[test]
fn own_piece_on_target_is_not_taken() {
    let mut reg = Registry {
        pieces: vec![
            piece(0, PieceKind::Rook, PieceColor::White, sq(0, 0)),
            piece(1, PieceKind::Knight, PieceColor::White, sq(0, 1)),
        ],
    };
    let mv = Move { from: sq(0, 0), to: sq(0, 1), promotion: None };
    let effects = apply_accepted(
        &mut reg,
        0,
        mv,
        Prior { en_passant: None, on_target: Some(PieceColor::White) },
    );
    assert_eq!(effects, vec![Effect::Moved { piece: 0, to: sq(0, 1) }]);
    assert!(reg.pieces[1].alive);
}

#[test]
fn other_color_flips_sides() {
    assert_eq!(PieceColor::White.other(), PieceColor::Black);
    assert_eq!(PieceColor::Black.other(), PieceColor::White);
}

#[test]
fn turn_alternates_only_on_accepted_moves() {
    let mut game = Game::new();
    assert!(play(&mut game, sq(0, 1), sq(2, 2)));
    assert_eq!(game.side_to_move(), PieceColor::Black);
    assert!(!play(&mut game, sq(6, 4), sq(3, 4)));
    assert_eq!(game.side_to_move(), PieceColor::Black);
    assert!(play(&mut game, sq(6, 4), sq(4, 4)));
    assert_eq!(game.side_to_move(), PieceColor::White);
}
