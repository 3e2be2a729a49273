use chess::error::Error;
use chess::game::{Board, Color, Level, Piece};

fn play(board: &mut Board, moves: &[(&str, &str)]) -> Result<(), Error> {
    for (from, to) in moves {
        board.moves_piece(from, to)?;
    }
    Ok(())
}

fn empty_board() -> Result<Board, Error> {
    let mut board = Board::new();
    for row in 0..8i8 {
        for col in 0..8i8 {
            board.set(&chess::game::invert(row, col)?, None)?;
        }
    }
    Ok(board)
}

#[test]
fn board_possible_moves_pawn() -> Result<(), Error> {
    let board = Board::new();
    let moves = board.get_possible_moves("a2");
    assert_eq!(moves?, ["a3", "a4"]);
    Ok(())
}

#[test]
fn board_possible_moves_knight() -> Result<(), Error> {
    let board = Board::new();
    let moves = board.get_possible_moves("b1");
    assert_eq!(moves?, ["a3", "c3"]);
    Ok(())
}

#[test]
fn board_possible_moves_rook() -> Result<(), Error> {
    let mut board = Board::new();
    board.moves_piece("a2", "a4")?;
    let moves = board.get_possible_moves("a1");
    assert_eq!(moves?, ["a2", "a3"]);
    Ok(())
}

#[test]
fn board_possible_moves_bishop() -> Result<(), Error> {
    let mut board = Board::new();
    board.moves_piece("e2", "e4")?;
    let moves = board.get_possible_moves("f1");
    assert_eq!(moves?, ["a6", "b5", "c4", "d3", "e2"]);
    Ok(())
}

#[test]
fn board_possible_moves_queen() -> Result<(), Error> {
    let mut board = Board::new();
    board.moves_piece("d2", "d4")?;
    board.moves_piece("e2", "e4")?;
    let moves = board.get_possible_moves("d1");
    assert_eq!(moves?, ["d2", "d3", "e2", "f3", "g4", "h5"]);
    Ok(())
}

#[test]
fn board_possible_moves_king() -> Result<(), Error> {
    let mut board = Board::new();
    board.moves_piece("d2", "d4")?;
    board.moves_piece("e2", "e4")?;
    let moves = board.get_possible_moves("e1");
    assert_eq!(moves?, ["d2", "e2"]);
    Ok(())
}

#[test]
fn board_possible_moves_by_color() -> Result<(), Error> {
    let mut board = Board::new();
    board.moves_piece("e2", "e4")?;
    let paz = board.get_possible_moves_by_color(Color::White)?;
    assert_eq!(*paz.get("c2").unwrap(), ["c3", "c4"]);
    assert_eq!(*paz.get("d1").unwrap(), ["e2", "f3", "g4", "h5"]);
    assert_eq!(*paz.get("e1").unwrap(), ["e2"]);
    assert_eq!(*paz.get("f1").unwrap(), ["a6", "b5", "c4", "d3", "e2"]);
    assert_eq!(*paz.get("g1").unwrap(), ["e2", "f3", "h3"]);
    assert_eq!(paz.get("h1"), None);
    Ok(())
}

#[test]
fn board_moves_piece() -> Result<(), Error> {
    let mut board = Board::new();
    board.moves_piece("a2", "a4")?;
    assert_eq!(board.get("a4")?.unwrap().level, Level::Pawn);
    assert_eq!(board.get("a4")?.unwrap().color, Color::White);
    assert!(board.get("a2")?.is_none());
    assert_eq!(board.history.len(), 1);
    assert_eq!(board.history[0].from, "a2");
    assert_eq!(board.history[0].to, "a4");
    assert!(board.history[0].captured.is_none());
    assert!(board.history[0].has_moved.unwrap());
    Ok(())
}

#[test]
fn board_undo_moves() -> Result<(), Error> {
    let mut board = Board::new();
    board.moves_piece("a2", "a4")?;
    board.undo_moves()?;
    let piece = board.get("a2")?.unwrap();
    assert_eq!(piece.level, Level::Pawn);
    assert_eq!(piece.color, Color::White);
    assert_eq!(piece.moved, Some(false));
    assert!(board.get("a4")?.is_none());
    assert_eq!(board.history.len(), 0);
    Ok(())
}

#[test]
fn board_possible_attack_by_color() -> Result<(), Error> {
    let mut board = Board::new();
    board.moves_piece("e2", "e4")?;
    let paz = board.get_possible_attack_by_color(Color::White)?;
    assert_eq!(*paz.get("c2").unwrap(), ["b3", "d3"]);
    assert_eq!(*paz.get("d1").unwrap(), ["e2", "f3", "g4", "h5"]);
    assert_eq!(*paz.get("e1").unwrap(), ["e2"]);
    assert_eq!(*paz.get("f1").unwrap(), ["a6", "b5", "c4", "d3", "e2"]);
    assert_eq!(*paz.get("g1").unwrap(), ["e2", "f3", "h3"]);
    assert_eq!(paz.get("h1"), None);
    Ok(())
}

#[test]
fn board_get_king_position() -> Result<(), Error> {
    let board = Board::new();
    assert_eq!(board.get_king_position(Color::White)?, "e1");
    assert_eq!(board.get_king_position(Color::Black)?, "e8");
    Ok(())
}

#[test]
fn board_is_king_checked() -> Result<(), Error> {
    let mut board = Board::new();
    board.moves_piece("e2", "e4")?;
    board.moves_piece("f7", "f6")?;
    board.moves_piece("d1", "h5")?;
    assert_eq!(board.is_king_checked(Color::Black)?, true);
    assert_eq!(board.is_king_checked(Color::White)?, false);
    Ok(())
}

#[test]
fn board_is_checkmate() -> Result<(), Error> {
    let mut board = Board::new();
    board.moves_piece("e2", "e4")?;
    board.moves_piece("e7", "e5")?;
    board.moves_piece("d1", "f3")?;
    board.moves_piece("b8", "c6")?;
    board.moves_piece("f1", "c4")?;
    board.moves_piece("f8", "c5")?;
    assert!(!board.is_checkmate(Color::Black)?);
    board.moves_piece("f3", "f7")?;
    assert!(board.is_checkmate(Color::Black)?);
    Ok(())
}

#[test]
fn board_castling() -> Result<(), Error> {
    let mut board = Board::new();
    board.moves_piece("e2", "e4")?;
    board.moves_piece("e7", "e5")?;
    board.moves_piece("g1", "f3")?;
    board.moves_piece("b8", "c6")?;
    board.moves_piece("f1", "c4")?;
    board.moves_piece("f8", "c5")?;
    board.castling("e1", "h1")?;
    assert!(board.get("e1")?.is_none());
    assert_eq!(board.get("f1")?.unwrap().level, Level::Rook);
    assert_eq!(board.get("g1")?.unwrap().level, Level::King);
    assert!(board.get("h1")?.is_none());
    Ok(())
}

#[test]
fn board_promote() -> Result<(), Error> {
    let mut board = Board::new();
    board.moves_piece("h2", "h4")?;
    board.moves_piece("h4", "h5")?;
    board.moves_piece("h5", "h6")?;
    board.moves_piece("h6", "g7")?;
    board.moves_piece("g7", "f8")?;
    board.promote("f8", Level::Queen)?;
    assert_eq!(board.get("f8")?.unwrap().level, Level::Queen);
    assert_eq!(board.get("f8")?.unwrap().color, Color::White);
    Ok(())
}

#[test]
fn initial_position_and_history() -> Result<(), Error> {
    let board = Board::new();
    assert_eq!(board.get("a1")?.unwrap().level, Level::Rook);
    assert_eq!(board.get("d8")?.unwrap().level, Level::Queen);
    assert_eq!(board.get("d8")?.unwrap().color, Color::Black);
    assert!(board.get("e5")?.is_none());
    assert!(board.get_history().is_empty());
    assert!(matches!(board.get("z9"), Err(Error::InvalidNotation(_))));
    Ok(())
}

#[test]
fn move_then_undo_restores_board() -> Result<(), Error> {
    let mut board = Board::new();
    play(&mut board, &[("e2", "e4"), ("d7", "d5")])?;
    let before = board.clone();
    assert_eq!(board.history.len(), 2);
    board.moves_piece("e4", "d5")?;
    assert_eq!(board.history.len(), 3);
    assert_eq!(board.history[2].captured.as_ref().unwrap().color, Color::Black);
    assert_eq!(board.history[2].has_moved, None);
    board.undo_moves()?;
    assert_eq!(board, before);
    board.moves_piece("g1", "f3")?;
    board.undo_moves()?;
    assert_eq!(board, before);
    Ok(())
}

#[test]
fn moved_flag_set_on_first_move_only() -> Result<(), Error> {
    let mut board = Board::new();
    assert_eq!(board.get("a1")?.unwrap().moved, Some(false));
    play(&mut board, &[("a2", "a4"), ("a1", "a3")])?;
    assert_eq!(board.get("a3")?.unwrap().moved, Some(true));
    assert_eq!(board.history[1].has_moved, Some(true));
    board.moves_piece("a3", "b3")?;
    assert_eq!(board.history[2].has_moved, None);
    board.undo_moves()?;
    assert_eq!(board.get("a3")?.unwrap().moved, Some(true));
    board.undo_moves()?;
    assert_eq!(board.get("a1")?.unwrap().moved, Some(false));
    board.moves_piece("b1", "c3")?;
    assert_eq!(board.get("c3")?.unwrap().moved, None);
    Ok(())
}

#[test]
fn moves_piece_errors() -> Result<(), Error> {
    let mut board = Board::new();
    assert!(matches!(board.moves_piece("a2", "a5"), Err(Error::IllegalMoves(_))));
    assert!(matches!(board.moves_piece("a3", "a4"), Err(Error::IllegalMoves(_))));
    assert!(matches!(board.moves_piece("x2", "a4"), Err(Error::InvalidNotation(_))));
    assert!(matches!(board.moves_piece("a2", "a44"), Err(Error::InvalidNotation(_))));
    assert_eq!(board, Board::new());
    assert!(matches!(board.get_possible_moves("e4"), Err(Error::IllegalMoves(_))));
    Ok(())
}

#[test]
fn move_message_text() -> Result<(), Error> {
    let mut board = Board::new();
    assert_eq!(board.moves_piece("e2", "e4")?, "Moving White Pawn from e2 to e4");
    play(&mut board, &[("d7", "d5")])?;
    assert_eq!(board.moves_piece("e4", "d5")?, "Moving White Pawn from e4 to d5, captured Black Pawn");
    assert_eq!(board.undo_moves()?, "Undo the moves from e4 to d5");
    Ok(())
}

#[test]
fn undo_errors() -> Result<(), Error> {
    let mut board = Board::new();
    assert!(matches!(board.undo_moves(), Err(Error::GameError(_))));
    play(&mut board, &[("e2", "e4"), ("e7", "e5"), ("g1", "f3"), ("b8", "c6"), ("f1", "c4"), ("f8", "c5")])?;
    board.castling("e1", "h1")?;
    let after = board.clone();
    assert!(matches!(board.undo_moves(), Err(Error::GameError(_))));
    assert_eq!(board, after);
    Ok(())
}

#[test]
fn captured_pieces_in_order() -> Result<(), Error> {
    let mut board = Board::new();
    play(&mut board, &[("e2", "e4"), ("d7", "d5"), ("e4", "d5"), ("d8", "d5")])?;
    let black = board.get_captured(Color::Black)?;
    assert_eq!(black.len(), 1);
    assert_eq!(black[0].level, Level::Pawn);
    let white = board.get_captured(Color::White)?;
    assert_eq!(white.len(), 1);
    assert_eq!(white[0].color, Color::White);
    Ok(())
}

#[test]
fn positions_row_by_row() -> Result<(), Error> {
    let board = Board::new();
    let white = board.get_pieces_positions_by_color(Color::White)?;
    assert_eq!(white.len(), 16);
    assert_eq!(white[0], "a1");
    assert_eq!(white[8], "a2");
    assert_eq!(white[15], "h2");
    let black = board.get_pieces_positions_by_color(Color::Black)?;
    assert_eq!(black[0], "a7");
    assert_eq!(black[15], "h8");
    Ok(())
}

#[test]
fn moves_as_string() -> Result<(), Error> {
    let board = Board::new();
    assert_eq!(board.get_possible_moves_as_string("b1"), "a3 c3");
    assert_eq!(board.get_possible_moves_as_string("a1"), "");
    assert_eq!(board.get_possible_moves_as_string("e4"), "");
    assert_eq!(board.get_possible_moves_as_string("zz"), "");
    Ok(())
}

#[test]
fn pawn_attacks_empty_or_enemy_diagonals() -> Result<(), Error> {
    let mut board = Board::new();
    board.moves_piece("e2", "e4")?;
    let paz = board.get_possible_attack_by_color(Color::White)?;
    assert_eq!(*paz.get("a2").unwrap(), ["b3"]);
    assert_eq!(*paz.get("e4").unwrap(), ["d5", "f5"]);
    let moves = board.get_possible_moves_by_color(Color::White)?;
    assert_eq!(*moves.get("e4").unwrap(), ["e5"]);
    board.moves_piece("d7", "d5")?;
    let paz = board.get_possible_attack_by_color(Color::White)?;
    assert_eq!(*paz.get("e4").unwrap(), ["d5", "f5"]);
    assert_eq!(board.get_possible_moves("e4")?, ["d5", "e5"]);
    Ok(())
}

#[test]
fn stalemate_is_draw() -> Result<(), Error> {
    let mut board = empty_board()?;
    board.set("h8", Some(Piece::new(Level::King, Color::Black)))?;
    board.set("f7", Some(Piece::new(Level::King, Color::White)))?;
    board.set("g6", Some(Piece::new(Level::Queen, Color::White)))?;
    assert!(!board.is_king_checked(Color::Black)?);
    assert!(!board.has_safe_moves(Color::Black)?);
    assert!(board.is_draw(Color::Black)?);
    assert!(!board.is_checkmate(Color::Black)?);
    assert!(!board.is_draw(Color::White)?);
    assert!(board.has_safe_moves(Color::White)?);
    Ok(())
}

#[test]
fn missing_king_is_game_error() -> Result<(), Error> {
    let mut board = empty_board()?;
    board.set("a1", Some(Piece::new(Level::Rook, Color::White)))?;
    assert!(matches!(board.get_king_position(Color::White), Err(Error::GameError(_))));
    assert!(matches!(board.is_king_checked(Color::White), Err(Error::GameError(_))));
    assert!(matches!(board.is_checkmate(Color::White), Err(Error::GameError(_))));
    assert!(matches!(board.is_draw(Color::White), Err(Error::GameError(_))));
    Ok(())
}

#[test]
fn castling_queen_side_and_errors() -> Result<(), Error> {
    let mut board = empty_board()?;
    board.set("e8", Some(Piece::new(Level::King, Color::Black)))?;
    board.set("a8", Some(Piece::new(Level::Rook, Color::Black)))?;
    board.set("e1", Some(Piece::new(Level::King, Color::White)))?;
    board.set("h1", Some(Piece::new(Level::Rook, Color::White)))?;
    board.set("a1", Some(Piece::new(Level::Rook, Color::White)))?;
    assert!(matches!(board.castling("e1", "a8"), Err(Error::CastlingError(_))));
    assert!(matches!(board.castling("e1", "e4"), Err(Error::CastlingError(_))));
    assert!(matches!(board.castling("e1", "i1"), Err(Error::InvalidNotation(_))));
    assert_eq!(board.castling("e8", "a8")?, "Castling e8 and a8");
    assert_eq!(board.get("c8")?.unwrap().level, Level::King);
    assert_eq!(board.get("c8")?.unwrap().moved, Some(true));
    assert_eq!(board.get("d8")?.unwrap().level, Level::Rook);
    assert!(board.get("a8")?.is_none());
    assert!(board.get("e8")?.is_none());
    assert_eq!(board.history.len(), 1);
    assert_eq!(board.history[0].has_moved, Some(true));
    // the rook on d8 now attacks d1, which lies between e1 and a1
    assert!(matches!(board.castling("e1", "a1"), Err(Error::CastlingError(_))));
    board.set("b1", Some(Piece::new(Level::Knight, Color::White)))?;
    board.set("d8", None)?;
    assert!(matches!(board.castling("e1", "a1"), Err(Error::CastlingError(_))));
    board.moves_piece("h1", "h2")?;
    board.moves_piece("h2", "h1")?;
    assert!(matches!(board.castling("e1", "h1"), Err(Error::CastlingError(_))));
    Ok(())
}

#[test]
fn castling_refused_in_check() -> Result<(), Error> {
    let mut board = empty_board()?;
    board.set("e1", Some(Piece::new(Level::King, Color::White)))?;
    board.set("h1", Some(Piece::new(Level::Rook, Color::White)))?;
    board.set("e8", Some(Piece::new(Level::Rook, Color::Black)))?;
    assert!(matches!(board.castling("e1", "h1"), Err(Error::CastlingError(_))));
    board.set("e8", None)?;
    board.set("f8", Some(Piece::new(Level::Rook, Color::Black)))?;
    assert!(matches!(board.castling("e1", "h1"), Err(Error::CastlingError(_))));
    board.set("f8", None)?;
    board.castling("e1", "h1")?;
    assert_eq!(board.get("g1")?.unwrap().level, Level::King);
    Ok(())
}

#[test]
fn promotion_errors() -> Result<(), Error> {
    let mut board = empty_board()?;
    board.set("a8", Some(Piece::new(Level::Pawn, Color::White)))?;
    board.set("b1", Some(Piece::new(Level::Pawn, Color::Black)))?;
    board.set("c8", Some(Piece::new(Level::Pawn, Color::Black)))?;
    board.set("d8", Some(Piece::new(Level::Rook, Color::White)))?;
    assert!(matches!(board.promote("a8", Level::Pawn), Err(Error::PromotionError(_))));
    assert!(matches!(board.promote("a8", Level::King), Err(Error::PromotionError(_))));
    assert!(matches!(board.promote("c8", Level::Queen), Err(Error::PromotionError(_))));
    assert!(matches!(board.promote("d8", Level::Queen), Err(Error::PromotionError(_))));
    assert!(matches!(board.promote("e8", Level::Queen), Err(Error::PromotionError(_))));
    assert!(matches!(board.promote("e9", Level::Queen), Err(Error::InvalidNotation(_))));
    assert_eq!(board.promote("a8", Level::Knight)?, "Promoted to Knight");
    assert_eq!(board.get("a8")?.unwrap().icon, "♘");
    assert_eq!(board.promote("b1", Level::Rook)?, "Promoted to Rook");
    assert_eq!(board.get("b1")?.unwrap().color, Color::Black);
    assert_eq!(board.get("b1")?.unwrap().moved, Some(false));
    assert!(board.history.is_empty());
    Ok(())
}

#[test]
fn render_rows_top_down() -> Result<(), Error> {
    let board = Board::new();
    let text = board.render();
    let lines: Vec<&str> = text.lines().collect();
    assert_eq!(lines.len(), 8);
    assert_eq!(lines[0], "♜ ♞ ♝ ♛ ♚ ♝ ♞ ♜ ");
    assert_eq!(lines[2], "⬛ ⬛ ⬛ ⬛ ⬛ ⬛ ⬛ ⬛ ");
    assert_eq!(lines[7], "♖ ♘ ♗ ♕ ♔ ♗ ♘ ♖ ");
    Ok(())
}

#[test]
fn pawn_double_step_does_not_look_at_second_square() -> Result<(), Error> {
    let mut board = Board::new();
    board.set("a4", Some(Piece::new(Level::Knight, Color::White)))?;
    assert_eq!(board.get_possible_moves("a2")?, ["a3", "a4"]);
    board.set("a3", Some(Piece::new(Level::Knight, Color::Black)))?;
    assert!(board.get_possible_moves("a2")?.is_empty());
    Ok(())
}
