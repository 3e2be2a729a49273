use chess::game::{Color, History, Level, Piece};
use chess::model::{Status, Winner};

#[test]
fn print_color() {
    assert_eq!(Color::White.to_string(), "White");
    assert_eq!(Color::Black.to_string(), "Black");
}

#[test]
fn print_level() {
    assert_eq!(Level::Pawn.to_string(), "Pawn");
    assert_eq!(Level::Rook.to_string(), "Rook");
    assert_eq!(Level::Knight.to_string(), "Knight");
    assert_eq!(Level::Bishop.to_string(), "Bishop");
    assert_eq!(Level::Queen.to_string(), "Queen");
    assert_eq!(Level::King.to_string(), "King");
}

#[test]
fn print_history() {
    let mut his = History {
        from: "a2".to_string(),
        to: "a4".to_string(),
        captured: None,
        has_moved: Some(true),
    };
    assert_eq!(his.to_string(), "moves a2 to a4");

    let piece = Piece::new(Level::Pawn, Color::Black);
    his.captured = Some(piece);
    assert_eq!(his.to_string(), "moves a2 to a4, ♟  captured");
}

#[test]
fn piece_default() {
    let p = Piece::default();
    assert_eq!(p.level, Level::Pawn);
    assert_eq!(p.color, Color::White);
    assert_eq!(p.icon, "");
    assert_eq!(p.moved, None);
    assert_eq!(p.mv_unit, None);
}

#[test]
fn piece_new_pawn() {
    let p = Piece::new(Level::Pawn, Color::White);
    assert_eq!(p.level, Level::Pawn);
    assert_eq!(p.color, Color::White);
    assert_eq!(p.icon, "♙");
    assert_eq!(p.moved, Some(false));
    assert_eq!(p.mv_unit, Some(1));
}

#[test]
fn piece_new_rook() {
    let p = Piece::new(Level::Rook, Color::White);
    assert_eq!(p.level, Level::Rook);
    assert_eq!(p.color, Color::White);
    assert_eq!(p.icon, "♖");
    assert_eq!(p.moved, Some(false));
    assert_eq!(p.mv_unit, None);
}

#[test]
fn piece_new_bishop() {
    let p = Piece::new(Level::Bishop, Color::White);
    assert_eq!(p.level, Level::Bishop);
    assert_eq!(p.color, Color::White);
    assert_eq!(p.icon, "♗");
    assert_eq!(p.moved, None);
    assert_eq!(p.mv_unit, None);
}

#[test]
fn piece_new_black_pawn_and_king() {
    let p = Piece::new(Level::Pawn, Color::Black);
    assert_eq!(p.icon, "♟");
    assert_eq!(p.mv_unit, Some(-1));
    assert_eq!(p.moved, Some(false));
    let k = Piece::new(Level::King, Color::Black);
    assert_eq!(k.icon, "♚");
    assert_eq!(k.moved, Some(false));
    assert_eq!(k.mv_unit, None);
    let q = Piece::new(Level::Queen, Color::White);
    assert_eq!(q.icon, "♕");
    assert_eq!(q.moved, None);
    assert_eq!(q.to_string(), "♕");
}

#[test]
fn model_records() {
    assert_eq!(Status::Waiting.as_str(), "waiting");
    assert_eq!(Status::Playing.as_str(), "playing");
    assert_eq!(Status::GameOver.as_str(), "game over");
    assert_eq!(Status::default(), Status::Waiting);
    assert_eq!(Winner::default(), Winner::NotDecided);
    assert_eq!(Winner::from_color(chess::model::Color::White), Winner::White);
    assert_eq!(Winner::from_color(chess::model::Color::Black), Winner::Black);
    assert_eq!(chess::model::Color::White.opposite(), chess::model::Color::Black);
    assert_eq!(chess::model::Color::Black.opposite(), chess::model::Color::White);
    assert_eq!(chess::model::Color::White.as_str(), "white");
    assert_eq!(chess::model::Color::Black.as_str(), "black");
    assert_eq!(chess::model::Color::Black.as_color(), Color::Black);
    assert_eq!(chess::model::Color::White.as_color(), Color::White);
}
