use chess::error::Error;
use chess::game::turn::{play_turn, Verdict};
use chess::game::{invert, Board, Color, Level, Piece};
use chess::model::Color as Side;
use chess::model::{after_verdict, join_room, status_after_leave, Status, Winner};

fn empty_board() -> Result<Board, Error> {
    let mut board = Board::new();
    for row in 0..8i8 {
        for col in 0..8i8 {
            board.set(&invert(row, col)?, None)?;
        }
    }
    Ok(board)
}

#[test]
fn turn_scholars_mate() -> Result<(), Error> {
    let mut board = Board::new();
    let opening = [
        (Color::White, "e2", "e4"),
        (Color::Black, "e7", "e5"),
        (Color::White, "d1", "f3"),
        (Color::Black, "b8", "c6"),
        (Color::White, "f1", "c4"),
        (Color::Black, "f8", "c5"),
    ];
    for (side, from, to) in opening {
        assert_eq!(play_turn(&mut board, side, from, to)?.1, Verdict::Moved);
    }
    let (msg, verdict) = play_turn(&mut board, Color::White, "f3", "f7")?;
    assert_eq!(verdict, Verdict::Checkmate);
    assert_eq!(msg, "Moving White Queen from f3 to f7, captured Black Pawn");
    assert_eq!(board.history.len(), 7);
    Ok(())
}

#[test]
fn turn_gives_check() -> Result<(), Error> {
    let mut board = Board::new();
    play_turn(&mut board, Color::White, "e2", "e4")?;
    play_turn(&mut board, Color::Black, "f7", "f6")?;
    assert_eq!(play_turn(&mut board, Color::White, "d1", "h5")?.1, Verdict::Check);
    Ok(())
}

#[test]
fn turn_refuses_exposing_own_king() -> Result<(), Error> {
    let mut board = empty_board()?;
    board.set("e1", Some(Piece::new(Level::King, Color::White)))?;
    board.set("e2", Some(Piece::new(Level::Rook, Color::White)))?;
    board.set("e8", Some(Piece::new(Level::Rook, Color::Black)))?;
    board.set("a8", Some(Piece::new(Level::King, Color::Black)))?;
    let before = board.clone();
    assert_eq!(play_turn(&mut board, Color::White, "e2", "d2")?.1, Verdict::Illegal);
    assert_eq!(board, before);
    assert_eq!(play_turn(&mut board, Color::White, "e2", "e5")?.1, Verdict::Moved);
    Ok(())
}

#[test]
fn turn_stalemates() -> Result<(), Error> {
    let mut board = empty_board()?;
    board.set("h8", Some(Piece::new(Level::King, Color::Black)))?;
    board.set("f7", Some(Piece::new(Level::King, Color::White)))?;
    board.set("g5", Some(Piece::new(Level::Queen, Color::White)))?;
    assert_eq!(play_turn(&mut board, Color::White, "g5", "g6")?.1, Verdict::Draw);
    Ok(())
}

#[test]
fn turn_errors_leave_board() -> Result<(), Error> {
    let mut board = Board::new();
    assert!(matches!(play_turn(&mut board, Color::White, "e2", "e5"), Err(Error::IllegalMoves(_))));
    assert!(matches!(play_turn(&mut board, Color::White, "e2", "k5"), Err(Error::InvalidNotation(_))));
    assert_eq!(board, Board::new());
    board.set("e8", None)?;
    let before = board.clone();
    assert!(matches!(play_turn(&mut board, Color::White, "e2", "e4"), Err(Error::GameError(_))));
    assert_eq!(board, before);
    Ok(())
}

#[test]
fn room_seating_and_results() {
    assert_eq!(join_room(Status::Waiting, None), Some((Side::White, Status::Waiting)));
    assert_eq!(join_room(Status::Waiting, Some(Side::White)), Some((Side::Black, Status::Playing)));
    assert_eq!(join_room(Status::GameOver, Some(Side::Black)), Some((Side::White, Status::GameOver)));
    assert_eq!(join_room(Status::Playing, Some(Side::Black)), None);
    assert_eq!(status_after_leave(Status::Playing), Status::Waiting);
    assert_eq!(status_after_leave(Status::GameOver), Status::GameOver);
    assert_eq!(
        after_verdict(Verdict::Checkmate, Side::Black, Status::Playing, Winner::NotDecided),
        (Status::GameOver, Winner::Black)
    );
    assert_eq!(
        after_verdict(Verdict::Draw, Side::White, Status::Playing, Winner::NotDecided),
        (Status::GameOver, Winner::Draw)
    );
    assert_eq!(
        after_verdict(Verdict::Check, Side::White, Status::Playing, Winner::NotDecided),
        (Status::Playing, Winner::NotDecided)
    );
}
