use rust_chess::bitboard::Bitboard;
use rust_chess::classify;
use rust_chess::color::Color;
use rust_chess::draw;
use rust_chess::draw::BoardStatus;
use rust_chess::moves::Move;
use rust_chess::piece::PieceType;
use rust_chess::position::PositionStatus;
use rust_chess::square::Square;

fn mv(text: &str) -> Move {
    Move::from_uci(text).unwrap()
}

fn square(name: &str) -> Square {
    let chars: Vec<char> = name.chars().collect();
    Square::named(chars[0], chars[1]).unwrap()
}

fn bits(names: &[&str]) -> Bitboard {
    let mut all = Bitboard::empty();
    for name in names {
        all = all.or(Bitboard::from_square(square(name)));
    }
    all
}

#[test]
fn the_en_passant_square_is_one_rank_beyond_the_marker() {
    let e5 = Some(square("e5"));
    assert_eq!(classify::en_passant_square(e5, Color::White), Some(square("e6")));
    let e4 = Some(square("e4"));
    assert_eq!(classify::en_passant_square(e4, Color::Black), Some(square("e3")));
    assert_eq!(classify::en_passant_square(None, Color::White), None);
    assert_eq!(classify::en_passant_square(None, Color::Black), None);
    assert_eq!(classify::en_passant_square(Some(square("a8")), Color::White), None);
    assert_eq!(classify::en_passant_square(Some(square("h1")), Color::Black), None);
}

#[test]
fn a_diagonal_step_differs_by_seven_or_nine() {
    assert!(classify::is_diagonal_step(mv("e5f6")));
    assert!(classify::is_diagonal_step(mv("e5d6")));
    assert!(classify::is_diagonal_step(mv("e5f4")));
    assert!(classify::is_diagonal_step(mv("e5d4")));
    assert!(!classify::is_diagonal_step(mv("e5e6")));
    assert!(!classify::is_diagonal_step(mv("e5g7")));
    assert!(!classify::is_diagonal_step(mv("e5e5")));
    assert!(classify::is_diagonal_step(mv("a2h2")));
}

#[test]
fn en_passant_needs_the_square_a_pawn_a_diagonal_and_an_empty_target() {
    let pawn = Some(PieceType::Pawn);
    let target = Some(square("f6"));
    assert!(classify::is_en_passant(target, mv("e5f6"), pawn, None));
    assert!(classify::is_capture(target, mv("e5f6"), pawn, None));
    assert!(!classify::is_en_passant(target, mv("e5f6"), pawn, Some(PieceType::Knight)));
    assert!(classify::is_capture(target, mv("e5f6"), pawn, Some(PieceType::Knight)));
    assert!(!classify::is_en_passant(target, mv("e5f6"), Some(PieceType::Bishop), None));
    assert!(!classify::is_en_passant(target, mv("f5f6"), pawn, None));
    assert!(!classify::is_en_passant(target, mv("e5d6"), pawn, None));
    assert!(!classify::is_en_passant(None, mv("e5f6"), pawn, None));
    assert!(!classify::is_en_passant(target, mv("e5f6"), None, None));
    assert!(!classify::is_capture(target, mv("f5f6"), pawn, None));
}

#[test]
fn zeroing_from_the_two_pieces() {
    assert!(classify::is_zeroing(Some(PieceType::Pawn), None));
    assert!(classify::is_zeroing(Some(PieceType::Knight), Some(PieceType::Pawn)));
    assert!(classify::is_zeroing(Some(PieceType::Pawn), Some(PieceType::Queen)));
    assert!(classify::is_zeroing(None, Some(PieceType::Queen)));
    assert!(!classify::is_zeroing(Some(PieceType::Knight), None));
    assert!(!classify::is_zeroing(Some(PieceType::King), None));
    assert!(!classify::is_zeroing(None, None));
}

#[test]
fn castling_from_the_moving_piece() {
    let king = Some(PieceType::King);
    assert!(classify::is_castling(mv("e1g1"), king));
    assert!(classify::is_castling(mv("e8c8"), king));
    assert!(classify::is_castling_kingside(mv("e8g8"), king));
    assert!(!classify::is_castling_kingside(mv("e8c8"), king));
    assert!(classify::is_castling_queenside(mv("e1c1"), king));
    assert!(!classify::is_castling_queenside(mv("e1g1"), king));
    assert!(!classify::is_castling(mv("e1f1"), king));
    assert!(!classify::is_castling(mv("e1e3"), king));
    assert!(!classify::is_castling(mv("e1g1"), Some(PieceType::Rook)));
    assert!(!classify::is_castling(mv("e1g1"), None));
}

#[test]
fn the_move_rules_need_an_ongoing_position() {
    assert!(!draw::is_fifty_moves(99, PositionStatus::Ongoing));
    assert!(draw::is_fifty_moves(100, PositionStatus::Ongoing));
    assert!(draw::is_fifty_moves(255, PositionStatus::Ongoing));
    assert!(!draw::is_fifty_moves(100, PositionStatus::Checkmate));
    assert!(!draw::is_fifty_moves(100, PositionStatus::Stalemate));
    assert!(!draw::is_seventy_five_moves(149, PositionStatus::Ongoing));
    assert!(draw::is_seventy_five_moves(150, PositionStatus::Ongoing));
    assert!(!draw::is_seventy_five_moves(150, PositionStatus::Checkmate));
    assert!(!draw::is_seventy_five_moves(150, PositionStatus::Stalemate));
}

#[test]
fn squares_of_the_same_colour() {
    assert!(draw::is_same_square_color(square("a1"), square("h8")));
    assert!(draw::is_same_square_color(square("f4"), square("f6")));
    assert!(draw::is_same_square_color(square("c1"), square("f8")));
    assert!(!draw::is_same_square_color(square("f4"), square("f5")));
    assert!(!draw::is_same_square_color(square("a1"), square("a8")));
    assert!(!draw::is_same_square_color(square("c1"), square("f1")));
    assert!(draw::is_same_square_color(square("d4"), square("d4")));
}

#[test]
fn insufficient_material_from_the_bitboards() {
    let kings = bits(&["e1", "e8"]);
    let none = Bitboard::empty();
    let white_king = bits(&["e1"]);
    let black_king = bits(&["e8"]);
    assert!(draw::is_insufficient_material(kings, none, none, white_king, black_king));
    let knight = bits(&["f4"]);
    assert!(draw::is_insufficient_material(kings, knight, none, white_king.or(knight), black_king));
    assert!(draw::is_insufficient_material(kings, knight, none, white_king, black_king.or(knight)));
    let bishop = bits(&["f4"]);
    assert!(draw::is_insufficient_material(kings, none, bishop, white_king.or(bishop), black_king));
    let rook = bits(&["f4"]);
    assert!(!draw::is_insufficient_material(kings, none, none, white_king.or(rook), black_king));
    let same = bits(&["f4", "f6"]);
    assert!(draw::is_insufficient_material(
        kings,
        none,
        same,
        white_king.or(bits(&["f4"])),
        black_king.or(bits(&["f6"]))
    ));
    let other = bits(&["f4", "f5"]);
    assert!(!draw::is_insufficient_material(
        kings,
        none,
        other,
        white_king.or(bits(&["f4"])),
        black_king.or(bits(&["f5"]))
    ));
    assert!(!draw::is_insufficient_material(
        kings,
        none,
        same,
        white_king.or(same),
        black_king
    ));
    let two_knights = bits(&["f4", "f6"]);
    assert!(!draw::is_insufficient_material(
        kings,
        two_knights,
        none,
        white_king.or(bits(&["f4"])),
        black_king.or(bits(&["f6"]))
    ));
    let three = bits(&["f4", "f6", "a1"]);
    assert!(!draw::is_insufficient_material(
        kings,
        none,
        three,
        white_king.or(bits(&["f4", "a1"])),
        black_king.or(bits(&["f6"]))
    ));
    assert!(!draw::is_insufficient_material(
        kings,
        bits(&["a1"]),
        bits(&["f4"]),
        white_king.or(bits(&["f4"])),
        black_king.or(bits(&["a1"]))
    ));
}

#[test]
fn repetition_needs_enough_positions() {
    assert!(!draw::is_n_repetition(&vec![7; 8], 3));
    assert!(draw::is_n_repetition(&vec![7; 9], 3));
    assert!(!draw::is_n_repetition(&vec![7; 16], 5));
    assert!(draw::is_n_repetition(&vec![7; 17], 5));
    assert!(!draw::is_n_repetition(&vec![7; 4], 2));
    assert!(draw::is_n_repetition(&vec![7; 5], 2));
    assert!(!draw::is_n_repetition(&Vec::new(), 1));
    assert!(draw::is_n_repetition(&vec![7], 1));
    assert!(draw::is_n_repetition(&Vec::new(), 0));
    assert!(!draw::is_n_repetition(&vec![7; 1016], 255));
    assert!(draw::is_n_repetition(&vec![7; 1017], 255));
}

#[test]
fn repetition_every_four_plies() {
    let history = vec![1, 2, 3, 4, 1, 2, 3, 4, 1];
    assert!(draw::is_n_repetition(&history, 3));
    assert!(draw::is_n_repetition(&history, 2));
    assert!(!draw::is_n_repetition(&history, 4));
    let history = vec![9, 2, 3, 4, 1, 2, 3, 4, 1];
    assert!(!draw::is_n_repetition(&history, 3));
    assert!(draw::is_n_repetition(&history, 2));
    let history = vec![1, 2, 3, 4, 9, 2, 3, 4, 1];
    assert!(!draw::is_n_repetition(&history, 3));
    assert!(draw::is_n_repetition(&history, 2));
}

#[test]
fn repetition_with_wider_gaps() {
    let history = vec![1, 2, 3, 4, 5, 6, 1, 8, 9, 10, 11, 12, 1];
    assert!(draw::is_n_repetition(&history, 3));
    let history = vec![1, 2, 1, 4, 5, 6, 7, 8, 9, 10, 1];
    assert!(!draw::is_n_repetition(&history, 3));
    assert!(draw::is_n_repetition(&history, 2));
    let history = vec![0, 0, 1, 2, 3, 4, 1, 6, 7, 8, 1];
    assert!(draw::is_n_repetition(&history, 3));
}

#[test]
fn repetition_looks_only_at_every_second_ply() {
    let history = vec![0, 1, 2, 1, 4, 1, 6, 1, 1];
    assert!(!draw::is_n_repetition(&history, 2));
    let history = vec![1, 2, 3, 4, 5, 6, 1];
    assert!(draw::is_n_repetition(&history, 2));
    let history = vec![5, 1, 1, 1, 5, 1, 1, 1, 5];
    assert!(draw::is_n_repetition(&history, 3));
}

#[test]
fn the_search_stops_where_too_few_positions_are_left() {
    let history = vec![1, 0, 1, 0, 0, 0, 0, 0, 0, 0, 1];
    assert!(!draw::is_n_repetition(&history, 3));
    let history = vec![1, 0, 0, 0, 1, 0, 0, 0, 0, 0, 1];
    assert!(draw::is_n_repetition(&history, 3));
}

#[test]
fn the_status_follows_the_order_of_the_rules() {
    let (ongoing, stalemate, checkmate) =
        (PositionStatus::Ongoing, PositionStatus::Stalemate, PositionStatus::Checkmate);
    assert_eq!(draw::get_status(ongoing, 0, false, false), BoardStatus::Ongoing);
    assert_eq!(draw::get_status(ongoing, 100, false, false), BoardStatus::Ongoing);
    assert_eq!(draw::get_status(ongoing, 150, false, false), BoardStatus::SeventyFiveMoves);
    assert_eq!(draw::get_status(ongoing, 150, true, true), BoardStatus::SeventyFiveMoves);
    assert_eq!(draw::get_status(ongoing, 149, true, true), BoardStatus::InsufficientMaterial);
    assert_eq!(draw::get_status(ongoing, 0, true, false), BoardStatus::InsufficientMaterial);
    assert_eq!(draw::get_status(ongoing, 0, false, true), BoardStatus::FiveFoldRepetition);
    assert_eq!(draw::get_status(checkmate, 200, true, true), BoardStatus::Checkmate);
    assert_eq!(draw::get_status(stalemate, 200, true, true), BoardStatus::Stalemate);
    assert_eq!(draw::get_status(checkmate, 0, false, false), BoardStatus::Checkmate);
    assert_eq!(draw::get_status(stalemate, 0, false, false), BoardStatus::Stalemate);
}

#[test]
fn the_statuses_are_ordered() {
    assert!(BoardStatus::Ongoing < BoardStatus::SeventyFiveMoves);
    assert!(BoardStatus::SeventyFiveMoves < BoardStatus::FiveFoldRepetition);
    assert!(BoardStatus::FiveFoldRepetition < BoardStatus::InsufficientMaterial);
    assert!(BoardStatus::InsufficientMaterial < BoardStatus::Stalemate);
    assert!(BoardStatus::Stalemate < BoardStatus::Checkmate);
}
