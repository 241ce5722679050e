use rust_chess::castle_rights::CastleRights;
use rust_chess::castle_rights::CASTLE_RIGHTS;
use rust_chess::color::Color;
use rust_chess::color::COLORS;
use rust_chess::moves::Move;
use rust_chess::piece::Piece;
use rust_chess::piece::PieceType;
use rust_chess::piece::PIECES;
use rust_chess::square::Square;

#[test]
fn opposite_of_white_is_black() {
    assert_eq!(Color::White.opposite(), Color::Black);
    assert_eq!(Color::Black.opposite(), Color::White);
}

#[test]
fn colours_as_text_booleans_and_indices() {
    assert_eq!(Color::White.get_string(), "WHITE");
    assert_eq!(Color::Black.get_string(), "BLACK");
    assert!(Color::White.to_bool());
    assert!(!Color::Black.to_bool());
    assert_eq!(Color::from_bool(true), Color::White);
    assert_eq!(Color::from_bool(false), Color::Black);
    assert!(Color::White.eq_bool(true));
    assert!(!Color::White.eq_bool(false));
    assert!(Color::Black.eq_bool(false));
    assert!(!Color::Black.eq_bool(true));
    assert_eq!(Color::White.to_index(), 0);
    assert_eq!(Color::Black.to_index(), 1);
    assert_eq!(COLORS, [Color::White, Color::Black]);
}

#[test]
fn kinds_of_pieces_in_order() {
    let indices: Vec<u8> = PIECES.iter().map(|p| p.get_index()).collect();
    assert_eq!(indices, [0, 1, 2, 3, 4, 5]);
    assert_eq!(PieceType::Bishop.get_index(), 2);
    assert_eq!(PIECES[0], PieceType::Pawn);
    assert_eq!(PIECES[5], PieceType::King);
}

#[test]
fn letters_of_pieces() {
    let white: String = PIECES.iter().map(|p| p.get_symbol(Color::White)).collect();
    let black: String = PIECES.iter().map(|p| p.get_symbol(Color::Black)).collect();
    assert_eq!(white, "PNBRQK");
    assert_eq!(black, "pnbrqk");
    assert_eq!(PieceType::Pawn.get_string(Color::White), "P");
    assert_eq!(PieceType::Knight.get_string(Color::Black), "n");
    let piece = Piece::new(PieceType::Queen, Color::Black);
    assert_eq!(piece.piece_type, PieceType::Queen);
    assert_eq!(piece.color, Color::Black);
    assert_eq!(piece.get_index(), 4);
    assert_eq!(piece.get_symbol(), 'q');
    assert_eq!(piece.get_string(), "q");
    assert_eq!(Piece::new(PieceType::King, Color::White).get_string(), "K");
}

#[test]
fn figures_of_pieces() {
    let king = Piece::new(PieceType::King, Color::White);
    assert_eq!(king.get_unicode(false), '♔');
    assert_eq!(king.get_unicode(true), '♚');
    let pawn = Piece::new(PieceType::Pawn, Color::Black);
    assert_eq!(pawn.get_unicode(false), '♟');
    assert_eq!(pawn.get_unicode(true), '♙');
    let light: String =
        PIECES.iter().map(|p| Piece::new(*p, Color::White).get_unicode(false)).collect();
    assert_eq!(light, "♙♘♗♖♕♔");
    let dark: String =
        PIECES.iter().map(|p| Piece::new(*p, Color::White).get_unicode(true)).collect();
    assert_eq!(dark, "♟♞♝♜♛♚");
}

#[test]
fn castle_rights_by_wing() {
    assert!(!CastleRights::NoRights.has_any());
    assert!(CastleRights::KingSide.has_any());
    assert!(CastleRights::KingSide.has_kingside());
    assert!(!CastleRights::KingSide.has_queenside());
    assert!(CastleRights::QueenSide.has_queenside());
    assert!(!CastleRights::QueenSide.has_kingside());
    assert!(CastleRights::Both.has_kingside());
    assert!(CastleRights::Both.has_queenside());
    assert!(!CastleRights::NoRights.has_kingside());
    assert!(!CastleRights::NoRights.has_queenside());
    assert_eq!(CASTLE_RIGHTS[1], CastleRights::KingSide);
    assert_eq!(CASTLE_RIGHTS[2], CastleRights::QueenSide);
}

#[test]
fn squares_by_index_file_and_rank() {
    assert_eq!(Square::from_index(64), None);
    assert_eq!(Square::from_index(255), None);
    let e4 = Square::from_index(28).unwrap();
    assert_eq!(e4.get_index(), 28);
    assert_eq!(e4.get_file(), 4);
    assert_eq!(e4.get_rank(), 3);
    assert_eq!(Square::new(4, 3), Some(e4));
    assert_eq!(Square::new(8, 0), None);
    assert_eq!(Square::new(0, 8), None);
    assert_eq!(Square::new(0, 0).unwrap().get_index(), 0);
    assert_eq!(Square::new(7, 7).unwrap().get_index(), 63);
}

#[test]
fn squares_by_name() {
    assert_eq!(Square::named('e', '4'), Square::from_index(28));
    assert_eq!(Square::named('a', '1'), Square::from_index(0));
    assert_eq!(Square::named('h', '8'), Square::from_index(63));
    assert_eq!(Square::named('i', '1'), None);
    assert_eq!(Square::named('a', '9'), None);
    assert_eq!(Square::named('a', '0'), None);
    assert_eq!(Square::named('E', '4'), None);
    for index in 0..64 {
        let square = Square::from_index(index).unwrap();
        let name: Vec<char> = square.get_name().chars().collect();
        assert_eq!(name.len(), 2);
        assert_eq!(Square::named(name[0], name[1]), Some(square));
    }
    assert_eq!(Square::from_index(28).unwrap().get_name(), "e4");
    assert_eq!(Square::from_index(56).unwrap().get_name(), "a8");
}

#[test]
fn squares_above_and_below() {
    let e4 = Square::from_index(28).unwrap();
    assert_eq!(e4.up(), Square::from_index(36));
    assert_eq!(e4.down(), Square::from_index(20));
    assert_eq!(e4.forward(Color::White), Square::from_index(36));
    assert_eq!(e4.forward(Color::Black), Square::from_index(20));
    assert_eq!(Square::from_index(60).unwrap().up(), None);
    assert_eq!(Square::from_index(55).unwrap().up(), Square::from_index(63));
    assert_eq!(Square::from_index(3).unwrap().down(), None);
    assert_eq!(Square::from_index(8).unwrap().down(), Square::from_index(0));
}

#[test]
fn moves_in_writing() {
    let e2 = Square::from_index(12).unwrap();
    let e4 = Square::from_index(28).unwrap();
    let plain = Move::new(e2, e4, None);
    assert_eq!(Move::from_uci("e2e4"), Some(plain));
    assert_eq!(plain.get_source(), e2);
    assert_eq!(plain.get_dest(), e4);
    assert_eq!(plain.get_promotion(), None);
    assert_eq!(plain.get_uci(), "e2e4");
    let promotion = Move::from_uci("e7e8q").unwrap();
    assert_eq!(promotion.get_promotion(), Some(PieceType::Queen));
    assert_eq!(promotion.get_uci(), "e7e8q");
    assert_eq!(Move::from_uci("a7a8n").unwrap().get_promotion(), Some(PieceType::Knight));
    assert_eq!(Move::from_uci("a7a8r").unwrap().get_promotion(), Some(PieceType::Rook));
    assert_eq!(Move::from_uci("a7a8b").unwrap().get_promotion(), Some(PieceType::Bishop));
}

#[test]
fn writing_that_is_no_move() {
    for text in ["", "e2", "e2e", "e2e9", "i2e4", "e2e4k", "e2e4Q", "e2e4qq", "e2-e4", "E2E4", " e2e4"] {
        assert_eq!(Move::from_uci(text), None, "{}", text);
    }
}
