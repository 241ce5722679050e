use rust_chess::bitboard::Bitboard;
use rust_chess::game::GameState;
use rust_chess::game::RepetitionDetectionMode;
use rust_chess::movegen::MoveGenerator;
use rust_chess::moves::Move;
use rust_chess::square::Square;

fn start() -> GameState {
    GameState::new(None, RepetitionDetectionMode::Full).unwrap()
}

fn mv(text: &str) -> Move {
    Move::from_uci(text).unwrap()
}

fn moves(texts: &[&str]) -> Vec<Move> {
    texts.iter().map(|text| mv(text)).collect()
}

fn square(name: &str) -> Square {
    let chars: Vec<char> = name.chars().collect();
    Square::named(chars[0], chars[1]).unwrap()
}

fn mask(names: &[&str]) -> Bitboard {
    let mut all = Bitboard::empty();
    for name in names {
        all = all.or(Bitboard::from_square(square(name)));
    }
    all
}

fn uci(list: &[Move]) -> Vec<String> {
    list.iter().map(|m| m.get_uci()).collect()
}

#[test]
fn the_enumerator_counts_without_handing_out() {
    let mut game = start();
    assert_eq!(game.get_generator_num_remaining(), 20);
    assert_eq!(game.get_generator_num_remaining(), 20);
    assert_eq!(game.generate_next_move(), Some(mv("a2a3")));
    assert_eq!(game.get_generator_num_remaining(), 19);
}

#[test]
fn the_moves_of_the_start_come_in_the_order_of_generation() {
    let mut game = start();
    let all = game.generate_legal_moves();
    assert_eq!(
        uci(&all),
        [
            "a2a3", "a2a4", "b2b3", "b2b4", "c2c3", "c2c4", "d2d3", "d2d4", "e2e3", "e2e4",
            "f2f3", "f2f4", "g2g3", "g2g4", "h2h3", "h2h4", "b1a3", "b1c3", "g1f3", "g1h3",
        ]
    );
    assert_eq!(game.get_generator_num_remaining(), 0);
    assert_eq!(game.generate_next_move(), None);
    assert!(game.generate_legal_moves().is_empty());
}

#[test]
fn reset_makes_every_move_pending_again() {
    let mut game = start();
    assert_eq!(game.generate_legal_moves().len(), 20);
    assert_eq!(game.get_generator_num_remaining(), 0);
    game.reset_move_generator();
    assert_eq!(game.get_generator_num_remaining(), 20);
    game.set_generator_mask(mask(&["e4"]));
    game.remove_generator_move(mv("a2a3"));
    game.reset_move_generator();
    assert_eq!(game.get_generator_num_remaining(), 20);
    assert_eq!(game.generate_next_move(), Some(mv("a2a3")));
}

#[test]
fn a_removed_move_is_never_handed_out() {
    let mut game = start();
    game.remove_generator_move(mv("a2a3"));
    assert_eq!(game.get_generator_num_remaining(), 19);
    assert_eq!(game.generate_next_move(), Some(mv("a2a4")));
    assert_eq!(game.get_generator_num_remaining(), 18);
    let rest = game.generate_moves();
    assert_eq!(rest.len(), 18);
    assert!(!rest.contains(&mv("a2a3")));
    assert_eq!(game.get_generator_num_remaining(), 0);
}

#[test]
fn removing_every_move_of_a_piece_leaves_the_others() {
    let mut game = start();
    game.remove_generator_move(mv("b1a3"));
    game.remove_generator_move(mv("b1c3"));
    assert_eq!(game.get_generator_num_remaining(), 18);
    game.remove_generator_move(mv("a2a3"));
    game.remove_generator_move(mv("a2a4"));
    assert_eq!(game.get_generator_num_remaining(), 16);
    assert_eq!(game.generate_next_move(), Some(mv("b2b3")));
    let rest = game.generate_moves();
    assert_eq!(rest.len(), 15);
    assert_eq!(rest.last(), Some(&mv("g1h3")));
}

#[test]
fn removing_a_move_that_is_not_there_changes_nothing() {
    let mut game = start();
    game.remove_generator_move(mv("e2e5"));
    game.remove_generator_move(mv("a7a8q"));
    assert_eq!(game.get_generator_num_remaining(), 20);
}

#[test]
fn a_removed_move_stays_removed_when_the_mask_changes() {
    let mut game = start();
    game.remove_generator_move(mv("e2e4"));
    game.set_generator_mask(mask(&["e4"]));
    assert_eq!(game.get_generator_num_remaining(), 0);
    assert_eq!(game.generate_next_move(), None);
    game.set_generator_mask(Bitboard::full());
    assert_eq!(game.get_generator_num_remaining(), 19);
    assert!(!game.generate_moves().contains(&mv("e2e4")));
}

#[test]
fn a_mask_of_one_square_with_one_move() {
    let mut game = start();
    game.set_generator_mask(mask(&["e4"]));
    assert_eq!(game.get_generator_num_remaining(), 1);
    assert_eq!(game.generate_next_move(), Some(mv("e2e4")));
    assert_eq!(game.get_generator_num_remaining(), 0);
    assert_eq!(game.generate_next_move(), None);
    assert_eq!(game.generate_next_move(), None);
}

#[test]
fn a_mask_of_several_squares() {
    let mut game = start();
    game.set_generator_mask(Bitboard::from_uint(402915328));
    assert_eq!(game.get_generator_num_remaining(), 4);
    assert_eq!(uci(&game.generate_moves()), ["c2c3", "d2d4", "e2e4", "b1c3"]);
    assert_eq!(game.get_generator_num_remaining(), 0);
}

#[test]
fn a_handed_out_move_stays_handed_out_when_the_mask_changes() {
    let mut game = start();
    game.set_generator_mask(mask(&["c3"]));
    assert_eq!(uci(&game.generate_moves()), ["c2c3", "b1c3"]);
    game.set_generator_mask(Bitboard::full());
    assert_eq!(game.get_generator_num_remaining(), 18);
    let rest = game.generate_moves();
    assert!(!rest.contains(&mv("c2c3")));
    assert!(!rest.contains(&mv("b1c3")));
    game.set_generator_mask(mask(&["c3"]));
    assert_eq!(game.get_generator_num_remaining(), 0);
}

#[test]
fn a_removed_mask_excludes_its_squares_for_good() {
    let mut game = start();
    game.remove_generator_mask(mask(&["e4"]));
    assert_eq!(game.get_generator_num_remaining(), 19);
    assert!(!game.generate_moves().contains(&mv("e2e4")));
    assert_eq!(game.get_generator_num_remaining(), 0);
    game.reset_move_generator();
    game.remove_generator_mask(mask(&["a3", "a4"]));
    assert_eq!(game.get_generator_num_remaining(), 17);
    assert_eq!(game.generate_next_move(), Some(mv("b2b3")));
    game.set_generator_mask(mask(&["a3", "a4", "h3"]));
    assert_eq!(uci(&game.generate_moves()), ["h2h3", "g1h3"]);
}

#[test]
fn captures_first_and_then_the_rest() {
    let mut game = start();
    game.make_move(mv("e2e4"), true).unwrap();
    game.make_move(mv("d7d5"), true).unwrap();
    assert_eq!(game.get_generator_num_remaining(), 31);
    assert_eq!(uci(&game.generate_legal_captures()), ["e4d5"]);
    assert_eq!(game.get_generator_num_remaining(), 0);
    assert!(game.generate_legal_captures().is_empty());
    let rest = game.generate_legal_moves();
    assert_eq!(rest.len(), 30);
    assert!(!rest.contains(&mv("e4d5")));
}

#[test]
fn the_next_capture_and_the_next_move() {
    let mut game = start();
    game.make_move(mv("e2e4"), true).unwrap();
    game.make_move(mv("d7d5"), true).unwrap();
    assert_eq!(game.generate_next_legal_capture(), Some(mv("e4d5")));
    assert_eq!(game.generate_next_legal_capture(), None);
    assert_eq!(game.generate_next_legal_move(), Some(mv("a2a3")));
    assert_eq!(game.get_generator_num_remaining(), 29);
    assert_eq!(start().generate_next_legal_capture(), None);
    assert_eq!(start().generate_next_legal_move(), Some(mv("a2a3")));
}

#[test]
fn every_move_has_a_fresh_enumerator() {
    let mut game = start();
    game.set_generator_mask(mask(&["e4"]));
    game.generate_next_move();
    game.make_move(mv("e2e4"), true).unwrap();
    assert_eq!(game.get_generator_num_remaining(), 20);
    assert_eq!(game.generate_next_move(), Some(mv("a7a5")));
}

#[test]
fn promotions_are_four_moves() {
    let mut game =
        GameState::from_fen("7k/P7/8/8/8/8/8/K7 w - - 0 1", RepetitionDetectionMode::Full).unwrap();
    assert_eq!(game.get_generator_num_remaining(), 7);
    game.set_generator_mask(mask(&["a8"]));
    assert_eq!(game.get_generator_num_remaining(), 4);
    game.remove_generator_move(mv("a7a8r"));
    assert_eq!(uci(&game.generate_moves()), ["a7a8q", "a7a8n", "a7a8b"]);
}

#[test]
fn an_enumerator_over_given_moves() {
    let list = moves(&["a2a3", "b1c3", "e2e4", "c2c3", "e1g1"]);
    let mut generator = MoveGenerator::new(list);
    assert_eq!(generator.len(), 5);
    assert_eq!(generator.get_mask(), Bitboard::full());
    generator.set_mask(mask(&["c3", "g1"]));
    assert_eq!(generator.get_mask(), mask(&["c3", "g1"]));
    assert_eq!(generator.len(), 3);
    assert_eq!(generator.next(), Some(mv("b1c3")));
    generator.remove_move(mv("e1g1"));
    assert_eq!(generator.next(), Some(mv("c2c3")));
    assert_eq!(generator.next(), None);
    generator.set_mask(Bitboard::full());
    assert_eq!(uci(&generator.take_all()), ["a2a3", "e2e4"]);
    assert_eq!(generator.len(), 0);
    generator.reset();
    assert_eq!(generator.len(), 5);
    generator.remove_mask(mask(&["c3"]));
    assert_eq!(uci(&generator.take_all()), ["a2a3", "e2e4", "e1g1"]);
}

#[test]
fn an_enumerator_over_no_moves() {
    let mut generator = MoveGenerator::new(Vec::new());
    assert_eq!(generator.len(), 0);
    assert_eq!(generator.next(), None);
    assert!(generator.take_all().is_empty());
    let mut mate = GameState::from_fen(
        "rnb1kbnr/pppp1ppp/4p3/8/6Pq/5P2/PPPPP2P/RNBQKBNR w KQkq - 1 3",
        RepetitionDetectionMode::Full,
    )
    .unwrap();
    assert_eq!(mate.get_generator_num_remaining(), 0);
    assert_eq!(mate.generate_next_move(), None);
}

#[test]
fn a_repeated_move_is_removed_everywhere() {
    let list = moves(&["a2a3", "e2e4", "a2a3"]);
    let mut generator = MoveGenerator::new(list);
    generator.remove_move(mv("a2a3"));
    assert_eq!(uci(&generator.take_all()), ["e2e4"]);
}

#[test]
fn the_quick_test_of_moves_of_the_enumerator() {
    let mut game = start();
    let all = game.generate_legal_moves();
    for m in all {
        assert!(game.is_legal_generator_move(m));
    }
    assert!(!game.is_legal_generator_move(mv("e4e5")));
    let game = GameState::from_fen(
        "rnbqkbnr/pp2p1pp/2p5/3pPp2/5P2/8/PPPP2PP/RNBQKBNR w KQkq f6 0 4",
        RepetitionDetectionMode::Full,
    )
    .unwrap();
    assert!(game.is_legal_generator_move(mv("e5f6")));
    assert!(!start().is_legal_generator_move(mv("e2d3")));
}

#[test]
fn the_mask_is_set_to_the_pieces_of_the_other_side_or_to_all_squares() {
    let mut game = start();
    game.make_move(mv("e2e4"), true).unwrap();
    game.make_move(mv("d7d5"), true).unwrap();
    game.set_generator_mask_to_captures();
    assert_eq!(game.get_generator_num_remaining(), 1);
    assert_eq!(game.generate_next_move(), Some(mv("e4d5")));
    assert_eq!(game.generate_next_move(), None);
    game.set_generator_mask_to_all();
    assert_eq!(game.get_generator_num_remaining(), 30);
    assert_eq!(game.generate_next_move(), Some(mv("a2a3")));
}

#[test]
fn a_fresh_enumerator_counts_every_legal_move() {
    for fen in [
        "rnbqkbnr/pppppppp/8/8/8/8/PPPPPPPP/RNBQKBNR w KQkq - 0 1",
        "r3k2r/p1ppqpb1/bn2pnp1/3PN3/1p2P3/2N2Q1p/PPPBBPPP/R3K2R w KQkq - 0 1",
        "7k/P7/8/8/8/8/8/K7 w - - 0 1",
        "7k/5Q2/6K1/8/8/8/8/8 b - - 0 1",
    ] {
        let mut game = GameState::from_fen(fen, RepetitionDetectionMode::Full).unwrap();
        let count = game.get_generator_num_remaining();
        let all = game.generate_moves();
        assert_eq!(all.len(), count);
        for m in &all {
            assert!(game.is_legal_move(*m));
        }
    }
}
