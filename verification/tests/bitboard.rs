use rust_chess::bitboard::Bitboard;
use rust_chess::square::Square;

fn square(index: u8) -> Square {
    Square::from_index(index).unwrap()
}

#[test]
fn a_bitboard_from_a_number_and_back() {
    assert_eq!(Bitboard::from_uint(0x1234).to_uint(), 0x1234);
    assert_eq!(Bitboard::empty().to_uint(), 0);
    assert_eq!(Bitboard::full().to_uint(), u64::MAX);
    assert!(Bitboard::empty().is_empty());
    assert!(!Bitboard::full().is_empty());
}

#[test]
fn a_bitboard_from_a_square() {
    assert_eq!(Bitboard::from_square(square(0)).to_uint(), 1);
    assert_eq!(Bitboard::from_square(square(28)).to_uint(), 1 << 28);
    assert_eq!(Bitboard::from_square(square(63)).to_uint(), 1 << 63);
}

#[test]
fn the_least_square_of_a_bitboard() {
    assert_eq!(Bitboard::from_uint(0).to_square(), None);
    assert_eq!(Bitboard::from_uint(1).to_square(), Some(square(0)));
    assert_eq!(Bitboard::from_uint(0b1010_0000).to_square(), Some(square(5)));
    assert_eq!(Bitboard::from_uint(1 << 63).to_square(), Some(square(63)));
    assert_eq!(Bitboard::full().to_square(), Some(square(0)));
}

#[test]
fn membership_in_a_bitboard() {
    let board = Bitboard::from_uint(0b1001);
    assert!(board.contains(square(0)));
    assert!(!board.contains(square(1)));
    assert!(board.contains(square(3)));
    assert!(!board.contains(square(63)));
    assert!(Bitboard::full().contains(square(63)));
}

#[test]
fn the_number_of_squares() {
    assert_eq!(Bitboard::from_uint(0).popcnt(), 0);
    assert_eq!(Bitboard::from_uint(7).popcnt(), 3);
    assert_eq!(Bitboard::from_uint(0xFF00).popcnt(), 8);
    assert_eq!(Bitboard::from_uint(1 << 63).popcnt(), 1);
    assert_eq!(Bitboard::full().popcnt(), 64);
}

#[test]
fn flipping_mirrors_the_ranks() {
    assert_eq!(Bitboard::from_uint(0xFF).flip_vertical().to_uint(), 0xFF00_0000_0000_0000);
    assert_eq!(Bitboard::from_uint(1).flip_vertical().to_uint(), 1 << 56);
    assert_eq!(Bitboard::from_uint(1 << 28).flip_vertical().to_uint(), 1 << 36);
    assert_eq!(
        Bitboard::from_uint(0x0102_0304_0506_0708).flip_vertical().to_uint(),
        0x0807_0605_0403_0201
    );
    let any = Bitboard::from_uint(0x1234_5678_9ABC_DEF0);
    assert_eq!(any.flip_vertical().flip_vertical(), any);
    assert_eq!(any.flip_vertical().to_uint(), 0x1234_5678_9ABC_DEF0u64.swap_bytes());
}

#[test]
fn popping_squares_in_order() {
    let mut board = Bitboard::from_uint(0b1010_0001);
    assert_eq!(board.pop_square(), Some(square(0)));
    assert_eq!(board.to_uint(), 0b1010_0000);
    assert_eq!(board.pop_square(), Some(square(5)));
    assert_eq!(board.pop_square(), Some(square(7)));
    assert_eq!(board.pop_square(), None);
    assert_eq!(board.pop_square(), None);
    assert!(board.is_empty());
    let mut count = 0;
    let mut three = Bitboard::from_uint(7);
    while three.pop_square().is_some() {
        count += 1;
    }
    assert_eq!(count, 3);
}

#[test]
fn the_operations_on_masks() {
    let a = Bitboard::from_uint(0b1100);
    let b = Bitboard::from_uint(0b1010);
    assert_eq!(a.and(b).to_uint(), 0b1000);
    assert_eq!(a.or(b).to_uint(), 0b1110);
    assert_eq!(a.xor(b).to_uint(), 0b0110);
    assert_eq!(a.invert().to_uint(), !0b1100u64);
    assert_eq!(Bitboard::empty().invert(), Bitboard::full());
    assert_eq!(a.multiply(b).to_uint(), 120);
    assert_eq!(Bitboard::full().multiply(Bitboard::from_uint(2)).to_uint(), u64::MAX - 1);
    assert_eq!(
        Bitboard::from_uint(1 << 63).multiply(Bitboard::from_uint(2)).to_uint(),
        0
    );
}

#[test]
fn shifting_loses_what_leaves_the_board() {
    let a = Bitboard::from_uint(0b1100);
    assert_eq!(a.lshift(0), a);
    assert_eq!(a.lshift(2).to_uint(), 0b11_0000);
    assert_eq!(a.rshift(2).to_uint(), 0b11);
    assert_eq!(a.rshift(3).to_uint(), 0b1);
    assert_eq!(Bitboard::full().lshift(63).to_uint(), 1 << 63);
    assert_eq!(Bitboard::full().rshift(63).to_uint(), 1);
    assert_eq!(Bitboard::from_uint(3 << 62).lshift(1).to_uint(), 1 << 63);
}

#[test]
fn a_bitboard_as_text() {
    let rank_two = "\
. . . . . . . . \n\
X X X X X X X X \n\
. . . . . . . . \n\
. . . . . . . . \n\
. . . . . . . . \n\
. . . . . . . . \n\
. . . . . . . . \n\
. . . . . . . . \n";
    assert_eq!(Bitboard::from_uint(0xFF00).get_string(), rank_two);
    let corner = Bitboard::from_uint(1).get_string();
    assert!(corner.starts_with("X . . . . . . . \n"));
    assert_eq!(corner.len(), 136);
    let far = Bitboard::from_uint(1 << 63).get_string();
    assert!(far.ends_with(". . . . . . . X \n"));
    assert_eq!(Bitboard::from_uint(0xFF00).flip_vertical().get_string().lines().nth(6), Some("X X X X X X X X "));
}

#[test]
fn the_default_bitboard_is_empty() {
    assert_eq!(Bitboard::default(), Bitboard::empty());
    assert!(Bitboard::from_uint(1) < Bitboard::from_uint(2));
}
