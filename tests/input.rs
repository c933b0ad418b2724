use ascii_cube::cube::Move;
use ascii_cube::input::InputHandler;

#[test]
fn plain_face_letters_are_quarter_turns() {
    let mut input = InputHandler::new();
    assert_eq!(input.handle_char('u'), Some(Move::U));
    assert_eq!(input.handle_char('f'), Some(Move::F));
    assert_eq!(input.handle_char('z'), None);
}

#[test]
fn upper_case_and_marker_give_prime() {
    let mut input = InputHandler::new();
    assert_eq!(input.handle_char('R'), Some(Move::RPrime));
    assert_eq!(input.handle_char('\''), None);
    assert_eq!(input.handle_char('l'), Some(Move::LPrime));
    assert_eq!(input.handle_char('l'), Some(Move::L));
}

#[test]
fn double_marker_wins_over_prime() {
    let mut input = InputHandler::new();
    assert_eq!(input.handle_char('2'), None);
    assert_eq!(input.handle_char('\''), None);
    assert_eq!(input.handle_char('b'), Some(Move::B2));
    assert_eq!(input.handle_char('2'), None);
    assert_eq!(input.handle_move_char('x'), None);
    assert_eq!(input.handle_char('d'), Some(Move::D));
}
