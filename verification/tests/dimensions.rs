use retris_core::{BOARD_HEIGHT, BOARD_WIDTH};

#[test]
fn board_dimensions() {
    assert_eq!(BOARD_WIDTH, 10);
    assert_eq!(BOARD_HEIGHT, 20);
}
