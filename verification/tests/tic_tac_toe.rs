use iota_logic::base_types::{IotaAddress, ObjectID};
use iota_logic::tic_tac_toe::{Player, TicTacToeState};

fn game(cur_turn: u8, game_status: u8) -> TicTacToeState {
    TicTacToeState {
        info: ObjectID([1; 32]),
        gameboard: vec![vec![0, 9, 1], vec![9, 0, 9], vec![1, 9, 9]],
        cur_turn,
        game_status,
        x_address: IotaAddress([0xaa; 32]),
        o_address: IotaAddress([0xbb; 32]),
    }
}

#[test]
fn turns_alternate_starting_with_x() {
    let g = game(4, 0);
    assert!(g.is_my_turn(IotaAddress([0xaa; 32])));
    assert!(!g.is_my_turn(IotaAddress([0xbb; 32])));
    let g = game(5, 0);
    assert!(g.is_my_turn(IotaAddress([0xbb; 32])));
    assert!(!g.is_my_turn(IotaAddress([0xcc; 32])));
}

#[test]
fn players_are_recognized() {
    let g = game(0, 0);
    assert_eq!(g.player_of(IotaAddress([0xaa; 32])), Some(Player::X));
    assert_eq!(g.player_of(IotaAddress([0xbb; 32])), Some(Player::O));
    assert_eq!(g.player_of(IotaAddress([0xcc; 32])), None);
}

#[test]
fn game_results() {
    assert_eq!(game(0, 0).game_result(), None);
    assert_eq!(game(0, 1).game_result(), Some("Player X won!"));
    assert_eq!(game(0, 2).game_result(), Some("Player O won!"));
    assert_eq!(game(0, 3).game_result(), Some("It's a draw!"));
    assert_eq!(game(0, 4).game_result(), None);
}

#[test]
fn board_is_drawn_as_printed() {
    let expected = [
        "     1     2     3\n",
        "  ┌-----┬-----┬-----┐",
        "\n1 |  X  |     |  O  |\n",
        "  ├-----┼-----┼-----┤",
        "\n2 |     |  X  |     |\n",
        "  ├-----┼-----┼-----┤",
        "\n3 |  O  |     |     |\n",
        "  ├-----┼-----┼-----┤",
        "\r",
        "  └-----┴-----┴-----┘\n",
    ]
    .join("");
    assert_eq!(game(0, 0).game_board_text(), expected);
}

#[test]
fn rows_beyond_nine_are_numbered_in_decimal() {
    let mut g = game(0, 0);
    g.gameboard = vec![vec![]; 12];
    let text = g.game_board_text();
    assert!(text.contains("\n10 |\n"));
    assert!(text.contains("\n12 |\n"));
}
