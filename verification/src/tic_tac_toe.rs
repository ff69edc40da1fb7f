//! The client side of a shared tic-tac-toe game: whose turn it is, which
//! player one is, how the game ended, and how the board is drawn.
use vstd::prelude::*;

use crate::base_types::{IotaAddress, ObjectID};

verus! {

/// The state of a game, as the game object holds it.
#[derive(Debug, PartialEq, Eq)]
pub struct TicTacToeState {
    pub info: ObjectID,
    /// Rows of cells: 0 is an X, 1 an O, anything else empty.
    pub gameboard: Vec<Vec<u8>>,
    pub cur_turn: u8,
    /// 0 while playing; then 1 when X won, 2 when O won, 3 for a draw.
    pub game_status: u8,
    pub x_address: IotaAddress,
    pub o_address: IotaAddress,
}

/// Which player an address plays.
#[derive(Clone, Copy, Debug, PartialEq, Eq)]
pub enum Player {
    X,
    O,
}

/// The decimal digits of a number.
pub open spec fn decimal(n: nat) -> Seq<char>
    decreases n,
{
    if n < 10 {
        seq![(n + '0' as nat) as char]
    } else {
        decimal(n / 10) + seq![((n % 10) + '0' as nat) as char]
    }
}

/// The mark drawn for a cell.
pub open spec fn mark(cell: u8) -> Seq<char> {
    if cell == 0 {
        "X"@
    } else if cell == 1 {
        "O"@
    } else {
        " "@
    }
}

/// The cells of a row, drawn.
pub open spec fn cells_text(row: Seq<u8>) -> Seq<char>
    decreases row.len(),
{
    if row.len() == 0 {
        Seq::empty()
    } else {
        cells_text(row.drop_last()) + "|  "@ + mark(row.last()) + "  "@
    }
}

/// The rows of the board from the first up to `n`, drawn, each after a line
/// break and followed by a separator line.
pub open spec fn rows_text(board: Seq<Seq<u8>>, n: nat) -> Seq<char>
    decreases n,
{
    if n == 0 || n > board.len() {
        Seq::empty()
    } else {
        rows_text(board, (n - 1) as nat) + "\n"@ + decimal(n) + " "@ + cells_text(board[n - 1])
            + "|\n"@ + "  ├-----┼-----┼-----┤"@
    }
}

/// The drawing of a board.
pub open spec fn board_text(board: Seq<Seq<u8>>) -> Seq<char> {
    "     1     2     3\n"@ + "  ┌-----┬-----┬-----┐"@ + rows_text(board, board.len()) + "\r"@
        + "  └-----┴-----┴-----┘\n"@
}

/// The board as rows of cells.
pub open spec fn board_view(board: Seq<Vec<u8>>) -> Seq<Seq<u8>> {
    board.map_values(|row: Vec<u8>| row@)
}

/// Appends the decimal digits of a number.
fn push_decimal(out: &mut String, n: usize)
    ensures
        final(out)@ == old(out)@ + decimal(n as nat),
    decreases n,
{
    if n >= 10 {
        push_decimal(out, n / 10);
    }
    let d = (n % 10) as u8;
    out.append(digit(d));
    proof {
        assert(out@ =~= old(out)@ + decimal(n as nat));
    }
}

/// The decimal digit of a value below ten.
fn digit(d: u8) -> (r: &'static str)
    requires
        d < 10,
    ensures
        r@ == seq![(d as nat + '0' as nat) as char],
{
    proof {
        reveal_strlit("0");
        reveal_strlit("1");
        reveal_strlit("2");
        reveal_strlit("3");
        reveal_strlit("4");
        reveal_strlit("5");
        reveal_strlit("6");
        reveal_strlit("7");
        reveal_strlit("8");
        reveal_strlit("9");
    }
    if d == 0 {
        "0"
    } else if d == 1 {
        "1"
    } else if d == 2 {
        "2"
    } else if d == 3 {
        "3"
    } else if d == 4 {
        "4"
    } else if d == 5 {
        "5"
    } else if d == 6 {
        "6"
    } else if d == 7 {
        "7"
    } else if d == 8 {
        "8"
    } else {
        "9"
    }
}

impl TicTacToeState {
    /// Whether it is the turn of `my_identity`: X plays on even turns, O on
    /// odd ones.
    pub fn is_my_turn(&self, my_identity: IotaAddress) -> (r: bool)
        ensures
            r == (my_identity == if self.cur_turn % 2 == 0 {
                self.x_address
            } else {
                self.o_address
            }),
    {
        let current_player = if self.cur_turn % 2 == 0 {
            self.x_address
        } else {
            self.o_address
        };
        current_player.equals(&my_identity)
    }

    /// The player that `my_identity` plays, O first; `None` when it was not
    /// invited.
    pub fn player_of(&self, my_identity: IotaAddress) -> (r: Option<Player>)
        ensures
            r == if self.o_address == my_identity {
                Some(Player::O)
            } else if self.x_address == my_identity {
                Some(Player::X)
            } else {
                None
            },
    {
        if self.o_address.equals(&my_identity) {
            Some(Player::O)
        } else if self.x_address.equals(&my_identity) {
            Some(Player::X)
        } else {
            None
        }
    }

    /// How an ended game ended: who won, or a draw; `None` while it is played
    /// (and for a status that names no ending).
    pub fn game_result(&self) -> (r: Option<&'static str>)
        ensures
            r == if self.game_status == 1 {
                Some("Player X won!")
            } else if self.game_status == 2 {
                Some("Player O won!")
            } else if self.game_status == 3 {
                Some("It's a draw!")
            } else {
                None::<&'static str>
            },
    {
        if self.game_status == 1 {
            Some("Player X won!")
        } else if self.game_status == 2 {
            Some("Player O won!")
        } else if self.game_status == 3 {
            Some("It's a draw!")
        } else {
            None
        }
    }

    /// The drawing of the board, as the game prints it.
    pub fn game_board_text(&self) -> (r: String)
        ensures
            r@ == board_text(board_view(self.gameboard@)),
    {
        let ghost board = board_view(self.gameboard@);
        let mut out = String::from_str("     1     2     3\n");
        out.append("  ┌-----┬-----┬-----┐");
        let ghost head = out@;
        assert(head == "     1     2     3\n"@ + "  ┌-----┬-----┬-----┐"@);
        let mut row_num: usize = 0;
        while row_num < self.gameboard.len()
            invariant
                row_num <= self.gameboard@.len(),
                board == board_view(self.gameboard@),
                out@ == head + rows_text(board, row_num as nat),
            decreases self.gameboard@.len() - row_num,
        {
            let row = &self.gameboard[row_num];
            out.append("\n");
            push_decimal(&mut out, row_num + 1);
            out.append(" ");
            let ghost before_cells = out@;
            let mut k: usize = 0;
            while k < row.len()
                invariant
                    k <= row@.len(),
                    out@ == before_cells + cells_text(row@.take(k as int)),
                decreases row@.len() - k,
            {
                let cell = row[k];
                let m = if cell == 0 {
                    "X"
                } else if cell == 1 {
                    "O"
                } else {
                    " "
                };
                out.append("|  ");
                out.append(m);
                out.append("  ");
                proof {
                    assert(row@.take(k + 1).drop_last() =~= row@.take(k as int));
                    assert(out@ =~= before_cells + cells_text(row@.take(k + 1)));
                }
                k = k + 1;
            }
            out.append("|\n");
            out.append("  ├-----┼-----┼-----┤");
            proof {
                assert(row@.take(row@.len() as int) =~= row@);
                assert(board[row_num as int] == row@);
                assert(out@ =~= head + rows_text(board, (row_num + 1) as nat));
            }
            row_num = row_num + 1;
        }
        out.append("\r");
        out.append("  └-----┴-----┴-----┘\n");
        proof {
            assert(out@ =~= board_text(board));
        }
        out
    }
}

} // verus!
