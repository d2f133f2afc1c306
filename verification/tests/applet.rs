use sig_rp2040_board::applet::{Applet, Command, CommandError, Opcode, Separator};

fn grid_bytes() -> Vec<u8> {
    (0..90u32).map(|n| (n * 2 + 1) as u8).collect()
}

fn update_grid(parameters: Vec<u8>) -> Command {
    Command { opcode: Opcode::UpdateGrid, app_num: 1, parameters }
}

fn update_bar(parameters: Vec<u8>) -> Command {
    Command { opcode: Opcode::UpdateBar, app_num: 1, parameters }
}

#[test]
fn new_empty_applet_is_dark() {
    let board = Applet::new(Separator::Empty).get_board();
    assert_eq!(board, [[0u8; 9]; 11]);
}

#[test]
fn new_solid_applet_has_full_bar() {
    let board = Applet::new(Separator::Solid).get_board();
    assert_eq!(board[0], [255u8; 9]);
    for row in 1..11 {
        assert_eq!(board[row], [0u8; 9]);
    }
}

#[test]
fn new_dotted_applet_alternates_from_lit() {
    let board = Applet::new(Separator::Dotted).get_board();
    assert_eq!(board[0], [255, 0, 255, 0, 255, 0, 255, 0, 255]);
    for row in 1..11 {
        assert_eq!(board[row], [0u8; 9]);
    }
}

#[test]
fn new_variable_applet_starts_dark() {
    let board = Applet::new(Separator::Variable).get_board();
    assert_eq!(board, [[0u8; 9]; 11]);
}

#[test]
fn separator_codes_follow_declaration_order() {
    assert_eq!(Separator::from_code(0), Some(Separator::Empty));
    assert_eq!(Separator::from_code(1), Some(Separator::Solid));
    assert_eq!(Separator::from_code(2), Some(Separator::Dotted));
    assert_eq!(Separator::from_code(3), Some(Separator::Variable));
    assert_eq!(Separator::from_code(4), None);
    assert_eq!(Separator::from_code(255), None);
}

#[test]
fn grid_update_fills_rows_of_nine() {
    let mut applet = Applet::new(Separator::Solid);
    let bytes = grid_bytes();
    assert_eq!(applet.command_applet(&update_grid(bytes.clone())), Ok(()));
    let board = applet.get_board();
    assert_eq!(board[0], [255u8; 9]);
    for row in 0..10 {
        for column in 0..9 {
            assert_eq!(board[row + 1][column], bytes[row * 9 + column]);
        }
    }
    assert_eq!(board[1], [1, 3, 5, 7, 9, 11, 13, 15, 17]);
    assert_eq!(board[2][0], 19);
    assert_eq!(board[10][8], 179);
}

#[test]
fn grid_update_with_wrong_count_changes_nothing() {
    let mut applet = Applet::new(Separator::Dotted);
    assert_eq!(applet.command_applet(&update_grid(grid_bytes())), Ok(()));
    let before = applet.get_board();
    assert_eq!(applet.command_applet(&update_grid(vec![7; 89])), Err(CommandError::InvalidLength));
    assert_eq!(applet.command_applet(&update_grid(vec![7; 91])), Err(CommandError::InvalidLength));
    assert_eq!(applet.command_applet(&update_grid(Vec::new())), Err(CommandError::InvalidLength));
    assert_eq!(applet.get_board(), before);
}

#[test]
fn bar_update_overwrites_variable_bar() {
    let mut applet = Applet::new(Separator::Variable);
    assert_eq!(applet.command_applet(&update_bar(vec![1, 2, 3, 4, 5, 6, 7, 8, 9])), Ok(()));
    let board = applet.get_board();
    assert_eq!(board[0], [1, 2, 3, 4, 5, 6, 7, 8, 9]);
    for row in 1..11 {
        assert_eq!(board[row], [0u8; 9]);
    }
}

#[test]
fn bar_update_with_wrong_count_changes_nothing() {
    let mut applet = Applet::new(Separator::Variable);
    assert_eq!(applet.command_applet(&update_bar(vec![9; 9])), Ok(()));
    assert_eq!(applet.command_applet(&update_bar(vec![1; 8])), Err(CommandError::InvalidLength));
    assert_eq!(applet.command_applet(&update_bar(vec![1; 10])), Err(CommandError::InvalidLength));
    assert_eq!(applet.get_board()[0], [9u8; 9]);
}

#[test]
fn bar_update_on_fixed_separator_is_refused() {
    for kind in [Separator::Empty, Separator::Solid, Separator::Dotted] {
        let mut applet = Applet::new(kind);
        let before = applet.get_board();
        assert_eq!(
            applet.command_applet(&update_bar(vec![1, 2, 3, 4, 5, 6, 7, 8, 9])),
            Err(CommandError::SeparatorNotVariable)
        );
        assert_eq!(
            applet.command_applet(&update_bar(vec![1, 2, 3])),
            Err(CommandError::SeparatorNotVariable)
        );
        assert_eq!(applet.get_board(), before);
    }
}

#[test]
fn creation_sent_to_an_applet_is_refused() {
    let mut applet = Applet::new(Separator::Variable);
    let before = applet.get_board();
    let create = Command { opcode: Opcode::CreateApplet, app_num: 1, parameters: vec![0] };
    assert_eq!(applet.command_applet(&create), Err(CommandError::AlreadyExists));
    assert_eq!(applet.get_board(), before);
}

#[test]
fn grid_then_bar_round_trip() {
    let mut applet = Applet::new(Separator::Variable);
    let bytes = grid_bytes();
    assert_eq!(applet.command_applet(&update_grid(bytes.clone())), Ok(()));
    assert_eq!(applet.command_applet(&update_bar(vec![10, 20, 30, 40, 50, 60, 70, 80, 90])), Ok(()));
    let board = applet.get_board();
    assert_eq!(board[0], [10, 20, 30, 40, 50, 60, 70, 80, 90]);
    let flat: Vec<u8> = board[1..].iter().flat_map(|row| row.iter().copied()).collect();
    assert_eq!(flat, bytes);
}
