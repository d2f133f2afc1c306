use sig_rp2040_board::applet::{Command, CommandError, Opcode, Separator};
use sig_rp2040_board::panel::{compose_panel, render, sweep_frame, uniform};
use sig_rp2040_board::slots::SlotTable;
use sig_rp2040_board::config::refresh_period_millis;

fn cmd(opcode: Opcode, app_num: u8, parameters: Vec<u8>) -> Command {
    Command { opcode, app_num, parameters }
}

#[test]
fn empty_table_composes_to_dark_panel() {
    let table = SlotTable::new();
    assert_eq!(render(&table), [[0u8; 9]; 34]);
    assert_eq!(table.snapshot(), [[[0u8; 9]; 11]; 4]);
    for slot in 0..4 {
        assert!(!table.is_occupied(slot));
    }
}

#[test]
fn try_create_installs_once() {
    let mut table = SlotTable::new();
    assert_eq!(table.try_create(2, Separator::Solid), Ok(()));
    assert!(table.is_occupied(2));
    assert!(!table.is_occupied(1));
    assert_eq!(table.snapshot()[2][0], [255u8; 9]);
    assert_eq!(table.try_create(2, Separator::Empty), Err(CommandError::AlreadyExists));
    assert_eq!(table.snapshot()[2][0], [255u8; 9]);
}

#[test]
fn slot_index_above_three_is_reported() {
    let mut table = SlotTable::new();
    assert_eq!(table.try_create(4, Separator::Solid), Err(CommandError::SlotOutOfRange));
    assert_eq!(
        table.apply_command(200, &cmd(Opcode::UpdateBar, 200, vec![0; 9])),
        Err(CommandError::SlotOutOfRange)
    );
    assert_eq!(table.clear(4), Err(CommandError::SlotOutOfRange));
    assert!(!table.is_occupied(4));
    assert_eq!(render(&table), [[0u8; 9]; 34]);
}

#[test]
fn apply_command_on_empty_slot_reports_no_applet() {
    let mut table = SlotTable::new();
    assert_eq!(
        table.apply_command(1, &cmd(Opcode::UpdateGrid, 1, vec![1; 90])),
        Err(CommandError::NoSuchApplet)
    );
    assert_eq!(
        table.apply_command(0, &cmd(Opcode::UpdateBar, 0, vec![1; 9])),
        Err(CommandError::NoSuchApplet)
    );
    assert_eq!(
        table.apply_command(3, &cmd(Opcode::CreateApplet, 3, vec![1])),
        Err(CommandError::NoSuchApplet)
    );
}

#[test]
fn grid_update_of_status_bar_is_forbidden() {
    let mut table = SlotTable::new();
    assert_eq!(
        table.apply_command(0, &cmd(Opcode::UpdateGrid, 0, vec![1; 90])),
        Err(CommandError::StatusBarGridForbidden)
    );
    assert_eq!(table.try_create(0, Separator::Variable), Ok(()));
    assert_eq!(
        table.apply_command(0, &cmd(Opcode::UpdateGrid, 0, vec![1; 90])),
        Err(CommandError::StatusBarGridForbidden)
    );
    assert_eq!(
        table.apply_command(0, &cmd(Opcode::UpdateGrid, 0, vec![1; 3])),
        Err(CommandError::StatusBarGridForbidden)
    );
    assert_eq!(table.apply_command(0, &cmd(Opcode::UpdateBar, 0, vec![5; 9])), Ok(()));
    assert_eq!(render(&table)[0], [5u8; 9]);
}

#[test]
fn apply_command_passes_on_what_the_applet_says() {
    let mut table = SlotTable::new();
    assert_eq!(table.try_create(1, Separator::Solid), Ok(()));
    assert_eq!(
        table.apply_command(1, &cmd(Opcode::UpdateBar, 1, vec![5; 9])),
        Err(CommandError::SeparatorNotVariable)
    );
    assert_eq!(
        table.apply_command(1, &cmd(Opcode::UpdateGrid, 1, vec![5; 9])),
        Err(CommandError::InvalidLength)
    );
    assert_eq!(
        table.apply_command(1, &cmd(Opcode::CreateApplet, 1, vec![0])),
        Err(CommandError::AlreadyExists)
    );
    assert_eq!(table.apply_command(1, &cmd(Opcode::UpdateGrid, 1, vec![5; 90])), Ok(()));
    assert_eq!(table.snapshot()[1][3], [5u8; 9]);
}

#[test]
fn clear_is_idempotent() {
    let mut table = SlotTable::new();
    assert_eq!(table.try_create(3, Separator::Solid), Ok(()));
    assert_eq!(table.clear(3), Ok(()));
    assert!(!table.is_occupied(3));
    assert_eq!(table.clear(3), Ok(()));
    assert_eq!(table.clear(0), Ok(()));
    assert_eq!(render(&table), [[0u8; 9]; 34]);
    assert_eq!(table.try_create(3, Separator::Dotted), Ok(()));
    assert!(table.is_occupied(3));
}

#[test]
fn panel_rows_follow_the_slot_layout() {
    let mut table = SlotTable::new();
    assert_eq!(table.try_create(0, Separator::Variable), Ok(()));
    assert_eq!(table.try_create(1, Separator::Solid), Ok(()));
    assert_eq!(table.try_create(3, Separator::Dotted), Ok(()));
    assert_eq!(table.apply_command(0, &cmd(Opcode::UpdateBar, 0, vec![9, 8, 7, 6, 5, 4, 3, 2, 1])), Ok(()));
    let first: Vec<u8> = (0..90u8).collect();
    let third: Vec<u8> = (100..190u8).collect();
    assert_eq!(table.apply_command(1, &cmd(Opcode::UpdateGrid, 1, first.clone())), Ok(()));
    assert_eq!(table.apply_command(3, &cmd(Opcode::UpdateGrid, 3, third.clone())), Ok(()));
    let panel = render(&table);
    assert_eq!(panel[0], [9, 8, 7, 6, 5, 4, 3, 2, 1]);
    assert_eq!(panel[1], [255u8; 9]);
    for row in 0..10 {
        for column in 0..9 {
            assert_eq!(panel[2 + row][column], first[row * 9 + column]);
            assert_eq!(panel[24 + row][column], third[row * 9 + column]);
        }
    }
    for row in 12..23 {
        assert_eq!(panel[row], [0u8; 9]);
    }
    assert_eq!(panel[23], [255, 0, 255, 0, 255, 0, 255, 0, 255]);
    assert_eq!(panel[33], [181, 182, 183, 184, 185, 186, 187, 188, 189]);
    assert_eq!(compose_panel(&table.snapshot()), panel);
}

#[test]
fn compose_panel_takes_only_the_bar_of_block_zero() {
    let mut blocks = [[[0u8; 9]; 11]; 4];
    for block in 0..4 {
        for row in 0..11 {
            blocks[block][row] = [(block * 11 + row) as u8; 9];
        }
    }
    let panel = compose_panel(&blocks);
    assert_eq!(panel[0], [0u8; 9]);
    for row in 1..34 {
        assert_eq!(panel[row], [(row + 10) as u8; 9]);
    }
}

#[test]
fn uniform_panels() {
    assert_eq!(uniform(0), [[0u8; 9]; 34]);
    assert_eq!(uniform(255), [[255u8; 9]; 34]);
    assert_eq!(uniform(17), [[17u8; 9]; 34]);
}

#[test]
fn sweep_frame_lights_pixels_in_reading_order() {
    assert_eq!(sweep_frame(0), [[0u8; 9]; 34]);
    let two = sweep_frame(2);
    assert_eq!(two[0], [0, 1, 0, 0, 0, 0, 0, 0, 0]);
    assert_eq!(two[1], [0u8; 9]);
    let some = sweep_frame(9 * 17 + 4);
    assert_eq!(some[16], [0, 1, 2, 3, 4, 5, 6, 7, 8]);
    assert_eq!(some[15], [15, 14, 13, 12, 11, 10, 9, 8, 7]);
    assert_eq!(some[17], [1, 0, 3, 2, 0, 0, 0, 0, 0]);
    assert_eq!(some[18], [0u8; 9]);
    let full = sweep_frame(306);
    for row in 0..34 {
        for column in 0..9 {
            assert_eq!(full[row][column], ((row % 16) as u8) ^ (column as u8));
        }
    }
    assert_eq!(sweep_frame(1000), full);
}

#[test]
fn refresh_period_rounds_down() {
    assert_eq!(refresh_period_millis(60), 16);
    assert_eq!(refresh_period_millis(1), 1000);
    assert_eq!(refresh_period_millis(1000), 1);
    assert_eq!(refresh_period_millis(1001), 0);
    assert_eq!(refresh_period_millis(3), 333);
}
