use epicyclogon::game_of_life::{
    GameState, Key, KeyEffect, Model, BOARD_SIDE, FRAMES_PER_GENERATION,
};

fn board(rows: &[&str]) -> Model {
    let cells = rows.iter().map(|row| row.chars().map(|c| c == '#').collect()).collect();
    Model::from_cells(cells).unwrap()
}

fn picture(model: &Model) -> Vec<String> {
    (0..model.rows())
        .map(|i| {
            (0..model.columns()).map(|j| if model.cell(i, j) { '#' } else { '.' }).collect()
        })
        .collect()
}

fn running(rows: &[&str]) -> Model {
    let mut model = board(rows);
    assert_eq!(model.key_pressed(Key::Space), KeyEffect::StateOnly);
    assert_eq!(model.state(), GameState::Running);
    // The space bar must not touch the cells.
    let expected: Vec<String> = rows.iter().map(|row| row.to_string()).collect();
    assert_eq!(picture(&model), expected);
    model
}

#[test]
fn toggle_switches_between_paused_and_running() {
    assert_eq!(GameState::Paused.toggle(), GameState::Running);
    assert_eq!(GameState::Running.toggle(), GameState::Paused);
    assert_eq!(GameState::NextFrame.toggle(), GameState::Paused);
    let mut state = GameState::Paused;
    state.toggle();
    assert_eq!(state, GameState::Paused);
}

#[test]
fn a_fresh_board_is_dead_and_paused() {
    let model = Model::clear_state();
    assert_eq!(BOARD_SIDE, 20);
    assert_eq!(model.rows(), 20);
    assert_eq!(model.columns(), 20);
    assert_eq!(model.state(), GameState::Paused);
    for i in 0..20 {
        for j in 0..20 {
            assert!(!model.cell(i, j));
        }
    }
}

#[test]
fn cells_must_form_a_rectangle() {
    assert!(Model::from_cells(vec![]).is_none());
    assert!(Model::from_cells(vec![vec![true, false], vec![true]]).is_none());
    assert!(Model::from_cells(vec![vec![true], vec![true, false]]).is_none());
    let empty_rows = Model::from_cells(vec![vec![], vec![]]).unwrap();
    assert_eq!((empty_rows.rows(), empty_rows.columns()), (2, 0));
    let model = Model::from_cells(vec![vec![true, false], vec![false, true]]).unwrap();
    assert_eq!(picture(&model), vec!["#.", ".#"]);
    assert_eq!(model.state(), GameState::Paused);
}

#[test]
fn random_cells_fill_the_board_row_by_row() {
    let coins: Vec<bool> = (0..400).map(|i| i % 3 == 0).collect();
    let model = Model::random_state(&coins).unwrap();
    assert_eq!((model.rows(), model.columns()), (20, 20));
    assert_eq!(model.state(), GameState::Paused);
    for i in 0..20 {
        for j in 0..20 {
            assert_eq!(model.cell(i, j), (i * 20 + j) % 3 == 0);
        }
    }
    assert!(Model::random_state(&coins[..399].to_vec()).is_none());
    assert!(Model::random_state(&vec![true; 500]).is_some());
}

#[test]
fn a_blinker_blinks() {
    let mut model = running(&[".....", "..#..", "..#..", "..#..", "....."]);
    assert!(model.update(0));
    assert_eq!(picture(&model), vec![".....", ".....", ".###.", ".....", "....."]);
    assert!(model.update(FRAMES_PER_GENERATION));
    assert_eq!(picture(&model), vec![".....", "..#..", "..#..", "..#..", "....."]);
}

#[test]
fn a_block_stays() {
    let mut model = running(&["....", ".##.", ".##.", "...."]);
    assert!(model.update(0));
    assert_eq!(picture(&model), vec!["....", ".##.", ".##.", "...."]);
}

#[test]
fn the_edge_of_the_board_has_no_neighbours_beyond() {
    let mut model = running(&["##", "#."]);
    assert!(model.update(0));
    assert_eq!(picture(&model), vec!["##", "##"]);
    let mut lonely = running(&["#..", "...", "..#"]);
    assert!(lonely.update(0));
    assert_eq!(picture(&lonely), vec!["...", "...", "..."]);
}

#[test]
fn a_crowded_cell_dies() {
    let mut model = running(&["###", "###", "###"]);
    assert!(model.update(0));
    assert_eq!(picture(&model), vec!["#.#", "...", "#.#"]);
}

#[test]
fn a_board_that_is_not_square_works() {
    let mut model = running(&["....", "###.", "...."]);
    assert!(model.update(0));
    assert_eq!(picture(&model), vec![".#..", ".#..", ".#.."]);
}

#[test]
fn a_paused_board_does_not_advance() {
    let mut model = board(&["...", "###", "..."]);
    assert!(!model.update(0));
    assert_eq!(picture(&model), vec!["...", "###", "..."]);
    assert_eq!(model.state(), GameState::Paused);
}

#[test]
fn generations_fall_on_every_twelfth_frame() {
    assert_eq!(FRAMES_PER_GENERATION, 12);
    let mut model = running(&["...", "###", "..."]);
    for frame in 1..12 {
        assert!(!model.update(frame));
    }
    assert_eq!(picture(&model), vec!["...", "###", "..."]);
    assert!(model.update(12));
    assert_eq!(picture(&model), vec![".#.", ".#.", ".#."]);
    assert_eq!(model.state(), GameState::Running);
}

#[test]
fn the_right_arrow_shows_one_generation() {
    let mut model = board(&["...", "###", "..."]);
    assert_eq!(model.key_pressed(Key::Right), KeyEffect::StateOnly);
    assert_eq!(model.state(), GameState::NextFrame);
    assert!(!model.update(5));
    assert_eq!(model.state(), GameState::NextFrame);
    assert!(model.update(24));
    assert_eq!(picture(&model), vec![".#.", ".#.", ".#."]);
    assert_eq!(model.state(), GameState::Paused);
    assert!(!model.update(36));
}

#[test]
fn a_click_inverts_a_cell_of_a_board_at_rest() {
    let mut model = board(&["...", "...", "..."]);
    assert!(model.mouse_pressed(true, 1, 2));
    assert_eq!(picture(&model), vec!["...", "..#", "..."]);
    assert!(model.mouse_pressed(true, 1, 2));
    assert_eq!(picture(&model), vec!["...", "...", "..."]);
    assert!(model.mouse_pressed(true, 0, 0));
    assert!(model.mouse_pressed(true, 2, 2));
    assert_eq!(picture(&model), vec!["#..", "...", "..#"]);
}

#[test]
fn clicks_off_the_board_are_ignored() {
    let mut model = board(&["..", ".."]);
    assert!(!model.mouse_pressed(true, -1, 0));
    assert!(!model.mouse_pressed(true, 0, -1));
    assert!(!model.mouse_pressed(true, 2, 0));
    assert!(!model.mouse_pressed(true, 0, 2));
    assert!(!model.mouse_pressed(true, i32::MIN, i32::MAX));
    assert_eq!(picture(&model), vec!["..", ".."]);
}

#[test]
fn other_buttons_and_a_running_game_ignore_clicks() {
    let mut model = board(&["..", ".."]);
    assert!(!model.mouse_pressed(false, 0, 0));
    model.key_pressed(Key::Space);
    assert!(!model.mouse_pressed(true, 0, 0));
    assert_eq!(picture(&model), vec!["..", ".."]);
    model.key_pressed(Key::Right);
    assert!(model.mouse_pressed(true, 0, 0));
    assert_eq!(picture(&model), vec!["#.", ".."]);
}

#[test]
fn backspace_and_r_clear_the_board() {
    let mut model = running(&["##", "##"]);
    assert_eq!(model.key_pressed(Key::Back), KeyEffect::StateOnly);
    assert_eq!((model.rows(), model.columns()), (20, 20));
    assert_eq!(model.state(), GameState::Paused);
    assert!(picture(&model).iter().all(|row| !row.contains('#')));
    let mut other = running(&["##", "##"]);
    assert_eq!(other.key_pressed(Key::R), KeyEffect::Randomise);
    assert_eq!((other.rows(), other.columns()), (20, 20));
    assert_eq!(other.state(), GameState::Paused);
    assert!(picture(&other).iter().all(|row| !row.contains('#')));
}

#[test]
fn other_keys_do_nothing() {
    let mut model = running(&["#.", ".#"]);
    assert_eq!(model.key_pressed(Key::Other), KeyEffect::StateOnly);
    assert_eq!(model.state(), GameState::Running);
    assert_eq!(picture(&model), vec!["#.", ".#"]);
}
