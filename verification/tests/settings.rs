use epicyclogon::settings::{Panel, Settings, MIN_SIDES};

#[test]
fn default_settings_roll_a_square_around_a_triangle() {
    let settings = Settings::new(100.0f32);
    assert_eq!(settings.fixed_radius, 100.0);
    assert_eq!(settings.rotating_radius, 100.0);
    assert_eq!(settings.fixed_sides, 3);
    assert_eq!(settings.rotating_sides, 4);
    assert_eq!(settings.collisions_num, -1);
    assert_eq!(settings.speed, 4);
    assert!(settings.sides_are_valid());
}

#[test]
fn fewer_than_three_sides_are_invalid() {
    assert_eq!(MIN_SIDES, 3);
    let mut settings = Settings::new(1u8);
    settings.fixed_sides = 2;
    assert!(!settings.sides_are_valid());
    settings.fixed_sides = 3;
    settings.rotating_sides = 0;
    assert!(!settings.sides_are_valid());
}

#[test]
fn a_negative_number_of_collisions_is_no_target() {
    let mut settings = Settings::new(1u8);
    assert_eq!(settings.target_collisions(), None);
    settings.collisions_num = 0;
    assert_eq!(settings.target_collisions(), Some(0));
    settings.collisions_num = 1000;
    assert_eq!(settings.target_collisions(), Some(1000));
}

#[test]
fn an_animated_run_takes_speed_steps_a_frame() {
    let settings = Settings::new(1u8);
    assert!(settings.wants_step(0, 0));
    assert!(settings.wants_step(7, 3));
    assert!(!settings.wants_step(7, 4));
    assert!(!settings.wants_step(0, 5));
}

#[test]
fn a_run_with_a_target_steps_until_it_is_reached() {
    let mut settings = Settings::new(1u8);
    settings.collisions_num = 3;
    assert!(settings.wants_step(0, 0));
    assert!(settings.wants_step(2, 1_000_000));
    assert!(!settings.wants_step(3, 0));
    assert!(!settings.wants_step(4, 0));
    settings.collisions_num = 0;
    assert!(!settings.wants_step(0, 0));
}

#[test]
fn apply_puts_the_edited_settings_in_force() {
    let defaults = Settings::new(100.0f32);
    let mut panel = Panel::new(defaults);
    panel.pending.fixed_sides = 7;
    panel.pending.speed = 9;
    assert!(panel.press(true, false, defaults));
    assert_eq!(panel.applied.fixed_sides, 7);
    assert_eq!(panel.applied.speed, 9);
    assert_eq!(panel.pending.fixed_sides, 7);
}

#[test]
fn reset_puts_the_defaults_in_both_places() {
    let defaults = Settings::new(100.0f32);
    let mut panel = Panel::new(defaults);
    panel.pending.fixed_sides = 7;
    panel.applied.rotating_sides = 9;
    assert!(panel.press(false, true, defaults));
    assert_eq!(panel.applied.rotating_sides, 4);
    assert_eq!(panel.pending.fixed_sides, 3);
}

#[test]
fn apply_wins_over_reset() {
    let defaults = Settings::new(100.0f32);
    let mut panel = Panel::new(defaults);
    panel.pending.fixed_sides = 7;
    assert!(panel.press(true, true, defaults));
    assert_eq!(panel.applied.fixed_sides, 7);
}

#[test]
fn without_a_button_nothing_changes() {
    let defaults = Settings::new(100.0f32);
    let mut panel = Panel::new(defaults);
    panel.pending.fixed_sides = 7;
    assert!(!panel.press(false, false, defaults));
    assert_eq!(panel.applied.fixed_sides, 3);
    assert_eq!(panel.pending.fixed_sides, 7);
}
