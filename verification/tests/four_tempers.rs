use epicyclogon::four_tempers::{line_pairs, moving, others, Key, KeyEffect, Overlays, TEMPERS};

#[test]
fn every_other_particle_pulls() {
    assert_eq!(others(0, 5), vec![1, 2, 3, 4]);
    assert_eq!(others(2, 5), vec![0, 1, 3, 4]);
    assert_eq!(others(4, 5), vec![0, 1, 2, 3]);
    assert_eq!(others(0, 1), Vec::<usize>::new());
}

#[test]
fn the_last_particle_does_not_move() {
    assert_eq!(TEMPERS, 5);
    assert_eq!(moving(TEMPERS), 4);
    assert_eq!(moving(1), 0);
    assert_eq!(moving(0), 0);
}

#[test]
fn lines_join_every_two_moving_particles() {
    assert_eq!(line_pairs(TEMPERS), vec![(0, 1), (0, 2), (0, 3), (1, 2), (1, 3), (2, 3)]);
}

#[test]
fn few_particles_have_few_lines() {
    assert_eq!(line_pairs(0), vec![]);
    assert_eq!(line_pairs(1), vec![]);
    assert_eq!(line_pairs(2), vec![]);
    assert_eq!(line_pairs(3), vec![(0, 1)]);
    assert_eq!(line_pairs(4), vec![(0, 1), (0, 2), (1, 2)]);
}

#[test]
fn the_number_of_lines_is_triangular() {
    for count in 1..20usize {
        let free = count - 1;
        assert_eq!(line_pairs(count).len(), free * free.saturating_sub(1) / 2);
    }
}

#[test]
fn holding_a_key_shows_its_overlay() {
    let mut overlays = Overlays::new();
    assert_eq!(overlays.key_pressed(Key::B), KeyEffect::Done);
    assert!(overlays.show_bounding_box);
    assert!(!overlays.show_lines_to_fixed);
    assert_eq!(overlays.key_pressed(Key::F), KeyEffect::Done);
    assert_eq!(overlays.key_pressed(Key::O), KeyEffect::Done);
    assert!(overlays.show_lines_to_fixed && overlays.show_lines_to_other_tempers);
    assert_eq!(overlays.key_released(Key::B), KeyEffect::Done);
    assert!(!overlays.show_bounding_box);
    assert!(overlays.show_lines_to_fixed && overlays.show_lines_to_other_tempers);
    assert_eq!(overlays.key_released(Key::F), KeyEffect::Done);
    assert_eq!(overlays.key_released(Key::O), KeyEffect::Done);
    assert_eq!(overlays, Overlays::new());
}

#[test]
fn number_keys_change_the_mass_of_their_particle() {
    let mut overlays = Overlays::new();
    assert_eq!(overlays.key_pressed(Key::Key1), KeyEffect::GainMass(0));
    assert_eq!(overlays.key_pressed(Key::Key2), KeyEffect::GainMass(1));
    assert_eq!(overlays.key_pressed(Key::Key3), KeyEffect::GainMass(2));
    assert_eq!(overlays.key_pressed(Key::Key4), KeyEffect::GainMass(3));
    assert_eq!(overlays.key_released(Key::Key1), KeyEffect::DefaultMass(0));
    assert_eq!(overlays.key_released(Key::Key4), KeyEffect::DefaultMass(3));
    assert_eq!(overlays, Overlays::new());
}

#[test]
fn r_respawns_only_when_pressed() {
    let mut overlays = Overlays::new();
    assert_eq!(overlays.key_pressed(Key::R), KeyEffect::Respawn);
    assert_eq!(overlays.key_released(Key::R), KeyEffect::Done);
    assert_eq!(overlays.key_pressed(Key::Other), KeyEffect::Done);
    assert_eq!(overlays.key_released(Key::Other), KeyEffect::Done);
    assert_eq!(overlays, Overlays::new());
}
