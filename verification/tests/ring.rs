use epicyclogon::ring::{next_index, prev_index};

#[test]
fn next_index_steps_forward() {
    assert_eq!(next_index(0, 5), 1);
    assert_eq!(next_index(3, 5), 4);
}

#[test]
fn next_index_wraps_at_the_end() {
    assert_eq!(next_index(4, 5), 0);
    assert_eq!(next_index(0, 1), 0);
}

#[test]
fn prev_index_steps_backward() {
    assert_eq!(prev_index(4, 5), 3);
    assert_eq!(prev_index(1, 5), 0);
}

#[test]
fn prev_index_wraps_at_the_start() {
    assert_eq!(prev_index(0, 5), 4);
    assert_eq!(prev_index(0, 1), 0);
}

#[test]
fn forward_and_backward_cancel() {
    for count in 1..8usize {
        for index in 0..count {
            assert_eq!(prev_index(next_index(index, count), count), index);
            assert_eq!(next_index(prev_index(index, count), count), index);
        }
    }
}

#[test]
fn a_full_turn_returns_to_the_start() {
    for count in 1..8usize {
        for start in 0..count {
            let mut index = start;
            for step in 0..count {
                assert_eq!(index, (start + step) % count);
                index = next_index(index, count);
            }
            assert_eq!(index, start);
        }
    }
}
