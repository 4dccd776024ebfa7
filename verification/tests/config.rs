use oh_tray::config::{default_true, next_runtime_id, FIRST_ID};

#[test]
fn switches_are_on_by_default() {
    assert!(default_true());
}

#[test]
fn ids_count_up() {
    let mut next: usize = 1;
    assert_eq!(next_runtime_id(&mut next), 1);
    assert_eq!(next_runtime_id(&mut next), 2);
    assert_eq!(next_runtime_id(&mut next), 3);
    assert_eq!(next, 4);
}

#[test]
fn ids_wrap_around() {
    let mut next: usize = usize::MAX;
    assert_eq!(next_runtime_id(&mut next), usize::MAX);
    assert_eq!(next_runtime_id(&mut next), 0);
}

#[test]
fn the_first_ids_are_one_to_n() {
    let mut next: usize = FIRST_ID;
    let ids: Vec<usize> = (0..100).map(|_| next_runtime_id(&mut next)).collect();
    assert_eq!(ids, (1..=100).collect::<Vec<usize>>());
    assert!(ids.windows(2).all(|pair| pair[0] < pair[1]));
}
