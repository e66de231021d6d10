use music_player_rs::queue::{inverse_permutation, shuffled_order, EndAction, PlayQueue};
use music_player_rs::settings::RepeatMode;

fn is_permutation(v: &[usize], n: usize) -> bool {
    let mut seen = vec![false; n];
    v.len() == n && v.iter().all(|&x| x < n && !std::mem::replace(&mut seen[x], true))
}

#[test]
fn shuffled_order_is_a_permutation() {
    for n in [0usize, 1, 2, 7, 50] {
        assert!(is_permutation(&shuffled_order(n), n));
    }
}

#[test]
fn linear_queue_navigation() {
    let mut q = PlayQueue::new(3, false, RepeatMode::Off);
    assert_eq!(q.next(1), Some(1));
    q.set_current(2);
    assert_eq!(q.next(1), None);
    assert_eq!(q.next(-1), Some(1));
    assert_eq!(q.on_track_end(), EndAction::Stop);
    q.cycle_repeat();
    assert_eq!(q.repeat, RepeatMode::All);
    assert_eq!(q.on_track_end(), EndAction::Play(0));
    q.cycle_repeat();
    assert_eq!(q.on_track_end(), EndAction::Replay);
    q.cycle_repeat();
    assert_eq!(q.repeat, RepeatMode::Off);
}

#[test]
fn shuffled_queue_visits_every_track_once() {
    let mut q = PlayQueue::new(6, true, RepeatMode::Off);
    assert!(is_permutation(&q.shuffle_order, 6));
    let first = q.shuffle_order[0];
    q.set_current(first);
    let mut seen = vec![first];
    while let Some(i) = q.next(1) {
        q.set_current(i);
        seen.push(i);
    }
    seen.sort();
    assert_eq!(seen, vec![0, 1, 2, 3, 4, 5]);
}

#[test]
fn remove_keeps_current_track() {
    let mut q = PlayQueue::new(5, false, RepeatMode::Off);
    q.set_current(3);
    assert!(!q.remove(1));
    assert_eq!(q.current, Some(2));
    assert_eq!(q.len, 4);
    assert!(!q.remove(3));
    assert_eq!(q.current, Some(2));
    assert!(q.remove(2));
    assert_eq!(q.current, None);
    assert!(!q.remove(10));
    assert_eq!(q.len, 2);
}

#[test]
fn append_clear_and_toggle_shuffle() {
    let mut q = PlayQueue::new(2, false, RepeatMode::Off);
    q.set_current(1);
    q.append(3);
    assert_eq!(q.len, 5);
    assert_eq!(q.current, Some(1));
    q.toggle_shuffle();
    assert!(q.shuffle);
    assert!(is_permutation(&q.shuffle_order, 5));
    assert_eq!(q.shuffle_order[q.shuffle_pos], 1);
    q.toggle_shuffle();
    assert!(q.shuffle_order.is_empty());
    q.clear();
    assert_eq!(q.len, 0);
    assert_eq!(q.current, None);
    assert_eq!(q.next(1), None);
}

#[test]
fn sort_follows_current_track() {
    let mut q = PlayQueue::new(4, false, RepeatMode::Off);
    q.set_current(0);
    // The new order lists old indices: old track 0 is now at position 2.
    q.apply_sort(&[3, 1, 0, 2]);
    assert_eq!(q.current, Some(2));
    assert_eq!(inverse_permutation(&[3, 1, 0, 2]), vec![2, 1, 3, 0]);
}
