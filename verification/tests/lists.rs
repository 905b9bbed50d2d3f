use limspce::contact::{removals_for, Contact};
use limspce::removal::{marked, removals_fit, retain_kept, swap_remove_all};

#[test]
fn swap_removals_run_last_first() {
    let mut v = vec!['a', 'b', 'c', 'd', 'e'];
    swap_remove_all(&mut v, &vec![1, 3]);
    assert_eq!(v, vec!['a', 'e', 'c']);
}

#[test]
fn removals_fit_tracks_the_shrinking_list() {
    assert!(removals_fit(3, &vec![0, 1, 2]));
    assert!(removals_fit(3, &vec![0, 0, 2]));
    assert!(!removals_fit(3, &vec![2, 0, 0]));
    assert!(!removals_fit(3, &vec![0, 2, 2]));
    assert!(!removals_fit(2, &vec![2]));
    assert!(removals_fit(0, &vec![]));
}

#[test]
fn marked_lists_set_positions() {
    assert_eq!(marked(&vec![false, true, true, false, true]), vec![1, 2, 4]);
    assert_eq!(marked(&vec![]), Vec::<usize>::new());
}

#[test]
fn retain_kept_keeps_order() {
    let mut v = vec![10, 20, 30, 40];
    retain_kept(&mut v, &vec![false, true, false, true]);
    assert_eq!(v, vec![20, 40]);
}

#[test]
fn removal_lists_repeat_per_touch() {
    let cs = vec![
        Contact { player: true, blanks: vec![true, true] },
        Contact { player: false, blanks: vec![true, false, true] },
        Contact { player: false, blanks: vec![] },
        Contact { player: true, blanks: vec![] },
    ];
    let (js, hits) = removals_for(&cs);
    assert_eq!(js, vec![0, 1, 1, 3]);
    assert_eq!(hits, 2);
}
