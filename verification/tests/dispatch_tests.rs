use padtype::actions::Action;
use padtype::dispatch::sort_batch;

#[test]
fn release_precedes_press() {
    let batch = vec![(Action::Key(10), true), (Action::Key(20), false)];
    let sorted = sort_batch(batch);
    assert_eq!(sorted, vec![(Action::Key(20), false), (Action::Key(10), true)]);
}

#[test]
fn sort_is_stable_within_each_class() {
    let batch = vec![
        (Action::Key(1), true),
        (Action::Key(2), false),
        (Action::Key(3), true),
        (Action::Key(4), false),
        (Action::Key(5), true),
    ];
    let sorted = sort_batch(batch);
    assert_eq!(
        sorted,
        vec![
            (Action::Key(2), false),
            (Action::Key(4), false),
            (Action::Key(1), true),
            (Action::Key(3), true),
            (Action::Key(5), true),
        ]
    );
}

#[test]
fn empty_and_uniform_batches() {
    assert_eq!(sort_batch(Vec::new()), Vec::new());
    let presses = vec![(Action::Key(1), true), (Action::Key(2), true)];
    assert_eq!(sort_batch(presses.clone()), presses);
    let releases = vec![(Action::Key(1), false), (Action::Key(2), false)];
    assert_eq!(sort_batch(releases.clone()), releases);
}

#[test]
fn no_press_before_any_release() {
    let batch = vec![
        (Action::Unicode("a".to_string()), true),
        (Action::Key(9), false),
        (Action::Unicode("b".to_string()), true),
        (Action::Key(8), false),
    ];
    let sorted = sort_batch(batch);
    let first_press = sorted.iter().position(|e| e.1).unwrap();
    assert!(sorted[..first_press].iter().all(|e| !e.1));
    assert!(sorted[first_press..].iter().all(|e| e.1));
}
