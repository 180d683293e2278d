use file_finder::search::entry::Entry;
use file_finder::search::gate::Gate;
use file_finder::search::pattern::SearchPattern;
use file_finder::search::traversal::{Action, Traversal};
use std::path::PathBuf;

fn entry(path: &str, name: &str, is_dir: bool) -> Entry {
    Entry { path: PathBuf::from(path), file_name: Some(name.to_string()), is_dir }
}

#[test]
fn traversal_started_by_hand_walks_one_level_at_a_time() {
    let pattern = SearchPattern::new(true, r"\.rs$".to_string()).unwrap();
    let mut traversal = Traversal::start(pattern, 2, Gate::new(1, true), PathBuf::from("p"));
    assert!(matches!(traversal.next_action(), Action::List { ticket: 0, .. }));
    let top = vec![entry("p/a.rs", "a.rs", false), entry("p/m", "m", true), entry("p/n", "n", true)];
    assert!(traversal.listed(0, top));
    match traversal.next_action() {
        Action::List { ticket, dir } => {
            assert_eq!(ticket, 1);
            assert_eq!(dir, PathBuf::from("p/m"));
        }
        _ => panic!("Expected the first subdirectory"),
    }
    assert!(matches!(traversal.next_action(), Action::Wait));
    let below = vec![entry("p/m/b.rs", "b.rs", false), entry("p/m/deep", "deep", true)];
    assert!(traversal.listed(1, below));
    match traversal.next_action() {
        Action::List { ticket, dir } => {
            assert_eq!(ticket, 2);
            assert_eq!(dir, PathBuf::from("p/n"));
        }
        _ => panic!("Expected the second subdirectory"),
    }
    assert!(traversal.listed(2, vec![entry("p/n/c.rs.txt", "c.rs.txt", false)]));
    assert!(matches!(traversal.next_action(), Action::Finish));
    assert_eq!(
        traversal.into_result().unwrap(),
        vec![PathBuf::from("p/a.rs"), PathBuf::from("p/m/b.rs")]
    );
}

#[test]
fn result_taken_early_holds_what_was_collected_so_far() {
    let pattern = SearchPattern::new(false, "a".to_string()).unwrap();
    let mut traversal = Traversal::start(pattern, 3, Gate::new(4, false), PathBuf::from("p"));
    assert!(matches!(traversal.next_action(), Action::List { ticket: 0, .. }));
    assert!(traversal.listed(0, vec![entry("p/a", "a", true)]));
    assert!(!traversal.is_complete());
    assert_eq!(traversal.into_result().unwrap(), vec![PathBuf::from("p/a")]);
}
