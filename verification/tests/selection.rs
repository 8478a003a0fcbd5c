use mekro::commands::Commands;
use mekro::configuration::Configuration;

fn supervisor_of(len: usize) -> Commands {
    let mut configs = Vec::new();
    for i in 0..len {
        configs.push(Configuration::new(format!("job{}", i), "true".to_string(), Vec::new()));
    }
    Commands::new(configs)
}

#[test]
fn next_from_none_selects_the_first() {
    let mut supervisor = supervisor_of(3);
    supervisor.next();
    assert_eq!(supervisor.selected(), Some(0));
}

#[test]
fn previous_from_none_selects_the_last_and_next_wraps_to_the_first() {
    let mut supervisor = supervisor_of(3);
    supervisor.previous();
    assert_eq!(supervisor.selected(), Some(2));
    supervisor.next();
    assert_eq!(supervisor.selected(), Some(0));
}

#[test]
fn next_visits_every_index_once_before_repeating() {
    for len in 1..=6usize {
        let mut supervisor = supervisor_of(len);
        let mut seen = Vec::new();
        for _ in 0..len {
            supervisor.next();
            seen.push(supervisor.selected().unwrap());
        }
        assert_eq!(seen, (0..len).collect::<Vec<usize>>());
        supervisor.next();
        assert_eq!(supervisor.selected(), Some(0));
    }
}

#[test]
fn previous_visits_every_index_once_in_reverse() {
    let mut supervisor = supervisor_of(4);
    let mut seen = Vec::new();
    for _ in 0..4 {
        supervisor.previous();
        seen.push(supervisor.selected().unwrap());
    }
    assert_eq!(seen, vec![3, 2, 1, 0]);
    supervisor.previous();
    assert_eq!(supervisor.selected(), Some(3));
}

#[test]
fn next_and_previous_step_by_one_and_wrap() {
    let mut supervisor = supervisor_of(5);
    supervisor.next();
    supervisor.next();
    supervisor.next();
    assert_eq!(supervisor.selected(), Some(2));
    supervisor.next();
    assert_eq!(supervisor.selected(), Some(3));
    supervisor.previous();
    assert_eq!(supervisor.selected(), Some(2));
    supervisor.next();
    supervisor.next();
    assert_eq!(supervisor.selected(), Some(4));
    supervisor.next();
    assert_eq!(supervisor.selected(), Some(0));
    supervisor.previous();
    assert_eq!(supervisor.selected(), Some(4));
}

#[test]
fn previous_undoes_next_on_a_selected_entry() {
    for start in 0..4usize {
        let mut supervisor = supervisor_of(4);
        for _ in 0..=start {
            supervisor.next();
        }
        assert_eq!(supervisor.selected(), Some(start));
        supervisor.next();
        supervisor.previous();
        assert_eq!(supervisor.selected(), Some(start));
        supervisor.previous();
        supervisor.next();
        assert_eq!(supervisor.selected(), Some(start));
    }
}

#[test]
fn a_single_process_stays_selected() {
    let mut supervisor = supervisor_of(1);
    supervisor.next();
    assert_eq!(supervisor.selected(), Some(0));
    supervisor.next();
    assert_eq!(supervisor.selected(), Some(0));
    supervisor.previous();
    assert_eq!(supervisor.selected(), Some(0));
}

#[test]
fn without_processes_nothing_is_ever_selected() {
    let mut supervisor = supervisor_of(0);
    for _ in 0..3 {
        supervisor.next();
        assert_eq!(supervisor.selected(), None);
        supervisor.previous();
        assert_eq!(supervisor.selected(), None);
    }
    supervisor.unselect();
    assert_eq!(supervisor.selected(), None);
    assert!(supervisor.selected_output().is_none());
}

#[test]
fn unselect_takes_the_selection_away() {
    let mut supervisor = supervisor_of(3);
    supervisor.next();
    supervisor.next();
    assert_eq!(supervisor.selected(), Some(1));
    supervisor.unselect();
    assert_eq!(supervisor.selected(), None);
    supervisor.unselect();
    assert_eq!(supervisor.selected(), None);
    supervisor.next();
    assert_eq!(supervisor.selected(), Some(0));
}
