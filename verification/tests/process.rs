use mekro::command::{Command, Launch};
use mekro::configuration::Configuration;

fn strings(items: &[&str]) -> Vec<String> {
    items.iter().map(|s| s.to_string()).collect()
}

fn server() -> Command {
    Command::new(&Configuration::new(
        "server".to_string(),
        "python3".to_string(),
        strings(&["-m", "http.server"]),
    ))
}

#[test]
fn new_process_was_never_launched() {
    let process = server();
    assert_eq!(process.name(), "server");
    assert_eq!(process.command(), "python3");
    assert_eq!(process.arguments(), &strings(&["-m", "http.server"]));
    assert_eq!(process.child_pid(), None);
    assert_eq!(process.run_id(), 0);
    assert!(process.output().is_empty());
}

#[test]
fn run_hands_out_the_executable_followed_by_its_arguments() {
    let mut process = server();
    assert_eq!(
        process.run(),
        Launch { run_id: 1, argv: strings(&["python3", "-m", "http.server"]) }
    );
    assert_eq!(
        process.run(),
        Launch { run_id: 2, argv: strings(&["python3", "-m", "http.server"]) }
    );
    assert_eq!(process.run_id(), 2);
}

#[test]
fn run_without_arguments_hands_out_the_executable_alone() {
    let mut process =
        Command::new(&Configuration::new("t".to_string(), "true".to_string(), Vec::new()));
    assert_eq!(process.run(), Launch { run_id: 1, argv: strings(&["true"]) });
}

#[test]
fn run_empties_the_log_and_gives_up_the_group() {
    let mut process = server();
    let launch = process.run();
    assert!(process.on_spawned(launch.run_id, 500));
    assert!(process.on_line(launch.run_id, "one".to_string()));
    assert!(process.on_line(launch.run_id, "two".to_string()));
    assert_eq!(process.output(), &strings(&["one", "two"]));
    assert_eq!(process.child_pid(), Some(500));
    process.run();
    assert!(process.output().is_empty());
    assert_eq!(process.child_pid(), None);
}

#[test]
fn started_is_taken_in_for_the_latest_run_and_a_positive_group_only() {
    let mut process = server();
    process.run();
    assert!(!process.on_spawned(0, 7));
    assert!(!process.on_spawned(2, 7));
    assert!(!process.on_spawned(1, 0));
    assert!(!process.on_spawned(1, -7));
    assert_eq!(process.child_pid(), None);
    assert!(process.on_spawned(1, 7));
    assert_eq!(process.child_pid(), Some(7));
    assert!(!process.on_spawned(1, 0));
    assert_eq!(process.child_pid(), Some(7));
    assert!(process.on_spawned(1, 8));
    assert_eq!(process.child_pid(), Some(8));
}

#[test]
fn a_line_of_another_run_is_dropped() {
    let mut process = server();
    process.run();
    assert!(!process.on_line(0, "never".to_string()));
    assert!(process.on_line(1, "kept".to_string()));
    assert!(!process.on_line(2, "never".to_string()));
    assert_eq!(process.output(), &strings(&["kept"]));
}

#[test]
fn a_line_before_the_first_run_belongs_to_run_zero() {
    let mut process = server();
    assert!(process.on_line(0, "idle".to_string()));
    assert_eq!(process.output(), &strings(&["idle"]));
    process.run();
    assert!(process.output().is_empty());
}

#[test]
fn an_empty_line_is_a_line() {
    let mut process = server();
    process.run();
    assert!(process.on_line(1, String::new()));
    assert!(process.on_line(1, "x".to_string()));
    assert!(process.on_line(1, String::new()));
    assert_eq!(process.output(), &strings(&["", "x", ""]));
}

#[test]
fn end_of_stream_gives_up_the_group_and_keeps_the_log() {
    let mut process = server();
    process.run();
    process.on_spawned(1, 44);
    process.on_line(1, "done".to_string());
    assert!(!process.on_end_of_stream(0));
    assert_eq!(process.child_pid(), Some(44));
    assert!(process.on_end_of_stream(1));
    assert_eq!(process.child_pid(), None);
    assert_eq!(process.output(), &strings(&["done"]));
    assert!(process.on_end_of_stream(1));
}

#[test]
fn kill_returns_the_group_once() {
    let mut process = server();
    assert_eq!(process.kill(), None);
    process.run();
    assert_eq!(process.kill(), None);
    process.on_spawned(1, 321);
    assert_eq!(process.kill(), Some(321));
    assert_eq!(process.kill(), None);
    assert_eq!(process.child_pid(), None);
    assert_eq!(process.run_id(), 1);
}

#[test]
fn restart_is_kill_then_run() {
    let mut process = server();
    process.run();
    process.on_spawned(1, 21);
    process.on_line(1, "old".to_string());
    let (signalled, launch) = process.restart();
    assert_eq!(signalled, Some(21));
    assert_eq!(launch, Launch { run_id: 2, argv: strings(&["python3", "-m", "http.server"]) });
    assert!(process.output().is_empty());
    assert_eq!(process.child_pid(), None);
    assert!(!process.on_line(1, "late".to_string()));
    assert!(process.output().is_empty());
    let (signalled, launch) = process.restart();
    assert_eq!(signalled, None);
    assert_eq!(launch.run_id, 3);
}

#[test]
fn configuration_clone_copies_every_field() {
    let config =
        Configuration::new("n".to_string(), "c".to_string(), strings(&["a1", "a2"]));
    let copy = config.clone();
    assert_eq!(copy.name, "n");
    assert_eq!(copy.command, "c");
    assert_eq!(copy.arguments, strings(&["a1", "a2"]));
    assert_eq!(config.arguments, copy.arguments);
}
