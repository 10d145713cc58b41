use rust_shell::command::jobs::{JobsManager, State};
use rust_shell::command_analysis::convert_to_command;

#[test]
fn job_numbers_start_at_one_and_increase() {
    let mut manager = JobsManager::default();
    assert!(manager.active_jobs().is_empty());
    let cmd = convert_to_command("sleep 2").unwrap();
    assert_eq!(manager.add_background_job(&cmd, 100), 1);
    assert_eq!(manager.add_background_job(&cmd, 200), 2);
    assert_eq!(manager.add_background_job(&cmd, 300), 3);
    let numbers: Vec<usize> = manager.active_jobs().iter().map(|j| j.job_number()).collect();
    assert_eq!(numbers, vec![1, 2, 3]);
    let first = &manager.active_jobs()[0];
    assert_eq!(first.pid(), 100);
    assert_eq!(first.state(), State::Running);
    assert_eq!(first.command(), &cmd);
}

#[test]
fn finishing_a_job_removes_it_and_marks_it_done() {
    let mut manager = JobsManager::default();
    let a = convert_to_command("sleep 1").unwrap();
    let b = convert_to_command("ls > out.txt").unwrap();
    manager.add_background_job(&a, 10);
    manager.add_background_job(&b, 20);
    let done = manager.finish_background_job(20).unwrap();
    assert_eq!(done.job_number(), 2);
    assert_eq!(done.state(), State::Done);
    assert_eq!(done.command(), &b);
    assert_eq!(done.report_line(), "[2]   Done\t\tls > out.txt");
    assert_eq!(manager.active_jobs().len(), 1);
    // the next job follows the last remaining one
    assert_eq!(manager.add_background_job(&b, 30), 2);
}

#[test]
fn finishing_an_unknown_pid_changes_nothing() {
    let mut manager = JobsManager::default();
    let a = convert_to_command("sleep 1").unwrap();
    manager.add_background_job(&a, 10);
    assert!(manager.finish_background_job(99).is_err());
    assert_eq!(manager.active_jobs().len(), 1);
    assert_eq!(manager.active_jobs()[0].pid(), 10);
}

#[test]
fn add_then_finish_restores_the_jobs() {
    let mut manager = JobsManager::default();
    let a = convert_to_command("a").unwrap();
    manager.add_background_job(&a, 1);
    manager.add_background_job(&a, 2);
    let before: Vec<(usize, i32)> = manager.active_jobs().iter().map(|j| (j.job_number(), j.pid())).collect();
    manager.add_background_job(&a, 3);
    let job = manager.finish_background_job(3).unwrap();
    assert_eq!(job.job_number(), 3);
    let after: Vec<(usize, i32)> = manager.active_jobs().iter().map(|j| (j.job_number(), j.pid())).collect();
    assert_eq!(before, after);
}

#[test]
fn finishing_removes_the_first_job_with_the_pid() {
    let mut manager = JobsManager::default();
    let a = convert_to_command("a").unwrap();
    manager.add_background_job(&a, 7);
    manager.add_background_job(&a, 7);
    let job = manager.finish_background_job(7).unwrap();
    assert_eq!(job.job_number(), 1);
    assert_eq!(manager.active_jobs()[0].job_number(), 2);
}

#[test]
fn job_text() {
    let mut manager = JobsManager::default();
    let a = convert_to_command("sleep 5 | cat").unwrap();
    for pid in 0..12 {
        manager.add_background_job(&a, pid);
    }
    assert_eq!(manager.active_jobs()[0].to_string(), "[1] Running\tsleep5 | cat &");
    assert_eq!(manager.active_jobs()[11].to_string(), "[12] Running\tsleep5 | cat &");
    assert_eq!(State::Stopped.name(), "Stopped");
    assert_eq!(State::Killed.name(), "Killed");
}
