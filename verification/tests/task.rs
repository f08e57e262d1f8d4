use std::collections::HashMap;

use availcheck::task::{select_ready, select_vec, SelectReady, SelectVec};
use availcheck::walk::walk_keys;

fn count_down(task: &mut u32) -> Option<&'static str> {
    if *task == 0 {
        Some("done")
    } else {
        *task -= 1;
        None
    }
}

#[test]
fn the_first_task_that_is_ready_is_taken_out() {
    let mut tasks: Vec<u32> = vec![3, 0, 0, 5];
    let mut select = SelectVec { inner: &mut tasks };
    assert_eq!(select.poll_with(count_down), Some("done"));
    assert_eq!(tasks, vec![2, 5, 0]);
}

#[test]
fn the_last_task_can_be_taken_out() {
    let mut tasks: Vec<u32> = vec![2, 0];
    let mut select = SelectVec { inner: &mut tasks };
    assert_eq!(select.poll_with(count_down), Some("done"));
    assert_eq!(tasks, vec![1]);
}

#[test]
fn all_tasks_are_polled_if_none_is_ready() {
    let mut tasks: Vec<u32> = vec![3, 1, 2];
    let mut select = SelectVec { inner: &mut tasks };
    assert_eq!(select.poll_with(count_down), None);
    assert_eq!(tasks, vec![2, 0, 1]);
}

#[test]
fn without_tasks_nothing_is_ever_ready() {
    let mut tasks: Vec<u32> = vec![];
    let mut select = SelectVec { inner: &mut tasks };
    assert_eq!(select.poll_with(count_down), None);
    let mut map: HashMap<u8, u32> = HashMap::new();
    let mut select = SelectReady { inner: &mut map };
    assert_eq!(select.poll_with(count_down), None);
}

#[test]
fn selecting_borrows_the_tasks() {
    let mut tasks = vec![std::future::ready(4), std::future::ready(5)];
    assert_eq!(select_vec(&mut tasks).poll_with(|_| Some(1)), Some(1));
    assert_eq!(tasks.len(), 1);
    let mut map = HashMap::new();
    map.insert("a", std::future::ready(4));
    assert_eq!(select_ready(&mut map).poll_with(|_| Some(1)), Some((1, "a")));
    assert!(map.is_empty());
}

#[test]
fn a_ready_task_of_a_map_is_taken_out() {
    let mut tasks: HashMap<&str, u32> = HashMap::new();
    tasks.insert("busy", 9);
    tasks.insert("ready", 0);
    let mut select = SelectReady { inner: &mut tasks };
    assert_eq!(select.poll_with(count_down), Some(("done", "ready")));
    assert_eq!(tasks.len(), 1);
    assert!(tasks["busy"] == 9 || tasks["busy"] == 8);
}

#[test]
fn all_tasks_of_a_map_are_polled_if_none_is_ready() {
    let mut tasks: HashMap<u8, u32> = HashMap::new();
    tasks.insert(1, 1);
    tasks.insert(2, 2);
    let mut select = SelectReady { inner: &mut tasks };
    assert_eq!(select.poll_with(count_down), None);
    assert_eq!(tasks[&1], 0);
    assert_eq!(tasks[&2], 1);
}

#[test]
fn every_key_is_walked_once() {
    let mut map: HashMap<u8, ()> = HashMap::new();
    map.insert(3, ());
    map.insert(1, ());
    map.insert(2, ());
    let mut keys = walk_keys(&map);
    keys.sort();
    assert_eq!(keys, vec![1, 2, 3]);
}

fn poll_once(task: &mut (u32, u32)) -> Option<u32> {
    assert_eq!(task.1, 0, "polled twice");
    task.1 += 1;
    if task.0 == 0 {
        Some(task.1)
    } else {
        None
    }
}

#[test]
fn no_task_is_polled_twice() {
    let mut tasks = vec![(1, 0), (0, 0), (0, 0)];
    let mut select = SelectVec { inner: &mut tasks };
    assert_eq!(select.poll_with(poll_once), Some(1));
    assert_eq!(tasks, vec![(1, 1), (0, 0)]);
    let mut map: HashMap<u8, (u32, u32)> = HashMap::new();
    map.insert(1, (1, 0));
    map.insert(2, (0, 0));
    let mut select = SelectReady { inner: &mut map };
    assert_eq!(select.poll_with(poll_once), Some((1, 2)));
}
