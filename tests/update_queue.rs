use std::collections::HashMap;

use raft_core::errors::ReplicaError;
use raft_core::update_queue::{SingularUpdateQueue, DEFAULT_CAPACITY};

type Task = Box<dyn FnOnce(&mut HashMap<String, String>)>;

fn insert(key: &str, value: &str) -> Task {
    let (key, value) = (key.to_string(), value.to_string());
    Box::new(move |storage| {
        storage.insert(key, value);
    })
}

fn run_all(queue: &mut SingularUpdateQueue<Task>, storage: &mut HashMap<String, String>) {
    while let Some(task) = queue.next_task() {
        task(storage);
    }
}

#[test]
fn singular_update_queue_get_with_insert_by_a_single_task() {
    let mut storage = HashMap::new();
    let mut singular_update_queue: SingularUpdateQueue<Task> = SingularUpdateQueue::new(DEFAULT_CAPACITY);
    assert_eq!(Ok(()), singular_update_queue.submit(insert("WAL", "write-ahead log")));
    run_all(&mut singular_update_queue, &mut storage);
    assert_eq!("write-ahead log", storage.get("WAL").unwrap());
}

#[test]
fn singular_update_queue_get_with_insert_by_multiple_tasks() {
    let mut storage = HashMap::new();
    let mut singular_update_queue: SingularUpdateQueue<Task> = SingularUpdateQueue::new(DEFAULT_CAPACITY);
    singular_update_queue.submit(insert("WAL", "write-ahead log")).unwrap();
    singular_update_queue.submit(insert("RAFT", "consensus")).unwrap();
    run_all(&mut singular_update_queue, &mut storage);
    assert_eq!("write-ahead log", storage.get("WAL").unwrap());
    assert_eq!("consensus", storage.get("RAFT").unwrap());
}

#[test]
fn get_with_insert_and_delete_by_multiple_tasks() {
    let mut storage = HashMap::new();
    let mut singular_update_queue: SingularUpdateQueue<Task> = SingularUpdateQueue::new(DEFAULT_CAPACITY);
    singular_update_queue.submit(insert("WAL", "write-ahead log")).unwrap();
    singular_update_queue
        .submit(Box::new(|storage: &mut HashMap<String, String>| {
            storage.remove("WAL");
        }))
        .unwrap();
    run_all(&mut singular_update_queue, &mut storage);
    assert_eq!(None, storage.get("WAL"));
}

#[test]
fn add_single_task() {
    let mut singular_update_queue: SingularUpdateQueue<(String, String)> = SingularUpdateQueue::new(DEFAULT_CAPACITY);
    singular_update_queue.submit(("WAL".to_string(), "write-ahead log".to_string())).unwrap();
    let (key, value) = singular_update_queue.next_task().unwrap();
    assert_eq!("WAL", key);
    assert_eq!("write-ahead log", value);
    assert!(singular_update_queue.next_task().is_none());
}

#[test]
fn submit_multiple_task_and_confirm_their_execution_in_order() {
    let mut singular_update_queue: SingularUpdateQueue<String> = SingularUpdateQueue::new(DEFAULT_CAPACITY);
    singular_update_queue.submit("WAL".to_string()).unwrap();
    singular_update_queue.submit("consensus".to_string()).unwrap();
    assert_eq!(2, singular_update_queue.len());
    let executed = singular_update_queue.drain();
    assert_eq!(vec!["WAL".to_string(), "consensus".to_string()], executed);
    assert_eq!(0, singular_update_queue.len());
}

#[test]
fn submit_after_shutdown_fails() {
    let mut singular_update_queue: SingularUpdateQueue<u32> = SingularUpdateQueue::new(DEFAULT_CAPACITY);
    singular_update_queue.submit(1).unwrap();
    singular_update_queue.shutdown();
    assert!(!singular_update_queue.is_accepting());
    assert_eq!(Err(ReplicaError::ShutdownInProgress), singular_update_queue.submit(2));
    assert_eq!(Some(1), singular_update_queue.next_task());
    assert_eq!(None, singular_update_queue.next_task());
}

#[test]
fn full_queue_refuses_until_a_task_leaves() {
    let mut singular_update_queue: SingularUpdateQueue<u32> = SingularUpdateQueue::new(DEFAULT_CAPACITY);
    assert_eq!(100, singular_update_queue.capacity());
    for task in 0..100u32 {
        assert_eq!(Ok(()), singular_update_queue.submit(task));
    }
    assert!(!singular_update_queue.has_room());
    assert_eq!(Err(ReplicaError::QueueFull), singular_update_queue.submit(100));
    assert_eq!(100, singular_update_queue.len());
    assert_eq!(Some(0), singular_update_queue.next_task());
    assert!(singular_update_queue.has_room());
    assert_eq!(Ok(()), singular_update_queue.submit(100));
    let executed = singular_update_queue.drain();
    assert_eq!((1..=100u32).collect::<Vec<u32>>(), executed);
}
