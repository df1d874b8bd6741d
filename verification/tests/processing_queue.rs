use rsnano_node::processing_queue::{QueueStep, SharedState};

const MAX_TEST_QUEUE_LEN: usize = 16;
const MAX_TEST_BATCH_SIZE: usize = 2;

fn create_queue() -> SharedState<i32> {
    SharedState::new(MAX_TEST_BATCH_SIZE)
}

/// Hands out batches until the queue is empty and counts the processed items.
fn process_all(queue: &mut SharedState<i32>) -> usize {
    let mut processed = 0;
    loop {
        let batch = queue.next_batch();
        if batch.is_empty() {
            return processed;
        }
        assert!(batch.len() <= MAX_TEST_BATCH_SIZE);
        processed += batch.iter().map(|i| *i as usize).sum::<usize>();
    }
}

#[test]
fn empty_queue() {
    let queue = create_queue();
    assert_eq!(queue.len(), 0);
}

#[test]
fn process_one() {
    let mut queue = create_queue();
    queue.add(1, MAX_TEST_QUEUE_LEN);
    assert_eq!(process_all(&mut queue), 1);
}

#[test]
fn process_many() {
    let mut queue = create_queue();
    for _ in 0..10 {
        queue.add(1, MAX_TEST_QUEUE_LEN);
    }
    assert_eq!(process_all(&mut queue), 10);
}

#[test]
fn max_queue_size() {
    let mut queue = create_queue();
    queue.stop();
    for _ in 0..2 * MAX_TEST_QUEUE_LEN {
        queue.add(1, MAX_TEST_QUEUE_LEN);
    }
    assert_eq!(queue.len(), MAX_TEST_QUEUE_LEN)
}

#[test]
fn a_thread_waits_processes_and_stops() {
    let mut queue = create_queue();
    assert!(matches!(queue.step(), QueueStep::Wait));
    for i in 0..3 {
        queue.add(i, MAX_TEST_QUEUE_LEN);
    }
    match queue.step() {
        QueueStep::Process(batch) => assert_eq!(batch, vec![0, 1]),
        _ => panic!("a batch was due"),
    }
    assert_eq!(queue.len(), 1);
    queue.stop();
    assert!(matches!(queue.step(), QueueStep::Stop));
    assert_eq!(queue.len(), 1);
}
