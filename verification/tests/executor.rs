use art::executor::{RunQueue, TryRecvError, TrySendError, CAPACITY};

#[test]
fn capacity_is_1024() {
    assert_eq!(CAPACITY, 1024);
}

#[test]
fn a_new_queue_is_empty_and_held_by_both_ends() {
    let queue: RunQueue<u32> = RunQueue::new();
    assert_eq!(queue.len(), 0);
    assert_eq!(queue.senders(), 1);
    assert!(queue.receiving());
}

#[test]
fn tasks_come_out_in_the_order_they_went_in() {
    let mut queue: RunQueue<u32> = RunQueue::new();
    assert_eq!(queue.try_send(1), Ok(()));
    assert_eq!(queue.try_send(2), Ok(()));
    assert_eq!(queue.try_send(3), Ok(()));
    assert_eq!(queue.len(), 3);
    assert_eq!(queue.try_recv(), Ok(1));
    assert_eq!(queue.try_recv(), Ok(2));
    assert_eq!(queue.try_send(4), Ok(()));
    assert_eq!(queue.try_recv(), Ok(3));
    assert_eq!(queue.try_recv(), Ok(4));
    assert_eq!(queue.try_recv(), Err(TryRecvError::Empty));
}

#[test]
fn an_empty_queue_with_a_producer_makes_the_executor_wait() {
    let mut queue: RunQueue<u32> = RunQueue::new();
    assert_eq!(queue.try_recv(), Err(TryRecvError::Empty));
    assert_eq!(queue.len(), 0);
}

#[test]
fn an_empty_queue_without_producers_is_closed() {
    let mut queue: RunQueue<u32> = RunQueue::new();
    queue.drop_sender();
    assert_eq!(queue.senders(), 0);
    assert_eq!(queue.try_recv(), Err(TryRecvError::Disconnected));
}

#[test]
fn what_is_queued_is_delivered_after_the_last_producer_left() {
    let mut queue: RunQueue<u32> = RunQueue::new();
    assert_eq!(queue.try_send(9), Ok(()));
    queue.drop_sender();
    assert_eq!(queue.try_recv(), Ok(9));
    assert_eq!(queue.try_recv(), Err(TryRecvError::Disconnected));
}

#[test]
fn producers_are_counted() {
    let mut queue: RunQueue<u32> = RunQueue::new();
    queue.clone_sender();
    queue.clone_sender();
    assert_eq!(queue.senders(), 3);
    queue.drop_sender();
    assert_eq!(queue.senders(), 2);
    assert_eq!(queue.try_recv(), Err(TryRecvError::Empty));
    queue.drop_sender();
    queue.drop_sender();
    assert_eq!(queue.senders(), 0);
    queue.drop_sender();
    assert_eq!(queue.senders(), 0);
}

#[test]
fn a_send_after_the_executor_left_hands_the_task_back() {
    let mut queue: RunQueue<u32> = RunQueue::new();
    queue.drop_receiver();
    assert!(!queue.receiving());
    assert_eq!(queue.try_send(5), Err(TrySendError::Disconnected(5)));
    assert_eq!(queue.len(), 0);
}

#[test]
fn a_full_queue_hands_the_task_back() {
    let mut queue: RunQueue<usize> = RunQueue::new();
    for task in 0..1024 {
        assert_eq!(queue.try_send(task), Ok(()));
    }
    assert_eq!(queue.len(), 1024);
    assert_eq!(queue.try_send(1024), Err(TrySendError::Full(1024)));
    assert_eq!(queue.try_send(1024), Err(TrySendError::Full(1024)));
    assert_eq!(queue.len(), 1024);
}

#[test]
fn a_full_queue_takes_a_task_once_one_was_taken_out() {
    let mut queue: RunQueue<usize> = RunQueue::new();
    for task in 0..1024 {
        assert_eq!(queue.try_send(task), Ok(()));
    }
    assert_eq!(queue.try_send(1024), Err(TrySendError::Full(1024)));
    assert_eq!(queue.try_recv(), Ok(0));
    assert_eq!(queue.try_send(1024), Ok(()));
    assert_eq!(queue.try_send(1025), Err(TrySendError::Full(1025)));
    assert_eq!(queue.len(), 1024);
}

#[test]
fn a_full_queue_without_executor_reports_the_executor() {
    let mut queue: RunQueue<usize> = RunQueue::new();
    for task in 0..1024 {
        assert_eq!(queue.try_send(task), Ok(()));
    }
    queue.drop_receiver();
    assert_eq!(queue.try_send(1024), Err(TrySendError::Disconnected(1024)));
}

#[test]
fn a_task_woken_n_times_is_stepped_n_times() {
    let mut queue: RunQueue<&str> = RunQueue::new();
    assert_eq!(queue.try_send("other"), Ok(()));
    for _ in 0..5 {
        assert_eq!(queue.try_send("task"), Ok(()));
    }
    let mut steps = 0;
    while let Ok(task) = queue.try_recv() {
        if task == "task" {
            steps += 1;
        }
    }
    assert_eq!(steps, 5);
}

#[test]
fn a_queued_task_woken_n_times_is_stepped_n_plus_one_times() {
    let mut queue: RunQueue<&str> = RunQueue::new();
    assert_eq!(queue.try_send("task"), Ok(()));
    for _ in 0..3 {
        assert_eq!(queue.try_send("task"), Ok(()));
    }
    let mut steps = 0;
    while let Ok(task) = queue.try_recv() {
        assert_eq!(task, "task");
        steps += 1;
    }
    assert_eq!(steps, 4);
}

#[test]
fn wakes_between_steps_are_all_stepped() {
    let mut queue: RunQueue<&str> = RunQueue::new();
    let mut stepped = vec![];
    assert_eq!(queue.try_send("a"), Ok(()));
    assert_eq!(queue.try_send("task"), Ok(()));
    stepped.push(queue.try_recv().unwrap());
    assert_eq!(queue.try_send("task"), Ok(()));
    assert_eq!(queue.try_send("b"), Ok(()));
    stepped.push(queue.try_recv().unwrap());
    assert_eq!(queue.try_send("task"), Ok(()));
    while let Ok(task) = queue.try_recv() {
        stepped.push(task);
    }
    assert_eq!(stepped, vec!["a", "task", "task", "b", "task"]);
    assert_eq!(stepped.iter().filter(|task| **task == "task").count(), 3);
}

#[test]
fn a_task_that_is_neither_queued_nor_woken_is_not_stepped() {
    let mut queue: RunQueue<&str> = RunQueue::new();
    assert_eq!(queue.try_send("other"), Ok(()));
    let mut steps = 0;
    while let Ok(task) = queue.try_recv() {
        if task == "task" {
            steps += 1;
        }
    }
    assert_eq!(steps, 0);
}

#[test]
fn refused_sends_leave_no_trace() {
    let mut queue: RunQueue<usize> = RunQueue::new();
    for task in 0..1024 {
        assert_eq!(queue.try_send(task), Ok(()));
    }
    for _ in 0..10 {
        assert_eq!(queue.try_send(7777), Err(TrySendError::Full(7777)));
    }
    let mut stepped = vec![];
    while let Ok(task) = queue.try_recv() {
        stepped.push(task);
    }
    assert_eq!(stepped, (0..1024).collect::<Vec<usize>>());
}
