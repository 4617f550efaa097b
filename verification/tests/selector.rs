use art::kernel::{token, watch, KernelRequest};
use art::mask::{EventMask, Interest};
use art::selector::{
    drain, select, ControlQueue, DrainReport, IOOps, Selected, WakerTable, DOORBELL,
};

#[test]
fn a_new_queue_and_a_new_table_are_empty() {
    let queue: ControlQueue<u32> = ControlQueue::new();
    let table: WakerTable<u32> = WakerTable::new();
    assert_eq!(queue.len(), 0);
    assert_eq!(table.len(), 0);
    assert!(!table.contains(0));
}

#[test]
fn register_queues_one_operation_and_rings_once() {
    let mut queue: ControlQueue<&str> = ControlQueue::new();
    let ring = queue.register(Interest::Input.mask(), 5, "reader");
    assert_eq!(ring, 1);
    assert_eq!(ring, DOORBELL);
    assert_eq!(queue.len(), 1);
}

#[test]
fn unregister_queues_one_operation_and_rings_once() {
    let mut queue: ControlQueue<&str> = ControlQueue::new();
    let ring = queue.unregister(5);
    assert_eq!(ring, 1);
    assert_eq!(queue.len(), 1);
}

#[test]
fn add_event_installs_the_waker_and_arms_the_watch() {
    let mut table: WakerTable<&str> = WakerTable::new();
    let request = table.add_event(Interest::Input.mask(), 5, "reader");
    assert_eq!(
        request,
        KernelRequest::Watch { fd: 5, events: EventMask { bits: 0x4000_0001 }, data: 5 }
    );
    assert!(table.contains(5));
    assert!(!table.contains(6));
    assert_eq!(table.len(), 1);
    assert_eq!(table.dispatch(5), Some("reader"));
}

#[test]
fn rm_event_forgets_the_waker_and_deletes_the_watch() {
    let mut table: WakerTable<&str> = WakerTable::new();
    let _ = table.add_event(Interest::Output.mask(), 8, "writer");
    let request = table.rm_event(8);
    assert_eq!(request, KernelRequest::Unwatch { fd: 8 });
    assert!(!table.contains(8));
    assert_eq!(table.len(), 0);
}

#[test]
fn rm_event_of_an_unknown_descriptor_changes_nothing() {
    let mut table: WakerTable<&str> = WakerTable::new();
    let _ = table.add_event(Interest::Output.mask(), 8, "writer");
    let request = table.rm_event(9);
    assert_eq!(request, KernelRequest::Unwatch { fd: 9 });
    assert!(table.contains(8));
    assert_eq!(table.len(), 1);
}

#[test]
fn dispatch_takes_the_waker_out() {
    let mut table: WakerTable<u64> = WakerTable::new();
    let _ = table.add_event(Interest::Input.mask(), 3, 30);
    let _ = table.add_event(Interest::Input.mask(), 4, 40);
    assert_eq!(table.dispatch(token(4)), Some(40));
    assert!(!table.contains(4));
    assert!(table.contains(3));
    assert_eq!(table.len(), 1);
}

#[test]
fn dispatch_without_a_waker_finds_none() {
    let mut table: WakerTable<u64> = WakerTable::new();
    let _ = table.add_event(Interest::Input.mask(), 3, 30);
    assert_eq!(table.dispatch(4), None);
    assert_eq!(table.len(), 1);
    assert!(table.contains(3));
}

#[test]
fn dispatch_reads_the_descriptor_from_the_low_half_of_the_word() {
    let mut table: WakerTable<u64> = WakerTable::new();
    let _ = table.add_event(Interest::Input.mask(), 3, 30);
    assert_eq!(table.dispatch(0x5_0000_0003), Some(30));
}

#[test]
fn drain_of_an_empty_queue_asks_for_nothing() {
    let mut table: WakerTable<u64> = WakerTable::new();
    let mut queue: ControlQueue<u64> = ControlQueue::new();
    let report = drain(&mut table, &mut queue);
    assert_eq!(report, DrainReport { requests: vec![], fault: None });
    assert_eq!(table.len(), 0);
}

#[test]
fn drain_applies_the_operations_in_the_order_of_the_queue() {
    let mut table: WakerTable<u64> = WakerTable::new();
    let mut queue: ControlQueue<u64> = ControlQueue::new();
    let _ = queue.register(Interest::Input.mask(), 5, 50);
    let _ = queue.register(Interest::Output.mask(), 6, 60);
    let _ = queue.unregister(5);
    let _ = queue.register(Interest::Output.mask(), 5, 51);
    let report = drain(&mut table, &mut queue);
    assert_eq!(
        report.requests,
        vec![
            KernelRequest::Watch { fd: 5, events: EventMask { bits: 0x4000_0001 }, data: 5 },
            KernelRequest::Watch { fd: 6, events: EventMask { bits: 0x4000_0004 }, data: 6 },
            KernelRequest::Unwatch { fd: 5 },
            KernelRequest::Watch { fd: 5, events: EventMask { bits: 0x4000_0004 }, data: 5 },
        ]
    );
    assert_eq!(report.fault, None);
    assert_eq!(queue.len(), 0);
    assert_eq!(table.len(), 2);
    assert_eq!(table.dispatch(5), Some(51));
    assert_eq!(table.dispatch(6), Some(60));
}

#[test]
fn drain_stops_at_a_registration_that_finds_a_waker() {
    let mut table: WakerTable<u64> = WakerTable::new();
    let mut queue: ControlQueue<u64> = ControlQueue::new();
    let _ = queue.register(Interest::Input.mask(), 5, 77);
    let _ = queue.unregister(9);
    let _ = queue.register(Interest::Output.mask(), 5, 78);
    let _ = queue.unregister(5);
    let report = drain(&mut table, &mut queue);
    assert_eq!(report.fault, Some(5));
    assert_eq!(
        report.requests,
        vec![
            watch(Interest::Input.mask(), 5),
            KernelRequest::Unwatch { fd: 9 },
            watch(Interest::Output.mask(), 5),
        ]
    );
    assert_eq!(queue.len(), 1);
    assert_eq!(table.len(), 1);
    assert_eq!(table.dispatch(5), Some(77));
}

#[test]
fn drain_of_removes_alone_leaves_the_table_empty() {
    let mut table: WakerTable<u64> = WakerTable::new();
    let mut queue: ControlQueue<u64> = ControlQueue::new();
    let _ = queue.unregister(1);
    let _ = queue.unregister(1);
    let _ = queue.unregister(2);
    let report = drain(&mut table, &mut queue);
    assert_eq!(report.requests.len(), 3);
    assert_eq!(report.fault, None);
    assert_eq!(table.len(), 0);
}

#[test]
fn operations_take_any_mask() {
    let mut table: WakerTable<u64> = WakerTable::new();
    let mut queue: ControlQueue<u64> = ControlQueue::new();
    let _ = queue.register(EventMask { bits: 0x005 }, 12, 1);
    let report = drain(&mut table, &mut queue);
    assert_eq!(
        report.requests,
        vec![KernelRequest::Watch { fd: 12, events: EventMask { bits: 0x4000_0005 }, data: 12 }]
    );
}

#[test]
fn control_operations_compare_by_what_they_hold() {
    assert_eq!(IOOps::ADD(EventMask { bits: 1 }, 2, 3u8), IOOps::ADD(EventMask { bits: 1 }, 2, 3u8));
    assert_ne!(IOOps::ADD(EventMask { bits: 1 }, 2, 3u8), IOOps::REMOVE(2));
}

#[test]
fn table_size_is_adds_less_dispatches_less_removes() {
    let mut table: WakerTable<u64> = WakerTable::new();
    let mut queue: ControlQueue<u64> = ControlQueue::new();
    let mut adds: usize = 0;
    let mut dispatches: usize = 0;
    let mut removes: usize = 0;
    for fd in 10..30 {
        let _ = queue.register(Interest::Input.mask(), fd, 1000 + fd as u64);
        adds += 1;
    }
    assert_eq!(drain(&mut table, &mut queue).fault, None);
    for fd in 10..17 {
        assert_eq!(table.dispatch(token(fd)), Some(1000 + fd as u64));
        dispatches += 1;
    }
    for fd in 20..25 {
        let _ = queue.unregister(fd);
        removes += 1;
    }
    assert_eq!(drain(&mut table, &mut queue).fault, None);
    assert_eq!(table.len(), adds - dispatches - removes);
    assert_eq!(table.len(), 8);
}

#[test]
fn table_size_is_clamped_at_zero() {
    let mut table: WakerTable<u64> = WakerTable::new();
    let mut queue: ControlQueue<u64> = ControlQueue::new();
    let _ = queue.register(Interest::Input.mask(), 1, 1);
    let _ = queue.unregister(1);
    let _ = queue.unregister(1);
    let _ = queue.unregister(2);
    assert_eq!(drain(&mut table, &mut queue).fault, None);
    assert_eq!(table.len(), 0);
}

#[test]
fn at_most_one_waker_per_descriptor() {
    let mut table: WakerTable<u64> = WakerTable::new();
    let mut queue: ControlQueue<u64> = ControlQueue::new();
    let _ = queue.register(Interest::Input.mask(), 4, 1);
    let _ = queue.register(Interest::Input.mask(), 4, 2);
    let report = drain(&mut table, &mut queue);
    assert_eq!(report.fault, Some(4));
    assert_eq!(table.len(), 1);
    assert_eq!(table.dispatch(4), Some(1));
    assert_eq!(table.dispatch(4), None);
}

#[test]
fn an_unregistration_is_seen_by_the_next_drain() {
    let mut table: WakerTable<u64> = WakerTable::new();
    let mut queue: ControlQueue<u64> = ControlQueue::new();
    let _ = queue.register(Interest::Input.mask(), 4, 1);
    let _ = drain(&mut table, &mut queue);
    let _ = queue.register(Interest::Input.mask(), 6, 2);
    let ring = queue.unregister(4);
    assert_eq!(ring, 1);
    let report = drain(&mut table, &mut queue);
    assert_eq!(report.requests.last(), Some(&KernelRequest::Unwatch { fd: 4 }));
    assert!(!table.contains(4));
    assert!(table.contains(6));
    assert_eq!(queue.len(), 0);
}

#[test]
fn select_tells_the_doorbell_from_a_descriptor() {
    let mut table: WakerTable<u64> = WakerTable::new();
    let _ = table.add_event(Interest::Input.mask(), 5, 50);
    assert_eq!(select(&mut table, 3, 3), Selected::Control);
    assert_eq!(table.len(), 1);
    assert_eq!(select(&mut table, 3, 5), Selected::Wake(50));
    assert_eq!(table.len(), 0);
    assert_eq!(select(&mut table, 3, 5), Selected::Missing(5));
    assert_eq!(select(&mut table, 3, 6), Selected::Missing(6));
}

#[test]
fn select_prefers_the_doorbell_to_a_waker_of_the_same_number() {
    let mut table: WakerTable<u64> = WakerTable::new();
    let _ = table.add_event(Interest::Input.mask(), 3, 30);
    assert_eq!(select(&mut table, 3, 3), Selected::Control);
    assert!(table.contains(3));
}
