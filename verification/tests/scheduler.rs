use rayo::scheduler::{check_pool_size, least_loaded, loop_thread_name, total_in_flight, ResponseSlot};

#[test]
fn picks_least_loaded_loop() {
    assert_eq!(least_loaded(&vec![3, 1, 2], 0), 1);
    assert_eq!(least_loaded(&vec![5], 17), 0);
}

#[test]
fn ties_go_to_the_first_in_scan_order() {
    let loads = vec![2, 1, 1, 1];
    assert_eq!(least_loaded(&loads, 0), 1);
    assert_eq!(least_loaded(&loads, 2), 2);
    assert_eq!(least_loaded(&loads, 3), 3);
    assert_eq!(least_loaded(&loads, 4), 1);
}

#[test]
fn idle_loop_ends_the_scan() {
    assert_eq!(least_loaded(&vec![0, 0, 0], 1), 1);
    assert_eq!(least_loaded(&vec![4, 0, 7, 0], 2), 3);
}

#[test]
fn scan_start_near_the_counter_limit() {
    assert_eq!(least_loaded(&vec![1, 1, 1], usize::MAX), (usize::MAX % 3));
}

#[test]
fn total_in_flight_sums_loads() {
    assert_eq!(total_in_flight(&vec![]), 0);
    assert_eq!(total_in_flight(&vec![1, 2, 3]), 6);
}

#[test]
fn pool_needs_a_loop() {
    assert!(check_pool_size(0).is_err());
    assert!(check_pool_size(0).unwrap_err().starts_with("loop_threads must be at least 1"));
    assert!(check_pool_size(4).is_ok());
}

#[test]
fn loop_threads_are_named_by_index() {
    assert_eq!(loop_thread_name(0), "rayo-loop-0");
    assert_eq!(loop_thread_name(12), "rayo-loop-12");
    assert_eq!(loop_thread_name(1005), "rayo-loop-1005");
}

#[test]
fn response_slot_gives_the_sender_once() {
    let mut slot = ResponseSlot::new("sender");
    assert_eq!(slot.take(), Some("sender"));
    assert_eq!(slot.take(), None);
}

#[test]
fn in_flight_count_follows_pending_slots() {
    let mut in_flight = 0usize;
    let mut slots = Vec::new();
    for request in 0..3 {
        slots.push(ResponseSlot::new(request));
        in_flight += 1;
    }
    for index in [1, 1, 2] {
        if slots[index].take().is_some() {
            in_flight -= 1;
        }
    }
    assert_eq!(in_flight, 1);
    assert_eq!(total_in_flight(&vec![in_flight, 0, 2]), 3);
    assert_eq!(slots[0].take(), Some(0));
}
