use http_server_starter_rust::worker_pool::{PoolState, WorkerAction};

#[test]
fn more_units_than_workers_are_all_served_once() {
    let mut pool = PoolState::new(2);
    let mut submitted = Vec::new();
    for _ in 0..7 {
        submitted.push(pool.submit().unwrap());
    }
    assert_eq!(pool.pending(), 7);
    let mut served = Vec::new();
    while pool.pending() > 0 {
        let mut taken = Vec::new();
        for w in 0..pool.size() {
            match pool.next_for(w) {
                WorkerAction::Run(id) => taken.push((w, id)),
                other => panic!("expected work, got {:?}", other),
            }
            if pool.pending() == 0 {
                break;
            }
        }
        for (w, id) in taken {
            assert!(!served.contains(&id));
            served.push(id);
            pool.finish(w);
        }
    }
    assert_eq!(served, submitted);
}

#[test]
fn idle_worker_waits_then_exits_after_close() {
    let mut pool = PoolState::new(1);
    assert_eq!(pool.next_for(0), WorkerAction::Wait);
    let id = pool.submit().unwrap();
    pool.close();
    assert!(!pool.is_open());
    assert_eq!(pool.submit(), None);
    assert_eq!(pool.next_for(0), WorkerAction::Run(id));
    pool.finish(0);
    assert_eq!(pool.next_for(0), WorkerAction::Exit);
}
