use actori_http::pool::{
    retire, Acquire, Acquired, AvailableConnection, Call, ConnectError, ConnectionPool,
    ConnectionType, ConnectorPoolSupport, Dispatch, Inner, IoConnection, Key, OpenGuard, Opened,
    Probe, Protocol, Retired, Scan, WaiterGuard,
};

const SECOND: u64 = 1_000_000_000;

type Pool = Inner<u32, u32>;

fn pool(limit: usize) -> Pool {
    Inner::new(75 * SECOND, 15 * SECOND, Some(3 * SECOND), limit)
}

fn key(authority: &str) -> Key {
    Key::new(authority)
}

#[test]
fn new_pool_is_empty() {
    let p = pool(4);
    assert_eq!(p.limit(), 4);
    assert_eq!(p.acquired(), 0);
    assert_eq!(p.waiting(), 0);
    assert_eq!(p.idle_count(&key("example.com")), 0);
    assert!(!p.check_availibility());
}

#[test]
fn key_ignores_ascii_case() {
    let a = key("Example.COM:8080");
    let b = key("example.com:8080");
    assert!(a.same(&b));
    assert_eq!(a.as_str(), "example.com:8080");
    assert!(!a.same(&key("example.com:8081")));
    // letters outside ASCII keep their case
    assert_eq!(key("ÄB").as_str(), "Äb");
    assert!(a.clone().same(&a));
}

#[test]
fn acquire_on_empty_pool_reserves_and_asks_for_a_dial() {
    let mut p = pool(2);
    let (step, retired) = p.acquire(&key("a"), 0);
    assert!(matches!(step, Scan::Done(Acquire::Available)));
    assert!(retired.is_empty());
    assert_eq!(p.acquired(), 1);
}

#[test]
fn acquire_at_limit_is_not_available_and_reserves_nothing() {
    let mut p = pool(1);
    let _ = p.acquire(&key("a"), 0);
    let (step, retired) = p.acquire(&key("a"), 0);
    assert!(matches!(step, Scan::Done(Acquire::NotAvailable)));
    assert!(retired.is_empty());
    assert_eq!(p.acquired(), 1);
    // another key is refused as well: the limit is one for the whole pool
    let (step, _) = p.acquire(&key("b"), 0);
    assert!(matches!(step, Scan::Done(Acquire::NotAvailable)));
    assert_eq!(p.acquired(), 1);
}

#[test]
fn a_limit_of_zero_means_no_limit() {
    let mut p = pool(0);
    for _ in 0..1000 {
        let (step, _) = p.acquire(&key("a"), 0);
        assert!(matches!(step, Scan::Done(Acquire::Available)));
    }
    assert_eq!(p.acquired(), 1000);
    // without limit capacity is always available: whoever waits is woken for
    assert!(!p.check_availibility());
    let _ = p.wait_for(key("a"));
    assert!(p.check_availibility());
}

#[test]
fn capacity_stays_within_limit_over_a_history() {
    let mut p = pool(3);
    let k = key("a");
    let mut held: usize = 0;
    for round in 0..50u64 {
        let (step, _) = p.acquire(&k, round);
        match step {
            Scan::Done(Acquire::NotAvailable) => {}
            Scan::Done(Acquire::Available) => held += 1,
            Scan::Done(Acquire::Acquired(..)) => held += 1,
            Scan::Probe(..) => held += 1,
        }
        assert!(p.acquired() <= 3);
        assert_eq!(p.acquired(), held);
        if round % 3 == 2 && held > 0 {
            let _ = p.release_conn(&k, ConnectionType::H2(round as u32), round, round);
            held -= 1;
        }
        if round % 7 == 6 && held > 0 {
            p.release();
            held -= 1;
        }
        assert_eq!(p.acquired(), held);
    }
}

#[test]
fn released_http2_connection_is_reused() {
    let mut p = pool(2);
    let k = key("a");
    let _ = p.acquire(&k, 0);
    let wake = p.release_conn(&k, ConnectionType::H2(7), 5, 10);
    assert!(!wake);
    assert_eq!(p.acquired(), 0);
    assert_eq!(p.idle_count(&k), 1);
    let (step, retired) = p.acquire(&k, 11);
    assert!(matches!(step, Scan::Done(Acquire::Acquired(ConnectionType::H2(7), 5))));
    assert!(retired.is_empty());
    assert_eq!(p.idle_count(&k), 0);
    assert_eq!(p.acquired(), 1);
}

#[test]
fn released_http1_connection_is_a_candidate_to_probe() {
    let mut p = pool(2);
    let k = key("a");
    let _ = p.acquire(&k, 0);
    let _ = p.release_conn(&k, ConnectionType::H1(7), 5, 10);
    let (step, retired) = p.acquire(&k, 11);
    assert!(matches!(step, Scan::Probe(7, 5)));
    assert!(retired.is_empty());
    assert_eq!(p.idle_count(&k), 0);
    let (step, retired) = p.probed(&k, 11, 7, 5, Probe::Pending);
    assert!(matches!(step, Scan::Done(Acquire::Acquired(ConnectionType::H1(7), 5))));
    assert!(retired.is_empty());
    assert_eq!(p.acquired(), 1);
}

#[test]
fn idle_connections_are_kept_per_endpoint() {
    let mut p = pool(0);
    let a = key("a");
    let b = key("b");
    let _ = p.acquire(&a, 0);
    let _ = p.acquire(&b, 0);
    let _ = p.release_conn(&a, ConnectionType::H2(1), 0, 0);
    let _ = p.release_conn(&b, ConnectionType::H2(2), 0, 0);
    assert_eq!(p.idle_count(&a), 1);
    assert_eq!(p.idle_count(&b), 1);
    let (step, _) = p.acquire(&b, 1);
    assert!(matches!(step, Scan::Done(Acquire::Acquired(ConnectionType::H2(2), 0))));
    assert_eq!(p.idle_count(&a), 1);
    assert_eq!(p.idle_count(&b), 0);
    let (step, _) = p.acquire(&key("c"), 1);
    assert!(matches!(step, Scan::Done(Acquire::Available)));
}

#[test]
fn reuse_is_last_in_first_out() {
    let mut p = pool(0);
    let k = key("a");
    let _ = p.acquire(&k, 0);
    let _ = p.acquire(&k, 0);
    let _ = p.release_conn(&k, ConnectionType::H2(1), 0, 1); // A
    let _ = p.release_conn(&k, ConnectionType::H2(2), 0, 2); // B
    let (step, _) = p.acquire(&k, 3);
    assert!(matches!(step, Scan::Done(Acquire::Acquired(ConnectionType::H2(2), 0))));
    let (step, _) = p.acquire(&k, 3);
    assert!(matches!(step, Scan::Done(Acquire::Acquired(ConnectionType::H2(1), 0))));
    let (step, _) = p.acquire(&k, 3);
    assert!(matches!(step, Scan::Done(Acquire::Available)));
}

#[test]
fn connection_idle_beyond_keep_alive_is_retired_and_the_scan_goes_on() {
    let mut p = pool(0);
    let k = key("a");
    for _ in 0..3 {
        let _ = p.acquire(&k, 0);
    }
    let _ = p.release_conn(&k, ConnectionType::H2(1), 0, 10 * SECOND); // fresh at 20 s
    let _ = p.release_conn(&k, ConnectionType::H1(2), 0, 4 * SECOND); // stale at 20 s
    let _ = p.release_conn(&k, ConnectionType::H2(3), 0, 3 * SECOND); // stale at 20 s
    let (step, retired) = p.acquire(&k, 20 * SECOND);
    assert!(matches!(step, Scan::Done(Acquire::Acquired(ConnectionType::H2(1), 0))));
    assert_eq!(retired.len(), 2);
    // topmost first; both are shut down within the disconnect timeout
    assert!(matches!(
        retired[0],
        Retired::Shutdown { io: ConnectionType::H2(3), timeout } if timeout == 3 * SECOND
    ));
    assert!(matches!(
        retired[1],
        Retired::Shutdown { io: ConnectionType::H1(2), timeout } if timeout == 3 * SECOND
    ));
    assert_eq!(p.idle_count(&k), 0);
}

#[test]
fn keep_alive_is_exceeded_only_strictly() {
    let mut p = pool(0);
    let k = key("a");
    let _ = p.acquire(&k, 0);
    let _ = p.release_conn(&k, ConnectionType::H2(1), 0, 0);
    let (step, _) = p.acquire(&k, 15 * SECOND);
    assert!(matches!(step, Scan::Done(Acquire::Acquired(ConnectionType::H2(1), 0))));
    let _ = p.release_conn(&k, ConnectionType::H2(1), 0, 0);
    let (step, retired) = p.acquire(&k, 15 * SECOND + 1);
    assert!(matches!(step, Scan::Done(Acquire::Available)));
    assert_eq!(retired.len(), 1);
}

#[test]
fn connection_older_than_lifetime_is_retired() {
    let mut p = pool(0);
    let k = key("a");
    let _ = p.acquire(&k, 0);
    // opened at 0, last used at 70 s: within keep-alive at 76 s, beyond lifetime
    let _ = p.release_conn(&k, ConnectionType::H2(1), 0, 70 * SECOND);
    let (step, retired) = p.acquire(&k, 76 * SECOND);
    assert!(matches!(step, Scan::Done(Acquire::Available)));
    assert_eq!(retired.len(), 1);
    assert_eq!(p.acquired(), 1);
}

#[test]
fn a_clock_that_runs_backwards_does_not_expire_anything() {
    let entry = AvailableConnection::<u32, u32> { io: ConnectionType::H1(1), used: 100, created: 90 };
    assert!(!entry.is_expired(50, 0, 0));
    assert!(!entry.is_expired(100, 0, 10));
    assert!(entry.is_expired(101, 0, 11));
    assert!(entry.is_expired(101, 1, 10));
    assert!(!entry.is_expired(101, 1, 11));
}

#[test]
fn probe_that_reads_bytes_retires_the_candidate_and_goes_on() {
    let mut p = pool(0);
    let k = key("a");
    let _ = p.acquire(&k, 0);
    let _ = p.acquire(&k, 0);
    let _ = p.release_conn(&k, ConnectionType::H1(1), 0, 0);
    let _ = p.release_conn(&k, ConnectionType::H1(2), 0, 0);
    let (step, _) = p.acquire(&k, 1);
    assert!(matches!(step, Scan::Probe(2, 0)));
    let (step, retired) = p.probed(&k, 1, 2, 0, Probe::Read(2));
    assert!(matches!(step, Scan::Probe(1, 0)));
    assert_eq!(retired.len(), 1);
    assert!(matches!(
        retired[0],
        Retired::Shutdown { io: ConnectionType::H1(2), timeout } if timeout == 3 * SECOND
    ));
    let (step, retired) = p.probed(&k, 1, 1, 0, Probe::Read(1));
    assert!(matches!(step, Scan::Done(Acquire::Available)));
    assert_eq!(retired.len(), 1);
    // the reservation made by `acquire` is still charged
    assert_eq!(p.acquired(), 1);
}

#[test]
fn probe_at_end_of_stream_or_in_error_drops_the_candidate() {
    let mut p = pool(0);
    let k = key("a");
    let _ = p.acquire(&k, 0);
    let _ = p.acquire(&k, 0);
    let _ = p.release_conn(&k, ConnectionType::H1(1), 0, 0);
    let _ = p.release_conn(&k, ConnectionType::H2(9), 0, 0);
    let (step, retired) = p.probed(&k, 1, 5, 0, Probe::Read(0));
    assert!(matches!(step, Scan::Done(Acquire::Acquired(ConnectionType::H2(9), 0))));
    assert_eq!(retired.len(), 1);
    assert!(matches!(retired[0], Retired::Discard(ConnectionType::H1(5))));
    let (step, retired) = p.probed(&k, 1, 6, 0, Probe::Failed);
    assert!(matches!(step, Scan::Probe(1, 0)));
    assert!(matches!(retired[0], Retired::Discard(ConnectionType::H1(6))));
}

#[test]
fn retirement_depends_on_the_timeout_alone() {
    assert!(matches!(
        retire::<u32, u32>(ConnectionType::H1(1), Some(9)),
        Retired::Shutdown { io: ConnectionType::H1(1), timeout: 9 }
    ));
    assert!(matches!(
        retire::<u32, u32>(ConnectionType::H2(1), Some(9)),
        Retired::Shutdown { io: ConnectionType::H2(1), timeout: 9 }
    ));
    assert!(matches!(
        retire::<u32, u32>(ConnectionType::H2(1), None),
        Retired::Discard(ConnectionType::H2(1))
    ));
    assert!(matches!(
        retire::<u32, u32>(ConnectionType::H1(1), None),
        Retired::Discard(ConnectionType::H1(1))
    ));
    assert_eq!(ConnectionType::<u32, u32>::H1(1).protocol(), Protocol::Http1);
    assert_eq!(ConnectionType::<u32, u32>::H2(1).protocol(), Protocol::Http2);
}

#[test]
fn release_close_gives_capacity_back_and_says_how_to_dispose() {
    let mut p: Pool = Inner::new(75 * SECOND, 15 * SECOND, None, 1);
    let k = key("a");
    let _ = p.acquire(&k, 0);
    let (plan, wake) = p.release_close(ConnectionType::H1(3));
    assert!(matches!(plan, Retired::Discard(ConnectionType::H1(3))));
    assert!(!wake);
    assert_eq!(p.acquired(), 0);
    assert_eq!(p.idle_count(&k), 0);
}

#[test]
fn release_wakes_the_background_task_when_somebody_waits() {
    let mut p = pool(1);
    let k = key("a");
    let _ = p.acquire(&k, 0);
    let _ = p.wait_for(k.clone());
    // at the limit nobody is woken
    assert!(!p.check_availibility());
    let wake = p.release_conn(&k, ConnectionType::H2(1), 0, 0);
    assert!(wake);
}

#[test]
fn waiters_get_distinct_tokens_and_are_served_in_order() {
    let mut p = pool(1);
    let k = key("a");
    let _ = p.acquire(&k, 0);
    let (w1, n1) = p.wait_for(k.clone());
    let (w2, n2) = p.wait_for(k.clone());
    let (w3, n3) = p.wait_for(k.clone());
    assert!(w1 != w2 && w2 != w3 && w1 != w3);
    assert_eq!((n1, n2, n3), (0, 1, 2));
    assert_eq!(p.arrivals(), 3);
    assert_eq!(p.waiting(), 3);
    assert!(p.is_waiting(&k, w1, n1));
    assert!(!p.is_waiting(&k, w1, n2));
    assert!(!p.is_waiting(&key("b"), w1, n1));

    // at the limit the background task does nothing
    let (action, _) = p.dispatch(1);
    assert!(matches!(action, Dispatch::Parked));
    assert_eq!(p.waiting(), 3);

    p.release();
    let (action, _) = p.dispatch(1);
    assert!(matches!(action, Dispatch::Dial { token, .. } if token == w1));
    assert_eq!(p.waiting(), 2);
    assert!(!p.is_waiting(&k, w1, n1));

    p.release();
    let (action, _) = p.dispatch(1);
    assert!(matches!(action, Dispatch::Dial { token, .. } if token == w2));

    p.release();
    let (action, _) = p.dispatch(1);
    assert!(matches!(action, Dispatch::Dial { token, .. } if token == w3));
    assert_eq!(p.waiting(), 0);
    let (action, _) = p.dispatch(1);
    assert!(matches!(action, Dispatch::Parked));
}

#[test]
fn a_waiter_for_another_endpoint_does_not_jump_the_queue() {
    let mut p = pool(1);
    let a = key("a");
    let b = key("b");
    let _ = p.acquire(&a, 0);
    let (wa, _) = p.wait_for(a.clone());
    let (wb, nb) = p.wait_for(b.clone());
    // an idle connection for b appears while the pool is full
    let _ = p.release_conn(&b, ConnectionType::H2(4), 0, 0);
    let (action, _) = p.dispatch(1);
    assert!(matches!(action, Dispatch::Dial { token, ref key } if token == wa && key.same(&a)));
    let (action, _) = p.dispatch(1);
    assert!(matches!(action, Dispatch::Parked));
    assert!(p.is_waiting(&b, wb, nb));
}

#[test]
fn dispatch_delivers_an_idle_connection_rather_than_dialing() {
    let mut p = pool(1);
    let k = key("a");
    let _ = p.acquire(&k, 0);
    let (w, _) = p.wait_for(k.clone());
    let _ = p.release_conn(&k, ConnectionType::H2(8), 2, 3);
    let (action, retired) = p.dispatch(4);
    assert!(retired.is_empty());
    match action {
        Dispatch::Deliver { token, key, io, created } => {
            assert_eq!(token, w);
            assert!(key.same(&k));
            assert!(matches!(io, ConnectionType::H2(8)));
            assert_eq!(created, 2);
        }
        _ => panic!("the idle connection is delivered"),
    }
    assert_eq!(p.acquired(), 1);
    assert_eq!(p.waiting(), 0);
}

#[test]
fn dispatch_probes_an_http1_candidate_before_delivering_it() {
    let mut p = pool(1);
    let k = key("a");
    let _ = p.acquire(&k, 0);
    let (w, _) = p.wait_for(k.clone());
    let _ = p.release_conn(&k, ConnectionType::H1(8), 2, 3);
    let (action, _) = p.dispatch(4);
    let (token, key, stream, created) = match action {
        Dispatch::Probe { token, key, stream, created } => (token, key, stream, created),
        _ => panic!("the candidate is probed"),
    };
    assert_eq!((token, stream, created), (w, 8, 2));
    // the waiter stays queued while the candidate is probed
    assert_eq!(p.waiting(), 1);
    let (action, retired) = p.dispatch_probed(token, key, 4, stream, created, Probe::Read(5));
    assert!(matches!(action, Dispatch::Dial { token, .. } if token == w));
    assert_eq!(retired.len(), 1);
    assert_eq!(p.waiting(), 0);
    assert_eq!(p.acquired(), 1);
}

#[test]
fn giving_up_waiting_leaves_no_trace() {
    let mut p = pool(1);
    let k = key("a");
    let _ = p.acquire(&k, 0);
    let (token, arrival) = p.wait_for(k.clone());
    let mut guard = WaiterGuard::new(k.clone(), token, arrival);
    assert_eq!(guard.slot(), token);
    assert_eq!(guard.number(), arrival);
    let (withdrawn, wake) = guard.dropped(&mut p);
    assert!(withdrawn);
    assert!(!wake);
    assert!(!guard.is_live());
    assert_eq!(p.waiting(), 0);
    assert_eq!(p.acquired(), 1);
    // a second drop does nothing
    let _ = guard.dropped(&mut p);
    assert_eq!(p.waiting(), 0);
    // once capacity is back the next caller is served without delay
    p.release();
    let (step, _) = p.acquire(&k, 1);
    assert!(matches!(step, Scan::Done(Acquire::Available)));
}

#[test]
fn release_waiter_withdraws_nobody_else() {
    let mut p = pool(1);
    let a = key("a");
    let (token, arrival) = p.wait_for(a.clone());
    assert!(!p.release_waiter(&key("b"), token, arrival));
    assert_eq!(p.waiting(), 1);
    assert!(!p.release_waiter(&a, token + 1, arrival));
    assert_eq!(p.waiting(), 1);
    assert!(!p.release_waiter(&a, token, arrival + 1));
    assert_eq!(p.waiting(), 1);
    assert!(p.release_waiter(&a, token, arrival));
    assert_eq!(p.waiting(), 0);
    assert!(!p.release_waiter(&a, token, arrival));
    assert_eq!(p.waiting(), 0);
}

#[test]
fn a_consumed_waiter_guard_leaves_the_queue_alone() {
    let mut p = pool(1);
    let a = key("a");
    let (token, arrival) = p.wait_for(a.clone());
    let mut guard = WaiterGuard::new(a.clone(), token, arrival);
    guard.consume();
    let (withdrawn, wake) = guard.dropped(&mut p);
    assert!(!withdrawn);
    assert!(!wake);
    assert_eq!(p.waiting(), 1);
}

#[test]
fn a_lease_gives_its_capacity_back_exactly_once() {
    let mut p = pool(2);
    let k = key("a");
    let _ = p.acquire(&k, 0);
    let _ = p.acquire(&k, 0);
    let mut guard = Acquired::new(k.clone());
    assert!(guard.is_live());
    assert!(guard.endpoint().same(&k));
    let (back, _) = guard.release(&mut p, ConnectionType::H2(1), 0, 1);
    assert!(back.is_none());
    assert_eq!(p.acquired(), 1);
    assert_eq!(p.idle_count(&k), 1);
    // the guard is spent: nothing it does touches the pool again
    let (back, wake) = guard.release(&mut p, ConnectionType::H2(2), 0, 1);
    assert!(matches!(back, Some(ConnectionType::H2(2))));
    assert!(!wake);
    let (plan, wake) = guard.close(&mut p, ConnectionType::H1(3));
    assert!(matches!(plan, Retired::Discard(ConnectionType::H1(3))));
    assert!(!wake);
    guard.dropped(&mut p);
    assert_eq!(p.acquired(), 1);
    assert_eq!(p.idle_count(&k), 1);
}

#[test]
fn closing_a_lease_shuts_the_stream_down() {
    let mut p = pool(2);
    let k = key("a");
    let _ = p.acquire(&k, 0);
    let lease: IoConnection<u32, u32> =
        IoConnection::new(ConnectionType::H1(5), 3, Some(Acquired::new(k.clone())));
    assert_eq!(lease.protocol(), Protocol::Http1);
    assert_eq!(lease.opened_at(), 3);
    assert!(matches!(lease.get_ref(), ConnectionType::H1(5)));
    let (plan, _) = lease.close(&mut p);
    assert!(matches!(
        plan,
        Retired::Shutdown { io: ConnectionType::H1(5), timeout } if timeout == 3 * SECOND
    ));
    assert_eq!(p.acquired(), 0);
    assert_eq!(p.idle_count(&k), 0);
}

#[test]
fn dropping_a_lease_gives_capacity_back_and_nothing_else() {
    let mut p = pool(2);
    let k = key("a");
    let _ = p.acquire(&k, 0);
    let lease: IoConnection<u32, u32> =
        IoConnection::new(ConnectionType::H1(5), 3, Some(Acquired::new(k.clone())));
    let io = lease.dropped(&mut p);
    assert!(matches!(io, ConnectionType::H1(5)));
    assert_eq!(p.acquired(), 0);
    assert_eq!(p.idle_count(&k), 0);
}

#[test]
fn a_lease_without_guard_never_touches_the_pool() {
    let mut p = pool(2);
    let k = key("a");
    let _ = p.acquire(&k, 0);
    let lease: IoConnection<u32, u32> = IoConnection::new(ConnectionType::H2(5), 3, None);
    let (back, wake) = lease.release(&mut p, 4);
    assert!(matches!(back, Some(ConnectionType::H2(5))));
    assert!(!wake);
    assert_eq!(p.acquired(), 1);
    let lease: IoConnection<u32, u32> = IoConnection::new(ConnectionType::H2(5), 3, None);
    let (io, created) = lease.into_inner();
    assert!(matches!(io, ConnectionType::H2(5)));
    assert_eq!(created, 3);
}

#[test]
fn releasing_a_lease_returns_the_connection_to_its_endpoint() {
    let mut p = pool(2);
    let k = key("a");
    let _ = p.acquire(&k, 0);
    let lease: IoConnection<u32, u32> =
        IoConnection::new(ConnectionType::H2(5), 3, Some(Acquired::new(k.clone())));
    let (back, _) = lease.release(&mut p, 9);
    assert!(back.is_none());
    assert_eq!(p.idle_count(&k), 1);
    let (step, _) = p.acquire(&k, 10);
    assert!(matches!(step, Scan::Done(Acquire::Acquired(ConnectionType::H2(5), 3))));
}

#[test]
fn an_abandoned_dial_gives_its_reservation_back() {
    let mut p = pool(1);
    let k = key("a");
    let _ = p.acquire(&k, 0);
    let _ = p.wait_for(k.clone());
    let mut guard = OpenGuard::new(k.clone());
    assert!(guard.endpoint().same(&k));
    let wake = guard.dropped(&mut p);
    assert!(wake);
    assert!(!guard.is_live());
    assert_eq!(p.acquired(), 0);
    let wake = guard.dropped(&mut p);
    assert!(!wake);
    assert_eq!(p.acquired(), 0);
}

#[test]
fn scenario_reuse_over_redial() {
    let mut pool: ConnectionPool<u32, u32> =
        ConnectionPool::new(75 * SECOND, 15 * SECOND, Some(3 * SECOND), 1);

    // Acquire1(K): nothing idle, the caller dials.
    let called = pool.call(Some("K"), 0);
    assert!(called.spawn_support);
    let guard = match called.outcome {
        Ok((Call::Dial(guard), retired)) => {
            assert!(retired.is_empty());
            guard
        }
        _ => panic!("the first caller dials"),
    };
    let lease1 = match ConnectionPool::<u32, u32>::opened(guard, Protocol::Http1) {
        Opened::Lease(guard) => ConnectionPool::<u32, u32>::leased(guard, ConnectionType::H1(42), 1),
        Opened::Handshake(_) => panic!("an HTTP/1 connection needs no handshake"),
    };
    assert_eq!(pool.inner.acquired(), 1);

    // Acquire2(K) while the first lease is held: queued.
    let called = pool.call(Some("K"), 2);
    assert!(!called.spawn_support);
    let mut waiter = match called.outcome {
        Ok((Call::Wait(guard), _)) => guard,
        _ => panic!("the second caller waits"),
    };
    assert_eq!(pool.inner.waiting(), 1);
    assert_eq!(pool.inner.acquired(), 1);

    // Release the first lease: the background task is woken.
    let (back, wake) = lease1.release(&mut pool.inner, 3);
    assert!(back.is_none());
    assert!(wake);
    assert_eq!(pool.inner.acquired(), 0);

    // Reconciliation: the waiter gets the idle connection, no fresh dial.
    let (action, _) = pool.inner.dispatch(4);
    let (token, key, stream, created) = match action {
        Dispatch::Probe { token, key, stream, created } => (token, key, stream, created),
        _ => panic!("the idle stream is the candidate"),
    };
    assert_eq!(token, waiter.slot());
    assert_eq!(stream, 42);
    let (action, _) = pool.inner.dispatch_probed(token, key, 4, stream, created, Probe::Pending);
    match action {
        Dispatch::Deliver { token, io, created, .. } => {
            assert_eq!(token, waiter.slot());
            assert!(matches!(io, ConnectionType::H1(42)));
            assert_eq!(created, 1);
        }
        _ => panic!("the waiter is given the idle connection"),
    }
    assert_eq!(pool.inner.acquired(), 1);
    assert_eq!(pool.inner.waiting(), 0);
    assert_eq!(pool.inner.idle_count(&Key::new("K")), 0);

    let answer = ConnectionPool::<u32, u32>::replied(&mut waiter, Some(Ok::<u32, ConnectError>(42)));
    assert_eq!(answer, Ok(42));
    assert!(!waiter.is_live());
}

#[test]
fn call_without_authority_is_unresolved() {
    let mut pool: ConnectionPool<u32, u32> = ConnectionPool::new(1, 1, None, 1);
    let called = pool.call(None, 0);
    assert!(called.spawn_support);
    assert!(matches!(called.outcome, Err(ConnectError::Unresolved)));
    assert_eq!(pool.inner.acquired(), 0);
    // the background task is started once
    let called = pool.call(None, 0);
    assert!(!called.spawn_support);
}

#[test]
fn call_reuses_an_idle_connection() {
    let mut pool: ConnectionPool<u32, u32> =
        ConnectionPool::new(75 * SECOND, 15 * SECOND, None, 2);
    let k = Key::new("Host:80");
    let _ = pool.inner.acquire(&k, 0);
    let _ = pool.inner.release_conn(&k, ConnectionType::H2(3), 0, 0);
    let called = pool.call(Some("host:80"), 1);
    match called.outcome {
        Ok((Call::Connected(lease), _)) => {
            assert!(matches!(lease.get_ref(), ConnectionType::H2(3)));
            assert_eq!(lease.opened_at(), 0);
        }
        _ => panic!("the idle connection is reused"),
    }
    assert_eq!(pool.inner.acquired(), 1);
}

#[test]
fn call_probes_an_idle_stream_and_goes_on() {
    let mut pool: ConnectionPool<u32, u32> =
        ConnectionPool::new(75 * SECOND, 15 * SECOND, None, 2);
    let k = Key::new("host");
    let _ = pool.inner.acquire(&k, 0);
    let _ = pool.inner.release_conn(&k, ConnectionType::H1(3), 0, 0);
    let called = pool.call(Some("host"), 1);
    let (key, stream, created) = match called.outcome {
        Ok((Call::Probe { key, stream, created }, _)) => (key, stream, created),
        _ => panic!("the idle stream is probed"),
    };
    let (next, retired) = pool.call_probed(key, 1, stream, created, Probe::Failed);
    assert!(matches!(next, Call::Dial(_)));
    assert_eq!(retired.len(), 1);
    assert_eq!(pool.inner.acquired(), 1);
}

#[test]
fn an_http2_connection_is_leased_after_its_handshake() {
    let guard = OpenGuard::new(Key::new("host"));
    let guard = match ConnectionPool::<u32, u32>::opened(guard, Protocol::Http2) {
        Opened::Handshake(guard) => guard,
        Opened::Lease(_) => panic!("HTTP/2 needs a handshake"),
    };
    assert!(guard.is_live());
    let lease = ConnectionPool::<u32, u32>::leased(guard.consume(), ConnectionType::H2(1), 7);
    assert_eq!(lease.protocol(), Protocol::Http2);
    assert_eq!(lease.opened_at(), 7);
}

#[test]
fn a_dropped_reply_is_a_disconnect() {
    let mut guard = WaiterGuard::new(Key::new("host"), 0, 0);
    let answer = ConnectionPool::<u32, u32>::replied::<u32>(&mut guard, None);
    assert_eq!(answer, Err(ConnectError::Disconnected));
    assert!(!guard.is_live());
    let mut guard = WaiterGuard::new(Key::new("host"), 0, 0);
    let answer =
        ConnectionPool::<u32, u32>::replied::<u32>(&mut guard, Some(Err(ConnectError::Timeout)));
    assert_eq!(answer, Err(ConnectError::Timeout));
}

#[test]
fn a_leased_connection_is_not_in_the_registry() {
    let mut p = pool(0);
    let k = key("a");
    let _ = p.acquire(&k, 0);
    let _ = p.release_conn(&k, ConnectionType::H2(7), 0, 0);
    assert_eq!(p.idle_count(&k), 1);
    let (step, _) = p.acquire(&k, 1);
    assert!(matches!(step, Scan::Done(Acquire::Acquired(ConnectionType::H2(7), 0))));
    // while it is leased nobody else can get it
    assert_eq!(p.idle_count(&k), 0);
    let (step, _) = p.acquire(&k, 1);
    assert!(matches!(step, Scan::Done(Acquire::Available)));
    // and it comes back exactly once
    let _ = p.release_conn(&k, ConnectionType::H2(7), 0, 2);
    assert_eq!(p.idle_count(&k), 1);
}

#[test]
fn a_search_loses_no_connection() {
    let mut p = pool(0);
    let k = key("a");
    for _ in 0..6 {
        let _ = p.acquire(&k, 0);
    }
    // released at 1 s, 2 s, ..., 6 s; the even ones speak HTTP/2
    for i in 1..=6u32 {
        let io = if i % 2 == 0 { ConnectionType::H2(i) } else { ConnectionType::H1(i) };
        let _ = p.release_conn(&k, io, 0, i as u64 * SECOND);
    }
    // at 19.5 s those released before 4.5 s have expired: they lie at the bottom
    let now = 19 * SECOND + SECOND / 2;
    let mut seen: Vec<u32> = Vec::new();
    let (mut step, retired) = p.acquire(&k, now);
    assert!(retired.is_empty());
    loop {
        match step {
            Scan::Done(Acquire::Acquired(ConnectionType::H2(io), _)) => {
                seen.push(io);
                let (next, retired) = p.acquire(&k, now);
                for plan in retired {
                    match plan {
                        Retired::Shutdown { io: ConnectionType::H1(io), .. } => seen.push(io),
                        Retired::Shutdown { io: ConnectionType::H2(io), .. } => seen.push(io),
                        Retired::Discard(_) => panic!("a disconnect timeout is set"),
                    }
                }
                step = next;
            }
            Scan::Probe(io, created) => {
                let (next, retired) = p.probed(&k, now, io, created, Probe::Read(1));
                for plan in retired {
                    match plan {
                        Retired::Shutdown { io: ConnectionType::H1(io), .. } => seen.push(io),
                        Retired::Shutdown { io: ConnectionType::H2(io), .. } => seen.push(io),
                        Retired::Discard(_) => panic!("a disconnect timeout is set"),
                    }
                }
                step = next;
            }
            Scan::Done(Acquire::Available) => break,
            _ => panic!("a pool without limit always answers"),
        }
    }
    assert_eq!(seen, vec![6, 5, 4, 3, 2, 1]);
    assert_eq!(p.idle_count(&k), 0);
}

#[test]
fn the_guard_of_a_served_waiter_spares_whoever_has_its_slot_now() {
    let mut p = pool(1);
    let k = key("a");
    let _ = p.acquire(&k, 0);
    let (first, n1) = p.wait_for(k.clone());
    let mut guard = WaiterGuard::new(k.clone(), first, n1);
    // the first waiter is served
    p.release();
    let (action, _) = p.dispatch(1);
    assert!(matches!(action, Dispatch::Dial { token, .. } if token == first));
    // a later caller for the same endpoint is given the same slot
    let (second, n2) = p.wait_for(k.clone());
    assert_eq!(second, first);
    assert!(n2 != n1);
    // the first caller's guard is dropped without having been consumed
    let (withdrawn, wake) = guard.dropped(&mut p);
    assert!(!withdrawn);
    assert!(!wake);
    assert_eq!(p.waiting(), 1);
    assert!(p.is_waiting(&k, second, n2));
}

#[test]
fn an_idle_connection_that_cannot_be_delivered_goes_back() {
    let mut p = pool(1);
    let k = key("a");
    let _ = p.acquire(&k, 0);
    let _ = p.wait_for(k.clone());
    let _ = p.release_conn(&k, ConnectionType::H2(8), 2, 3);
    let (action, _) = p.dispatch(4);
    let lease = match action {
        Dispatch::Deliver { key, io, created, .. } => {
            ConnectionPool::<u32, u32>::reused(key, io, created)
        }
        _ => panic!("the idle connection is taken for the waiter"),
    };
    assert_eq!(p.acquired(), 1);
    assert_eq!(p.idle_count(&k), 0);
    // the waiter has gone: the lease comes back unsent
    let (dropped, wake) = ConnectionPool::<u32, u32>::undelivered(&mut p, Some(lease), 5);
    assert!(dropped.is_none());
    assert!(!wake);
    assert_eq!(p.acquired(), 0);
    assert_eq!(p.idle_count(&k), 1);
    assert_eq!(p.waiting(), 0);
    let (step, _) = p.acquire(&k, 6);
    assert!(matches!(step, Scan::Done(Acquire::Acquired(ConnectionType::H2(8), 2))));
    // a reply that was taken needs nothing more
    let (dropped, wake) = ConnectionPool::<u32, u32>::undelivered(&mut p, None, 7);
    assert!(dropped.is_none() && !wake);
    assert_eq!(p.acquired(), 1);
}

#[test]
fn a_dialed_connection_that_cannot_be_delivered_goes_into_the_pool() {
    let mut p = pool(1);
    let k = key("a");
    let _ = p.acquire(&k, 0);
    let lease = ConnectionPool::<u32, u32>::leased(Acquired::new(k.clone()), ConnectionType::H1(4), 9);
    let (dropped, _) = ConnectionPool::<u32, u32>::undelivered(&mut p, Some(lease), 10);
    assert!(dropped.is_none());
    assert_eq!(p.acquired(), 0);
    assert_eq!(p.idle_count(&k), 1);
    let (step, _) = p.acquire(&k, 11);
    assert!(matches!(step, Scan::Probe(4, 9)));
}

#[test]
fn closing_an_http2_lease_shuts_the_session_down() {
    let mut p = pool(2);
    let k = key("a");
    let _ = p.acquire(&k, 0);
    let (plan, _) = p.release_close(ConnectionType::H2(3));
    assert!(matches!(
        plan,
        Retired::Shutdown { io: ConnectionType::H2(3), timeout } if timeout == 3 * SECOND
    ));
    assert_eq!(p.acquired(), 0);
    assert_eq!(p.idle_count(&k), 0);
}

#[test]
fn a_poll_serves_the_waiters_in_the_order_in_which_they_queued() {
    let mut p = pool(3);
    let k = key("a");
    for _ in 0..3 {
        let _ = p.acquire(&k, 0);
    }
    let (w1, _) = p.wait_for(k.clone());
    let (w2, _) = p.wait_for(key("b"));
    let (w3, _) = p.wait_for(k.clone());
    let task = ConnectorPoolSupport::new(vec![]);
    // at the limit nothing happens
    let (actions, retired) = task.poll(&mut p, 1);
    assert!(actions.is_empty() && retired.is_empty());
    assert_eq!(p.waiting(), 3);
    // two connections come back, one of them an HTTP/2 session for a
    let _ = p.release_conn(&k, ConnectionType::H2(5), 0, 0);
    p.release();
    let (actions, _) = task.poll(&mut p, 1);
    assert_eq!(actions.len(), 2);
    assert!(matches!(
        actions[0],
        Dispatch::Deliver { token, io: ConnectionType::H2(5), .. } if token == w1
    ));
    assert!(matches!(actions[1], Dispatch::Dial { token, .. } if token == w2));
    assert_eq!(p.waiting(), 1);
    assert!(p.acquired() == 3);
    // the last waiter is served once capacity is there
    p.release();
    let (actions, _) = task.poll(&mut p, 2);
    assert_eq!(actions.len(), 1);
    assert!(matches!(actions[0], Dispatch::Dial { token, .. } if token == w3));
    assert_eq!(p.waiting(), 0);
    let (actions, _) = task.poll(&mut p, 3);
    assert!(actions.is_empty());
}

#[test]
fn a_poll_hands_the_connection_of_a_waiter_that_has_gone_to_the_next() {
    let mut p = pool(1);
    let k = key("a");
    let _ = p.acquire(&k, 0);
    let (w1, _) = p.wait_for(k.clone());
    let (w2, _) = p.wait_for(k.clone());
    let _ = p.release_conn(&k, ConnectionType::H2(5), 3, 4);
    // the first waiter listens no longer
    let task = ConnectorPoolSupport::new(vec![w1]);
    assert!(task.has_gone(w1) && !task.has_gone(w2));
    let (actions, _) = task.poll(&mut p, 5);
    assert_eq!(actions.len(), 1);
    assert!(matches!(
        actions[0],
        Dispatch::Deliver { token, io: ConnectionType::H2(5), created: 3, .. } if token == w2
    ));
    assert_eq!(p.waiting(), 0);
    assert_eq!(p.acquired(), 1);
    assert_eq!(p.idle_count(&k), 0);
}

#[test]
fn a_poll_stops_at_a_candidate_and_goes_on_after_the_probe() {
    let mut p = pool(2);
    let k = key("a");
    let _ = p.acquire(&k, 0);
    let _ = p.acquire(&k, 0);
    let (w1, _) = p.wait_for(k.clone());
    let (w2, _) = p.wait_for(k.clone());
    let _ = p.release_conn(&k, ConnectionType::H1(5), 3, 4);
    p.release();
    let task = ConnectorPoolSupport::new(vec![]);
    let (mut actions, _) = task.poll(&mut p, 5);
    assert_eq!(actions.len(), 1);
    let (token, key, stream, created) = match actions.remove(0) {
        Dispatch::Probe { token, key, stream, created } => (token, key, stream, created),
        _ => panic!("the idle stream is probed first"),
    };
    assert_eq!((token, stream, created), (w1, 5, 3));
    assert_eq!(p.waiting(), 2);
    let (actions, retired) = task.poll_probed(&mut p, token, key, 5, stream, created, Probe::Pending);
    assert!(retired.is_empty());
    assert_eq!(actions.len(), 2);
    assert!(matches!(
        actions[0],
        Dispatch::Deliver { token, io: ConnectionType::H1(5), created: 3, .. } if token == w1
    ));
    assert!(matches!(actions[1], Dispatch::Dial { token, .. } if token == w2));
    assert_eq!(p.waiting(), 0);
    assert_eq!(p.acquired(), 2);
}
