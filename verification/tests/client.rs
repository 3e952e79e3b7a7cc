use actori_http::body::{BodySize, BodyStream, SizedStream};
use actori_http::pool::{
    route, timed_out, Answer, CloseConnection, Closing, ConnectError, ConnectionType, Connector,
    Dialed, Inner, InnerConnector, Key, OpenWaitingConnection, Polled, Protocol, Route,
};

const SECOND: u64 = 1_000_000_000;

#[test]
fn body_size_is_eof() {
    assert!(BodySize::NoBody.is_eof());
    assert!(BodySize::Empty.is_eof());
    assert!(BodySize::Sized(0).is_eof());
    assert!(BodySize::Sized64(0).is_eof());
    assert!(!BodySize::Sized(1).is_eof());
    assert!(!BodySize::Sized64(1).is_eof());
    assert!(!BodySize::Stream.is_eof());
}

#[test]
fn stream_bodies_announce_their_size() {
    let body: BodyStream<Vec<u8>, ()> = BodyStream::new(vec![1, 2, 3]);
    assert_eq!(body.size(), BodySize::Stream);
    assert_eq!(body.into_inner(), vec![1, 2, 3]);
    let body = SizedStream::new(25, vec![1u8]);
    assert_eq!(body.size(), BodySize::Sized64(25));
    assert_eq!(body.into_inner(), vec![1u8]);
}

#[test]
fn connector_defaults() {
    let c = Connector::new(false);
    assert_eq!(c.timeout, SECOND);
    assert_eq!(c.conn_lifetime, 75 * SECOND);
    assert_eq!(c.conn_keep_alive, 15 * SECOND);
    assert_eq!(c.disconnect_timeout, 3 * SECOND);
    assert_eq!(c.limit, 100);
    assert!(!c.ssl);
}

#[test]
fn connector_settings() {
    let c = Connector::new(true)
        .timeout(5)
        .limit(7)
        .conn_keep_alive(11)
        .conn_lifetime(13)
        .disconnect_timeout(17);
    assert_eq!(
        c,
        Connector {
            timeout: 5,
            conn_lifetime: 13,
            conn_keep_alive: 11,
            disconnect_timeout: 17,
            limit: 7,
            ssl: true
        }
    );
}

#[test]
fn only_the_secure_pool_shuts_connections_down() {
    let pools: InnerConnector<u32, u32, u32> = Connector::new(true).limit(1).finish();
    let mut tcp = pools.tcp_pool.inner;
    let mut ssl = pools.ssl_pool.unwrap().inner;
    assert_eq!(tcp.limit(), 1);
    assert_eq!(ssl.limit(), 1);
    let k = Key::new("a");
    let _ = tcp.acquire(&k, 0);
    let _ = ssl.acquire(&k, 0);
    let (plan, _) = tcp.release_close(actori_http::pool::ConnectionType::H1(1));
    assert!(matches!(plan, actori_http::pool::Retired::Discard(_)));
    let (plan, _) = ssl.release_close(actori_http::pool::ConnectionType::H1(1));
    assert!(matches!(
        plan,
        actori_http::pool::Retired::Shutdown { io: actori_http::pool::ConnectionType::H1(1), timeout }
            if timeout == 3 * SECOND
    ));
}

#[test]
fn requests_are_routed_by_scheme() {
    let plain: InnerConnector<u32, u32, u32> = Connector::new(false).finish();
    assert!(plain.ssl_pool.is_none());
    assert_eq!(plain.route(Some("http")), Ok(Route::Tcp));
    assert_eq!(plain.route(Some("ws")), Ok(Route::Tcp));
    assert_eq!(plain.route(None), Ok(Route::Tcp));
    assert_eq!(plain.route(Some("https")), Err(ConnectError::SslIsNotSupported));
    assert_eq!(plain.route(Some("wss")), Err(ConnectError::SslIsNotSupported));
    assert_eq!(route(Some("https"), false), Err(ConnectError::SslIsNotSupported));
    assert_eq!(route(Some("wss"), true), Ok(Route::Ssl));
    assert_eq!(route(Some("ftp"), true), Ok(Route::Tcp));
    let secure: InnerConnector<u32, u32, u32> = Connector::new(true).finish();
    assert_eq!(secure.route(Some("https")), Ok(Route::Ssl));
    assert_eq!(secure.route(Some("wss")), Ok(Route::Ssl));
    assert_eq!(secure.route(Some("HTTPS")), Ok(Route::Tcp));
    assert_eq!(secure.route(Some("http")), Ok(Route::Tcp));
}

#[test]
fn protocol_follows_the_selected_protocols() {
    assert_eq!(Connector::protocol(None), Protocol::Http1);
    assert_eq!(Connector::protocol(Some(b"")), Protocol::Http1);
    assert_eq!(Connector::protocol(Some(b"h")), Protocol::Http1);
    assert_eq!(Connector::protocol(Some(b"h2")), Protocol::Http2);
    assert_eq!(Connector::protocol(Some(b"http/1.1")), Protocol::Http1);
    assert_eq!(Connector::protocol(Some(b"xh2")), Protocol::Http2);
    assert_eq!(Connector::protocol(Some(b"h 2")), Protocol::Http1);
    assert_eq!(Connector::protocol(Some(b"2h")), Protocol::Http1);
}

#[test]
fn a_connector_that_is_too_slow_times_out() {
    assert_eq!(timed_out(None), ConnectError::Timeout);
    assert_eq!(timed_out(Some(ConnectError::Disconnected)), ConnectError::Disconnected);
}

#[test]
fn shutdown_races_the_timeout() {
    let closing = CloseConnection::new(7u32, 3 * SECOND);
    assert_eq!(closing.io, 7);
    assert_eq!(closing.timeout, 3 * SECOND);
    assert_eq!(closing.timer_polled(true), Closing::Done);
    assert_eq!(closing.timer_polled(false), Closing::Shutdown);
    assert_eq!(closing.shutdown_polled(true), Closing::Done);
    assert_eq!(closing.shutdown_polled(false), Closing::Pending);
    assert!(closing.poll(true, false));
    assert!(closing.poll(false, true));
    assert!(closing.poll(true, true));
    assert!(!closing.poll(false, false));
}

fn charged_pool() -> Inner<u32, u32> {
    let mut pool = Inner::new(75 * SECOND, 15 * SECOND, None, 1);
    let _ = pool.acquire(&Key::new("a"), 0);
    let _ = pool.wait_for(Key::new("a"));
    pool
}

#[test]
fn dial_task_delivers_an_http1_connection() {
    let mut pool = charged_pool();
    let mut task = OpenWaitingConnection::spawn(Key::new("a"));
    assert!(task.is_live());
    assert!(!task.is_handshaking());
    match task.connected(&mut pool, Some(Protocol::Http1)) {
        Dialed::DeliverH1(lease) => assert!(lease.is_live()),
        _ => panic!("an HTTP/1 connection is delivered at once"),
    }
    assert!(!task.is_live());
    assert_eq!(pool.acquired(), 1);
    // the task has ended: nothing more happens
    assert!(matches!(task.connected(&mut pool, Some(Protocol::Http1)), Dialed::Ended));
    assert!(matches!(task.handshaken(&mut pool, true), Dialed::Ended));
    assert!(!task.dropped(&mut pool));
    assert_eq!(pool.acquired(), 1);
}

#[test]
fn dial_task_handshakes_for_http2() {
    let mut pool = charged_pool();
    let mut task = OpenWaitingConnection::spawn(Key::new("a"));
    assert!(matches!(task.handshaken(&mut pool, true), Dialed::Ended));
    assert!(matches!(task.connected(&mut pool, Some(Protocol::Http2)), Dialed::Handshake));
    assert!(task.is_handshaking());
    assert!(task.is_live());
    assert!(matches!(task.connected(&mut pool, Some(Protocol::Http1)), Dialed::Ended));
    match task.handshaken(&mut pool, true) {
        Dialed::DeliverH2(lease) => assert!(lease.endpoint().same(&Key::new("a"))),
        _ => panic!("the session is delivered"),
    }
    assert_eq!(pool.acquired(), 1);
}

#[test]
fn dial_task_gives_capacity_back_when_opening_fails() {
    let mut pool = charged_pool();
    let mut task = OpenWaitingConnection::spawn(Key::new("a"));
    assert!(matches!(task.connected(&mut pool, None), Dialed::Fail { wake: true }));
    assert_eq!(pool.acquired(), 0);
    assert!(!task.is_live());

    let mut pool = charged_pool();
    let mut task = OpenWaitingConnection::spawn(Key::new("a"));
    let _ = task.connected(&mut pool, Some(Protocol::Http2));
    assert!(matches!(task.handshaken(&mut pool, false), Dialed::Fail { wake: true }));
    assert_eq!(pool.acquired(), 0);
}

#[test]
fn dial_task_gives_capacity_back_when_dropped() {
    let mut pool = charged_pool();
    let mut task = OpenWaitingConnection::spawn(Key::new("a"));
    assert!(task.dropped(&mut pool));
    assert_eq!(pool.acquired(), 0);
    assert!(!task.dropped(&mut pool));
    assert_eq!(pool.acquired(), 0);
}

#[test]
fn polling_the_dial_task_delivers_or_keeps_the_connection() {
    // the caller listens: the lease is to be sent
    let mut pool = charged_pool();
    let mut task = OpenWaitingConnection::spawn(Key::new("a"));
    assert!(matches!(
        task.poll(&mut pool, Answer::<u32, u32>::Pending, true, 1),
        Polled::Pending
    ));
    match task.poll(&mut pool, Answer::Connected(7, Protocol::Http1), true, 2) {
        Polled::Send(lease) => {
            assert!(matches!(lease.get_ref(), ConnectionType::H1(7)));
            assert_eq!(lease.opened_at(), 2);
            assert!(lease.is_charged());
        }
        _ => panic!("the lease is sent"),
    }
    assert_eq!(pool.acquired(), 1);
    assert_eq!(pool.idle_count(&Key::new("a")), 0);
    assert!(matches!(
        task.poll(&mut pool, Answer::<u32, u32>::Failed, true, 3),
        Polled::Misplaced(None)
    ));

    // the caller has gone: the connection goes into the pool
    let mut pool = charged_pool();
    let mut task = OpenWaitingConnection::spawn(Key::new("a"));
    assert!(matches!(
        task.poll(&mut pool, Answer::Connected(7, Protocol::Http1), false, 2),
        Polled::Kept { dropped: None, wake: true }
    ));
    assert_eq!(pool.acquired(), 0);
    assert_eq!(pool.idle_count(&Key::new("a")), 1);
    assert!(!task.is_live());
}

#[test]
fn polling_the_dial_task_through_a_handshake() {
    let mut pool = charged_pool();
    let mut task = OpenWaitingConnection::spawn(Key::new("a"));
    assert!(matches!(
        task.poll(&mut pool, Answer::Handshaken(9), true, 1),
        Polled::Misplaced(Some(ConnectionType::H2(9)))
    ));
    assert!(matches!(
        task.poll(&mut pool, Answer::Connected(7, Protocol::Http2), true, 1),
        Polled::Handshake(7)
    ));
    assert!(matches!(
        task.poll(&mut pool, Answer::Connected(8, Protocol::Http1), true, 1),
        Polled::Misplaced(Some(ConnectionType::H1(8)))
    ));
    match task.poll(&mut pool, Answer::Handshaken(9), true, 5) {
        Polled::Send(lease) => {
            assert!(matches!(lease.get_ref(), ConnectionType::H2(9)));
            assert_eq!(lease.opened_at(), 5);
        }
        _ => panic!("the session is sent"),
    }
    assert_eq!(pool.acquired(), 1);

    let mut pool = charged_pool();
    let mut task = OpenWaitingConnection::spawn(Key::new("a"));
    let _ = task.poll(&mut pool, Answer::Connected(7, Protocol::Http2), true, 1);
    assert!(matches!(
        task.poll(&mut pool, Answer::<u32, u32>::Failed, true, 2),
        Polled::Fail { wake: true }
    ));
    assert_eq!(pool.acquired(), 0);
}
