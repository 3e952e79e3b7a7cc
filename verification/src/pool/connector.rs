use vstd::prelude::*;

use crate::header::chars::same_text;
use crate::pool::error::ConnectError;
use crate::pool::service::ConnectionPool;
use crate::pool::types::Protocol;

verus! {

/// Nanoseconds in a millisecond.
pub const MILLISECOND: u64 = 1_000_000;

/// Nanoseconds in a second.
pub const SECOND: u64 = 1_000_000_000;

/// Manages http client network connectivity: the settings from which the
/// pools of a client are made. Times are in nanoseconds.
///
/// The settings are given one by one, and `finish` makes the pools.
#[derive(Clone, Copy, Debug, PartialEq, Eq, Structural)]
pub struct Connector {
    pub timeout: u64,
    pub conn_lifetime: u64,
    pub conn_keep_alive: u64,
    pub disconnect_timeout: u64,
    pub limit: usize,
    /// Whether secure connections can be made.
    pub ssl: bool,
}

/// Which of a client's pools a request goes to.
#[derive(Clone, Copy, Debug, PartialEq, Eq, Structural)]
pub enum Route {
    /// The pool of plain connections.
    Tcp,
    /// The pool of secure connections.
    Ssl,
}

/// The pools of a client: one of plain connections, which are dropped
/// when they are retired, and, where secure connections can be made, one of
/// secure connections, which are shut down cleanly.
pub struct InnerConnector<Io1, Io2, Mux> {
    pub tcp_pool: ConnectionPool<Io1, Mux>,
    pub ssl_pool: Option<ConnectionPool<Io2, Mux>>,
}

/// Whether the scheme of a target asks for a secure connection.
pub open spec fn is_secure(scheme: Option<Seq<char>>) -> bool {
    scheme == Some("https"@) || scheme == Some("wss"@)
}

/// Whether the protocols that the peer selected include HTTP/2: whether
/// the bytes `h2` stand anywhere in them.
pub open spec fn selects_h2(protocols: Seq<u8>) -> bool {
    exists|i: int| 0 <= i < protocols.len() - 1 && protocols[i] == 0x68 && #[trigger] protocols[i
        + 1] == 0x32
}

impl Connector {
    /// The default settings: a second to connect, connections kept for 75
    /// seconds and reused within 15 seconds of their last use, three
    /// seconds for a clean shutdown, and no more than 100 connections at
    /// once.
    pub fn new(ssl: bool) -> (connector: Self)
        ensures
            connector == (Connector {
                timeout: SECOND,
                conn_lifetime: (75 * SECOND) as u64,
                conn_keep_alive: (15 * SECOND) as u64,
                disconnect_timeout: (3000 * MILLISECOND) as u64,
                limit: 100,
                ssl,
            }),
    {
        Connector {
            timeout: SECOND,
            conn_lifetime: 75 * SECOND,
            conn_keep_alive: 15 * SECOND,
            disconnect_timeout: 3000 * MILLISECOND,
            limit: 100,
            ssl,
        }
    }

    /// Connection timeout, i.e. max time to connect to remote host
    /// including dns name resolution.
    pub fn timeout(self, timeout: u64) -> (connector: Self)
        ensures
            connector == (Connector { timeout, ..self }),
    {
        Connector { timeout, ..self }
    }

    /// Set total number of simultaneous connections per type of scheme.
    ///
    /// If limit is 0, the connector has no limit.
    pub fn limit(self, limit: usize) -> (connector: Self)
        ensures
            connector == (Connector { limit, ..self }),
    {
        Connector { limit, ..self }
    }

    /// Set keep-alive period for opened connection.
    ///
    /// Keep-alive period is the period between connection usage. If the
    /// delay between repeated usages of the same connection exceeds this
    /// period, the connection is closed.
    pub fn conn_keep_alive(self, dur: u64) -> (connector: Self)
        ensures
            connector == (Connector { conn_keep_alive: dur, ..self }),
    {
        Connector { conn_keep_alive: dur, ..self }
    }

    /// Set max lifetime period for connection.
    ///
    /// Connection lifetime is max lifetime of any opened connection until
    /// it is closed regardless of keep-alive period.
    pub fn conn_lifetime(self, dur: u64) -> (connector: Self)
        ensures
            connector == (Connector { conn_lifetime: dur, ..self }),
    {
        Connector { conn_lifetime: dur, ..self }
    }

    /// Set server connection disconnect timeout.
    ///
    /// Defines a timeout for disconnect connection. If a disconnect
    /// procedure does not complete within this time, the socket get
    /// dropped. This timeout affects only secure connections.
    pub fn disconnect_timeout(self, dur: u64) -> (connector: Self)
        ensures
            connector == (Connector { disconnect_timeout: dur, ..self }),
    {
        Connector { disconnect_timeout: dur, ..self }
    }

    /// Finish configuration process and create the pools. Both pools get
    /// the limit, the lifetime and the keep-alive period; only the pool of
    /// secure connections, which exists where secure connections can be
    /// made, gets the disconnect timeout.
    pub fn finish<Io1, Io2, Mux>(self) -> (pools: InnerConnector<Io1, Io2, Mux>)
        ensures
            pools.tcp_pool.inner@.wf(),
            !pools.tcp_pool.supported(),
            pools.tcp_pool.inner@.limit == self.limit,
            pools.tcp_pool.inner@.acquired == 0,
            pools.tcp_pool.inner@.lifetime == self.conn_lifetime,
            pools.tcp_pool.inner@.keep_alive == self.conn_keep_alive,
            pools.tcp_pool.inner@.disconnect_timeout.is_none(),
            pools.ssl_pool.is_some() == self.ssl,
            pools.ssl_pool matches Some(pool) ==> {
                &&& pool.inner@.wf()
                &&& !pool.supported()
                &&& pool.inner@.limit == self.limit
                &&& pool.inner@.acquired == 0
                &&& pool.inner@.lifetime == self.conn_lifetime
                &&& pool.inner@.keep_alive == self.conn_keep_alive
                &&& pool.inner@.disconnect_timeout == Some(self.disconnect_timeout)
            },
    {
        InnerConnector {
            tcp_pool: ConnectionPool::new(self.conn_lifetime, self.conn_keep_alive, None, self.limit),
            ssl_pool: if self.ssl {
                Some(
                    ConnectionPool::new(
                        self.conn_lifetime,
                        self.conn_keep_alive,
                        Some(self.disconnect_timeout),
                        self.limit,
                    ),
                )
            } else {
                None
            },
        }
    }

    /// The protocol of a secure connection, from the protocols that the
    /// peer selected in the handshake, if it selected any.
    pub fn protocol(selected: Option<&[u8]>) -> (protocol: Protocol)
        ensures
            protocol == (match selected {
                Some(protocols) => if selects_h2(protocols@) {
                    Protocol::Http2
                } else {
                    Protocol::Http1
                },
                None => Protocol::Http1,
            }),
    {
        let protocols = match selected {
            Some(protocols) => protocols,
            None => {
                return Protocol::Http1;
            },
        };
        let mut at: usize = 1;
        while at < protocols.len()
            invariant
                1 <= at,
                selected == Some(protocols),
                forall|i: int|
                    0 <= i < at - 1 && i < protocols.len() - 1 ==> !(protocols@[i] == 0x68
                        && #[trigger] protocols@[i + 1] == 0x32),
            decreases protocols.len() - at,
        {
            if protocols[at - 1] == 0x68 && protocols[at] == 0x32 {
                assert(protocols@[(at - 1) + 1] == 0x32);
                return Protocol::Http2;
            }
            at += 1;
        }
        Protocol::Http1
    }
}

/// The failure of an attempt to connect that was given a time limit: the
/// connector's own failure where it failed in time, `Timeout` where it did
/// not answer in time.
pub fn timed_out(failure: Option<ConnectError>) -> (outcome: ConnectError)
    ensures
        outcome == (match failure {
            Some(failure) => failure,
            None => ConnectError::Timeout,
        }),
{
    match failure {
        Some(failure) => failure,
        None => ConnectError::Timeout,
    }
}

/// The pool that a request for a target with this scheme goes to, where
/// `ssl` says whether there is a pool of secure connections. The schemes
/// `https` and `wss` go to the pool of secure connections, and are refused
/// where there is none; everything else goes to the pool of plain
/// connections.
pub fn route(scheme: Option<&str>, ssl: bool) -> (route: Result<Route, ConnectError>)
    ensures
        route == (if is_secure(
            match scheme {
                Some(scheme) => Some(scheme@),
                None => None,
            },
        ) {
            if ssl {
                Ok::<Route, ConnectError>(Route::Ssl)
            } else {
                Err(ConnectError::SslIsNotSupported)
            }
        } else {
            Ok(Route::Tcp)
        }),
{
    let secure = match scheme {
        Some(scheme) => same_text(scheme, "https") || same_text(scheme, "wss"),
        None => false,
    };
    if secure {
        if ssl {
            Ok(Route::Ssl)
        } else {
            Err(ConnectError::SslIsNotSupported)
        }
    } else {
        Ok(Route::Tcp)
    }
}

impl<Io1, Io2, Mux> InnerConnector<Io1, Io2, Mux> {
    /// The pool that a request for a target with this scheme goes to.
    pub fn route(&self, scheme: Option<&str>) -> (route: Result<Route, ConnectError>)
        ensures
            route == (if is_secure(
                match scheme {
                    Some(scheme) => Some(scheme@),
                    None => None,
                },
            ) {
                if self.ssl_pool.is_some() {
                    Ok::<Route, ConnectError>(Route::Ssl)
                } else {
                    Err(ConnectError::SslIsNotSupported)
                }
            } else {
                Ok(Route::Tcp)
            }),
    {
        self::route(scheme, self.ssl_pool.is_some())
    }
}

} // verus!
