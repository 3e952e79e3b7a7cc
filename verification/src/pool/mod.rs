//! The client connection pool: a bookkeeping core that decides which connection a
//! request gets, when a new one is opened, and who waits.

pub mod close;
pub mod connection;
pub mod connector;
pub mod dial;
pub mod error;
pub mod guard;
pub mod history;
pub mod inner;
pub mod laws;
pub mod model;
pub mod order;
pub mod registry;
pub mod service;
pub mod slots;
pub mod support;
pub mod types;

pub use self::close::{CloseConnection, Closing};
pub use self::connection::IoConnection;
pub use self::connector::{route, timed_out, Connector, InnerConnector, Route};
pub use self::dial::{Answer, Dialed, OpenWaitingConnection, Polled};
pub use self::error::ConnectError;
pub use self::guard::{Acquired, OpenGuard, WaiterGuard};
pub use self::inner::Inner;
pub use self::model::{Acquire, Dispatch, Scan};
pub use self::service::{Call, Called, ConnectionPool, Opened};
pub use self::support::ConnectorPoolSupport;
pub use self::types::{
    retire, AvailableConnection, ConnectionType, Key, Probe, Protocol, Retired, Waiter,
};
