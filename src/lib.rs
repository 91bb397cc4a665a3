//! A uniform model of the host routing table: route values, change events,
//! and the verified codecs and decisions behind each kernel interface.
//!
//! - `route`: the route value, its netmask, and the default-route rule.
//! - `bsd`: the BSD/macOS routing-socket message format, in both directions.
//! - `netlink`: decoding Linux rtnetlink route messages, and the add and
//!   delete decisions.
//! - `iphelper`: Windows forwarding-table rows and status codes.
//! - `fanout`: how a subscriber's change stream treats each delivery.
pub mod addr;
pub mod bsd;
pub mod bsd_round_trip;
pub mod error;
pub mod fanout;
pub mod iphelper;
pub mod netlink;
pub mod route;

pub use addr::IpAddr;
pub use error::{ErrorKind, Reason, RouteError};
pub use route::{Route, RouteChange};
