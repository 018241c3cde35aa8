//! An mDNS service-discovery client engine: it builds a PTR query for a
//! service name, decides when the query is due to be sent again, and
//! extracts the address, port and TXT metadata of the matching response.
//!
//! The DNS wire codec is `dns_protocol`; sockets, clocks and the polling
//! loop belong to the caller.

pub mod name;
pub mod txt;
pub mod response;
pub mod codec;
pub mod query;

pub use query::{MdnsError, MdnsQuery};
