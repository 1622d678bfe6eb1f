//! Many processes share one SQLite file through a single broker.
//!
//! The crate holds the logic of the broker, of the library that stands in for
//! `libsqlite3` inside each client, and of the load driver: the wire format,
//! the scheduling of sessions, the state of proxied connections and
//! statements, the command line. Sockets, files, processes and the real SQLite
//! library are the business of the program around it.
pub mod api;
pub mod asking;
pub mod audit;
pub mod base64;
pub mod broker;
pub mod calls;
pub mod claim;
pub mod cli;
pub mod client;
pub mod conversing;
pub mod ctext;
pub mod delivery;
pub mod frame;
pub mod hammer;
pub mod lifetimes;
pub mod load;
pub mod loading;
pub mod migrating;
pub mod number;
pub mod protocol;
pub mod proxy;
pub mod proxying;
pub mod reading;
pub mod rng;
pub mod runner;
pub mod running;
pub mod scheduling;
pub mod session;
pub mod shim;
pub mod statement;
pub mod storm;
pub mod stub;
pub mod text;
pub mod utf8;
pub mod worker;
