//! The core of a lending library's web service, verified with Verus.
//!
//! The service answers one request per connection. This crate holds every
//! decision that it takes and leaves to its caller what touches the world:
//! sockets, threads, files and the clock.
//!
//! * [`pool`] keeps the books of a fixed-size worker pool: the queue of
//!   jobs and who runs what.
//! * [`request`] reads a request off a connection, line by line, as a state
//!   machine; [`route`] finds the handler of a request in an ordered table;
//!   [`dispatch`] calls it; [`handlers`] are the handlers; [`response`] puts
//!   the answer on the wire.
//! * [`db`] is the shared ledger of users, books and borrow records. Each of
//!   its operations is one step from one state to the next, stated in
//!   [`rules`]; what holds of every sequence of them is proved in [`laws`].
//! * [`credentials`] and [`json`] call the outside crates that hash
//!   passwords, sign tokens and read and write JSON; [`encode`],
//!   [`datetime`] and [`text`] are the helpers.

pub mod credentials;
pub mod datetime;
pub mod db;
pub mod dispatch;
pub mod encode;
pub mod handlers;
pub mod json;
pub mod laws;
pub mod pool;
pub mod request;
pub mod response;
pub mod route;
pub mod rules;
pub mod text;
