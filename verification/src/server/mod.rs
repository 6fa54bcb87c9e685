//! The signaling server: it lets two clients meet in a room and tells each the
//! address of the other.
//!
//! Reading and writing are left to the caller. It gives each connection a number and
//! delivers what is addressed to that number over that connection.

pub mod codes;
pub mod laws;
pub mod registration;
pub mod rooms;
pub mod session;
