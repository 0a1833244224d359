//! What holds of the library as a whole.
pub mod call;
pub mod digits;
pub mod looked;
pub mod outcome;
pub mod reply;
pub mod request;
pub mod sent;
pub mod session;
pub mod tables;
