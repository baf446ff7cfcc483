//! Named counters, each kept as the decimal text of one integer in a file.
//!
//! The library holds the rules: how a value is written and read back, what
//! each store operation does to a counter's file, how a key press changes an
//! interactive session, and how menu and name input is read. The program
//! around it performs the file and terminal work.
pub mod codec;
pub mod store;
pub mod session;
pub mod input;
