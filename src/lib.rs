//! A non-blocking I/O runtime: the error taxonomy, the retry-until-exhausted
//! read/write pumps, the decisions of the OS layer once a syscall has
//! answered, and the reactor's registration table and run state.
pub mod error;
pub mod event_loop;
pub mod io;
pub mod os;
