//! A scope clock: a value that reads a monotonic clock when it is made and,
//! when it goes out of scope, writes one line `<label>=<nanoseconds>ns` to
//! standard output.
pub mod clock;
pub mod line;

pub use clock::ScopeClock;
pub use line::measurement_line;
