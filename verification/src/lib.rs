/// Fixed-layout event records and the native timeout representation.
pub mod record;
/// Builds one-shot read-interest registration records.
pub mod registrar;
/// Interpretation of native status codes and raw wait results.
pub mod queue;
/// The wait/dispatch loop that drains completions.
pub mod event_loop;
/// A whole run over one queue: open, register, drain, close.
pub mod session;
