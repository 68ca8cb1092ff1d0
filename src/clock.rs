//! The scope clock itself and the clock and output calls it rests on.
use std::io::Write;
use std::time::{Duration, Instant};
use vstd::prelude::*;
use crate::line::{label_fits, line_of, measurement_line};

verus! {

#[verifier::external_type_specification]
#[verifier::external_body]
pub struct ExInstant(std::time::Instant);

/// Relies on `Instant::now`: a reading of the monotonic clock. Nothing is
/// known of its value.
#[verifier::external_body]
fn now() -> Instant
    no_unwind
{
    Instant::now()
}

/// Relies on `Instant::duration_since`: the time from `earlier` to `later`,
/// zero where `earlier` is the later one.
#[verifier::external_body]
fn duration_since(later: &Instant, earlier: &Instant) -> Duration
    no_unwind
{
    later.duration_since(*earlier)
}

/// Relies on `Duration::as_nanos`: the whole nanoseconds in a duration.
#[verifier::external_body]
fn as_nanos(d: &Duration) -> u128
    no_unwind
{
    d.as_nanos()
}

/// Relies on `Stdout`'s `Write` impl: writes `line` and a line break to
/// standard output. A failed write is dropped: this runs while a scope
/// closes, possibly while it unwinds.
#[verifier::external_body]
fn emit(line: &String)
    no_unwind
{
    let _ = writeln!(std::io::stdout(), "{}", line);
}

/// Measures the time from its making until it goes out of scope, and then
/// reports it on standard output as `<scope>=<nanoseconds>ns`.
pub struct ScopeClock {
    scope: &'static str,
    in_time: Instant,
}

impl ScopeClock {
    /// The label leaves room for the digits and the unit in one `String`.
    #[verifier::type_invariant]
    spec fn inv(&self) -> bool {
        label_fits(self.scope@)
    }

    /// The label that this clock reports under.
    pub closed spec fn label(&self) -> Seq<char> {
        self.scope@
    }

    /// Starts a clock for the scope named `scope`. The label is kept as given
    /// and reported when the clock goes out of scope.
    pub fn new(scope: &'static str) -> (r: ScopeClock)
        requires
            label_fits(scope@),
        ensures
            r.label() == scope@,
    {
        ScopeClock { scope: scope, in_time: now() }
    }
}

/// The line that reports the scope `scope`, with the time from `start`
/// until now.
fn finish_line(scope: &str, start: &Instant) -> (r: String)
    requires
        label_fits(scope@),
    ensures
        exists|n: nat| r@ == line_of(scope@, n),
    no_unwind
{
    let out_time = now();
    let elapsed = duration_since(&out_time, start);
    let nanos = as_nanos(&elapsed);
    let r = measurement_line(scope, nanos);
    assert(r@ == line_of(scope@, nanos as nat));
    r
}

/// Reads the clock and writes the line that reports the scope `scope`,
/// begun at `start`.
fn report(scope: &str, start: &Instant)
    requires
        label_fits(scope@),
    no_unwind
{
    let line = finish_line(scope, start);
    emit(&line);
}

impl Drop for ScopeClock {
    /// Reports the scope: one line on standard output with the label and the
    /// nanoseconds since the clock started.
    ///
    /// Verus does not yet check a `drop` that makes a call, so this body is
    /// taken as written: its one call is to the verified `report`, whose
    /// requirement is the type invariant that every `ScopeClock` holds.
    #[verifier::external_body]
    fn drop(&mut self)
        opens_invariants none
        no_unwind
    {
        report(self.scope, &self.in_time);
    }
}

} // verus!
