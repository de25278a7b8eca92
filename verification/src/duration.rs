use vstd::prelude::*;

verus! {

/// Relies on std::time::SystemTime::now, SystemTime::duration_since and
/// Duration::as_secs: the wall clock's whole seconds since the Unix epoch,
/// or 0 where the clock reads earlier than the epoch. Nothing is promised
/// of the value: it is the current time.
#[verifier::external_body]
fn now_unix_seconds() -> u64 {
    match std::time::SystemTime::now().duration_since(std::time::UNIX_EPOCH) {
        Ok(d) => d.as_secs(),
        Err(_) => 0,
    }
}

/// The duration drawn from a seconds reading: its last decimal digit
/// shifted into the ten values 5 through 14.
pub fn dur_of_secs(secs: u64) -> (r: u64)
    ensures
        r == secs % 10 + 5,
        5 <= r <= 14,
{
    secs % 10 + 5
}

/// Cook duration for one order line: `dur_of_secs` of the wall clock's
/// current seconds, so that rapid successive calls do not all yield one
/// constant; always one of the ten values 5 through 14.
pub fn random_dur() -> (r: u64)
    ensures
        5 <= r <= 14,
{
    dur_of_secs(now_unix_seconds())
}

} // verus!
