use vstd::prelude::*;

verus! {

/// Failures that the discovery operations can produce.
///
/// Durations are carried as whole milliseconds.
#[derive(Clone, Copy, Debug, PartialEq, Eq, Structural)]
pub enum Error {
    /// A completed scan found no peripheral whose name contains the fragment.
    DeviceNotFound,
    /// The bounded-retry search reached its total duration, given in
    /// milliseconds, before any scan succeeded.
    TimedOut(u64),
    /// A failure surfaced by the adapter, passed through unchanged by the
    /// caller that performed the adapter calls.
    Adapter,
}

/// Violations reported by the value constructors. Construction never
/// produces a partially valid value: on any violation the constructor
/// fails with the specific fault instead.
#[derive(Clone, Copy, Debug, PartialEq, Eq, Structural)]
pub enum ValueError {
    /// The address constructor was given this many bytes instead of six.
    WrongAddressLength(usize),
}

} // verus!
