use vstd::prelude::*;

verus! {

/// Severity of a structured event.
#[derive(Clone, Copy, Debug, PartialEq, Eq, Structural)]
pub enum Level {
    Trace,
    Debug,
    Info,
    Warn,
    Error,
}

/// Severity understood by the native facility.
#[derive(Clone, Copy, Debug, PartialEq, Eq, Structural)]
pub enum NativeLevel {
    Debug,
    Info,
    Error,
}

/// Trace and debug collapse to debug, warn and error to error, info stays.
pub open spec fn spec_native_level(l: Level) -> NativeLevel {
    match l {
        Level::Trace => NativeLevel::Debug,
        Level::Debug => NativeLevel::Debug,
        Level::Info => NativeLevel::Info,
        Level::Warn => NativeLevel::Error,
        Level::Error => NativeLevel::Error,
    }
}

/// Maps an event's severity to the native one.
pub fn native_level(l: Level) -> (r: NativeLevel)
    ensures
        r == spec_native_level(l),
{
    match l {
        Level::Trace => NativeLevel::Debug,
        Level::Debug => NativeLevel::Debug,
        Level::Info => NativeLevel::Info,
        Level::Warn => NativeLevel::Error,
        Level::Error => NativeLevel::Error,
    }
}

} // verus!
