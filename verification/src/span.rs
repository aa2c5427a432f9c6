//! Lengths of time, to the nanosecond.
use vstd::prelude::*;
use vstd::string::*;

verus! {

/// Nanoseconds in a second.
pub const NANOS_PER_SEC: u32 = 1_000_000_000;

/// A length of time: whole seconds and the nanoseconds beyond them.
#[derive(Debug, Clone, Copy, PartialEq, Eq)]
pub struct Span {
    secs: u64,
    nanos: u32,
}

/// The text that std's `Duration` shows with `{:?}`, for the given seconds and
/// nanoseconds.
pub uninterp spec fn duration_text(secs: u64, nanos: u32) -> Seq<char>;

/// Formats a `std::time::Duration` with `{:?}`. The contract says that the
/// text is a function of the seconds and the nanoseconds; `Duration::new`
/// carries nothing over for fewer than a thousand million nanoseconds, so it
/// does not panic.
#[verifier::external_body]
fn format_duration(secs: u64, nanos: u32) -> (text: String)
    requires
        nanos < NANOS_PER_SEC,
    ensures
        text@ == duration_text(secs, nanos),
{
    format!("{:?}", std::time::Duration::new(secs, nanos))
}

impl Span {
    #[verifier::type_invariant]
    spec fn normal(self) -> bool {
        self.nanos < NANOS_PER_SEC
    }

    /// The whole seconds.
    pub closed spec fn seconds(self) -> u64 {
        self.secs
    }

    /// The nanoseconds beyond the whole seconds.
    pub closed spec fn subsecond(self) -> u32 {
        self.nanos
    }

    /// The length in nanoseconds.
    pub open spec fn total(self) -> nat {
        (self.seconds() * NANOS_PER_SEC + self.subsecond()) as nat
    }

    /// A span of `secs` seconds and `nanos` nanoseconds, if the nanoseconds
    /// are fewer than a second.
    pub fn from_parts(secs: u64, nanos: u32) -> (span: Option<Span>)
        ensures
            nanos < NANOS_PER_SEC ==> (span matches Some(s) && s.seconds() == secs && s.subsecond()
                == nanos),
            nanos >= NANOS_PER_SEC ==> span is None,
    {
        if nanos < NANOS_PER_SEC {
            Some(Span { secs, nanos })
        } else {
            None
        }
    }

    /// A span of whole seconds.
    pub fn from_secs(secs: u64) -> (span: Span)
        ensures
            span.seconds() == secs,
            span.subsecond() == 0,
    {
        Span { secs, nanos: 0 }
    }

    /// A span of whole milliseconds.
    pub fn from_millis(millis: u64) -> (span: Span)
        ensures
            span.seconds() == millis / 1_000,
            span.subsecond() == millis % 1_000 * 1_000_000,
            span.total() == millis * 1_000_000,
    {
        Span { secs: millis / 1_000, nanos: (millis % 1_000) as u32 * 1_000_000 }
    }

    /// The length in nanoseconds.
    pub fn as_nanos(&self) -> (nanos: u128)
        ensures
            nanos == self.total(),
            nanos < 0x1_0000_0000_0000_0000 * 1_000_000_000,
    {
        proof {
            use_type_invariant(self);
        }
        assert(self.secs * 1_000_000_000 + self.nanos < 0x1_0000_0000_0000_0000 * 1_000_000_000)
            by (nonlinear_arith)
            requires
                self.secs < 0x1_0000_0000_0000_0000,
                self.nanos < 1_000_000_000,
        ;
        self.secs as u128 * 1_000_000_000 + self.nanos as u128
    }

    /// The whole seconds and the nanoseconds beyond them.
    pub fn parts(&self) -> (parts: (u64, u32))
        ensures
            parts == (self.seconds(), self.subsecond()),
    {
        (self.secs, self.nanos)
    }

    /// The span as std shows a `Duration` with `{:?}`, such as `30s`.
    pub fn text(&self) -> (text: String)
        ensures
            text@ == duration_text(self.seconds(), self.subsecond()),
    {
        proof {
            use_type_invariant(self);
        }
        format_duration(self.secs, self.nanos)
    }
}

} // verus!
