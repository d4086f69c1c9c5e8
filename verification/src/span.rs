//! Spans of time.
use vstd::prelude::*;

verus! {

/// A span of time: whole seconds, and nanoseconds of less than one more.
#[derive(Debug, Clone, Copy)]
pub struct Span {
    secs: u64,
    nanos: u32,
}

/// How a duration of so many seconds and nanoseconds is printed.
pub uninterp spec fn duration_text(secs: u64, nanos: u32) -> Seq<char>;

/// `<Duration as Debug>::fmt` of std, on the duration of so many seconds and
/// nanoseconds: depends on the two numbers alone. What it prints is left
/// unsaid.
#[verifier::external_body]
fn print_duration(secs: u64, nanos: u32) -> (s: String)
    requires
        nanos < 1_000_000_000,
    ensures
        s@ == duration_text(secs, nanos),
{
    format!("{:?}", std::time::Duration::new(secs, nanos))
}

impl Span {
    #[verifier::type_invariant]
    spec fn normal(self) -> bool {
        self.nanos < 1_000_000_000
    }

    /// The whole seconds.
    pub closed spec fn whole_secs(self) -> u64 {
        self.secs
    }

    /// The nanoseconds beyond the whole seconds.
    pub closed spec fn subsec_nanos(self) -> u32 {
        self.nanos
    }

    /// The whole milliseconds.
    pub open spec fn whole_millis(self) -> int {
        self.whole_secs() * 1000 + self.subsec_nanos() as int / 1_000_000
    }

    /// How the span is printed.
    pub open spec fn text(self) -> Seq<char> {
        duration_text(self.whole_secs(), self.subsec_nanos())
    }

    /// A span of so many seconds and nanoseconds; none if the nanoseconds make
    /// up a second.
    pub fn new(secs: u64, nanos: u32) -> (s: Option<Self>)
        ensures
            match s {
                Some(s) => nanos < 1_000_000_000 && s.whole_secs() == secs && s.subsec_nanos()
                    == nanos,
                None => nanos >= 1_000_000_000,
            },
    {
        if nanos < 1_000_000_000 {
            Some(Span { secs, nanos })
        } else {
            None
        }
    }

    /// A span of whole seconds.
    pub fn from_secs(secs: u64) -> (s: Self)
        ensures
            s.whole_secs() == secs,
            s.subsec_nanos() == 0,
    {
        Span { secs, nanos: 0 }
    }

    /// The whole milliseconds.
    pub fn millis(&self) -> (ms: u128)
        ensures
            ms == self.whole_millis(),
    {
        self.secs as u128 * 1000 + self.nanos as u128 / 1_000_000
    }

    /// How the span is printed.
    pub fn to_text(&self) -> (s: String)
        ensures
            s@ == self.text(),
    {
        proof {
            use_type_invariant(self);
        }
        print_duration(self.secs, self.nanos)
    }
}

} // verus!
