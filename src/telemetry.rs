use vstd::prelude::*;

verus! {

/// When computed packets are encoded and published: only while telemetry is
/// switched on and someone is subscribed, so that with no subscriber no
/// encoding work is done at all.
pub struct TelemetryPolicy {
    enabled: bool,
}

impl TelemetryPolicy {
    pub closed spec fn spec_enabled(&self) -> bool {
        self.enabled
    }

    pub fn new(enabled: bool) -> (r: Self)
        ensures
            r.spec_enabled() == enabled,
    {
        TelemetryPolicy { enabled }
    }

    pub fn is_enabled(&self) -> (r: bool)
        ensures
            r == self.spec_enabled(),
    {
        self.enabled
    }

    /// Whether a packet is to be encoded and sent, given the number of
    /// subscribers.
    pub fn should_publish(&self, subscriber_count: usize) -> (r: bool)
        ensures
            r == (self.spec_enabled() && subscriber_count > 0),
    {
        self.enabled && subscriber_count > 0
    }
}

} // verus!
