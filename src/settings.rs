use vstd::prelude::*;

verus! {

/// Resend factor that `ReliableSettings::default` uses, in thousandths.
pub const DEFAULT_RESEND_FACTOR_MILLI: u32 = 1500;

/// Tuning of a reliable sender's retransmissions.
#[derive(Clone, Copy, Debug, PartialEq, Eq, Structural)]
pub struct ReliableSettings {
    /// Multiplies the round-trip estimate to give the resend timeout; in
    /// thousandths, so that one and a half is written 1500.
    pub rtt_resend_factor_milli: u32,
}

impl ReliableSettings {
    /// A resend timeout of one and a half round trips.
    pub fn default() -> (r: Self)
        ensures
            r.rtt_resend_factor_milli == DEFAULT_RESEND_FACTOR_MILLI,
    {
        ReliableSettings { rtt_resend_factor_milli: DEFAULT_RESEND_FACTOR_MILLI }
    }
}

} // verus!
